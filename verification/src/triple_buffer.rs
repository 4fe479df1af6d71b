//! Triple buffering between one producer and one consumer: the producer fills
//! one buffer while the consumer reads another; a third holds the latest
//! finished value.
use vstd::prelude::*;

verus! {

/// Largest epoch a buffer can carry: an epoch shares a word with an index.
pub const MAX_EPOCH: u64 = 0x3fff_ffff_ffff_ffff;

/// Packs a buffer index and an epoch into one state word.
pub fn state_new(index: usize, epoch: u64) -> (r: u64)
    requires
        index < 3,
        epoch <= MAX_EPOCH,
    ensures
        r == spec_state(index as u64, epoch),
        r & 3 == index,
        r >> 2 == epoch,
{
    let i = index as u64;
    assert((i | (epoch << 2u64)) & 3 == i && (i | (epoch << 2u64)) >> 2u64 == epoch) by (bit_vector)
        requires
            i < 3,
            epoch <= 0x3fff_ffff_ffff_ffffu64,
    ;
    i | (epoch << 2u64)
}

/// The state word of buffer `index` at epoch `epoch`.
pub open spec fn spec_state(index: u64, epoch: u64) -> u64 {
    index | (epoch << 2u64)
}

/// The buffer index a state word names.
pub fn state_to_index(state: u64) -> (r: usize)
    ensures
        r == state & 3,
        r < 4,
{
    assert(state & 3 < 4) by (bit_vector);
    (state & 3) as usize
}

/// Replaces `*target` by `new` unless it equals `comp`; returns the previous
/// value, as `Ok` when it was replaced and as `Err` otherwise.
pub fn exchange_if_ne(target: &mut u64, comp: u64, new: u64) -> (r: core::result::Result<u64, u64>)
    ensures
        *old(target) != comp ==> r == Ok::<u64, u64>(*old(target)) && *final(target) == new,
        *old(target) == comp ==> r == Err::<u64, u64>(*old(target)) && *final(target) == *old(target),
{
    let current = *target;
    if current != comp {
        *target = new;
        Ok(current)
    } else {
        Err(current)
    }
}

/// The observable state of a triple buffer: the shared state word, the
/// epochs and values of the three buffers, the consumer's present buffer and
/// last written state word, and the producer's in-progress buffer.
pub struct TripleView<T> {
    pub state: u64,
    pub epochs: Seq<u64>,
    pub values: Seq<T>,
    pub present: int,
    pub swap_state: u64,
    pub in_progress: int,
}

/// The state after the producer publishes its in-progress buffer: it becomes
/// the ready buffer and the previously ready one is filled next, one epoch on.
pub open spec fn stored_view<T>(v: TripleView<T>) -> TripleView<T> {
    let swap_epoch = v.epochs[v.in_progress];
    let new_ip = (v.state & 3) as int;
    let new_epoch = if swap_epoch + 1 > MAX_EPOCH {
        0u64
    } else {
        (swap_epoch + 1) as u64
    };
    TripleView {
        state: spec_state(v.in_progress as u64, swap_epoch),
        epochs: v.epochs.update(new_ip, new_epoch),
        in_progress: new_ip,
        ..v
    }
}

/// The state after the consumer looks for a newer value: when the state word
/// changed since it last wrote it, it takes the ready buffer and hands its
/// present one back.
pub open spec fn loaded_view<T>(v: TripleView<T>) -> TripleView<T> {
    let swap_state = spec_state(v.present as u64, v.epochs[v.present]);
    if v.state != v.swap_state {
        TripleView {
            state: swap_state,
            swap_state: swap_state,
            present: (v.state & 3) as int,
            ..v
        }
    } else {
        v
    }
}

/// The invariant of a triple buffer: the present, ready and in-progress
/// buffers are three distinct buffers, the state word names the ready buffer
/// and its epoch, and the consumer's last written word never names its
/// present buffer.
pub open spec fn view_wf<T>(v: TripleView<T>) -> bool {
    &&& v.epochs.len() == 3
    &&& v.values.len() == 3
    &&& 0 <= v.present < 3
    &&& 0 <= v.in_progress < 3
    &&& (v.state & 3) < 3
    &&& v.present != v.in_progress
    &&& v.present != (v.state & 3) as int
    &&& v.in_progress != (v.state & 3) as int
    &&& forall|i: int| 0 <= i < 3 ==> #[trigger] v.epochs[i] <= MAX_EPOCH
    &&& v.state >> 2 == v.epochs[(v.state & 3) as int]
    &&& (v.swap_state & 3) != v.present
}

/// Epochs have not wrapped around: the in-progress buffer's epoch is above
/// every epoch published or seen so far.
pub open spec fn fresh_epochs<T>(v: TripleView<T>) -> bool {
    &&& v.epochs[v.in_progress] > v.epochs[v.present]
    &&& v.epochs[v.in_progress] > v.epochs[(v.state & 3) as int]
    &&& v.epochs[v.in_progress] > v.swap_state >> 2
}

proof fn lemma_spec_state(i: u64, e: u64)
    requires
        i < 3,
        e <= MAX_EPOCH,
    ensures
        spec_state(i, e) & 3 == i,
        spec_state(i, e) >> 2 == e,
{
    assert((i | (e << 2u64)) & 3 == i && (i | (e << 2u64)) >> 2u64 == e) by (bit_vector)
        requires
            i < 3,
            e <= 0x3fff_ffff_ffff_ffffu64,
    ;
}

/// Publishing keeps the invariant.
pub proof fn law_store_keeps_wf<T>(v: TripleView<T>)
    requires
        view_wf(v),
    ensures
        view_wf(stored_view(v)),
{
    lemma_spec_state(v.in_progress as u64, v.epochs[v.in_progress]);
}

/// Looking for a newer value keeps the invariant.
pub proof fn law_load_keeps_wf<T>(v: TripleView<T>)
    requires
        view_wf(v),
    ensures
        view_wf(loaded_view(v)),
{
    lemma_spec_state(v.present as u64, v.epochs[v.present]);
}

/// What the producer publishes, the consumer's next look presents, as long as
/// epochs do not wrap around.
pub proof fn law_load_gets_stored<T>(v: TripleView<T>)
    requires
        view_wf(v),
        fresh_epochs(v),
    ensures
        ({
            let w = loaded_view(stored_view(v));
            w.values[w.present] == v.values[v.in_progress]
        }),
{
    lemma_spec_state(v.in_progress as u64, v.epochs[v.in_progress]);
}

/// Looking twice presents what looking once presents.
pub proof fn law_load_idempotent<T>(v: TripleView<T>)
    requires
        view_wf(v),
    ensures
        loaded_view(loaded_view(v)) == loaded_view(v),
{
    lemma_spec_state(v.present as u64, v.epochs[v.present]);
}

/// Epochs stay ordered through a publication that does not wrap around and
/// through any look of the consumer.
pub proof fn law_fresh_epochs_kept<T>(v: TripleView<T>)
    requires
        view_wf(v),
        fresh_epochs(v),
    ensures
        v.epochs[v.in_progress] < MAX_EPOCH ==> fresh_epochs(stored_view(v)),
        fresh_epochs(loaded_view(v)),
{
    lemma_spec_state(v.in_progress as u64, v.epochs[v.in_progress]);
    lemma_spec_state(v.present as u64, v.epochs[v.present]);
}

/// Three buffers shared by a producer and a consumer.
pub struct TripleBuffer<T> {
    state: u64,
    epochs: Vec<u64>,
    values: Vec<T>,
    present: usize,
    swap_state: u64,
    in_progress: usize,
}

impl<T> TripleBuffer<T> {
    /// The observable state.
    pub closed spec fn view(&self) -> TripleView<T> {
        TripleView {
            state: self.state,
            epochs: self.epochs@,
            values: self.values@,
            present: self.present as int,
            swap_state: self.swap_state,
            in_progress: self.in_progress as int,
        }
    }

    /// The invariant: the present, ready and in-progress buffers are three
    /// distinct buffers, the state word names the ready buffer and its epoch,
    /// and the consumer's last written word never names its present buffer.
    pub open spec fn wf(&self) -> bool {
        view_wf(self.view())
    }

    /// Three buffers holding clones of `buffer`: the consumer presents one,
    /// one is ready, the producer fills the third.
    pub fn new(buffer: T) -> (r: TripleBuffer<T>) where T: Clone
        ensures
            r.wf(),
            r.view().state == 1,
            r.view().epochs == seq![0u64, 0u64, 1u64],
            r.view().present == 0,
            r.view().swap_state == 1,
            r.view().in_progress == 2,
            cloned(buffer, r.view().values[0]),
            cloned(buffer, r.view().values[1]),
            r.view().values[2] == buffer,
    {
        let b0 = buffer.clone();
        let b1 = buffer.clone();
        let mut values: Vec<T> = Vec::new();
        values.push(b0);
        values.push(b1);
        values.push(buffer);
        let mut epochs: Vec<u64> = Vec::new();
        epochs.push(0);
        epochs.push(0);
        epochs.push(1);
        let state = state_new(1, 0);
        assert((1u64 | (0u64 << 2u64)) == 1u64) by (bit_vector);
        let swap_state = state_new(1, 0);
        let r = TripleBuffer { state, epochs, values, present: 0, swap_state, in_progress: 2 };
        assert(r.view().epochs == seq![0u64, 0u64, 1u64]);
        r
    }

    /// The buffer the producer fills.
    pub fn producer_buffer(&self) -> (r: &T)
        requires
            self.wf(),
        ensures
            *r == self.view().values[self.view().in_progress],
    {
        &self.values[self.in_progress]
    }

    /// Replaces the content of the buffer the producer fills.
    pub fn set_producer_buffer(&mut self, value: T)
        requires
            old(self).wf(),
        ensures
            final(self).wf(),
            final(self).view() == (TripleView {
                values: old(self).view().values.update(old(self).view().in_progress, value),
                ..old(self).view()
            }),
    {
        self.values.set(self.in_progress, value);
    }

    /// The buffer the consumer presents.
    pub fn consumer_buffer(&self) -> (r: &T)
        requires
            self.wf(),
        ensures
            *r == self.view().values[self.view().present],
    {
        &self.values[self.present]
    }

    /// Epoch of the buffer the producer fills.
    pub fn producer_epoch(&self) -> (r: u64)
        requires
            self.wf(),
        ensures
            r == self.view().epochs[self.view().in_progress],
    {
        self.epochs[self.in_progress]
    }

    /// Epoch of the buffer the consumer presents.
    pub fn consumer_epoch(&self) -> (r: u64)
        requires
            self.wf(),
        ensures
            r == self.view().epochs[self.view().present],
    {
        self.epochs[self.present]
    }

    /// Epoch of the ready buffer.
    pub fn ready_epoch(&self) -> (r: u64)
        requires
            self.wf(),
        ensures
            r == self.view().epochs[(self.view().state & 3) as int],
    {
        let ready = state_to_index(self.state);
        self.epochs[ready]
    }

    /// The producer publishes its buffer (see `stored_view`).
    pub fn store(&mut self)
        requires
            old(self).wf(),
        ensures
            final(self).wf(),
            final(self).view() == stored_view(old(self).view()),
    {
        // swap in-progress buffer and ready buffer
        let swap_epoch = self.epochs[self.in_progress];
        let swap_state = state_new(self.in_progress, swap_epoch);
        let old_state = self.state;
        self.state = swap_state;
        // update new in-progress buffer index & epoch
        self.in_progress = state_to_index(old_state);
        let mut new_epoch = if swap_epoch < MAX_EPOCH {
            swap_epoch + 1
        } else {
            0
        };
        self.epochs.set(self.in_progress, new_epoch);
        assert(self.view().epochs == old(self).view().epochs.update(
            self.in_progress as int,
            new_epoch,
        ));
    }

    /// The consumer takes the ready buffer when the producer published one
    /// since the consumer last looked (see `loaded_view`).
    pub fn load(&mut self)
        requires
            old(self).wf(),
        ensures
            final(self).wf(),
            final(self).view() == loaded_view(old(self).view()),
    {
        let epoch = self.epochs[self.present];
        let swap_state = state_new(self.present, epoch);
        let prev_swap_state = self.swap_state;
        match exchange_if_ne(&mut self.state, prev_swap_state, swap_state) {
            Ok(old_state) => {
                self.swap_state = swap_state;
                self.present = state_to_index(old_state);
            },
            Err(_) => {},
        }
    }
}

} // verus!
