//! Preemptive task scheduling: a run queue per priority level.
use std::collections::BTreeMap;
use std::collections::VecDeque;
use vstd::prelude::*;

verus! {

/// Highest priority level.
pub const MAX_LEVEL: usize = 3;
/// Lowest priority level.
pub const MIN_LEVEL: usize = 0;
/// Level a new task starts with.
pub const DEFAULT_LEVEL: usize = 1;
/// Number of run queues, one per level.
pub const NUM_LEVELS: usize = 4;

/// Hands out identifiers in increasing order, wrapping around.
#[derive(Debug)]
pub struct IdGenerator {
    next: u64,
}

impl IdGenerator {
    /// The identifier the next call of `next_id` returns.
    pub closed spec fn peek(&self) -> u64 {
        self.next
    }

    /// A generator that starts at 0.
    pub fn new() -> (r: IdGenerator)
        ensures
            r.peek() == 0,
    {
        IdGenerator { next: 0 }
    }

    /// Returns the current identifier and advances (wrapping) to the next.
    pub fn next_id(&mut self) -> (r: u64)
        ensures
            r == old(self).peek(),
            final(self).peek() == (if old(self).peek() == u64::MAX {
                0
            } else {
                (old(self).peek() + 1) as u64
            }),
    {
        let r = self.next;
        self.next = self.next.wrapping_add(1);
        r
    }
}

/// Identifier of a task.
#[derive(Debug, Clone, Copy, PartialEq, Eq, Structural)]
pub struct TaskId(pub u64);

impl TaskId {
    /// A fresh identifier from `ids`.
    pub fn new(ids: &mut IdGenerator) -> (r: TaskId)
        ensures
            r.0 == old(ids).peek(),
            final(ids).peek() == (if old(ids).peek() == u64::MAX {
                0
            } else {
                (old(ids).peek() + 1) as u64
            }),
    {
        TaskId(ids.next_id())
    }
}

/// A task as the scheduler sees it: its identifier and priority level.
#[derive(Debug, Clone, Copy, PartialEq, Eq, Structural)]
pub struct Task {
    id: TaskId,
    level: usize,
}

impl Task {
    /// The task's identifier.
    pub closed spec fn spec_id(&self) -> TaskId {
        self.id
    }

    /// The task's priority level.
    pub closed spec fn spec_level(&self) -> usize {
        self.level
    }

    /// The task that describes the code running at boot, at the default level.
    pub fn new_main(ids: &mut IdGenerator) -> (r: Task)
        ensures
            r.spec_id().0 == old(ids).peek(),
            r.spec_level() == DEFAULT_LEVEL,
            final(ids).peek() == (if old(ids).peek() == u64::MAX {
                0
            } else {
                (old(ids).peek() + 1) as u64
            }),
    {
        Task { id: TaskId::new(ids), level: DEFAULT_LEVEL }
    }

    /// A new task at the default level.
    pub fn new(ids: &mut IdGenerator) -> (r: Task)
        ensures
            r.spec_id().0 == old(ids).peek(),
            r.spec_level() == DEFAULT_LEVEL,
            final(ids).peek() == (if old(ids).peek() == u64::MAX {
                0
            } else {
                (old(ids).peek() + 1) as u64
            }),
    {
        Task { id: TaskId::new(ids), level: DEFAULT_LEVEL }
    }

    /// The task's identifier.
    pub fn id(&self) -> (r: TaskId)
        ensures
            r == self.spec_id(),
    {
        self.id
    }

    /// The task's priority level.
    pub fn level(&self) -> (r: usize)
        ensures
            r == self.spec_level(),
    {
        self.level
    }

    /// Sets the task's priority level.
    pub fn set_level(&mut self, level: usize)
        ensures
            final(self).spec_id() == old(self).spec_id(),
            final(self).spec_level() == level,
    {
        self.level = level;
    }
}

/// The two tasks of a context switch: the one to run next and the one that
/// was running.
#[derive(Debug)]
pub struct SwitchTask {
    pub next_task: Task,
    pub current_task: Task,
}

/// Highest level in `lo..=hi` whose queue is not empty, or -1.
pub open spec fn highest_nonempty(qs: Seq<Seq<TaskId>>, lo: int, hi: int) -> int
    decreases hi - lo + 1,
{
    if hi < lo {
        -1
    } else if qs[hi].len() > 0 {
        hi
    } else {
        highest_nonempty(qs, lo, hi - 1)
    }
}

proof fn lemma_highest_nonempty(qs: Seq<Seq<TaskId>>, lo: int, hi: int)
    requires
        0 <= lo,
    ensures
        highest_nonempty(qs, lo, hi) == -1 || lo <= highest_nonempty(qs, lo, hi) <= hi,
        highest_nonempty(qs, lo, hi) >= lo ==> qs[highest_nonempty(qs, lo, hi)].len() > 0,
        forall|l: int|
            highest_nonempty(qs, lo, hi) < l <= hi && lo <= l ==> #[trigger] qs[l].len() == 0,
    decreases hi - lo + 1,
{
    if hi >= lo && qs[hi].len() == 0 {
        lemma_highest_nonempty(qs, lo, hi - 1);
    }
}

/// The run queues after waking task `id`: it joins the queue of its level
/// unless it is unknown, running, or queued already.
pub open spec fn woken_queues(
    qs: Seq<Seq<TaskId>>,
    tasks: Map<u64, Task>,
    current: TaskId,
    id: TaskId,
) -> Seq<Seq<TaskId>> {
    if !tasks.contains_key(id.0) {
        qs
    } else {
        let l = tasks[id.0].spec_level() as int;
        if current == id || qs[l].contains(id) {
            qs
        } else {
            qs.update(l, qs[l].push(id))
        }
    }
}

/// The run queues after putting task `id`, which is not running, to sleep:
/// it leaves the queue of its level.
pub open spec fn slept_queues(qs: Seq<Seq<TaskId>>, tasks: Map<u64, Task>, id: TaskId) -> Seq<
    Seq<TaskId>,
> {
    if !tasks.contains_key(id.0) {
        qs
    } else {
        let l = tasks[id.0].spec_level() as int;
        if qs[l].contains(id) {
            qs.update(l, qs[l].remove(qs[l].index_of(id)))
        } else {
            qs
        }
    }
}

/// The run queues after a context switch away from `cur` (of level
/// `cur_level`) to the first task of queue `h`: that task leaves its queue and,
/// unless `cur` goes to sleep, `cur` joins the queue of its level.
pub open spec fn switched_queues(
    qs: Seq<Seq<TaskId>>,
    h: int,
    cur: TaskId,
    cur_level: int,
    sleep_current: bool,
) -> Seq<Seq<TaskId>> {
    let q1 = qs.update(h, qs[h].drop_first());
    if sleep_current {
        q1
    } else {
        q1.update(cur_level, q1[cur_level].push(cur))
    }
}

/// The task manager: every task, the running one and a run queue per level.
#[derive(Debug)]
pub struct TaskManager {
    tasks: BTreeMap<u64, Task>,
    current_task_id: TaskId,
    wake_queue: Vec<VecDeque<TaskId>>,
}

impl TaskManager {
    /// Every known task, by identifier.
    pub closed spec fn tasks(&self) -> Map<u64, Task> {
        self.tasks@
    }

    /// The identifier of the running task.
    pub closed spec fn current_id(&self) -> TaskId {
        self.current_task_id
    }

    /// The run queues, lowest level first.
    pub closed spec fn queues(&self) -> Seq<Seq<TaskId>> {
        Seq::new(self.wake_queue@.len(), |l: int| self.wake_queue@[l]@)
    }

    /// The manager's invariant: the running task is known and queued nowhere;
    /// each queued task is known, sits in the queue of its own level, once.
    pub open spec fn wf(&self) -> bool {
        &&& self.queues().len() == NUM_LEVELS
        &&& self.tasks().contains_key(self.current_id().0)
        &&& forall|k: u64|
            #![trigger self.tasks()[k]]
            self.tasks().contains_key(k) ==> self.tasks()[k].spec_id().0 == k
        &&& forall|l: int, i: int|
            #![trigger self.queues()[l][i]]
            0 <= l < NUM_LEVELS && 0 <= i < self.queues()[l].len() ==> {
                let id = self.queues()[l][i];
                &&& self.tasks().contains_key(id.0)
                &&& self.tasks()[id.0].spec_level() == l
                &&& id != self.current_id()
            }
        &&& forall|l: int, i: int, j: int|
            #![trigger self.queues()[l][i], self.queues()[l][j]]
            0 <= l < NUM_LEVELS && 0 <= i < j < self.queues()[l].len() ==> self.queues()[l][i]
                != self.queues()[l][j]
    }

    /// Whether task `id` has a queue: a known task other than the running
    /// one must have a level of at most `MAX_LEVEL` to wait or be taken out
    /// of a queue.
    pub open spec fn has_queue(&self, id: TaskId) -> bool {
        self.tasks().contains_key(id.0) && id != self.current_id() ==> self.tasks()[id.0].spec_level()
            <= MAX_LEVEL
    }

    /// Whether the running task has a queue to rejoin.
    pub open spec fn current_has_queue(&self) -> bool {
        self.tasks()[self.current_id().0].spec_level() <= MAX_LEVEL
    }

    /// A manager that knows only `current_task`, which is running.
    pub fn new(current_task: Task) -> (r: TaskManager)
        ensures
            r.wf(),
            r.tasks() == Map::<u64, Task>::empty().insert(current_task.spec_id().0, current_task),
            r.current_id() == current_task.spec_id(),
            forall|l: int| 0 <= l < NUM_LEVELS ==> #[trigger] r.queues()[l].len() == 0,
    {
        let current_task_id = current_task.id();
        let mut tasks = BTreeMap::new();
        tasks.insert(current_task_id.0, current_task);
        let mut wake_queue: Vec<VecDeque<TaskId>> = Vec::new();
        wake_queue.push(VecDeque::with_capacity(1));
        wake_queue.push(VecDeque::with_capacity(1));
        wake_queue.push(VecDeque::with_capacity(1));
        wake_queue.push(VecDeque::with_capacity(1));
        let r = TaskManager { tasks, current_task_id, wake_queue };
        assert(r.queues().len() == 4);
        r
    }

    /// Adds `task`, which is not known yet, without waking it.
    pub fn spawn(&mut self, task: Task)
        requires
            old(self).wf(),
            !old(self).tasks().contains_key(task.spec_id().0),
        ensures
            final(self).wf(),
            final(self).tasks() == old(self).tasks().insert(task.spec_id().0, task),
            final(self).current_id() == old(self).current_id(),
            final(self).queues() == old(self).queues(),
    {
        let task_id = task.id();
        let _ = self.tasks.insert(task_id.0, task);
        // make room for every task in each queue, so that waking and
        // switching need no allocation
        let ghost qs = self.queues();
        let ghost tasks = self.tasks();
        let n = self.tasks.len();
        let mut l: usize = 0;
        while l < self.wake_queue.len()
            invariant
                l <= self.wake_queue@.len(),
                self.queues() == qs,
                self.tasks() == tasks,
                self.current_task_id == old(self).current_task_id,
            decreases self.wake_queue@.len() - l,
        {
            let len = self.wake_queue[l].len();
            if n > len {
                self.wake_queue[l].reserve(n - len);
            }
            assert(self.queues() =~= qs);
            l = l + 1;
        }
    }

    /// The running task.
    pub fn current_task(&self) -> (r: Task)
        requires
            self.wf(),
        ensures
            r == self.tasks()[self.current_id().0],
    {
        *self.tasks.get(&self.current_task_id.0).unwrap()
    }

    /// Requests to run task `task_id`: it joins the queue of its level unless
    /// it is unknown (finished), running, or waiting already.
    pub fn wake(&mut self, task_id: TaskId)
        requires
            old(self).wf(),
            old(self).has_queue(task_id),
        ensures
            final(self).wf(),
            final(self).tasks() == old(self).tasks(),
            final(self).current_id() == old(self).current_id(),
            final(self).queues() == woken_queues(
                old(self).queues(),
                old(self).tasks(),
                old(self).current_id(),
                task_id,
            ),
    {
        let level = match self.tasks.get(&task_id.0) {
            Some(task) => task.level(),
            None => return,
        };
        if self.current_task_id == task_id || queue_position(&self.wake_queue[level], task_id).is_some() {
            return;
        }
        let ghost qs = self.queues();
        self.wake_queue[level].push_back(task_id);
        assert(self.queues() == qs.update(level as int, qs[level as int].push(task_id)));
    }


    /// Takes the next task to run at level `task_level` or above: the first
    /// task of the highest non-empty queue.
    pub fn pop_next_task(&mut self, task_level: usize) -> (r: Option<Task>)
        requires
            old(self).wf(),
            task_level <= MAX_LEVEL,
        ensures
            final(self).wf(),
            final(self).tasks() == old(self).tasks(),
            final(self).current_id() == old(self).current_id(),
            ({
                let qs = old(self).queues();
                let h = highest_nonempty(qs, task_level as int, MAX_LEVEL as int);
                if h < 0 {
                    r is None && final(self).queues() == qs
                } else {
                    &&& r == Some(old(self).tasks()[qs[h][0].0])
                    &&& final(self).queues() == qs.update(h, qs[h].drop_first())
                }
            }),
    {
        let ghost qs = self.queues();
        proof {
            lemma_highest_nonempty(qs, task_level as int, MAX_LEVEL as int);
        }
        let mut l: usize = NUM_LEVELS;
        while l > task_level
            invariant
                self.wf(),
                self.tasks() == old(self).tasks(),
                self.current_id() == old(self).current_id(),
                qs == self.queues(),
                qs == old(self).queues(),
                task_level <= l <= NUM_LEVELS,
                task_level <= MAX_LEVEL,
                highest_nonempty(qs, task_level as int, MAX_LEVEL as int) == -1 || task_level
                    <= highest_nonempty(qs, task_level as int, MAX_LEVEL as int) <= MAX_LEVEL,
                highest_nonempty(qs, task_level as int, MAX_LEVEL as int) >= task_level ==> qs[highest_nonempty(qs, task_level as int, MAX_LEVEL as int)].len() > 0,
                forall|k: int|
                    highest_nonempty(qs, task_level as int, MAX_LEVEL as int) < k <= MAX_LEVEL && task_level <= k
                        ==> #[trigger] qs[k].len() == 0,
                forall|k: int| l <= k < NUM_LEVELS ==> #[trigger] qs[k].len() == 0,
            decreases l,
        {
            l = l - 1;
            let ghost q = qs[l as int];
            match self.wake_queue[l].pop_front() {
                Some(id) => {
                    assert(q.len() > 0 && id == q[0]);
                    assert(self.queues() == qs.update(l as int, q.drop_first()));
                    assert(highest_nonempty(qs, task_level as int, MAX_LEVEL as int) == l);
                    assert(qs[l as int][0] == id);
                    match self.tasks.get(&id.0) {
                        Some(task) => {
                            assert(self.tasks() == old(self).tasks());
                            assert(*task == self.tasks()[id.0]);
                            return Some(*task);
                        },
                        None => {
                            assert(false);
                        },
                    }
                },
                None => {
                    assert(self.queues() == qs);
                },
            }
        }
        None
    }


    /// Chooses the task to run instead of the running one: the first task of
    /// the highest non-empty queue at the running task's level or above (any
    /// level when the running task goes to sleep). The running task rejoins
    /// its queue unless it goes to sleep. Nothing changes when there is none.
    pub fn switch_context(&mut self, sleep_current: bool) -> (r: Option<SwitchTask>)
        requires
            old(self).wf(),
            !sleep_current ==> old(self).current_has_queue(),
        ensures
            final(self).wf(),
            final(self).tasks() == old(self).tasks(),
            ({
                let qs = old(self).queues();
                let cur = old(self).current_id();
                let cur_task = old(self).tasks()[cur.0];
                let lvl = if sleep_current {
                    MIN_LEVEL as int
                } else {
                    cur_task.spec_level() as int
                };
                let h = highest_nonempty(qs, lvl, MAX_LEVEL as int);
                if h < 0 {
                    &&& r is None
                    &&& final(self).queues() == qs
                    &&& final(self).current_id() == cur
                } else {
                    let next = qs[h][0];
                    &&& r == Some(
                        SwitchTask { next_task: old(self).tasks()[next.0], current_task: cur_task },
                    )
                    &&& final(self).current_id() == next
                    &&& final(self).queues() == switched_queues(
                        qs,
                        h,
                        cur,
                        cur_task.spec_level() as int,
                        sleep_current,
                    )
                }
            }),
    {
        let ghost qs = self.queues();
        let current_task = self.current_task();
        let next_task_level = if sleep_current {
            MIN_LEVEL
        } else {
            current_task.level()
        };
        let ghost h = highest_nonempty(qs, next_task_level as int, MAX_LEVEL as int);
        proof {
            lemma_highest_nonempty(qs, next_task_level as int, MAX_LEVEL as int);
        }
        let next_task = match self.pop_next_task(next_task_level) {
            Some(next_task) => {
                if next_task.id() == current_task.id() {
                    proof {
                        let nid = qs[h][0];
                        assert(qs[h][0] == nid);
                        assert(self.tasks()[nid.0].spec_id().0 == nid.0);
                        assert(nid != old(self).current_id());
                        assert(false);
                    }
                    return None;
                }
                next_task
            },
            None => return None,
        };
        let ghost q1 = self.queues();
        assert(q1[h].len() + 1 == qs[h].len());
        assert forall|i: int| 0 <= i < q1[h].len() implies #[trigger] q1[h][i] != qs[h][0] by {
            assert(q1[h][i] == qs[h][i + 1]);
        }
        if !sleep_current {
            let level = current_task.level();
            self.wake_queue[level].push_back(current_task.id());
            assert(self.queues() == q1.update(level as int, q1[level as int].push(current_task.spec_id())));
        }
        self.current_task_id = next_task.id();
        Some(SwitchTask { next_task, current_task })
    }

    /// Puts task `task_id` to sleep: the running task is switched away from
    /// (as by `switch_context(true)`); any other task leaves its queue.
    pub fn sleep(&mut self, task_id: TaskId) -> (r: Option<SwitchTask>)
        requires
            old(self).wf(),
            old(self).has_queue(task_id),
        ensures
            final(self).wf(),
            final(self).tasks() == old(self).tasks(),
            old(self).current_id() != task_id ==> {
                &&& r is None
                &&& final(self).current_id() == old(self).current_id()
                &&& final(self).queues() == slept_queues(old(self).queues(), old(self).tasks(), task_id)
            },
            old(self).current_id() == task_id ==> ({
                let qs = old(self).queues();
                let cur = old(self).current_id();
                let cur_task = old(self).tasks()[cur.0];
                let h = highest_nonempty(qs, MIN_LEVEL as int, MAX_LEVEL as int);
                if h < 0 {
                    &&& r is None
                    &&& final(self).queues() == qs
                    &&& final(self).current_id() == cur
                } else {
                    let next = qs[h][0];
                    &&& r == Some(
                        SwitchTask { next_task: old(self).tasks()[next.0], current_task: cur_task },
                    )
                    &&& final(self).current_id() == next
                    &&& final(self).queues() == switched_queues(
                        qs,
                        h,
                        cur,
                        cur_task.spec_level() as int,
                        true,
                    )
                }
            }),
    {
        if self.current_task_id == task_id {
            // sleep running task
            return self.switch_context(true);
        }
        let level = match self.tasks.get(&task_id.0) {
            Some(task) => task.level(),
            None => return None,  // finished task
        };
        let idx = match queue_position(&self.wake_queue[level], task_id) {
            Some(idx) => idx,
            None => return None,
        };
        let ghost qs = self.queues();
        proof {
            let q = qs[level as int];
            assert(q.contains(task_id));
            let j = q.index_of(task_id);
            if j != idx as int {
                if j < idx {
                    assert(q[j] != q[idx as int]);
                } else {
                    assert(q[idx as int] != q[j]);
                }
            }
        }
        let _ = self.wake_queue[level].remove(idx);
        assert(self.queues() == qs.update(level as int, qs[level as int].remove(idx as int)));
        None
    }

}

/// Index of the first occurrence of `id` in `q`.
fn queue_position(q: &VecDeque<TaskId>, id: TaskId) -> (r: Option<usize>)
    ensures
        match r {
            Some(i) => i < q@.len() && q@[i as int] == id && forall|j: int| 0 <= j < i ==> q@[j] != id,
            None => !q@.contains(id),
        },
{
    let mut i: usize = 0;
    while i < q.len()
        invariant
            i <= q@.len(),
            forall|j: int| 0 <= j < i ==> q@[j] != id,
        decreases q@.len() - i,
    {
        if q[i] == id {
            return Some(i);
        }
        i = i + 1;
    }
    None
}

/// Adds `task` to the manager and requests to run it; returns its identifier.
pub fn spawn(task_manager: &mut TaskManager, task: Task) -> (r: TaskId)
    requires
        old(task_manager).wf(),
        !old(task_manager).tasks().contains_key(task.spec_id().0),
        task.spec_level() <= MAX_LEVEL,
    ensures
        r == task.spec_id(),
        final(task_manager).wf(),
        final(task_manager).tasks() == old(task_manager).tasks().insert(task.spec_id().0, task),
        final(task_manager).current_id() == old(task_manager).current_id(),
        final(task_manager).queues() == woken_queues(
            old(task_manager).queues(),
            final(task_manager).tasks(),
            old(task_manager).current_id(),
            task.spec_id(),
        ),
{
    let task_id = task.id();
    task_manager.spawn(task);
    task_manager.wake(task_id);
    task_id
}

/// Requests to run task `task_id` (see `TaskManager::wake`).
pub fn wake(task_manager: &mut TaskManager, task_id: TaskId)
    requires
        old(task_manager).wf(),
        old(task_manager).has_queue(task_id),
    ensures
        final(task_manager).wf(),
        final(task_manager).tasks() == old(task_manager).tasks(),
        final(task_manager).current_id() == old(task_manager).current_id(),
        final(task_manager).queues() == woken_queues(
            old(task_manager).queues(),
            old(task_manager).tasks(),
            old(task_manager).current_id(),
            task_id,
        ),
{
    task_manager.wake(task_id)
}

/// The running task.
pub fn current(task_manager: &TaskManager) -> (r: Task)
    requires
        task_manager.wf(),
    ensures
        r == task_manager.tasks()[task_manager.current_id().0],
{
    task_manager.current_task()
}

/// What the timer interrupt decides: switch to the next task of the running
/// task's level or above, the running task rejoining its queue.
pub fn on_interrupt(task_manager: &mut TaskManager) -> (r: Option<SwitchTask>)
    requires
        old(task_manager).wf(),
        old(task_manager).current_has_queue(),
    ensures
        final(task_manager).wf(),
        final(task_manager).tasks() == old(task_manager).tasks(),
        ({
            let qs = old(task_manager).queues();
            let cur = old(task_manager).current_id();
            let cur_task = old(task_manager).tasks()[cur.0];
            let h = highest_nonempty(qs, cur_task.spec_level() as int, MAX_LEVEL as int);
            if h < 0 {
                &&& r is None
                &&& final(task_manager).queues() == qs
                &&& final(task_manager).current_id() == cur
            } else {
                let next = qs[h][0];
                &&& r == Some(
                    SwitchTask { next_task: old(task_manager).tasks()[next.0], current_task: cur_task },
                )
                &&& final(task_manager).current_id() == next
                &&& final(task_manager).queues() == switched_queues(
                    qs,
                    h,
                    cur,
                    cur_task.spec_level() as int,
                    false,
                )
            }
        }),
{
    task_manager.switch_context(false)
}

/// Waking a task twice has the effect of waking it once.
pub proof fn law_wake_idempotent(tm: TaskManager, id: TaskId)
    requires
        tm.wf(),
        tm.has_queue(id),
    ensures
        ({
            let once = woken_queues(tm.queues(), tm.tasks(), tm.current_id(), id);
            woken_queues(once, tm.tasks(), tm.current_id(), id) == once
        }),
{
    let qs = tm.queues();
    if tm.tasks().contains_key(id.0) {
        let l = tm.tasks()[id.0].spec_level() as int;
        if !(tm.current_id() == id || qs[l].contains(id)) {
            let once = qs.update(l, qs[l].push(id));
            assert(once[l][qs[l].len() as int] == id);
            assert(once[l].contains(id));
        }
    }
}

/// Putting a task to sleep right after waking it (when it was neither running
/// nor waiting) leaves the run queues as they were.
pub proof fn law_sleep_undoes_wake(tm: TaskManager, id: TaskId)
    requires
        tm.wf(),
        tm.tasks().contains_key(id.0),
        tm.current_id() != id,
        tm.tasks()[id.0].spec_level() <= MAX_LEVEL,
        forall|l: int| 0 <= l < NUM_LEVELS ==> !(#[trigger] tm.queues()[l]).contains(id),
    ensures
        slept_queues(
            woken_queues(tm.queues(), tm.tasks(), tm.current_id(), id),
            tm.tasks(),
            id,
        ) == tm.queues(),
{
    let qs = tm.queues();
    let l = tm.tasks()[id.0].spec_level() as int;
    assert(!qs[l].contains(id));
    let once = qs.update(l, qs[l].push(id));
    let n = qs[l].len() as int;
    assert(once[l][n] == id);
    assert(once[l].contains(id));
    let j = once[l].index_of(id);
    assert(0 <= j < once[l].len() && once[l][j] == id);
    if j < n {
        assert(qs[l][j] == id);
        assert(false);
    }
    assert(once[l].remove(n) == qs[l]);
    assert(once.update(l, once[l].remove(j)) == qs);
}

/// After a task is spawned, it waits at the end of the queue of its level.
pub proof fn law_spawn_queues_task(tm: TaskManager, task: Task)
    requires
        tm.wf(),
        !tm.tasks().contains_key(task.spec_id().0),
        task.spec_level() <= MAX_LEVEL,
    ensures
        ({
            let tasks = tm.tasks().insert(task.spec_id().0, task);
            let qs = woken_queues(tm.queues(), tasks, tm.current_id(), task.spec_id());
            let l = task.spec_level() as int;
            &&& qs[l] == tm.queues()[l].push(task.spec_id())
            &&& forall|k: int| 0 <= k < NUM_LEVELS && k != l ==> #[trigger] qs[k] == tm.queues()[k]
        }),
{
    let l = task.spec_level() as int;
    let id = task.spec_id();
    assert(tm.current_id() != id);
    if tm.queues()[l].contains(id) {
        let i = choose|i: int| 0 <= i < tm.queues()[l].len() && tm.queues()[l][i] == id;
        assert(tm.tasks().contains_key(tm.queues()[l][i].0));
    }
}


/// Identifier of a cooperative task.
#[derive(Debug, Clone, Copy, PartialEq, Eq, Structural)]
pub struct CoTaskId(pub u64);

impl CoTaskId {
    /// A fresh identifier from `ids`.
    pub fn new(ids: &mut IdGenerator) -> (r: CoTaskId)
        ensures
            r.0 == old(ids).peek(),
            final(ids).peek() == (if old(ids).peek() == u64::MAX {
                0
            } else {
                (old(ids).peek() + 1) as u64
            }),
    {
        CoTaskId(ids.next_id())
    }
}

} // verus!
