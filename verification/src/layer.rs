//! Layers: window buffers stacked on the screen, composed into a back
//! buffer, moved and dragged with the mouse.
use std::collections::BTreeMap;
use vstd::prelude::*;

verus! {

use crate::error::{Error, ErrorKind, Result};
use crate::graphics::buffer_drawer::{spec_pixel_drawer, BufferDrawer, Canvas, ScreenInfo};
use crate::graphics::color::Color;
use crate::graphics::geometry::{fits_i32, Point, Rectangle};
use crate::task::IdGenerator;

/// Height of the desktop layer.
pub const DESKTOP_HEIGHT: usize = 0;
/// Height of the console layer.
pub const CONSOLE_HEIGHT: usize = 1;
/// Height of the main window's layer.
pub const MAIN_WINDOW_ID: usize = 2;
/// Height of the mouse cursor's layer.
pub const MOUSE_CURSOR_HEIGHT: usize = 3;

/// Largest coordinate, and size, a layer can have.
pub const COORD_LIMIT: i32 = 0x1000_0000;

/// Whether `v` is within the coordinate limit.
pub open spec fn in_limit(v: int) -> bool {
    -COORD_LIMIT <= v <= COORD_LIMIT
}

/// Whether a rectangle's corner and size are within the coordinate limit.
pub open spec fn rect_in_limit(r: Rectangle) -> bool {
    &&& in_limit(r.pos.x as int)
    &&& in_limit(r.pos.y as int)
    &&& 0 <= r.size.x <= COORD_LIMIT
    &&& 0 <= r.size.y <= COORD_LIMIT
}

/// Identifier of a layer.
#[derive(Debug, Clone, Copy, PartialEq, Eq, Structural)]
pub struct LayerId(pub u32);

impl LayerId {
    /// A fresh identifier from `ids`: the generator's value, kept to 32 bits.
    pub fn new(ids: &mut IdGenerator) -> (r: LayerId)
        ensures
            r.0 == old(ids).peek() as u32,
            final(ids).peek() == (if old(ids).peek() == u64::MAX {
                0
            } else {
                (old(ids).peek() + 1) as u64
            }),
    {
        LayerId(ids.next_id() as u32)
    }
}

/// A window's pixels and the color, if any, that shows what is below.
pub struct LayerBuffer {
    transparent_color: Option<Color>,
    buffer: BufferDrawer,
}

impl LayerBuffer {
    /// A zeroed buffer of `size` laid out as the screen is, with no
    /// transparent color.
    pub fn new(size: Point, screen_info: ScreenInfo) -> (r: Result<LayerBuffer>)
        requires
            crate::graphics::buffer_drawer::screen_info_wf(screen_info),
            fits_i32(size.x * size.y * screen_info.bytes_per_pixel),
            fits_i32(size.x * size.y),
            fits_i32(size.y * screen_info.bytes_per_pixel),
        ensures
            (size.x < 0 || size.y < 0) ==> r == Err::<LayerBuffer, Error>(
                Error { kind: ErrorKind::TryFromInt },
            ),
            (0 <= size.x && 0 <= size.y) ==> match spec_pixel_drawer(screen_info.pixel_format) {
                Some(d) => r matches Ok(b) && b.transparent_color() is None && b.canvas().wf()
                    && b.canvas().size == size && b.canvas().drawer == d && b.canvas().bytes == Seq::new(
                    (size.x * size.y * screen_info.bytes_per_pixel) as nat,
                    |i: int| 0u8,
                ),
                None => r == Err::<LayerBuffer, Error>(
                    Error { kind: ErrorKind::UnsupportedPixelFormat },
                ),
            },
    {
        match BufferDrawer::new_shadow(size, screen_info) {
            Ok(buffer) => Ok(LayerBuffer { transparent_color: None, buffer }),
            Err(e) => Err(e),
        }
    }

    /// A buffer over `buffer` with the given transparent color.
    pub fn from_buffer(buffer: BufferDrawer, transparent_color: Option<Color>) -> (r: LayerBuffer)
        ensures
            r.canvas() == buffer@,
            r.transparent_color() == transparent_color,
    {
        LayerBuffer { transparent_color, buffer }
    }

    /// The pixels.
    pub closed spec fn canvas(&self) -> Canvas {
        self.buffer@
    }

    /// The color that shows what is below.
    pub closed spec fn transparent_color(&self) -> Option<Color> {
        self.transparent_color
    }

    /// Sets the color that shows what is below.
    pub fn set_transparent_color(&mut self, tc: Option<Color>)
        ensures
            final(self).transparent_color() == tc,
            final(self).canvas() == old(self).canvas(),
    {
        self.transparent_color = tc;
    }

    /// The pixels, for drawing.
    pub fn buffer(&self) -> (r: &BufferDrawer)
        ensures
            r@ == self.canvas(),
    {
        &self.buffer
    }

    /// Width and height.
    pub fn size(&self) -> (r: Point)
        ensures
            r == self.canvas().size,
    {
        self.buffer.size()
    }

    /// Sets the pixel at `p` to `c`.
    pub fn draw(&mut self, p: Point, c: Color)
        requires
            old(self).canvas().wf(),
        ensures
            final(self).canvas() == old(self).canvas().drawn(p, c),
            final(self).transparent_color() == old(self).transparent_color(),
    {
        self.buffer.draw(p, c);
    }

    /// Moves the pixels of `src` by `offset` (see `BufferDrawer::move_area`).
    pub fn move_area(&mut self, offset: Point, src: Rectangle)
        requires
            old(self).canvas().wf(),
            src.wf(),
            fits_i32(offset.x + old(self).canvas().size.x),
            fits_i32(offset.y + old(self).canvas().size.y),
        ensures
            final(self).canvas() == old(self).canvas().moved(offset, src),
            final(self).transparent_color() == old(self).transparent_color(),
    {
        self.buffer.move_area(offset, src);
    }

    /// Draws the bytes `bytes` with `font` from `pos` in `color` (see
    /// `draw_byte_str`); returns the rectangle they occupy.
    pub fn draw_byte_str(&mut self, font: &crate::graphics::font::Font, pos: Point, bytes: &[u8], color: Color) -> (r: Rectangle)
        requires
            old(self).canvas().wf(),
            font.wf(),
            fits_i32(pos.x + crate::graphics::font::FONT_WIDTH * bytes@.len()),
            fits_i32(crate::graphics::font::FONT_WIDTH * bytes@.len()),
            fits_i32(pos.x + crate::graphics::font::FONT_WIDTH),
            fits_i32(pos.y + crate::graphics::font::FONT_HEIGHT),
        ensures
            r == crate::graphics::font::text_rect(pos, bytes@.len() as int),
            final(self).canvas().wf(),
            old(self).canvas().same_layout(final(self).canvas()),
            forall|q: Point| #[trigger]
                final(self).canvas().color_at(q) == (if crate::graphics::font::text_pixel(font.glyphs(), pos, bytes@, q)
                    && old(self).canvas().area().contains_spec(q) {
                    Some(old(self).canvas().drawer.shown(color))
                } else {
                    old(self).canvas().color_at(q)
                }),
            final(self).transparent_color() == old(self).transparent_color(),
    {
        crate::graphics::font::draw_byte_str(&mut self.buffer, font, pos, bytes, color)
    }

    /// Paints every pixel of `rect` with `c`.
    pub fn fill_rect(&mut self, rect: Rectangle, c: Color)
        requires
            old(self).canvas().wf(),
            rect.wf(),
        ensures
            final(self).canvas().wf(),
            old(self).canvas().same_layout(final(self).canvas()),
            forall|q: Point| #[trigger]
                final(self).canvas().color_at(q) == (if rect.contains_spec(q)
                    && old(self).canvas().area().contains_spec(q) {
                    Some(old(self).canvas().drawer.shown(c))
                } else {
                    old(self).canvas().color_at(q)
                }),
            final(self).transparent_color() == old(self).transparent_color(),
    {
        self.buffer.fill_rect(rect, c);
    }
}

/// What a layer holds: its id, position, whether it can be dragged, its
/// transparent color and pixels.
pub struct LayerView {
    pub id: u32,
    pub pos: Point,
    pub draggable: bool,
    pub transparent: Option<Color>,
    pub canvas: Canvas,
}

impl LayerView {
    /// The part of the screen the layer covers.
    pub open spec fn area(self) -> Rectangle {
        Rectangle { pos: self.pos, size: self.canvas.size }
    }

    /// Position and size within the coordinate limit, pixels well formed.
    pub open spec fn wf(self) -> bool {
        &&& self.canvas.wf()
        &&& rect_in_limit(self.area())
    }

    /// The layer's pixel under screen point `q`.
    pub open spec fn pixel_at(self, q: Point) -> Point {
        Point { x: (q.x - self.pos.x) as i32, y: (q.y - self.pos.y) as i32 }
    }

    /// Whether the layer shows a pixel of its own at `q` within `area`: `q`
    /// is in both, and the pixel there is not the transparent color.
    pub open spec fn covers(self, area: Rectangle, q: Point) -> bool {
        &&& area.contains_spec(q)
        &&& self.canvas.color_at(self.pixel_at(q)) matches Some(c)
        &&& self.transparent != Some(c)
    }

    /// The color of the layer's pixel at screen point `q`.
    pub open spec fn color_at(self, q: Point) -> Color {
        self.canvas.color_at(self.pixel_at(q)).unwrap()
    }
}

/// The colors of `back` after `layers` are drawn on it in order within
/// `area`: at each point, the last layer that covers it, else `back`'s own.
pub open spec fn composed_color(back: Canvas, layers: Seq<LayerView>, area: Rectangle, q: Point) -> Option<Color>
    decreases layers.len(),
{
    if layers.len() == 0 {
        back.color_at(q)
    } else {
        let l = layers.last();
        if l.covers(area, q) && back.area().contains_spec(q) {
            Some(back.drawer.shown(l.color_at(q)))
        } else {
            composed_color(back, layers.drop_last(), area, q)
        }
    }
}

/// A window's layer: where it is on the screen, whether it can be dragged,
/// and its pixels.
pub struct Layer {
    id: LayerId,
    pos: Point,
    draggable: bool,
    buffer: LayerBuffer,
}

impl View for Layer {
    type V = LayerView;

    closed spec fn view(&self) -> LayerView {
        LayerView {
            id: self.id.0,
            pos: self.pos,
            draggable: self.draggable,
            transparent: self.buffer.transparent_color(),
            canvas: self.buffer.canvas(),
        }
    }
}

impl Layer {
    /// A layer with a fresh id at the top-left, not draggable.
    pub fn new(ids: &mut IdGenerator, buffer: LayerBuffer) -> (r: Layer)
        ensures
            r@.id == old(ids).peek() as u32,
            r@.pos == (Point { x: 0, y: 0 }),
            !r@.draggable,
            r@.transparent == buffer.transparent_color(),
            r@.canvas == buffer.canvas(),
            final(ids).peek() == (if old(ids).peek() == u64::MAX {
                0
            } else {
                (old(ids).peek() + 1) as u64
            }),
    {
        Layer { id: LayerId::new(ids), pos: Point { x: 0, y: 0 }, draggable: false, buffer }
    }

    /// The layer's id.
    pub fn id(&self) -> (r: LayerId)
        ensures
            r.0 == self@.id,
    {
        self.id
    }

    /// Sets whether the layer can be dragged.
    pub fn set_draggable(&mut self, draggable: bool)
        ensures
            final(self)@ == (LayerView { draggable, ..old(self)@ }),
    {
        self.draggable = draggable;
    }

    /// Moves the layer to `pos`.
    pub fn move_to(&mut self, pos: Point)
        ensures
            final(self)@ == (LayerView { pos, ..old(self)@ }),
    {
        self.pos = pos;
    }

    /// Replaces the layer's pixels.
    pub fn set_buffer(&mut self, buffer: LayerBuffer)
        ensures
            final(self)@ == (LayerView {
                transparent: buffer.transparent_color(),
                canvas: buffer.canvas(),
                ..old(self)@
            }),
    {
        self.buffer = buffer;
    }

    /// The part of the screen the layer covers.
    pub fn area(&self) -> (r: Rectangle)
        ensures
            r == self@.area(),
    {
        Rectangle { pos: self.pos, size: self.buffer.size() }
    }

    /// Draws the layer's pixels that lie in `dst_area` onto `back`, leaving
    /// out those of the transparent color.
    pub fn draw_to(&self, back: &mut BufferDrawer, dst_area: Rectangle)
        requires
            old(back)@.wf(),
            self@.wf(),
            rect_in_limit(dst_area),
        ensures
            final(back)@.wf(),
            old(back)@.same_layout(final(back)@),
            forall|q: Point| #[trigger]
                final(back)@.color_at(q) == (if self@.covers(dst_area, q) && old(back)@.area().contains_spec(q) {
                    Some(old(back)@.drawer.shown(self@.color_at(q)))
                } else {
                    old(back)@.color_at(q)
                }),
    {
        let ghost start = back@;
        let ghost l = self@;
        let src = Rectangle {
            pos: Point { x: dst_area.pos.x - self.pos.x, y: dst_area.pos.y - self.pos.y },
            size: dst_area.size,
        };
        let inner = match src.intersection(self.buffer.buffer.area()) {
            Some(r) => r,
            None => {
                assert forall|q: Point| !#[trigger] l.covers(dst_area, q) by {
                    if l.covers(dst_area, q) {
                        assert(src.contains_spec(l.pixel_at(q)));
                        assert(self.buffer.buffer@.area().contains_spec(l.pixel_at(q)));
                    }
                }
                return ;
            },
        };
        let tc = self.buffer.transparent_color;
        let x0 = inner.pos.x;
        let y0 = inner.pos.y;
        let x1 = inner.pos.x + inner.size.x;
        let y1 = inner.pos.y + inner.size.y;
        let mut y = y0;
        while y < y1
            invariant
                y0 <= y <= y1,
                x0 == inner.pos.x,
                y0 == inner.pos.y,
                x1 == inner.x_end_spec(),
                y1 == inner.y_end_spec(),
                src.spec_intersection(l.canvas.area()) == Some(inner),
                x0 < x1,
                src.pos.x == dst_area.pos.x - l.pos.x,
                src.pos.y == dst_area.pos.y - l.pos.y,
                src.size == dst_area.size,
                l == self@,
                l.wf(),
                rect_in_limit(dst_area),
                tc == l.transparent,
                start.wf(),
                back@.wf(),
                start.same_layout(back@),
                forall|q: Point| #[trigger]
                    back@.color_at(q) == (if l.covers(dst_area, q) && l.pixel_at(q).y < y
                        && start.area().contains_spec(q) {
                        Some(start.drawer.shown(l.color_at(q)))
                    } else {
                        start.color_at(q)
                    }),
            decreases y1 - y,
        {
            let mut x = x0;
            while x < x1
                invariant
                    x0 <= x <= x1,
                    y0 <= y < y1,
                    x0 == inner.pos.x,
                    y0 == inner.pos.y,
                    x1 == inner.x_end_spec(),
                    y1 == inner.y_end_spec(),
                    src.spec_intersection(l.canvas.area()) == Some(inner),
                x0 < x1,
                    src.pos.x == dst_area.pos.x - l.pos.x,
                    src.pos.y == dst_area.pos.y - l.pos.y,
                    src.size == dst_area.size,
                    l == self@,
                    l.wf(),
                    rect_in_limit(dst_area),
                    tc == l.transparent,
                    start.wf(),
                    back@.wf(),
                    start.same_layout(back@),
                    forall|q: Point| #[trigger]
                        back@.color_at(q) == (if l.covers(dst_area, q) && (l.pixel_at(q).y < y || (
                        l.pixel_at(q).y == y && l.pixel_at(q).x < x)) && start.area().contains_spec(q) {
                            Some(start.drawer.shown(l.color_at(q)))
                        } else {
                            start.color_at(q)
                        }),
                decreases x1 - x,
            {
                let p = Point { x, y };
                let c = match self.buffer.buffer.color_at(p) {
                    Some(c) => c,
                    None => {
                        assert(false);
                        Color { r: 0, g: 0, b: 0 }
                    },
                };
                let q = Point { x: x + self.pos.x, y: y + self.pos.y };
                assert(l.pixel_at(q) == p);
                let ghost prev = back@;
                let draw = match tc {
                    Some(t) => t != c,
                    None => true,
                };
                if draw {
                    back.draw(q, c);
                    proof {
                        assert forall|r: Point| #[trigger]
                            back@.color_at(r) == (if l.covers(dst_area, r) && (l.pixel_at(r).y < y || (
                            l.pixel_at(r).y == y && l.pixel_at(r).x < x + 1))
                                && start.area().contains_spec(r) {
                                Some(start.drawer.shown(l.color_at(r)))
                            } else {
                                start.color_at(r)
                            }) by {
                            crate::graphics::buffer_drawer::law_draw_then_color_at(prev, q, r, c);
                            if r != q && l.covers(dst_area, r) && l.pixel_at(r) == p {
                                assert(r.x == q.x && r.y == q.y);
                            }
                        }
                        crate::graphics::buffer_drawer::law_draw_then_color_at(prev, q, q, c);
                    }
                } else {
                    proof {
                        assert forall|r: Point| #[trigger]
                            back@.color_at(r) == (if l.covers(dst_area, r) && (l.pixel_at(r).y < y || (
                            l.pixel_at(r).y == y && l.pixel_at(r).x < x + 1))
                                && start.area().contains_spec(r) {
                                Some(start.drawer.shown(l.color_at(r)))
                            } else {
                                start.color_at(r)
                            }) by {
                            if l.covers(dst_area, r) && l.pixel_at(r) == p {
                                assert(r.x == q.x && r.y == q.y);
                                assert(false);
                            }
                        }
                    }
                }
                x = x + 1;
            }
            y = y + 1;
        }
        proof {
            assert forall|q: Point| #[trigger]
                back@.color_at(q) == (if l.covers(dst_area, q) && start.area().contains_spec(q) {
                    Some(start.drawer.shown(l.color_at(q)))
                } else {
                    start.color_at(q)
                }) by {
                if l.covers(dst_area, q) {
                    assert(src.contains_spec(l.pixel_at(q)));
                    assert(l.canvas.area().contains_spec(l.pixel_at(q)));
                    assert(inner.contains_spec(l.pixel_at(q)));
                }
            }
        }
    }
}

} // verus!

verus! {

use crate::mouse::{MouseEvent, MOUSE_LEFT};

/// `s` without the element `id`.
pub open spec fn without(s: Seq<u32>, id: u32) -> Seq<u32>
    decreases s.len(),
{
    if s.len() == 0 {
        Seq::empty()
    } else {
        without(s.drop_last(), id) + if s.last() == id {
            Seq::empty()
        } else {
            seq![s.last()]
        }
    }
}

/// Index of the first `id` in `s`; `s.len()` when there is none.
pub open spec fn index_in(s: Seq<u32>, id: u32) -> int
    decreases s.len(),
{
    if s.len() == 0 {
        0
    } else if s[0] == id {
        0
    } else {
        1 + index_in(s.drop_first(), id)
    }
}

/// What a layer manager holds: its layers by id, the ids from bottom to top
/// of the layers shown, and the back buffer they are composed in.
pub struct ManagerView {
    pub layers: Map<u32, LayerView>,
    pub stack: Seq<u32>,
    pub back: Canvas,
}

impl ManagerView {
    /// Every layer is stored under its id and well formed, the stack names
    /// registered layers once each, the back buffer is well formed.
    pub open spec fn wf(self) -> bool {
        &&& forall|k: u32| #[trigger] self.layers.contains_key(k) ==> self.layers[k].id == k
            && self.layers[k].wf()
        &&& forall|i: int| 0 <= i < self.stack.len() ==> self.layers.contains_key(#[trigger] self.stack[i])
        &&& self.stack.no_duplicates()
        &&& self.back.wf()
    }

    /// The layers shown, from bottom to top.
    pub open spec fn stack_layers(self) -> Seq<LayerView> {
        self.stack.map_values(|id: u32| self.layers[id])
    }

    /// The stack after the layer `id` is put at `height` (at most the top);
    /// unchanged for a layer that is not registered.
    pub open spec fn stack_with_height(self, id: u32, height: nat) -> Seq<u32> {
        if !self.layers.contains_key(id) {
            self.stack
        } else {
            let rest = without(self.stack, id);
            let h = if height <= rest.len() { height as int } else { rest.len() as int };
            rest.insert(h, id)
        }
    }

    /// The ids of the layers covering `pos`, from the top down.
    pub open spec fn ids_by_pos(self, pos: Point) -> Seq<u32> {
        ids_covering(self.stack, self.layers, pos)
    }
}

/// The ids in `stack` of the layers covering `pos`, from the top down.
pub open spec fn ids_covering(stack: Seq<u32>, layers: Map<u32, LayerView>, pos: Point) -> Seq<u32>
    decreases stack.len(),
{
    if stack.len() == 0 {
        Seq::empty()
    } else {
        (if layers[stack.last()].area().contains_spec(pos) {
            seq![stack.last()]
        } else {
            Seq::empty()
        }) + ids_covering(stack.drop_last(), layers, pos)
    }
}

/// The first id in `ids` other than `cursor`.
pub open spec fn first_other(ids: Seq<u32>, cursor: u32) -> Option<u32>
    decreases ids.len(),
{
    if ids.len() == 0 {
        None
    } else if ids[0] != cursor {
        Some(ids[0])
    } else {
        first_other(ids.drop_first(), cursor)
    }
}

/// The layer a press of the left button at `pos` picks for dragging: the
/// topmost layer under `pos` other than the cursor's, if it is draggable.
pub open spec fn drag_target(v: ManagerView, pos: Point, cursor: u32) -> Option<u32> {
    match first_other(v.ids_by_pos(pos), cursor) {
        Some(id) => if v.layers[id].draggable {
            Some(id)
        } else {
            None
        },
        None => None,
    }
}

/// The layers: registered windows, the order they are shown in, and the
/// back buffer they are composed in.
pub struct LayerManager {
    layers: BTreeMap<u32, Layer>,
    layer_stack: Vec<LayerId>,
    back_buffer: BufferDrawer,
}

impl View for LayerManager {
    type V = ManagerView;

    closed spec fn view(&self) -> ManagerView {
        ManagerView {
            layers: self.layers@.map_values(|l: Layer| l@),
            stack: self.layer_stack@.map_values(|id: LayerId| id.0),
            back: self.back_buffer@,
        }
    }
}

impl LayerManager {
    /// A manager without layers composing into `back_buffer`.
    pub fn new(back_buffer: BufferDrawer) -> (r: LayerManager)
        requires
            back_buffer@.wf(),
        ensures
            r@.wf(),
            r@.layers == Map::<u32, LayerView>::empty(),
            r@.stack == Seq::<u32>::empty(),
            r@.back == back_buffer@,
    {
        let r = LayerManager { layers: BTreeMap::new(), layer_stack: Vec::new(), back_buffer };
        assert(r@.layers =~= Map::<u32, LayerView>::empty());
        assert(r@.stack =~= Seq::<u32>::empty());
        r
    }

    /// The buffer the layers are composed in.
    pub fn back_buffer(&self) -> (r: &BufferDrawer)
        ensures
            r@ == self@.back,
    {
        &self.back_buffer
    }

    /// Registers `layer`, replacing a layer with the same id.
    pub fn register(&mut self, layer: Layer)
        requires
            old(self)@.wf(),
            layer@.wf(),
        ensures
            final(self)@.wf(),
            final(self)@ == (ManagerView {
                layers: old(self)@.layers.insert(layer@.id, layer@),
                ..old(self)@
            }),
    {
        let ghost v = self@;
        let id = layer.id();
        let _ = self.layers.insert(id.0, layer);
        assert(self@.layers =~= v.layers.insert(id.0, layer@));
    }

    /// The layers covering `pos`, from the top down.
    pub fn layers_by_pos(&self, pos: Point) -> (r: Vec<LayerId>)
        requires
            self@.wf(),
        ensures
            r@.map_values(|id: LayerId| id.0) == self@.ids_by_pos(pos),
    {
        let ghost v = self@;
        let mut r: Vec<LayerId> = Vec::new();
        let mut i: usize = self.layer_stack.len();
        assert(v.stack.take(i as int) =~= v.stack);
        assert(r@.map_values(|id: LayerId| id.0) =~= Seq::<u32>::empty());
        assert(Seq::<u32>::empty() + v.ids_by_pos(pos) =~= v.ids_by_pos(pos));
        while i > 0
            invariant
                i <= self.layer_stack@.len(),
                v == self@,
                v.wf(),
                r@.map_values(|id: LayerId| id.0) + ids_covering(v.stack.take(i as int), v.layers, pos)
                    == v.ids_by_pos(pos),
            decreases i,
        {
            let id = self.layer_stack[i - 1];
            let ghost t = v.stack.take(i as int);
            assert(t.drop_last() == v.stack.take(i - 1));
            assert(t.last() == id.0);
            assert(v.layers.contains_key(v.stack[i - 1]));
            let layer = self.layers.get(&id.0).unwrap();
            let ghost old_r = r@.map_values(|id: LayerId| id.0);
            if layer.area().contains(&pos) {
                r.push(id);
                assert(r@.map_values(|id: LayerId| id.0) =~= old_r + seq![id.0]);
            }
            i = i - 1;
        }
        assert(v.stack.take(0) =~= Seq::<u32>::empty());
        assert(r@.map_values(|id: LayerId| id.0) =~= v.ids_by_pos(pos));
        r
    }
}


/// What `without` keeps: no `id`, only elements of `s`, and no element twice
/// when `s` has none twice.
proof fn lemma_without(s: Seq<u32>, id: u32)
    ensures
        !without(s, id).contains(id),
        forall|x: u32| without(s, id).contains(x) ==> s.contains(x),
        forall|x: u32| s.contains(x) && x != id ==> without(s, id).contains(x),
        s.no_duplicates() ==> without(s, id).no_duplicates(),
        !s.contains(id) ==> without(s, id) == s,
    decreases s.len(),
{
    if s.len() > 0 {
        let p = s.drop_last();
        lemma_without(p, id);
        let w = without(p, id);
        assert forall|x: u32| without(s, id).contains(x) implies s.contains(x) by {
            let j = choose|j: int| 0 <= j < without(s, id).len() && without(s, id)[j] == x;
            if j < w.len() {
                assert(w[j] == x);
                assert(w.contains(x));
                assert(p.contains(x));
                let k = choose|k: int| 0 <= k < p.len() && p[k] == x;
                assert(s[k] == x);
            } else {
                assert(s[s.len() - 1] == x);
            }
        }
        assert forall|x: u32| s.contains(x) && x != id implies without(s, id).contains(x) by {
            let k = choose|k: int| 0 <= k < s.len() && s[k] == x;
            if k < s.len() - 1 {
                assert(p[k] == x);
                assert(p.contains(x));
                assert(w.contains(x));
                let j = choose|j: int| 0 <= j < w.len() && w[j] == x;
                assert(without(s, id)[j] == x);
            } else {
                assert(without(s, id)[w.len() as int] == x);
            }
        }
        if without(s, id).contains(id) {
            let j = choose|j: int| 0 <= j < without(s, id).len() && without(s, id)[j] == id;
            if j < w.len() {
                assert(w[j] == id);
            }
        }
        if s.no_duplicates() {
            assert(p.no_duplicates()) by {
                assert forall|a: int, b: int| 0 <= a < p.len() && 0 <= b < p.len() && a != b implies p[a]
                    != p[b] by {
                    assert(s[a] == p[a] && s[b] == p[b]);
                }
            }
            if s.last() != id {
                assert(!p.contains(s.last())) by {
                    if p.contains(s.last()) {
                        let k = choose|k: int| 0 <= k < p.len() && p[k] == s.last();
                        assert(s[k] == s[s.len() - 1]);
                    }
                }
                assert(!w.contains(s.last()));
                let r = without(s, id);
                assert forall|a: int, b: int| 0 <= a < r.len() && 0 <= b < r.len() && a != b implies r[a]
                    != r[b] by {
                    if a < w.len() && b < w.len() {
                        assert(r[a] == w[a] && r[b] == w[b]);
                    } else if a < w.len() {
                        assert(r[a] == w[a]);
                        assert(w.contains(w[a]));
                    } else if b < w.len() {
                        assert(r[b] == w[b]);
                        assert(w.contains(w[b]));
                    }
                }
            }
        }
        if !s.contains(id) {
            assert(!p.contains(id)) by {
                if p.contains(id) {
                    let k = choose|k: int| 0 <= k < p.len() && p[k] == id;
                    assert(s[k] == id);
                }
            }
            assert(s.last() != id) by {
                assert(s[s.len() - 1] == s.last());
            }
            assert(s =~= p.push(s.last()));
        }
    } else {
        assert(without(s, id) =~= s);
    }
}

/// `index_in` finds the first occurrence.
proof fn lemma_index_in(s: Seq<u32>, id: u32, k: int)
    requires
        0 <= k <= s.len(),
        forall|j: int| 0 <= j < k ==> s[j] != id,
        k == s.len() || s[k] == id,
    ensures
        index_in(s, id) == k,
    decreases s.len(),
{
    if s.len() > 0 && k > 0 {
        assert(s[0] != id);
        lemma_index_in(s.drop_first(), id, k - 1);
    }
}

impl LayerManager {
    /// The area the layer `id` covers; `None` for a layer not registered.
    pub fn layer_area(&self, id: LayerId) -> (r: Option<Rectangle>)
        requires
            self@.wf(),
        ensures
            match r {
                Some(a) => self@.layers.contains_key(id.0) && a == self@.layers[id.0].area(),
                None => !self@.layers.contains_key(id.0),
            },
    {
        match self.layers.get(&id.0) {
            Some(l) => Some(l.area()),
            None => None,
        }
    }

    /// Puts the layer `id` at `height` in the stack (at most at the top),
    /// showing it if it was not shown; does nothing for a layer that is not
    /// registered.
    pub fn set_height(&mut self, id: LayerId, height: usize)
        requires
            old(self)@.wf(),
        ensures
            final(self)@.wf(),
            final(self)@ == (ManagerView {
                stack: old(self)@.stack_with_height(id.0, height as nat),
                ..old(self)@
            }),
    {
        let ghost v = self@;
        if !self.layers.contains_key(&id.0) {
            return ;
        }
        let mut rest: Vec<LayerId> = Vec::new();
        let mut i: usize = 0;
        while i < self.layer_stack.len()
            invariant
                i <= self.layer_stack@.len(),
                v == self@,
                rest@.map_values(|x: LayerId| x.0) == without(v.stack.take(i as int), id.0),
            decreases self.layer_stack@.len() - i,
        {
            let x = self.layer_stack[i];
            let ghost t = v.stack.take(i as int + 1);
            assert(t.drop_last() == v.stack.take(i as int));
            assert(t.last() == x.0);
            let ghost before = rest@.map_values(|x: LayerId| x.0);
            if x.0 != id.0 {
                rest.push(x);
            }
            assert(rest@.map_values(|x: LayerId| x.0) =~= without(t, id.0));
            i = i + 1;
        }
        assert(v.stack.take(v.stack.len() as int) =~= v.stack);
        let h = if height <= rest.len() {
            height
        } else {
            rest.len()
        };
        let ghost r0 = rest@.map_values(|x: LayerId| x.0);
        rest.insert(h, id);
        assert(rest@.map_values(|x: LayerId| x.0) =~= r0.insert(h as int, id.0));
        self.layer_stack = rest;
        proof {
            lemma_without(v.stack, id.0);
            let st = self@.stack;
            assert(st == v.stack_with_height(id.0, height as nat));
            assert forall|j: int| 0 <= j < st.len() implies v.layers.contains_key(#[trigger] st[j]) by {
                if j != h {
                    let jj = if j < h { j } else { j - 1 };
                    assert(st[j] == r0[jj]);
                    assert(r0.contains(r0[jj]));
                    assert(v.stack.contains(r0[jj]));
                    let k = choose|k: int| 0 <= k < v.stack.len() && v.stack[k] == r0[jj];
                    assert(v.layers.contains_key(v.stack[k]));
                }
            }
            assert forall|a: int, b: int| 0 <= a < st.len() && 0 <= b < st.len() && a != b implies st[a]
                != st[b] by {
                if a != h && b != h {
                    let aa = if a < h { a } else { a - 1 };
                    let bb = if b < h { b } else { b - 1 };
                    assert(st[a] == r0[aa]);
                    assert(st[b] == r0[bb]);
                } else if a == h {
                    let bb = if b < h { b } else { b - 1 };
                    assert(st[b] == r0[bb]);
                    assert(r0.contains(r0[bb]));
                } else {
                    let aa = if a < h { a } else { a - 1 };
                    assert(st[a] == r0[aa]);
                    assert(r0.contains(r0[aa]));
                }
            }
        }
    }

    /// Draws the shown layers, from bottom to top, within `area` onto the
    /// back buffer.
    pub fn draw_area(&mut self, area: Rectangle)
        requires
            old(self)@.wf(),
            rect_in_limit(area),
        ensures
            final(self)@.wf(),
            final(self)@.layers == old(self)@.layers,
            final(self)@.stack == old(self)@.stack,
            old(self)@.back.same_layout(final(self)@.back),
            forall|q: Point| #[trigger]
                final(self)@.back.color_at(q) == composed_color(old(self)@.back, old(self)@.stack_layers(), area, q),
    {
        let ghost v = self@;
        self.draw_from(0, area);
        assert(v.stack_layers().skip(0) =~= v.stack_layers());
    }

    /// Draws the shown layers from position `start` in the stack up, within
    /// `area`, onto the back buffer.
    fn draw_from(&mut self, start: usize, area: Rectangle)
        requires
            old(self)@.wf(),
            rect_in_limit(area),
            start <= old(self)@.stack.len(),
        ensures
            final(self)@.wf(),
            final(self)@.layers == old(self)@.layers,
            final(self)@.stack == old(self)@.stack,
            old(self)@.back.same_layout(final(self)@.back),
            forall|q: Point| #[trigger]
                final(self)@.back.color_at(q) == composed_color(
                    old(self)@.back,
                    old(self)@.stack_layers().skip(start as int),
                    area,
                    q,
                ),
    {
        let ghost v = self@;
        let ghost ls = v.stack_layers().skip(start as int);
        let mut i: usize = start;
        assert forall|q: Point| #[trigger] self@.back.color_at(q) == composed_color(v.back, ls.take(0), area, q) by {
            assert(ls.take(0).len() == 0);
        }
        while i < self.layer_stack.len()
            invariant
                start <= i <= self.layer_stack@.len(),
                v.wf(),
                self@.layers == v.layers,
                self@.stack == v.stack,
                self@.back.wf(),
                v.back.same_layout(self@.back),
                ls == v.stack_layers().skip(start as int),
                rect_in_limit(area),
                forall|q: Point| #[trigger]
                    self@.back.color_at(q) == composed_color(v.back, ls.take(i - start), area, q),
            decreases self.layer_stack@.len() - i,
        {
            let id = self.layer_stack[i];
            assert(v.layers.contains_key(v.stack[i as int]));
            let layer = self.layers.get(&id.0).unwrap();
            assert(layer@ == v.layers[id.0]);
            assert(layer@ == ls[i - start]);
            let ghost before = self@.back;
            layer.draw_to(&mut self.back_buffer, area);
            let ghost t = ls.take(i - start + 1);
            assert(t.drop_last() =~= ls.take(i - start));
            assert(t.last() == layer@);
            i = i + 1;
        }
        assert(ls.take(i - start) =~= ls);
    }

    /// Draws the layer `id` and the layers above it within the area the
    /// layer covers, and returns that area; `None`, drawing nothing, for a
    /// layer that is not registered. A layer not in the stack draws nothing.
    pub fn draw_layer(&mut self, id: LayerId) -> (r: Option<Rectangle>)
        requires
            old(self)@.wf(),
        ensures
            final(self)@.wf(),
            layer_drawn(old(self)@, final(self)@, id.0, r),
    {
        let ghost v = self@;
        let dst_area = match self.layers.get(&id.0) {
            Some(l) => l.area(),
            None => return None,
        };
        assert(v.layers.contains_key(id.0));
        assert(v.layers[id.0].wf());
        let mut k: usize = 0;
        while k < self.layer_stack.len() && self.layer_stack[k].0 != id.0
            invariant
                k <= self.layer_stack@.len(),
                v == self@,
                forall|j: int| 0 <= j < k ==> v.stack[j] != id.0,
            decreases self.layer_stack@.len() - k,
        {
            k = k + 1;
        }
        proof {
            lemma_index_in(v.stack, id.0, k as int);
        }
        self.draw_from(k, dst_area);
        Some(dst_area)
    }

    /// Replaces the pixels of the layer `id`; nothing for a layer that is
    /// not registered.
    pub fn set_layer_buffer(&mut self, id: LayerId, buffer: LayerBuffer)
        requires
            old(self)@.wf(),
            old(self)@.layers.contains_key(id.0) ==> (LayerView {
                transparent: buffer.transparent_color(),
                canvas: buffer.canvas(),
                ..old(self)@.layers[id.0]
            }).wf(),
        ensures
            final(self)@.wf(),
            final(self)@ == (ManagerView {
                layers: if old(self)@.layers.contains_key(id.0) {
                    old(self)@.layers.insert(
                        id.0,
                        LayerView {
                            transparent: buffer.transparent_color(),
                            canvas: buffer.canvas(),
                            ..old(self)@.layers[id.0]
                        },
                    )
                } else {
                    old(self)@.layers
                },
                ..old(self)@
            }),
    {
        let ghost v = self@;
        match self.layers.remove(&id.0) {
            Some(mut layer) => {
                layer.set_buffer(buffer);
                let ghost lv = layer@;
                let _ = self.layers.insert(id.0, layer);
                assert(self@.layers =~= v.layers.insert(id.0, lv));
            },
            None => {
                assert(self@.layers =~= v.layers);
            },
        }
    }
}


/// The back buffer `fin` results from `back` in two passes through `mid`:
/// the stack drawn within `a1`, then the stack from position `k` up drawn
/// within `a2`.
pub open spec fn two_pass(
    layers: Seq<LayerView>,
    back: Canvas,
    mid: Canvas,
    fin: Canvas,
    a1: Rectangle,
    a2: Rectangle,
    k: int,
) -> bool {
    &&& back.same_layout(mid)
    &&& forall|q: Point| #[trigger] mid.color_at(q) == composed_color(back, layers, a1, q)
    &&& forall|q: Point| #[trigger] fin.color_at(q) == composed_color(mid, layers.skip(k), a2, q)
}

impl ManagerView {
    /// The layer `id` moved to `pos`.
    pub open spec fn with_pos(self, id: u32, pos: Point) -> ManagerView {
        ManagerView { layers: self.layers.insert(id, LayerView { pos, ..self.layers[id] }), ..self }
    }
}

/// What drawing the layer `id` does from `v` to `w`, returning `r`: for a
/// registered layer, its area, within which the stack from the layer up is
/// drawn onto the back buffer; for another id, nothing.
pub open spec fn layer_drawn(v: ManagerView, w: ManagerView, id: u32, r: Option<Rectangle>) -> bool {
    &&& w.layers == v.layers
    &&& w.stack == v.stack
    &&& v.back.same_layout(w.back)
    &&& match r {
        None => !v.layers.contains_key(id) && w.back == v.back,
        Some(a) => {
            &&& v.layers.contains_key(id)
            &&& a == v.layers[id].area()
            &&& forall|q: Point| #[trigger]
                w.back.color_at(q) == composed_color(
                    v.back,
                    v.stack_layers().skip(index_in(v.stack, id)),
                    a,
                    q,
                )
        },
    }
}

/// What moving the layer `id` to `pos` does from `v` to `w`, returning the
/// areas `r` drawn: the stack is drawn where the layer was, then the layer
/// and those above it where it is; nothing for a layer not registered.
pub open spec fn moved_to(v: ManagerView, w: ManagerView, id: u32, pos: Point, r: Seq<Rectangle>) -> bool {
    &&& !v.layers.contains_key(id) ==> w == v && r.len() == 0
    &&& v.layers.contains_key(id) ==> {
        let v2 = v.with_pos(id, pos);
        &&& w.layers == v2.layers
        &&& w.stack == v2.stack
        &&& r == seq![v.layers[id].area(), v2.layers[id].area()]
        &&& exists|mid: Canvas| #[trigger]
            two_pass(
                v2.stack_layers(),
                v.back,
                mid,
                w.back,
                v.layers[id].area(),
                v2.layers[id].area(),
                index_in(v2.stack, id),
            )
    }
}

/// Where moving the layer `id` by `offset` takes it.
pub open spec fn offset_pos(v: ManagerView, id: u32, offset: Point) -> Point {
    Point {
        x: (v.layers[id].pos.x + offset.x) as i32,
        y: (v.layers[id].pos.y + offset.y) as i32,
    }
}

/// The drag after a mouse event, before a new one may start: none once the
/// left button is released.
pub open spec fn drag_kept(drag: Option<LayerId>, event: MouseEvent) -> Option<LayerId> {
    if event.up & MOUSE_LEFT != 0 {
        None
    } else {
        drag
    }
}

/// What a mouse event does from `v` to `w`, with `d0` and `d1` the layer
/// dragged before and after and `r` the areas drawn: a layer still dragged
/// moves by the cursor's motion; a press of the left button then picks the
/// layer to drag (see `drag_target`).
pub open spec fn mouse_handled(
    v: ManagerView,
    w: ManagerView,
    d0: Option<LayerId>,
    d1: Option<LayerId>,
    cursor: u32,
    event: MouseEvent,
    r: Seq<Rectangle>,
) -> bool {
    let d = drag_kept(d0, event);
    &&& match d {
        None => w == v && r.len() == 0,
        Some(id) => moved_to(v, w, id.0, offset_pos(v, id.0, event.pos_diff), r),
    }
    &&& d1 == if event.down & MOUSE_LEFT != 0 {
        match drag_target(w, event.pos, cursor) {
            Some(t) => Some(LayerId(t)),
            None => None,
        }
    } else {
        d
    }
}

/// Moving a layer away and back to where it was leaves the layers as they
/// were.
pub proof fn law_move_back(v: ManagerView, id: u32, pos: Point)
    requires
        v.layers.contains_key(id),
    ensures
        v.with_pos(id, pos).with_pos(id, v.layers[id].pos).layers == v.layers,
        v.with_pos(id, pos).stack == v.stack,
{
    let w = v.with_pos(id, pos).with_pos(id, v.layers[id].pos);
    assert(w.layers[id] == v.layers[id]);
    assert(w.layers =~= v.layers);
}

/// A request to the layer manager.
pub enum LayerEvent {
    /// Register a layer.
    Register { layer: Layer },
    /// Draw a layer and those above it.
    DrawLayer { layer_id: LayerId },
    /// Move a layer.
    MoveTo { layer_id: LayerId, pos: Point },
    /// Put a layer at a height in the stack.
    SetHeight { layer_id: LayerId, height: usize },
    /// The mouse moved or a button changed; `cursor_layer_id` is the
    /// cursor's own layer.
    MouseEvent { cursor_layer_id: LayerId, event: MouseEvent },
}

impl LayerManager {
    /// Moves the layer `id` to `pos`, then draws the stack where it was and
    /// the layer and those above it where it is; returns the two areas
    /// drawn, to be shown. Nothing for a layer that is not registered.
    pub fn move_to(&mut self, id: LayerId, pos: Point) -> (r: Vec<Rectangle>)
        requires
            old(self)@.wf(),
            in_limit(pos.x as int),
            in_limit(pos.y as int),
        ensures
            final(self)@.wf(),
            moved_to(old(self)@, final(self)@, id.0, pos, r@),
    {
        let ghost v = self@;
        let mut layer = match self.layers.remove(&id.0) {
            Some(l) => l,
            None => {
                assert(self@.layers =~= v.layers);
                return Vec::new();
            },
        };
        let old_area = layer.area();
        assert(v.layers.contains_key(id.0));
        assert(layer@ == v.layers[id.0]);
        assert(v.layers[id.0].wf());
        layer.move_to(pos);
        let ghost lv = layer@;
        let _ = self.layers.insert(id.0, layer);
        let ghost v2 = v.with_pos(id.0, pos);
        assert(self@.layers =~= v2.layers);
        assert(self@.stack_layers() =~= v2.stack_layers());
        assert(self@.wf());
        self.draw_area(old_area);
        let ghost mid = self@.back;
        let new_area = self.draw_layer(id);
        let new_area = new_area.unwrap();
        let mut r: Vec<Rectangle> = Vec::new();
        r.push(old_area);
        r.push(new_area);
        assert(two_pass(v2.stack_layers(), v.back, mid, self@.back, old_area, new_area, index_in(v2.stack, id.0)));
        assert(r@ =~= seq![old_area, new_area]);
        r
    }

    /// Moves the layer `id` by `offset`, drawing as `move_to` does.
    pub fn move_relative(&mut self, id: LayerId, offset: Point) -> (r: Vec<Rectangle>)
        requires
            old(self)@.wf(),
            old(self)@.layers.contains_key(id.0) ==> in_limit(
                old(self)@.layers[id.0].pos.x + offset.x,
            ) && in_limit(old(self)@.layers[id.0].pos.y + offset.y),
        ensures
            final(self)@.wf(),
            moved_to(old(self)@, final(self)@, id.0, offset_pos(old(self)@, id.0, offset), r@),
    {
        match self.layers.get(&id.0) {
            Some(l) => {
                let pos = Point { x: l.pos.x + offset.x, y: l.pos.y + offset.y };
                self.move_to(id, pos)
            },
            None => Vec::new(),
        }
    }

    /// Handles a mouse event for dragging, with `drag` the layer being
    /// dragged: releasing the left button ends a drag; a dragged layer moves
    /// with the cursor; pressing the left button starts dragging the topmost
    /// layer under the cursor other than the cursor's own, if it is
    /// draggable. Returns the areas drawn.
    pub fn handle_mouse(&mut self, drag: &mut Option<LayerId>, cursor_layer_id: LayerId, event: MouseEvent) -> (r: Vec<Rectangle>)
        requires
            old(self)@.wf(),
            drag_kept(*old(drag), event) matches Some(id) ==> (old(self)@.layers.contains_key(id.0)
                ==> in_limit(old(self)@.layers[id.0].pos.x + event.pos_diff.x) && in_limit(
                old(self)@.layers[id.0].pos.y + event.pos_diff.y,
            )),
        ensures
            final(self)@.wf(),
            mouse_handled(
                old(self)@,
                final(self)@,
                *old(drag),
                *final(drag),
                cursor_layer_id.0,
                event,
                r@,
            ),
    {
        if event.up & MOUSE_LEFT != 0 {
            *drag = None;
        }
        let mut r: Vec<Rectangle> = Vec::new();
        if let Some(id) = *drag {
            r = self.move_relative(id, event.pos_diff);
        }
        if event.down & MOUSE_LEFT != 0 {
            *drag = self.drag_target(event.pos, cursor_layer_id);
        }
        r
    }

    /// The layer a press of the left button at `pos` picks for dragging
    /// (see `drag_target`).
    pub fn drag_target(&self, pos: Point, cursor_layer_id: LayerId) -> (r: Option<LayerId>)
        requires
            self@.wf(),
        ensures
            r == match drag_target(self@, pos, cursor_layer_id.0) {
                Some(t) => Some(LayerId(t)),
                None => None::<LayerId>,
            },
    {
        let ids = self.layers_by_pos(pos);
        let ghost all = self@.ids_by_pos(pos);
        let mut i: usize = 0;
        assert(all.skip(0) =~= all);
        while i < ids.len() && ids[i].0 == cursor_layer_id.0
            invariant
                i <= ids@.len(),
                ids@.map_values(|id: LayerId| id.0) == all,
                first_other(all.skip(i as int), cursor_layer_id.0) == first_other(
                    all,
                    cursor_layer_id.0,
                ),
            decreases ids@.len() - i,
        {
            assert(all.skip(i as int)[0] == cursor_layer_id.0);
            assert(all.skip(i as int).drop_first() =~= all.skip(i as int + 1));
            i = i + 1;
        }
        assert(all.skip(0) =~= all);
        if i == ids.len() {
            assert(all.skip(i as int).len() == 0);
            return None;
        }
        let t = ids[i];
        proof {
            assert(all.skip(i as int)[0] == t.0);
            lemma_ids_covering_registered(self@.stack, self@.layers, pos, self@);
        }
        let layer = self.layers.get(&t.0).unwrap();
        if layer.draggable {
            Some(t)
        } else {
            None
        }
    }

    /// Handles a request (see `LayerEvent`), with `drag` the layer being
    /// dragged; returns the areas of the back buffer drawn, to be shown.
    pub fn handle_event(&mut self, drag: &mut Option<LayerId>, event: LayerEvent) -> (r: Vec<Rectangle>)
        requires
            old(self)@.wf(),
            event matches LayerEvent::Register { layer } ==> layer@.wf(),
            event matches LayerEvent::MoveTo { pos, .. } ==> in_limit(pos.x as int) && in_limit(
                pos.y as int,
            ),
            event matches LayerEvent::MouseEvent { event: e, .. } ==> (drag_kept(*old(drag), e) matches Some(
                id,
            ) ==> (old(self)@.layers.contains_key(id.0) ==> in_limit(
                old(self)@.layers[id.0].pos.x + e.pos_diff.x,
            ) && in_limit(old(self)@.layers[id.0].pos.y + e.pos_diff.y))),
        ensures
            final(self)@.wf(),
            !(event is MouseEvent) ==> *final(drag) == *old(drag),
            match event {
                LayerEvent::Register { layer } => {
                    &&& final(self)@ == (ManagerView {
                        layers: old(self)@.layers.insert(layer@.id, layer@),
                        ..old(self)@
                    })
                    &&& r@.len() == 0
                },
                LayerEvent::DrawLayer { layer_id } => {
                    &&& r@.len() <= 1
                    &&& layer_drawn(
                        old(self)@,
                        final(self)@,
                        layer_id.0,
                        if r@.len() == 0 {
                            None
                        } else {
                            Some(r@[0])
                        },
                    )
                },
                LayerEvent::MoveTo { layer_id, pos } => moved_to(
                    old(self)@,
                    final(self)@,
                    layer_id.0,
                    pos,
                    r@,
                ),
                LayerEvent::SetHeight { layer_id, height } => {
                    &&& final(self)@ == (ManagerView {
                        stack: old(self)@.stack_with_height(layer_id.0, height as nat),
                        ..old(self)@
                    })
                    &&& r@.len() == 0
                },
                LayerEvent::MouseEvent { cursor_layer_id, event: e } => mouse_handled(
                    old(self)@,
                    final(self)@,
                    *old(drag),
                    *final(drag),
                    cursor_layer_id.0,
                    e,
                    r@,
                ),
            },
    {
        match event {
            LayerEvent::Register { layer } => {
                self.register(layer);
                Vec::new()
            },
            LayerEvent::DrawLayer { layer_id } => {
                let mut r: Vec<Rectangle> = Vec::new();
                if let Some(a) = self.draw_layer(layer_id) {
                    r.push(a);
                }
                r
            },
            LayerEvent::MoveTo { layer_id, pos } => self.move_to(layer_id, pos),
            LayerEvent::SetHeight { layer_id, height } => {
                self.set_height(layer_id, height);
                Vec::new()
            },
            LayerEvent::MouseEvent { cursor_layer_id, event } => self.handle_mouse(
                drag,
                cursor_layer_id,
                event,
            ),
        }
    }
}

/// The ids covering a point are registered layers.
proof fn lemma_ids_covering_registered(stack: Seq<u32>, layers: Map<u32, LayerView>, pos: Point, v: ManagerView)
    requires
        v.wf(),
        v.layers == layers,
        forall|i: int| 0 <= i < stack.len() ==> layers.contains_key(#[trigger] stack[i]),
    ensures
        forall|i: int| 0 <= i < ids_covering(stack, layers, pos).len() ==> layers.contains_key(
            #[trigger] ids_covering(stack, layers, pos)[i],
        ),
    decreases stack.len(),
{
    if stack.len() > 0 {
        let p = stack.drop_last();
        assert forall|i: int| 0 <= i < p.len() implies layers.contains_key(#[trigger] p[i]) by {
            assert(p[i] == stack[i]);
        }
        lemma_ids_covering_registered(p, layers, pos, v);
        assert(layers.contains_key(stack[stack.len() - 1]));
        let head = if layers[stack.last()].area().contains_spec(pos) {
            seq![stack.last()]
        } else {
            Seq::empty()
        };
        let rest = ids_covering(p, layers, pos);
        assert(ids_covering(stack, layers, pos) == head + rest);
        assert forall|i: int| 0 <= i < ids_covering(stack, layers, pos).len() implies layers.contains_key(
            #[trigger] ids_covering(stack, layers, pos)[i],
        ) by {
            if i < head.len() {
                assert(ids_covering(stack, layers, pos)[i] == stack.last());
            } else {
                assert(ids_covering(stack, layers, pos)[i] == rest[i - head.len()]);
            }
        }
    }
}

} // verus!
