//! Windows: a layer's pixels with the area drawn since the last flush.
use vstd::prelude::*;

verus! {

use crate::error::{ErrorKind, Result};
use crate::graphics::buffer_drawer::{screen_info_wf, spec_pixel_drawer, BufferDrawer, Canvas, ScreenInfo};
use crate::graphics::color::Color;
use crate::graphics::geometry::{fits_i32, Point, Rectangle};
use crate::layer::{rect_in_limit, Layer, LayerBuffer, LayerId, COORD_LIMIT};
use crate::graphics::font::{char_to_byte, chars_to_bytes, text_pixel, text_rect, Font};
use crate::task::IdGenerator;

/// The part of a window drawn since the last flush: `None` for nothing,
/// kept within the window.
#[derive(Debug, Clone, Copy, PartialEq, Eq, Structural)]
pub struct RedrawArea {
    pub redraw_area: Option<Rectangle>,
    pub draw_area: Rectangle,
}

/// Whether all coordinates involved stay far from the limits of `i32`.
pub open spec fn window_rect_ok(r: Rectangle) -> bool {
    &&& -COORD_LIMIT <= r.pos.x <= COORD_LIMIT
    &&& -COORD_LIMIT <= r.pos.y <= COORD_LIMIT
    &&& -COORD_LIMIT <= r.size.x <= COORD_LIMIT
    &&& -COORD_LIMIT <= r.size.y <= COORD_LIMIT
}

/// Whether a rectangle is within half the coordinate limit, so that small
/// offsets of it stay within the limit.
pub open spec fn small_rect(r: Rectangle) -> bool {
    &&& -0x0800_0000 <= r.pos.x <= 0x0800_0000
    &&& -0x0800_0000 <= r.pos.y <= 0x0800_0000
    &&& -0x0800_0000 <= r.size.x <= 0x0800_0000
    &&& -0x0800_0000 <= r.size.y <= 0x0800_0000
}

/// The redraw area after drawing in `area`: the part of `area` inside the
/// window joins it, as the smallest rectangle covering both.
pub open spec fn spec_add_rect(r: RedrawArea, area: Rectangle) -> RedrawArea {
    match r.draw_area.spec_intersection(area) {
        None => r,
        Some(a) => RedrawArea {
            redraw_area: Some(
                match r.redraw_area {
                    Some(old) => spec_union(old, a),
                    None => a,
                },
            ),
            ..r
        },
    }
}

/// Whether point `q` is marked for redrawing.
pub open spec fn marked(r: RedrawArea, q: Point) -> bool {
    r.redraw_area matches Some(a) && a.contains_spec(q)
}

/// Going from pixels `c0` with redraw area `r0` to `c1` with `r1`: every
/// pixel whose color changed is marked for redrawing, what was marked stays
/// marked, and the window's extent is kept.
pub open spec fn changes_marked(c0: Canvas, r0: RedrawArea, c1: Canvas, r1: RedrawArea) -> bool {
    &&& r1.draw_area == r0.draw_area
    &&& forall|q: Point| #[trigger] c1.color_at(q) != c0.color_at(q) ==> marked(r1, q)
    &&& forall|q: Point| #[trigger] marked(r0, q) ==> marked(r1, q)
}

/// Two steps that each mark their changes make one that does.
pub proof fn lemma_changes_marked_trans(
    c0: Canvas,
    r0: RedrawArea,
    c1: Canvas,
    r1: RedrawArea,
    c2: Canvas,
    r2: RedrawArea,
)
    requires
        changes_marked(c0, r0, c1, r1),
        changes_marked(c1, r1, c2, r2),
    ensures
        changes_marked(c0, r0, c2, r2),
{
    assert forall|q: Point| #[trigger] c2.color_at(q) != c0.color_at(q) implies marked(r2, q) by {
        if c2.color_at(q) == c1.color_at(q) {
            assert(c1.color_at(q) != c0.color_at(q));
            assert(marked(r1, q));
        }
    }
}

/// The smallest rectangle that covers both.
pub open spec fn spec_union(a: Rectangle, b: Rectangle) -> Rectangle {
    let x0 = crate::graphics::geometry::min_i(a.pos.x as int, b.pos.x as int);
    let y0 = crate::graphics::geometry::min_i(a.pos.y as int, b.pos.y as int);
    let x1 = crate::graphics::geometry::max_i(a.x_end_spec(), b.x_end_spec());
    let y1 = crate::graphics::geometry::max_i(a.y_end_spec(), b.y_end_spec());
    Rectangle {
        pos: Point { x: x0 as i32, y: y0 as i32 },
        size: Point { x: (x1 - x0) as i32, y: (y1 - y0) as i32 },
    }
}

impl RedrawArea {
    /// The redraw area stays inside the window, which is small.
    pub open spec fn wf(self) -> bool {
        &&& rect_in_limit(self.draw_area)
        &&& self.draw_area.pos == Point { x: 0, y: 0 }
        &&& self.redraw_area matches Some(a) ==> {
            &&& 0 <= a.pos.x
            &&& 0 <= a.pos.y
            &&& 0 <= a.size.x
            &&& 0 <= a.size.y
            &&& a.x_end_spec() <= self.draw_area.size.x
            &&& a.y_end_spec() <= self.draw_area.size.y
        }
    }

    /// Nothing drawn yet in a window of `size`.
    pub fn new(size: Point) -> (r: RedrawArea)
        requires
            0 <= size.x <= COORD_LIMIT,
            0 <= size.y <= COORD_LIMIT,
        ensures
            r == (RedrawArea {
                redraw_area: None,
                draw_area: Rectangle { pos: Point { x: 0, y: 0 }, size },
            }),
            r.wf(),
    {
        RedrawArea { redraw_area: None, draw_area: Rectangle { pos: Point { x: 0, y: 0 }, size } }
    }

    /// Returns the area drawn and forgets it.
    pub fn take(&mut self) -> (r: Option<Rectangle>)
        ensures
            r == old(self).redraw_area,
            *final(self) == (RedrawArea { redraw_area: None, ..*old(self) }),
    {
        let r = self.redraw_area;
        self.redraw_area = None;
        r
    }

    /// Records drawing in `area` (see `spec_add_rect`).
    pub fn add_rect(&mut self, area: Rectangle)
        requires
            old(self).wf(),
            area.wf(),
        ensures
            *final(self) == spec_add_rect(*old(self), area),
            final(self).wf(),
    {
        if let Some(a) = self.draw_area.intersection(area) {
            match self.redraw_area {
                Some(old) => {
                    self.redraw_area = Some(old.union(a));
                },
                None => {
                    self.redraw_area = Some(a);
                },
            }
        }
    }

    /// Records drawing the pixel `p`.
    pub fn add_point(&mut self, p: Point)
        requires
            old(self).wf(),
            p.x < i32::MAX,
            p.y < i32::MAX,
        ensures
            *final(self) == spec_add_rect(*old(self), Rectangle { pos: p, size: Point { x: 1, y: 1 } }),
            final(self).wf(),
    {
        self.add_rect(Rectangle { pos: p, size: Point { x: 1, y: 1 } });
    }
}

/// What building a window sets up: where its layer goes, its size, the
/// color that shows what is below it, its height in the stack, and whether
/// it can be dragged.
#[derive(Debug, Clone, Copy, PartialEq, Eq, Structural)]
pub struct Builder {
    pub pos: Option<Point>,
    pub size: Point,
    pub transparent_color: Option<Color>,
    pub height: Option<usize>,
    pub draggable: Option<bool>,
}

impl Builder {
    /// Nothing set, size zero.
    pub fn new() -> (r: Builder)
        ensures
            r == (Builder {
                pos: None,
                size: Point { x: 0, y: 0 },
                transparent_color: None,
                height: None,
                draggable: None,
            }),
    {
        Builder {
            pos: None,
            size: Point { x: 0, y: 0 },
            transparent_color: None,
            height: None,
            draggable: None,
        }
    }

    /// Sets where the layer goes.
    pub fn pos(&mut self, pos: Point) -> (r: &mut Builder)
        ensures
            *r == (Builder { pos: Some(pos), ..*old(self) }),
            *final(self) == *final(r),
    {
        self.pos = Some(pos);
        self
    }

    /// Sets the window's size.
    pub fn size(&mut self, size: Point) -> (r: &mut Builder)
        ensures
            *r == (Builder { size, ..*old(self) }),
            *final(self) == *final(r),
    {
        self.size = size;
        self
    }

    /// Sets the color that shows what is below.
    pub fn transparent_color(&mut self, tc: Option<Color>) -> (r: &mut Builder)
        ensures
            *r == (Builder { transparent_color: tc, ..*old(self) }),
            *final(self) == *final(r),
    {
        self.transparent_color = tc;
        self
    }

    /// Sets the height in the stack.
    pub fn height(&mut self, height: usize) -> (r: &mut Builder)
        ensures
            *r == (Builder { height: Some(height), ..*old(self) }),
            *final(self) == *final(r),
    {
        self.height = Some(height);
        self
    }

    /// Sets whether the window can be dragged.
    pub fn draggable(&mut self, draggable: bool) -> (r: &mut Builder)
        ensures
            *r == (Builder { draggable: Some(draggable), ..*old(self) }),
            *final(self) == *final(r),
    {
        self.draggable = Some(draggable);
        self
    }

    /// Builds the window and its layer: a zeroed buffer of the size with
    /// the transparent color, the layer (fresh id from `ids`) at the
    /// position and draggable as set. The caller registers the layer with
    /// the layer manager and then sets its height when one was set.
    pub fn build(&self, ids: &mut IdGenerator, screen_info: ScreenInfo) -> (r: Result<(Window, Layer)>)
        requires
            screen_info_wf(screen_info),
            0 <= self.size.x <= COORD_LIMIT,
            0 <= self.size.y <= COORD_LIMIT,
            fits_i32(self.size.x * self.size.y * screen_info.bytes_per_pixel),
            fits_i32(self.size.y * screen_info.bytes_per_pixel),
            self.pos matches Some(p) ==> -COORD_LIMIT <= p.x <= COORD_LIMIT && -COORD_LIMIT <= p.y <= COORD_LIMIT,
        ensures
            r is Ok <==> spec_pixel_drawer(screen_info.pixel_format) is Some,
            r matches Err(e) ==> e.kind == ErrorKind::UnsupportedPixelFormat,
            r matches Ok((w, l)) ==> {
                &&& w.wf()
                &&& l@.wf()
                &&& w.layer_id().0 == l@.id
                &&& l@.id == old(ids).peek() as u32
                &&& l@.pos == (match self.pos {
                    Some(p) => p,
                    None => Point { x: 0, y: 0 },
                })
                &&& l@.draggable == (self.draggable == Some(true))
                &&& l@.transparent == self.transparent_color
                &&& l@.canvas == w.canvas()
                &&& w.canvas().size == self.size
                &&& w.redraw() == RedrawArea {
                    redraw_area: None,
                    draw_area: Rectangle { pos: Point { x: 0, y: 0 }, size: self.size },
                }
            },
    {
        proof {
            assert(0 <= self.size.x * self.size.y <= self.size.x * self.size.y * screen_info.bytes_per_pixel)
                by (nonlinear_arith)
                requires
                    0 <= self.size.x,
                    0 <= self.size.y,
                    1 <= screen_info.bytes_per_pixel,
            ;
        }
        let mut buffer = match LayerBuffer::new(self.size, screen_info) {
            Ok(b) => b,
            Err(e) => return Err(e),
        };
        buffer.set_transparent_color(self.transparent_color);
        let copy = LayerBuffer::from_buffer(buffer.buffer().clone_drawer(), self.transparent_color);
        let mut layer = Layer::new(ids, copy);
        let layer_id = layer.id();
        if let Some(pos) = self.pos {
            layer.move_to(pos);
        }
        if let Some(draggable) = self.draggable {
            layer.set_draggable(draggable);
        }
        Ok((Window { layer_id, buffer, redraw_area: RedrawArea::new(self.size) }, layer))
    }
}

/// A window: its layer's id, its pixels and the area drawn since the last
/// flush.
pub struct Window {
    layer_id: LayerId,
    buffer: LayerBuffer,
    redraw_area: RedrawArea,
}

impl Window {
    /// The pixels.
    pub closed spec fn canvas(&self) -> Canvas {
        self.buffer.canvas()
    }

    /// The area drawn since the last flush.
    pub closed spec fn redraw(&self) -> RedrawArea {
        self.redraw_area
    }

    /// The id of the window's layer.
    pub closed spec fn layer_id(&self) -> LayerId {
        self.layer_id
    }

    /// The pixels are well formed, the window small, and the redraw area
    /// inside it.
    pub open spec fn wf(&self) -> bool {
        &&& self.canvas().wf()
        &&& self.redraw().wf()
        &&& self.redraw().draw_area.size == self.canvas().size
    }

    /// The id of the window's layer.
    pub fn get_layer_id(&self) -> (r: LayerId)
        ensures
            r == self.layer_id(),
    {
        self.layer_id
    }

    /// The window's size.
    pub fn size(&self) -> (r: Point)
        ensures
            r == self.canvas().size,
    {
        self.buffer.size()
    }

    /// The pixels, for copying to the layer.
    pub fn buffer(&self) -> (r: &LayerBuffer)
        ensures
            r.canvas() == self.canvas(),
    {
        &self.buffer
    }

    /// Returns the area drawn since the last flush and forgets it; `None`
    /// when nothing was drawn (nothing to flush).
    pub fn take_redraw_area(&mut self) -> (r: Option<Rectangle>)
        ensures
            r == old(self).redraw().redraw_area,
            final(self).redraw() == (RedrawArea { redraw_area: None, ..old(self).redraw() }),
            final(self).canvas() == old(self).canvas(),
            final(self).layer_id() == old(self).layer_id(),
    {
        self.redraw_area.take()
    }

    /// Sets the pixel at `p` to `c`, recording it as drawn.
    pub fn draw(&mut self, p: Point, c: Color)
        requires
            old(self).wf(),
            p.x < i32::MAX,
            p.y < i32::MAX,
        ensures
            final(self).wf(),
            final(self).canvas() == old(self).canvas().drawn(p, c),
            final(self).redraw() == spec_add_rect(old(self).redraw(), Rectangle { pos: p, size: Point { x: 1, y: 1 } }),
            changes_marked(old(self).canvas(), old(self).redraw(), final(self).canvas(), final(self).redraw()),
            final(self).layer_id() == old(self).layer_id(),
    {
        self.redraw_area.add_point(p);
        self.buffer.draw(p, c);
        proof {
            let v = old(self).canvas();
            let dot = Rectangle { pos: p, size: Point { x: 1, y: 1 } };
            crate::graphics::buffer_drawer::law_draw_then_color_at(v, p, p, c);
            assert forall|q: Point| #[trigger] self.canvas().color_at(q) != v.color_at(q) implies marked(
                self.redraw(),
                q,
            ) by {
                crate::graphics::buffer_drawer::law_draw_then_color_at(v, p, q, c);
                law_redraw_covers(old(self).redraw(), dot, q);
            }
            assert forall|q: Point| #[trigger] marked(old(self).redraw(), q) implies marked(self.redraw(), q) by {
                law_redraw_covers(old(self).redraw(), dot, q);
            }
        }
    }

    /// Paints `rect` with `c`, recording it as drawn.
    pub fn fill_rect(&mut self, rect: Rectangle, c: Color)
        requires
            old(self).wf(),
            rect.wf(),
        ensures
            final(self).wf(),
            old(self).canvas().same_layout(final(self).canvas()),
            forall|q: Point| #[trigger]
                final(self).canvas().color_at(q) == (if rect.contains_spec(q)
                    && old(self).canvas().area().contains_spec(q) {
                    Some(old(self).canvas().drawer.shown(c))
                } else {
                    old(self).canvas().color_at(q)
                }),
            final(self).redraw() == spec_add_rect(old(self).redraw(), rect),
            changes_marked(old(self).canvas(), old(self).redraw(), final(self).canvas(), final(self).redraw()),
            final(self).layer_id() == old(self).layer_id(),
    {
        self.redraw_area.add_rect(rect);
        self.buffer.fill_rect(rect, c);
    }

    /// Draws the bytes `bytes` with `font` from `pos` in `color`, recording
    /// the rectangle they occupy as drawn; returns that rectangle.
    pub fn draw_byte_str(&mut self, font: &Font, pos: Point, bytes: &[u8], color: Color) -> (r: Rectangle)
        requires
            old(self).wf(),
            font.wf(),
            window_rect_ok(Rectangle { pos, size: Point { x: 0, y: 0 } }),
            bytes@.len() <= 0x0100_0000,
        ensures
            r == text_rect(pos, bytes@.len() as int),
            final(self).wf(),
            old(self).canvas().same_layout(final(self).canvas()),
            forall|q: Point| #[trigger]
                final(self).canvas().color_at(q) == (if text_pixel(font.glyphs(), pos, bytes@, q)
                    && old(self).canvas().area().contains_spec(q) {
                    Some(old(self).canvas().drawer.shown(color))
                } else {
                    old(self).canvas().color_at(q)
                }),
            final(self).redraw() == spec_add_rect(old(self).redraw(), r),
            changes_marked(old(self).canvas(), old(self).redraw(), final(self).canvas(), final(self).redraw()),
            final(self).layer_id() == old(self).layer_id(),
    {
        let rect = self.buffer.draw_byte_str(font, pos, bytes, color);
        self.redraw_area.add_rect(rect);
        rect
    }

    /// Draws the characters `s` (see `char_to_byte`) with `font` from `pos`
    /// in `color`, recording the rectangle they occupy as drawn; returns
    /// that rectangle.
    pub fn draw_chars(&mut self, font: &Font, pos: Point, s: &Vec<char>, color: Color) -> (r: Rectangle)
        requires
            old(self).wf(),
            font.wf(),
            window_rect_ok(Rectangle { pos, size: Point { x: 0, y: 0 } }),
            s@.len() <= 0x0100_0000,
        ensures
            r == text_rect(pos, s@.len() as int),
            final(self).wf(),
            old(self).canvas().same_layout(final(self).canvas()),
            forall|q: Point| #[trigger]
                final(self).canvas().color_at(q) == (if text_pixel(font.glyphs(), pos, chars_to_bytes(s@), q)
                    && old(self).canvas().area().contains_spec(q) {
                    Some(old(self).canvas().drawer.shown(color))
                } else {
                    old(self).canvas().color_at(q)
                }),
            final(self).redraw() == spec_add_rect(old(self).redraw(), r),
            changes_marked(old(self).canvas(), old(self).redraw(), final(self).canvas(), final(self).redraw()),
            final(self).layer_id() == old(self).layer_id(),
    {
        let mut bytes: Vec<u8> = Vec::new();
        let mut i: usize = 0;
        while i < s.len()
            invariant
                i <= s@.len(),
                bytes@ == chars_to_bytes(s@.take(i as int)),
            decreases s@.len() - i,
        {
            bytes.push(char_to_byte(s[i]));
            i = i + 1;
            assert(bytes@ =~= chars_to_bytes(s@.take(i as int)));
        }
        assert(s@.take(s@.len() as int) =~= s@);
        self.draw_byte_str(font, pos, bytes.as_slice(), color)
    }

    /// Moves the pixels of `src` by `offset`, recording `src` moved by
    /// `offset` as drawn.
    pub fn move_area(&mut self, offset: Point, src: Rectangle)
        requires
            old(self).wf(),
            window_rect_ok(src),
            window_rect_ok(Rectangle { pos: offset, size: Point { x: 0, y: 0 } }),
        ensures
            final(self).wf(),
            final(self).canvas() == old(self).canvas().moved(offset, src),
            final(self).redraw() == spec_add_rect(old(self).redraw(), src.spec_translate(offset)),
            changes_marked(old(self).canvas(), old(self).redraw(), final(self).canvas(), final(self).redraw()),
            final(self).layer_id() == old(self).layer_id(),
    {
        self.redraw_area.add_rect(src.translate(offset));
        self.buffer.move_area(offset, src);
        proof {
            let v = old(self).canvas();
            let moved = src.spec_translate(offset);
            crate::graphics::buffer_drawer::law_move_area_pixels(v, offset, src, Point { x: 0, y: 0 });
            assert forall|q: Point| #[trigger] self.canvas().color_at(q) != v.color_at(q) implies marked(
                self.redraw(),
                q,
            ) by {
                crate::graphics::buffer_drawer::law_move_area_pixels(v, offset, src, q);
                law_redraw_covers(old(self).redraw(), moved, q);
            }
            assert forall|q: Point| #[trigger] marked(old(self).redraw(), q) implies marked(self.redraw(), q) by {
                law_redraw_covers(old(self).redraw(), moved, q);
            }
        }
    }
}


/// Drawing in `area` leaves every pixel of `area` inside the window marked
/// for redrawing, and keeps what was marked before.
pub proof fn law_redraw_covers(r: RedrawArea, area: Rectangle, p: Point)
    requires
        r.wf(),
        area.wf(),
    ensures
        (area.contains_spec(p) && r.draw_area.contains_spec(p)) ==> (spec_add_rect(r, area).redraw_area matches Some(a)
            && a.contains_spec(p)),
        (r.redraw_area matches Some(b) && b.contains_spec(p)) ==> (spec_add_rect(r, area).redraw_area matches Some(a)
            && a.contains_spec(p)),
{
}

/// After a flush nothing is marked; every pixel drawn differently from then
/// on lies in the area that the next flush takes.
pub proof fn law_flush_covers_drawing(c0: Canvas, r0: RedrawArea, c1: Canvas, r1: RedrawArea, q: Point)
    requires
        r0.redraw_area is None,
        changes_marked(c0, r0, c1, r1),
        c1.color_at(q) != c0.color_at(q),
    ensures
        r1.redraw_area matches Some(a) && a.contains_spec(q),
{
}

} // verus!
