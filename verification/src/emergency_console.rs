//! The console a panic writes to: red text on white cells straight onto the
//! frame buffer, from the top-left, wrapping at the screen's right edge.
use vstd::prelude::*;

verus! {

use crate::graphics::buffer_drawer::BufferDrawer;
use crate::graphics::color::Color;
use crate::graphics::font::{char_pixel, draw_char, spec_char_to_byte, Font, FONT_HEIGHT, FONT_WIDTH};
use crate::graphics::geometry::{Point, Rectangle};

/// Largest coordinate the console reaches.
pub const MAX_COORD: i32 = 0x1000_0000;

/// Where the next character goes after `ch` was written at `p` on a screen
/// `w` pixels wide: one cell on, and to the start of the next row after a
/// new line or when the next cell would not fit.
pub open spec fn next_pos(p: Point, w: int, ch: char) -> Point {
    let x = if ch != '\n' { p.x + FONT_WIDTH } else { p.x as int };
    if ch == '\n' || x + FONT_WIDTH > w {
        Point { x: 0, y: (p.y + FONT_HEIGHT) as i32 }
    } else {
        Point { x: x as i32, y: p.y }
    }
}

/// Where the next character goes after `s` was written from `p`.
pub open spec fn pos_after(p: Point, w: int, s: Seq<char>) -> Point
    decreases s.len(),
{
    if s.len() == 0 {
        p
    } else {
        next_pos(pos_after(p, w, s.drop_last()), w, s.last())
    }
}

/// The color writing `s` from `p` leaves at screen point `q`, if it paints
/// it: the last character whose cell holds `q` shows its glyph in red on
/// white.
pub open spec fn written_pixel(font: Seq<[u8; 16]>, p: Point, w: int, s: Seq<char>, q: Point) -> Option<Color>
    decreases s.len(),
{
    if s.len() == 0 {
        None
    } else {
        let at = pos_after(p, w, s.drop_last());
        let ch = s.last();
        if ch != '\n' && at.x <= q.x < at.x + FONT_WIDTH && at.y <= q.y < at.y + FONT_HEIGHT {
            Some(
                if char_pixel(font, at, spec_char_to_byte(ch), q) {
                    Color { r: 255, g: 0, b: 0 }
                } else {
                    Color { r: 255, g: 255, b: 255 }
                },
            )
        } else {
            written_pixel(font, p, w, s.drop_last(), q)
        }
    }
}

/// Writing `a` and then `b` ends where writing `a` followed by `b` at once
/// ends.
pub proof fn law_pos_after_concat(p: Point, w: int, a: Seq<char>, b: Seq<char>)
    ensures
        pos_after(p, w, a + b) == pos_after(pos_after(p, w, a), w, b),
    decreases b.len(),
{
    if b.len() == 0 {
        assert(a + b =~= a);
    } else {
        law_pos_after_concat(p, w, a, b.drop_last());
        assert((a + b).drop_last() =~= a + b.drop_last());
    }
}

/// The panic console: the screen's size and where the next character goes.
#[derive(Debug, Clone, Copy, PartialEq, Eq, Structural)]
pub struct EmergencyConsole {
    pub screen_size: Point,
    pub pos: Point,
}

impl EmergencyConsole {
    /// The position is on a row start or leaves room for a cell, and the
    /// screen is not larger than the console reaches.
    pub open spec fn wf(self) -> bool {
        &&& 0 <= self.screen_size.x <= MAX_COORD
        &&& 0 <= self.pos.x
        &&& self.pos.x == 0 || self.pos.x + FONT_WIDTH <= self.screen_size.x
        &&& 0 <= self.pos.y
    }

    /// A console for a screen of `screen_size` writing from the top-left.
    pub fn new(screen_size: Point) -> (r: EmergencyConsole)
        ensures
            r == (EmergencyConsole { screen_size, pos: Point { x: 0, y: 0 } }),
    {
        EmergencyConsole { screen_size, pos: Point { x: 0, y: 0 } }
    }

    /// Writes `s` on `drawer` with `font`: each character but a new line
    /// paints its cell white and its glyph red (see `written_pixel`); the
    /// position moves on (see `pos_after`).
    pub fn write_str(&mut self, drawer: &mut BufferDrawer, font: &Font, s: &str)
        requires
            old(self).wf(),
            old(drawer)@.wf(),
            font.wf(),
            old(self).pos.y + FONT_HEIGHT * (s@.len() + 1) <= MAX_COORD,
        ensures
            final(self).wf(),
            final(self).screen_size == old(self).screen_size,
            final(self).pos == pos_after(old(self).pos, old(self).screen_size.x as int, s@),
            final(drawer)@.wf(),
            old(drawer)@.same_layout(final(drawer)@),
            forall|q: Point| #[trigger]
                final(drawer)@.color_at(q) == (if written_pixel(
                    font.glyphs(),
                    old(self).pos,
                    old(self).screen_size.x as int,
                    s@,
                    q,
                ) is Some && old(drawer)@.area().contains_spec(q) {
                    Some(
                        old(drawer)@.drawer.shown(
                            written_pixel(
                                font.glyphs(),
                                old(self).pos,
                                old(self).screen_size.x as int,
                                s@,
                                q,
                            ).unwrap(),
                        ),
                    )
                } else {
                    old(drawer)@.color_at(q)
                }),
    {
        let ghost c0 = drawer@;
        let ghost p0 = self.pos;
        let ghost w = self.screen_size.x as int;
        for ch in it: s.chars()
            invariant
                self.wf(),
                self.screen_size == old(self).screen_size,
                w == self.screen_size.x,
                p0 == old(self).pos,
                c0 == old(drawer)@,
                font.wf(),
                drawer@.wf(),
                c0.same_layout(drawer@),
                it.seq() == s@,
                self.pos == pos_after(p0, w, it.seq().take(it.index() as int)),
                self.pos.y <= p0.y + FONT_HEIGHT * it.index(),
                p0.y + FONT_HEIGHT * (s@.len() + 1) <= MAX_COORD,
                forall|q: Point| #[trigger]
                    drawer@.color_at(q) == (if written_pixel(
                        font.glyphs(),
                        p0,
                        w,
                        it.seq().take(it.index() as int),
                        q,
                    ) is Some && c0.area().contains_spec(q) {
                        Some(
                            c0.drawer.shown(
                                written_pixel(
                                    font.glyphs(),
                                    p0,
                                    w,
                                    it.seq().take(it.index() as int),
                                    q,
                                ).unwrap(),
                            ),
                        )
                    } else {
                        c0.color_at(q)
                    }),
        {
            let ghost done = it.seq().take(it.index() as int);
            let ghost next = it.seq().take(it.index() as int + 1);
            assert(next.drop_last() == done);
            assert(next.last() == ch);
            let pos = self.pos;
            if ch != '\n' {
                drawer.fill_rect(
                    Rectangle { pos, size: Point { x: FONT_WIDTH, y: FONT_HEIGHT } },
                    Color::new(255, 255, 255),
                );
                let _ = draw_char(drawer, font, pos, ch, Color::new(255, 0, 0));
                self.pos.x = self.pos.x + FONT_WIDTH;
            }
            if ch == '\n' || self.pos.x + FONT_WIDTH > self.screen_size.x {
                self.pos.y = self.pos.y + FONT_HEIGHT;
                self.pos.x = 0;
            }
        }
        assert(s@.take(s@.len() as int) == s@);
    }
}

} // verus!
