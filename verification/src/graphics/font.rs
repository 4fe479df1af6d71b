//! Bitmap fonts: drawing characters of 8x16 pixels.
use vstd::prelude::*;

verus! {

use crate::graphics::buffer_drawer::{law_draw_then_color_at, BufferDrawer, Canvas};
use crate::graphics::color::Color;
use crate::graphics::geometry::{fits_i32, Point, Rectangle};

/// Width of a character in pixels.
pub const FONT_WIDTH: i32 = 8;
/// Height of a character in pixels.
pub const FONT_HEIGHT: i32 = 16;

/// The letter A, one byte per row, the leftmost pixel in the high bit.
pub const FONT_A: [u8; 16] = [
    0b00000000,
    0b00011000,
    0b00011000,
    0b00011000,
    0b00011000,
    0b00100100,
    0b00100100,
    0b00100100,
    0b00100100,
    0b01111110,
    0b01000010,
    0b01000010,
    0b01000010,
    0b11100111,
    0b00000000,
    0b00000000,
];

/// Whether pixel `fx` (0 is the leftmost) of a glyph row is set.
pub open spec fn glyph_bit(row: u8, fx: int) -> bool {
    (row << (fx as u8)) & 0x80u8 != 0
}

/// A font of 256 glyphs of 8x16 pixels, indexed by byte.
pub struct Font {
    glyphs: Vec<[u8; 16]>,
}

impl Font {
    /// The glyphs, by byte.
    pub closed spec fn glyphs(&self) -> Seq<[u8; 16]> {
        self.glyphs@
    }

    /// Whether there is a glyph for every byte.
    pub open spec fn wf(&self) -> bool {
        self.glyphs().len() == 256
    }

    /// A font from its 256 glyphs; `None` for another number of glyphs.
    pub fn from_glyphs(glyphs: Vec<[u8; 16]>) -> (r: Option<Font>)
        ensures
            glyphs@.len() == 256 ==> (r matches Some(f) && f.glyphs() == glyphs@),
            glyphs@.len() != 256 ==> r is None,
    {
        if glyphs.len() == 256 {
            Some(Font { glyphs })
        } else {
            None
        }
    }

    /// The glyph for `byte`.
    pub fn glyph(&self, byte: u8) -> (r: [u8; 16])
        requires
            self.wf(),
        ensures
            r == self.glyphs()[byte as int],
    {
        self.glyphs[byte as usize]
    }
}

/// Whether the glyph of `byte` drawn at `pos` sets screen point `q`.
pub open spec fn char_pixel(font: Seq<[u8; 16]>, pos: Point, byte: u8, q: Point) -> bool {
    &&& pos.x <= q.x < pos.x + FONT_WIDTH
    &&& pos.y <= q.y < pos.y + FONT_HEIGHT
    &&& glyph_bit(font[byte as int]@[q.y - pos.y], q.x - pos.x)
}

/// Whether the bytes `text` drawn from `pos` set screen point `q`.
pub open spec fn text_pixel(font: Seq<[u8; 16]>, pos: Point, text: Seq<u8>, q: Point) -> bool {
    let dx = q.x - pos.x;
    &&& 0 <= dx < FONT_WIDTH * text.len()
    &&& char_pixel(
        font,
        Point { x: (pos.x + FONT_WIDTH * (dx / FONT_WIDTH as int)) as i32, y: pos.y },
        text[dx / FONT_WIDTH as int],
        q,
    )
}

/// The byte drawn for `ch`: its code when below 256, `'?'` otherwise.
pub open spec fn spec_char_to_byte(ch: char) -> u8 {
    if (ch as u32) < 256 {
        (ch as u32) as u8
    } else {
        0x3f
    }
}

/// The byte drawn for `ch`: its code when below 256, `'?'` otherwise.
pub fn char_to_byte(ch: char) -> (r: u8)
    ensures
        r == spec_char_to_byte(ch),
{
    let code = ch as u32;
    if code < 256 {
        code as u8
    } else {
        0x3fu8
    }
}

/// Draws the glyph of `byte` with its top-left corner at `pos` in `color`;
/// returns the 8x16 rectangle it occupies.
pub fn draw_byte_char(drawer: &mut BufferDrawer, font: &Font, pos: Point, byte: u8, color: Color) -> (r: Rectangle)
    requires
        old(drawer)@.wf(),
        font.wf(),
        fits_i32(pos.x + FONT_WIDTH),
        fits_i32(pos.y + FONT_HEIGHT),
    ensures
        r == (Rectangle { pos, size: Point { x: FONT_WIDTH, y: FONT_HEIGHT } }),
        final(drawer)@.wf(),
        old(drawer)@.same_layout(final(drawer)@),
        forall|q: Point| #[trigger]
            final(drawer)@.color_at(q) == (if char_pixel(font.glyphs(), pos, byte, q)
                && old(drawer)@.area().contains_spec(q) {
                Some(old(drawer)@.drawer.shown(color))
            } else {
                old(drawer)@.color_at(q)
            }),
{
    let ghost start = drawer@;
    let glyph = font.glyph(byte);
    let mut fy: usize = 0;
    while fy < 16
        invariant
            fy <= 16,
            glyph == font.glyphs()[byte as int],
            font.wf(),
            fits_i32(pos.x + FONT_WIDTH),
            fits_i32(pos.y + FONT_HEIGHT),
            drawer@.wf(),
            start.same_layout(drawer@),
            forall|q: Point| #[trigger]
                drawer@.color_at(q) == (if char_pixel(font.glyphs(), pos, byte, q) && q.y - pos.y < fy
                    && start.area().contains_spec(q) {
                    Some(start.drawer.shown(color))
                } else {
                    start.color_at(q)
                }),
        decreases 16 - fy,
    {
        let row = glyph[fy];
        let mut fx: usize = 0;
        while fx < 8
            invariant
                fx <= 8,
                fy < 16,
                row == glyph@[fy as int],
                glyph == font.glyphs()[byte as int],
                font.wf(),
                fits_i32(pos.x + FONT_WIDTH),
                fits_i32(pos.y + FONT_HEIGHT),
                drawer@.wf(),
                start.same_layout(drawer@),
                forall|q: Point| #[trigger]
                    drawer@.color_at(q) == (if char_pixel(font.glyphs(), pos, byte, q) && (q.y - pos.y
                        < fy || (q.y - pos.y == fy && q.x - pos.x < fx))
                        && start.area().contains_spec(q) {
                        Some(start.drawer.shown(color))
                    } else {
                        start.color_at(q)
                    }),
            decreases 8 - fx,
        {
            let p = Point { x: pos.x + fx as i32, y: pos.y + fy as i32 };
            if (row << fx as u8) & 0x80 != 0 {
                let ghost prev = drawer@;
                drawer.draw(p, color);
                proof {
                    law_draw_then_color_at(prev, p, p, color);
                    assert forall|q: Point| #[trigger]
                        drawer@.color_at(q) == (if char_pixel(font.glyphs(), pos, byte, q) && (q.y
                            - pos.y < fy || (q.y - pos.y == fy && q.x - pos.x < fx + 1))
                            && start.area().contains_spec(q) {
                            Some(start.drawer.shown(color))
                        } else {
                            start.color_at(q)
                        }) by {
                        law_draw_then_color_at(prev, p, q, color);
                    }
                }
            } else {
                proof {
                    assert forall|q: Point| #[trigger]
                        drawer@.color_at(q) == (if char_pixel(font.glyphs(), pos, byte, q) && (q.y
                            - pos.y < fy || (q.y - pos.y == fy && q.x - pos.x < fx + 1))
                            && start.area().contains_spec(q) {
                            Some(start.drawer.shown(color))
                        } else {
                            start.color_at(q)
                        }) by {
                        if q.y - pos.y == fy && q.x - pos.x == fx {
                            assert(!char_pixel(font.glyphs(), pos, byte, q));
                        }
                    }
                }
            }
            fx = fx + 1;
        }
        fy = fy + 1;
    }
    Rectangle { pos, size: Point { x: FONT_WIDTH, y: FONT_HEIGHT } }
}


/// The rectangle a run of `n` characters drawn from `pos` occupies: empty
/// at `pos` for no character.
pub open spec fn text_rect(pos: Point, n: int) -> Rectangle {
    if n == 0 {
        Rectangle { pos, size: Point { x: 0, y: 0 } }
    } else {
        Rectangle { pos, size: Point { x: (FONT_WIDTH * n) as i32, y: FONT_HEIGHT } }
    }
}

/// A text pixel of the first `i + 1` bytes is one of the first `i` or one
/// of byte `i`.
pub proof fn lemma_text_pixel_step(font: Seq<[u8; 16]>, pos: Point, text: Seq<u8>, i: int, q: Point)
    requires
        0 <= i < text.len(),
        fits_i32(pos.x + FONT_WIDTH * text.len()),
    ensures
        text_pixel(font, pos, text.take(i + 1), q) == (text_pixel(font, pos, text.take(i), q)
            || char_pixel(font, Point { x: (pos.x + FONT_WIDTH * i) as i32, y: pos.y }, text[i], q)),
{
    let dx = q.x - pos.x;
    if 0 <= dx < FONT_WIDTH * i {
        assert(dx / 8 < i);
        assert(text.take(i + 1)[dx / 8] == text.take(i)[dx / 8]);
        assert(!(pos.x + FONT_WIDTH * i <= q.x));
    } else if FONT_WIDTH * i <= dx < FONT_WIDTH * (i + 1) {
        assert(dx / 8 == i);
    }
}

/// Draws the bytes of `bytes` side by side from `pos` in `color`; returns
/// the rectangle they occupy.
pub fn draw_byte_str(drawer: &mut BufferDrawer, font: &Font, pos: Point, bytes: &[u8], color: Color) -> (r: Rectangle)
    requires
        old(drawer)@.wf(),
        font.wf(),
        fits_i32(pos.x + FONT_WIDTH * bytes@.len()),
        fits_i32(FONT_WIDTH * bytes@.len()),
        fits_i32(pos.x + FONT_WIDTH),
        fits_i32(pos.y + FONT_HEIGHT),
    ensures
        r == text_rect(pos, bytes@.len() as int),
        final(drawer)@.wf(),
        old(drawer)@.same_layout(final(drawer)@),
        forall|q: Point| #[trigger]
            final(drawer)@.color_at(q) == (if text_pixel(font.glyphs(), pos, bytes@, q)
                && old(drawer)@.area().contains_spec(q) {
                Some(old(drawer)@.drawer.shown(color))
            } else {
                old(drawer)@.color_at(q)
            }),
{
    let ghost start = drawer@;
    let start_pos = pos;
    let mut end_pos = start_pos;
    let mut cur = start_pos;
    let mut i: usize = 0;
    assert forall|q: Point| #[trigger] drawer@.color_at(q) == (if text_pixel(font.glyphs(), pos, bytes@.take(0), q)
        && start.area().contains_spec(q) {
        Some(start.drawer.shown(color))
    } else {
        start.color_at(q)
    }) by {}
    while i < bytes.len()
        invariant
            i <= bytes@.len(),
            font.wf(),
            fits_i32(pos.x + FONT_WIDTH * bytes@.len()),
            fits_i32(pos.x + FONT_WIDTH),
            fits_i32(pos.y + FONT_HEIGHT),
            cur == (Point { x: (pos.x + FONT_WIDTH * i) as i32, y: pos.y }),
            end_pos == (if i == 0 {
                pos
            } else {
                Point { x: (pos.x + FONT_WIDTH * i) as i32, y: (pos.y + FONT_HEIGHT) as i32 }
            }),
            drawer@.wf(),
            start.same_layout(drawer@),
            forall|q: Point| #[trigger]
                drawer@.color_at(q) == (if text_pixel(font.glyphs(), pos, bytes@.take(i as int), q)
                    && start.area().contains_spec(q) {
                    Some(start.drawer.shown(color))
                } else {
                    start.color_at(q)
                }),
        decreases bytes@.len() - i,
    {
        let ghost prev = drawer@;
        let rect = draw_byte_char(drawer, font, cur, bytes[i], color);
        proof {
            assert forall|q: Point| #[trigger]
                drawer@.color_at(q) == (if text_pixel(font.glyphs(), pos, bytes@.take(i + 1), q)
                    && start.area().contains_spec(q) {
                    Some(start.drawer.shown(color))
                } else {
                    start.color_at(q)
                }) by {
                lemma_text_pixel_step(font.glyphs(), pos, bytes@, i as int, q);
            }
        }
        cur.x = rect.x_end();
        let re = rect.end_pos();
        end_pos = Point::elem_max(end_pos, re);
        i = i + 1;
    }
    assert(bytes@.take(bytes@.len() as int) =~= bytes@);
    let size = Point { x: end_pos.x - start_pos.x, y: end_pos.y - start_pos.y };
    Rectangle::new(start_pos, size)
}

/// Draws the glyph of `ch` (see `char_to_byte`) at `pos` in `color`.
pub fn draw_char(drawer: &mut BufferDrawer, font: &Font, pos: Point, ch: char, color: Color) -> (r: Rectangle)
    requires
        old(drawer)@.wf(),
        font.wf(),
        fits_i32(pos.x + FONT_WIDTH),
        fits_i32(pos.y + FONT_HEIGHT),
    ensures
        r == (Rectangle { pos, size: Point { x: FONT_WIDTH, y: FONT_HEIGHT } }),
        final(drawer)@.wf(),
        old(drawer)@.same_layout(final(drawer)@),
        forall|q: Point| #[trigger]
            final(drawer)@.color_at(q) == (if char_pixel(font.glyphs(), pos, spec_char_to_byte(ch), q)
                && old(drawer)@.area().contains_spec(q) {
                Some(old(drawer)@.drawer.shown(color))
            } else {
                old(drawer)@.color_at(q)
            }),
{
    let byte = char_to_byte(ch);
    draw_byte_char(drawer, font, pos, byte, color)
}

/// The bytes drawn for the characters `s`.
pub open spec fn chars_to_bytes(s: Seq<char>) -> Seq<u8> {
    s.map_values(|c: char| spec_char_to_byte(c))
}

/// Draws the characters of `s` side by side from `pos` in `color`; returns
/// the rectangle they occupy.
pub fn draw_str(drawer: &mut BufferDrawer, font: &Font, pos: Point, s: &str, color: Color) -> (r: Rectangle)
    requires
        old(drawer)@.wf(),
        font.wf(),
        fits_i32(pos.x + FONT_WIDTH * s@.len()),
        fits_i32(FONT_WIDTH * s@.len()),
        fits_i32(pos.x + FONT_WIDTH),
        fits_i32(pos.y + FONT_HEIGHT),
    ensures
        r == text_rect(pos, s@.len() as int),
        final(drawer)@.wf(),
        old(drawer)@.same_layout(final(drawer)@),
        forall|q: Point| #[trigger]
            final(drawer)@.color_at(q) == (if text_pixel(font.glyphs(), pos, chars_to_bytes(s@), q)
                && old(drawer)@.area().contains_spec(q) {
                Some(old(drawer)@.drawer.shown(color))
            } else {
                old(drawer)@.color_at(q)
            }),
{
    let mut bytes: Vec<u8> = Vec::new();
    for ch in it: s.chars()
        invariant
            bytes@ == chars_to_bytes(it.seq().take(it.index() as int)),
    {
        bytes.push(char_to_byte(ch));
        assert(bytes@ =~= chars_to_bytes(it.seq().take(it.index() as int + 1)));
    }
    assert(bytes@ == chars_to_bytes(s@));
    draw_byte_str(drawer, font, pos, bytes.as_slice(), color)
}

/// Why drawing a glyph failed: a pixel outside the buffer.
#[derive(Debug, Clone, Copy, PartialEq, Eq, Structural)]
pub enum DrawError {
    OutOfRange,
}

/// Draws the letter A at `pos` in `color`; other characters draw nothing.
/// Pixels outside the buffer are skipped, so drawing never fails, whether
/// `ignore_out_of_range` asks to ignore such pixels or not.
pub fn draw_ascii(
    drawer: &mut BufferDrawer,
    pos: Point,
    character: u8,
    color: Color,
    ignore_out_of_range: bool,
) -> (r: core::result::Result<(), DrawError>)
    requires
        old(drawer)@.wf(),
        fits_i32(pos.x + FONT_WIDTH),
        fits_i32(pos.y + FONT_HEIGHT),
    ensures
        r == Ok::<(), DrawError>(()),
        final(drawer)@.wf(),
        old(drawer)@.same_layout(final(drawer)@),
        forall|q: Point| #[trigger]
            final(drawer)@.color_at(q) == (if character == 0x41 && char_pixel(
                Seq::new(256, |i: int| FONT_A),
                pos,
                character,
                q,
            ) && old(drawer)@.area().contains_spec(q) {
                Some(old(drawer)@.drawer.shown(color))
            } else {
                old(drawer)@.color_at(q)
            }),
{
    if character != 0x41 {
        return Ok(());
    }
    let mut glyphs: Vec<[u8; 16]> = Vec::new();
    let mut i: usize = 0;
    while i < 256
        invariant
            i <= 256,
            glyphs@ == Seq::new(i as nat, |k: int| FONT_A),
        decreases 256 - i,
    {
        glyphs.push(FONT_A);
        i = i + 1;
        assert(glyphs@ =~= Seq::new(i as nat, |k: int| FONT_A));
    }
    let font = Font { glyphs };
    let _ = draw_byte_char(drawer, &font, pos, character, color);
    Ok(())
}

} // verus!
