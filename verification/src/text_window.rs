//! A one-line text box window: typed characters appear at a blinking
//! cursor, backspace removes them.
use vstd::prelude::*;

verus! {

use crate::error::{ErrorKind, Result};
use crate::framed_window::{
    build_framed, content_area, to_content, FramedBuilder, FramedWindow, PADDING_BOTTOM,
    PADDING_LEFT, PADDING_RIGHT, PADDING_TOP,
};
use crate::graphics::buffer_drawer::{screen_info_wf, spec_pixel_drawer, Canvas, ScreenInfo};
use crate::graphics::color::Color;
use crate::graphics::font::{char_pixel, char_to_byte, spec_char_to_byte, Font};
use crate::graphics::geometry::{Point, Rectangle};
use crate::keyboard::KeyboardEvent;
use crate::layer::{Layer, COORD_LIMIT};
use crate::task::IdGenerator;
use crate::window::changes_marked;

/// Content position of the cell at `index`.
pub open spec fn text_insert_pos(index: int) -> Point {
    Point { x: (4 + 8 * index) as i32, y: 6 }
}

/// The colors after content rectangle `rect` is painted `c` over `before`.
pub open spec fn filled(before: Canvas, rect: Rectangle, c: Color, q: Point) -> Option<Color> {
    if rect.contains_spec(to_content(q)) && content_area(before.size).contains_spec(to_content(q))
        && before.area().contains_spec(q) {
        Some(before.drawer.shown(c))
    } else {
        before.color_at(q)
    }
}

/// Whether `after` is `before` with content rectangle `rect` painted `c`.
pub open spec fn fill_step(before: Canvas, after: Canvas, rect: Rectangle, c: Color) -> bool {
    &&& before.same_layout(after)
    &&& forall|q: Point| #[trigger] after.color_at(q) == filled(before, rect, c, q)
}

/// Whether `after` is `before` with the glyph of `byte` drawn black at
/// content point `pos`.
pub open spec fn char_step(before: Canvas, after: Canvas, font: Seq<[u8; 16]>, pos: Point, byte: u8) -> bool {
    &&& before.same_layout(after)
    &&& forall|q: Point| #[trigger]
        after.color_at(q) == (if char_pixel(font, pos, byte, to_content(q)) && content_area(
            before.size,
        ).contains_spec(to_content(q)) && before.area().contains_spec(q) {
            Some(before.drawer.shown(Color { r: 0, g: 0, b: 0 }))
        } else {
            before.color_at(q)
        })
}

/// The cursor block at `index`: a 7x15 rectangle.
pub open spec fn cursor_rect(index: int) -> Rectangle {
    Rectangle { pos: text_insert_pos(index), size: Point { x: 7, y: 15 } }
}

/// The cursor's color: black when shown, white when hidden.
pub open spec fn cursor_color(visible: bool) -> Color {
    if visible {
        Color { r: 0, g: 0, b: 0 }
    } else {
        Color { r: 255, g: 255, b: 255 }
    }
}

/// A text box window.
pub struct TextWindow {
    window: FramedWindow,
    index: i32,
    max_chars: i32,
    cursor_visible: bool,
}

impl TextWindow {
    /// The framed window.
    pub closed spec fn frame(&self) -> &FramedWindow {
        &self.window
    }

    /// Number of characters typed.
    pub closed spec fn index(&self) -> int {
        self.index as int
    }

    /// Most characters the box takes.
    pub closed spec fn max_chars(&self) -> int {
        self.max_chars as int
    }

    /// Whether the blinking cursor is on.
    pub closed spec fn cursor_visible(&self) -> bool {
        self.cursor_visible
    }

    /// The window is well formed and the count within the box.
    pub open spec fn wf(&self) -> bool {
        &&& self.frame().wf()
        &&& 0 <= self.index() <= self.max_chars()
        &&& self.max_chars() <= 0x0100_0000
    }

    /// A text box titled `title` at `pos`, 160 pixels wide and a character
    /// high, empty, the cursor on; builds its framed window (see
    /// `build_framed`).
    pub fn new(title: Vec<char>, pos: Point, ids: &mut IdGenerator, screen_info: ScreenInfo, font: &Font) -> (r: Result<(TextWindow, Layer)>)
        requires
            screen_info_wf(screen_info),
            font.wf(),
            -COORD_LIMIT <= pos.x <= COORD_LIMIT,
            -COORD_LIMIT <= pos.y <= COORD_LIMIT,
            title@.len() <= 0x0100_0000,
            168 * 52 * screen_info.bytes_per_pixel <= i32::MAX,
        ensures
            r is Ok <==> spec_pixel_drawer(screen_info.pixel_format) is Some,
            r matches Err(e) ==> e.kind == ErrorKind::UnsupportedPixelFormat,
            r matches Ok((t, l)) ==> {
                &&& t.wf()
                &&& t.index() == 0
                &&& t.max_chars() == 18
                &&& t.cursor_visible()
                &&& t.frame().title() == title@
                &&& t.frame().inner().layer_id().0 == l@.id
            },
    {
        let window_size = Point { x: 160, y: 16 + 8 };
        proof {
            assert(52 * screen_info.bytes_per_pixel <= 168 * 52 * screen_info.bytes_per_pixel)
                by (nonlinear_arith)
                requires
                    1 <= screen_info.bytes_per_pixel,
            ;
        }
        let builder = FramedBuilder::new(title).size(window_size).pos(pos);
        let (window, layer) = match build_framed(builder, ids, screen_info, font) {
            Ok(p) => p,
            Err(e) => return Err(e),
        };
        Ok((TextWindow { window, index: 0, max_chars: (window_size.x - 8) / 8 - 1, cursor_visible: true }, layer))
    }

    /// Content position of the cell the next character goes to.
    pub fn insert_pos(&self) -> (r: Point)
        requires
            self.wf(),
        ensures
            r == text_insert_pos(self.index()),
    {
        Point { x: 4 + 8 * self.index, y: 6 }
    }

    /// Draws, or erases, the cursor block at the insert position.
    pub fn draw_cursor(&mut self, visible: bool)
        requires
            old(self).wf(),
        ensures
            changes_marked(
                old(self).frame().inner().canvas(),
                old(self).frame().inner().redraw(),
                final(self).frame().inner().canvas(),
                final(self).frame().inner().redraw(),
            ),
            final(self).wf(),
            final(self).index() == old(self).index(),
            final(self).max_chars() == old(self).max_chars(),
            final(self).cursor_visible() == old(self).cursor_visible(),
            final(self).frame().title() == old(self).frame().title(),
            fill_step(
                old(self).frame().inner().canvas(),
                final(self).frame().inner().canvas(),
                cursor_rect(old(self).index()),
                cursor_color(visible),
            ),
    {
        let color = if visible {
            Color::new(0, 0, 0)
        } else {
            Color::new(255, 255, 255)
        };
        let pos = self.insert_pos();
        self.window.fill_rect(Rectangle { pos, size: Point { x: 7, y: 15 } }, color);
    }

    /// Blinks the cursor.
    pub fn handle_timeout(&mut self)
        requires
            old(self).wf(),
        ensures
            changes_marked(
                old(self).frame().inner().canvas(),
                old(self).frame().inner().redraw(),
                final(self).frame().inner().canvas(),
                final(self).frame().inner().redraw(),
            ),
            final(self).wf(),
            final(self).index() == old(self).index(),
            final(self).cursor_visible() == !old(self).cursor_visible(),
            fill_step(
                old(self).frame().inner().canvas(),
                final(self).frame().inner().canvas(),
                cursor_rect(old(self).index()),
                cursor_color(!old(self).cursor_visible()),
            ),
    {
        self.cursor_visible = !self.cursor_visible;
        self.draw_cursor(self.cursor_visible);
    }

    /// Handles a key press: backspace, with characters in the box, erases
    /// the cursor, steps back and blanks that cell; a printable character,
    /// with room in the box, erases the cursor, draws the character and
    /// steps on; either way the cursor is drawn again as it blinks. Other
    /// keys do nothing.
    pub fn handle_event(&mut self, event: KeyboardEvent, font: &Font)
        requires
            old(self).wf(),
            font.wf(),
        ensures
            changes_marked(
                old(self).frame().inner().canvas(),
                old(self).frame().inner().redraw(),
                final(self).frame().inner().canvas(),
                final(self).frame().inner().redraw(),
            ),
            final(self).wf(),
            final(self).cursor_visible() == old(self).cursor_visible(),
            final(self).max_chars() == old(self).max_chars(),
            ({
                let c0 = old(self).frame().inner().canvas();
                let c3 = final(self).frame().inner().canvas();
                let i = old(self).index();
                let vis = old(self).cursor_visible();
                if event.ascii != '\0' && event.ascii == '\x08' && i > 0 {
                    &&& final(self).index() == i - 1
                    &&& exists|c1: Canvas, c2: Canvas| #[trigger]
                        fill_step(c0, c1, cursor_rect(i), cursor_color(false)) && #[trigger]
                        fill_step(
                            c1,
                            c2,
                            Rectangle { pos: text_insert_pos(i - 1), size: Point { x: 8, y: 16 } },
                            Color { r: 255, g: 255, b: 255 },
                        ) && fill_step(c2, c3, cursor_rect(i - 1), cursor_color(vis))
                } else if event.ascii != '\0' && event.ascii != '\x08' && event.ascii >= ' ' && i
                    < old(self).max_chars() {
                    &&& final(self).index() == i + 1
                    &&& exists|c1: Canvas, c2: Canvas| #[trigger]
                        fill_step(c0, c1, cursor_rect(i), cursor_color(false)) && #[trigger]
                        char_step(c1, c2, font.glyphs(), text_insert_pos(i), spec_char_to_byte(event.ascii))
                        && fill_step(c2, c3, cursor_rect(i + 1), cursor_color(vis))
                } else {
                    &&& final(self).index() == i
                    &&& c3 == c0
                }
            }),
    {
        let ghost c0 = self.window.inner().canvas();
        if event.ascii == '\0' {
            return ;
        }
        if event.ascii == '\x08' && self.index > 0 {
            self.draw_cursor(false);
            let ghost c1 = self.window.inner().canvas();
            self.index = self.index - 1;
            let pos = self.insert_pos();
            self.window.fill_rect(Rectangle { pos, size: Point { x: 8, y: 16 } }, Color::new(255, 255, 255));
            let ghost c2 = self.window.inner().canvas();
            self.draw_cursor(self.cursor_visible);
            let ghost c3 = self.window.inner().canvas();
            assert(fill_step(c0, c1, cursor_rect(self.index + 1), cursor_color(false)));
            assert(fill_step(
                c1,
                c2,
                Rectangle { pos: text_insert_pos(self.index as int), size: Point { x: 8, y: 16 } },
                Color { r: 255, g: 255, b: 255 },
            ));
        } else if event.ascii >= ' ' && self.index < self.max_chars {
            self.draw_cursor(false);
            let ghost c1 = self.window.inner().canvas();
            let pos = self.insert_pos();
            self.window.draw_byte_char(font, pos, char_to_byte(event.ascii), Color::new(0, 0, 0));
            let ghost c2 = self.window.inner().canvas();
            self.index = self.index + 1;
            self.draw_cursor(self.cursor_visible);
            assert(fill_step(c0, c1, cursor_rect(self.index - 1), cursor_color(false)));
            assert(char_step(c1, c2, font.glyphs(), text_insert_pos(self.index - 1), spec_char_to_byte(event.ascii)));
        }
    }

    /// Draws the box: white inside, dark top and left edges, light lines
    /// below and right (see `FramedWindow::draw_box`), over the content area.
    pub fn draw_text_box(&mut self)
        requires
            old(self).wf(),
        ensures
            changes_marked(
                old(self).frame().inner().canvas(),
                old(self).frame().inner().redraw(),
                final(self).frame().inner().canvas(),
                final(self).frame().inner().redraw(),
            ),
            final(self).wf(),
            final(self).index() == old(self).index(),
            final(self).cursor_visible() == old(self).cursor_visible(),
            old(self).frame().inner().canvas().same_layout(final(self).frame().inner().canvas()),
            forall|q: Point| #[trigger]
                final(self).frame().inner().canvas().color_at(q) == (if content_area(
                    old(self).frame().inner().canvas().size,
                ).contains_spec(to_content(q)) && old(self).frame().inner().canvas().area().contains_spec(q)
                    && crate::framed_window::box_pixel(
                    content_area(old(self).frame().inner().canvas().size),
                    Color { r: 255, g: 255, b: 255 },
                    Color { r: 0x84, g: 0x84, b: 0x84 },
                    Color { r: 0xc6, g: 0xc6, b: 0xc6 },
                    to_content(q),
                ) is Some {
                    Some(old(self).frame().inner().canvas().drawer.shown(
                        crate::framed_window::box_pixel(
                            content_area(old(self).frame().inner().canvas().size),
                            Color { r: 255, g: 255, b: 255 },
                            Color { r: 0x84, g: 0x84, b: 0x84 },
                            Color { r: 0xc6, g: 0xc6, b: 0xc6 },
                            to_content(q),
                        ).unwrap(),
                    ))
                } else {
                    old(self).frame().inner().canvas().color_at(q)
                }),
    {
        let area = self.window.area();
        self.window.draw_box(
            area,
            Color::new(255, 255, 255),
            Color::new(0x84, 0x84, 0x84),
            Color::new(0xc6, 0xc6, 0xc6),
        );
    }
}

/// A window that counts how often it got to run.
pub struct CounterWindow {
    window: FramedWindow,
    count: usize,
}

/// The decimal digits of `v`, zero-padded to 10.
pub open spec fn counter_text(v: nat) -> Seq<u8> {
    crate::graphics::font::chars_to_bytes(
        crate::fmt::zero_padded(crate::fmt::dec_digits(v), 10),
    )
}

impl CounterWindow {
    /// The framed window.
    pub closed spec fn frame(&self) -> &FramedWindow {
        &self.window
    }

    /// The count.
    pub closed spec fn count(&self) -> nat {
        self.count as nat
    }

    /// A counter window titled `title` at `pos` with a 152x25 content area,
    /// counting from 0.
    pub fn new(title: Vec<char>, pos: Point, ids: &mut IdGenerator, screen_info: ScreenInfo, font: &Font) -> (r: Result<(CounterWindow, Layer)>)
        requires
            screen_info_wf(screen_info),
            font.wf(),
            -COORD_LIMIT <= pos.x <= COORD_LIMIT,
            -COORD_LIMIT <= pos.y <= COORD_LIMIT,
            title@.len() <= 0x0100_0000,
            160 * 53 * screen_info.bytes_per_pixel <= i32::MAX,
        ensures
            r is Ok <==> spec_pixel_drawer(screen_info.pixel_format) is Some,
            r matches Err(e) ==> e.kind == ErrorKind::UnsupportedPixelFormat,
            r matches Ok((w, l)) ==> {
                &&& w.frame().wf()
                &&& w.count() == 0
                &&& w.frame().title() == title@
                &&& w.frame().inner().layer_id().0 == l@.id
            },
    {
        proof {
            assert(53 * screen_info.bytes_per_pixel <= 160 * 53 * screen_info.bytes_per_pixel)
                by (nonlinear_arith)
                requires
                    1 <= screen_info.bytes_per_pixel,
            ;
        }
        let builder = FramedBuilder::new(title).pos(pos).size(Point { x: 152, y: 25 });
        let (window, layer) = match build_framed(builder, ids, screen_info, font) {
            Ok(p) => p,
            Err(e) => return Err(e),
        };
        Ok((CounterWindow { window, count: 0 }, layer))
    }

    /// Shows the count: paints the box at (20, 4) light gray and draws the
    /// count in black, zero-padded to 10 digits; then counts one more.
    pub fn handle_yield(&mut self, font: &Font)
        requires
            old(self).frame().wf(),
            font.wf(),
            old(self).count() < usize::MAX,
        ensures
            changes_marked(
                old(self).frame().inner().canvas(),
                old(self).frame().inner().redraw(),
                final(self).frame().inner().canvas(),
                final(self).frame().inner().redraw(),
            ),
            final(self).frame().wf(),
            final(self).count() == old(self).count() + 1,
            final(self).frame().title() == old(self).frame().title(),
            exists|c1: Canvas| #[trigger]
                fill_step(
                    old(self).frame().inner().canvas(),
                    c1,
                    Rectangle { pos: Point { x: 20, y: 4 }, size: Point { x: 80, y: 16 } },
                    Color { r: 0xc6, g: 0xc6, b: 0xc6 },
                ) && c1.same_layout(final(self).frame().inner().canvas()) && forall|q: Point| #[trigger]
                    final(self).frame().inner().canvas().color_at(q) == (if crate::graphics::font::text_pixel(
                        font.glyphs(),
                        Point { x: 20, y: 4 },
                        counter_text(old(self).count()),
                        to_content(q),
                    ) && content_area(c1.size).contains_spec(to_content(q)) && c1.area().contains_spec(q) {
                        Some(c1.drawer.shown(Color { r: 0, g: 0, b: 0 }))
                    } else {
                        c1.color_at(q)
                    }),
    {
        self.window.fill_rect(
            Rectangle { pos: Point { x: 20, y: 4 }, size: Point { x: 8 * 10, y: 16 } },
            Color::new(0xc6, 0xc6, 0xc6),
        );
        let ghost c1 = self.window.inner().canvas();
        let mut digits: Vec<char> = Vec::new();
        crate::fmt::push_dec(&mut digits, self.count as u64);
        let mut padded: Vec<char> = Vec::new();
        while padded.len() + digits.len() < 10
            invariant
                padded@ == Seq::new(padded@.len(), |i: int| '0'),
                padded@.len() + digits@.len() <= 10 || padded@.len() == 0,
            decreases 10 - padded@.len(),
        {
            padded.push('0');
            assert(padded@ =~= Seq::new(padded@.len(), |i: int| '0'));
        }
        crate::fmt::push_chars(&mut padded, &digits);
        assert(padded@ =~= crate::fmt::zero_padded(crate::fmt::dec_digits(self.count as nat), 10));
        let mut bytes: Vec<u8> = Vec::new();
        let mut i: usize = 0;
        while i < padded.len()
            invariant
                i <= padded@.len(),
                bytes@ == crate::graphics::font::chars_to_bytes(padded@.take(i as int)),
            decreases padded@.len() - i,
        {
            bytes.push(char_to_byte(padded[i]));
            i = i + 1;
            assert(bytes@ =~= crate::graphics::font::chars_to_bytes(padded@.take(i as int)));
        }
        assert(padded@.take(padded@.len() as int) =~= padded@);
        proof {
            crate::fmt::lemma_dec_len_bound(self.count as nat);
        }
        self.window.draw_byte_str(font, Point { x: 20, y: 4 }, bytes.as_slice(), Color::new(0, 0, 0));
        self.count = self.count + 1;
        assert(fill_step(
            old(self).frame().inner().canvas(),
            c1,
            Rectangle { pos: Point { x: 20, y: 4 }, size: Point { x: 80, y: 16 } },
            Color { r: 0xc6, g: 0xc6, b: 0xc6 },
        ));
    }
}

} // verus!
