//! Drawing a terminal's character cells in its framed window.
use vstd::prelude::*;

verus! {

use crate::error::{ErrorKind, Result};
use crate::framed_window::{
    build_framed, content_area, to_content, FramedBuilder, FramedWindow, PADDING_BOTTOM,
    PADDING_LEFT, PADDING_RIGHT, PADDING_TOP,
};
use crate::graphics::buffer_drawer::{screen_info_wf, spec_pixel_drawer, Canvas, ScreenInfo};
use crate::graphics::color::Color;
use crate::graphics::font::{char_pixel, char_to_byte, glyph_bit, spec_char_to_byte, Font};
use crate::graphics::geometry::{fits_i32, Point, Rectangle};
use crate::layer::{Layer, COORD_LIMIT};
use crate::task::IdGenerator;
use crate::window::{changes_marked, lemma_changes_marked_trans};
use crate::terminal::{Cell, TermView, Terminal, FONT_HEIGHT, FONT_WIDTH, PADDING};

/// The text color.
pub open spec fn foreground() -> Color {
    Color { r: 255, g: 255, b: 255 }
}

/// The background color.
pub open spec fn background() -> Color {
    Color { r: 0, g: 0, b: 0 }
}

/// The content rectangle of the cell at column `x`, row `y`.
pub open spec fn cell_rect(x: int, y: int) -> Rectangle {
    Rectangle {
        pos: Point { x: (FONT_WIDTH * x + PADDING) as i32, y: (FONT_HEIGHT * y + PADDING) as i32 },
        size: Point { x: FONT_WIDTH, y: FONT_HEIGHT },
    }
}

/// The color a cell shows at point `o` of its 8x16 box: the glyph in the
/// text color on the background, the cursor block (7x15) in the text color,
/// or the background.
pub open spec fn cell_color(font: Seq<[u8; 16]>, c: Cell, o: Point) -> Color {
    match c {
        Cell::Blank => background(),
        Cell::Block => if o.x < FONT_WIDTH - 1 && o.y < FONT_HEIGHT - 1 {
            foreground()
        } else {
            background()
        },
        Cell::Glyph(ch) => if glyph_bit(font[spec_char_to_byte(ch) as int]@[o.y as int], o.x as int) {
            foreground()
        } else {
            background()
        },
    }
}

/// The color the cells of `v` show at content point `p`; `None` outside the
/// text area.
pub open spec fn screen_pixel(v: TermView, font: Seq<[u8; 16]>, p: Point) -> Option<Color> {
    let dx = p.x - PADDING;
    let dy = p.y - PADDING;
    if 0 <= dx < FONT_WIDTH * v.cols && 0 <= dy < FONT_HEIGHT * v.rows {
        Some(
            cell_color(
                font,
                v.screen[dy / FONT_HEIGHT as int][dx / FONT_WIDTH as int],
                Point { x: (dx % FONT_WIDTH as int) as i32, y: (dy % FONT_HEIGHT as int) as i32 },
            ),
        )
    } else {
        None
    }
}

/// The window's colors after the cells are drawn over `c`.
pub open spec fn screen_color(c: Canvas, v: TermView, font: Seq<[u8; 16]>, q: Point) -> Option<Color> {
    if screen_pixel(v, font, to_content(q)) is Some && content_area(c.size).contains_spec(to_content(q))
        && c.area().contains_spec(q) {
        Some(c.drawer.shown(screen_pixel(v, font, to_content(q)).unwrap()))
    } else {
        c.color_at(q)
    }
}

/// Builds the framed window of a terminal of `text_size` columns and rows
/// titled `title` at `pos`: its content holds the cells and the padding
/// around them.
pub fn build_terminal_window(
    title: Vec<char>,
    pos: Point,
    text_size: Point,
    ids: &mut IdGenerator,
    screen_info: ScreenInfo,
    font: &Font,
) -> (r: Result<(FramedWindow, Layer)>)
    requires
        screen_info_wf(screen_info),
        font.wf(),
        1 <= text_size.x <= 0x0010_0000,
        1 <= text_size.y <= 0x0010_0000,
        fits_i32(
            (FONT_WIDTH * text_size.x + 2 * PADDING + PADDING_LEFT + PADDING_RIGHT) * (FONT_HEIGHT
                * text_size.y + 2 * PADDING + PADDING_TOP + PADDING_BOTTOM) * screen_info.bytes_per_pixel,
        ),
        -COORD_LIMIT <= pos.x <= COORD_LIMIT,
        -COORD_LIMIT <= pos.y <= COORD_LIMIT,
        title@.len() <= 0x0100_0000,
    ensures
        r is Ok <==> spec_pixel_drawer(screen_info.pixel_format) is Some,
        r matches Err(e) ==> e.kind == ErrorKind::UnsupportedPixelFormat,
        r matches Ok((w, l)) ==> {
            &&& w.wf()
            &&& l@.wf()
            &&& w.title() == title@
            &&& w.inner().layer_id().0 == l@.id
            &&& l@.pos == pos
            &&& content_area(w.inner().canvas().size).size == (Point {
                x: (FONT_WIDTH * text_size.x + 2 * PADDING) as i32,
                y: (FONT_HEIGHT * text_size.y + 2 * PADDING) as i32,
            })
        },
{
    let size = Point {
        x: FONT_WIDTH * text_size.x + 2 * PADDING,
        y: FONT_HEIGHT * text_size.y + 2 * PADDING,
    };
    let builder = FramedBuilder::new(title).pos(pos).size(size);
    proof {
        let w = builder.inner.size.x as int;
        let h = builder.inner.size.y as int;
        let b = screen_info.bytes_per_pixel as int;
        assert(h * b <= w * h * b) by (nonlinear_arith)
            requires
                8 <= w,
                0 <= h,
                1 <= b,
        ;
        assert(0 <= w * h * b) by (nonlinear_arith)
            requires
                8 <= w,
                0 <= h,
                1 <= b,
        ;
    }
    build_framed(builder, ids, screen_info, font)
}

/// A point of the text area lies in the cell its coordinates divide into.
proof fn lemma_cell_of(d: int, n: int, k: int)
    requires
        n > 0,
        n * k <= d < n * k + n,
    ensures
        d / n == k,
        d % n == d - n * k,
{
    vstd::arithmetic::div_mod::lemma_fundamental_div_mod(d, n);
    assert(d / n == k) by (nonlinear_arith)
        requires
            n > 0,
            n * k <= d < n * k + n,
            d == n * (d / n) + d % n,
            0 <= d % n < n,
    ;
}

/// Draws the cell at column `x`, row `y` of `t`.
pub fn draw_cell(t: &Terminal, window: &mut FramedWindow, font: &Font, x: i32, y: i32)
    requires
        t@.wf(),
        old(window).wf(),
        font.wf(),
        0 <= x < t@.cols,
        0 <= y < t@.rows,
    ensures
        changes_marked(
            old(window).inner().canvas(),
            old(window).inner().redraw(),
            final(window).inner().canvas(),
            final(window).inner().redraw(),
        ),
        final(window).wf(),
        final(window).title() == old(window).title(),
        final(window).active() == old(window).active(),
        old(window).inner().canvas().same_layout(final(window).inner().canvas()),
        forall|q: Point| #[trigger]
            final(window).inner().canvas().color_at(q) == (if cell_rect(x as int, y as int).contains_spec(
                to_content(q),
            ) && content_area(old(window).inner().canvas().size).contains_spec(to_content(q))
                && old(window).inner().canvas().area().contains_spec(q) {
                Some(
                    old(window).inner().canvas().drawer.shown(
                        cell_color(
                            font.glyphs(),
                            t@.screen[y as int][x as int],
                            Point {
                                x: (to_content(q).x - (FONT_WIDTH * x + PADDING)) as i32,
                                y: (to_content(q).y - (FONT_HEIGHT * y + PADDING)) as i32,
                            },
                        ),
                    ),
                )
            } else {
                old(window).inner().canvas().color_at(q)
            }),
{
    let ghost c0 = window.inner().canvas();
    let pos = Point { x: FONT_WIDTH * x + PADDING, y: FONT_HEIGHT * y + PADDING };
    let cell = t.cell(x as usize, y as usize);
    window.fill_rect(Rectangle { pos, size: Point { x: FONT_WIDTH, y: FONT_HEIGHT } }, Color::new(0, 0, 0));
    match cell {
        Cell::Blank => {},
        Cell::Block => {
            window.fill_rect(
                Rectangle { pos, size: Point { x: FONT_WIDTH - 1, y: FONT_HEIGHT - 1 } },
                Color::new(255, 255, 255),
            );
        },
        Cell::Glyph(ch) => {
            window.draw_byte_char(font, pos, char_to_byte(ch), Color::new(255, 255, 255));
        },
    }
}

/// Draws every cell of `t` (see `screen_pixel`), row by row.
pub fn draw_cells(t: &Terminal, window: &mut FramedWindow, font: &Font)
    requires
        t@.wf(),
        old(window).wf(),
        font.wf(),
    ensures
        changes_marked(
            old(window).inner().canvas(),
            old(window).inner().redraw(),
            final(window).inner().canvas(),
            final(window).inner().redraw(),
        ),
        final(window).wf(),
        final(window).title() == old(window).title(),
        final(window).active() == old(window).active(),
        old(window).inner().canvas().same_layout(final(window).inner().canvas()),
        forall|q: Point| #[trigger]
            final(window).inner().canvas().color_at(q) == screen_color(
                old(window).inner().canvas(),
                t@,
                font.glyphs(),
                q,
            ),
{
    let ghost c0 = window.inner().canvas();
    let ghost r0 = window.inner().redraw();
    let ghost v = t@;
    let size = t.text_size();
    let mut y: i32 = 0;
    while y < size.y
        invariant
            0 <= y <= size.y,
            size.x == v.cols,
            size.y == v.rows,
            v == t@,
            v.wf(),
            font.wf(),
            window.wf(),
            window.title() == old(window).title(),
            window.active() == old(window).active(),
            c0 == old(window).inner().canvas(),
            c0.same_layout(window.inner().canvas()),
            changes_marked(c0, r0, window.inner().canvas(), window.inner().redraw()),
            forall|q: Point| #[trigger]
                window.inner().canvas().color_at(q) == (if to_content(q).y - PADDING < FONT_HEIGHT * y {
                    screen_color(c0, v, font.glyphs(), q)
                } else {
                    c0.color_at(q)
                }),
        decreases size.y - y,
    {
        let mut x: i32 = 0;
        while x < size.x
            invariant
                0 <= x <= size.x,
                0 <= y < size.y,
                size.x == v.cols,
                size.y == v.rows,
                v == t@,
                v.wf(),
                font.wf(),
                window.wf(),
                window.title() == old(window).title(),
                window.active() == old(window).active(),
                c0 == old(window).inner().canvas(),
                c0.same_layout(window.inner().canvas()),
                changes_marked(c0, r0, window.inner().canvas(), window.inner().redraw()),
                forall|q: Point| #[trigger]
                    window.inner().canvas().color_at(q) == (if to_content(q).y - PADDING < FONT_HEIGHT
                        * y || (to_content(q).y - PADDING < FONT_HEIGHT * (y + 1) && to_content(q).x
                        - PADDING < FONT_WIDTH * x) {
                        screen_color(c0, v, font.glyphs(), q)
                    } else {
                        c0.color_at(q)
                    }),
            decreases size.x - x,
        {
            let ghost before = window.inner().canvas();
            let ghost before_r = window.inner().redraw();
            draw_cell(t, window, font, x, y);
            proof {
                lemma_changes_marked_trans(c0, r0, before, before_r, window.inner().canvas(), window.inner().redraw());
                assert forall|q: Point| #[trigger]
                    window.inner().canvas().color_at(q) == (if to_content(q).y - PADDING
                        < FONT_HEIGHT * y || (to_content(q).y - PADDING < FONT_HEIGHT * (y + 1)
                        && to_content(q).x - PADDING < FONT_WIDTH * (x + 1)) {
                        screen_color(c0, v, font.glyphs(), q)
                    } else {
                        c0.color_at(q)
                    }) by {
                    let p = to_content(q);
                    let dx = p.x - PADDING;
                    let dy = p.y - PADDING;
                    if cell_rect(x as int, y as int).contains_spec(p) {
                        lemma_cell_of(dx, FONT_WIDTH as int, x as int);
                        lemma_cell_of(dy, FONT_HEIGHT as int, y as int);
                        assert(FONT_WIDTH * x + FONT_WIDTH <= FONT_WIDTH * v.cols) by (nonlinear_arith)
                            requires
                                x < v.cols,
                        ;
                        assert(FONT_HEIGHT * y + FONT_HEIGHT <= FONT_HEIGHT * v.rows) by (nonlinear_arith)
                            requires
                                y < v.rows,
                        ;
                    } else {
                        assert(!(dy >= FONT_HEIGHT * y && dy < FONT_HEIGHT * (y + 1) && dx >= FONT_WIDTH * x
                            && dx < FONT_WIDTH * (x + 1)));
                    }
                }
            }
            x = x + 1;
        }
        y = y + 1;
    }
    proof {
        assert forall|q: Point| #[trigger]
            window.inner().canvas().color_at(q) == screen_color(c0, v, font.glyphs(), q) by {
            let p = to_content(q);
            if p.y - PADDING >= FONT_HEIGHT * v.rows {
                assert(screen_pixel(v, font.glyphs(), p) is None);
            }
        }
    }
}

} // verus!
