//! The boot console: a fixed grid of bytes written like a teletype, and
//! the area of the screen a write needs redrawn.
use vstd::prelude::*;

verus! {

use crate::graphics::color::Color;
use crate::graphics::geometry::{max_i, min_i, Point, Rectangle};
use crate::graphics::font::char_to_byte;
use crate::graphics::font::spec_char_to_byte;

/// Rows of the console.
pub const ROWS: usize = 25;
/// Columns of the console.
pub const COLUMNS: usize = 80;

/// The part of the console to redraw after a write: a rectangle of cells,
/// whether to paint the background first, and how many rows the text
/// scrolled up.
#[derive(Debug, Clone, Copy, PartialEq, Eq, Structural)]
pub struct RedrawArea {
    pub area: Rectangle,
    pub fill_bg: bool,
    pub scroll: usize,
}

/// The redraw area grown to cover cell `p`: the single cell when it was
/// empty.
pub open spec fn spec_redraw_add(r: RedrawArea, p: Point) -> RedrawArea {
    if r.area.size.x == 0 || r.area.size.y == 0 {
        RedrawArea { area: Rectangle { pos: p, size: Point { x: 1, y: 1 } }, ..r }
    } else {
        let x0 = min_i(r.area.pos.x as int, p.x as int);
        let y0 = min_i(r.area.pos.y as int, p.y as int);
        let x1 = max_i(r.area.x_end_spec(), p.x + 1);
        let y1 = max_i(r.area.y_end_spec(), p.y + 1);
        RedrawArea {
            area: Rectangle {
                pos: Point { x: x0 as i32, y: y0 as i32 },
                size: Point { x: (x1 - x0) as i32, y: (y1 - y0) as i32 },
            },
            ..r
        }
    }
}

/// The redraw area after the text scrolled up a row: one more row scrolled,
/// and the rectangle moved up a row, stopping at the top.
pub open spec fn spec_redraw_scroll(r: RedrawArea) -> RedrawArea {
    let y0 = if r.area.pos.y >= 1 { r.area.pos.y - 1 } else { 0 };
    let y1 = if r.area.y_end_spec() >= 1 { r.area.y_end_spec() - 1 } else { 0 };
    RedrawArea {
        area: Rectangle {
            pos: Point { x: r.area.pos.x, y: y0 as i32 },
            size: Point { x: r.area.size.x, y: (y1 - y0) as i32 },
        },
        fill_bg: r.fill_bg,
        scroll: (r.scroll + 1) as usize,
    }
}

/// Cell coordinates stay within the console.
pub open spec fn redraw_wf(r: RedrawArea) -> bool {
    &&& 0 <= r.area.pos.x
    &&& 0 <= r.area.pos.y
    &&& 0 <= r.area.size.x
    &&& 0 <= r.area.size.y
    &&& r.area.x_end_spec() <= COLUMNS
    &&& r.area.y_end_spec() <= ROWS
}

/// Cell coordinates are not negative and the ends fit an `i32`, as for
/// any area of cells.
pub open spec fn redraw_valid(r: RedrawArea) -> bool {
    &&& 0 <= r.area.pos.x
    &&& 0 <= r.area.pos.y
    &&& 0 <= r.area.size.x
    &&& 0 <= r.area.size.y
    &&& r.area.x_end_spec() <= i32::MAX
    &&& r.area.y_end_spec() <= i32::MAX
}

impl RedrawArea {
    /// Nothing to redraw.
    pub fn new() -> (r: RedrawArea)
        ensures
            r == (RedrawArea {
                area: Rectangle { pos: Point { x: 0, y: 0 }, size: Point { x: 0, y: 0 } },
                fill_bg: false,
                scroll: 0,
            }),
    {
        RedrawArea {
            area: Rectangle { pos: Point { x: 0, y: 0 }, size: Point { x: 0, y: 0 } },
            fill_bg: false,
            scroll: 0,
        }
    }

    /// The whole console, painting the background first when `fill_bg`.
    pub fn all(fill_bg: bool) -> (r: RedrawArea)
        ensures
            r == (RedrawArea {
                area: Rectangle {
                    pos: Point { x: 0, y: 0 },
                    size: Point { x: COLUMNS as i32, y: ROWS as i32 },
                },
                fill_bg,
                scroll: 0,
            }),
    {
        RedrawArea {
            area: Rectangle {
                pos: Point { x: 0, y: 0 },
                size: Point { x: COLUMNS as i32, y: ROWS as i32 },
            },
            fill_bg,
            scroll: 0,
        }
    }

    /// Grows the area to cover cell `p`.
    pub fn add(&mut self, p: Point)
        requires
            redraw_valid(*old(self)),
            0 <= p.x < i32::MAX,
            0 <= p.y < i32::MAX,
        ensures
            *final(self) == spec_redraw_add(*old(self), p),
            redraw_valid(*final(self)),
            redraw_wf(*old(self)) && 0 <= p.x < COLUMNS && 0 <= p.y < ROWS ==> redraw_wf(*final(self)),
    {
        if self.area.size.x == 0 || self.area.size.y == 0 {
            self.area.pos = p;
            self.area.size = Point { x: 1, y: 1 };
            return ;
        }
        self.area = self.area.extend_to_contain(p);
    }

    /// Records that the text scrolled up a row.
    pub fn scroll(&mut self)
        requires
            redraw_valid(*old(self)),
            old(self).scroll < usize::MAX,
        ensures
            *final(self) == spec_redraw_scroll(*old(self)),
            redraw_valid(*final(self)),
            redraw_wf(*old(self)) ==> redraw_wf(*final(self)),
    {
        self.scroll = self.scroll + 1;
        let start = Point {
            x: self.area.pos.x,
            y: if self.area.pos.y >= 1 { self.area.pos.y - 1 } else { 0 },
        };
        let end_y = self.area.pos.y + self.area.size.y;
        let end = Point {
            x: self.area.pos.x + self.area.size.x,
            y: if end_y >= 1 { end_y - 1 } else { 0 },
        };
        self.area = Rectangle::from_points(start, end).unwrap();
    }
}

/// What a console holds: its rows of bytes and the cursor's column and row.
pub struct ConsoleView {
    pub rows: Seq<Seq<u8>>,
    pub cursor_x: int,
    pub cursor_y: int,
}

impl ConsoleView {
    /// `ROWS` rows of `COLUMNS` bytes, the cursor on the grid.
    pub open spec fn wf(self) -> bool {
        &&& self.rows.len() == ROWS
        &&& forall|r: int| 0 <= r < ROWS ==> (#[trigger] self.rows[r]).len() == COLUMNS
        &&& 0 <= self.cursor_x < COLUMNS
        &&& 0 <= self.cursor_y < ROWS
    }

    /// The cursor at the start of the next row; at the last row the rows
    /// move up, the last becomes zeros, and the redraw area scrolls.
    pub open spec fn newlined(self, r: RedrawArea) -> (ConsoleView, RedrawArea) {
        if self.cursor_y < ROWS - 1 {
            (ConsoleView { cursor_x: 0, cursor_y: self.cursor_y + 1, ..self }, r)
        } else {
            (
                ConsoleView {
                    rows: self.rows.skip(1).push(Seq::new(COLUMNS as nat, |i: int| 0u8)),
                    cursor_x: 0,
                    ..self
                },
                spec_redraw_scroll(r),
            )
        }
    }

    /// The console after the byte of `ch` is written: a new line for
    /// `'\n'`; otherwise, after a new line when the cursor is in the last
    /// column, the byte at the cursor, whose cell joins the redraw area, and
    /// the cursor one column on.
    pub open spec fn put(self, r: RedrawArea, ch: char) -> (ConsoleView, RedrawArea) {
        let b = spec_char_to_byte(ch);
        if b == 0x0a {
            self.newlined(r)
        } else {
            let (v, r1) = if self.cursor_x >= COLUMNS - 1 {
                self.newlined(r)
            } else {
                (self, r)
            };
            let r2 = spec_redraw_add(r1, Point { x: v.cursor_x as i32, y: v.cursor_y as i32 });
            (
                ConsoleView {
                    rows: v.rows.update(v.cursor_y, v.rows[v.cursor_y].update(v.cursor_x, b)),
                    cursor_x: v.cursor_x + 1,
                    ..v
                },
                r2,
            )
        }
    }

    /// The console after the characters of `s` are written.
    pub open spec fn written(self, r: RedrawArea, s: Seq<char>) -> (ConsoleView, RedrawArea)
        decreases s.len(),
    {
        if s.len() == 0 {
            (self, r)
        } else {
            let (v, r1) = self.written(r, s.drop_last());
            v.put(r1, s.last())
        }
    }
}

/// Writing `a` and then `b` leaves the text and cursor that writing `a`
/// followed by `b` at once leaves.
pub proof fn law_write_concat(v: ConsoleView, r: RedrawArea, r2: RedrawArea, a: Seq<char>, b: Seq<char>)
    ensures
        v.written(r, a + b).0 == v.written(r, a).0.written(r2, b).0,
    decreases b.len(),
{
    if b.len() == 0 {
        assert(a + b =~= a);
    } else {
        let b1 = b.drop_last();
        law_write_concat(v, r, r2, a, b1);
        assert((a + b).drop_last() =~= a + b1);
        assert((a + b).last() == b.last());
        let (w1, q1) = v.written(r, a + b1);
        let (x1, y1) = v.written(r, a).0.written(r2, b1);
        assert(w1 == x1);
        assert(w1.put(q1, b.last()).0 == w1.put(y1, b.last()).0);
    }
}

/// The boot console: rows of bytes, the colors to draw them in, and the
/// cursor.
pub struct Console {
    buffer: Vec<[u8; COLUMNS]>,
    fg_color: Color,
    bg_color: Color,
    cursor_x: usize,
    cursor_y: usize,
}

impl View for Console {
    type V = ConsoleView;

    closed spec fn view(&self) -> ConsoleView {
        ConsoleView {
            rows: self.buffer@.map_values(|row: [u8; COLUMNS]| row@),
            cursor_x: self.cursor_x as int,
            cursor_y: self.cursor_y as int,
        }
    }
}

impl Console {
    /// An empty console (all zeros) with the cursor at the top-left, drawn
    /// in `fg_color` on `bg_color`.
    pub fn new(fg_color: Color, bg_color: Color) -> (r: Console)
        ensures
            r@.wf(),
            r@.rows == Seq::new(ROWS as nat, |i: int| Seq::new(COLUMNS as nat, |j: int| 0u8)),
            r@.cursor_x == 0,
            r@.cursor_y == 0,
            r.fg_color() == fg_color,
            r.bg_color() == bg_color,
    {
        let mut buffer: Vec<[u8; COLUMNS]> = Vec::new();
        let mut i: usize = 0;
        while i < ROWS
            invariant
                i <= ROWS,
                buffer@.len() == i,
                forall|k: int| 0 <= k < i ==> (#[trigger] buffer@[k])@ == Seq::new(COLUMNS as nat, |j: int| 0u8),
            decreases ROWS - i,
        {
            let row = [0u8; COLUMNS];
            assert(row@ =~= Seq::new(COLUMNS as nat, |j: int| 0u8));
            buffer.push(row);
            i = i + 1;
        }
        let c = Console { buffer, fg_color, bg_color, cursor_x: 0, cursor_y: 0 };
        assert(c@.rows =~= Seq::new(ROWS as nat, |i: int| Seq::new(COLUMNS as nat, |j: int| 0u8)));
        c
    }

    /// The text color.
    pub closed spec fn fg_color(&self) -> Color {
        self.fg_color
    }

    /// The background color.
    pub closed spec fn bg_color(&self) -> Color {
        self.bg_color
    }

    /// The text color.
    pub fn fg(&self) -> (r: Color)
        ensures
            r == self.fg_color(),
    {
        self.fg_color
    }

    /// The background color.
    pub fn bg(&self) -> (r: Color)
        ensures
            r == self.bg_color(),
    {
        self.bg_color
    }

    /// The row `y`.
    pub fn row(&self, y: usize) -> (r: [u8; COLUMNS])
        requires
            self@.wf(),
            y < ROWS,
        ensures
            r@ == self@.rows[y as int],
    {
        self.buffer[y]
    }

    /// Moves the cursor to the start of the next row, scrolling the rows up
    /// at the last row.
    pub fn newline(&mut self, redraw: &mut RedrawArea)
        requires
            old(self)@.wf(),
            redraw_wf(*old(redraw)),
            old(redraw).scroll < usize::MAX,
        ensures
            final(self)@.wf(),
            redraw_wf(*final(redraw)),
            (final(self)@, *final(redraw)) == old(self)@.newlined(*old(redraw)),
            final(self).fg_color() == old(self).fg_color(),
            final(self).bg_color() == old(self).bg_color(),
    {
        let ghost v = self@;
        self.cursor_x = 0;
        if self.cursor_y < ROWS - 1 {
            self.cursor_y = self.cursor_y + 1;
            return ;
        }
        let mut dst: usize = 0;
        while dst < ROWS - 1
            invariant
                dst <= ROWS - 1,
                v.wf(),
                v.cursor_y == ROWS - 1,
                self.cursor_x == 0,
                self.cursor_y == v.cursor_y,
                self.fg_color == old(self).fg_color,
                self.bg_color == old(self).bg_color,
                *redraw == *old(redraw),
                self.buffer@.len() == ROWS,
                forall|k: int| 0 <= k < dst ==> (#[trigger] self.buffer@[k])@ == v.rows[k + 1],
                forall|k: int| dst <= k < ROWS ==> (#[trigger] self.buffer@[k])@ == v.rows[k],
            decreases ROWS - 1 - dst,
        {
            let row = self.buffer[dst + 1];
            self.buffer.set(dst, row);
            dst = dst + 1;
        }
        let z = [0u8; COLUMNS];
        assert(z@ =~= Seq::new(COLUMNS as nat, |i: int| 0u8));
        self.buffer.set(ROWS - 1, z);
        redraw.scroll();
        assert forall|k: int| 0 <= k < ROWS implies #[trigger] self@.rows[k] == v.rows.skip(1).push(
            Seq::new(COLUMNS as nat, |i: int| 0u8),
        )[k] by {
            assert(self@.rows[k] == self.buffer@[k]@);
        }
        assert(self@.rows =~= v.rows.skip(1).push(Seq::new(COLUMNS as nat, |i: int| 0u8)));
    }

    /// Writes the characters of `s` (see `ConsoleView::put`); returns the
    /// area to redraw.
    pub fn write_str(&mut self, s: &str) -> (r: RedrawArea)
        requires
            old(self)@.wf(),
            s@.len() < usize::MAX,
        ensures
            final(self)@.wf(),
            (final(self)@, r) == old(self)@.written(RedrawArea::new_spec(), s@),
            redraw_wf(r),
            final(self).fg_color() == old(self).fg_color(),
            final(self).bg_color() == old(self).bg_color(),
    {
        let ghost v = self@;
        let mut redraw = RedrawArea::new();
        let mut chars: Vec<char> = Vec::new();
        for ch in it: s.chars()
            invariant
                chars@ == it.seq().take(it.index() as int),
        {
            chars.push(ch);
            assert(chars@ =~= it.seq().take(it.index() as int + 1));
        }
        assert(chars@ == s@);
        let mut i: usize = 0;
        while i < chars.len()
            invariant
                i <= chars@.len(),
                chars@ == s@,
                s@.len() < usize::MAX,
                self@.wf(),
                redraw_wf(redraw),
                redraw.scroll <= i,
                (self@, redraw) == v.written(RedrawArea::new_spec(), chars@.take(i as int)),
                self.fg_color() == old(self).fg_color(),
                self.bg_color() == old(self).bg_color(),
            decreases chars@.len() - i,
        {
            let ch = chars[i];
            let ghost t = chars@.take(i as int + 1);
            assert(t.drop_last() == chars@.take(i as int));
            let byte = char_to_byte(ch);
            let ghost pv = self@;
            let ghost pr = redraw;
            if byte == 0x0a {
                self.newline(&mut redraw);
            } else {
                if self.cursor_x >= COLUMNS - 1 {
                    self.newline(&mut redraw);
                }
                let ghost v1 = self@;
                redraw.add(Point { x: self.cursor_x as i32, y: self.cursor_y as i32 });
                let mut row = self.buffer[self.cursor_y];
                assert(row@ == v1.rows[v1.cursor_y]);
                row[self.cursor_x] = byte;
                self.buffer.set(self.cursor_y, row);
                self.cursor_x = self.cursor_x + 1;
                assert(self@.rows =~= v1.rows.update(v1.cursor_y, v1.rows[v1.cursor_y].update(
                    v1.cursor_x,
                    byte,
                )));
            }
            assert((self@, redraw) == pv.put(pr, ch));
            i = i + 1;
        }
        assert(chars@.take(chars@.len() as int) =~= chars@);
        redraw
    }
}

impl RedrawArea {
    /// Nothing to redraw.
    pub open spec fn new_spec() -> RedrawArea {
        RedrawArea {
            area: Rectangle { pos: Point { x: 0, y: 0 }, size: Point { x: 0, y: 0 } },
            fill_bg: false,
            scroll: 0,
        }
    }
}

} // verus!

verus! {

use crate::graphics::buffer_drawer::{BufferDrawer, Canvas};
use crate::graphics::font::{draw_byte_str, text_pixel, Font, FONT_HEIGHT, FONT_WIDTH};
use crate::graphics::geometry::fits_i32;

/// Whether the text of `rows` in cell rectangle `area`, drawn row by row at
/// the cells' pixel positions, sets screen point `q`.
pub open spec fn console_text_pixel(font: Seq<[u8; 16]>, rows: Seq<Seq<u8>>, area: Rectangle, q: Point) -> bool {
    let y = (q.y as int) / (FONT_HEIGHT as int);
    &&& 0 <= q.y
    &&& area.pos.y <= y < area.y_end_spec()
    &&& text_pixel(
        font,
        Point { x: (area.pos.x * FONT_WIDTH) as i32, y: (y * FONT_HEIGHT) as i32 },
        rows[y].subrange(area.pos.x as int, area.x_end_spec()),
        q,
    )
}

/// The pixel rectangle of a rectangle of cells.
pub open spec fn cells_to_pixels(r: Rectangle) -> Rectangle {
    Rectangle {
        pos: Point { x: (r.pos.x * FONT_WIDTH) as i32, y: (r.pos.y * FONT_HEIGHT) as i32 },
        size: Point { x: (r.size.x * FONT_WIDTH) as i32, y: (r.size.y * FONT_HEIGHT) as i32 },
    }
}

/// The screen point of the top-left corner of cell `p`.
pub fn to_draw_point(p: Point) -> (r: Point)
    requires
        fits_i32(p.x * FONT_WIDTH),
        fits_i32(p.y * FONT_HEIGHT),
    ensures
        r == (Point { x: (p.x * FONT_WIDTH) as i32, y: (p.y * FONT_HEIGHT) as i32 }),
{
    Point { x: p.x * FONT_WIDTH, y: p.y * FONT_HEIGHT }
}

/// The screen rectangle of the cells of `rect` (see `cells_to_pixels`).
pub fn to_draw_rect(rect: Rectangle) -> (r: Rectangle)
    requires
        fits_i32(rect.pos.x * FONT_WIDTH),
        fits_i32(rect.pos.y * FONT_HEIGHT),
        fits_i32(rect.size.x * FONT_WIDTH),
        fits_i32(rect.size.y * FONT_HEIGHT),
    ensures
        r == cells_to_pixels(rect),
{
    Rectangle { pos: to_draw_point(rect.pos), size: to_draw_point(rect.size) }
}

/// The color of screen point `q` after a redraw, given the colors `c1` left
/// after the scroll: the text drawn in `fg`, over the area painted in `bg`
/// when asked, over the rows uncovered by the scroll painted in `bg`.
pub open spec fn redraw_color(
    c1: Canvas,
    font: Seq<[u8; 16]>,
    rows: Seq<Seq<u8>>,
    r: RedrawArea,
    fg: Color,
    bg: Color,
    q: Point,
) -> Option<Color> {
    if !c1.area().contains_spec(q) {
        None
    } else if console_text_pixel(font, rows, r.area, q) {
        Some(c1.drawer.shown(fg))
    } else if r.fill_bg && cells_to_pixels(r.area).contains_spec(q) {
        Some(c1.drawer.shown(bg))
    } else if r.scroll > 0 && cells_to_pixels(
        Rectangle {
            pos: Point { x: 0, y: (ROWS - r.scroll) as i32 },
            size: Point { x: COLUMNS as i32, y: r.scroll as i32 },
        },
    ).contains_spec(q) {
        Some(c1.drawer.shown(bg))
    } else {
        c1.color_at(q)
    }
}

/// What `redraw` moves for a scroll: the whole console, up by the rows
/// scrolled.
pub open spec fn scroll_moved(c: Canvas, r: RedrawArea) -> Canvas {
    if r.scroll > 0 {
        c.moved(
            Point { x: 0, y: (-(FONT_HEIGHT * r.scroll)) as i32 },
            Rectangle {
                pos: Point { x: 0, y: 0 },
                size: Point { x: (COLUMNS * 8) as i32, y: (ROWS * 16) as i32 },
            },
        )
    } else {
        c
    }
}

/// Rows of text pixels of different cell rows do not meet.
proof fn lemma_console_row_step(font: Seq<[u8; 16]>, rows: Seq<Seq<u8>>, area: Rectangle, y: int, q: Point)
    requires
        redraw_wf(RedrawArea { area, fill_bg: false, scroll: 0 }),
        area.pos.y <= y < area.y_end_spec(),
        rows.len() == ROWS,
    ensures
        (console_text_pixel(font, rows, Rectangle { size: Point { x: area.size.x, y: (y + 1 - area.pos.y) as i32 }, ..area }, q))
            == (console_text_pixel(font, rows, Rectangle { size: Point { x: area.size.x, y: (y - area.pos.y) as i32 }, ..area }, q)
            || text_pixel(
            font,
            Point { x: (area.pos.x * FONT_WIDTH) as i32, y: (y * FONT_HEIGHT) as i32 },
            rows[y].subrange(area.pos.x as int, area.x_end_spec()),
            q,
        )),
{
    let p = Point { x: (area.pos.x * FONT_WIDTH) as i32, y: (y * FONT_HEIGHT) as i32 };
    if text_pixel(font, p, rows[y].subrange(area.pos.x as int, area.x_end_spec()), q) {
        assert(y * 16 <= q.y < y * 16 + 16);
        assert(q.y / 16 == y);
    }
}

impl Console {
    /// Draws the redraw area `r` on `drawer` with `font`: first moves the
    /// whole console up by the rows scrolled and paints the rows uncovered
    /// in the background color, then paints the area in the background
    /// color when asked, then draws the area's text row by row.
    pub fn redraw(&self, drawer: &mut BufferDrawer, font: &Font, r: RedrawArea)
        requires
            self@.wf(),
            old(drawer)@.wf(),
            font.wf(),
            redraw_wf(r),
            r.scroll <= ROWS,
            old(drawer)@.size.x <= 0x1000_0000,
            old(drawer)@.size.y <= 0x1000_0000,
        ensures
            final(drawer)@.wf(),
            old(drawer)@.same_layout(final(drawer)@),
            forall|q: Point| #[trigger]
                final(drawer)@.color_at(q) == redraw_color(
                    scroll_moved(old(drawer)@, r),
                    font.glyphs(),
                    self@.rows,
                    r,
                    self.fg_color(),
                    self.bg_color(),
                    q,
                ),
    {
        let ghost start = drawer@;
        if r.scroll > 0 {
            let src = Rectangle {
                pos: Point { x: 0, y: 0 },
                size: Point { x: COLUMNS as i32 * FONT_WIDTH, y: ROWS as i32 * FONT_HEIGHT },
            };
            let offset = Point { x: 0, y: -(FONT_HEIGHT * r.scroll as i32) };
            drawer.move_area(offset, src);
            proof {
                crate::graphics::buffer_drawer::law_move_area_pixels(start, offset, src, Point { x: 0, y: 0 });
            }
            let fill = Rectangle {
                pos: Point { x: 0, y: (ROWS - r.scroll) as i32 * FONT_HEIGHT },
                size: Point { x: COLUMNS as i32 * FONT_WIDTH, y: r.scroll as i32 * FONT_HEIGHT },
            };
            drawer.fill_rect(fill, self.bg_color);
        }
        let ghost c1 = scroll_moved(start, r);
        let ghost after_scroll = drawer@;
        if r.fill_bg {
            let rect = to_draw_rect(r.area);
            drawer.fill_rect(rect, self.bg_color);
        }
        let ghost after_fill = drawer@;
        let ghost empty_area = Rectangle { size: Point { x: r.area.size.x, y: 0 }, ..r.area };
        let mut y = r.area.pos.y;
        let y1 = r.area.pos.y + r.area.size.y;
        while y < y1
            invariant
                r.area.pos.y <= y <= y1,
                y1 == r.area.y_end_spec(),
                self@.wf(),
                font.wf(),
                redraw_wf(r),
                drawer@.wf(),
                start.same_layout(drawer@),
                after_fill.same_layout(drawer@),
                forall|q: Point| #[trigger]
                    drawer@.color_at(q) == (if console_text_pixel(
                        font.glyphs(),
                        self@.rows,
                        Rectangle { size: Point { x: r.area.size.x, y: (y - r.area.pos.y) as i32 }, ..r.area },
                        q,
                    ) && after_fill.area().contains_spec(q) {
                        Some(after_fill.drawer.shown(self.fg_color))
                    } else {
                        after_fill.color_at(q)
                    }),
            decreases y1 - y,
        {
            let row = self.buffer[y as usize];
            let x0 = r.area.pos.x as usize;
            let x1 = (r.area.pos.x + r.area.size.x) as usize;
            let bytes = &row[x0..x1];
            assert(bytes@ == self@.rows[y as int].subrange(x0 as int, x1 as int));
            let ghost prev = drawer@;
            let p = to_draw_point(Point { x: r.area.pos.x, y });
            let _ = draw_byte_str(drawer, font, p, bytes, self.fg_color);
            proof {
                assert forall|q: Point| #[trigger]
                    drawer@.color_at(q) == (if console_text_pixel(
                        font.glyphs(),
                        self@.rows,
                        Rectangle { size: Point { x: r.area.size.x, y: (y + 1 - r.area.pos.y) as i32 }, ..r.area },
                        q,
                    ) && after_fill.area().contains_spec(q) {
                        Some(after_fill.drawer.shown(self.fg_color))
                    } else {
                        after_fill.color_at(q)
                    }) by {
                    lemma_console_row_step(font.glyphs(), self@.rows, r.area, y as int, q);
                }
            }
            y = y + 1;
        }
        proof {
            assert(Rectangle { size: Point { x: r.area.size.x, y: (y - r.area.pos.y) as i32 }, ..r.area } == r.area);
        }
    }
}

} // verus!
