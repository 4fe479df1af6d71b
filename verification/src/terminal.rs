//! The text terminal: a grid of character cells with a cursor, a line
//! editor with a command history, and a few built-in commands.
use vstd::prelude::*;

verus! {

use crate::fat::directory::{dir_items, walk_items, Directory};
use crate::fat::directory_entry::{trimmed, DirectoryEntry};
use crate::fat::fat_entry::FatEntry;
use crate::fmt::{
    dec_digits, escaped_all, hex_digits, push_chars, push_dec, push_escaped_bytes, push_hex,
    push_str, zero_padded,
};
use crate::graphics::geometry::Point;
use crate::keyboard::KeyboardEvent;
use crate::pci::{device_items, devices_get, devices_len, scan_all_bus, scan_all_spec, Config, Device};
use std::collections::VecDeque;

/// Number of command lines the history keeps.
pub const HISTORY_LEN: usize = 8;
/// Width of a character cell in pixels.
pub const FONT_WIDTH: i32 = 8;
/// Height of a character cell in pixels.
pub const FONT_HEIGHT: i32 = 16;
/// Space between the window's edge and the text, on each side.
pub const PADDING: i32 = 4;
/// Most columns a terminal can have.
pub const MAX_COLS: i32 = 0x0100_0000;
/// Most rows a terminal can have.
pub const MAX_ROWS: i32 = 0x0080_0000;

/// What a character cell shows.
#[derive(Debug, Clone, Copy, PartialEq, Eq, Structural)]
pub enum Cell {
    /// Background only.
    Blank,
    /// The cursor block.
    Block,
    /// A character.
    Glyph(char),
}

/// Which way to walk the history.
#[derive(Debug, Clone, Copy, PartialEq, Eq, Structural)]
pub enum Direction {
    Older,
    Newer,
}

/// Whether `c` is white space in Unicode.
pub open spec fn spec_is_whitespace(c: char) -> bool {
    ||| c == '\t'
    ||| c == '\n'
    ||| c == '\x0b'
    ||| c == '\x0c'
    ||| c == '\r'
    ||| c == ' '
    ||| c == '\u{85}'
    ||| c == '\u{a0}'
    ||| c == '\u{1680}'
    ||| ('\u{2000}' <= c && c <= '\u{200a}')
    ||| c == '\u{2028}'
    ||| c == '\u{2029}'
    ||| c == '\u{202f}'
    ||| c == '\u{205f}'
    ||| c == '\u{3000}'
}

/// Whether `c` is white space in Unicode.
pub fn is_whitespace(c: char) -> (r: bool)
    ensures
        r == spec_is_whitespace(c),
{
    c == '\t' || c == '\n' || c == '\x0b' || c == '\x0c' || c == '\r' || c == ' ' || c == '\u{85}'
        || c == '\u{a0}' || c == '\u{1680}' || ('\u{2000}' <= c && c <= '\u{200a}') || c
        == '\u{2028}' || c == '\u{2029}' || c == '\u{202f}' || c == '\u{205f}' || c == '\u{3000}'
}

/// The words of `s`: its maximal runs of characters that are not white
/// space, in order.
pub open spec fn split_words(s: Seq<char>) -> Seq<Seq<char>>
    decreases s.len(),
{
    if s.len() == 0 {
        Seq::empty()
    } else {
        let prev = split_words(s.drop_last());
        let c = s.last();
        if spec_is_whitespace(c) {
            prev
        } else if s.len() >= 2 && !spec_is_whitespace(s[s.len() - 2]) {
            prev.update(prev.len() - 1, prev.last().push(c))
        } else {
            prev.push(seq![c])
        }
    }
}

/// A line that does not end in white space has at least one word.
proof fn lemma_split_words_nonempty(s: Seq<char>)
    requires
        s.len() > 0,
        !spec_is_whitespace(s.last()),
    ensures
        split_words(s).len() > 0,
    decreases s.len(),
{
    if s.len() >= 2 && !spec_is_whitespace(s[s.len() - 2]) {
        assert(s.drop_last().last() == s[s.len() - 2]);
        lemma_split_words_nonempty(s.drop_last());
    }
}

/// The words of `s`, split at white space.
pub fn words(s: &Vec<char>) -> (r: Vec<Vec<char>>)
    ensures
        r@.len() == split_words(s@).len(),
        forall|i: int| 0 <= i < r@.len() ==> #[trigger] r@[i]@ == split_words(s@)[i],
{
    let mut r: Vec<Vec<char>> = Vec::new();
    let mut i: usize = 0;
    while i < s.len()
        invariant
            i <= s@.len(),
            r@.len() == split_words(s@.subrange(0, i as int)).len(),
            forall|j: int| 0 <= j < r@.len() ==> #[trigger] r@[j]@ == split_words(s@.subrange(0, i as int))[j],
        decreases s@.len() - i,
    {
        let c = s[i];
        let ghost t = s@.subrange(0, i as int + 1);
        assert(t.drop_last() == s@.subrange(0, i as int));
        assert(t.last() == c);
        if is_whitespace(c) {
        } else if i >= 1 && !is_whitespace(s[i - 1]) {
            assert(t[t.len() - 2] == s@[i - 1]);
            proof {
                lemma_split_words_nonempty(s@.subrange(0, i as int));
            }
            let last = r.len() - 1;
            let mut w = r.remove(last);
            w.push(c);
            r.push(w);
        } else {
            let mut w: Vec<char> = Vec::new();
            w.push(c);
            assert(w@ == seq![c]);
            r.push(w);
        }
        i = i + 1;
    }
    assert(s@.subrange(0, s@.len() as int) == s@);
    r
}


/// What a terminal holds: its text size, cursor, whether the blinking cursor
/// is on, the line being edited, the history (newest first) and the place
/// in it being shown, and the cells of the screen by row.
pub struct TermView {
    pub cols: int,
    pub rows: int,
    pub cursor_x: int,
    pub cursor_y: int,
    pub cursor_visible: bool,
    pub line: Seq<char>,
    pub history: Seq<Seq<char>>,
    pub history_index: Option<int>,
    pub screen: Seq<Seq<Cell>>,
}

/// A row of `cols` blank cells.
pub open spec fn blank_row(cols: int) -> Seq<Cell> {
    Seq::new(cols as nat, |i: int| Cell::Blank)
}

/// A screen of `rows` blank rows.
pub open spec fn blank_screen(cols: int, rows: int) -> Seq<Seq<Cell>> {
    Seq::new(rows as nat, |i: int| blank_row(cols))
}

impl TermView {
    /// The cursor is on the screen and the screen has the terminal's size.
    pub open spec fn wf(self) -> bool {
        &&& 1 <= self.cols <= MAX_COLS
        &&& 1 <= self.rows <= MAX_ROWS
        &&& 0 <= self.cursor_x < self.cols
        &&& 0 <= self.cursor_y < self.rows
        &&& self.screen.len() == self.rows
        &&& forall|r: int| 0 <= r < self.rows ==> (#[trigger] self.screen[r]).len() == self.cols
        &&& self.history.len() <= HISTORY_LEN
        &&& self.history_index matches Some(i) ==> 0 <= i < self.history.len()
    }

    /// The cell at column `x`, row `y` set to `c`.
    pub open spec fn with_cell(self, x: int, y: int, c: Cell) -> TermView {
        TermView { screen: self.screen.update(y, self.screen[y].update(x, c)), ..self }
    }

    /// The cursor moved to column `x`, row `y`.
    pub open spec fn with_cursor(self, x: int, y: int) -> TermView {
        TermView { cursor_x: x, cursor_y: y, ..self }
    }

    /// Another line being edited.
    pub open spec fn with_line(self, line: Seq<char>) -> TermView {
        TermView { line, ..self }
    }

    /// The cursor block drawn, or erased, at the cursor.
    pub open spec fn drawn_cursor(self, visible: bool) -> TermView {
        self.with_cell(
            self.cursor_x,
            self.cursor_y,
            if visible {
                Cell::Block
            } else {
                Cell::Blank
            },
        )
    }

    /// Every row moved up by one, a blank row at the bottom.
    pub open spec fn scrolled(self) -> TermView {
        TermView { screen: self.screen.skip(1).push(blank_row(self.cols)), ..self }
    }

    /// The cursor at the start of the next row, scrolling at the bottom.
    pub open spec fn newlined(self) -> TermView {
        if self.cursor_y + 1 >= self.rows {
            self.scrolled().with_cursor(0, self.cursor_y)
        } else {
            self.with_cursor(0, self.cursor_y + 1)
        }
    }

    /// The screen after `ch` is printed: the cursor is erased; `'\0'`
    /// prints nothing, `'\n'` starts a new row, and any other character is
    /// put at the cursor, which moves on, to the next row after the last
    /// column.
    pub open spec fn put(self, ch: char) -> TermView {
        let v = self.drawn_cursor(false);
        if ch == '\0' {
            v
        } else if ch == '\n' {
            v.newlined()
        } else {
            let w = v.with_cell(v.cursor_x, v.cursor_y, Cell::Glyph(ch));
            if w.cursor_x + 1 >= w.cols {
                w.newlined()
            } else {
                w.with_cursor(w.cursor_x + 1, w.cursor_y)
            }
        }
    }

    /// The screen after the characters of `s` are printed in order.
    pub open spec fn printed(self, s: Seq<char>) -> TermView
        decreases s.len(),
    {
        if s.len() == 0 {
            self
        } else {
            self.printed(s.drop_last()).put(s.last())
        }
    }

    /// The cursor moved back one cell, to the end of the previous row from
    /// the start of a row, and that cell blanked.
    pub open spec fn deleted_backward(self) -> TermView {
        let (x, y) = if self.cursor_y > 0 && self.cursor_x == 0 {
            (self.cols - 1, self.cursor_y - 1)
        } else if self.cursor_x > 0 {
            (self.cursor_x - 1, self.cursor_y)
        } else {
            (self.cursor_x, self.cursor_y)
        };
        self.with_cursor(x, y).with_cell(x, y, Cell::Blank)
    }

    /// `n` cells deleted backward.
    pub open spec fn deleted_backward_n(self, n: nat) -> TermView
        decreases n,
    {
        if n == 0 {
            self
        } else {
            self.deleted_backward_n((n - 1) as nat).deleted_backward()
        }
    }

    /// A blank screen with the cursor at the top-left.
    pub open spec fn cleared(self) -> TermView {
        TermView { screen: blank_screen(self.cols, self.rows), ..self }.with_cursor(0, 0)
    }

    /// The line pushed to the front of the history, which keeps its newest
    /// `HISTORY_LEN` lines; the line is emptied and no history line shown.
    pub open spec fn pushed_history(self) -> TermView {
        let kept = if self.history.len() > HISTORY_LEN - 1 {
            self.history.take(HISTORY_LEN - 1)
        } else {
            self.history
        };
        TermView {
            history: seq![self.line].add(kept),
            history_index: None,
            line: Seq::empty(),
            ..self
        }
    }
}

/// Printing keeps a terminal well formed and leaves the line and history.
pub proof fn lemma_put_wf(v: TermView, ch: char)
    requires
        v.wf(),
    ensures
        v.put(ch).wf(),
        v.put(ch).line == v.line,
        v.put(ch).history == v.history,
        v.put(ch).history_index == v.history_index,
        v.put(ch).cursor_visible == v.cursor_visible,
        v.put(ch).cols == v.cols,
        v.put(ch).rows == v.rows,
{
    let w = v.drawn_cursor(false);
    assert forall|r: int| 0 <= r < w.rows implies (#[trigger] w.screen[r]).len() == w.cols by {
        if r == v.cursor_y {
        } else {
            assert(w.screen[r] == v.screen[r]);
        }
    }
    let g = w.with_cell(w.cursor_x, w.cursor_y, Cell::Glyph(ch));
    assert forall|r: int| 0 <= r < g.rows implies (#[trigger] g.screen[r]).len() == g.cols by {
        if r == v.cursor_y {
        } else {
            assert(g.screen[r] == w.screen[r]);
        }
    }
    let s1 = w.scrolled();
    assert forall|r: int| 0 <= r < s1.rows implies (#[trigger] s1.screen[r]).len() == s1.cols by {
        if r < s1.rows - 1 {
            assert(s1.screen[r] == w.screen[r + 1]);
        }
    }
    let s2 = g.scrolled();
    assert forall|r: int| 0 <= r < s2.rows implies (#[trigger] s2.screen[r]).len() == s2.cols by {
        if r < s2.rows - 1 {
            assert(s2.screen[r] == g.screen[r + 1]);
        }
    }
}

/// Printing a sequence keeps a terminal well formed and leaves the line and
/// history.
pub proof fn lemma_printed_wf(v: TermView, s: Seq<char>)
    requires
        v.wf(),
    ensures
        v.printed(s).wf(),
        v.printed(s).line == v.line,
        v.printed(s).history == v.history,
        v.printed(s).history_index == v.history_index,
        v.printed(s).cursor_visible == v.cursor_visible,
        v.printed(s).cols == v.cols,
        v.printed(s).rows == v.rows,
    decreases s.len(),
{
    if s.len() > 0 {
        lemma_printed_wf(v, s.drop_last());
        lemma_put_wf(v.printed(s.drop_last()), s.last());
    }
}

/// Printing `a` and then `b` is printing `a + b`.
pub proof fn lemma_printed_concat(v: TermView, a: Seq<char>, b: Seq<char>)
    ensures
        v.printed(a).printed(b) == v.printed(a + b),
    decreases b.len(),
{
    if b.len() == 0 {
        assert(a + b =~= a);
    } else {
        lemma_printed_concat(v, a, b.drop_last());
        assert((a + b).drop_last() =~= a + b.drop_last());
        assert((a + b).last() == b.last());
    }
}


/// A text terminal. Its screen is kept as cells; what draws them on a window
/// reads them with `cell`.
pub struct Terminal {
    text_size: Point,
    cursor: Point,
    cursor_visible: bool,
    line_buf: Vec<char>,
    history: VecDeque<Vec<char>>,
    history_index: Option<usize>,
    screen: Vec<Vec<Cell>>,
}

impl View for Terminal {
    type V = TermView;

    closed spec fn view(&self) -> TermView {
        TermView {
            cols: self.text_size.x as int,
            rows: self.text_size.y as int,
            cursor_x: self.cursor.x as int,
            cursor_y: self.cursor.y as int,
            cursor_visible: self.cursor_visible,
            line: self.line_buf@,
            history: self.history@.map_values(|l: Vec<char>| l@),
            history_index: match self.history_index {
                Some(i) => Some(i as int),
                None => None,
            },
            screen: self.screen@.map_values(|r: Vec<Cell>| r@),
        }
    }
}

/// A copy of the characters `s`.
fn copy_chars(s: &Vec<char>) -> (r: Vec<char>)
    ensures
        r@ == s@,
{
    let mut r: Vec<char> = Vec::new();
    let mut i: usize = 0;
    while i < s.len()
        invariant
            i <= s@.len(),
            r@ == s@.subrange(0, i as int),
        decreases s@.len() - i,
    {
        r.push(s[i]);
        i = i + 1;
    }
    assert(s@.subrange(0, s@.len() as int) == s@);
    r
}

impl Terminal {
    /// A terminal of `text_size` columns and rows with a blank screen, the
    /// cursor at the top-left and hidden, an empty line and no history.
    pub fn new(text_size: Point) -> (t: Terminal)
        requires
            1 <= text_size.x <= MAX_COLS,
            1 <= text_size.y <= MAX_ROWS,
        ensures
            t@.wf(),
            t@ == (TermView {
                cols: text_size.x as int,
                rows: text_size.y as int,
                cursor_x: 0,
                cursor_y: 0,
                cursor_visible: false,
                line: Seq::empty(),
                history: Seq::empty(),
                history_index: None,
                screen: blank_screen(text_size.x as int, text_size.y as int),
            }),
    {
        let mut screen: Vec<Vec<Cell>> = Vec::new();
        let mut y: i32 = 0;
        while y < text_size.y
            invariant
                0 <= y <= text_size.y,
                1 <= text_size.x <= MAX_COLS,
                screen@.map_values(|r: Vec<Cell>| r@) == blank_screen(text_size.x as int, y as int),
            decreases text_size.y - y,
        {
            let mut row: Vec<Cell> = Vec::new();
            let mut x: i32 = 0;
            while x < text_size.x
                invariant
                    0 <= x <= text_size.x,
                    0 <= y < text_size.y,
                    1 <= text_size.x <= MAX_COLS,
                    row@ == blank_row(x as int),
                    screen@.map_values(|r: Vec<Cell>| r@) == blank_screen(text_size.x as int, y as int),
                decreases text_size.x - x,
            {
                row.push(Cell::Blank);
                x = x + 1;
                assert(row@ =~= blank_row(x as int));
            }
            let ghost prev = screen@;
            assert(row@ == blank_row(text_size.x as int));
            assert(prev.map_values(|r: Vec<Cell>| r@).len() == prev.len());
            assert(prev.len() == y);
            screen.push(row);
            assert(screen@ == prev.push(row));
            assert forall|i: int| #![trigger screen@[i]] 0 <= i < y + 1 implies screen@.map_values(
                |r: Vec<Cell>| r@,
            )[i] == blank_screen(text_size.x as int, y + 1)[i] by {
                if i < y {
                    assert(screen@[i] == prev[i]);
                    assert(prev.map_values(|r: Vec<Cell>| r@)[i] == blank_screen(text_size.x as int, y as int)[i]);
                }
            }
            y = y + 1;
            assert(screen@.map_values(|r: Vec<Cell>| r@) =~= blank_screen(text_size.x as int, y as int));
        }
        let t = Terminal {
            text_size,
            cursor: Point { x: 0, y: 0 },
            cursor_visible: false,
            line_buf: Vec::new(),
            history: VecDeque::new(),
            history_index: None,
            screen,
        };
        assert(t@.history =~= Seq::<Seq<char>>::empty());
        t
    }

    /// Columns and rows.
    pub fn text_size(&self) -> (r: Point)
        ensures
            r.x == self@.cols,
            r.y == self@.rows,
    {
        self.text_size
    }

    /// Column and row of the cursor.
    pub fn cursor(&self) -> (r: Point)
        ensures
            r.x == self@.cursor_x,
            r.y == self@.cursor_y,
    {
        self.cursor
    }

    /// Whether the blinking cursor is currently on.
    pub fn cursor_visible(&self) -> (r: bool)
        ensures
            r == self@.cursor_visible,
    {
        self.cursor_visible
    }

    /// The line being edited.
    pub fn line_buf(&self) -> (r: &Vec<char>)
        ensures
            r@ == self@.line,
    {
        &self.line_buf
    }

    /// Number of lines in the history.
    pub fn history_len(&self) -> (r: usize)
        ensures
            r == self@.history.len(),
    {
        self.history.len()
    }

    /// The history line `i` steps back (0 is the newest).
    pub fn history_line(&self, i: usize) -> (r: Vec<char>)
        requires
            i < self@.history.len(),
        ensures
            r@ == self@.history[i as int],
    {
        copy_chars(&self.history[i])
    }

    /// The place in the history being shown, if any.
    pub fn history_index(&self) -> (r: Option<usize>)
        ensures
            r matches Some(i) ==> self@.history_index == Some(i as int),
            r is None ==> self@.history_index is None,
    {
        self.history_index
    }

    /// The cell at column `x`, row `y`.
    pub fn cell(&self, x: usize, y: usize) -> (r: Cell)
        requires
            self@.wf(),
            x < self@.cols,
            y < self@.rows,
        ensures
            r == self@.screen[y as int][x as int],
    {
        self.screen[y][x]
    }

    /// Pixel position, in the window, of the cursor's cell.
    pub fn insert_pos(&self) -> (r: Point)
        requires
            self@.wf(),
        ensures
            r.x == FONT_WIDTH * self@.cursor_x + PADDING,
            r.y == FONT_HEIGHT * self@.cursor_y + PADDING,
    {
        Point { x: FONT_WIDTH * self.cursor.x + PADDING, y: FONT_HEIGHT * self.cursor.y + PADDING }
    }

    fn set_cell(&mut self, x: i32, y: i32, c: Cell)
        requires
            old(self)@.wf(),
            0 <= x < old(self)@.cols,
            0 <= y < old(self)@.rows,
        ensures
            final(self)@ == old(self)@.with_cell(x as int, y as int, c),
            final(self)@.wf(),
    {
        let ghost v = self@;
        assert(self.screen@[y as int]@ == v.screen[y as int]);
        self.screen[y as usize].set(x as usize, c);
        assert(self@.screen =~= v.with_cell(x as int, y as int, c).screen);
        assert forall|r: int| 0 <= r < self@.rows implies (#[trigger] self@.screen[r]).len() == self@.cols by {
            if r != y {
                assert(self@.screen[r] == v.screen[r]);
            }
        }
    }

    /// Draws, or erases, the cursor block at the cursor.
    pub fn draw_cursor(&mut self, visible: bool)
        requires
            old(self)@.wf(),
        ensures
            final(self)@ == old(self)@.drawn_cursor(visible),
            final(self)@.wf(),
    {
        let c = if visible {
            Cell::Block
        } else {
            Cell::Blank
        };
        self.set_cell(self.cursor.x, self.cursor.y, c);
    }

    /// Moves every row up by one and blanks the bottom row.
    pub fn scroll1(&mut self)
        requires
            old(self)@.wf(),
        ensures
            final(self)@ == old(self)@.scrolled(),
            final(self)@.wf(),
    {
        let ghost v = self@;
        let _ = self.screen.remove(0);
        let mut row: Vec<Cell> = Vec::new();
        let mut x: i32 = 0;
        while x < self.text_size.x
            invariant
                0 <= x <= self.text_size.x,
                row@ == blank_row(x as int),
            decreases self.text_size.x - x,
        {
            row.push(Cell::Blank);
            x = x + 1;
            assert(row@ =~= blank_row(x as int));
        }
        self.screen.push(row);
        assert(self@.screen =~= v.scrolled().screen);
        assert forall|r: int| 0 <= r < self@.rows implies (#[trigger] self@.screen[r]).len() == self@.cols by {
            if r < self@.rows - 1 {
                assert(self@.screen[r] == v.screen[r + 1]);
            }
        }
    }

    /// Moves the cursor to the start of the next row, scrolling at the
    /// bottom.
    pub fn newline(&mut self)
        requires
            old(self)@.wf(),
        ensures
            final(self)@ == old(self)@.newlined(),
            final(self)@.wf(),
    {
        if self.cursor.y + 1 >= self.text_size.y {
            self.scroll1();
        } else {
            self.cursor.y = self.cursor.y + 1;
        }
        self.cursor.x = 0;
    }

    /// Prints `ch` at the cursor.
    pub fn print_char(&mut self, ch: char)
        requires
            old(self)@.wf(),
        ensures
            final(self)@ == old(self)@.put(ch),
            final(self)@.wf(),
    {
        self.draw_cursor(false);
        if ch == '\0' {
        } else if ch == '\n' {
            self.newline();
        } else {
            self.set_cell(self.cursor.x, self.cursor.y, Cell::Glyph(ch));
            if self.cursor.x + 1 >= self.text_size.x {
                self.newline();
            } else {
                self.cursor.x = self.cursor.x + 1;
            }
        }
    }

    /// Prints the characters of `s` in order.
    pub fn print_chars(&mut self, s: &Vec<char>)
        requires
            old(self)@.wf(),
        ensures
            final(self)@ == old(self)@.printed(s@),
            final(self)@.wf(),
    {
        let ghost v = self@;
        let mut i: usize = 0;
        while i < s.len()
            invariant
                i <= s@.len(),
                v.wf(),
                self@.wf(),
                self@ == v.printed(s@.subrange(0, i as int)),
            decreases s@.len() - i,
        {
            let ghost t = s@.subrange(0, i as int + 1);
            assert(t.drop_last() == s@.subrange(0, i as int));
            self.print_char(s[i]);
            i = i + 1;
        }
        assert(s@.subrange(0, s@.len() as int) == s@);
    }

    /// Prints the characters of `s` in order.
    pub fn print_str(&mut self, s: &str)
        requires
            old(self)@.wf(),
        ensures
            final(self)@ == old(self)@.printed(s@),
            final(self)@.wf(),
    {
        let ghost v = self@;
        let mut chars: Vec<char> = Vec::new();
        for ch in it: s.chars()
            invariant
                chars@ == it.seq().take(it.index() as int),
        {
            chars.push(ch);
            assert(chars@ =~= it.seq().take(it.index() as int + 1));
        }
        assert(chars@ == s@);
        self.print_chars(&chars);
    }

    /// Prints the prompt `"> "`.
    pub fn print_prompt(&mut self)
        requires
            old(self)@.wf(),
        ensures
            final(self)@ == old(self)@.printed(seq!['>', ' ']),
            final(self)@.wf(),
    {
        let ghost v = self@;
        self.print_char('>');
        self.print_char(' ');
        assert(seq!['>', ' '].drop_last() =~= seq!['>']);
        assert(seq!['>'].drop_last() =~= Seq::<char>::empty());
        assert(v.printed(seq!['>']) == v.printed(Seq::<char>::empty()).put('>'));
        assert(v.printed(seq!['>', ' ']) == v.printed(seq!['>']).put(' '));
    }

    /// Moves the cursor back one cell and blanks it.
    pub fn delete_backward(&mut self)
        requires
            old(self)@.wf(),
        ensures
            final(self)@ == old(self)@.deleted_backward(),
            final(self)@.wf(),
    {
        if self.cursor.y > 0 && self.cursor.x == 0 {
            self.cursor.x = self.text_size.x - 1;
            self.cursor.y = self.cursor.y - 1;
        } else if self.cursor.x > 0 {
            self.cursor.x = self.cursor.x - 1;
        }
        self.set_cell(self.cursor.x, self.cursor.y, Cell::Blank);
    }
}


/// `s` without its trailing spaces.
pub open spec fn trim_spaces(s: Seq<u8>) -> Seq<u8>
    decreases s.len(),
{
    if s.len() > 0 && s.last() == 0x20 {
        trim_spaces(s.drop_last())
    } else {
        s
    }
}

/// The trimmed form of a name is `trim_spaces` of it.
proof fn lemma_trimmed_spaces(s: Seq<u8>, r: Seq<u8>)
    requires
        trimmed(s, 0x20, r),
    ensures
        r == trim_spaces(s),
    decreases s.len(),
{
    if s.len() > 0 && s.last() == 0x20 {
        if r.len() == s.len() {
            assert(r == s);
        }
        assert forall|i: int| r.len() <= i < s.drop_last().len() implies #[trigger] s.drop_last()[i] == 0x20 by {
            assert(s[i] == 0x20);
        }
        assert(r =~= s.drop_last().subrange(0, r.len() as int));
        assert(trimmed(s.drop_last(), 0x20, r));
        lemma_trimmed_spaces(s.drop_last(), r);
    } else {
        if r.len() < s.len() {
            assert(s[s.len() - 1] == 0x20);
        }
        assert(r =~= s);
    }
}

/// The line `lspci` prints for a device: its location, vendor, class and
/// header type.
pub open spec fn device_text(d: Device) -> Seq<char> {
    dec_digits(d.bus as nat) + seq!['.'] + dec_digits(d.device as nat) + seq!['.'] + dec_digits(
        d.function as nat,
    ) + ": vend "@ + zero_padded(hex_digits(d.vendor_id as nat), 4) + ", class "@ + zero_padded(
        hex_digits(d.class_code.base as nat),
        2,
    ) + seq!['.'] + zero_padded(hex_digits(d.class_code.sub as nat), 2) + seq!['.'] + zero_padded(
        hex_digits(d.class_code.interface as nat),
        2,
    ) + ", head "@ + zero_padded(hex_digits(d.header_type as nat), 2) + seq!['\n']
}

/// The lines `lspci` prints for the devices found.
pub open spec fn devices_text(ds: Seq<Device>) -> Seq<char>
    decreases ds.len(),
{
    if ds.len() == 0 {
        Seq::empty()
    } else {
        devices_text(ds.drop_last()) + device_text(ds.last())
    }
}

/// What `lspci` prints: the devices found, or why the scan failed.
pub open spec fn lspci_text(found: Option<Seq<Device>>) -> Seq<char> {
    match found {
        Some(ds) => devices_text(ds),
        None => "lspci: failed to scan PCI devices: Full: buffer full\n"@,
    }
}

/// The line `ls` prints for an entry: its base name and, when it has one,
/// a dot and its extension, each byte escaped.
pub open spec fn entry_text(e: DirectoryEntry) -> Seq<char> {
    entry_line(e.bytes())
}

/// The line `ls` prints for the entry with bytes `b`.
pub open spec fn entry_line(b: Seq<u8>) -> Seq<char> {
    let base = trim_spaces(b.subrange(0, 8));
    let ext = trim_spaces(b.subrange(8, 11));
    escaped_all(base) + (if ext.len() == 0 {
        Seq::empty()
    } else {
        seq!['.'] + escaped_all(ext)
    }) + seq!['\n']
}

/// What `ls` prints for the items a directory walk yielded: a line per
/// entry, and a message for an error.
pub open spec fn listing_text(items: Seq<Result<Seq<u8>, FatEntry>>) -> Seq<char>
    decreases items.len(),
{
    if items.len() == 0 {
        Seq::empty()
    } else {
        listing_text(items.drop_last()) + match items.last() {
            Ok(b) => entry_line(b),
            Err(_) => "failed to read directory\n"@,
        }
    }
}

/// The words joined by single spaces.
pub open spec fn joined(ws: Seq<Seq<char>>) -> Seq<char>
    decreases ws.len(),
{
    if ws.len() == 0 {
        Seq::empty()
    } else if ws.len() == 1 {
        ws[0]
    } else {
        joined(ws.drop_last()) + seq![' '] + ws.last()
    }
}

/// What `echo` prints: its arguments joined by spaces, and a new line.
pub open spec fn echo_text(ws: Seq<Seq<char>>) -> Seq<char> {
    joined(ws.skip(1)).push('\n')
}

/// The terminal after the line is run as a command, given what `lspci` and
/// `ls` would find. A line without words is dropped. Otherwise the first word
/// names the command: `echo` prints its arguments, `clear` blanks the screen,
/// `lspci` lists the PCI devices, `ls` the root directory, and any other word
/// prints that there is no such command; the line is kept.
pub open spec fn command_result(
    v: TermView,
    found: Option<Seq<Device>>,
    items: Seq<Result<Seq<u8>, FatEntry>>,
) -> TermView {
    let ws = split_words(v.line);
    if ws.len() == 0 {
        v.with_line(Seq::empty())
    } else if ws[0] == "echo"@ {
        v.printed(echo_text(ws))
    } else if ws[0] == "clear"@ {
        v.cleared()
    } else if ws[0] == "lspci"@ {
        v.printed(lspci_text(found))
    } else if ws[0] == "ls"@ {
        v.printed(listing_text(items))
    } else {
        v.printed("no such command: "@ + ws[0] + seq!['\n'])
    }
}

/// Whether `w` holds the characters of `s`.
pub fn chars_eq(w: &Vec<char>, s: &str) -> (r: bool)
    ensures
        r == (w@ == s@),
{
    let mut t: Vec<char> = Vec::new();
    push_str(&mut t, s);
    assert(t@ =~= s@);
    if w.len() != t.len() {
        return false;
    }
    let mut i: usize = 0;
    while i < w.len()
        invariant
            i <= w@.len(),
            w@.len() == t@.len(),
            t@ == s@,
            forall|j: int| 0 <= j < i ==> w@[j] == t@[j],
        decreases w@.len() - i,
    {
        if w[i] != t[i] {
            assert(w@[i as int] != s@[i as int]);
            return false;
        }
        i = i + 1;
    }
    assert(w@ =~= t@);
    true
}

/// The line `lspci` prints for `d`.
pub fn format_device(d: &Device) -> (r: Vec<char>)
    ensures
        r@ == device_text(*d),
{
    let mut out: Vec<char> = Vec::new();
    push_dec(&mut out, d.bus as u64);
    out.push('.');
    push_dec(&mut out, d.device as u64);
    out.push('.');
    push_dec(&mut out, d.function as u64);
    push_str(&mut out, ": vend ");
    push_hex(&mut out, d.vendor_id as u64, 4);
    push_str(&mut out, ", class ");
    push_hex(&mut out, d.class_code.base as u64, 2);
    out.push('.');
    push_hex(&mut out, d.class_code.sub as u64, 2);
    out.push('.');
    push_hex(&mut out, d.class_code.interface as u64, 2);
    push_str(&mut out, ", head ");
    push_hex(&mut out, d.header_type as u64, 2);
    out.push('\n');
    assert(out@ =~= device_text(*d));
    out
}

/// The line `ls` prints for `e`.
pub fn format_entry(e: &DirectoryEntry) -> (r: Vec<char>)
    ensures
        r@ == entry_text(*e),
{
    let mut out: Vec<char> = Vec::new();
    let basename = e.basename();
    let extension = e.extension();
    proof {
        lemma_trimmed_spaces(e.bytes().subrange(0, 8), basename@);
        lemma_trimmed_spaces(e.bytes().subrange(8, 11), extension@);
    }
    push_escaped_bytes(&mut out, basename);
    if extension.len() != 0 {
        out.push('.');
        push_escaped_bytes(&mut out, extension);
    }
    out.push('\n');
    assert(out@ =~= entry_text(*e));
    out
}

/// What `lspci` prints for a scan's result.
pub fn format_lspci(pci: &Config) -> (r: Vec<char>)
    ensures
        r@ == lspci_text(scan_all_spec(pci)),
{
    match scan_all_bus(pci) {
        Ok(devices) => {
            let mut out: Vec<char> = Vec::new();
            let n = devices_len(&devices);
            let mut i: usize = 0;
            while i < n
                invariant
                    i <= n,
                    n == device_items(devices).len(),
                    out@ == devices_text(device_items(devices).subrange(0, i as int)),
                decreases n - i,
            {
                let d = devices_get(&devices, i);
                let line = format_device(&d);
                let ghost t = device_items(devices).subrange(0, i as int + 1);
                assert(t.drop_last() == device_items(devices).subrange(0, i as int));
                push_chars(&mut out, &line);
                i = i + 1;
            }
            assert(device_items(devices).subrange(0, n as int) == device_items(devices));
            assert(out@ == lspci_text(Some(device_items(devices))));
            out
        },
        Err(_) => {
            let mut out: Vec<char> = Vec::new();
            push_str(&mut out, "lspci: failed to scan PCI devices: Full: buffer full\n");
            assert(out@ =~= lspci_text(None));
            out
        },
    }
}

/// What `ls` prints for the walk of `root`: a line per entry, stopping
/// after a message at the first error.
pub fn format_listing(root: &Directory) -> (r: Vec<char>)
    requires
        root.wf(),
    ensures
        r@ == listing_text(dir_items(root)),
{
    let mut out: Vec<char> = Vec::new();
    let mut entries = root.entries();
    let ghost mut items: Seq<Result<Seq<u8>, FatEntry>> = Seq::empty();
    assert(dir_items(root) =~= items + walk_items(entries.walk()));
    loop
        invariant_except_break
            dir_items(root) == items + walk_items(entries.walk()),
        invariant
            entries.wf(),
            0 <= entries.fuel(),
            0 <= entries.left(),
            out@ == listing_text(items),
        ensures
            dir_items(root) == items,
        decreases entries.fuel(), entries.left(),
    {
        let ghost w0 = entries.walk();
        let r = entries.next();
        match r {
            None => {
                assert(dir_items(root) =~= items);
                break ;
            },
            Some(Ok(e)) => {
                let line = format_entry(&e);
                push_chars(&mut out, &line);
                proof {
                    let t = items.push(Ok(e.bytes()));
                    assert(t.drop_last() == items);
                    assert(walk_items(w0) == seq![Ok(e.bytes())] + walk_items(entries.walk()));
                    assert(t + walk_items(entries.walk()) =~= items + walk_items(w0));
                    items = t;
                }
            },
            Some(Err(f)) => {
                push_str(&mut out, "failed to read directory\n");
                proof {
                    let t = items.push(Err(f));
                    assert(t.drop_last() == items);
                    assert(walk_items(w0) == seq![Err::<Seq<u8>, FatEntry>(f)]);
                    assert(dir_items(root) =~= t);
                    items = t;
                }
                assert(out@ == listing_text(items));
                break ;
            },
        }
    }
    assert(out@ == listing_text(dir_items(root)));
    out
}


impl TermView {
    /// Where `history_move` goes: `None` when it stays, else the new place
    /// (`Some(None)` for the line being typed).
    pub open spec fn history_target(self, direction: Direction) -> Option<Option<int>> {
        match direction {
            Direction::Newer => match self.history_index {
                None => None,
                Some(i) => if i == 0 {
                    Some(None)
                } else {
                    Some(Some(i - 1))
                },
            },
            Direction::Older => match self.history_index {
                None => Some(Some(0)),
                Some(i) => if i + 1 < self.history.len() {
                    Some(Some(i + 1))
                } else {
                    None
                },
            },
        }
    }

    /// The terminal after a step through the history: the typed line is
    /// deleted from the screen, the cursor goes to the row's start, the
    /// prompt is printed, and then the history line shown, which becomes the
    /// line being edited (an empty line past the newest).
    pub open spec fn history_moved(self, direction: Direction) -> TermView {
        match self.history_target(direction) {
            None => self,
            Some(target) => {
                let v1 = TermView { history_index: target, ..self }.with_line(
                    Seq::empty(),
                ).deleted_backward_n(self.line.len());
                let v2 = v1.with_cursor(0, v1.cursor_y).printed(seq!['>', ' ']);
                match target {
                    Some(i) => v2.printed(self.history[i]).with_line(self.history[i]),
                    None => v2,
                }
            },
        }
    }

    /// The terminal after the key `event` is handled, given what `lspci` and
    /// `ls` would find. The cursor is erased first and drawn again last. The
    /// down and up arrows (key codes 0x51 and 0x52, no character) step
    /// through the history; Enter starts a new row, runs the line, keeps it
    /// in the history unless it is empty or starts with white space, and
    /// prints the prompt; backspace deletes the last character; any other
    /// character is added to the line and printed.
    pub open spec fn key_result(
        self,
        event: KeyboardEvent,
        found: Option<Seq<Device>>,
        items: Seq<Result<Seq<u8>, FatEntry>>,
    ) -> TermView {
        let v1 = self.drawn_cursor(false);
        let v2 = if event.ascii == '\0' {
            if event.keycode == 0x51 {
                v1.history_moved(Direction::Newer)
            } else if event.keycode == 0x52 {
                v1.history_moved(Direction::Older)
            } else {
                v1
            }
        } else if event.ascii == '\n' {
            let w = command_result(v1.newlined(), found, items);
            let w2 = if w.line.len() > 0 && !spec_is_whitespace(w.line[0]) {
                w.pushed_history()
            } else {
                w
            };
            w2.printed(seq!['>', ' '])
        } else if event.ascii == '\x08' {
            if v1.line.len() > 0 {
                v1.with_line(v1.line.drop_last()).deleted_backward()
            } else {
                v1
            }
        } else {
            v1.with_line(v1.line.push(event.ascii)).put(event.ascii)
        };
        v2.drawn_cursor(true)
    }
}

/// Deleting backward keeps a terminal well formed and leaves all but the
/// screen and cursor.
pub proof fn lemma_deleted_backward_wf(v: TermView, n: nat)
    requires
        v.wf(),
    ensures
        v.deleted_backward_n(n).wf(),
        v.deleted_backward_n(n).line == v.line,
        v.deleted_backward_n(n).history == v.history,
        v.deleted_backward_n(n).history_index == v.history_index,
        v.deleted_backward_n(n).cursor_visible == v.cursor_visible,
        v.deleted_backward_n(n).cols == v.cols,
        v.deleted_backward_n(n).rows == v.rows,
    decreases n,
{
    if n > 0 {
        lemma_deleted_backward_wf(v, (n - 1) as nat);
        let u = v.deleted_backward_n((n - 1) as nat);
        let w = u.deleted_backward();
        assert forall|r: int| 0 <= r < w.rows implies (#[trigger] w.screen[r]).len() == w.cols by {
            if r != w.cursor_y {
                assert(w.screen[r] == u.screen[r]);
            }
        }
    }
}

/// Printing does not read or change the line being edited.
pub proof fn lemma_printed_with_line(v: TermView, l: Seq<char>, s: Seq<char>)
    ensures
        v.with_line(l).printed(s) == v.printed(s).with_line(l),
    decreases s.len(),
{
    if s.len() > 0 {
        lemma_printed_with_line(v, l, s.drop_last());
    }
}

/// Deleting backward does not read or change the line being edited.
pub proof fn lemma_deleted_with_line(v: TermView, l: Seq<char>, n: nat)
    ensures
        v.with_line(l).deleted_backward_n(n) == v.deleted_backward_n(n).with_line(l),
    decreases n,
{
    if n > 0 {
        lemma_deleted_with_line(v, l, (n - 1) as nat);
    }
}

impl Terminal {
    /// Blanks the screen and puts the cursor at the top-left.
    pub fn clear(&mut self)
        requires
            old(self)@.wf(),
        ensures
            final(self)@ == old(self)@.cleared(),
            final(self)@.wf(),
    {
        let fresh = Terminal::new(self.text_size);
        self.screen = fresh.screen;
        self.cursor = Point { x: 0, y: 0 };
    }

    /// Blinks the cursor: flips whether it is on and draws it so.
    pub fn handle_timeout(&mut self)
        requires
            old(self)@.wf(),
        ensures
            final(self)@ == (TermView {
                cursor_visible: !old(self)@.cursor_visible,
                ..old(self)@
            }).drawn_cursor(!old(self)@.cursor_visible),
            final(self)@.wf(),
    {
        self.cursor_visible = !self.cursor_visible;
        self.draw_cursor(self.cursor_visible);
    }

    /// Runs the line being edited as a command (see `command_result`), with
    /// `pci` the configuration space `lspci` scans and `root` the directory
    /// `ls` lists.
    pub fn execute_line(&mut self, pci: &Config, root: &Directory)
        requires
            old(self)@.wf(),
            root.wf(),
        ensures
            final(self)@.wf(),
            final(self)@ == command_result(old(self)@, scan_all_spec(pci), dir_items(root)),
    {
        let ghost v = self@;
        let mut line_buf: Vec<char> = Vec::new();
        std::mem::swap(&mut line_buf, &mut self.line_buf);
        let command_line = words(&line_buf);
        if command_line.len() == 0 {
            assert(self@ == command_result(v, None, Seq::empty()));
            return ;
        }
        let ghost ws = split_words(v.line);
        assert(command_line@[0]@ == ws[0]);
        let ghost found: Option<Seq<Device>> = scan_all_spec(pci);
        let ghost items: Seq<Result<Seq<u8>, FatEntry>> = dir_items(root);
        let ghost e = v.with_line(Seq::empty());
        assert(self@ == e);
        if chars_eq(&command_line[0], "echo") {
            let mut out: Vec<char> = Vec::new();
            let mut i: usize = 1;
            while i < command_line.len()
                invariant
                    1 <= i <= command_line@.len(),
                    command_line@.len() == ws.len(),
                    forall|j: int| 0 <= j < command_line@.len() ==> #[trigger] command_line@[j]@ == ws[j],
                    out@ == joined(ws.skip(1).take(i - 1)),
                decreases command_line@.len() - i,
            {
                let ghost t = ws.skip(1).take(i as int);
                assert(t.drop_last() =~= ws.skip(1).take(i - 1));
                assert(t.last() == ws[i as int]);
                if i > 1 {
                    out.push(' ');
                }
                push_chars(&mut out, &command_line[i]);
                i = i + 1;
                assert(out@ =~= joined(ws.skip(1).take(i - 1)));
            }
            assert(ws.skip(1).take(ws.len() - 1) =~= ws.skip(1));
            out.push('\n');
            self.print_chars(&out);
            assert(self@ == e.printed(echo_text(ws)));
        } else if chars_eq(&command_line[0], "clear") {
            self.clear();
            assert(self@ == e.cleared());
        } else if chars_eq(&command_line[0], "lspci") {
            let out = format_lspci(pci);
            self.print_chars(&out);
            assert(self@ == e.printed(lspci_text(found)));
        } else if chars_eq(&command_line[0], "ls") {
            let out = format_listing(root);
            self.print_chars(&out);
            assert(self@ == e.printed(listing_text(items)));
        } else {
            let mut out: Vec<char> = Vec::new();
            push_str(&mut out, "no such command: ");
            push_chars(&mut out, &command_line[0]);
            out.push('\n');
            assert(out@ =~= "no such command: "@ + ws[0] + seq!['\n']);
            self.print_chars(&out);
        }
        self.line_buf = line_buf;
        proof {
            let e = v.with_line(Seq::empty());
            lemma_printed_wf(v, echo_text(ws));
            lemma_printed_wf(v, lspci_text(found));
            lemma_printed_wf(v, listing_text(items));
            lemma_printed_wf(v, "no such command: "@ + ws[0] + seq!['\n']);
            lemma_printed_with_line(v, Seq::empty(), echo_text(ws));
            lemma_printed_with_line(v, Seq::empty(), lspci_text(found));
            lemma_printed_with_line(v, Seq::empty(), listing_text(items));
            lemma_printed_with_line(v, Seq::empty(), "no such command: "@ + ws[0] + seq!['\n']);
            assert(e.printed(echo_text(ws)).with_line(v.line) == v.printed(echo_text(ws)));
            assert(e.printed(lspci_text(found)).with_line(v.line) == v.printed(lspci_text(found)));
            assert(e.printed(listing_text(items)).with_line(v.line) == v.printed(listing_text(items)));
            assert(e.printed("no such command: "@ + ws[0] + seq!['\n']).with_line(v.line) == v.printed(
                "no such command: "@ + ws[0] + seq!['\n'],
            ));
        }
        assert(self@ == command_result(v, found, items));
    }

    /// Puts the line at the front of the history, which keeps its newest
    /// `HISTORY_LEN` lines, and starts an empty line.
    pub fn push_history(&mut self)
        requires
            old(self)@.wf(),
        ensures
            final(self)@ == old(self)@.pushed_history(),
            final(self)@.wf(),
    {
        let ghost v = self@;
        assert(v.history.take(v.history.len() as int) =~= v.history);
        while self.history.len() > HISTORY_LEN - 1
            invariant
                self@ == (TermView { history: v.history.take(self@.history.len() as int), ..v }),
                self@.history.len() <= v.history.len(),
                self@.history.len() >= (if v.history.len() > 7 { 7 } else { v.history.len() }),
                v.wf(),
            decreases self.history.len(),
        {
            let _ = self.history.pop_back();
            assert(self@.history =~= v.history.take(self@.history.len() as int));
        }
        let mut line: Vec<char> = Vec::new();
        std::mem::swap(&mut line, &mut self.line_buf);
        self.history.push_front(line);
        self.history_index = None;
        assert(self@.history =~= v.pushed_history().history);
        assert(self@ == v.pushed_history());
    }

    /// Steps through the history (see `TermView::history_moved`).
    pub fn history_move(&mut self, direction: Direction)
        requires
            old(self)@.wf(),
            !(direction == Direction::Older && old(self)@.history_index is None
                && old(self)@.history.len() == 0),
        ensures
            final(self)@ == old(self)@.history_moved(direction),
            final(self)@.wf(),
    {
        let ghost v = self@;
        let target = match direction {
            Direction::Newer => match self.history_index {
                None => return ,
                Some(i) => if i == 0 {
                    None
                } else {
                    Some(i - 1)
                },
            },
            Direction::Older => match self.history_index {
                None => Some(0),
                Some(i) => if i + 1 < self.history.len() {
                    Some(i + 1)
                } else {
                    return ;
                },
            },
        };
        self.history_index = target;
        let ghost v0 = self@;
        let ghost n = v.line.len();
        assert(v0.line.take(n as int) =~= v0.line);
        while self.line_buf.len() > 0
            invariant
                self@.wf(),
                v0.wf(),
                self@ == v0.deleted_backward_n((n - self@.line.len()) as nat).with_line(
                    v0.line.take(self@.line.len() as int),
                ),
                self@.line.len() <= n,
                n == v0.line.len(),
            decreases self.line_buf.len(),
        {
            let ghost k1 = self@.line.len();
            let _ = self.line_buf.pop();
            assert(self@.line =~= v0.line.take(k1 - 1));
            self.delete_backward();
            assert(self@ == v0.deleted_backward_n((n - self@.line.len()) as nat).with_line(
                v0.line.take(self@.line.len() as int),
            ));
        }
        proof {
            lemma_deleted_backward_wf(v0, n);
            lemma_deleted_with_line(v0, Seq::empty(), n);
            assert(v0.line.take(0) =~= Seq::<char>::empty());
        }
        let ghost t = match target {
            Some(i) => Some(i as int),
            None => None,
        };
        let ghost v1 = TermView { history_index: t, ..v }.with_line(Seq::empty()).deleted_backward_n(
            n,
        );
        assert(v.history_target(direction) == Some(t));
        assert(v0 == TermView { history_index: t, ..v });
        assert(self@ == v1);
        self.cursor.x = 0;
        self.print_prompt();
        assert(self@ == v1.with_cursor(0, v1.cursor_y).printed(seq!['>', ' ']));
        proof {
            lemma_printed_wf(v1.with_cursor(0, v1.cursor_y), seq!['>', ' ']);
        }
        match self.history_index {
            Some(i) => {
                assert(self@.history_index == Some(i as int));
                assert(self@.history == v.history);
                let line = copy_chars(&self.history[i]);
                assert(line@ == v.history[i as int]);
                let ghost before = self@;
                self.print_chars(&line);
                proof {
                    lemma_printed_wf(before, line@);
                }
                self.line_buf = line;
            },
            None => {
                self.line_buf.clear();
            },
        }
    }

    /// Handles a key press (see `TermView::key_result`), with `pci` and
    /// `root` what a command run by Enter reads.
    pub fn handle_event(&mut self, event: KeyboardEvent, pci: &Config, root: &Directory)
        requires
            old(self)@.wf(),
            root.wf(),
            !(event.ascii == '\0' && event.keycode == 0x52 && old(self)@.history_index is None
                && old(self)@.history.len() == 0),
        ensures
            final(self)@.wf(),
            final(self)@ == old(self)@.key_result(event, scan_all_spec(pci), dir_items(root)),
    {
        let ghost v = self@;
        let ghost found: Option<Seq<Device>> = scan_all_spec(pci);
        let ghost items: Seq<Result<Seq<u8>, FatEntry>> = dir_items(root);
        self.draw_cursor(false);
        if event.ascii == '\0' {
            if event.keycode == 0x51 {
                self.history_move(Direction::Newer);
            } else if event.keycode == 0x52 {
                self.history_move(Direction::Older);
            }
        } else if event.ascii == '\n' {
            self.newline();
            let ghost before = self@;
            self.execute_line(pci, root);
            if self.line_buf.len() > 0 && !is_whitespace(self.line_buf[0]) {
                self.push_history();
            }
            self.print_prompt();
        } else if event.ascii == '\x08' {
            if self.line_buf.len() > 0 {
                let _ = self.line_buf.pop();
                self.delete_backward();
            }
        } else {
            self.line_buf.push(event.ascii);
            self.print_char(event.ascii);
        }
        self.draw_cursor(true);
        assert(self@ == v.key_result(event, found, items));
    }
}


/// Stepping to the newest history line and back with no line shown
/// returns to an empty line being typed.
pub proof fn law_history_round_trip(v: TermView)
    requires
        v.wf(),
        v.history.len() > 0,
        v.history_index is None,
    ensures
        v.history_moved(Direction::Older).history_index == Some(0int),
        v.history_moved(Direction::Older).line == v.history[0],
        v.history_moved(Direction::Older).history_moved(Direction::Newer).history_index is None,
        v.history_moved(Direction::Older).history_moved(Direction::Newer).line.len() == 0,
        v.history_moved(Direction::Older).history_moved(Direction::Newer).history == v.history,
{
    let t = TermView { history_index: Some(0int), ..v }.with_line(Seq::empty());
    lemma_deleted_backward_wf(t, v.line.len());
    let v1 = t.deleted_backward_n(v.line.len());
    let v1c = v1.with_cursor(0, v1.cursor_y);
    lemma_printed_wf(v1c, seq!['>', ' ']);
    let v2 = v1c.printed(seq!['>', ' ']);
    lemma_printed_wf(v2, v.history[0]);
    let w = v.history_moved(Direction::Older);
    assert(w == v2.printed(v.history[0]).with_line(v.history[0]));
    assert(w.wf());
    let t2 = TermView { history_index: None, ..w }.with_line(Seq::empty());
    lemma_deleted_backward_wf(t2, w.line.len());
    let u1 = t2.deleted_backward_n(w.line.len());
    let u1c = u1.with_cursor(0, u1.cursor_y);
    lemma_printed_wf(u1c, seq!['>', ' ']);
}

} // verus!
