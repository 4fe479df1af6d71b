//! Framed windows: a window with a border and a title bar with a close
//! button, and the area inside for content.
use vstd::prelude::*;

verus! {

use crate::error::{ErrorKind, Result};
use crate::graphics::buffer_drawer::{screen_info_wf, spec_pixel_drawer, Canvas, ScreenInfo};
use crate::graphics::color::Color;
use crate::graphics::font::{chars_to_bytes, text_pixel, Font};
use crate::graphics::geometry::{fits_i32, Point, Rectangle};
use crate::keyboard::KeyboardEvent;
use crate::layer::{Layer, COORD_LIMIT};
use crate::task::IdGenerator;
use crate::window::{changes_marked, lemma_changes_marked_trans, Builder, RedrawArea, Window};

/// Space above the content, holding the title bar.
pub const PADDING_TOP: i32 = 24;
/// Space below the content.
pub const PADDING_BOTTOM: i32 = 4;
/// Space left of the content.
pub const PADDING_LEFT: i32 = 4;
/// Space right of the content.
pub const PADDING_RIGHT: i32 = 4;

/// Width of the close button.
pub const CLOSE_BUTTON_WIDTH: usize = 16;
/// Height of the close button.
pub const CLOSE_BUTTON_HEIGHT: usize = 14;

/// The close button: `@` black, `$` dark edge, `:` light edge, `.` white.
pub const CLOSE_BUTTON: [[u8; 16]; 14] = [
    [0x2e, 0x2e, 0x2e, 0x2e, 0x2e, 0x2e, 0x2e, 0x2e, 0x2e, 0x2e, 0x2e, 0x2e, 0x2e, 0x2e, 0x2e, 0x40],
    [0x2e, 0x3a, 0x3a, 0x3a, 0x3a, 0x3a, 0x3a, 0x3a, 0x3a, 0x3a, 0x3a, 0x3a, 0x3a, 0x3a, 0x24, 0x40],
    [0x2e, 0x3a, 0x3a, 0x3a, 0x3a, 0x3a, 0x3a, 0x3a, 0x3a, 0x3a, 0x3a, 0x3a, 0x3a, 0x3a, 0x24, 0x40],
    [0x2e, 0x3a, 0x3a, 0x3a, 0x40, 0x40, 0x3a, 0x3a, 0x3a, 0x3a, 0x40, 0x40, 0x3a, 0x3a, 0x24, 0x40],
    [0x2e, 0x3a, 0x3a, 0x3a, 0x3a, 0x40, 0x40, 0x3a, 0x3a, 0x40, 0x40, 0x3a, 0x3a, 0x3a, 0x24, 0x40],
    [0x2e, 0x3a, 0x3a, 0x3a, 0x3a, 0x3a, 0x40, 0x40, 0x40, 0x40, 0x3a, 0x3a, 0x3a, 0x3a, 0x24, 0x40],
    [0x2e, 0x3a, 0x3a, 0x3a, 0x3a, 0x3a, 0x3a, 0x40, 0x40, 0x3a, 0x3a, 0x3a, 0x3a, 0x3a, 0x24, 0x40],
    [0x2e, 0x3a, 0x3a, 0x3a, 0x3a, 0x3a, 0x40, 0x40, 0x40, 0x40, 0x3a, 0x3a, 0x3a, 0x3a, 0x24, 0x40],
    [0x2e, 0x3a, 0x3a, 0x3a, 0x3a, 0x40, 0x40, 0x3a, 0x3a, 0x40, 0x40, 0x3a, 0x3a, 0x3a, 0x24, 0x40],
    [0x2e, 0x3a, 0x3a, 0x3a, 0x40, 0x40, 0x3a, 0x3a, 0x3a, 0x3a, 0x40, 0x40, 0x3a, 0x3a, 0x24, 0x40],
    [0x2e, 0x3a, 0x3a, 0x3a, 0x3a, 0x3a, 0x3a, 0x3a, 0x3a, 0x3a, 0x3a, 0x3a, 0x3a, 0x3a, 0x24, 0x40],
    [0x2e, 0x3a, 0x3a, 0x3a, 0x3a, 0x3a, 0x3a, 0x3a, 0x3a, 0x3a, 0x3a, 0x3a, 0x3a, 0x3a, 0x24, 0x40],
    [0x2e, 0x24, 0x24, 0x24, 0x24, 0x24, 0x24, 0x24, 0x24, 0x24, 0x24, 0x24, 0x24, 0x24, 0x24, 0x40],
    [0x40, 0x40, 0x40, 0x40, 0x40, 0x40, 0x40, 0x40, 0x40, 0x40, 0x40, 0x40, 0x40, 0x40, 0x40, 0x40],
];

/// Color of dark edges.
pub open spec fn edge_dark() -> Color {
    Color { r: 0x84, g: 0x84, b: 0x84 }
}

/// Color of light edges.
pub open spec fn edge_light() -> Color {
    Color { r: 0xc6, g: 0xc6, b: 0xc6 }
}

/// Title bar of the active window.
pub open spec fn active_background() -> Color {
    Color { r: 0x00, g: 0x00, b: 0x84 }
}

/// Title bar of an inactive window.
pub open spec fn inactive_background() -> Color {
    Color { r: 0x84, g: 0x84, b: 0x84 }
}

/// The color of a close button character.
pub open spec fn button_color(ch: u8) -> Color {
    if ch == 0x40 {
        Color { r: 0, g: 0, b: 0 }
    } else if ch == 0x24 {
        edge_dark()
    } else if ch == 0x3a {
        edge_light()
    } else {
        Color { r: 255, g: 255, b: 255 }
    }
}

/// The close button's pixel at `q` in a window `wx` wide, if any.
pub open spec fn close_button_pixel(wx: int, q: Point) -> Option<Color> {
    let x = q.x - (wx - 5 - CLOSE_BUTTON_WIDTH);
    let y = q.y - 5;
    if 0 <= x < CLOSE_BUTTON_WIDTH && 0 <= y < CLOSE_BUTTON_HEIGHT {
        Some(button_color(CLOSE_BUTTON[y]@[x]))
    } else {
        None
    }
}

/// The color the frame paints at `q` in a window of `wx` by `wy`, if any:
/// the last of its rectangles that covers `q`.
pub open spec fn frame_pixel(wx: int, wy: int, q: Point) -> Option<Color> {
    let r = |x: int, y: int, w: int, h: int| x <= q.x < x + w && y <= q.y < y + h;
    if r(0, wy - 1, wx, 1) {
        Some(Color { r: 0, g: 0, b: 0 })
    } else if r(1, wy - 2, wx - 2, 1) {
        Some(edge_dark())
    } else if r(2, 2, wx - 4, wy - 4) {
        Some(edge_light())
    } else if r(wx - 1, 0, 1, wy) {
        Some(Color { r: 0, g: 0, b: 0 })
    } else if r(wx - 2, 1, 1, wy - 2) {
        Some(edge_dark())
    } else if r(1, 1, 1, wy - 2) {
        Some(Color { r: 255, g: 255, b: 255 })
    } else if r(0, 0, 1, wy) {
        Some(edge_light())
    } else if r(1, 1, wx - 2, 1) {
        Some(Color { r: 255, g: 255, b: 255 })
    } else if r(0, 0, wx, 1) {
        Some(edge_light())
    } else {
        None
    }
}

/// The color at `q` after the title bar is drawn over colors `base`: the
/// close button, over the title in white, over the bar.
pub open spec fn title_bar_color(
    c: Canvas,
    base: Option<Color>,
    font: Seq<[u8; 16]>,
    title: Seq<char>,
    active: bool,
    q: Point,
) -> Option<Color> {
    let wx = c.size.x as int;
    if !c.area().contains_spec(q) {
        None
    } else if close_button_pixel(wx, q) is Some {
        Some(c.drawer.shown(close_button_pixel(wx, q).unwrap()))
    } else if text_pixel(font, Point { x: 24, y: 4 }, chars_to_bytes(title), q) {
        Some(c.drawer.shown(Color { r: 255, g: 255, b: 255 }))
    } else if 3 <= q.x < 3 + (wx - 6) && 3 <= q.y < 3 + 18 {
        Some(
            c.drawer.shown(
                if active {
                    active_background()
                } else {
                    inactive_background()
                },
            ),
        )
    } else {
        base
    }
}

/// A window with a frame and a title bar; drawing is offset into the area
/// inside the frame.
pub struct FramedWindow {
    title: Vec<char>,
    active: bool,
    window: Window,
}

/// What building a framed window sets up: its title and the inner window's
/// settings (draggable, on top).
pub struct FramedBuilder {
    pub title: Vec<char>,
    pub inner: Builder,
}

impl FramedBuilder {
    /// A builder for a draggable window on top of the others titled `title`.
    pub fn new(title: Vec<char>) -> (r: FramedBuilder)
        ensures
            r.title@ == title@,
            r.inner == (Builder {
                pos: None,
                size: Point { x: 0, y: 0 },
                transparent_color: None,
                height: Some(usize::MAX),
                draggable: Some(true),
            }),
    {
        let mut inner = Builder::new();
        inner.draggable(true);
        inner.height(usize::MAX);
        FramedBuilder { title, inner }
    }

    /// Sets where the window goes.
    pub fn pos(self, pos: Point) -> (r: FramedBuilder)
        ensures
            r.title@ == self.title@,
            r.inner == (Builder { pos: Some(pos), ..self.inner }),
    {
        let mut s = self;
        s.inner.pos(pos);
        s
    }

    /// Sets the size of the content; the window is larger by the frame.
    pub fn size(self, size: Point) -> (r: FramedBuilder)
        requires
            fits_i32(size.x + PADDING_LEFT + PADDING_RIGHT),
            fits_i32(size.y + PADDING_TOP + PADDING_BOTTOM),
        ensures
            r.title@ == self.title@,
            r.inner == (Builder {
                size: Point {
                    x: (size.x + PADDING_LEFT + PADDING_RIGHT) as i32,
                    y: (size.y + PADDING_TOP + PADDING_BOTTOM) as i32,
                },
                ..self.inner
            }),
    {
        let mut s = self;
        s.inner.size(
            Point {
                x: size.x + (PADDING_LEFT + PADDING_RIGHT),
                y: size.y + (PADDING_TOP + PADDING_BOTTOM),
            },
        );
        s
    }
}


/// The colors after the frame is painted over `c`.
pub open spec fn frame_color(c: Canvas, q: Point) -> Option<Color> {
    if c.area().contains_spec(q) && frame_pixel(c.size.x as int, c.size.y as int, q) is Some {
        Some(c.drawer.shown(frame_pixel(c.size.x as int, c.size.y as int, q).unwrap()))
    } else {
        c.color_at(q)
    }
}

/// The content area of a window of size `s`: the window without the frame.
pub open spec fn content_area(s: Point) -> Rectangle {
    Rectangle {
        pos: Point { x: 0, y: 0 },
        size: Point {
            x: (s.x - (PADDING_LEFT + PADDING_RIGHT)) as i32,
            y: (s.y - (PADDING_TOP + PADDING_BOTTOM)) as i32,
        },
    }
}

impl FramedWindow {
    /// The title.
    pub closed spec fn title(&self) -> Seq<char> {
        self.title@
    }

    /// Whether the title bar shows the window as active.
    pub closed spec fn active(&self) -> bool {
        self.active
    }

    /// The window inside.
    pub closed spec fn inner(&self) -> &Window {
        &self.window
    }

    /// The window is well formed and small, and so is the title.
    pub open spec fn wf(&self) -> bool {
        &&& self.inner().wf()
        &&& 8 <= self.inner().canvas().size.x <= 0x0800_0000
        &&& 4 <= self.inner().canvas().size.y <= 0x0800_0000
        &&& self.title().len() <= 0x0100_0000
    }

    /// The window inside, with its layer's id and pixels.
    pub fn window(&self) -> (r: &Window)
        ensures
            r == self.inner(),
    {
        &self.window
    }

    /// Returns the area drawn since the last flush and forgets it; `None`
    /// when nothing was drawn, so that there is nothing to flush.
    pub fn take_redraw_area(&mut self) -> (r: Option<Rectangle>)
        requires
            old(self).wf(),
        ensures
            r == old(self).inner().redraw().redraw_area,
            final(self).wf(),
            final(self).inner().redraw() == (RedrawArea { redraw_area: None, ..old(self).inner().redraw() }),
            final(self).inner().canvas() == old(self).inner().canvas(),
            final(self).inner().layer_id() == old(self).inner().layer_id(),
            final(self).title() == old(self).title(),
            final(self).active() == old(self).active(),
    {
        self.window.take_redraw_area()
    }

    /// The size of the content area.
    pub fn size(&self) -> (r: Point)
        requires
            self.wf(),
        ensures
            r == content_area(self.inner().canvas().size).size,
    {
        let s = self.window.size();
        Point { x: s.x - (PADDING_LEFT + PADDING_RIGHT), y: s.y - (PADDING_TOP + PADDING_BOTTOM) }
    }

    /// The content area.
    pub fn area(&self) -> (r: Rectangle)
        requires
            self.wf(),
        ensures
            r == content_area(self.inner().canvas().size),
    {
        Rectangle { pos: Point { x: 0, y: 0 }, size: self.size() }
    }

    /// Draws the title bar: the bar in the active or inactive color, the
    /// title in white from (24, 4), and the close button at the right.
    pub fn draw_title_bar(&mut self, active: bool, font: &Font)
        requires
            old(self).wf(),
            font.wf(),
        ensures
            changes_marked(
                old(self).inner().canvas(),
                old(self).inner().redraw(),
                final(self).inner().canvas(),
                final(self).inner().redraw(),
            ),
            final(self).wf(),
            final(self).title() == old(self).title(),
            final(self).active() == old(self).active(),
            final(self).inner().layer_id() == old(self).inner().layer_id(),
            old(self).inner().canvas().same_layout(final(self).inner().canvas()),
            forall|q: Point| #[trigger]
                final(self).inner().canvas().color_at(q) == title_bar_color(
                    old(self).inner().canvas(),
                    old(self).inner().canvas().color_at(q),
                    font.glyphs(),
                    old(self).title(),
                    active,
                    q,
                ),
    {
        let ghost start = self.window.canvas();
        let ghost start_r = self.window.redraw();
        let wx = self.window.size().x;
        let background = if active {
            Color::new(0x00, 0x00, 0x84)
        } else {
            Color::new(0x84, 0x84, 0x84)
        };
        self.window.fill_rect(
            Rectangle { pos: Point { x: 3, y: 3 }, size: Point { x: wx - 6, y: 18 } },
            background,
        );
        let ghost filled = self.window.canvas();
        let ghost filled_r = self.window.redraw();
        self.window.draw_chars(font, Point { x: 24, y: 4 }, &self.title, Color::new(255, 255, 255));
        let ghost after_text = self.window.canvas();
        proof {
            lemma_changes_marked_trans(start, start_r, filled, filled_r, after_text, self.window.redraw());
        }
        let mut y: usize = 0;
        while y < CLOSE_BUTTON_HEIGHT
            invariant
                y <= CLOSE_BUTTON_HEIGHT,
                wx == start.size.x,
                8 <= wx <= COORD_LIMIT,
                self.wf(),
                self.title() == old(self).title(),
                self.active() == old(self).active(),
                self.inner().layer_id() == old(self).inner().layer_id(),
                start.same_layout(self.inner().canvas()),
                after_text.same_layout(self.inner().canvas()),
                changes_marked(start, start_r, self.inner().canvas(), self.inner().redraw()),
                forall|q: Point| #[trigger]
                    self.inner().canvas().color_at(q) == (if close_button_pixel(wx as int, q) is Some
                        && q.y - 5 < y && after_text.area().contains_spec(q) {
                        Some(after_text.drawer.shown(close_button_pixel(wx as int, q).unwrap()))
                    } else {
                        after_text.color_at(q)
                    }),
            decreases CLOSE_BUTTON_HEIGHT - y,
        {
            let row = CLOSE_BUTTON[y];
            let mut x: usize = 0;
            while x < CLOSE_BUTTON_WIDTH
                invariant
                    x <= CLOSE_BUTTON_WIDTH,
                    y < CLOSE_BUTTON_HEIGHT,
                    row == CLOSE_BUTTON[y as int],
                    wx == start.size.x,
                    8 <= wx <= COORD_LIMIT,
                    self.wf(),
                    self.title() == old(self).title(),
                    self.active() == old(self).active(),
                    self.inner().layer_id() == old(self).inner().layer_id(),
                    start.same_layout(self.inner().canvas()),
                    after_text.same_layout(self.inner().canvas()),
                    changes_marked(start, start_r, self.inner().canvas(), self.inner().redraw()),
                    forall|q: Point| #[trigger]
                        self.inner().canvas().color_at(q) == (if close_button_pixel(wx as int, q) is Some
                            && (q.y - 5 < y || (q.y - 5 == y && q.x - (wx - 5 - CLOSE_BUTTON_WIDTH) < x))
                            && after_text.area().contains_spec(q) {
                            Some(after_text.drawer.shown(close_button_pixel(wx as int, q).unwrap()))
                        } else {
                            after_text.color_at(q)
                        }),
                decreases CLOSE_BUTTON_WIDTH - x,
            {
                let ch = row[x];
                let c = if ch == 0x40 {
                    Color::new(0, 0, 0)
                } else if ch == 0x24 {
                    Color::new(0x84, 0x84, 0x84)
                } else if ch == 0x3a {
                    Color::new(0xc6, 0xc6, 0xc6)
                } else {
                    Color::new(255, 255, 255)
                };
                let p = Point { x: wx - 5 - CLOSE_BUTTON_WIDTH as i32 + x as i32, y: 5 + y as i32 };
                let ghost prev = self.inner().canvas();
                let ghost prev_r = self.inner().redraw();
                self.window.draw(p, c);
                proof {
                    lemma_changes_marked_trans(start, start_r, prev, prev_r, self.inner().canvas(), self.inner().redraw());
                    crate::graphics::buffer_drawer::law_draw_then_color_at(prev, p, p, c);
                    assert(close_button_pixel(wx as int, p) == Some(c));
                    assert forall|q: Point| #[trigger]
                        self.inner().canvas().color_at(q) == (if close_button_pixel(wx as int, q) is Some
                            && (q.y - 5 < y || (q.y - 5 == y && q.x - (wx - 5 - CLOSE_BUTTON_WIDTH) < x + 1))
                            && after_text.area().contains_spec(q) {
                            Some(after_text.drawer.shown(close_button_pixel(wx as int, q).unwrap()))
                        } else {
                            after_text.color_at(q)
                        }) by {
                        crate::graphics::buffer_drawer::law_draw_then_color_at(prev, p, q, c);
                    }
                }
                x = x + 1;
            }
            y = y + 1;
        }
        proof {
            assert forall|q: Point| #[trigger]
                self.inner().canvas().color_at(q) == title_bar_color(
                    start,
                    start.color_at(q),
                    font.glyphs(),
                    old(self).title(),
                    active,
                    q,
                ) by {
                if close_button_pixel(wx as int, q) is Some {
                    assert(q.y - 5 < CLOSE_BUTTON_HEIGHT);
                }
            }
        }
    }

    /// Draws the frame: its edges and the content area's background, then
    /// the title bar shown inactive.
    #[verifier::spinoff_prover]
    #[verifier::rlimit(60)]
    pub fn draw_frame(&mut self, font: &Font)
        requires
            old(self).wf(),
            font.wf(),
        ensures
            changes_marked(
                old(self).inner().canvas(),
                old(self).inner().redraw(),
                final(self).inner().canvas(),
                final(self).inner().redraw(),
            ),
            final(self).wf(),
            final(self).title() == old(self).title(),
            final(self).active() == old(self).active(),
            final(self).inner().layer_id() == old(self).inner().layer_id(),
            old(self).inner().canvas().same_layout(final(self).inner().canvas()),
            forall|q: Point| #[trigger]
                final(self).inner().canvas().color_at(q) == title_bar_color(
                    old(self).inner().canvas(),
                    frame_color(old(self).inner().canvas(), q),
                    font.glyphs(),
                    old(self).title(),
                    false,
                    q,
                ),
    {
        let ghost start = self.window.canvas();
        let s = self.window.size();
        let wx = s.x;
        let wy = s.y;
        let black = Color::new(0, 0, 0);
        let white = Color::new(255, 255, 255);
        let dark = Color::new(0x84, 0x84, 0x84);
        let light = Color::new(0xc6, 0xc6, 0xc6);
        self.window.fill_rect(Rectangle { pos: Point { x: 0, y: 0 }, size: Point { x: wx, y: 1 } }, light);
        self.window.fill_rect(Rectangle { pos: Point { x: 1, y: 1 }, size: Point { x: wx - 2, y: 1 } }, white);
        self.window.fill_rect(Rectangle { pos: Point { x: 0, y: 0 }, size: Point { x: 1, y: wy } }, light);
        self.window.fill_rect(Rectangle { pos: Point { x: 1, y: 1 }, size: Point { x: 1, y: wy - 2 } }, white);
        self.window.fill_rect(Rectangle { pos: Point { x: wx - 2, y: 1 }, size: Point { x: 1, y: wy - 2 } }, dark);
        self.window.fill_rect(Rectangle { pos: Point { x: wx - 1, y: 0 }, size: Point { x: 1, y: wy } }, black);
        self.window.fill_rect(Rectangle { pos: Point { x: 2, y: 2 }, size: Point { x: wx - 4, y: wy - 4 } }, light);
        self.window.fill_rect(Rectangle { pos: Point { x: 1, y: wy - 2 }, size: Point { x: wx - 2, y: 1 } }, dark);
        self.window.fill_rect(Rectangle { pos: Point { x: 0, y: wy - 1 }, size: Point { x: wx, y: 1 } }, black);
        let ghost framed = self.window.canvas();
        assert forall|q: Point| #[trigger] framed.color_at(q) == frame_color(start, q) by {}
        self.draw_title_bar(false, font);
    }

    /// Shows the title bar as active; `true` when it changed and the window
    /// needs a flush.
    pub fn activate(&mut self, font: &Font) -> (r: bool)
        requires
            old(self).wf(),
            font.wf(),
        ensures
            changes_marked(
                old(self).inner().canvas(),
                old(self).inner().redraw(),
                final(self).inner().canvas(),
                final(self).inner().redraw(),
            ),
            final(self).wf(),
            r == !old(self).active(),
            final(self).active(),
            final(self).title() == old(self).title(),
            !r ==> final(self).inner().canvas() == old(self).inner().canvas(),
            r ==> forall|q: Point| #[trigger]
                final(self).inner().canvas().color_at(q) == title_bar_color(
                    old(self).inner().canvas(),
                    old(self).inner().canvas().color_at(q),
                    font.glyphs(),
                    old(self).title(),
                    true,
                    q,
                ),
    {
        if !self.active {
            self.draw_title_bar(true, font);
            self.active = true;
            true
        } else {
            false
        }
    }

    /// Shows the title bar as inactive; `true` when it changed and the
    /// window needs a flush.
    pub fn deactivate(&mut self, font: &Font) -> (r: bool)
        requires
            old(self).wf(),
            font.wf(),
        ensures
            changes_marked(
                old(self).inner().canvas(),
                old(self).inner().redraw(),
                final(self).inner().canvas(),
                final(self).inner().redraw(),
            ),
            final(self).wf(),
            r == old(self).active(),
            !final(self).active(),
            final(self).title() == old(self).title(),
            !r ==> final(self).inner().canvas() == old(self).inner().canvas(),
            r ==> forall|q: Point| #[trigger]
                final(self).inner().canvas().color_at(q) == title_bar_color(
                    old(self).inner().canvas(),
                    old(self).inner().canvas().color_at(q),
                    font.glyphs(),
                    old(self).title(),
                    false,
                    q,
                ),
    {
        if self.active {
            self.draw_title_bar(false, font);
            self.active = false;
            true
        } else {
            false
        }
    }

    /// Sets the content pixel at `p` (the window pixel at `p` plus the
    /// frame's top-left padding) to `c`; nothing outside the content area.
    pub fn draw(&mut self, p: Point, c: Color)
        requires
            old(self).wf(),
        ensures
            changes_marked(
                old(self).inner().canvas(),
                old(self).inner().redraw(),
                final(self).inner().canvas(),
                final(self).inner().redraw(),
            ),
            final(self).wf(),
            final(self).title() == old(self).title(),
            final(self).active() == old(self).active(),
            final(self).inner().canvas() == if content_area(old(self).inner().canvas().size).contains_spec(p) {
                old(self).inner().canvas().drawn(
                    Point { x: (p.x + PADDING_LEFT) as i32, y: (p.y + PADDING_TOP) as i32 },
                    c,
                )
            } else {
                old(self).inner().canvas()
            },
    {
        if self.area().contains(&p) {
            self.window.draw(Point { x: p.x + PADDING_LEFT, y: p.y + PADDING_TOP }, c);
        }
    }
}

/// An event a window receives from the layer manager.
#[derive(Debug, Clone, Copy, PartialEq, Eq, Structural)]
pub enum WindowEvent {
    /// The window became the active one.
    Activated,
    /// Another window became the active one.
    Deactivated,
    /// A key was pressed while the window was active.
    Keyboard(KeyboardEvent),
}

impl FramedWindow {
    /// Handles an event the window received: activation and deactivation
    /// redraw the title bar (see `activate` and `deactivate`); a key press is
    /// handed on. Returns the key press, if any, and whether the window
    /// needs a flush.
    pub fn recv_event(&mut self, event: WindowEvent, font: &Font) -> (r: (Option<KeyboardEvent>, bool))
        requires
            old(self).wf(),
            font.wf(),
        ensures
            changes_marked(
                old(self).inner().canvas(),
                old(self).inner().redraw(),
                final(self).inner().canvas(),
                final(self).inner().redraw(),
            ),
            final(self).wf(),
            final(self).title() == old(self).title(),
            match event {
                WindowEvent::Keyboard(e) => r == (Some(e), false) && final(self).active() == old(
                    self,
                ).active() && final(self).inner().canvas() == old(self).inner().canvas(),
                WindowEvent::Activated => {
                    &&& r.0 is None
                    &&& r.1 == !old(self).active()
                    &&& final(self).active()
                    &&& !r.1 ==> final(self).inner().canvas() == old(self).inner().canvas()
                    &&& r.1 ==> forall|q: Point| #[trigger]
                        final(self).inner().canvas().color_at(q) == title_bar_color(
                            old(self).inner().canvas(),
                            old(self).inner().canvas().color_at(q),
                            font.glyphs(),
                            old(self).title(),
                            true,
                            q,
                        )
                },
                WindowEvent::Deactivated => {
                    &&& r.0 is None
                    &&& r.1 == old(self).active()
                    &&& !final(self).active()
                    &&& !r.1 ==> final(self).inner().canvas() == old(self).inner().canvas()
                    &&& r.1 ==> forall|q: Point| #[trigger]
                        final(self).inner().canvas().color_at(q) == title_bar_color(
                            old(self).inner().canvas(),
                            old(self).inner().canvas().color_at(q),
                            font.glyphs(),
                            old(self).title(),
                            false,
                            q,
                        )
                },
            },
    {
        match event {
            WindowEvent::Activated => (None, self.activate(font)),
            WindowEvent::Deactivated => (None, self.deactivate(font)),
            WindowEvent::Keyboard(e) => (Some(e), false),
        }
    }
}

/// Builds a framed window (see `FramedBuilder`) and draws its frame.
pub fn build_framed(builder: FramedBuilder, ids: &mut IdGenerator, screen_info: ScreenInfo, font: &Font) -> (r: Result<(FramedWindow, Layer)>)
    requires
        screen_info_wf(screen_info),
        font.wf(),
        8 <= builder.inner.size.x <= 0x0800_0000,
        4 <= builder.inner.size.y <= 0x0800_0000,
        fits_i32(builder.inner.size.x * builder.inner.size.y * screen_info.bytes_per_pixel),
        fits_i32(builder.inner.size.y * screen_info.bytes_per_pixel),
        builder.inner.pos matches Some(p) ==> -COORD_LIMIT <= p.x <= COORD_LIMIT && -COORD_LIMIT <= p.y
            <= COORD_LIMIT,
        builder.title@.len() <= 0x0100_0000,
    ensures
        r is Ok <==> spec_pixel_drawer(screen_info.pixel_format) is Some,
        r matches Err(e) ==> e.kind == ErrorKind::UnsupportedPixelFormat,
        r matches Ok((w, l)) ==> {
            &&& w.wf()
            &&& l@.wf()
            &&& w.title() == builder.title@
            &&& !w.active()
            &&& w.inner().layer_id().0 == l@.id
            &&& l@.draggable == (builder.inner.draggable == Some(true))
            &&& l@.pos == (match builder.inner.pos {
                Some(p) => p,
                None => Point { x: 0, y: 0 },
            })
            &&& w.inner().canvas().size == builder.inner.size
        },
{
    let (window, layer) = match builder.inner.build(ids, screen_info) {
        Ok(p) => p,
        Err(e) => return Err(e),
    };
    let mut w = FramedWindow { title: builder.title, active: false, window };
    w.draw_frame(font);
    Ok((w, layer))
}

/// The content point shown at window point `q`.
pub open spec fn to_content(q: Point) -> Point {
    Point { x: (q.x - PADDING_LEFT) as i32, y: (q.y - PADDING_TOP) as i32 }
}

/// Where `move_area` on a framed window moves from, in window
/// coordinates: the part of `src` in the content area, moved by `offset`
/// and clipped to the content area again, taken back by `offset`; `None`
/// when nothing moves.
pub open spec fn framed_move_src(size: Point, offset: Point, src: Rectangle) -> Option<Rectangle> {
    let area = content_area(size);
    if offset.x == 0 && offset.y == 0 {
        None
    } else {
        match src.spec_intersection(area) {
            None => None,
            Some(a) => match a.spec_translate(offset).spec_intersection(area) {
                None => None,
                Some(d) => Some(
                    Rectangle {
                        pos: Point {
                            x: (d.pos.x - offset.x + PADDING_LEFT) as i32,
                            y: (d.pos.y - offset.y + PADDING_TOP) as i32,
                        },
                        size: d.size,
                    },
                ),
            },
        }
    }
}

impl FramedWindow {
    /// Moves the content in `src` by `offset` within the content area.
    pub fn move_area(&mut self, offset: Point, src: Rectangle)
        requires
            old(self).wf(),
            crate::window::window_rect_ok(src),
            crate::window::window_rect_ok(Rectangle { pos: offset, size: Point { x: 0, y: 0 } }),
        ensures
            changes_marked(
                old(self).inner().canvas(),
                old(self).inner().redraw(),
                final(self).inner().canvas(),
                final(self).inner().redraw(),
            ),
            final(self).wf(),
            final(self).title() == old(self).title(),
            final(self).active() == old(self).active(),
            final(self).inner().canvas() == match framed_move_src(old(self).inner().canvas().size, offset, src) {
                None => old(self).inner().canvas(),
                Some(s) => old(self).inner().canvas().moved(offset, s),
            },
    {
        if offset.x == 0 && offset.y == 0 {
            return ;
        }
        let area = self.area();
        let a = match src.intersection(area) {
            Some(a) => a,
            None => return ,
        };
        let m = a.translate(offset);
        let d = match m.intersection(area) {
            Some(d) => d,
            None => return ,
        };
        let s = Rectangle {
            pos: Point {
                x: d.pos.x - offset.x + PADDING_LEFT,
                y: d.pos.y - offset.y + PADDING_TOP,
            },
            size: d.size,
        };
        self.window.move_area(offset, s);
    }

    /// Paints the content pixels of `rect` with `c`.
    pub fn fill_rect(&mut self, rect: Rectangle, c: Color)
        requires
            old(self).wf(),
            crate::window::window_rect_ok(rect),
        ensures
            changes_marked(
                old(self).inner().canvas(),
                old(self).inner().redraw(),
                final(self).inner().canvas(),
                final(self).inner().redraw(),
            ),
            final(self).wf(),
            final(self).title() == old(self).title(),
            final(self).active() == old(self).active(),
            old(self).inner().canvas().same_layout(final(self).inner().canvas()),
            forall|q: Point| #[trigger]
                final(self).inner().canvas().color_at(q) == (if rect.contains_spec(to_content(q))
                    && content_area(old(self).inner().canvas().size).contains_spec(to_content(q))
                    && old(self).inner().canvas().area().contains_spec(q) {
                    Some(old(self).inner().canvas().drawer.shown(c))
                } else {
                    old(self).inner().canvas().color_at(q)
                }),
    {
        let area = self.area();
        match rect.intersection(area) {
            Some(a) => {
                let w = Rectangle {
                    pos: Point { x: a.pos.x + PADDING_LEFT, y: a.pos.y + PADDING_TOP },
                    size: a.size,
                };
                self.window.fill_rect(w, c);
            },
            None => {},
        }
    }

    /// Draws the glyph of `byte` with its top-left corner at content point
    /// `pos` in `color`, clipped to the content area.
    pub fn draw_byte_char(&mut self, font: &Font, pos: Point, byte: u8, color: Color)
        requires
            old(self).wf(),
            font.wf(),
            crate::window::window_rect_ok(Rectangle { pos, size: Point { x: 0, y: 0 } }),
        ensures
            changes_marked(
                old(self).inner().canvas(),
                old(self).inner().redraw(),
                final(self).inner().canvas(),
                final(self).inner().redraw(),
            ),
            final(self).wf(),
            final(self).title() == old(self).title(),
            final(self).active() == old(self).active(),
            old(self).inner().canvas().same_layout(final(self).inner().canvas()),
            forall|q: Point| #[trigger]
                final(self).inner().canvas().color_at(q) == (if crate::graphics::font::char_pixel(
                    font.glyphs(),
                    pos,
                    byte,
                    to_content(q),
                ) && content_area(old(self).inner().canvas().size).contains_spec(to_content(q))
                    && old(self).inner().canvas().area().contains_spec(q) {
                    Some(old(self).inner().canvas().drawer.shown(color))
                } else {
                    old(self).inner().canvas().color_at(q)
                }),
    {
        let ghost start = self.window.canvas();
        let ghost start_r = self.window.redraw();
        let glyph = font.glyph(byte);
        let area = self.area();
        let mut fy: usize = 0;
        while fy < 16
            invariant
                fy <= 16,
                glyph == font.glyphs()[byte as int],
                font.wf(),
                area == content_area(start.size),
                crate::window::window_rect_ok(Rectangle { pos, size: Point { x: 0, y: 0 } }),
                self.wf(),
                self.title() == old(self).title(),
                self.active() == old(self).active(),
                start.same_layout(self.inner().canvas()),
                changes_marked(start, start_r, self.inner().canvas(), self.inner().redraw()),
                forall|q: Point| #[trigger]
                    self.inner().canvas().color_at(q) == (if crate::graphics::font::char_pixel(
                        font.glyphs(),
                        pos,
                        byte,
                        to_content(q),
                    ) && to_content(q).y - pos.y < fy && area.contains_spec(to_content(q))
                        && start.area().contains_spec(q) {
                        Some(start.drawer.shown(color))
                    } else {
                        start.color_at(q)
                    }),
            decreases 16 - fy,
        {
            let row = glyph[fy];
            let mut fx: usize = 0;
            while fx < 8
                invariant
                    fx <= 8,
                    fy < 16,
                    row == glyph@[fy as int],
                    glyph == font.glyphs()[byte as int],
                    font.wf(),
                    area == content_area(start.size),
                    crate::window::window_rect_ok(Rectangle { pos, size: Point { x: 0, y: 0 } }),
                    self.wf(),
                    self.title() == old(self).title(),
                    self.active() == old(self).active(),
                    start.same_layout(self.inner().canvas()),
                    changes_marked(start, start_r, self.inner().canvas(), self.inner().redraw()),
                    forall|q: Point| #[trigger]
                        self.inner().canvas().color_at(q) == (if crate::graphics::font::char_pixel(
                            font.glyphs(),
                            pos,
                            byte,
                            to_content(q),
                        ) && (to_content(q).y - pos.y < fy || (to_content(q).y - pos.y == fy
                            && to_content(q).x - pos.x < fx)) && area.contains_spec(to_content(q))
                            && start.area().contains_spec(q) {
                            Some(start.drawer.shown(color))
                        } else {
                            start.color_at(q)
                        }),
                decreases 8 - fx,
            {
                let p = Point { x: pos.x + fx as i32, y: pos.y + fy as i32 };
                if (row << fx as u8) & 0x80 != 0 && area.contains(&p) {
                    let q0 = Point { x: p.x + PADDING_LEFT, y: p.y + PADDING_TOP };
                    let ghost prev = self.inner().canvas();
                    let ghost prev_r = self.inner().redraw();
                    self.window.draw(q0, color);
                    proof {
                        lemma_changes_marked_trans(start, start_r, prev, prev_r, self.inner().canvas(), self.inner().redraw());
                        crate::graphics::buffer_drawer::law_draw_then_color_at(prev, q0, q0, color);
                        assert(to_content(q0) == p);
                        assert forall|q: Point| #[trigger]
                            self.inner().canvas().color_at(q) == (if crate::graphics::font::char_pixel(
                                font.glyphs(),
                                pos,
                                byte,
                                to_content(q),
                            ) && (to_content(q).y - pos.y < fy || (to_content(q).y - pos.y == fy
                                && to_content(q).x - pos.x < fx + 1)) && area.contains_spec(to_content(q))
                                && start.area().contains_spec(q) {
                                Some(start.drawer.shown(color))
                            } else {
                                start.color_at(q)
                            }) by {
                            crate::graphics::buffer_drawer::law_draw_then_color_at(prev, q0, q, color);
                            if q != q0 && area.contains_spec(to_content(q)) && to_content(q) == p
                                && start.area().contains_spec(q) {
                                assert(q.x == q0.x && q.y == q0.y);
                            }
                        }
                    }
                } else {
                    proof {
                        assert forall|q: Point| #[trigger]
                            self.inner().canvas().color_at(q) == (if crate::graphics::font::char_pixel(
                                font.glyphs(),
                                pos,
                                byte,
                                to_content(q),
                            ) && (to_content(q).y - pos.y < fy || (to_content(q).y - pos.y == fy
                                && to_content(q).x - pos.x < fx + 1)) && area.contains_spec(to_content(q))
                                && start.area().contains_spec(q) {
                                Some(start.drawer.shown(color))
                            } else {
                                start.color_at(q)
                            }) by {
                            if area.contains_spec(to_content(q)) && to_content(q).y - pos.y == fy
                                && to_content(q).x - pos.x == fx {
                                assert(to_content(q) == p);
                            }
                        }
                    }
                }
                fx = fx + 1;
            }
            fy = fy + 1;
        }
    }
}


/// Whether content point `p` is in the box `draw_box` paints for `area` and
/// with which color: the lines just right of and below `area` in
/// `bottom_right`, over the top and left edges in `top_left`, over the
/// inside in `background`.
pub open spec fn box_pixel(area: Rectangle, background: Color, top_left: Color, bottom_right: Color, p: Point) -> Option<Color> {
    if crate::graphics::buffer_drawer::box_bottom(area).contains_spec(p)
        || crate::graphics::buffer_drawer::box_right(area).contains_spec(p) {
        Some(bottom_right)
    } else if crate::graphics::buffer_drawer::box_top(area).contains_spec(p)
        || crate::graphics::buffer_drawer::box_left(area).contains_spec(p) {
        Some(top_left)
    } else if crate::graphics::buffer_drawer::box_inner(area).contains_spec(p) {
        Some(background)
    } else {
        None
    }
}

impl FramedWindow {
    /// Draws a raised box in the content (see `BufferDrawer::draw_box`).
    pub fn draw_box(&mut self, area: Rectangle, background: Color, top_left: Color, bottom_right: Color)
        requires
            old(self).wf(),
            crate::window::small_rect(area),
        ensures
            changes_marked(
                old(self).inner().canvas(),
                old(self).inner().redraw(),
                final(self).inner().canvas(),
                final(self).inner().redraw(),
            ),
            final(self).wf(),
            final(self).title() == old(self).title(),
            final(self).active() == old(self).active(),
            old(self).inner().canvas().same_layout(final(self).inner().canvas()),
            forall|q: Point| #[trigger]
                final(self).inner().canvas().color_at(q) == (if content_area(
                    old(self).inner().canvas().size,
                ).contains_spec(to_content(q)) && old(self).inner().canvas().area().contains_spec(q)
                    && box_pixel(area, background, top_left, bottom_right, to_content(q)) is Some {
                    Some(old(self).inner().canvas().drawer.shown(
                        box_pixel(area, background, top_left, bottom_right, to_content(q)).unwrap(),
                    ))
                } else {
                    old(self).inner().canvas().color_at(q)
                }),
    {
        let pos = area.pos;
        let size = area.size;
        self.fill_rect(
            Rectangle {
                pos: Point { x: pos.x + 1, y: pos.y + 1 },
                size: Point { x: size.x - 2, y: size.y - 2 },
            },
            background,
        );
        self.fill_rect(Rectangle { pos, size: Point { x: size.x, y: 1 } }, top_left);
        self.fill_rect(Rectangle { pos, size: Point { x: 1, y: size.y } }, top_left);
        self.fill_rect(
            Rectangle { pos: Point { x: pos.x, y: pos.y + size.y }, size: Point { x: size.x, y: 1 } },
            bottom_right,
        );
        self.fill_rect(
            Rectangle { pos: Point { x: pos.x + size.x, y: pos.y }, size: Point { x: 1, y: size.y } },
            bottom_right,
        );
    }

    /// Draws the bytes `bytes` side by side from content point `pos` in
    /// `color`, clipped to the content area.
    pub fn draw_byte_str(&mut self, font: &Font, pos: Point, bytes: &[u8], color: Color)
        requires
            old(self).wf(),
            font.wf(),
            crate::window::small_rect(Rectangle { pos, size: Point { x: 0, y: 0 } }),
            bytes@.len() <= 0x0100_0000,
        ensures
            changes_marked(
                old(self).inner().canvas(),
                old(self).inner().redraw(),
                final(self).inner().canvas(),
                final(self).inner().redraw(),
            ),
            final(self).wf(),
            final(self).title() == old(self).title(),
            final(self).active() == old(self).active(),
            old(self).inner().canvas().same_layout(final(self).inner().canvas()),
            forall|q: Point| #[trigger]
                final(self).inner().canvas().color_at(q) == (if text_pixel(font.glyphs(), pos, bytes@, to_content(q))
                    && content_area(old(self).inner().canvas().size).contains_spec(to_content(q))
                    && old(self).inner().canvas().area().contains_spec(q) {
                    Some(old(self).inner().canvas().drawer.shown(color))
                } else {
                    old(self).inner().canvas().color_at(q)
                }),
    {
        let ghost start = self.window.canvas();
        let ghost start_r = self.window.redraw();
        let ghost area = content_area(start.size);
        let mut i: usize = 0;
        while i < bytes.len()
            invariant
                i <= bytes@.len(),
                bytes@.len() <= 0x0100_0000,
                font.wf(),
                area == content_area(start.size),
                crate::window::small_rect(Rectangle { pos, size: Point { x: 0, y: 0 } }),
                self.wf(),
                self.title() == old(self).title(),
                self.active() == old(self).active(),
                start.same_layout(self.inner().canvas()),
                changes_marked(start, start_r, self.inner().canvas(), self.inner().redraw()),
                forall|q: Point| #[trigger]
                    self.inner().canvas().color_at(q) == (if text_pixel(font.glyphs(), pos, bytes@.take(i as int), to_content(q))
                        && area.contains_spec(to_content(q)) && start.area().contains_spec(q) {
                        Some(start.drawer.shown(color))
                    } else {
                        start.color_at(q)
                    }),
            decreases bytes@.len() - i,
        {
            let p = Point { x: pos.x + 8 * i as i32, y: pos.y };
            let ghost prev = self.inner().canvas();
            let ghost prev_r = self.inner().redraw();
            self.draw_byte_char(font, p, bytes[i], color);
            proof {
                lemma_changes_marked_trans(start, start_r, prev, prev_r, self.inner().canvas(), self.inner().redraw());
                assert forall|q: Point| #[trigger]
                    self.inner().canvas().color_at(q) == (if text_pixel(font.glyphs(), pos, bytes@.take(i + 1), to_content(q))
                        && area.contains_spec(to_content(q)) && start.area().contains_spec(q) {
                        Some(start.drawer.shown(color))
                    } else {
                        start.color_at(q)
                    }) by {
                    crate::graphics::font::lemma_text_pixel_step(font.glyphs(), pos, bytes@, i as int, to_content(q));
                }
            }
            i = i + 1;
        }
        assert(bytes@.take(bytes@.len() as int) =~= bytes@);
    }
}

} // verus!
