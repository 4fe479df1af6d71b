//! Mouse events: the cursor's position and which buttons went down or up.
use vstd::prelude::*;

verus! {

use crate::graphics::buffer_drawer::{law_draw_then_color_at, BufferDrawer};
use crate::graphics::color::Color;
use crate::graphics::geometry::{fits_i32, Point, Rectangle};

/// Button bit: left.
pub const MOUSE_LEFT: u8 = 0b001;
/// Button bit: right.
pub const MOUSE_RIGHT: u8 = 0b010;
/// Button bit: middle.
pub const MOUSE_MIDDLE: u8 = 0b100;
/// Every button bit.
pub const MOUSE_BUTTONS: u8 = 0b111;

/// A mouse event for the layers: the buttons that went down and up, the
/// cursor's position and how far it moved.
#[derive(Debug, Clone, Copy, PartialEq, Eq, Structural)]
pub struct MouseEvent {
    pub down: u8,
    pub up: u8,
    pub pos: Point,
    pub pos_diff: Point,
}

/// What the mouse task keeps between reports: the cursor's position and the
/// buttons held.
#[derive(Debug, Clone, Copy, PartialEq, Eq, Structural)]
pub struct MouseState {
    pub cursor_pos: Point,
    pub buttons: u8,
}

/// The cursor moved by `displacement` and clamped to `screen`: unmoved when
/// `screen` is empty.
pub open spec fn moved_cursor(pos: Point, displacement: Point, screen: Rectangle) -> Point {
    let p = Point { x: (pos.x + displacement.x) as i32, y: (pos.y + displacement.y) as i32 };
    if screen.is_empty() {
        pos
    } else {
        Point {
            x: crate::graphics::geometry::min_i(
                crate::graphics::geometry::max_i(p.x as int, screen.pos.x as int),
                screen.x_end_spec() - 1,
            ) as i32,
            y: crate::graphics::geometry::min_i(
                crate::graphics::geometry::max_i(p.y as int, screen.pos.y as int),
                screen.y_end_spec() - 1,
            ) as i32,
        }
    }
}

/// Handles a report from the mouse driver: the cursor moves by the
/// displacement, clamped to the screen (it stays put on an empty screen);
/// the buttons become those reported (unknown bits dropped). Returns the new
/// state, the event for the layers, and whether the cursor moved.
pub fn mouse_step(state: MouseState, buttons: u8, displacement_x: i8, displacement_y: i8, screen: Rectangle) -> (r: (MouseState, MouseEvent, bool))
    requires
        screen.wf(),
        fits_i32(state.cursor_pos.x - 128),
        fits_i32(state.cursor_pos.y - 128),
        fits_i32(state.cursor_pos.x + 128),
        fits_i32(state.cursor_pos.y + 128),
        fits_i32(screen.pos.x - state.cursor_pos.x),
        fits_i32(screen.pos.y - state.cursor_pos.y),
        fits_i32(screen.x_end_spec() - state.cursor_pos.x),
        fits_i32(screen.y_end_spec() - state.cursor_pos.y),
    ensures
        ({
            let (s, e, moved) = r;
            let d = Point { x: displacement_x as i32, y: displacement_y as i32 };
            &&& s.cursor_pos == moved_cursor(state.cursor_pos, d, screen)
            &&& s.buttons == buttons & MOUSE_BUTTONS
            &&& e.down == s.buttons & !state.buttons
            &&& e.up == state.buttons & !s.buttons
            &&& e.pos == s.cursor_pos
            &&& e.pos_diff.x == s.cursor_pos.x - state.cursor_pos.x
            &&& e.pos_diff.y == s.cursor_pos.y - state.cursor_pos.y
            &&& moved == (s.cursor_pos != state.cursor_pos)
            &&& !screen.is_empty() ==> screen.contains_spec(s.cursor_pos)
        }),
{
    let prev_pos = state.cursor_pos;
    let prev_buttons = state.buttons;
    let d = Point { x: displacement_x as i32, y: displacement_y as i32 };
    let mut cursor_pos = prev_pos;
    if screen.size.x > 0 && screen.size.y > 0 {
        let p = Point { x: prev_pos.x + d.x, y: prev_pos.y + d.y };
        if let Some(c) = p.clamp(screen) {
            cursor_pos = c;
        }
    }
    let new_buttons = buttons & MOUSE_BUTTONS;
    let down = new_buttons & !prev_buttons;
    let up = prev_buttons & !new_buttons;
    let pos_diff = Point { x: cursor_pos.x - prev_pos.x, y: cursor_pos.y - prev_pos.y };
    let moved = cursor_pos.x != prev_pos.x || cursor_pos.y != prev_pos.y;
    (
        MouseState { cursor_pos, buttons: new_buttons },
        MouseEvent { down, up, pos: cursor_pos, pos_diff },
        moved,
    )
}


/// Width of the mouse cursor.
pub const MOUSE_CURSOR_WIDTH: usize = 15;
/// Height of the mouse cursor.
pub const MOUSE_CURSOR_HEIGHT: usize = 24;

/// The cursor's shape: `@` black, `.` white, space transparent.
pub const MOUSE_CURSOR_SHAPE: [[u8; 15]; 24] = [
    [0x40, 0x20, 0x20, 0x20, 0x20, 0x20, 0x20, 0x20, 0x20, 0x20, 0x20, 0x20, 0x20, 0x20, 0x20],
    [0x40, 0x40, 0x20, 0x20, 0x20, 0x20, 0x20, 0x20, 0x20, 0x20, 0x20, 0x20, 0x20, 0x20, 0x20],
    [0x40, 0x2e, 0x40, 0x20, 0x20, 0x20, 0x20, 0x20, 0x20, 0x20, 0x20, 0x20, 0x20, 0x20, 0x20],
    [0x40, 0x2e, 0x2e, 0x40, 0x20, 0x20, 0x20, 0x20, 0x20, 0x20, 0x20, 0x20, 0x20, 0x20, 0x20],
    [0x40, 0x2e, 0x2e, 0x2e, 0x40, 0x20, 0x20, 0x20, 0x20, 0x20, 0x20, 0x20, 0x20, 0x20, 0x20],
    [0x40, 0x2e, 0x2e, 0x2e, 0x2e, 0x40, 0x20, 0x20, 0x20, 0x20, 0x20, 0x20, 0x20, 0x20, 0x20],
    [0x40, 0x2e, 0x2e, 0x2e, 0x2e, 0x2e, 0x40, 0x20, 0x20, 0x20, 0x20, 0x20, 0x20, 0x20, 0x20],
    [0x40, 0x2e, 0x2e, 0x2e, 0x2e, 0x2e, 0x2e, 0x40, 0x20, 0x20, 0x20, 0x20, 0x20, 0x20, 0x20],
    [0x40, 0x2e, 0x2e, 0x2e, 0x2e, 0x2e, 0x2e, 0x2e, 0x40, 0x20, 0x20, 0x20, 0x20, 0x20, 0x20],
    [0x40, 0x2e, 0x2e, 0x2e, 0x2e, 0x2e, 0x2e, 0x2e, 0x2e, 0x40, 0x20, 0x20, 0x20, 0x20, 0x20],
    [0x40, 0x2e, 0x2e, 0x2e, 0x2e, 0x2e, 0x2e, 0x2e, 0x2e, 0x2e, 0x40, 0x20, 0x20, 0x20, 0x20],
    [0x40, 0x2e, 0x2e, 0x2e, 0x2e, 0x2e, 0x2e, 0x2e, 0x2e, 0x2e, 0x2e, 0x40, 0x20, 0x20, 0x20],
    [0x40, 0x2e, 0x2e, 0x2e, 0x2e, 0x2e, 0x2e, 0x2e, 0x2e, 0x2e, 0x2e, 0x2e, 0x40, 0x20, 0x20],
    [0x40, 0x2e, 0x2e, 0x2e, 0x2e, 0x2e, 0x2e, 0x2e, 0x2e, 0x2e, 0x2e, 0x2e, 0x2e, 0x40, 0x20],
    [0x40, 0x2e, 0x2e, 0x2e, 0x2e, 0x2e, 0x2e, 0x40, 0x40, 0x40, 0x40, 0x40, 0x40, 0x40, 0x40],
    [0x40, 0x2e, 0x2e, 0x2e, 0x2e, 0x2e, 0x2e, 0x40, 0x20, 0x20, 0x20, 0x20, 0x20, 0x20, 0x20],
    [0x40, 0x2e, 0x2e, 0x2e, 0x2e, 0x40, 0x40, 0x2e, 0x40, 0x20, 0x20, 0x20, 0x20, 0x20, 0x20],
    [0x40, 0x2e, 0x2e, 0x2e, 0x40, 0x20, 0x40, 0x2e, 0x40, 0x20, 0x20, 0x20, 0x20, 0x20, 0x20],
    [0x40, 0x2e, 0x2e, 0x40, 0x20, 0x20, 0x20, 0x40, 0x2e, 0x40, 0x20, 0x20, 0x20, 0x20, 0x20],
    [0x40, 0x2e, 0x40, 0x20, 0x20, 0x20, 0x20, 0x40, 0x2e, 0x40, 0x20, 0x20, 0x20, 0x20, 0x20],
    [0x40, 0x40, 0x20, 0x20, 0x20, 0x20, 0x20, 0x20, 0x40, 0x2e, 0x40, 0x20, 0x20, 0x20, 0x20],
    [0x40, 0x20, 0x20, 0x20, 0x20, 0x20, 0x20, 0x20, 0x40, 0x2e, 0x40, 0x20, 0x20, 0x20, 0x20],
    [0x20, 0x20, 0x20, 0x20, 0x20, 0x20, 0x20, 0x20, 0x20, 0x40, 0x2e, 0x40, 0x20, 0x20, 0x20],
    [0x20, 0x20, 0x20, 0x20, 0x20, 0x20, 0x20, 0x20, 0x20, 0x40, 0x40, 0x40, 0x20, 0x20, 0x20],
];

/// The color a cursor shape character is drawn in: black, white, or the
/// transparent color (red) for the rest.
pub open spec fn cursor_shape_color(ch: u8) -> Color {
    if ch == 0x40 {
        Color { r: 0, g: 0, b: 0 }
    } else if ch == 0x2e {
        Color { r: 255, g: 255, b: 255 }
    } else {
        Color { r: 255, g: 0, b: 0 }
    }
}

/// The cursor's pixel at `q`, if `q` is in its 15x24 box.
pub open spec fn cursor_pixel(q: Point) -> Option<Color> {
    if 0 <= q.x < MOUSE_CURSOR_WIDTH && 0 <= q.y < MOUSE_CURSOR_HEIGHT {
        Some(cursor_shape_color(MOUSE_CURSOR_SHAPE[q.y as int]@[q.x as int]))
    } else {
        None
    }
}

/// Draws the mouse cursor at the top-left of `drawer`, its transparent part
/// in red.
pub fn draw_cursor(drawer: &mut BufferDrawer)
    requires
        old(drawer)@.wf(),
    ensures
        final(drawer)@.wf(),
        old(drawer)@.same_layout(final(drawer)@),
        forall|q: Point| #[trigger]
            final(drawer)@.color_at(q) == (if cursor_pixel(q) is Some && old(drawer)@.area().contains_spec(q) {
                Some(old(drawer)@.drawer.shown(cursor_pixel(q).unwrap()))
            } else {
                old(drawer)@.color_at(q)
            }),
{
    let ghost start = drawer@;
    let mut y: usize = 0;
    while y < MOUSE_CURSOR_HEIGHT
        invariant
            y <= MOUSE_CURSOR_HEIGHT,
            drawer@.wf(),
            start.same_layout(drawer@),
            forall|q: Point| #[trigger]
                drawer@.color_at(q) == (if cursor_pixel(q) is Some && q.y < y && start.area().contains_spec(q) {
                    Some(start.drawer.shown(cursor_pixel(q).unwrap()))
                } else {
                    start.color_at(q)
                }),
        decreases MOUSE_CURSOR_HEIGHT - y,
    {
        let row = MOUSE_CURSOR_SHAPE[y];
        let mut x: usize = 0;
        while x < MOUSE_CURSOR_WIDTH
            invariant
                x <= MOUSE_CURSOR_WIDTH,
                y < MOUSE_CURSOR_HEIGHT,
                row == MOUSE_CURSOR_SHAPE[y as int],
                drawer@.wf(),
                start.same_layout(drawer@),
                forall|q: Point| #[trigger]
                    drawer@.color_at(q) == (if cursor_pixel(q) is Some && (q.y < y || (q.y == y && q.x < x))
                        && start.area().contains_spec(q) {
                        Some(start.drawer.shown(cursor_pixel(q).unwrap()))
                    } else {
                        start.color_at(q)
                    }),
            decreases MOUSE_CURSOR_WIDTH - x,
        {
            let ch = row[x];
            let c = if ch == 0x40 {
                Color::new(0, 0, 0)
            } else if ch == 0x2e {
                Color::new(255, 255, 255)
            } else {
                Color::new(255, 0, 0)
            };
            let p = Point { x: x as i32, y: y as i32 };
            let ghost prev = drawer@;
            drawer.draw(p, c);
            proof {
                law_draw_then_color_at(prev, p, p, c);
                assert(cursor_pixel(p) == Some(c));
                assert forall|q: Point| #[trigger]
                    drawer@.color_at(q) == (if cursor_pixel(q) is Some && (q.y < y || (q.y == y && q.x < x + 1))
                        && start.area().contains_spec(q) {
                        Some(start.drawer.shown(cursor_pixel(q).unwrap()))
                    } else {
                        start.color_at(q)
                    }) by {
                    law_draw_then_color_at(prev, p, q, c);
                }
            }
            x = x + 1;
        }
        y = y + 1;
    }
}

} // verus!
