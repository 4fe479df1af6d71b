//! The desktop: the background and the task bar.
use vstd::prelude::*;

verus! {

use crate::graphics::buffer_drawer::{on_outline, BufferDrawer};
use crate::graphics::color::Color;
use crate::graphics::geometry::{Point, Rectangle};

/// The desktop's background color.
pub open spec fn bg_color() -> Color {
    Color { r: 45, g: 118, b: 237 }
}

/// The color text is drawn in on the desktop.
pub open spec fn fg_color() -> Color {
    Color { r: 255, g: 255, b: 255 }
}

/// The desktop's color at `q` on a screen of `size`: the task bar's button
/// outline, over the start area, over the task bar (the bottom 50 rows),
/// over the background; `None` outside those.
pub open spec fn desktop_pixel(size: Point, q: Point) -> Option<Color> {
    let bar = size.y - 50;
    if on_outline(
        Rectangle { pos: Point { x: 10, y: (size.y - 40) as i32 }, size: Point { x: 30, y: 30 } },
        q,
    ) {
        Some(Color { r: 160, g: 160, b: 160 })
    } else if 0 <= q.x < size.x / 5 && bar <= q.y < bar + 50 {
        Some(Color { r: 80, g: 80, b: 80 })
    } else if 0 <= q.x < size.x && bar <= q.y < bar + 50 {
        Some(Color { r: 1, g: 8, b: 17 })
    } else if 0 <= q.x < size.x && 0 <= q.y < bar {
        Some(bg_color())
    } else {
        None
    }
}

/// Draws the desktop for a screen of `size` on `drawer`.
pub fn draw(drawer: &mut BufferDrawer, size: Point)
    requires
        old(drawer)@.wf(),
        0 <= size.x <= 0x1000_0000,
        0 <= size.y <= 0x1000_0000,
    ensures
        final(drawer)@.wf(),
        old(drawer)@.same_layout(final(drawer)@),
        forall|q: Point| #[trigger]
            final(drawer)@.color_at(q) == (if desktop_pixel(size, q) is Some && old(drawer)@.area().contains_spec(q) {
                Some(old(drawer)@.drawer.shown(desktop_pixel(size, q).unwrap()))
            } else {
                old(drawer)@.color_at(q)
            }),
{
    drawer.fill_rect(
        Rectangle { pos: Point { x: 0, y: 0 }, size: Point { x: size.x, y: size.y - 50 } },
        Color::new(45, 118, 237),
    );
    drawer.fill_rect(
        Rectangle { pos: Point { x: 0, y: size.y - 50 }, size: Point { x: size.x, y: 50 } },
        Color::new(1, 8, 17),
    );
    drawer.fill_rect(
        Rectangle { pos: Point { x: 0, y: size.y - 50 }, size: Point { x: size.x / 5, y: 50 } },
        Color::new(80, 80, 80),
    );
    drawer.draw_rect(
        Rectangle { pos: Point { x: 10, y: size.y - 40 }, size: Point { x: 30, y: 30 } },
        Color::new(160, 160, 160),
    );
}

} // verus!
