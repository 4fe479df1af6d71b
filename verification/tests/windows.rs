use sabios::console::{to_draw_point, to_draw_rect, Console, RedrawArea as ConsoleRedraw, COLUMNS, ROWS};
use sabios::emergency_console::EmergencyConsole;
use sabios::framed_window::WindowEvent;
use sabios::terminal::Terminal;
use sabios::terminal_screen::{build_terminal_window, draw_cell, draw_cells};
use sabios::desktop;
use sabios::framed_window::{build_framed, FramedBuilder, PADDING_LEFT, PADDING_TOP};
use sabios::graphics::buffer_drawer::{BufferDrawer, PixelFormat, ScreenInfo};
use sabios::graphics::color::Color;
use sabios::graphics::font::{Font, FONT_A};
use sabios::graphics::geometry::{Point, Rectangle};
use sabios::keyboard::KeyboardEvent;
use sabios::layer::{Layer, LayerBuffer, LayerEvent, LayerId, LayerManager};
use sabios::mouse::{draw_cursor, mouse_step, MouseEvent, MouseState, MOUSE_LEFT, MOUSE_RIGHT};
use sabios::task::IdGenerator;
use sabios::text_window::{CounterWindow, TextWindow};
use sabios::window::{Builder, RedrawArea};

fn pt(x: i32, y: i32) -> Point {
    Point::new(x, y)
}

fn rect(x: i32, y: i32, w: i32, h: i32) -> Rectangle {
    Rectangle::new(pt(x, y), pt(w, h))
}

fn info(w: i32, h: i32) -> ScreenInfo {
    ScreenInfo { size: pt(w, h), bytes_per_pixel: 4, pixel_format: PixelFormat::Bgr }
}

fn font() -> Font {
    Font::from_glyphs(vec![FONT_A; 256]).unwrap()
}

fn solid_layer(ids: &mut IdGenerator, size: Point, c: Color, transparent: Option<Color>) -> Layer {
    let mut b = LayerBuffer::new(size, info(10, 10)).unwrap();
    b.fill_rect(rect(0, 0, size.x, size.y), c);
    b.set_transparent_color(transparent);
    Layer::new(ids, b)
}

fn back(w: i32, h: i32) -> BufferDrawer {
    BufferDrawer::new_shadow(pt(w, h), info(w, h)).unwrap()
}

#[test]
fn layer_ids_come_from_generator() {
    let mut ids = IdGenerator::new();
    assert_eq!(LayerId::new(&mut ids), LayerId(0));
    assert_eq!(LayerId::new(&mut ids), LayerId(1));
    assert_eq!(ids.next_id(), 2);
}

#[test]
fn layers_compose_bottom_to_top() {
    let mut ids = IdGenerator::new();
    let mut m = LayerManager::new(back(10, 10));
    let red = solid_layer(&mut ids, pt(4, 4), Color::red(), None);
    let mut blue = solid_layer(&mut ids, pt(4, 4), Color::blue(), None);
    blue.move_to(pt(2, 2));
    let (red_id, blue_id) = (red.id(), blue.id());
    m.register(red);
    m.register(blue);
    m.set_height(red_id, 0);
    m.set_height(blue_id, 1);
    m.draw_area(rect(0, 0, 10, 10));
    let b = m.back_buffer();
    assert_eq!(b.color_at(pt(0, 0)), Some(Color::red()));
    assert_eq!(b.color_at(pt(3, 3)), Some(Color::blue()));
    assert_eq!(b.color_at(pt(5, 5)), Some(Color::blue()));
    assert_eq!(b.color_at(pt(8, 8)), Some(Color::black()));
    let over: Vec<LayerId> = m.layers_by_pos(pt(3, 3));
    assert_eq!(over, vec![blue_id, red_id]);
    assert_eq!(m.layers_by_pos(pt(9, 9)), vec![]);
    assert_eq!(m.layer_area(blue_id), Some(rect(2, 2, 4, 4)));
    assert_eq!(m.layer_area(LayerId(77)), None);
}

#[test]
fn set_height_reorders_stack() {
    let mut ids = IdGenerator::new();
    let mut m = LayerManager::new(back(10, 10));
    let a = solid_layer(&mut ids, pt(4, 4), Color::red(), None);
    let b = solid_layer(&mut ids, pt(4, 4), Color::blue(), None);
    let (a_id, b_id) = (a.id(), b.id());
    m.register(a);
    m.register(b);
    m.set_height(a_id, 0);
    m.set_height(b_id, usize::MAX);
    assert_eq!(m.layers_by_pos(pt(1, 1)), vec![b_id, a_id]);
    m.set_height(a_id, usize::MAX);
    assert_eq!(m.layers_by_pos(pt(1, 1)), vec![a_id, b_id]);
    m.set_height(LayerId(99), 0);
    assert_eq!(m.layers_by_pos(pt(1, 1)), vec![a_id, b_id]);
    m.draw_area(rect(0, 0, 10, 10));
    assert_eq!(m.back_buffer().color_at(pt(1, 1)), Some(Color::red()));
}

#[test]
fn unshown_layer_is_not_drawn() {
    let mut ids = IdGenerator::new();
    let mut m = LayerManager::new(back(6, 6));
    let a = solid_layer(&mut ids, pt(4, 4), Color::red(), None);
    let a_id = a.id();
    m.register(a);
    assert_eq!(m.layers_by_pos(pt(1, 1)), vec![]);
    assert_eq!(m.draw_layer(a_id), Some(rect(0, 0, 4, 4)));
    assert_eq!(m.back_buffer().color_at(pt(1, 1)), Some(Color::black()));
    assert_eq!(m.draw_layer(LayerId(5)), None);
}

#[test]
fn transparent_color_shows_layer_below() {
    let mut ids = IdGenerator::new();
    let mut m = LayerManager::new(back(6, 6));
    let bottom = solid_layer(&mut ids, pt(6, 6), Color::green(), None);
    let mut top_buf = LayerBuffer::new(pt(6, 6), info(6, 6)).unwrap();
    top_buf.draw(pt(1, 1), Color::white());
    top_buf.set_transparent_color(Some(Color::black()));
    let top = Layer::new(&mut ids, top_buf);
    let (b_id, t_id) = (bottom.id(), top.id());
    m.register(bottom);
    m.register(top);
    m.set_height(b_id, 0);
    m.set_height(t_id, 1);
    m.draw_area(rect(0, 0, 6, 6));
    assert_eq!(m.back_buffer().color_at(pt(1, 1)), Some(Color::white()));
    assert_eq!(m.back_buffer().color_at(pt(2, 2)), Some(Color::green()));
}

#[test]
fn move_to_redraws_old_and_new_areas() {
    let mut ids = IdGenerator::new();
    let mut m = LayerManager::new(back(10, 10));
    let bg = solid_layer(&mut ids, pt(10, 10), Color::green(), None);
    let win = solid_layer(&mut ids, pt(2, 2), Color::red(), None);
    let (bg_id, win_id) = (bg.id(), win.id());
    m.register(bg);
    m.register(win);
    m.set_height(bg_id, 0);
    m.set_height(win_id, 1);
    m.draw_area(rect(0, 0, 10, 10));
    assert_eq!(m.back_buffer().color_at(pt(1, 1)), Some(Color::red()));
    let drawn = m.move_to(win_id, pt(5, 6));
    assert_eq!(drawn, vec![rect(0, 0, 2, 2), rect(5, 6, 2, 2)]);
    assert_eq!(m.back_buffer().color_at(pt(1, 1)), Some(Color::green()));
    assert_eq!(m.back_buffer().color_at(pt(6, 7)), Some(Color::red()));
    let drawn = m.move_relative(win_id, pt(-5, -6));
    assert_eq!(drawn, vec![rect(5, 6, 2, 2), rect(0, 0, 2, 2)]);
    assert_eq!(m.back_buffer().color_at(pt(6, 7)), Some(Color::green()));
    assert_eq!(m.move_to(LayerId(42), pt(0, 0)), vec![]);
}

#[test]
fn dragging_moves_draggable_layer() {
    let mut ids = IdGenerator::new();
    let mut m = LayerManager::new(back(20, 20));
    let mut win = solid_layer(&mut ids, pt(4, 4), Color::red(), None);
    win.set_draggable(true);
    win.move_to(pt(2, 2));
    let fixed = solid_layer(&mut ids, pt(3, 3), Color::blue(), None);
    let cursor = solid_layer(&mut ids, pt(1, 1), Color::white(), None);
    let (win_id, fixed_id, cursor_id) = (win.id(), fixed.id(), cursor.id());
    m.register(win);
    m.register(fixed);
    m.register(cursor);
    m.set_height(win_id, 0);
    m.set_height(fixed_id, 1);
    m.set_height(cursor_id, 2);
    m.move_to(cursor_id, pt(3, 3));
    assert_eq!(m.drag_target(pt(3, 3), cursor_id), Some(win_id));
    assert_eq!(m.drag_target(pt(1, 1), cursor_id), None);
    assert_eq!(m.drag_target(pt(15, 15), cursor_id), None);

    let mut drag: Option<LayerId> = None;
    let press = MouseEvent { down: MOUSE_LEFT, up: 0, pos: pt(3, 3), pos_diff: pt(0, 0) };
    assert!(m.handle_mouse(&mut drag, cursor_id, press).is_empty());
    assert_eq!(drag, Some(win_id));
    let motion = MouseEvent { down: 0, up: 0, pos: pt(6, 5), pos_diff: pt(3, 2) };
    let drawn = m.handle_event(&mut drag, LayerEvent::MouseEvent { cursor_layer_id: cursor_id, event: motion });
    assert_eq!(drawn, vec![rect(2, 2, 4, 4), rect(5, 4, 4, 4)]);
    assert_eq!(m.layer_area(win_id), Some(rect(5, 4, 4, 4)));
    let release = MouseEvent { down: 0, up: MOUSE_LEFT, pos: pt(6, 5), pos_diff: pt(0, 0) };
    assert!(m.handle_mouse(&mut drag, cursor_id, release).is_empty());
    assert_eq!(drag, None);

    let press_fixed = MouseEvent { down: MOUSE_LEFT, up: 0, pos: pt(1, 1), pos_diff: pt(0, 0) };
    m.handle_mouse(&mut drag, cursor_id, press_fixed);
    assert_eq!(drag, None);
}

#[test]
fn layer_events_dispatch() {
    let mut ids = IdGenerator::new();
    let mut m = LayerManager::new(back(8, 8));
    let mut drag = None;
    let l = solid_layer(&mut ids, pt(2, 2), Color::red(), None);
    let id = l.id();
    assert!(m.handle_event(&mut drag, LayerEvent::Register { layer: l }).is_empty());
    assert!(m.handle_event(&mut drag, LayerEvent::SetHeight { layer_id: id, height: 0 }).is_empty());
    assert_eq!(m.handle_event(&mut drag, LayerEvent::DrawLayer { layer_id: id }), vec![rect(0, 0, 2, 2)]);
    assert_eq!(m.back_buffer().color_at(pt(1, 1)), Some(Color::red()));
    assert_eq!(
        m.handle_event(&mut drag, LayerEvent::MoveTo { layer_id: id, pos: pt(4, 4) }),
        vec![rect(0, 0, 2, 2), rect(4, 4, 2, 2)]
    );
    assert_eq!(m.back_buffer().color_at(pt(5, 5)), Some(Color::red()));
    // No layer covers the old place: the back buffer keeps what it had.
    assert_eq!(m.back_buffer().color_at(pt(1, 1)), Some(Color::red()));
    assert_eq!(drag, None);
}

#[test]
fn set_layer_buffer_replaces_pixels() {
    let mut ids = IdGenerator::new();
    let mut m = LayerManager::new(back(4, 4));
    let l = solid_layer(&mut ids, pt(2, 2), Color::red(), None);
    let id = l.id();
    m.register(l);
    m.set_height(id, 0);
    let mut nb = LayerBuffer::new(pt(2, 2), info(4, 4)).unwrap();
    nb.fill_rect(rect(0, 0, 2, 2), Color::blue());
    m.set_layer_buffer(id, nb);
    m.draw_layer(id);
    assert_eq!(m.back_buffer().color_at(pt(0, 0)), Some(Color::blue()));
}

#[test]
fn mouse_step_clamps_to_screen() {
    let screen = rect(0, 0, 100, 50);
    let s = MouseState { cursor_pos: pt(98, 10), buttons: 0 };
    let (s1, e1, moved) = mouse_step(s, MOUSE_LEFT | 0xf0, 10, -20, screen);
    assert_eq!(s1.cursor_pos, pt(99, 0));
    assert_eq!(s1.buttons, MOUSE_LEFT);
    assert_eq!(e1.down, MOUSE_LEFT);
    assert_eq!(e1.up, 0);
    assert_eq!(e1.pos, pt(99, 0));
    assert_eq!(e1.pos_diff, pt(1, -10));
    assert!(moved);
    let (s2, e2, moved2) = mouse_step(s1, MOUSE_RIGHT, 0, 0, screen);
    assert_eq!(s2.cursor_pos, pt(99, 0));
    assert_eq!(e2.down, MOUSE_RIGHT);
    assert_eq!(e2.up, MOUSE_LEFT);
    assert!(!moved2);
    let (s3, _, _) = mouse_step(s2, 0, -128, 127, screen);
    assert_eq!(s3.cursor_pos, pt(0, 49));
}

#[test]
fn mouse_cursor_shape() {
    let mut d = back(20, 30);
    draw_cursor(&mut d);
    assert_eq!(d.color_at(pt(0, 0)), Some(Color::black()));
    assert_eq!(d.color_at(pt(1, 1)), Some(Color::black()));
    assert_eq!(d.color_at(pt(1, 2)), Some(Color::white()));
    assert_eq!(d.color_at(pt(14, 0)), Some(Color::red()));
    assert_eq!(d.color_at(pt(16, 0)), Some(Color::black()));
}

#[test]
fn console_writes_and_wraps() {
    let mut c = Console::new(Color::white(), Color::black());
    assert_eq!(c.fg(), Color::white());
    assert_eq!(c.bg(), Color::black());
    let r = c.write_str("ab\ncd");
    assert_eq!(&c.row(0)[..3], b"ab\0");
    assert_eq!(&c.row(1)[..3], b"cd\0");
    assert_eq!(r.area, rect(0, 0, 2, 2));
    assert!(!r.fill_bg);
    assert_eq!(r.scroll, 0);
    let long: String = "x".repeat(COLUMNS);
    let r2 = c.write_str(&long);
    // The last column stays empty: a write there starts a new row first.
    assert_eq!(c.row(1)[COLUMNS - 2], b'x');
    assert_eq!(c.row(1)[COLUMNS - 1], 0);
    assert_eq!(&c.row(2)[..4], b"xxx\0");
    assert_eq!(r2.area, rect(0, 1, COLUMNS as i32 - 1, 2));
}

#[test]
fn console_scrolls_at_bottom() {
    let mut c = Console::new(Color::white(), Color::black());
    let mut text = String::new();
    for i in 0..ROWS {
        text.push((b'a' + i as u8) as char);
        text.push('\n');
    }
    let r = c.write_str(&text);
    assert_eq!(r.scroll, 1);
    assert_eq!(c.row(0)[0], b'b');
    assert_eq!(c.row(ROWS - 2)[0], b'a' + (ROWS as u8) - 1);
    assert_eq!(c.row(ROWS - 1)[0], 0);
    let wide = c.write_str("\u{3042}");
    assert_eq!(c.row(ROWS - 1)[0], b'?');
    assert_eq!(wide.area, rect(0, (ROWS - 1) as i32, 1, 1));
}

#[test]
fn console_redraw_area_steps() {
    let mut r = ConsoleRedraw::new();
    r.add(pt(3, 4));
    assert_eq!(r.area, rect(3, 4, 1, 1));
    r.add(pt(1, 6));
    assert_eq!(r.area, rect(1, 4, 3, 3));
    r.scroll();
    assert_eq!(r.area, rect(1, 3, 3, 3));
    assert_eq!(r.scroll, 1);
    let all = ConsoleRedraw::all(true);
    assert_eq!(all.area, rect(0, 0, COLUMNS as i32, ROWS as i32));
    assert!(all.fill_bg);
}

#[test]
fn console_redraw_paints_text() {
    let mut c = Console::new(Color::white(), Color::blue());
    let r = c.write_str("A");
    let mut d = back(40, 40);
    c.redraw(&mut d, &font(), r);
    assert_eq!(d.color_at(pt(3, 1)), Some(Color::white()));
    assert_eq!(d.color_at(pt(0, 0)), Some(Color::black()));
    let mut e = back(40, 40);
    c.redraw(&mut e, &font(), ConsoleRedraw::all(true));
    assert_eq!(e.color_at(pt(0, 0)), Some(Color::blue()));
    assert_eq!(e.color_at(pt(3, 1)), Some(Color::white()));
}

#[test]
fn window_redraw_area_grows_and_clips() {
    let mut r = RedrawArea::new(pt(10, 10));
    assert_eq!(r.take(), None);
    r.add_point(pt(2, 3));
    r.add_rect(rect(8, 8, 5, 5));
    assert_eq!(r.redraw_area, Some(rect(2, 3, 8, 7)));
    r.add_rect(rect(20, 20, 3, 3));
    assert_eq!(r.take(), Some(rect(2, 3, 8, 7)));
    assert_eq!(r.redraw_area, None);
}

#[test]
fn builder_builds_window_and_layer() {
    let mut ids = IdGenerator::new();
    let mut b = Builder::new();
    b.size(pt(6, 5)).pos(pt(3, 4)).draggable(true).transparent_color(Some(Color::red())).height(2);
    assert_eq!(b.height, Some(2));
    let (mut w, layer) = b.build(&mut ids, info(6, 5)).unwrap();
    assert_eq!(w.get_layer_id(), layer.id());
    assert_eq!(w.size(), pt(6, 5));
    assert_eq!(layer.area(), rect(3, 4, 6, 5));
    w.draw(pt(1, 1), Color::green());
    w.fill_rect(rect(4, 3, 10, 10), Color::blue());
    assert_eq!(w.buffer().buffer().color_at(pt(1, 1)), Some(Color::green()));
    assert_eq!(w.buffer().buffer().color_at(pt(5, 4)), Some(Color::blue()));
    assert_eq!(w.take_redraw_area(), Some(rect(1, 1, 5, 4)));
    assert_eq!(w.take_redraw_area(), None);
    w.move_area(pt(-1, 0), rect(1, 1, 1, 1));
    assert_eq!(w.buffer().buffer().color_at(pt(0, 1)), Some(Color::green()));
    let f = font();
    assert_eq!(w.draw_byte_str(&f, pt(0, 0), b"A", Color::white()), rect(0, 0, 8, 16));
    assert_eq!(w.draw_chars(&f, pt(0, 0), &vec!['A', 'A'], Color::white()), rect(0, 0, 16, 16));
    let bad = ScreenInfo { size: pt(6, 5), bytes_per_pixel: 4, pixel_format: PixelFormat::Unknown };
    assert!(Builder::new().build(&mut ids, bad).is_err());
}

#[test]
fn framed_window_offsets_content() {
    let mut ids = IdGenerator::new();
    let f = font();
    let builder = FramedBuilder::new("hi".chars().collect()).size(pt(40, 20)).pos(pt(7, 8));
    assert_eq!(builder.inner.size, pt(48, 48));
    let (mut w, layer) = build_framed(builder, &mut ids, info(100, 100), &f).unwrap();
    assert_eq!(layer.area(), rect(7, 8, 48, 48));
    assert_eq!(w.size(), pt(40, 20));
    assert_eq!(w.area(), rect(0, 0, 40, 20));
    w.draw(pt(0, 0), Color::red());
    let pixels = w.window().buffer().buffer();
    assert_eq!(pixels.color_at(pt(PADDING_LEFT, PADDING_TOP)), Some(Color::red()));
    // The frame's outer top-left line is light gray and the title bar inactive.
    assert_eq!(pixels.color_at(pt(0, 0)), Some(Color::new(0xc6, 0xc6, 0xc6)));
    assert!(w.activate(&f));
    assert!(!w.activate(&f));
    assert!(w.deactivate(&f));
    assert!(!w.deactivate(&f));
    w.fill_rect(rect(0, 0, 2, 2), Color::blue());
    assert_eq!(w.window().buffer().buffer().color_at(pt(PADDING_LEFT + 1, PADDING_TOP + 1)), Some(Color::blue()));
    w.draw(pt(40, 0), Color::green());
    assert_ne!(w.window().buffer().buffer().color_at(pt(PADDING_LEFT + 40, PADDING_TOP)), Some(Color::green()));
}

#[test]
fn text_window_types_and_erases() {
    let mut ids = IdGenerator::new();
    let f = font();
    let (mut t, layer) = TextWindow::new("text".chars().collect(), pt(10, 10), &mut ids, info(200, 100), &f).unwrap();
    assert_eq!(layer.area().pos, pt(10, 10));
    assert_eq!(t.insert_pos(), pt(4, 6));
    t.handle_event(KeyboardEvent { modifier: 0, keycode: 4, ascii: 'a' }, &f);
    assert_eq!(t.insert_pos(), pt(12, 6));
    t.handle_event(KeyboardEvent { modifier: 0, keycode: 0x2a, ascii: '\x08' }, &f);
    assert_eq!(t.insert_pos(), pt(4, 6));
    t.handle_event(KeyboardEvent { modifier: 0, keycode: 0x2a, ascii: '\x08' }, &f);
    assert_eq!(t.insert_pos(), pt(4, 6));
    for _ in 0..30 {
        t.handle_event(KeyboardEvent { modifier: 0, keycode: 4, ascii: 'a' }, &f);
    }
    assert_eq!(t.insert_pos(), pt(4 + 8 * 18, 6));
    t.handle_timeout();
    t.draw_text_box();
}

#[test]
fn counter_window_counts() {
    let mut ids = IdGenerator::new();
    let f = font();
    let (mut c, _layer) = CounterWindow::new("count".chars().collect(), pt(0, 0), &mut ids, info(200, 100), &f).unwrap();
    c.handle_yield(&f);
    c.handle_yield(&f);
}

#[test]
fn desktop_colors() {
    let mut d = back(100, 100);
    desktop::draw(&mut d, pt(100, 100));
    assert_eq!(d.color_at(pt(50, 10)), Some(Color::new(45, 118, 237)));
    assert_eq!(d.color_at(pt(50, 60)), Some(Color::new(1, 8, 17)));
    assert_eq!(d.color_at(pt(5, 55)), Some(Color::new(80, 80, 80)));
    assert_eq!(d.color_at(pt(10, 60)), Some(Color::new(160, 160, 160)));
}

#[test]
fn window_events_for_framed_window() {
    let mut ids = IdGenerator::new();
    let f = font();
    let (mut w, _layer) =
        build_framed(FramedBuilder::new("w".chars().collect()).size(pt(40, 20)), &mut ids, info(100, 100), &f).unwrap();
    let k = KeyboardEvent { modifier: 0, keycode: 4, ascii: 'a' };
    assert_eq!(w.recv_event(WindowEvent::Keyboard(k), &f), (Some(k), false));
    assert_eq!(w.recv_event(WindowEvent::Activated, &f), (None, true));
    assert_eq!(w.recv_event(WindowEvent::Activated, &f), (None, false));
    // The active title bar is dark blue.
    assert_eq!(w.window().buffer().buffer().color_at(pt(5, 5)), Some(Color::new(0, 0, 0x84)));
    assert_eq!(w.recv_event(WindowEvent::Deactivated, &f), (None, true));
    assert_eq!(w.window().buffer().buffer().color_at(pt(5, 5)), Some(Color::new(0x84, 0x84, 0x84)));
}

#[test]
fn terminal_cells_drawn_in_window() {
    let mut ids = IdGenerator::new();
    let f = font();
    let (mut w, layer) =
        build_terminal_window("t".chars().collect(), pt(3, 4), pt(4, 2), &mut ids, info(200, 200), &f).unwrap();
    assert_eq!(layer.area(), rect(3, 4, 8 * 4 + 8 + 8, 16 * 2 + 8 + 28));
    assert_eq!(w.size(), pt(40, 40));
    let mut t = Terminal::new(pt(4, 2));
    t.print_str("A");
    t.handle_timeout();
    draw_cells(&t, &mut w, &f);
    let px = |w: &sabios::framed_window::FramedWindow, x: i32, y: i32| {
        w.window().buffer().buffer().color_at(pt(x + PADDING_LEFT + 4, y + PADDING_TOP + 4))
    };
    // Glyph A: row 1 sets columns 3 and 4.
    assert_eq!(px(&w, 3, 1), Some(Color::white()));
    assert_eq!(px(&w, 2, 1), Some(Color::black()));
    // The cursor block in cell 1 is 7x15.
    assert_eq!(px(&w, 8, 0), Some(Color::white()));
    assert_eq!(px(&w, 14, 14), Some(Color::white()));
    assert_eq!(px(&w, 15, 0), Some(Color::black()));
    assert_eq!(px(&w, 8, 15), Some(Color::black()));
    // Blank cells are black.
    assert_eq!(px(&w, 20, 20), Some(Color::black()));
    t.delete_backward();
    draw_cell(&t, &mut w, &f, 0, 0);
    assert_eq!(px(&w, 3, 1), Some(Color::black()));
    assert_eq!(px(&w, 8, 0), Some(Color::white()));
}

#[test]
fn emergency_console_writes_red_on_white() {
    let f = font();
    let mut d = back(20, 40);
    let mut c = EmergencyConsole::new(pt(20, 40));
    c.write_str(&mut d, &f, "AA\nA");
    // After the second A the next cell would not fit the 20 pixel row; the
    // new line then starts another row.
    assert_eq!(c.pos, pt(8, 32));
    assert_eq!(d.color_at(pt(3, 1)), Some(Color::red()));
    assert_eq!(d.color_at(pt(0, 0)), Some(Color::white()));
    assert_eq!(d.color_at(pt(11, 1)), Some(Color::red()));
    assert_eq!(d.color_at(pt(9, 0)), Some(Color::white()));
    assert_eq!(d.color_at(pt(17, 0)), Some(Color::black()));
    assert_eq!(d.color_at(pt(3, 17)), Some(Color::black()));
    assert_eq!(d.color_at(pt(3, 33)), Some(Color::red()));
    assert_eq!(d.color_at(pt(0, 33)), Some(Color::white()));
}

#[test]
fn console_cell_geometry() {
    assert_eq!(to_draw_point(pt(3, 2)), pt(24, 32));
    assert_eq!(to_draw_rect(rect(1, 2, 3, 4)), rect(8, 32, 24, 64));
}

#[test]
fn framed_window_flush_area_covers_drawing() {
    let mut ids = IdGenerator::new();
    let f = font();
    let (mut w, _layer) =
        build_framed(FramedBuilder::new("w".chars().collect()).size(pt(40, 20)), &mut ids, info(100, 100), &f).unwrap();
    // Drawing the frame marks the whole window.
    assert_eq!(w.take_redraw_area(), Some(rect(0, 0, 48, 48)));
    assert_eq!(w.take_redraw_area(), None);
    w.fill_rect(rect(1, 2, 3, 4), Color::blue());
    assert_eq!(w.take_redraw_area(), Some(rect(PADDING_LEFT + 1, PADDING_TOP + 2, 3, 4)));
    w.draw(pt(0, 0), Color::red());
    w.draw(pt(5, 6), Color::red());
    assert_eq!(w.take_redraw_area(), Some(rect(PADDING_LEFT, PADDING_TOP, 6, 7)));
    // Nothing is marked for a point outside the content area.
    w.draw(pt(40, 0), Color::green());
    assert_eq!(w.take_redraw_area(), None);
}

#[test]
fn console_redraw_area_grows_past_the_grid() {
    let mut r = ConsoleRedraw::new();
    r.add(pt(100, 40));
    assert_eq!(r.area, rect(100, 40, 1, 1));
    r.add(pt(2, 300));
    assert_eq!(r.area, rect(2, 40, 99, 261));
    r.scroll();
    assert_eq!(r.area, rect(2, 39, 99, 261));
    assert_eq!(r.scroll, 1);
    let mut top = ConsoleRedraw::new();
    top.add(pt(0, 0));
    top.scroll();
    assert_eq!(top.area, rect(0, 0, 1, 0));
}

#[test]
fn mouse_step_brings_outside_cursor_onto_screen() {
    // The start position (300, 200) on a screen of 200 x 100.
    let screen = rect(0, 0, 200, 100);
    let s = MouseState { cursor_pos: pt(300, 200), buttons: 0 };
    let (s1, e1, moved) = mouse_step(s, 0, 0, 0, screen);
    assert_eq!(s1.cursor_pos, pt(199, 99));
    assert_eq!(e1.pos_diff, pt(-101, -101));
    assert!(moved);
}
