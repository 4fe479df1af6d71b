use sabios::error::ErrorKind;
use sabios::graphics::buffer_drawer::{select_pixel_drawer, BufferDrawer, PixelDrawer, PixelFormat, ScreenInfo};
use sabios::graphics::color::Color;
use sabios::graphics::font::{char_to_byte, draw_ascii, draw_byte_char, draw_str, Font, FONT_A};
use sabios::graphics::geometry::{Point, Rectangle};

fn pt(x: i32, y: i32) -> Point {
    Point::new(x, y)
}

fn rect(x: i32, y: i32, w: i32, h: i32) -> Rectangle {
    Rectangle::new(pt(x, y), pt(w, h))
}

fn shadow(w: i32, h: i32, format: PixelFormat) -> BufferDrawer {
    let info = ScreenInfo { size: pt(w, h), bytes_per_pixel: 4, pixel_format: format };
    BufferDrawer::new_shadow(pt(w, h), info).unwrap()
}

#[test]
fn point_arithmetic() {
    let a = pt(3, -4);
    let b = pt(5, 2);
    assert_eq!(a.plus(b), pt(8, -2));
    assert_eq!(a.minus(b), pt(-2, -6));
    assert_eq!(a.times(b), pt(15, -8));
    assert_eq!(a.neg(), pt(-3, 4));
    assert_eq!(Point::elem_max(a, b), pt(5, 2));
    assert_eq!(Point::elem_min(a, b), pt(3, -4));
}

#[test]
fn point_clamp_to_rectangle() {
    let r = rect(10, 20, 5, 5);
    assert_eq!(pt(0, 0).clamp(r), Some(pt(10, 20)));
    assert_eq!(pt(100, 22).clamp(r), Some(pt(14, 22)));
    assert_eq!(pt(12, 23).clamp(r), Some(pt(12, 23)));
    assert_eq!(pt(12, 23).clamp(rect(0, 0, 0, 3)), None);
}

#[test]
fn rectangle_edges_and_contains() {
    let r = rect(1, 2, 3, 4);
    assert_eq!(r.x_start(), 1);
    assert_eq!(r.y_start(), 2);
    assert_eq!(r.x_end(), 4);
    assert_eq!(r.y_end(), 6);
    assert_eq!(r.end_pos(), pt(4, 6));
    assert!(r.contains(&pt(1, 2)));
    assert!(r.contains(&pt(3, 5)));
    assert!(!r.contains(&pt(4, 5)));
    assert!(!r.contains(&pt(3, 6)));
    assert!(!r.contains(&pt(0, 3)));
}

#[test]
fn rectangle_from_points() {
    assert_eq!(Rectangle::from_points(pt(1, 1), pt(4, 3)), Some(rect(1, 1, 3, 2)));
    assert_eq!(Rectangle::from_points(pt(1, 1), pt(1, 1)), Some(rect(1, 1, 0, 0)));
    assert_eq!(Rectangle::from_points(pt(5, 1), pt(4, 3)), None);
}

#[test]
fn rectangle_translate() {
    assert_eq!(rect(1, 2, 3, 4).translate(pt(-2, 5)), rect(-1, 7, 3, 4));
}

#[test]
fn rectangle_intersection_and_union() {
    let a = rect(0, 0, 10, 10);
    let b = rect(5, 6, 10, 10);
    assert_eq!(a.intersection(b), Some(rect(5, 6, 5, 4)));
    assert_eq!(a.intersection(rect(10, 0, 3, 3)), None);
    assert_eq!(a.union(b), rect(0, 0, 15, 16));
    assert_eq!(a.extend_to_contain(pt(-2, 12)), rect(-2, 0, 12, 13));
    assert_eq!(a.extend_to_contain(pt(3, 3)), a);
}

#[test]
fn colors() {
    assert_eq!(Color::from_code(0x123456), Color::new(0x12, 0x34, 0x56));
    assert_eq!(Color::red(), Color::new(255, 0, 0));
    assert_eq!(Color::green(), Color::new(0, 255, 0));
    assert_eq!(Color::blue(), Color::new(0, 0, 255));
    assert_eq!(Color::black(), Color::new(0, 0, 0));
    assert_eq!(Color::white(), Color::new(255, 255, 255));
    assert_eq!(Color::new(30, 60, 91).to_grayscale(), 60);
    assert_eq!(Color::white().to_grayscale(), 255);
    assert_eq!(Color::from_grayscale(7), Color::new(7, 7, 7));
}

#[test]
fn pixel_drawer_selection() {
    assert_eq!(select_pixel_drawer(PixelFormat::Rgb), Ok(PixelDrawer::Rgb));
    assert_eq!(select_pixel_drawer(PixelFormat::Bgr), Ok(PixelDrawer::Bgr));
    assert_eq!(select_pixel_drawer(PixelFormat::U8), Ok(PixelDrawer::U8));
    assert_eq!(select_pixel_drawer(PixelFormat::Unknown).unwrap_err().kind, ErrorKind::UnsupportedPixelFormat);
}

#[test]
fn pixel_drawer_byte_order() {
    let mut bytes = vec![0u8; 8];
    PixelDrawer::Bgr.pixel_draw(&mut bytes, 4, Color::new(1, 2, 3));
    assert_eq!(bytes, vec![0, 0, 0, 0, 3, 2, 1, 0]);
    assert_eq!(PixelDrawer::Bgr.color_at(&bytes, 4), Color::new(1, 2, 3));
    assert_eq!(PixelDrawer::Rgb.color_at(&bytes, 4), Color::new(3, 2, 1));
    PixelDrawer::Rgb.pixel_draw(&mut bytes, 0, Color::new(9, 8, 7));
    assert_eq!(bytes, vec![9, 8, 7, 0, 3, 2, 1, 0]);
    PixelDrawer::U8.pixel_draw(&mut bytes, 3, Color::new(3, 6, 9));
    assert_eq!(bytes[3], 6);
}

#[test]
fn shadow_buffer_errors() {
    let info = ScreenInfo { size: pt(4, 4), bytes_per_pixel: 4, pixel_format: PixelFormat::Rgb };
    assert_eq!(BufferDrawer::new_shadow(pt(-1, 4), info).err().unwrap().kind, ErrorKind::TryFromInt);
    let unknown = ScreenInfo { size: pt(4, 4), bytes_per_pixel: 4, pixel_format: PixelFormat::Unknown };
    assert_eq!(
        BufferDrawer::new_shadow(pt(2, 2), unknown).err().unwrap().kind,
        ErrorKind::UnsupportedPixelFormat
    );
    assert_eq!(
        BufferDrawer::new_common(pt(2, 2), 2, 4, PixelFormat::Unknown, vec![0u8; 16]).err().unwrap().kind,
        ErrorKind::UnsupportedPixelFormat
    );
}

#[test]
fn shadow_buffer_layout() {
    let d = shadow(5, 3, PixelFormat::Bgr);
    assert_eq!(d.size(), pt(5, 3));
    assert_eq!(d.area(), rect(0, 0, 5, 3));
    let info = d.info();
    assert_eq!(info.size, pt(5, 3));
    assert_eq!(info.bytes_per_pixel, 4);
    assert_eq!(info.pixel_format, PixelFormat::Bgr);
    assert_eq!(d.pixel_index(pt(2, 1)), Some(28));
    assert_eq!(d.pixel_index(pt(5, 1)), None);
    assert_eq!(d.pixel_index(pt(0, -1)), None);
    assert_eq!(d.color_at(pt(4, 2)), Some(Color::black()));
}

#[test]
fn draw_then_color_at() {
    let mut d = shadow(4, 4, PixelFormat::Rgb);
    d.draw(pt(1, 2), Color::new(10, 20, 30));
    assert_eq!(d.color_at(pt(1, 2)), Some(Color::new(10, 20, 30)));
    assert_eq!(d.color_at(pt(2, 1)), Some(Color::black()));
    d.draw(pt(4, 0), Color::white());
    assert_eq!(d.color_at(pt(4, 0)), None);
    assert_eq!(d.color_at(pt(3, 0)), Some(Color::black()));
}

#[test]
fn draw_on_gray_buffer_shows_gray() {
    let mut d = shadow(2, 2, PixelFormat::U8);
    d.draw(pt(0, 0), Color::new(30, 60, 90));
    assert_eq!(d.color_at(pt(0, 0)), Some(Color::new(60, 60, 60)));
}

#[test]
fn fill_rect_paints_inside_only() {
    let mut d = shadow(4, 4, PixelFormat::Rgb);
    d.fill_rect(rect(1, 1, 2, 2), Color::red());
    assert_eq!(d.color_at(pt(1, 1)), Some(Color::red()));
    assert_eq!(d.color_at(pt(2, 2)), Some(Color::red()));
    assert_eq!(d.color_at(pt(0, 0)), Some(Color::black()));
    assert_eq!(d.color_at(pt(3, 2)), Some(Color::black()));
    d.fill_rect(rect(-5, -5, 100, 100), Color::blue());
    assert_eq!(d.color_at(pt(3, 3)), Some(Color::blue()));
}

#[test]
fn draw_rect_paints_outline() {
    let mut d = shadow(5, 4, PixelFormat::Rgb);
    d.draw_rect(rect(0, 0, 4, 3), Color::green());
    for (x, y) in [(0, 0), (3, 0), (0, 2), (3, 2), (1, 0), (0, 1), (3, 1), (2, 2)] {
        assert_eq!(d.color_at(pt(x, y)), Some(Color::green()));
    }
    assert_eq!(d.color_at(pt(1, 1)), Some(Color::black()));
    assert_eq!(d.color_at(pt(4, 0)), Some(Color::black()));
    assert_eq!(d.color_at(pt(0, 3)), Some(Color::black()));
    d.draw_rect(rect(1, 1, 0, 3), Color::red());
    assert_eq!(d.color_at(pt(1, 1)), Some(Color::black()));
}

#[test]
fn draw_box_edges() {
    let mut d = shadow(6, 6, PixelFormat::Rgb);
    let bg = Color::new(1, 1, 1);
    let tl = Color::white();
    let br = Color::new(2, 2, 2);
    d.draw_box(rect(1, 1, 3, 3), bg, tl, br);
    assert_eq!(d.color_at(pt(2, 2)), Some(bg));
    assert_eq!(d.color_at(pt(1, 1)), Some(tl));
    assert_eq!(d.color_at(pt(3, 1)), Some(tl));
    assert_eq!(d.color_at(pt(1, 3)), Some(tl));
    assert_eq!(d.color_at(pt(1, 4)), Some(br));
    assert_eq!(d.color_at(pt(4, 1)), Some(br));
    assert_eq!(d.color_at(pt(3, 4)), Some(br));
    assert_eq!(d.color_at(pt(4, 4)), Some(Color::black()));
    assert_eq!(d.color_at(pt(0, 0)), Some(Color::black()));
}

#[test]
fn move_area_copies_pixels() {
    let mut d = shadow(4, 4, PixelFormat::Rgb);
    d.draw(pt(0, 0), Color::red());
    d.draw(pt(1, 0), Color::green());
    d.move_area(pt(1, 2), rect(0, 0, 2, 1));
    assert_eq!(d.color_at(pt(1, 2)), Some(Color::red()));
    assert_eq!(d.color_at(pt(2, 2)), Some(Color::green()));
    assert_eq!(d.color_at(pt(0, 0)), Some(Color::red()));
    assert_eq!(d.color_at(pt(3, 2)), Some(Color::black()));
}

#[test]
fn move_area_scrolls_up_overlapping() {
    let mut d = shadow(2, 3, PixelFormat::Rgb);
    d.draw(pt(0, 1), Color::red());
    d.draw(pt(0, 2), Color::blue());
    d.move_area(pt(0, -1), rect(0, 1, 2, 2));
    assert_eq!(d.color_at(pt(0, 0)), Some(Color::red()));
    assert_eq!(d.color_at(pt(0, 1)), Some(Color::blue()));
    assert_eq!(d.color_at(pt(0, 2)), Some(Color::blue()));
}

#[test]
fn move_area_zero_offset_does_nothing() {
    let mut d = shadow(2, 2, PixelFormat::Rgb);
    d.draw(pt(1, 1), Color::red());
    d.move_area(pt(0, 0), rect(0, 0, 2, 2));
    assert_eq!(d.color_at(pt(1, 1)), Some(Color::red()));
    assert_eq!(d.color_at(pt(0, 0)), Some(Color::black()));
}

#[test]
fn copy_places_source_at_position() {
    let mut dst = shadow(4, 4, PixelFormat::Rgb);
    let mut src = shadow(2, 2, PixelFormat::Rgb);
    src.fill_rect(rect(0, 0, 2, 2), Color::red());
    src.draw(pt(1, 1), Color::blue());
    dst.copy(pt(1, 1), &src);
    assert_eq!(dst.color_at(pt(1, 1)), Some(Color::red()));
    assert_eq!(dst.color_at(pt(2, 2)), Some(Color::blue()));
    assert_eq!(dst.color_at(pt(0, 0)), Some(Color::black()));
    assert_eq!(dst.color_at(pt(3, 3)), Some(Color::black()));
    dst.copy(pt(3, 3), &src);
    assert_eq!(dst.color_at(pt(3, 3)), Some(Color::red()));
}

#[test]
fn clone_drawer_keeps_pixels() {
    let mut d = shadow(3, 3, PixelFormat::Bgr);
    d.draw(pt(2, 1), Color::new(5, 6, 7));
    let c = d.clone_drawer();
    assert_eq!(c.size(), pt(3, 3));
    assert_eq!(c.color_at(pt(2, 1)), Some(Color::new(5, 6, 7)));
}

#[test]
fn font_needs_256_glyphs() {
    assert!(Font::from_glyphs(vec![FONT_A; 255]).is_none());
    let f = Font::from_glyphs(vec![FONT_A; 256]).unwrap();
    assert_eq!(f.glyph(b'Z'), FONT_A);
}

#[test]
fn char_to_byte_maps_wide_characters_to_question_mark() {
    assert_eq!(char_to_byte('A'), 0x41);
    assert_eq!(char_to_byte('\u{ff}'), 0xff);
    assert_eq!(char_to_byte('\u{3042}'), b'?');
}

#[test]
fn draw_byte_char_sets_glyph_pixels() {
    let font = Font::from_glyphs(vec![FONT_A; 256]).unwrap();
    let mut d = shadow(10, 16, PixelFormat::Rgb);
    let r = draw_byte_char(&mut d, &font, pt(1, 0), b'A', Color::white());
    assert_eq!(r, rect(1, 0, 8, 16));
    // Row 1 of the glyph is 0b00011000: columns 3 and 4 of the glyph.
    assert_eq!(d.color_at(pt(4, 1)), Some(Color::white()));
    assert_eq!(d.color_at(pt(5, 1)), Some(Color::white()));
    assert_eq!(d.color_at(pt(3, 1)), Some(Color::black()));
    assert_eq!(d.color_at(pt(1, 0)), Some(Color::black()));
    // Row 13 is 0b11100111.
    assert_eq!(d.color_at(pt(1, 13)), Some(Color::white()));
    assert_eq!(d.color_at(pt(4, 13)), Some(Color::black()));
}

#[test]
fn draw_str_returns_occupied_rectangle() {
    let font = Font::from_glyphs(vec![FONT_A; 256]).unwrap();
    let mut d = shadow(20, 16, PixelFormat::Rgb);
    assert_eq!(draw_str(&mut d, &font, pt(2, 0), "ab", Color::red()), rect(2, 0, 16, 16));
    assert_eq!(d.color_at(pt(2 + 8 + 3, 1)), Some(Color::red()));
    assert_eq!(draw_str(&mut d, &font, pt(2, 0), "", Color::red()), rect(2, 0, 0, 0));
}

#[test]
fn draw_ascii_draws_only_a() {
    let mut d = shadow(8, 16, PixelFormat::Rgb);
    assert_eq!(draw_ascii(&mut d, pt(0, 0), b'B', Color::white(), false), Ok(()));
    assert_eq!(d.color_at(pt(3, 1)), Some(Color::black()));
    assert_eq!(draw_ascii(&mut d, pt(0, 0), b'A', Color::white(), false), Ok(()));
    assert_eq!(d.color_at(pt(3, 1)), Some(Color::white()));
    assert_eq!(d.color_at(pt(0, 13)), Some(Color::white()));
    assert_eq!(d.color_at(pt(0, 0)), Some(Color::black()));
}

#[test]
fn color_text_is_hash_and_hex() {
    let c = Color::new(0x12, 0xab, 0x05).to_text();
    assert_eq!(c.iter().collect::<String>(), "#12ab05");
    assert_eq!(Color::white().to_text().iter().collect::<String>(), "#ffffff");
    assert_eq!(Color::black().to_text().iter().collect::<String>(), "#000000");
}

#[test]
fn draw_ascii_past_the_edge_succeeds() {
    let mut d = shadow(8, 16, PixelFormat::Rgb);
    assert_eq!(draw_ascii(&mut d, pt(4, 8), b'A', Color::white(), false), Ok(()));
    assert_eq!(draw_ascii(&mut d, pt(4, 8), b'A', Color::white(), true), Ok(()));
    // Row 1 of the glyph sets columns 3 and 4: (7, 9) is inside, (8, 9) outside.
    assert_eq!(d.color_at(pt(7, 9)), Some(Color::white()));
}
