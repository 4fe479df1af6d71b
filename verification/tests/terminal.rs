use sabios::fat::directory::Directory;
use sabios::fat::directory_entry::DirectoryEntry;
use sabios::fmt::{hex_digit, push_dec, push_escaped, push_escaped_bytes, push_hex};
use sabios::graphics::geometry::Point;
use sabios::keyboard::{keyboard_event, KeyboardEvent, MODIFIER_LCONTROL, MODIFIER_LSHIFT, MODIFIER_RSHIFT};
use sabios::pci::{Addr, Config};
use sabios::terminal::{
    chars_eq, format_entry, format_lspci, is_whitespace, words, Cell, Direction, Terminal, HISTORY_LEN,
};

fn row_text(t: &Terminal, y: usize) -> String {
    let cols = t.text_size().x as usize;
    let mut s = String::new();
    for x in 0..cols {
        match t.cell(x, y) {
            Cell::Glyph(c) => s.push(c),
            Cell::Blank => s.push(' '),
            Cell::Block => s.push('#'),
        }
    }
    s.trim_end().to_string()
}

fn key(c: char) -> KeyboardEvent {
    KeyboardEvent { modifier: 0, keycode: 0, ascii: c }
}

fn arrow(keycode: u8) -> KeyboardEvent {
    KeyboardEvent { modifier: 0, keycode, ascii: '\0' }
}

fn type_line(t: &mut Terminal, line: &str, pci: &Config, root: &Directory) {
    for c in line.chars() {
        t.handle_event(key(c), pci, root);
    }
    t.handle_event(key('\n'), pci, root);
}

fn empty_root() -> Directory<'static> {
    Directory::new_root_dir(&[])
}

fn entry(name: &[u8; 11], attr: u8) -> DirectoryEntry {
    let mut raw = [0u8; 32];
    raw[..11].copy_from_slice(name);
    raw[11] = attr;
    DirectoryEntry::from_bytes(&raw, 0)
}

fn chars(s: &str) -> Vec<char> {
    s.chars().collect()
}

#[test]
fn keyboard_event_uses_shift_table() {
    let plain = keyboard_event(0, 0x04);
    assert_eq!(plain.ascii, 'a');
    assert_eq!(plain.keycode, 0x04);
    assert_eq!(keyboard_event(MODIFIER_LSHIFT, 0x04).ascii, 'A');
    assert_eq!(keyboard_event(MODIFIER_RSHIFT, 0x1e).ascii, '!');
    assert_eq!(keyboard_event(MODIFIER_LCONTROL, 0x1e).ascii, '1');
    assert_eq!(keyboard_event(0, 0x28).ascii, '\n');
    assert_eq!(keyboard_event(0, 0x2a).ascii, '\x08');
    assert_eq!(keyboard_event(0, 0x52).ascii, '\0');
    assert_eq!(keyboard_event(MODIFIER_LSHIFT, 0x52).modifier, MODIFIER_LSHIFT);
}

#[test]
fn decimal_and_hex_formatting() {
    let mut out = Vec::new();
    push_dec(&mut out, 0);
    out.push(' ');
    push_dec(&mut out, 1234567890);
    out.push(' ');
    push_dec(&mut out, u64::MAX);
    assert_eq!(out.iter().collect::<String>(), "0 1234567890 18446744073709551615");
    let mut hex = Vec::new();
    push_hex(&mut hex, 0xab, 4);
    hex.push(' ');
    push_hex(&mut hex, 0x12345, 2);
    hex.push(' ');
    push_hex(&mut hex, 0, 0);
    assert_eq!(hex.iter().collect::<String>(), "00ab 12345 0");
    assert_eq!(hex_digit(9), '9');
    assert_eq!(hex_digit(15), 'f');
}

#[test]
fn escaping_matches_escape_default() {
    let bytes: &[u8] = b"a\t\r\n\\'\"\x00\x7f\xe5~";
    let mut out = Vec::new();
    push_escaped_bytes(&mut out, bytes);
    let expected: String = bytes.iter().flat_map(|b| std::ascii::escape_default(*b)).map(|b| b as char).collect();
    assert_eq!(out.iter().collect::<String>(), expected);
    let mut one = Vec::new();
    push_escaped(&mut one, 0x80);
    assert_eq!(one.iter().collect::<String>(), "\\x80");
}

#[test]
fn words_split_at_white_space() {
    let ws = words(&chars("  echo  hello\tworld "));
    let ws: Vec<String> = ws.iter().map(|w| w.iter().collect()).collect();
    assert_eq!(ws, vec!["echo", "hello", "world"]);
    assert!(words(&chars("   ")).is_empty());
    assert!(is_whitespace('\u{3000}'));
    assert!(!is_whitespace('x'));
    assert!(chars_eq(&chars("ls"), "ls"));
    assert!(!chars_eq(&chars("ls"), "lspci"));
}

#[test]
fn new_terminal_is_blank() {
    let t = Terminal::new(Point::new(10, 3));
    assert_eq!(t.text_size(), Point::new(10, 3));
    assert_eq!(t.cursor(), Point::new(0, 0));
    assert!(!t.cursor_visible());
    assert!(t.line_buf().is_empty());
    assert_eq!(t.history_len(), 0);
    assert_eq!(t.history_index(), None);
    assert_eq!(t.cell(9, 2), Cell::Blank);
    assert_eq!(t.insert_pos(), Point::new(4, 4));
}

#[test]
fn print_wraps_and_scrolls() {
    let mut t = Terminal::new(Point::new(3, 2));
    t.print_str("abcd");
    assert_eq!(row_text(&t, 0), "abc");
    assert_eq!(row_text(&t, 1), "d");
    assert_eq!(t.cursor(), Point::new(1, 1));
    t.print_str("\nz");
    assert_eq!(row_text(&t, 0), "d");
    assert_eq!(row_text(&t, 1), "z");
    assert_eq!(t.cursor(), Point::new(1, 1));
    assert_eq!(t.insert_pos(), Point::new(12, 20));
}

#[test]
fn print_nul_does_nothing() {
    let mut t = Terminal::new(Point::new(4, 2));
    t.print_char('\0');
    assert_eq!(t.cursor(), Point::new(0, 0));
    t.print_chars(&chars("hi"));
    assert_eq!(row_text(&t, 0), "hi");
}

#[test]
fn delete_backward_blanks_previous_cell() {
    let mut t = Terminal::new(Point::new(3, 2));
    t.print_str("abcd");
    t.delete_backward();
    assert_eq!(t.cursor(), Point::new(0, 1));
    assert_eq!(t.cell(0, 1), Cell::Blank);
    t.delete_backward();
    assert_eq!(t.cursor(), Point::new(2, 0));
    assert_eq!(row_text(&t, 0), "ab");
    let mut u = Terminal::new(Point::new(3, 2));
    u.delete_backward();
    assert_eq!(u.cursor(), Point::new(0, 0));
}

#[test]
fn timeout_blinks_cursor() {
    let mut t = Terminal::new(Point::new(3, 2));
    t.handle_timeout();
    assert!(t.cursor_visible());
    assert_eq!(t.cell(0, 0), Cell::Block);
    t.handle_timeout();
    assert!(!t.cursor_visible());
    assert_eq!(t.cell(0, 0), Cell::Blank);
}

#[test]
fn prompt_and_clear() {
    let mut t = Terminal::new(Point::new(5, 3));
    t.print_str("xy\nz");
    t.clear();
    assert_eq!(t.cursor(), Point::new(0, 0));
    assert_eq!(row_text(&t, 0), "");
    assert_eq!(row_text(&t, 1), "");
    t.print_prompt();
    assert_eq!(row_text(&t, 0), ">");
    assert_eq!(t.cursor(), Point::new(2, 0));
}

#[test]
fn echo_prints_arguments() {
    let pci = Config::new();
    let root = empty_root();
    let mut t = Terminal::new(Point::new(40, 5));
    type_line(&mut t, "echo  hi   there", &pci, &root);
    assert_eq!(row_text(&t, 0), "echo  hi   there");
    assert_eq!(row_text(&t, 1), "hi there");
    assert_eq!(row_text(&t, 2), "> #");
    assert_eq!(t.cell(2, 2), Cell::Block);
    assert_eq!(t.cursor(), Point::new(2, 2));
    assert!(t.line_buf().is_empty());
    assert_eq!(t.history_len(), 1);
    assert_eq!(t.history_line(0).iter().collect::<String>(), "echo  hi   there");
}

#[test]
fn unknown_command_is_reported() {
    let pci = Config::new();
    let root = empty_root();
    let mut t = Terminal::new(Point::new(40, 5));
    type_line(&mut t, "foo bar", &pci, &root);
    assert_eq!(row_text(&t, 1), "no such command: foo");
    assert_eq!(row_text(&t, 2), "> #");
}

#[test]
fn clear_command_blanks_screen() {
    let pci = Config::new();
    let root = empty_root();
    let mut t = Terminal::new(Point::new(20, 4));
    type_line(&mut t, "echo a", &pci, &root);
    type_line(&mut t, "clear", &pci, &root);
    assert_eq!(row_text(&t, 0), "> #");
    assert_eq!(row_text(&t, 1), "");
    assert_eq!(t.cursor(), Point::new(2, 0));
    assert_eq!(t.history_len(), 2);
}

#[test]
fn empty_and_indented_lines_stay_out_of_history() {
    let pci = Config::new();
    let root = empty_root();
    let mut t = Terminal::new(Point::new(20, 6));
    type_line(&mut t, "", &pci, &root);
    type_line(&mut t, " echo x", &pci, &root);
    assert_eq!(t.history_len(), 0);
    assert_eq!(row_text(&t, 2), "x");
}

#[test]
fn backspace_edits_line() {
    let pci = Config::new();
    let root = empty_root();
    let mut t = Terminal::new(Point::new(20, 4));
    t.handle_event(key('a'), &pci, &root);
    t.handle_event(key('b'), &pci, &root);
    t.handle_event(key('\x08'), &pci, &root);
    assert_eq!(t.line_buf().iter().collect::<String>(), "a");
    assert_eq!(row_text(&t, 0), "a#");
    t.handle_event(key('\x08'), &pci, &root);
    t.handle_event(key('\x08'), &pci, &root);
    assert!(t.line_buf().is_empty());
    assert_eq!(t.cursor(), Point::new(0, 0));
}

#[test]
fn history_walks_back_and_forth() {
    let pci = Config::new();
    let root = empty_root();
    let mut t = Terminal::new(Point::new(20, 10));
    type_line(&mut t, "echo a", &pci, &root);
    type_line(&mut t, "echo b", &pci, &root);
    t.handle_event(key('z'), &pci, &root);
    t.handle_event(arrow(0x52), &pci, &root);
    assert_eq!(t.history_index(), Some(0));
    assert_eq!(t.line_buf().iter().collect::<String>(), "echo b");
    assert_eq!(row_text(&t, 4), "> echo b#");
    t.handle_event(arrow(0x52), &pci, &root);
    assert_eq!(t.history_index(), Some(1));
    assert_eq!(t.line_buf().iter().collect::<String>(), "echo a");
    t.handle_event(arrow(0x52), &pci, &root);
    assert_eq!(t.history_index(), Some(1));
    t.handle_event(arrow(0x51), &pci, &root);
    assert_eq!(t.history_index(), Some(0));
    assert_eq!(t.line_buf().iter().collect::<String>(), "echo b");
    t.handle_event(arrow(0x51), &pci, &root);
    assert_eq!(t.history_index(), None);
    assert!(t.line_buf().is_empty());
    assert_eq!(row_text(&t, 4), "> #");
    t.handle_event(arrow(0x51), &pci, &root);
    assert_eq!(t.history_index(), None);
}

#[test]
fn history_keeps_newest_lines() {
    let mut t = Terminal::new(Point::new(20, 4));
    for i in 0..10 {
        for c in format!("l{}", i).chars() {
            t.print_char(c);
        }
        let pci = Config::new();
        let root = empty_root();
        for c in format!("echo {}", i).chars() {
            t.handle_event(key(c), &pci, &root);
        }
        t.push_history();
    }
    assert_eq!(t.history_len(), HISTORY_LEN);
    assert_eq!(t.history_line(0).iter().collect::<String>(), "echo 9");
    assert_eq!(t.history_line(HISTORY_LEN - 1).iter().collect::<String>(), "echo 2");
}

#[test]
fn history_move_direct() {
    let pci = Config::new();
    let root = empty_root();
    let mut t = Terminal::new(Point::new(20, 6));
    type_line(&mut t, "echo q", &pci, &root);
    t.history_move(Direction::Older);
    assert_eq!(t.line_buf().iter().collect::<String>(), "echo q");
    t.history_move(Direction::Newer);
    assert!(t.line_buf().is_empty());
    assert_eq!(t.history_index(), None);
}

fn set_function(pci: &mut Config, bus: u8, dev: u8, func: u8, vendor: u32, class: u32, header: u32) {
    pci.set(Addr::new(bus, dev, func, 0x00), vendor);
    pci.set(Addr::new(bus, dev, func, 0x08), class);
    pci.set(Addr::new(bus, dev, func, 0x0c), header << 16);
}

#[test]
fn lspci_lists_devices() {
    let mut pci = Config::new();
    set_function(&mut pci, 0, 0, 0, 0x1237_8086, 0x0600_0000, 0x00);
    set_function(&mut pci, 0, 3, 0, 0x1111_1234, 0x0c03_3000, 0x00);
    let out: String = format_lspci(&pci).iter().collect();
    assert_eq!(
        out,
        "0.0.0: vend 8086, class 06.00.00, head 00\n0.3.0: vend 1234, class 0c.03.30, head 00\n"
    );
    let root = empty_root();
    let mut t = Terminal::new(Point::new(60, 6));
    type_line(&mut t, "lspci", &pci, &root);
    assert_eq!(row_text(&t, 1), "0.0.0: vend 8086, class 06.00.00, head 00");
    assert_eq!(row_text(&t, 2), "0.3.0: vend 1234, class 0c.03.30, head 00");
    assert_eq!(row_text(&t, 3), "> #");
}

#[test]
fn lspci_on_empty_bus_prints_nothing() {
    let pci = Config::new();
    assert!(format_lspci(&pci).is_empty());
}

#[test]
fn ls_lists_root_entries() {
    let entries = [
        entry(b"HELLO   TXT", 0x20),
        entry(b"\xe5OLD    TXT", 0x20),
        entry(b"KERNEL     ", 0x20),
        entry(b"\0          ", 0x00),
        entry(b"AFTER   END", 0x20),
    ];
    let root = Directory::new_root_dir(&entries);
    assert_eq!(format_entry(&entries[0]).iter().collect::<String>(), "HELLO.TXT\n");
    assert_eq!(format_entry(&entries[2]).iter().collect::<String>(), "KERNEL\n");
    let pci = Config::new();
    let mut t = Terminal::new(Point::new(30, 6));
    type_line(&mut t, "ls", &pci, &root);
    assert_eq!(row_text(&t, 1), "HELLO.TXT");
    assert_eq!(row_text(&t, 2), "KERNEL");
    assert_eq!(row_text(&t, 3), "> #");
}
