//! Keyboard events: key codes, modifier keys and the characters they type.
use vstd::prelude::*;

verus! {

/// The character a key of a US keyboard types, by its key code, with or
/// without shift held; `'\0'` for a key that types none.
pub open spec fn key_char(keycode: u8, shift: bool) -> char {
    if 4 <= keycode <= 29 {
        // letters
        (((if shift { 0x41u8 } else { 0x61u8 }) + (keycode - 4)) as u8) as char
    } else if 30 <= keycode <= 38 && !shift {
        // digits 1 to 9
        ((0x31u8 + (keycode - 30)) as u8) as char
    } else if 89 <= keycode <= 97 {
        // keypad digits 1 to 9
        ((0x31u8 + (keycode - 89)) as u8) as char
    } else {
        match keycode {
            30 => '!',
            31 => '@',
            32 => '#',
            33 => '$',
            34 => '%',
            35 => '^',
            36 => '&',
            37 => '*',
            38 => '(',
            39 => if shift { ')' } else { '0' },
            40 | 88 => '\n',
            41 | 42 => '\x08',
            43 => '\t',
            44 => ' ',
            45 => if shift { '_' } else { '-' },
            46 => if shift { '+' } else { '=' },
            47 => if shift { '{' } else { '[' },
            48 => if shift { '}' } else { ']' },
            49 | 137 => if shift { '|' } else { '\\' },
            50 => if shift { '~' } else { '#' },
            51 => if shift { ':' } else { ';' },
            52 => if shift { '"' } else { '\'' },
            53 => if shift { '~' } else { '`' },
            54 => if shift { '<' } else { ',' },
            55 => if shift { '>' } else { '.' },
            56 => if shift { '?' } else { '/' },
            84 => '/',
            85 => '*',
            86 => '-',
            87 => '+',
            98 => '0',
            99 => '.',
            100 => '\\',
            103 => '=',
            _ => '\0',
        }
    }
}

/// The character a key types (see `key_char`).
pub fn keycode_char(keycode: u8, shift: bool) -> (r: char)
    ensures
        r == key_char(keycode, shift),
{
    if 4 <= keycode && keycode <= 29 {
        let base: u8 = if shift { 0x41 } else { 0x61 };
        (base + (keycode - 4)) as char
    } else if 30 <= keycode && keycode <= 38 && !shift {
        (0x31u8 + (keycode - 30)) as char
    } else if 89 <= keycode && keycode <= 97 {
        (0x31u8 + (keycode - 89)) as char
    } else {
        match keycode {
            30 => '!',
            31 => '@',
            32 => '#',
            33 => '$',
            34 => '%',
            35 => '^',
            36 => '&',
            37 => '*',
            38 => '(',
            39 => if shift { ')' } else { '0' },
            40 | 88 => '\n',
            41 | 42 => '\x08',
            43 => '\t',
            44 => ' ',
            45 => if shift { '_' } else { '-' },
            46 => if shift { '+' } else { '=' },
            47 => if shift { '{' } else { '[' },
            48 => if shift { '}' } else { ']' },
            49 | 137 => if shift { '|' } else { '\\' },
            50 => if shift { '~' } else { '#' },
            51 => if shift { ':' } else { ';' },
            52 => if shift { '"' } else { '\'' },
            53 => if shift { '~' } else { '`' },
            54 => if shift { '<' } else { ',' },
            55 => if shift { '>' } else { '.' },
            56 => if shift { '?' } else { '/' },
            84 => '/',
            85 => '*',
            86 => '-',
            87 => '+',
            98 => '0',
            99 => '.',
            100 => '\\',
            103 => '=',
            _ => '\0',
        }
    }
}

/// The letter keys 4 to 29 type the alphabet in order: lowercase without
/// shift, the same letter in uppercase with it.
pub proof fn law_letter_keys(keycode: u8)
    requires
        4 <= keycode <= 29,
    ensures
        key_char(keycode, false) == seq!['a','b','c','d','e','f','g','h','i','j','k','l','m','n','o','p','q','r','s','t','u','v','w','x','y','z'][keycode - 4],
        key_char(keycode, true) == seq!['A','B','C','D','E','F','G','H','I','J','K','L','M','N','O','P','Q','R','S','T','U','V','W','X','Y','Z'][keycode - 4],
{
}

/// The top row types the digits 1 to 9 and then 0 (keys 30 to 39) without
/// shift, and the symbols printed above them on a US keyboard with it.
pub proof fn law_digit_row(keycode: u8)
    requires
        30 <= keycode <= 39,
    ensures
        key_char(keycode, false) == seq!['1', '2', '3', '4', '5', '6', '7', '8', '9', '0'][keycode - 30],
        key_char(keycode, true) == seq!['!', '@', '#', '$', '%', '^', '&', '*', '(', ')'][keycode - 30],
{
}

/// The keypad digits (keys 89 to 98) type 1 to 9 and then 0, whether shift
/// is held or not.
pub proof fn law_keypad_digits(keycode: u8, shift: bool)
    requires
        89 <= keycode <= 98,
    ensures
        key_char(keycode, shift) == seq!['1', '2', '3', '4', '5', '6', '7', '8', '9', '0'][keycode - 89],
{
}

/// The punctuation keys 45 to 56 of a US keyboard, without and with shift.
pub proof fn law_punctuation_keys(keycode: u8)
    requires
        45 <= keycode <= 56,
    ensures
        key_char(keycode, false) == seq!['-', '=', '[', ']', '\\', '#', ';', '\'', '`', ',', '.', '/'][keycode - 45],
        key_char(keycode, true) == seq!['_', '+', '{', '}', '|', '~', ':', '"', '~', '<', '>', '?'][keycode - 45],
{
}

/// Shift changes what a key types only on the letter, digit and
/// punctuation keys (4 to 56) and on the second backslash key (137); every
/// other key types the same either way.
pub proof fn law_shift_changes_only_printing_keys(keycode: u8)
    requires
        !(4 <= keycode <= 56),
        keycode != 137,
    ensures
        key_char(keycode, true) == key_char(keycode, false),
{
}

/// Enter, backspace, tab and space (keys 40 to 44) type the same control
/// character or space whether shift is held or not.
pub proof fn law_control_keys(keycode: u8, shift: bool)
    requires
        40 <= keycode <= 44,
    ensures
        key_char(keycode, shift) == seq!['\n', '\x08', '\x08', '\t', ' '][keycode - 40],
{
}

/// Keys outside the typing keys (0 to 3, 57 to 83, 101, 102 and 104 and
/// above except 137) type no character.
pub proof fn law_other_keys_type_nothing(keycode: u8, shift: bool)
    requires
        keycode < 4 || (57 <= keycode <= 83) || keycode == 101 || keycode == 102 || (104 <= keycode
            && keycode != 137),
    ensures
        key_char(keycode, shift) == '\0',
{
}

/// The keypad's operator and enter keys (84 to 88), its point (99), the
/// extra backslash key (100) and the keypad equals (103) type the same
/// character whether shift is held or not; the second backslash key (137)
/// types a backslash, or a bar with shift.
pub proof fn law_keypad_symbols(keycode: u8, shift: bool)
    ensures
        84 <= keycode <= 88 ==> key_char(keycode, shift) == seq!['/', '*', '-', '+', '\n'][keycode - 84],
        keycode == 99 ==> key_char(keycode, shift) == '.',
        keycode == 100 ==> key_char(keycode, shift) == '\\',
        keycode == 103 ==> key_char(keycode, shift) == '=',
        keycode == 137 ==> key_char(keycode, false) == '\\' && key_char(keycode, true) == '|',
{
}

/// Modifier bit: left control.
pub const MODIFIER_LCONTROL: u8 = 0b00000001;
/// Modifier bit: left shift.
pub const MODIFIER_LSHIFT: u8 = 0b00000010;
/// Modifier bit: left alt.
pub const MODIFIER_LALT: u8 = 0b00000100;
/// Modifier bit: left GUI.
pub const MODIFIER_LGUI: u8 = 0b00001000;
/// Modifier bit: right control.
pub const MODIFIER_RCONTROL: u8 = 0b00010000;
/// Modifier bit: right shift.
pub const MODIFIER_RSHIFT: u8 = 0b00100000;
/// Modifier bit: right alt.
pub const MODIFIER_RALT: u8 = 0b01000000;
/// Modifier bit: right GUI.
pub const MODIFIER_RGUI: u8 = 0b10000000;

/// A key press: the modifier keys held, the key code and the character it
/// types (`'\0'` for none).
#[derive(Debug, Clone, Copy, PartialEq, Eq, Structural)]
pub struct KeyboardEvent {
    pub modifier: u8,
    pub keycode: u8,
    pub ascii: char,
}

/// Whether a shift key is among the modifiers.
pub open spec fn shift_held(modifier: u8) -> bool {
    modifier & (MODIFIER_LSHIFT | MODIFIER_RSHIFT) != 0
}

/// The character a key types with the given modifiers.
pub open spec fn spec_ascii(modifier: u8, keycode: u8) -> char {
    key_char(keycode, shift_held(modifier))
}

/// The event for a key press reported by the keyboard driver: the modifiers
/// as given, and the character from the shifted table when a shift key is
/// held, from the plain table otherwise.
pub fn keyboard_event(modifier: u8, keycode: u8) -> (r: KeyboardEvent)
    ensures
        r.modifier == modifier,
        r.keycode == keycode,
        r.ascii == spec_ascii(modifier, keycode),
{
    let ascii = keycode_char(keycode, modifier & (MODIFIER_LSHIFT | MODIFIER_RSHIFT) != 0);
    KeyboardEvent { modifier, keycode, ascii }
}

/// What a key press asks of the task whose sleep the keyboard controls.
#[derive(Debug, Clone, Copy, PartialEq, Eq, Structural)]
pub enum TaskCommand {
    Sleep,
    Wake,
}

/// The command a typed character gives: `'s'` puts the task to sleep, `'w'`
/// wakes it, any other character leaves it alone.
pub fn task_command(ascii: char) -> (r: Option<TaskCommand>)
    ensures
        r == (if ascii == 's' {
            Some(TaskCommand::Sleep)
        } else if ascii == 'w' {
            Some(TaskCommand::Wake)
        } else {
            None::<TaskCommand>
        }),
{
    if ascii == 's' {
        Some(TaskCommand::Sleep)
    } else if ascii == 'w' {
        Some(TaskCommand::Wake)
    } else {
        None
    }
}

/// Either shift key selects the shifted character, and no other modifier
/// (control, alt, GUI) changes the character a key types.
pub proof fn law_only_shift_selects(modifier: u8, keycode: u8)
    ensures
        spec_ascii(modifier, keycode) == spec_ascii(modifier & (MODIFIER_LSHIFT | MODIFIER_RSHIFT), keycode),
        spec_ascii(MODIFIER_LSHIFT, keycode) == key_char(keycode, true),
        spec_ascii(MODIFIER_RSHIFT, keycode) == key_char(keycode, true),
        spec_ascii(0, keycode) == key_char(keycode, false),
        spec_ascii(MODIFIER_LCONTROL | MODIFIER_LALT | MODIFIER_LGUI | MODIFIER_RCONTROL | MODIFIER_RALT
            | MODIFIER_RGUI, keycode) == key_char(keycode, false),
{
    assert(((modifier & (0b10u8 | 0b10_0000u8)) & (0b10u8 | 0b10_0000u8) != 0) == (modifier & (0b10u8
        | 0b10_0000u8) != 0) && 0b10u8 & (0b10u8 | 0b10_0000u8) != 0 && 0b10_0000u8 & (0b10u8
        | 0b10_0000u8) != 0 && 0u8 & (0b10u8 | 0b10_0000u8) == 0 && (0b1u8 | 0b100u8 | 0b1000u8
        | 0b1_0000u8 | 0b100_0000u8 | 0b1000_0000u8) & (0b10u8 | 0b10_0000u8) == 0) by (bit_vector);
}

} // verus!
