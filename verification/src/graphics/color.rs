//! Colors.
use vstd::prelude::*;

verus! {

use crate::fmt::{hex_digits, push_hex, zero_padded};

/// A 24-bit RGB color.
#[derive(Debug, Clone, Copy, PartialEq, Eq, Structural)]
pub struct Color {
    pub r: u8,
    pub g: u8,
    pub b: u8,
}

/// The gray level of a color: the mean of its channels, rounded down.
pub open spec fn spec_grayscale(c: Color) -> u8 {
    ((c.r + c.g + c.b) / 3) as u8
}

impl Color {
    /// The color with channels `r`, `g`, `b`.
    pub fn new(r: u8, g: u8, b: u8) -> (c: Color)
        ensures
            c.r == r && c.g == g && c.b == b,
    {
        Color { r, g, b }
    }

    /// Red.
    pub fn red() -> (c: Color)
        ensures
            c == (Color { r: 255, g: 0, b: 0 }),
    {
        Color::new(255, 0, 0)
    }

    /// Green.
    pub fn green() -> (c: Color)
        ensures
            c == (Color { r: 0, g: 255, b: 0 }),
    {
        Color::new(0, 255, 0)
    }

    /// Blue.
    pub fn blue() -> (c: Color)
        ensures
            c == (Color { r: 0, g: 0, b: 255 }),
    {
        Color::new(0, 0, 255)
    }

    /// Black.
    pub fn black() -> (c: Color)
        ensures
            c == (Color { r: 0, g: 0, b: 0 }),
    {
        Color::new(0, 0, 0)
    }

    /// White.
    pub fn white() -> (c: Color)
        ensures
            c == (Color { r: 255, g: 255, b: 255 }),
    {
        Color::new(255, 255, 255)
    }

    /// The color with code `0xRRGGBB`.
    pub fn from_code(code: u32) -> (c: Color)
        ensures
            c.r == (code >> 16) & 0xff,
            c.g == (code >> 8) & 0xff,
            c.b == code & 0xff,
    {
        assert((code >> 16) & 0xff <= 0xff && (code >> 8) & 0xff <= 0xff && code & 0xff <= 0xff)
            by (bit_vector);
        Color { r: ((code >> 16) & 0xff) as u8, g: ((code >> 8) & 0xff) as u8, b: (code & 0xff) as u8 }
    }

    /// The gray color of level `v`.
    pub fn from_grayscale(v: u8) -> (c: Color)
        ensures
            c.r == v && c.g == v && c.b == v,
    {
        Color::new(v, v, v)
    }

    /// The gray level of the color.
    pub fn to_grayscale(self) -> (v: u8)
        ensures
            v == spec_grayscale(self),
    {
        ((self.r as u16 + self.g as u16 + self.b as u16) / 3) as u8
    }

    /// The color as `#rrggbb` in lowercase hexadecimal.
    pub fn to_text(self) -> (r: Vec<char>)
        ensures
            r@ == color_text(self),
    {
        let mut out: Vec<char> = Vec::new();
        out.push('#');
        push_hex(&mut out, self.r as u64, 2);
        push_hex(&mut out, self.g as u64, 2);
        push_hex(&mut out, self.b as u64, 2);
        out
    }
}

/// `#` and the three components, each as two lowercase hexadecimal digits.
pub open spec fn color_text(c: Color) -> Seq<char> {
    seq!['#'] + zero_padded(hex_digits(c.r as nat), 2) + zero_padded(hex_digits(c.g as nat), 2)
        + zero_padded(hex_digits(c.b as nat), 2)
}

} // verus!
