//! The sixteen text-mode colors and the packed foreground/background byte.
use vstd::prelude::*;

verus! {

/// A 4-bit hardware color code.
#[derive(Debug, Clone, Copy, PartialEq, Eq, Structural)]
pub enum Color {
    Black,
    Blue,
    Green,
    Cyan,
    Red,
    Magenta,
    Brown,
    LightGray,
    DarkGray,
    LightBlue,
    LightGreen,
    LightCyan,
    LightRed,
    Pink,
    Yellow,
    White,
}

/// The hardware number of a color, in `0..16`.
pub open spec fn color_value(c: Color) -> u8 {
    match c {
        Color::Black => 0,
        Color::Blue => 1,
        Color::Green => 2,
        Color::Cyan => 3,
        Color::Red => 4,
        Color::Magenta => 5,
        Color::Brown => 6,
        Color::LightGray => 7,
        Color::DarkGray => 8,
        Color::LightBlue => 9,
        Color::LightGreen => 10,
        Color::LightCyan => 11,
        Color::LightRed => 12,
        Color::Pink => 13,
        Color::Yellow => 14,
        Color::White => 15,
    }
}

/// The color whose hardware number is `n % 16`.
pub open spec fn color_of(n: u8) -> Color {
    let k = n % 16;
    if k == 0 { Color::Black }
    else if k == 1 { Color::Blue }
    else if k == 2 { Color::Green }
    else if k == 3 { Color::Cyan }
    else if k == 4 { Color::Red }
    else if k == 5 { Color::Magenta }
    else if k == 6 { Color::Brown }
    else if k == 7 { Color::LightGray }
    else if k == 8 { Color::DarkGray }
    else if k == 9 { Color::LightBlue }
    else if k == 10 { Color::LightGreen }
    else if k == 11 { Color::LightCyan }
    else if k == 12 { Color::LightRed }
    else if k == 13 { Color::Pink }
    else if k == 14 { Color::Yellow }
    else { Color::White }
}

impl Color {
    /// The hardware number of this color.
    pub fn value(self) -> (r: u8)
        ensures
            r == color_value(self),
            r < 16,
    {
        match self {
            Color::Black => 0,
            Color::Blue => 1,
            Color::Green => 2,
            Color::Cyan => 3,
            Color::Red => 4,
            Color::Magenta => 5,
            Color::Brown => 6,
            Color::LightGray => 7,
            Color::DarkGray => 8,
            Color::LightBlue => 9,
            Color::LightGreen => 10,
            Color::LightCyan => 11,
            Color::LightRed => 12,
            Color::Pink => 13,
            Color::Yellow => 14,
            Color::White => 15,
        }
    }

    /// The color whose hardware number is the low nibble of `n`.
    pub fn from_nibble(n: u8) -> (r: Color)
        ensures
            r == color_of(n),
    {
        let k: u8 = n % 16;
        if k == 0 { Color::Black }
        else if k == 1 { Color::Blue }
        else if k == 2 { Color::Green }
        else if k == 3 { Color::Cyan }
        else if k == 4 { Color::Red }
        else if k == 5 { Color::Magenta }
        else if k == 6 { Color::Brown }
        else if k == 7 { Color::LightGray }
        else if k == 8 { Color::DarkGray }
        else if k == 9 { Color::LightBlue }
        else if k == 10 { Color::LightGreen }
        else if k == 11 { Color::LightCyan }
        else if k == 12 { Color::LightRed }
        else if k == 13 { Color::Pink }
        else if k == 14 { Color::Yellow }
        else { Color::White }
    }
}

/// A foreground and a background color packed into one byte:
/// background in the high nibble, foreground in the low nibble.
#[derive(Debug, Clone, Copy, PartialEq, Eq, Structural)]
pub struct ColorCode(pub u8);

/// The packed byte of a foreground and a background color.
pub open spec fn pack(foreground: Color, background: Color) -> u8 {
    (color_value(background) * 16 + color_value(foreground)) as u8
}

/// The foreground color held in a packed byte.
pub open spec fn foreground_of(code: ColorCode) -> Color {
    color_of(code.0)
}

/// The background color held in a packed byte.
pub open spec fn background_of(code: ColorCode) -> Color {
    color_of(code.0 / 16)
}

impl ColorCode {
    /// Packs `foreground` and `background` as `(background << 4) | foreground`.
    pub fn new(foreground: Color, background: Color) -> (r: ColorCode)
        ensures
            r.0 == pack(foreground, background),
    {
        let f = foreground.value();
        let b = background.value();
        let r: u8 = (b << 4u8) | f;
        assert(r == b * 16 + f) by (bit_vector)
            requires
                r == (b << 4u8) | f,
                b < 16,
                f < 16,
        ;
        ColorCode(r)
    }

    /// Splits the byte back into its foreground and background colors.
    pub fn unpack(self) -> (r: (Color, Color))
        ensures
            r == (foreground_of(self), background_of(self)),
    {
        let v = self.0;
        let lo: u8 = v & 0xfu8;
        let hi: u8 = v >> 4u8;
        assert(lo == v % 16 && hi == v / 16) by (bit_vector)
            requires
                lo == v & 0xfu8,
                hi == v >> 4u8,
        ;
        (Color::from_nibble(lo), Color::from_nibble(hi))
    }
}

/// Packing two colors and unpacking the byte gives the same two colors back,
/// for each of the 16 by 16 pairs.
pub proof fn lemma_unpack_pack(foreground: Color, background: Color)
    ensures
        foreground_of(ColorCode(pack(foreground, background))) == foreground,
        background_of(ColorCode(pack(foreground, background))) == background,
{
}

} // verus!
