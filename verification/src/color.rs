//! Terminal colors and text modifiers as plain values.

use vstd::prelude::*;

verus! {

/// A terminal color: the host default (`Reset`), one of the sixteen named
/// ANSI colors, a 24-bit RGB triple, or an index into the 256-color palette.
#[derive(Debug, Clone, Copy, PartialEq, Eq, Structural)]
pub enum Color {
    Reset,
    Black,
    Red,
    Green,
    Yellow,
    Blue,
    Magenta,
    Cyan,
    Gray,
    DarkGray,
    LightRed,
    LightGreen,
    LightYellow,
    LightBlue,
    LightMagenta,
    LightCyan,
    White,
    Rgb(u8, u8, u8),
    Indexed(u8),
}

/// An RGB triple.
pub type Rgb = (u8, u8, u8);

/// The channels of an RGB color; `None` for every other color.
pub open spec fn color_rgb(c: Color) -> Option<Rgb> {
    match c {
        Color::Rgb(r, g, b) => Some((r, g, b)),
        _ => None,
    }
}

/// `Color::Rgb` built from a triple.
pub fn rgb(c: Rgb) -> (r: Color)
    ensures
        r == Color::Rgb(c.0, c.1, c.2),
{
    Color::Rgb(c.0, c.1, c.2)
}

/// A set of text modifiers, one bit per modifier.
#[derive(Debug, Clone, Copy, PartialEq, Eq, Structural)]
pub struct Modifier {
    pub bits: u16,
}

pub const BOLD_BITS: u16 = 0x0001;
pub const DIM_BITS: u16 = 0x0002;
pub const ITALIC_BITS: u16 = 0x0004;
pub const UNDERLINED_BITS: u16 = 0x0008;
pub const REVERSED_BITS: u16 = 0x0040;

impl Modifier {
    /// No modifier.
    pub fn empty() -> (r: Modifier)
        ensures
            r.bits == 0,
    {
        Modifier { bits: 0 }
    }

    pub fn bold() -> (r: Modifier)
        ensures
            r.bits == BOLD_BITS,
    {
        Modifier { bits: BOLD_BITS }
    }

    pub fn italic() -> (r: Modifier)
        ensures
            r.bits == ITALIC_BITS,
    {
        Modifier { bits: ITALIC_BITS }
    }

    pub fn reversed() -> (r: Modifier)
        ensures
            r.bits == REVERSED_BITS,
    {
        Modifier { bits: REVERSED_BITS }
    }

    pub fn underlined() -> (r: Modifier)
        ensures
            r.bits == UNDERLINED_BITS,
    {
        Modifier { bits: UNDERLINED_BITS }
    }

    /// Every modifier that is in `self` or in `other`.
    pub fn union(self, other: Modifier) -> (r: Modifier)
        ensures
            r.bits == self.bits | other.bits,
    {
        Modifier { bits: self.bits | other.bits }
    }

    /// Whether every modifier of `other` is in `self`.
    pub fn contains(self, other: Modifier) -> (r: bool)
        ensures
            r == (self.bits & other.bits == other.bits),
    {
        self.bits & other.bits == other.bits
    }

    /// Add the modifiers of `other`.
    pub fn insert(&mut self, other: Modifier)
        ensures
            final(self).bits == old(self).bits | other.bits,
    {
        self.bits = self.bits | other.bits;
    }

    /// Drop the modifiers of `other`.
    pub fn remove(&mut self, other: Modifier)
        ensures
            final(self).bits == old(self).bits & !other.bits,
    {
        self.bits = self.bits & !other.bits;
    }
}

} // verus!
