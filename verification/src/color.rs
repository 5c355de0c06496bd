use vstd::prelude::*;

verus! {

/// The sixteen colors the display hardware understands.  Each maps to a
/// 4-bit hardware code, given by [`color_code`].
#[allow(dead_code)]
#[derive(Clone, Copy, Debug, PartialEq, Eq, Structural)]
pub enum Color {
    Black,
    Blue,
    Green,
    Cyan,
    Red,
    Magenta,
    Brown,
    LightGray,
    DarkGray,
    LightBlue,
    LightGreen,
    LightCyan,
    LightRed,
    Pink,
    Yellow,
    White,
}

/// The 4-bit hardware code of a color.
pub open spec fn color_code(c: Color) -> u8 {
    match c {
        Color::Black => 0,
        Color::Blue => 1,
        Color::Green => 2,
        Color::Cyan => 3,
        Color::Red => 4,
        Color::Magenta => 5,
        Color::Brown => 6,
        Color::LightGray => 7,
        Color::DarkGray => 8,
        Color::LightBlue => 9,
        Color::LightGreen => 10,
        Color::LightCyan => 11,
        Color::LightRed => 12,
        Color::Pink => 13,
        Color::Yellow => 14,
        Color::White => 15,
    }
}

/// The color a 4-bit hardware code denotes.  Codes above 15 never arise
/// from [`color_code`].
pub open spec fn color_of_code(n: int) -> Color {
    if n == 0 {
        Color::Black
    } else if n == 1 {
        Color::Blue
    } else if n == 2 {
        Color::Green
    } else if n == 3 {
        Color::Cyan
    } else if n == 4 {
        Color::Red
    } else if n == 5 {
        Color::Magenta
    } else if n == 6 {
        Color::Brown
    } else if n == 7 {
        Color::LightGray
    } else if n == 8 {
        Color::DarkGray
    } else if n == 9 {
        Color::LightBlue
    } else if n == 10 {
        Color::LightGreen
    } else if n == 11 {
        Color::LightCyan
    } else if n == 12 {
        Color::LightRed
    } else if n == 13 {
        Color::Pink
    } else if n == 14 {
        Color::Yellow
    } else {
        Color::White
    }
}

impl Color {
    /// The 4-bit code of this color.
    pub fn to_code(self) -> (r: u8)
        ensures
            r == color_code(self),
    {
        match self {
            Color::Black => 0,
            Color::Blue => 1,
            Color::Green => 2,
            Color::Cyan => 3,
            Color::Red => 4,
            Color::Magenta => 5,
            Color::Brown => 6,
            Color::LightGray => 7,
            Color::DarkGray => 8,
            Color::LightBlue => 9,
            Color::LightGreen => 10,
            Color::LightCyan => 11,
            Color::LightRed => 12,
            Color::Pink => 13,
            Color::Yellow => 14,
            Color::White => 15,
        }
    }

    /// The color a 4-bit code denotes.
    pub fn from_code(n: u8) -> (r: Color)
        requires
            n < 16,
        ensures
            r == color_of_code(n as int),
    {
        if n == 0 {
            Color::Black
        } else if n == 1 {
            Color::Blue
        } else if n == 2 {
            Color::Green
        } else if n == 3 {
            Color::Cyan
        } else if n == 4 {
            Color::Red
        } else if n == 5 {
            Color::Magenta
        } else if n == 6 {
            Color::Brown
        } else if n == 7 {
            Color::LightGray
        } else if n == 8 {
            Color::DarkGray
        } else if n == 9 {
            Color::LightBlue
        } else if n == 10 {
            Color::LightGreen
        } else if n == 11 {
            Color::LightCyan
        } else if n == 12 {
            Color::LightRed
        } else if n == 13 {
            Color::Pink
        } else if n == 14 {
            Color::Yellow
        } else {
            Color::White
        }
    }
}

/// A foreground/background color pair packed into one byte the way the
/// hardware expects it: background in the high nibble, foreground in the
/// low nibble.
#[derive(Clone, Copy, Debug, PartialEq, Eq, Structural)]
pub struct ColorCode(u8);

impl ColorCode {
    /// The packed byte.
    pub closed spec fn byte(self) -> u8 {
        self.0
    }

    /// Packs a foreground and a background color into one byte.  Every
    /// combination is legal, including equal colors.
    pub fn new(foreground: Color, background: Color) -> (r: ColorCode)
        ensures
            r.byte() == color_code(background) * 16 + color_code(foreground),
    {
        let fg = foreground.to_code();
        let bg = background.to_code();
        assert((bg << 4) | fg == bg * 16 + fg) by (bit_vector)
            requires
                fg < 16 && bg < 16,
        ;
        ColorCode((bg << 4) | fg)
    }

    /// The packed byte, for unverified callers.
    pub fn as_byte(self) -> (r: u8)
        ensures
            r == self.byte(),
    {
        self.0
    }
}

/// Law: unpacking the low and the high nibble of a packed color byte
/// recovers the original foreground and background, for every one of the
/// 16 x 16 combinations.
pub proof fn lemma_color_code_round_trip(foreground: Color, background: Color)
    ensures
        color_of_code((color_code(background) * 16 + color_code(foreground)) % 16)
            == foreground,
        color_of_code((color_code(background) * 16 + color_code(foreground)) / 16)
            == background,
{
    assert(color_code(foreground) < 16);
    assert(color_code(background) < 16);
}

} // verus!
