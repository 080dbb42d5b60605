//! The fixed table binding the 16 legacy color-code characters to RGB triples.

use vstd::prelude::*;

verus! {

/// The escape character that introduces a two-character formatting code.
pub const ESCAPE_CHAR: char = '\u{00A7}';

/// An RGB triple as consumed by a true-color terminal backend.
#[derive(Clone, Copy, PartialEq, Eq, Debug)]
pub struct Rgb {
    pub r: u8,
    pub g: u8,
    pub b: u8,
}

/// Whether `c` is one of the 16 legacy color-code characters.
pub open spec fn is_color_code(c: char) -> bool {
    c == '0' || c == '1' || c == '2' || c == '3' || c == '4' || c == '5' || c == '6' || c == '7'
        || c == '8' || c == '9' || c == 'a' || c == 'b' || c == 'c' || c == 'd' || c == 'e'
        || c == 'f'
}

/// The RGB triple bound to a legacy color-code character.
pub open spec fn code_rgb(c: char) -> Rgb
    recommends
        is_color_code(c),
{
    if c == '0' {
        Rgb { r: 0, g: 0, b: 0 }
    } else if c == '1' {
        Rgb { r: 0, g: 0, b: 170 }
    } else if c == '2' {
        Rgb { r: 0, g: 170, b: 0 }
    } else if c == '3' {
        Rgb { r: 0, g: 170, b: 170 }
    } else if c == '4' {
        Rgb { r: 170, g: 0, b: 0 }
    } else if c == '5' {
        Rgb { r: 170, g: 0, b: 170 }
    } else if c == '6' {
        Rgb { r: 255, g: 170, b: 0 }
    } else if c == '7' {
        Rgb { r: 170, g: 170, b: 170 }
    } else if c == '8' {
        Rgb { r: 85, g: 85, b: 85 }
    } else if c == '9' {
        Rgb { r: 85, g: 85, b: 255 }
    } else if c == 'a' {
        Rgb { r: 85, g: 255, b: 85 }
    } else if c == 'b' {
        Rgb { r: 85, g: 255, b: 255 }
    } else if c == 'c' {
        Rgb { r: 255, g: 85, b: 85 }
    } else if c == 'd' {
        Rgb { r: 255, g: 85, b: 255 }
    } else if c == 'e' {
        Rgb { r: 255, g: 255, b: 85 }
    } else {
        Rgb { r: 205, g: 214, b: 244 }
    }
}

/// Look a code character up in the fixed 16-entry legacy color table; a miss
/// is a valid "not found" outcome, not an error.
pub fn color_code_lookup(c: char) -> (res: Option<Rgb>)
    ensures
        res == if is_color_code(c) {
            Some(code_rgb(c))
        } else {
            None::<Rgb>
        },
{
    if c == '0' {
        Some(Rgb { r: 0, g: 0, b: 0 })
    } else if c == '1' {
        Some(Rgb { r: 0, g: 0, b: 170 })
    } else if c == '2' {
        Some(Rgb { r: 0, g: 170, b: 0 })
    } else if c == '3' {
        Some(Rgb { r: 0, g: 170, b: 170 })
    } else if c == '4' {
        Some(Rgb { r: 170, g: 0, b: 0 })
    } else if c == '5' {
        Some(Rgb { r: 170, g: 0, b: 170 })
    } else if c == '6' {
        Some(Rgb { r: 255, g: 170, b: 0 })
    } else if c == '7' {
        Some(Rgb { r: 170, g: 170, b: 170 })
    } else if c == '8' {
        Some(Rgb { r: 85, g: 85, b: 85 })
    } else if c == '9' {
        Some(Rgb { r: 85, g: 85, b: 255 })
    } else if c == 'a' {
        Some(Rgb { r: 85, g: 255, b: 85 })
    } else if c == 'b' {
        Some(Rgb { r: 85, g: 255, b: 255 })
    } else if c == 'c' {
        Some(Rgb { r: 255, g: 85, b: 85 })
    } else if c == 'd' {
        Some(Rgb { r: 255, g: 85, b: 255 })
    } else if c == 'e' {
        Some(Rgb { r: 255, g: 255, b: 85 })
    } else if c == 'f' {
        Some(Rgb { r: 205, g: 214, b: 244 })
    } else {
        None
    }
}

} // verus!
