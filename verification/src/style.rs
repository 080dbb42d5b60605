//! The per-line style state machine: how a formatting code changes the
//! active color and style flags, and what a literal character emits under a
//! given state.

use vstd::prelude::*;
use crate::codes::{Rgb, code_rgb, is_color_code};

verus! {

/// The active style while scanning one line: an optional current color and
/// five independent flags. A fresh state has no color and all flags false.
#[derive(Clone, Copy, PartialEq, Eq, Debug)]
pub struct StyleState {
    pub color: Option<Rgb>,
    pub obfuscated: bool,
    pub bold: bool,
    pub strikethrough: bool,
    pub underline: bool,
    pub italic: bool,
}

/// One emitted run of output: either a character passed through unstyled, or
/// a character rendered in a color with additive style attributes.
#[derive(Clone, Copy, PartialEq, Eq, Debug)]
pub enum Fragment {
    Plain(char),
    Styled { ch: char, color: Rgb, bold: bool, strikethrough: bool, underline: bool, italic: bool },
}

/// The state every line starts from: no color, all flags false.
pub open spec fn init_state() -> StyleState {
    StyleState {
        color: None,
        obfuscated: false,
        bold: false,
        strikethrough: false,
        underline: false,
        italic: false,
    }
}

/// The effect of the code character `x` on the state: `r` resets, `k`/`l`/
/// `m`/`n`/`o` set one flag, a color code sets the color and clears all five
/// flags, and anything else is a no-op.
pub open spec fn apply_code(st: StyleState, x: char) -> StyleState {
    if x == 'r' {
        init_state()
    } else if x == 'k' {
        StyleState { obfuscated: true, ..st }
    } else if x == 'l' {
        StyleState { bold: true, ..st }
    } else if x == 'm' {
        StyleState { strikethrough: true, ..st }
    } else if x == 'n' {
        StyleState { underline: true, ..st }
    } else if x == 'o' {
        StyleState { italic: true, ..st }
    } else if is_color_code(x) {
        StyleState {
            color: Some(code_rgb(x)),
            obfuscated: false,
            bold: false,
            strikethrough: false,
            underline: false,
            italic: false,
        }
    } else {
        st
    }
}

/// What a literal character `c` emits under state `st`: plain text while no
/// color is set; under obfuscation a placeholder in the current color for
/// non-spaces and an unstyled space for spaces; otherwise `c` in the current
/// color with the flags applied additively.
pub open spec fn emit(st: StyleState, c: char) -> Fragment {
    match st.color {
        None => Fragment::Plain(c),
        Some(rgb) => {
            if st.obfuscated {
                if c == ' ' {
                    Fragment::Plain(' ')
                } else {
                    Fragment::Styled {
                        ch: '?',
                        color: rgb,
                        bold: false,
                        strikethrough: false,
                        underline: false,
                        italic: false,
                    }
                }
            } else {
                Fragment::Styled {
                    ch: c,
                    color: rgb,
                    bold: st.bold,
                    strikethrough: st.strikethrough,
                    underline: st.underline,
                    italic: st.italic,
                }
            }
        },
    }
}

/// Build the state every line starts from.
pub fn initial_state() -> (st: StyleState)
    ensures
        st == init_state(),
{
    StyleState {
        color: None,
        obfuscated: false,
        bold: false,
        strikethrough: false,
        underline: false,
        italic: false,
    }
}

/// Apply one code character to the state.
pub fn step_code(st: StyleState, x: char) -> (r: StyleState)
    ensures
        r == apply_code(st, x),
{
    if x == 'r' {
        initial_state()
    } else if x == 'k' {
        StyleState { obfuscated: true, ..st }
    } else if x == 'l' {
        StyleState { bold: true, ..st }
    } else if x == 'm' {
        StyleState { strikethrough: true, ..st }
    } else if x == 'n' {
        StyleState { underline: true, ..st }
    } else if x == 'o' {
        StyleState { italic: true, ..st }
    } else {
        match crate::codes::color_code_lookup(x) {
            Some(rgb) => StyleState {
                color: Some(rgb),
                obfuscated: false,
                bold: false,
                strikethrough: false,
                underline: false,
                italic: false,
            },
            None => st,
        }
    }
}

/// Render one literal character under the current state as a fragment.
pub fn emit_char(st: StyleState, c: char) -> (f: Fragment)
    ensures
        f == emit(st, c),
{
    match st.color {
        None => Fragment::Plain(c),
        Some(rgb) => {
            if st.obfuscated {
                if c == ' ' {
                    Fragment::Plain(' ')
                } else {
                    Fragment::Styled {
                        ch: '?',
                        color: rgb,
                        bold: false,
                        strikethrough: false,
                        underline: false,
                        italic: false,
                    }
                }
            } else {
                Fragment::Styled {
                    ch: c,
                    color: rgb,
                    bold: st.bold,
                    strikethrough: st.strikethrough,
                    underline: st.underline,
                    italic: st.italic,
                }
            }
        },
    }
}

} // verus!
