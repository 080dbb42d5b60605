//! The tool's own theme palette, the label-styling helper and the
//! ping-severity classifier.

use vstd::prelude::*;
use crate::ansi;
use crate::text::decimal_chars;

verus! {

/// The named theme colors used for the tool's own labels, independent of
/// the legacy color-code table.
#[allow(non_camel_case_types)]
#[derive(Clone, Copy, PartialEq, Eq, Debug)]
pub enum Palette {
    ROSEWATER,
    FLAMINGO,
    PINK,
    MAUVE,
    RED,
    MAROON,
    PEACH,
    YELLOW,
    GREEN,
    TEAL,
    SKY,
    SAPPHIRE,
    BLUE,
    LAVENDER,
    TEXT,
    SUBTEXT1,
    SUBTEXT0,
    OVERLAY2,
    OVERLAY1,
    OVERLAY0,
    SURFACE2,
    SURFACE1,
    SURFACE0,
    BASE,
    MANTLE,
    CRUST,
}

/// The RGB triple each named theme color stands for; the mapping is total
/// and fixed.
pub open spec fn theme_rgb(p: Palette) -> (u8, u8, u8) {
    match p {
        Palette::ROSEWATER => (245, 224, 220),
        Palette::FLAMINGO => (242, 205, 205),
        Palette::PINK => (245, 194, 231),
        Palette::MAUVE => (203, 166, 247),
        Palette::RED => (243, 139, 168),
        Palette::MAROON => (235, 160, 172),
        Palette::PEACH => (250, 179, 135),
        Palette::YELLOW => (255, 219, 140),
        Palette::GREEN => (154, 231, 146),
        Palette::TEAL => (129, 255, 234),
        Palette::SKY => (137, 220, 235),
        Palette::SAPPHIRE => (116, 199, 236),
        Palette::BLUE => (137, 180, 250),
        Palette::LAVENDER => (180, 190, 254),
        Palette::TEXT => (205, 214, 244),
        Palette::SUBTEXT1 => (186, 194, 222),
        Palette::SUBTEXT0 => (166, 173, 200),
        Palette::OVERLAY2 => (147, 153, 178),
        Palette::OVERLAY1 => (127, 132, 156),
        Palette::OVERLAY0 => (108, 112, 134),
        Palette::SURFACE2 => (88, 91, 112),
        Palette::SURFACE1 => (69, 71, 90),
        Palette::SURFACE0 => (49, 50, 68),
        Palette::BASE => (30, 30, 46),
        Palette::MANTLE => (24, 24, 37),
        Palette::CRUST => (17, 17, 27),
    }
}

impl Palette {
    /// Bundle three channel values into a triple.
    pub fn rgb(r: u8, g: u8, b: u8) -> (t: (u8, u8, u8))
        ensures
            t == ((r, g, b)),
    {
        (r, g, b)
    }

    /// The RGB triple this theme color stands for.
    pub fn to_color(&self) -> (t: (u8, u8, u8))
        ensures
            t == theme_rgb(*self),
    {
        match self {
            Palette::ROSEWATER => Self::rgb(245, 224, 220),
            Palette::FLAMINGO => Self::rgb(242, 205, 205),
            Palette::PINK => Self::rgb(245, 194, 231),
            Palette::MAUVE => Self::rgb(203, 166, 247),
            Palette::RED => Self::rgb(243, 139, 168),
            Palette::MAROON => Self::rgb(235, 160, 172),
            Palette::PEACH => Self::rgb(250, 179, 135),
            Palette::YELLOW => Self::rgb(255, 219, 140),
            Palette::GREEN => Self::rgb(154, 231, 146),
            Palette::TEAL => Self::rgb(129, 255, 234),
            Palette::SKY => Self::rgb(137, 220, 235),
            Palette::SAPPHIRE => Self::rgb(116, 199, 236),
            Palette::BLUE => Self::rgb(137, 180, 250),
            Palette::LAVENDER => Self::rgb(180, 190, 254),
            Palette::TEXT => Self::rgb(205, 214, 244),
            Palette::SUBTEXT1 => Self::rgb(186, 194, 222),
            Palette::SUBTEXT0 => Self::rgb(166, 173, 200),
            Palette::OVERLAY2 => Self::rgb(147, 153, 178),
            Palette::OVERLAY1 => Self::rgb(127, 132, 156),
            Palette::OVERLAY0 => Self::rgb(108, 112, 134),
            Palette::SURFACE2 => Self::rgb(88, 91, 112),
            Palette::SURFACE1 => Self::rgb(69, 71, 90),
            Palette::SURFACE0 => Self::rgb(49, 50, 68),
            Palette::BASE => Self::rgb(30, 30, 46),
            Palette::MANTLE => Self::rgb(24, 24, 37),
            Palette::CRUST => Self::rgb(17, 17, 27),
        }
    }
}

/// Style a label in a named theme color for the terminal: the result is
/// the true-color styled value of exactly this text under that color's RGB
/// triple.
pub fn color(text: String, palette: Palette) -> (cs: colored::ColoredString)
    ensures
        cs == ansi::truecolor_of(
            text@,
            theme_rgb(palette).0,
            theme_rgb(palette).1,
            theme_rgb(palette).2,
        ),
{
    let rgb = palette.to_color();
    ansi::truecolor_str(text.as_str(), rgb.0, rgb.1, rgb.2)
}

/// The three severity bands a ping duration falls into.
#[derive(Clone, Copy, PartialEq, Eq, Debug)]
pub enum PingBand {
    Good,
    Warn,
    Bad,
}

/// The band of a ping in milliseconds: under 100 good, 100 to 299 warn,
/// 300 and up bad.
pub open spec fn ping_band(ping: u64) -> PingBand {
    if ping < 100 {
        PingBand::Good
    } else if ping < 300 {
        PingBand::Warn
    } else {
        PingBand::Bad
    }
}

/// Classify a ping duration in milliseconds into its severity band; 100 and
/// 300 belong to the higher band.
pub fn classify_ping(ping: u64) -> (b: PingBand)
    ensures
        b == ping_band(ping),
        b == PingBand::Good <==> ping < 100,
        b == PingBand::Warn <==> 100 <= ping < 300,
        b == PingBand::Bad <==> ping >= 300,
{
    if ping < 100 {
        PingBand::Good
    } else if ping < 300 {
        PingBand::Warn
    } else {
        PingBand::Bad
    }
}

/// Style a ping value, written in decimal, in the display color of its
/// severity band: the result is the green, yellow or red styled value of
/// exactly the ping's decimal digits, by band.
pub fn ping_color(ping: u64) -> (cs: colored::ColoredString)
    ensures
        ping < 100 ==> cs == ansi::green_of(decimal_chars(ping as nat)),
        100 <= ping < 300 ==> cs == ansi::yellow_of(decimal_chars(ping as nat)),
        ping >= 300 ==> cs == ansi::red_of(decimal_chars(ping as nat)),
{
    let text = ansi::u64_to_string(ping);
    match classify_ping(ping) {
        PingBand::Good => ansi::green_str(text.as_str()),
        PingBand::Warn => ansi::yellow_str(text.as_str()),
        PingBand::Bad => ansi::red_str(text.as_str()),
    }
}

} // verus!
