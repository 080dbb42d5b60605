//! Query-result rendering for a Minecraft server status tool.
//!
//! The heart of the library is the legacy formatting-code interpreter: it
//! parses server-supplied text containing `ESCAPE_CHAR`-prefixed color and
//! style codes into styled fragments and renders them for a true-color
//! terminal. A fixed theme palette and a ping-severity classifier sit beside
//! it.

pub mod ansi;
pub mod codes;
pub mod interp;
pub mod palette;
pub mod render;
pub mod style;
pub mod text;

pub use palette::{color, ping_color, Palette, PingBand};
pub use render::mc_color;
