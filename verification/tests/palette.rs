use mcstat::{color, ping_color, Palette, PingBand};
use mcstat::palette::classify_ping;

#[test]
fn theme_colors_resolve_to_their_triples() {
    assert_eq!(Palette::RED.to_color(), (243, 139, 168));
    assert_eq!(Palette::TEAL.to_color(), (129, 255, 234));
    assert_eq!(Palette::CRUST.to_color(), (17, 17, 27));
}

#[test]
fn rgb_bundles_the_channels() {
    assert_eq!(Palette::rgb(1, 2, 3), (1, 2, 3));
}

#[test]
fn ping_band_boundaries() {
    assert_eq!(classify_ping(0), PingBand::Good);
    assert_eq!(classify_ping(99), PingBand::Good);
    assert_eq!(classify_ping(100), PingBand::Warn);
    assert_eq!(classify_ping(299), PingBand::Warn);
    assert_eq!(classify_ping(300), PingBand::Bad);
}

#[test]
fn ping_color_writes_decimal_digits() {
    colored::control::set_override(false);
    assert_eq!(format!("{}", ping_color(42)), "42");
    assert_eq!(format!("{}", ping_color(1234567890)), "1234567890");
}

#[test]
fn ping_color_uses_the_band_colors() {
    colored::control::set_override(true);
    assert_eq!(format!("{}", ping_color(99)), "\u{1b}[32m99\u{1b}[0m");
    assert_eq!(format!("{}", ping_color(150)), "\u{1b}[33m150\u{1b}[0m");
    assert_eq!(format!("{}", ping_color(500)), "\u{1b}[31m500\u{1b}[0m");
    colored::control::unset_override();
}

#[test]
fn label_color_keeps_the_text() {
    colored::control::set_override(false);
    assert_eq!(format!("{}", color(String::from("Ping"), Palette::TEAL)), "Ping");
}
