use mcstat::mc_color;

#[test]
fn markup_free_input_is_identity() {
    assert_eq!(mc_color(String::from("Hello, world!")), "Hello, world!");
}

#[test]
fn empty_input_stays_empty() {
    assert_eq!(mc_color(String::from("")), "");
}

#[test]
fn leading_whitespace_stripped_per_line() {
    assert_eq!(mc_color(String::from("  A\n\tB\nC")), "A\nB\nC");
}

#[test]
fn reset_then_plain_character() {
    assert_eq!(mc_color(String::from("\u{a7}a\u{a7}l\u{a7}rX")), "X");
}

#[test]
fn unknown_code_drops_out() {
    assert_eq!(mc_color(String::from("A\u{a7}zB")), "AB");
}

#[test]
fn trailing_escape_does_not_crash() {
    assert_eq!(mc_color(String::from("Test\u{a7}")), "Test");
}

#[test]
fn crlf_normalized_to_lf() {
    assert_eq!(mc_color(String::from("A\r\nB")), "A\nB");
}

#[test]
fn final_line_ending_dropped() {
    assert_eq!(mc_color(String::from("A\n")), "A");
}

#[test]
fn blank_lines_are_kept() {
    assert_eq!(mc_color(String::from("A\n\nB")), "A\n\nB");
}

#[test]
fn lone_carriage_return_is_no_line_break() {
    assert_eq!(mc_color(String::from("A\rB")), "A\rB");
}

#[test]
fn final_bare_carriage_return_is_kept() {
    assert_eq!(mc_color(String::from("baz\r")), "baz\r");
}

#[test]
fn carriage_return_dropped_only_before_line_feed() {
    assert_eq!(mc_color(String::from("A\r\nB\r")), "A\nB\r");
}

#[test]
fn escape_as_code_letter_is_noop() {
    assert_eq!(mc_color(String::from("\u{a7}\u{a7}X")), "X");
}

#[test]
fn code_only_line_renders_empty() {
    assert_eq!(mc_color(String::from("\u{a7}a")), "");
}

#[test]
fn hoisted_line_equals_unindented_line() {
    colored::control::set_override(false);
    assert_eq!(
        mc_color(String::from("  \u{a7}aHello")),
        mc_color(String::from("\u{a7}aHello"))
    );
}

#[test]
fn obfuscation_shows_placeholders_with_spaces_kept() {
    colored::control::set_override(false);
    assert_eq!(mc_color(String::from("\u{a7}c\u{a7}kA B")), "? ?");
}

#[test]
fn styled_text_keeps_characters_when_colors_are_off() {
    colored::control::set_override(false);
    assert_eq!(mc_color(String::from("\u{a7}cRed \u{a7}lbold")), "Red bold");
}
