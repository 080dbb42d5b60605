use mcstat::codes::Rgb;
use mcstat::interp::interpret;
use mcstat::style::Fragment;

fn plain_line(s: &str) -> Vec<Fragment> {
    s.chars().map(Fragment::Plain).collect()
}

fn styled(ch: char, rgb: (u8, u8, u8)) -> Fragment {
    Fragment::Styled {
        ch,
        color: Rgb { r: rgb.0, g: rgb.1, b: rgb.2 },
        bold: false,
        strikethrough: false,
        underline: false,
        italic: false,
    }
}

#[test]
fn no_markup_lines_trimmed() {
    let got = interpret("  Hello\nWorld");
    assert_eq!(got, vec![plain_line("Hello"), plain_line("World")]);
}

#[test]
fn reset_restores_plain() {
    let got = interpret("\u{a7}a\u{a7}l\u{a7}k\u{a7}rX");
    assert_eq!(got, vec![vec![Fragment::Plain('X')]]);
}

#[test]
fn color_after_style_clears_style() {
    let got = interpret("\u{a7}l\u{a7}cX");
    assert_eq!(got, vec![vec![styled('X', (255, 85, 85))]]);
}

#[test]
fn style_after_color_is_kept() {
    let got = interpret("\u{a7}c\u{a7}lX");
    let expected = Fragment::Styled {
        ch: 'X',
        color: Rgb { r: 255, g: 85, b: 85 },
        bold: true,
        strikethrough: false,
        underline: false,
        italic: false,
    };
    assert_eq!(got, vec![vec![expected]]);
}

#[test]
fn styles_apply_additively() {
    let got = interpret("\u{a7}c\u{a7}l\u{a7}n\u{a7}oX");
    let expected = Fragment::Styled {
        ch: 'X',
        color: Rgb { r: 255, g: 85, b: 85 },
        bold: true,
        strikethrough: false,
        underline: true,
        italic: true,
    };
    assert_eq!(got, vec![vec![expected]]);
}

#[test]
fn obfuscation_masks_non_spaces_only() {
    let got = interpret("\u{a7}c\u{a7}kA B");
    assert_eq!(
        got,
        vec![vec![styled('?', (255, 85, 85)), Fragment::Plain(' '), styled('?', (255, 85, 85))]]
    );
}

#[test]
fn obfuscation_without_color_is_inert() {
    let got = interpret("\u{a7}kA B");
    assert_eq!(got, vec![plain_line("A B")]);
}

#[test]
fn unknown_code_is_silent_noop() {
    let got = interpret("A\u{a7}zB");
    assert_eq!(got, vec![plain_line("AB")]);
}

#[test]
fn leading_code_hoisted_over_whitespace() {
    assert_eq!(interpret("  \u{a7}aHello"), interpret("\u{a7}aHello"));
    let got = interpret("\u{a7}aHello");
    assert_eq!(
        got,
        vec![vec![
            styled('H', (85, 255, 85)),
            styled('e', (85, 255, 85)),
            styled('l', (85, 255, 85)),
            styled('l', (85, 255, 85)),
            styled('o', (85, 255, 85)),
        ]]
    );
}

#[test]
fn no_leading_code_strips_whitespace_only() {
    assert_eq!(interpret("   Hello"), vec![plain_line("Hello")]);
}

#[test]
fn hoisting_strips_whitespace_after_the_code() {
    assert_eq!(interpret("\u{a7}a  Hi"), interpret("\u{a7}aHi"));
}

#[test]
fn trailing_escape_is_dropped() {
    assert_eq!(interpret("Test\u{a7}"), vec![plain_line("Test")]);
}

#[test]
fn lone_escape_line_renders_empty() {
    assert_eq!(interpret("\u{a7}"), vec![Vec::<Fragment>::new()]);
}

#[test]
fn state_does_not_carry_across_lines() {
    let got = interpret("\u{a7}cA\nB");
    assert_eq!(got, vec![vec![styled('A', (255, 85, 85))], vec![Fragment::Plain('B')]]);
}

#[test]
fn color_table_first_and_last_entries() {
    assert_eq!(interpret("\u{a7}0X"), vec![vec![styled('X', (0, 0, 0))]]);
    assert_eq!(interpret("\u{a7}fX"), vec![vec![styled('X', (205, 214, 244))]]);
}
