use perry_codegen::color::{color_string_panics, parse_color_string, Channel, Rgba};

fn c(num: u32, den: u32) -> Channel {
    Channel { num, den }
}

fn rgba(r: Channel, g: Channel, b: Channel, a: Channel) -> Rgba {
    Rgba { r, g, b, a }
}

#[test]
fn named_colors_ignore_case_and_whitespace() {
    let one = c(1, 1);
    let zero = c(0, 1);
    assert_eq!(parse_color_string("white"), Some(rgba(one, one, one, one)));
    assert_eq!(parse_color_string("  White\t"), Some(rgba(one, one, one, one)));
    assert_eq!(parse_color_string("BLACK"), Some(rgba(zero, zero, zero, one)));
    assert_eq!(parse_color_string("green"), Some(rgba(zero, c(502, 1000), zero, one)));
    assert_eq!(parse_color_string("grey"), parse_color_string("gray"));
    assert_eq!(parse_color_string("transparent"), Some(rgba(zero, zero, zero, zero)));
    assert_eq!(parse_color_string("magenta"), Some(rgba(one, zero, one, one)));
    assert_eq!(parse_color_string("purple"), None);
}

#[test]
fn short_hex_forms_double_each_digit() {
    assert_eq!(parse_color_string("#fff"), Some(rgba(c(255, 255), c(255, 255), c(255, 255), c(1, 1))));
    assert_eq!(parse_color_string("#A0c"), Some(rgba(c(170, 255), c(0, 255), c(204, 255), c(1, 1))));
    assert_eq!(parse_color_string("#1234"), Some(rgba(c(17, 255), c(34, 255), c(51, 255), c(68, 255))));
    assert_eq!(parse_color_string("#ggg"), None);
    assert_eq!(parse_color_string("#12"), None);
}

#[test]
fn long_hex_forms_take_byte_pairs() {
    assert_eq!(parse_color_string("#FF8000"), Some(rgba(c(255, 255), c(128, 255), c(0, 255), c(1, 1))));
    assert_eq!(parse_color_string(" #11223344 "), Some(rgba(c(17, 255), c(34, 255), c(51, 255), c(68, 255))));
    assert_eq!(parse_color_string("#+f+f+f"), None);
    assert_eq!(parse_color_string("#+f0000"), None);
    assert_eq!(parse_color_string("#00+f00ff"), None);
    assert_eq!(parse_color_string("#12345"), None);
    assert_eq!(parse_color_string("#12-456"), None);
    assert_eq!(parse_color_string("#123456789"), None);
}

#[test]
fn not_a_color() {
    assert_eq!(parse_color_string(""), None);
    assert_eq!(parse_color_string("#"), None);
    assert_eq!(parse_color_string("rgb(1, 2, 3)"), None);
}

#[test]
fn multibyte_characters_in_hex() {
    assert!(!color_string_panics("#é1234"));
    assert_eq!(parse_color_string("#é1234"), None);
    assert!(!color_string_panics("#€"));
    assert_eq!(parse_color_string("#€"), None);
    assert_eq!(parse_color_string("#a€"), None);
    assert!(color_string_panics("#aé123"));
    assert!(color_string_panics("#€€"));
    assert!(!color_string_panics("#ffffff"));
    assert!(!color_string_panics("white"));
}
