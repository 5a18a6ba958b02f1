use piccolo::color_format::{rgb_function, ColorFormat};
use piccolo::rgb::{hex_code, parse_hex_to_rgb, rgb_label, HexError, Rgb8};

fn rgb(red: u8, green: u8, blue: u8) -> Rgb8 {
    Rgb8 { red, green, blue }
}

#[test]
fn hex_code_writes_upper_case_pairs() {
    assert_eq!(hex_code(rgb(255, 128, 0)), "#FF8000");
    assert_eq!(hex_code(rgb(0, 0, 0)), "#000000");
    assert_eq!(hex_code(rgb(10, 171, 205)), "#0AABCD");
}

#[test]
fn parse_reads_channels() {
    assert_eq!(parse_hex_to_rgb("#FF8000"), Ok(rgb(255, 128, 0)));
    assert_eq!(parse_hex_to_rgb("0aabcd"), Ok(rgb(10, 171, 205)));
    assert_eq!(parse_hex_to_rgb("#0AabCD"), Ok(rgb(10, 171, 205)));
}

#[test]
fn parse_ignores_letter_case() {
    assert_eq!(parse_hex_to_rgb("#abcdef"), parse_hex_to_rgb("#ABCDEF"));
    assert_eq!(parse_hex_to_rgb("#abcdef"), Ok(rgb(0xab, 0xcd, 0xef)));
    assert_eq!(parse_hex_to_rgb("#ggcdef"), parse_hex_to_rgb("#GGCDEF"));
}

#[test]
fn parse_drops_every_leading_hash() {
    assert_eq!(parse_hex_to_rgb("###123456"), Ok(rgb(0x12, 0x34, 0x56)));
    assert_eq!(parse_hex_to_rgb("##123456"), parse_hex_to_rgb("123456"));
}

#[test]
fn parse_accepts_a_plus_sign_in_a_channel() {
    assert_eq!(parse_hex_to_rgb("#+f+a+1"), Ok(rgb(15, 10, 1)));
}

#[test]
fn parse_refuses_wrong_length() {
    assert_eq!(parse_hex_to_rgb("#FFF"), Err(HexError::WrongLength));
    assert_eq!(parse_hex_to_rgb(""), Err(HexError::WrongLength));
    assert_eq!(parse_hex_to_rgb("#FF80001"), Err(HexError::WrongLength));
    assert_eq!(parse_hex_to_rgb("#"), Err(HexError::WrongLength));
    assert_eq!(
        HexError::WrongLength.message(),
        "Hex string must be 6 characters long"
    );
}

#[test]
fn parse_refuses_invalid_digits() {
    assert_eq!(parse_hex_to_rgb("#GG0000"), Err(HexError::InvalidDigit));
    assert_eq!(parse_hex_to_rgb("#-10000"), Err(HexError::InvalidDigit));
    assert_eq!(parse_hex_to_rgb("#0+0000"), Err(HexError::InvalidDigit));
    assert_eq!(parse_hex_to_rgb("#12 456"), Err(HexError::InvalidDigit));
    assert_eq!(parse_hex_to_rgb("#éabcd"), Err(HexError::InvalidDigit));
    assert_eq!(parse_hex_to_rgb("GG0\u{e9}0"), Err(HexError::InvalidDigit));
    assert_eq!(HexError::InvalidDigit.message(), "invalid digit found in string");
}

#[test]
fn hex_code_reads_back() {
    for (r, g, b) in [(0u8, 0u8, 0u8), (255, 255, 255), (1, 160, 255), (99, 100, 9)] {
        let c = rgb(r, g, b);
        assert_eq!(parse_hex_to_rgb(&hex_code(c)), Ok(c));
    }
}

#[test]
fn rgb_label_writes_decimal() {
    assert_eq!(rgb_label(rgb(255, 128, 0)), "RGB: 255, 128, 0");
    assert_eq!(rgb_label(rgb(7, 42, 100)), "RGB: 7, 42, 100");
}

#[test]
fn rgb_function_writes_decimal() {
    assert_eq!(rgb_function(rgb(255, 128, 0)), "rgb(255, 128, 0)");
    assert_eq!(rgb_function(rgb(0, 9, 10)), "rgb(0, 9, 10)");
}

#[test]
fn formats_are_listed_in_order() {
    let labels: Vec<&str> = ColorFormat::all().iter().map(|f| f.label()).collect();
    assert_eq!(
        labels,
        vec!["RGB", "HSL", "HSV", "HWB", "OkLab", "OkLch", "CIELab", "CIELch", "XYZ - D65"]
    );
}

#[test]
fn format_derefs_to_its_label() {
    let f = ColorFormat::Xyz;
    let s: &str = &f;
    assert_eq!(s, "XYZ - D65");
}
