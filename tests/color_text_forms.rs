use zsh_infinite::color::NamedColor;
use zsh_infinite::color_text::{deserialize_from_str, display_named_color, parse_hex_color, serialize_to_string};
use zsh_infinite::text::parse_u8_text;

#[test]
fn reads_names_and_none() {
    assert_eq!(deserialize_from_str("None"), Ok(None));
    assert_eq!(deserialize_from_str("nOnE"), Ok(None));
    assert_eq!(deserialize_from_str("Red"), Ok(Some(NamedColor::Red)));
    assert_eq!(deserialize_from_str("LightMagenta"), Ok(Some(NamedColor::LightMagenta)));
    assert!(deserialize_from_str("red").is_err());
    assert!(deserialize_from_str("Purple").is_err());
}

#[test]
fn reads_codes_and_full_colors() {
    assert_eq!(deserialize_from_str("Code256(200)"), Ok(Some(NamedColor::Code256(200))));
    assert_eq!(deserialize_from_str("FullColor(1, 2,3)"), Ok(Some(NamedColor::FullColor(1, 2, 3))));
    assert!(deserialize_from_str("Code256(256)").is_err());
    assert!(deserialize_from_str("Code256()").is_err());
    assert!(deserialize_from_str("FullColor(1,2)").is_err());
    assert!(deserialize_from_str("FullColor(1,2,3,4)").is_err());
    assert!(deserialize_from_str("FullColor(1,x,3)").is_err());
}

#[test]
fn writes_and_reads_back() {
    let colors = [
        None,
        Some(NamedColor::Black),
        Some(NamedColor::LightWhite),
        Some(NamedColor::Code256(0)),
        Some(NamedColor::Code256(255)),
        Some(NamedColor::FullColor(255, 0, 16)),
    ];
    for c in colors {
        assert_eq!(deserialize_from_str(&serialize_to_string(&c)), Ok(c));
    }
    assert_eq!(serialize_to_string(&Some(NamedColor::FullColor(1, 20, 255))), "FullColor(1,20,255)");
    assert_eq!(serialize_to_string(&None), "None");
}

#[test]
fn display_forms() {
    assert_eq!(display_named_color(&NamedColor::FullColor(255, 0, 16)), "#FF0010");
    assert_eq!(display_named_color(&NamedColor::Code256(42)), "Code256(42)");
    assert_eq!(display_named_color(&NamedColor::Cyan), "Cyan");
}

#[test]
fn hex_colors() {
    assert_eq!(parse_hex_color("#ff0010"), Some((255, 0, 16)));
    assert_eq!(parse_hex_color("#00FFaa"), Some((0, 255, 170)));
    assert_eq!(parse_hex_color("#ff001"), None);
    assert_eq!(parse_hex_color("ff00100"), None);
    assert_eq!(parse_hex_color("#ff00g0"), None);
    assert_eq!(parse_hex_color("#+F+F+F"), Some((15, 15, 15)));
    assert_eq!(parse_hex_color("#+a0010"), Some((10, 0, 16)));
    assert_eq!(parse_hex_color("#F+0000"), None);
    assert_eq!(parse_hex_color("#-10000"), None);
    assert_eq!(parse_hex_color("#++0000"), None);
    assert_eq!(parse_hex_color("#aé0000"), None);
}

#[test]
fn decimal_bytes() {
    assert_eq!(parse_u8_text("0"), Some(0));
    assert_eq!(parse_u8_text("+255"), Some(255));
    assert_eq!(parse_u8_text("007"), Some(7));
    assert_eq!(parse_u8_text("256"), None);
    assert_eq!(parse_u8_text("99999999999999999999"), None);
    assert_eq!(parse_u8_text(""), None);
    assert_eq!(parse_u8_text("+"), None);
    assert_eq!(parse_u8_text("-1"), None);
}
