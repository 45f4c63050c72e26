use makecode_img::color::{parse_hex, format_hex, Color};
use makecode_img::Error;

#[test]
fn parse_hex_with_hash() {
    assert_eq!(
        parse_hex("#FF00A1"),
        Ok(Color { red: 0xFF, green: 0x00, blue: 0xA1 })
    );
}

#[test]
fn parse_hex_without_hash() {
    assert_eq!(
        parse_hex("102030"),
        Ok(Color { red: 0x10, green: 0x20, blue: 0x30 })
    );
}

#[test]
fn parse_hex_case_insensitive() {
    assert_eq!(parse_hex("#aAbBcC"), parse_hex("#AABBCC"));
    assert_eq!(
        parse_hex("#ff93c4"),
        Ok(Color { red: 0xFF, green: 0x93, blue: 0xC4 })
    );
}

#[test]
fn parse_hex_rejects_wrong_length() {
    assert_eq!(parse_hex("#FFF"), Err(Error::InvalidColorFormat));
    assert_eq!(parse_hex(""), Err(Error::InvalidColorFormat));
    assert_eq!(parse_hex("#"), Err(Error::InvalidColorFormat));
    assert_eq!(parse_hex("#1234567"), Err(Error::InvalidColorFormat));
    assert_eq!(parse_hex("12345"), Err(Error::InvalidColorFormat));
}

#[test]
fn parse_hex_rejects_bad_alphabet() {
    assert_eq!(parse_hex("#GG0000"), Err(Error::InvalidColorFormat));
    assert_eq!(parse_hex("#12345z"), Err(Error::InvalidColorFormat));
    assert_eq!(parse_hex("##12345"), Err(Error::InvalidColorFormat));
}

#[test]
fn format_hex_exact() {
    assert_eq!(format_hex(&Color { red: 0xFF, green: 0x10, blue: 0x00 }), "#FF1000");
    assert_eq!(format_hex(&Color { red: 0, green: 0, blue: 0 }), "#000000");
    assert_eq!(format_hex(&Color { red: 0x0A, green: 0xBC, blue: 0xDE }), "#0ABCDE");
}

#[test]
fn round_trip_parse_of_format() {
    let samples = [
        Color { red: 0, green: 0, blue: 0 },
        Color { red: 255, green: 255, blue: 255 },
        Color { red: 0x12, green: 0xAB, blue: 0x4C },
        Color { red: 1, green: 16, blue: 240 },
        Color { red: 0x91, green: 0x46, blue: 0x3D },
    ];
    for c in samples {
        assert_eq!(parse_hex(&format_hex(&c)), Ok(c));
    }
}
