use makecode_img::color::Color;
use makecode_img::export::export;
use makecode_img::palette::Palette;
use makecode_img::size::parse_size;
use makecode_img::Error;

fn rgb(r: u8, g: u8, b: u8) -> Color {
    Color { red: r, green: g, blue: b }
}

#[test]
fn export_two_entries() {
    let palette = Palette {
        entries: vec![(0, rgb(0, 0, 0)), (1, rgb(255, 255, 255))],
    };
    assert_eq!(
        export(&palette),
        "color.setColor(0, color.parseColorString(\"#000000\"))\n\
         color.setColor(1, color.parseColorString(\"#FFFFFF\"))\n"
    );
}

#[test]
fn export_multi_digit_index_in_decimal() {
    let palette = Palette {
        entries: vec![(12, rgb(0x5C, 0x40, 0x6C))],
    };
    assert_eq!(
        export(&palette),
        "color.setColor(12, color.parseColorString(\"#5C406C\"))\n"
    );
}

#[test]
fn export_empty_palette_is_empty_text() {
    let palette = Palette { entries: vec![] };
    assert_eq!(export(&palette), "");
}

#[test]
fn parse_size_ok() {
    assert_eq!(parse_size("16x16"), Ok((16, 16)));
    assert_eq!(parse_size("1x2"), Ok((1, 2)));
    assert_eq!(parse_size("320x240"), Ok((320, 240)));
    assert_eq!(parse_size("4294967295x1"), Ok((u32::MAX, 1)));
}

#[test]
fn parse_size_rejects_wrong_shape() {
    assert_eq!(parse_size("16"), Err(Error::InvalidDimensions));
    assert_eq!(parse_size("16x"), Err(Error::InvalidDimensions));
    assert_eq!(parse_size("x16"), Err(Error::InvalidDimensions));
    assert_eq!(parse_size("16x16x16"), Err(Error::InvalidDimensions));
    assert_eq!(parse_size(""), Err(Error::InvalidDimensions));
}

#[test]
fn parse_size_rejects_non_numeric() {
    assert_eq!(parse_size("axb"), Err(Error::InvalidDimensions));
    assert_eq!(parse_size("16x1f"), Err(Error::InvalidDimensions));
    assert_eq!(parse_size("-1x2"), Err(Error::InvalidDimensions));
    assert_eq!(parse_size("+1x2"), Err(Error::InvalidDimensions));
}

#[test]
fn parse_size_rejects_overflow() {
    assert_eq!(parse_size("4294967296x1"), Err(Error::InvalidDimensions));
    assert_eq!(parse_size("1x99999999999999999999"), Err(Error::InvalidDimensions));
}
