use makecode_img::color::Color;
use makecode_img::palette::{ColorParser, Palette};
use makecode_img::Error;

fn rgb(r: u8, g: u8, b: u8) -> Color {
    Color { red: r, green: g, blue: b }
}

#[test]
fn parse_one_palette() {
    let set = ColorParser::parse_palettes("pal1\n#000000\n#FFFFFF\n").unwrap();
    let p = set.lookup("pal1").unwrap();
    assert_eq!(p.entries, vec![(0, rgb(0, 0, 0)), (1, rgb(255, 255, 255))]);
}

#[test]
fn parse_two_palettes_with_blank_lines() {
    let doc = "warm\n#FF0000\n#FF8135\n\ncool\n#003FAD\n";
    let set = ColorParser::parse_palettes(doc).unwrap();
    let warm = set.lookup("warm").unwrap();
    assert_eq!(warm.entries, vec![(0, rgb(0xFF, 0, 0)), (1, rgb(0xFF, 0x81, 0x35))]);
    let cool = set.lookup("cool").unwrap();
    assert_eq!(cool.entries, vec![(0, rgb(0, 0x3F, 0xAD))]);
}

#[test]
fn parse_without_trailing_newline() {
    let set = ColorParser::parse_palettes("p\n#102030").unwrap();
    let p = set.lookup("p").unwrap();
    assert_eq!(p.entries, vec![(0, rgb(0x10, 0x20, 0x30))]);
}

#[test]
fn color_before_any_name_fails() {
    assert_eq!(
        ColorParser::parse_palettes("#000000\n"),
        Err(Error::PaletteParseError { line: 0 })
    );
}

#[test]
fn malformed_color_literal_fails() {
    assert_eq!(
        ColorParser::parse_palettes("p\n#XYZ\n"),
        Err(Error::PaletteParseError { line: 1 })
    );
    assert_eq!(
        ColorParser::parse_palettes("p\n#000000\n#12345\n"),
        Err(Error::PaletteParseError { line: 2 })
    );
}

#[test]
fn block_without_colors_fails() {
    // a name directly followed by another name
    assert_eq!(
        ColorParser::parse_palettes("p\nq\n#000000\n"),
        Err(Error::PaletteParseError { line: 1 })
    );
    // a name at the end of the document
    assert_eq!(
        ColorParser::parse_palettes("p\n"),
        Err(Error::PaletteParseError { line: 1 })
    );
}

#[test]
fn empty_document_is_an_empty_set() {
    let set = ColorParser::parse_palettes("").unwrap();
    assert_eq!(set.lookup("anything"), Err(Error::UnknownPalette));
}

#[test]
fn lookup_unknown_name_fails() {
    let set = ColorParser::parse_palettes("p\n#000000\n").unwrap();
    assert_eq!(set.lookup("q"), Err(Error::UnknownPalette));
}

#[test]
fn duplicate_palette_name_last_wins() {
    let doc = "p\n#000000\np\n#FFFFFF\n";
    let set = ColorParser::parse_palettes(doc).unwrap();
    let p = set.lookup("p").unwrap();
    assert_eq!(p.entries, vec![(0, rgb(255, 255, 255))]);
}

#[test]
fn builtin_palette_fixed_order() {
    let p = Palette::builtin();
    assert_eq!(p.entries.len(), 15);
    // index 1 is white, index 15 is black, exactly
    assert_eq!(p.entries[0], (1, rgb(0xFF, 0xFF, 0xFF)));
    assert_eq!(p.entries[14], (15, rgb(0x00, 0x00, 0x00)));
    // indices run 1..=15 in order
    for (pos, e) in p.entries.iter().enumerate() {
        assert_eq!(e.0, pos + 1);
    }
}
