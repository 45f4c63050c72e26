use makecode_img::color::Color;
use makecode_img::palette::Palette;
use makecode_img::resolve::nearest;
use makecode_img::Error;

fn rgb(r: u8, g: u8, b: u8) -> Color {
    Color { red: r, green: g, blue: b }
}

#[test]
fn nearest_picks_minimum_distance() {
    // entries {#000000:0, #FFFFFF:1}, pixel #101010: 3 * 0x10^2 beats
    // 3 * 0xEF^2, so index 0 wins.
    let palette = Palette {
        entries: vec![(0, rgb(0, 0, 0)), (1, rgb(255, 255, 255))],
    };
    assert_eq!(nearest(&rgb(0x10, 0x10, 0x10), &palette), Ok(0));
    assert_eq!(nearest(&rgb(0xF0, 0xF0, 0xF0), &palette), Ok(1));
}

#[test]
fn nearest_returns_stored_index_not_position() {
    let palette = Palette {
        entries: vec![(7, rgb(0, 0, 0)), (3, rgb(255, 255, 255))],
    };
    assert_eq!(nearest(&rgb(1, 1, 1), &palette), Ok(7));
    assert_eq!(nearest(&rgb(250, 250, 250), &palette), Ok(3));
}

#[test]
fn tie_break_first_entry_wins() {
    // duplicate colors: both entries equidistant from every pixel, so the
    // first-encountered entry must win.
    let palette = Palette {
        entries: vec![(0, rgb(0, 0, 0)), (1, rgb(0, 0, 0))],
    };
    assert_eq!(nearest(&rgb(0, 0, 0), &palette), Ok(0));
    assert_eq!(nearest(&rgb(0x80, 0x80, 0x80), &palette), Ok(0));
    assert_eq!(nearest(&rgb(255, 255, 255), &palette), Ok(0));
}

#[test]
fn tie_break_equidistant_distinct_colors() {
    // #000000 and #000002 are both at squared distance 1 from #000001.
    let palette = Palette {
        entries: vec![(0, rgb(0, 0, 0)), (1, rgb(0, 0, 2))],
    };
    assert_eq!(nearest(&rgb(0, 0, 1), &palette), Ok(0));
}

#[test]
fn empty_palette_fails() {
    let palette = Palette { entries: vec![] };
    assert_eq!(nearest(&rgb(0, 0, 0), &palette), Err(Error::EmptyPalette));
    assert_eq!(nearest(&rgb(123, 45, 67), &palette), Err(Error::EmptyPalette));
}
