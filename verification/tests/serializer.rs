use makecode_img::color::Color;
use makecode_img::palette::Palette;
use makecode_img::serialize::{serialize, serialize_frames, PixelGrid};
use makecode_img::Error;

fn rgb(r: u8, g: u8, b: u8) -> Color {
    Color { red: r, green: g, blue: b }
}

fn two_color_palette() -> Palette {
    Palette {
        entries: vec![(0, rgb(0, 0, 0)), (1, rgb(255, 255, 255))],
    }
}

#[test]
fn serialization_shape_2x1() {
    let grid = PixelGrid {
        width: 2,
        height: 1,
        pixels: vec![rgb(0, 0, 0), rgb(255, 255, 255)],
    };
    let out = serialize(&grid, &two_color_palette()).unwrap();
    assert_eq!(out, "img`    0 1 \n`");
}

#[test]
fn serialization_rows_and_indent() {
    let grid = PixelGrid {
        width: 2,
        height: 2,
        pixels: vec![
            rgb(0, 0, 0), rgb(255, 255, 255),
            rgb(255, 255, 255), rgb(0, 0, 0),
        ],
    };
    let out = serialize(&grid, &two_color_palette()).unwrap();
    assert_eq!(out, "img`    0 1 \n    1 0 \n`");
}

#[test]
fn serialization_uses_lowercase_digits() {
    // a pixel resolving to index 10 renders as "a"
    let palette = Palette {
        entries: vec![(10, rgb(0, 0, 0)), (15, rgb(255, 255, 255))],
    };
    let grid = PixelGrid {
        width: 2,
        height: 1,
        pixels: vec![rgb(0, 0, 0), rgb(255, 255, 255)],
    };
    let out = serialize(&grid, &palette).unwrap();
    assert_eq!(out, "img`    a f \n`");
}

#[test]
fn empty_grid_serializes_to_bare_tokens() {
    let grid = PixelGrid { width: 0, height: 0, pixels: vec![] };
    let out = serialize(&grid, &two_color_palette()).unwrap();
    assert_eq!(out, "img``");
}

#[test]
fn index_overflow_is_an_error() {
    // 17 entries: a pixel resolving to index 16 cannot be one hex digit.
    let mut entries = Vec::new();
    for i in 0..17u8 {
        entries.push((i as usize, rgb(i * 15, i * 15, i * 15)));
    }
    let palette = Palette { entries };
    let grid = PixelGrid {
        width: 1,
        height: 1,
        pixels: vec![rgb(240, 240, 240)],
    };
    assert_eq!(serialize(&grid, &palette), Err(Error::IndexOutOfRange));
}

#[test]
fn serialize_with_empty_palette_fails() {
    let grid = PixelGrid { width: 1, height: 1, pixels: vec![rgb(0, 0, 0)] };
    let palette = Palette { entries: vec![] };
    assert_eq!(serialize(&grid, &palette), Err(Error::EmptyPalette));
}

#[test]
fn multi_frame_wrapping() {
    let frames = vec![
        PixelGrid { width: 1, height: 1, pixels: vec![rgb(0, 0, 0)] },
        PixelGrid { width: 1, height: 1, pixels: vec![rgb(255, 255, 255)] },
    ];
    let out = serialize_frames(&frames, &two_color_palette()).unwrap();
    // every frame is followed by a comma, even the last one
    assert_eq!(out, "[img`    0 \n`,img`    1 \n`,]");
}

#[test]
fn no_frames_gives_empty_brackets() {
    let frames: Vec<PixelGrid> = vec![];
    let out = serialize_frames(&frames, &two_color_palette()).unwrap();
    assert_eq!(out, "[]");
}

#[test]
fn multi_frame_empty_palette_fails() {
    let frames = vec![
        PixelGrid { width: 1, height: 1, pixels: vec![rgb(0, 0, 0)] },
    ];
    let palette = Palette { entries: vec![] };
    assert_eq!(serialize_frames(&frames, &palette), Err(Error::EmptyPalette));
}
