//! Image serializer: walk a decoded pixel grid row-major, resolve every pixel
//! to its nearest palette index, and emit the image literal grammar.

use vstd::prelude::*;
use vstd::string::StringExecFns;
use crate::color::{Color, hex_lower, hex_lower_str};
use crate::palette::Palette;
use crate::resolve::{nearest, nearest_pos};
use crate::Error;

verus! {

/// A rectangular, row-major grid of colors, handed over by the external
/// decoder/resizer and read-only here.
pub struct PixelGrid {
    pub width: usize,
    pub height: usize,
    pub pixels: Vec<Color>,
}

impl PixelGrid {
    /// The grid really is width x height, row-major.
    pub open spec fn wf(&self) -> bool {
        self.pixels@.len() == self.width * self.height
    }

    /// The color at column `x` of row `y`.
    pub open spec fn pixel_at(&self, x: int, y: int) -> Color
        recommends 0 <= x < self.width && 0 <= y < self.height,
    {
        self.pixels@[y * self.width + x]
    }
}

/// The palette index a pixel resolves to.
pub open spec fn resolved_index(pixel: Color, entries: Seq<(usize, Color)>) -> int
    recommends entries.len() > 0,
{
    entries[nearest_pos(pixel, entries)].0 as int
}

/// Every pixel of the grid resolves to an index a single hex digit can
/// render.
pub open spec fn all_renderable(grid: PixelGrid, entries: Seq<(usize, Color)>) -> bool {
    forall|y: int, x: int|
        0 <= y < grid.height && 0 <= x < grid.width
            ==> #[trigger] resolved_index(grid.pixel_at(x, y), entries) <= 15
}

/// The first `x` cells of row `y`: one lowercase digit and one space each,
/// so a row keeps a trailing separator after its last column.
pub open spec fn spec_cells(grid: PixelGrid, entries: Seq<(usize, Color)>, y: int, x: int) -> Seq<char>
    decreases x,
{
    if x <= 0 {
        Seq::empty()
    } else {
        spec_cells(grid, entries, y, x - 1)
            + seq![hex_lower(resolved_index(grid.pixel_at(x - 1, y), entries))]
            + " "@
    }
}

/// One serialized row: a fixed 4-space indent, the cells, a newline.
pub open spec fn spec_row(grid: PixelGrid, entries: Seq<(usize, Color)>, y: int) -> Seq<char> {
    "    "@ + spec_cells(grid, entries, y, grid.width as int) + "\n"@
}

/// The first `y` serialized rows, top to bottom.
pub open spec fn spec_rows(grid: PixelGrid, entries: Seq<(usize, Color)>, y: int) -> Seq<char>
    decreases y,
{
    if y <= 0 {
        Seq::empty()
    } else {
        spec_rows(grid, entries, y - 1) + spec_row(grid, entries, y - 1)
    }
}

/// The whole image literal: header token, rows, closing token.
pub open spec fn spec_image(grid: PixelGrid, entries: Seq<(usize, Color)>) -> Seq<char> {
    "img`"@ + spec_rows(grid, entries, grid.height as int) + "`"@
}

/// Serialize one grid against a palette: rows top to bottom, columns left to
/// right, each pixel as the single lowercase hex digit of its nearest index.
/// An empty palette cannot resolve anything; an index above 15 cannot be
/// rendered and is an error, never truncated.
pub fn serialize(grid: &PixelGrid, palette: &Palette) -> (r: Result<String, Error>)
    requires
        grid.wf(),
    ensures
        palette.entries@.len() == 0
            ==> r == Err::<String, Error>(Error::EmptyPalette),
        palette.entries@.len() > 0 && all_renderable(*grid, palette.entries@)
            ==> (r matches Ok(s) && s@ == spec_image(*grid, palette.entries@)),
        palette.entries@.len() > 0 && !all_renderable(*grid, palette.entries@)
            ==> r == Err::<String, Error>(Error::IndexOutOfRange),
{
    if palette.entries.len() == 0 {
        return Err(Error::EmptyPalette);
    }
    let ghost entries = palette.entries@;
    let mut s = String::from_str("img`");
    let mut y: usize = 0;
    while y < grid.height
        invariant
            0 <= y <= grid.height,
            grid.wf(),
            palette.entries@ == entries,
            entries.len() > 0,
            s@ == "img`"@ + spec_rows(*grid, entries, y as int),
            forall|yy: int, xx: int|
                0 <= yy < y && 0 <= xx < grid.width
                    ==> #[trigger] resolved_index(grid.pixel_at(xx, yy), entries) <= 15,
        decreases grid.height - y,
    {
        s.append("    ");
        let mut x: usize = 0;
        while x < grid.width
            invariant
                0 <= x <= grid.width,
                0 <= y < grid.height,
                grid.wf(),
                palette.entries@ == entries,
                entries.len() > 0,
                s@ == "img`"@ + spec_rows(*grid, entries, y as int) + "    "@
                    + spec_cells(*grid, entries, y as int, x as int),
                forall|yy: int, xx: int|
                    0 <= yy < y && 0 <= xx < grid.width
                        ==> #[trigger] resolved_index(grid.pixel_at(xx, yy), entries) <= 15,
                forall|xx: int|
                    0 <= xx < x
                        ==> #[trigger] resolved_index(grid.pixel_at(xx, y as int), entries) <= 15,
            decreases grid.width - x,
        {
            let pixel = palette_pixel(grid, y, x);
            let idx = match nearest(&pixel, palette) {
                Ok(i) => i,
                Err(e) => {
                    return Err(e);
                },
            };
            if idx > 15 {
                proof {
                    assert(resolved_index(grid.pixel_at(x as int, y as int), entries) > 15);
                    assert(!all_renderable(*grid, entries));
                }
                return Err(Error::IndexOutOfRange);
            }
            s.append(hex_lower_str(idx as u8));
            s.append(" ");
            x += 1;
        }
        s.append("\n");
        proof {
            assert(s@ == "img`"@ + spec_rows(*grid, entries, y as int)
                + spec_row(*grid, entries, y as int));
        }
        y += 1;
    }
    s.append("`");
    proof {
        assert(all_renderable(*grid, entries));
    }
    Ok(s)
}

/// The color at column `x` of row `y` of a well-formed grid.
fn palette_pixel(grid: &PixelGrid, y: usize, x: usize) -> (r: Color)
    requires
        grid.wf(),
        x < grid.width,
        y < grid.height,
    ensures
        r == grid.pixel_at(x as int, y as int),
{
    let n = grid.pixels.len();
    proof {
        assert(y * grid.width + x < grid.height * grid.width) by (nonlinear_arith)
            requires
                0 <= x < grid.width,
                0 <= y < grid.height;
        assert(grid.width * grid.height == grid.height * grid.width) by (nonlinear_arith);
        assert(y * grid.width + x < n);
    }
    grid.pixels[y * grid.width + x]
}

/// The serialized frames so far, each image literal followed by a comma.
pub open spec fn spec_frame_list(frames: Seq<PixelGrid>, entries: Seq<(usize, Color)>) -> Seq<char>
    decreases frames.len(),
{
    if frames.len() == 0 {
        Seq::empty()
    } else {
        spec_frame_list(frames.drop_last(), entries)
            + spec_image(frames.last(), entries)
            + ","@
    }
}

/// A frame sequence literal: the comma-terminated image literals, bracketed.
pub open spec fn spec_frames(frames: Seq<PixelGrid>, entries: Seq<(usize, Color)>) -> Seq<char> {
    "["@ + spec_frame_list(frames, entries) + "]"@
}

/// Every frame of the sequence renders within one hex digit per pixel.
pub open spec fn all_frames_renderable(frames: Seq<PixelGrid>, entries: Seq<(usize, Color)>) -> bool {
    forall|i: int| 0 <= i < frames.len() ==> all_renderable(#[trigger] frames[i], entries)
}

/// Serialize an ordered sequence of frames: one image literal per frame in
/// the given order, each followed by a comma, the whole wrapped in one
/// bracket pair. Frame order is the caller's: this core has no ordering
/// authority over it. The first failing frame aborts the whole run.
pub fn serialize_frames(frames: &Vec<PixelGrid>, palette: &Palette) -> (r: Result<String, Error>)
    requires
        forall|i: int| 0 <= i < frames@.len() ==> (#[trigger] frames@[i]).wf(),
    ensures
        frames@.len() == 0
            ==> (r matches Ok(s) && s@ == spec_frames(frames@, palette.entries@)),
        frames@.len() > 0 && palette.entries@.len() == 0
            ==> r == Err::<String, Error>(Error::EmptyPalette),
        frames@.len() > 0 && palette.entries@.len() > 0
            && all_frames_renderable(frames@, palette.entries@)
            ==> (r matches Ok(s) && s@ == spec_frames(frames@, palette.entries@)),
        frames@.len() > 0 && palette.entries@.len() > 0
            && !all_frames_renderable(frames@, palette.entries@)
            ==> r == Err::<String, Error>(Error::IndexOutOfRange),
{
    let ghost entries = palette.entries@;
    let mut s = String::from_str("[");
    let mut i: usize = 0;
    while i < frames.len()
        invariant
            0 <= i <= frames@.len(),
            palette.entries@ == entries,
            forall|k: int| 0 <= k < frames@.len() ==> (#[trigger] frames@[k]).wf(),
            s@ == "["@ + spec_frame_list(frames@.take(i as int), entries),
            forall|k: int| 0 <= k < i ==> all_renderable(#[trigger] frames@[k], entries),
            i > 0 ==> entries.len() > 0,
        decreases frames@.len() - i,
    {
        let frame_text = match serialize(&frames[i], palette) {
            Ok(t) => t,
            Err(e) => {
                return Err(e);
            },
        };
        s.append(frame_text.as_str());
        s.append(",");
        proof {
            assert(frames@.take(i + 1).drop_last() =~= frames@.take(i as int));
            assert(frames@.take(i + 1).last() == frames@[i as int]);
        }
        i += 1;
    }
    s.append("]");
    proof {
        assert(frames@.take(frames@.len() as int) =~= frames@);
    }
    Ok(s)
}

} // verus!
