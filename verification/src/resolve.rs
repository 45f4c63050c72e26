//! Nearest-color resolver: map a pixel to the palette entry at the smallest
//! squared channel distance, earlier entries winning ties.

use vstd::prelude::*;
use crate::color::Color;
use crate::palette::Palette;
use crate::Error;

verus! {

/// Squared Euclidean distance in RGB channel space: plain linear channel
/// differences, no gamma and no perceptual weighting.
pub open spec fn sq_dist(a: Color, b: Color) -> int {
    (a.red - b.red) * (a.red - b.red)
        + (a.green - b.green) * (a.green - b.green)
        + (a.blue - b.blue) * (a.blue - b.blue)
}

/// Position of the winning entry among the first `n` entries: the first one
/// whose distance to `pixel` is minimal. A later entry displaces the current
/// winner only with a strictly lower distance.
pub open spec fn best_in_prefix(pixel: Color, entries: Seq<(usize, Color)>, n: int) -> int
    recommends 1 <= n <= entries.len(),
    decreases n,
{
    if n <= 1 {
        0
    } else {
        let b = best_in_prefix(pixel, entries, n - 1);
        if sq_dist(pixel, entries[n - 1].1) < sq_dist(pixel, entries[b].1) {
            n - 1
        } else {
            b
        }
    }
}

/// Position of the entry `nearest` resolves to: first minimum over the whole
/// palette, in iteration (definition) order.
pub open spec fn nearest_pos(pixel: Color, entries: Seq<(usize, Color)>) -> int
    recommends entries.len() > 0,
{
    best_in_prefix(pixel, entries, entries.len() as int)
}

proof fn lemma_best_in_prefix_props(pixel: Color, entries: Seq<(usize, Color)>, n: int)
    requires
        1 <= n <= entries.len(),
    ensures
        0 <= best_in_prefix(pixel, entries, n) < n,
        forall|j: int| 0 <= j < n ==>
            sq_dist(pixel, entries[best_in_prefix(pixel, entries, n)].1)
                <= sq_dist(pixel, #[trigger] entries[j].1),
        forall|j: int| 0 <= j < best_in_prefix(pixel, entries, n) ==>
            sq_dist(pixel, #[trigger] entries[j].1)
                > sq_dist(pixel, entries[best_in_prefix(pixel, entries, n)].1),
    decreases n,
{
    if n > 1 {
        lemma_best_in_prefix_props(pixel, entries, n - 1);
    }
}

/// Nearest-color correctness: the resolved position carries a distance no
/// greater than any entry's, and every entry before it is strictly farther
/// (so the first minimum wins).
pub proof fn lemma_nearest_pos_minimal(pixel: Color, entries: Seq<(usize, Color)>)
    requires
        entries.len() > 0,
    ensures
        0 <= nearest_pos(pixel, entries) < entries.len(),
        forall|j: int| 0 <= j < entries.len() ==>
            sq_dist(pixel, entries[nearest_pos(pixel, entries)].1)
                <= sq_dist(pixel, #[trigger] entries[j].1),
        forall|j: int| 0 <= j < nearest_pos(pixel, entries) ==>
            sq_dist(pixel, #[trigger] entries[j].1)
                > sq_dist(pixel, entries[nearest_pos(pixel, entries)].1),
{
    lemma_best_in_prefix_props(pixel, entries, entries.len() as int);
}

/// Tie-break determinism: of two entries at the same distance from the pixel,
/// the later one is never the result, whatever the pixel and whatever the
/// rest of the palette holds.
pub proof fn lemma_nearest_tie_break(
    pixel: Color,
    entries: Seq<(usize, Color)>,
    i: int,
    j: int,
)
    requires
        0 <= i < j < entries.len(),
        sq_dist(pixel, entries[i].1) == sq_dist(pixel, entries[j].1),
    ensures
        nearest_pos(pixel, entries) != j,
{
    lemma_nearest_pos_minimal(pixel, entries);
}

/// Squared distance, computed in 32-bit arithmetic; the sum is at most
/// 3 * 255 * 255.
fn dist_exec(a: &Color, b: &Color) -> (r: u32)
    ensures
        r as int == sq_dist(*a, *b),
{
    let dr: i32 = a.red as i32 - b.red as i32;
    let dg: i32 = a.green as i32 - b.green as i32;
    let db: i32 = a.blue as i32 - b.blue as i32;
    proof {
        assert(dr * dr <= 255 * 255 && dr * dr >= 0) by (nonlinear_arith)
            requires -255 <= dr <= 255;
        assert(dg * dg <= 255 * 255 && dg * dg >= 0) by (nonlinear_arith)
            requires -255 <= dg <= 255;
        assert(db * db <= 255 * 255 && db * db >= 0) by (nonlinear_arith)
            requires -255 <= db <= 255;
    }
    (dr * dr) as u32 + (dg * dg) as u32 + (db * db) as u32
}

/// Resolve a pixel to the index of the closest palette entry by squared
/// channel distance; among equidistant entries the one encountered first in
/// palette iteration order wins. An empty palette has no nearest entry.
pub fn nearest(pixel: &Color, palette: &Palette) -> (r: Result<usize, Error>)
    ensures
        palette.entries@.len() == 0
            ==> r == Err::<usize, Error>(Error::EmptyPalette),
        palette.entries@.len() > 0
            ==> r == Ok::<usize, Error>(
                palette.entries@[nearest_pos(*pixel, palette.entries@)].0,
            ),
{
    let len = palette.entries.len();
    if len == 0 {
        return Err(Error::EmptyPalette);
    }
    let mut best_pos: usize = 0;
    let mut best_dist: u32 = dist_exec(pixel, &palette.entries[0].1);
    let mut k: usize = 1;
    while k < len
        invariant
            1 <= k <= len,
            len == palette.entries@.len(),
            0 <= best_pos < k,
            best_pos == best_in_prefix(*pixel, palette.entries@, k as int),
            best_dist as int == sq_dist(*pixel, palette.entries@[best_pos as int].1),
        decreases len - k,
    {
        let d = dist_exec(pixel, &palette.entries[k].1);
        if d < best_dist {
            best_pos = k;
            best_dist = d;
        }
        k += 1;
    }
    Ok(palette.entries[best_pos].0)
}

} // verus!
