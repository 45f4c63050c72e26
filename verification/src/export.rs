//! Palette export: one scripting-API call per palette entry, in entry order.

use vstd::prelude::*;
use vstd::string::StringExecFns;
use crate::color::{Color, hex_lower, hex_lower_str, spec_format_hex, format_hex};
use crate::palette::Palette;

verus! {

/// Decimal digits of a non-negative number, most significant first.
pub open spec fn spec_dec(n: int) -> Seq<char>
    recommends n >= 0,
    decreases n,
{
    if n <= 9 {
        seq![hex_lower(n)]
    } else {
        spec_dec(n / 10) + seq![hex_lower(n % 10)]
    }
}

/// A number as decimal text.
pub fn fmt_usize(n: usize) -> (r: String)
    ensures
        r@ == spec_dec(n as int),
    decreases n,
{
    if n <= 9 {
        hex_lower_str(n as u8).to_owned()
    } else {
        let mut s = fmt_usize(n / 10);
        s.append(hex_lower_str((n % 10) as u8));
        proof {
            assert(s@ =~= spec_dec(n as int));
        }
        s
    }
}

/// The export line of one palette entry: a `setColor` call carrying the
/// entry's index in decimal and its color as a canonical hex literal.
pub open spec fn spec_export_line(e: (usize, Color)) -> Seq<char> {
    "color.setColor("@ + spec_dec(e.0 as int) + ", color.parseColorString(\""@
        + spec_format_hex(e.1) + "\"))"@ + "\n"@
}

/// The export text of a palette: one line per entry, in entry (index) order.
pub open spec fn spec_export(entries: Seq<(usize, Color)>) -> Seq<char>
    decreases entries.len(),
{
    if entries.len() == 0 {
        Seq::empty()
    } else {
        spec_export(entries.drop_last()) + spec_export_line(entries.last())
    }
}

/// Emit the palette as newline-separated scripting-API calls, one
/// `color.setColor(<index>, color.parseColorString("#RRGGBB"))` statement per
/// entry in entry order. Pure formatting; no resolution logic.
pub fn export(palette: &Palette) -> (r: String)
    ensures
        r@ == spec_export(palette.entries@),
{
    let mut s = String::new();
    let mut i: usize = 0;
    proof {
        assert(palette.entries@.take(0) =~= Seq::<(usize, Color)>::empty());
    }
    while i < palette.entries.len()
        invariant
            i <= palette.entries@.len(),
            s@ == spec_export(palette.entries@.take(i as int)),
        decreases palette.entries@.len() - i,
    {
        let idx = palette.entries[i].0;
        let col = palette.entries[i].1;
        s.append("color.setColor(");
        let num = fmt_usize(idx);
        s.append(num.as_str());
        s.append(", color.parseColorString(\"");
        let hex = format_hex(&col);
        s.append(hex.as_str());
        s.append("\"))");
        s.append("\n");
        proof {
            assert(palette.entries@.take(i + 1).drop_last() =~= palette.entries@.take(i as int));
            assert(palette.entries@.take(i + 1).last() == palette.entries@[i as int]);
            assert(s@ == spec_export(palette.entries@.take(i + 1)));
        }
        i += 1;
    }
    proof {
        assert(palette.entries@.take(palette.entries@.len() as int) =~= palette.entries@);
    }
    s
}

} // verus!
