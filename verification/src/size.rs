//! Size specification: `<width>x<height>`, both parts decimal.

use vstd::prelude::*;
use vstd::string::StrSliceExecFns;
use crate::color::{hex_val, hex_digit};
use crate::palette::{first_of, lemma_first_of_unique};
use crate::Error;

verus! {

/// A decimal digit (hex digits `a` through `f` do not count).
pub open spec fn is_dec_digit(c: char) -> bool {
    0 <= hex_val(c) <= 9
}

/// Value of decimal text, the last character least significant.
pub open spec fn dec_val(s: Seq<char>) -> int
    recommends forall|k: int| 0 <= k < s.len() ==> is_dec_digit(s[k]),
    decreases s.len(),
{
    if s.len() == 0 {
        0
    } else {
        dec_val(s.drop_last()) * 10 + hex_val(s.last())
    }
}

/// Non-empty decimal text whose value fits a `u32`.
pub open spec fn is_dec_u32(s: Seq<char>) -> bool {
    &&& s.len() > 0
    &&& forall|k: int| 0 <= k < s.len() ==> is_dec_digit(#[trigger] s[k])
    &&& dec_val(s) <= u32::MAX
}

/// A size specification: two decimal parts around the first `x`. With no `x`,
/// an empty or non-numeric part, a second `x`, or a value above `u32::MAX`,
/// there is no size.
pub open spec fn spec_parse_size(s: Seq<char>) -> Option<(u32, u32)> {
    let k = first_of(s, 'x');
    if k < s.len() && is_dec_u32(s.take(k)) && is_dec_u32(s.skip(k + 1)) {
        Some((dec_val(s.take(k)) as u32, dec_val(s.skip(k + 1)) as u32))
    } else {
        None
    }
}

proof fn lemma_dec_val_nonneg(s: Seq<char>)
    requires
        forall|k: int| 0 <= k < s.len() ==> is_dec_digit(#[trigger] s[k]),
    ensures
        dec_val(s) >= 0,
    decreases s.len(),
{
    if s.len() > 0 {
        lemma_dec_val_nonneg(s.drop_last());
    }
}

proof fn lemma_dec_val_take_le(s: Seq<char>, m: int)
    requires
        0 <= m <= s.len(),
        forall|k: int| 0 <= k < s.len() ==> is_dec_digit(#[trigger] s[k]),
    ensures
        dec_val(s.take(m)) <= dec_val(s),
    decreases s.len(),
{
    if m == s.len() {
        assert(s.take(m) =~= s);
    } else {
        assert(s.drop_last().take(m) =~= s.take(m));
        lemma_dec_val_take_le(s.drop_last(), m);
        lemma_dec_val_nonneg(s.drop_last());
    }
}

/// Parse non-empty all-decimal text into its value, when it fits a `u32`.
fn parse_u32(t: &str) -> (r: Option<u32>)
    ensures
        is_dec_u32(t@) ==> r == Some(dec_val(t@) as u32),
        !is_dec_u32(t@) ==> r is None,
{
    let n = t.unicode_len();
    if n == 0 {
        return None;
    }
    let mut acc: u64 = 0;
    let mut i: usize = 0;
    proof {
        assert(t@.take(0) =~= Seq::<char>::empty());
    }
    while i < n
        invariant
            i <= n,
            n == t@.len(),
            forall|m: int| 0 <= m < i ==> is_dec_digit(#[trigger] t@[m]),
            acc as int == dec_val(t@.take(i as int)),
            acc <= u32::MAX,
        decreases n - i,
    {
        let c = t.get_char(i);
        let d: u8 = match hex_digit(c) {
            Some(v) => {
                if v > 9 {
                    return None;
                }
                v
            },
            None => {
                return None;
            },
        };
        let next: u64 = acc * 10 + d as u64;
        proof {
            assert(t@.take(i + 1).drop_last() =~= t@.take(i as int));
            assert(t@.take(i + 1).last() == t@[i as int]);
        }
        if next > 0xFFFF_FFFF {
            proof {
                if forall|m: int| 0 <= m < t@.len() ==> is_dec_digit(#[trigger] t@[m]) {
                    lemma_dec_val_take_le(t@, i + 1);
                }
            }
            return None;
        }
        acc = next;
        i += 1;
    }
    proof {
        assert(t@.take(n as int) =~= t@);
    }
    Some(acc as u32)
}

/// Parse `<width>x<height>`: the text up to the first `x` and the text after
/// it, both non-empty decimal numbers that fit a `u32`. Anything else —
/// no `x`, a second `x`, an empty or non-numeric part, a value out of range —
/// is `InvalidDimensions`.
pub fn parse_size(text: &str) -> (r: Result<(u32, u32), Error>)
    ensures
        (match spec_parse_size(text@) {
            Some(wh) => r == Ok::<(u32, u32), Error>(wh),
            None => r == Err::<(u32, u32), Error>(Error::InvalidDimensions),
        }),
{
    let n = text.unicode_len();
    let mut k: usize = 0;
    loop
        invariant_except_break
            k <= n,
            n == text@.len(),
            forall|m: int| 0 <= m < k ==> text@[m] != 'x',
        ensures
            k <= n,
            n == text@.len(),
            forall|m: int| 0 <= m < k ==> text@[m] != 'x',
            k == n || text@[k as int] == 'x',
        decreases n - k,
    {
        if k == n {
            break;
        }
        if text.get_char(k) == 'x' {
            break;
        }
        k += 1;
    }
    proof {
        lemma_first_of_unique(text@, 'x', k as int);
    }
    if k == n {
        return Err(Error::InvalidDimensions);
    }
    let left = text.substring_char(0, k);
    let right = text.substring_char(k + 1, n);
    proof {
        assert(left@ =~= text@.take(k as int));
        assert(right@ =~= text@.skip(k + 1));
    }
    let w = match parse_u32(left) {
        Some(v) => v,
        None => {
            return Err(Error::InvalidDimensions);
        },
    };
    let h = match parse_u32(right) {
        Some(v) => v,
        None => {
            return Err(Error::InvalidDimensions);
        },
    };
    Ok((w, h))
}

} // verus!
