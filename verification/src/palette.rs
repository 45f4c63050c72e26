//! Palette store: ordered (index, color) entries, named palette sets parsed
//! from a palette definition document, and the built-in fallback table.

use vstd::prelude::*;
use vstd::string::StrSliceExecFns;
use crate::color::{Color, spec_parse_hex, parse_hex};
use crate::Error;

verus! {

/// One parsed palette block: its name and its color literals in document
/// order.
pub type SpecBlock = (Seq<char>, Seq<Color>);

/// An ordered, finite collection of (index, color) pairs. Iteration order is
/// the order of `entries`; nothing deduplicates colors. Built once, then only
/// read.
#[derive(Debug, PartialEq, Eq)]
pub struct Palette {
    pub entries: Vec<(usize, Color)>,
}

/// The fixed fallback table: 15 colors under indices 1 through 15, in this
/// declared order (white first, black last).
pub open spec fn spec_builtin_entries() -> Seq<(usize, Color)> {
    seq![
        (1usize, Color { red: 0xFF, green: 0xFF, blue: 0xFF }),  // white
        (2usize, Color { red: 0xFF, green: 0x21, blue: 0x21 }),  // red
        (3usize, Color { red: 0xFF, green: 0x93, blue: 0xC4 }),  // pink
        (4usize, Color { red: 0xFF, green: 0x81, blue: 0x35 }),  // orange
        (5usize, Color { red: 0xFF, green: 0xF6, blue: 0x09 }),  // yellow
        (6usize, Color { red: 0x24, green: 0x9C, blue: 0xA3 }),  // teal
        (7usize, Color { red: 0x78, green: 0xDC, blue: 0x52 }),  // green
        (8usize, Color { red: 0x00, green: 0x3F, blue: 0xAD }),  // blue
        (9usize, Color { red: 0x87, green: 0xF2, blue: 0xFF }),  // cyan
        (10usize, Color { red: 0x8E, green: 0x2E, blue: 0xC4 }),  // purple
        (11usize, Color { red: 0xA4, green: 0x83, blue: 0x9F }),  // gray-violet
        (12usize, Color { red: 0x5C, green: 0x40, blue: 0x6C }),  // dark purple
        (13usize, Color { red: 0xE5, green: 0xCD, blue: 0xC4 }),  // tan
        (14usize, Color { red: 0x91, green: 0x46, blue: 0x3D }),  // brown
        (15usize, Color { red: 0x00, green: 0x00, blue: 0x00 }),  // black
    ]
}

impl Palette {
    /// The palette used when no palette document is supplied: the fixed
    /// 15-color table with indices 1 through 15 in declared order.
    pub fn builtin() -> (r: Palette)
        ensures
            r.entries@ == spec_builtin_entries(),
    {
        let mut entries: Vec<(usize, Color)> = Vec::new();
        entries.push((1, Color { red: 0xFF, green: 0xFF, blue: 0xFF }));
        entries.push((2, Color { red: 0xFF, green: 0x21, blue: 0x21 }));
        entries.push((3, Color { red: 0xFF, green: 0x93, blue: 0xC4 }));
        entries.push((4, Color { red: 0xFF, green: 0x81, blue: 0x35 }));
        entries.push((5, Color { red: 0xFF, green: 0xF6, blue: 0x09 }));
        entries.push((6, Color { red: 0x24, green: 0x9C, blue: 0xA3 }));
        entries.push((7, Color { red: 0x78, green: 0xDC, blue: 0x52 }));
        entries.push((8, Color { red: 0x00, green: 0x3F, blue: 0xAD }));
        entries.push((9, Color { red: 0x87, green: 0xF2, blue: 0xFF }));
        entries.push((10, Color { red: 0x8E, green: 0x2E, blue: 0xC4 }));
        entries.push((11, Color { red: 0xA4, green: 0x83, blue: 0x9F }));
        entries.push((12, Color { red: 0x5C, green: 0x40, blue: 0x6C }));
        entries.push((13, Color { red: 0xE5, green: 0xCD, blue: 0xC4 }));
        entries.push((14, Color { red: 0x91, green: 0x46, blue: 0x3D }));
        entries.push((15, Color { red: 0x00, green: 0x00, blue: 0x00 }));
        proof {
            assert(entries@ =~= spec_builtin_entries());
        }
        Palette { entries }
    }
}

/// Palette entries for an ordered color list: position in the list becomes
/// the index, starting at 0.
pub open spec fn entries_of(colors: Seq<Color>) -> Seq<(usize, Color)> {
    Seq::new(colors.len(), |j: int| (j as usize, colors[j]))
}

/// Index of the first occurrence of `c` in `s`, or `s.len()` when there is
/// none.
pub open spec fn first_of(s: Seq<char>, c: char) -> int
    decreases s.len(),
{
    if s.len() == 0 {
        0
    } else if s[0] == c {
        0
    } else {
        1 + first_of(s.skip(1), c)
    }
}

pub proof fn lemma_first_of_props(s: Seq<char>, c: char)
    ensures
        0 <= first_of(s, c) <= s.len(),
        forall|k: int| 0 <= k < first_of(s, c) ==> s[k] != c,
        first_of(s, c) < s.len() ==> s[first_of(s, c)] == c,
    decreases s.len(),
{
    if s.len() > 0 && s[0] != c {
        lemma_first_of_props(s.skip(1), c);
        assert forall|k: int| 0 <= k < first_of(s, c) implies s[k] != c by {
            if k > 0 {
                assert(s.skip(1)[k - 1] == s[k]);
            }
        }
        if first_of(s, c) < s.len() {
            assert(s.skip(1)[first_of(s, c) - 1] == s[first_of(s, c)]);
        }
    }
}

pub proof fn lemma_first_of_unique(s: Seq<char>, c: char, j: int)
    requires
        0 <= j <= s.len(),
        forall|k: int| 0 <= k < j ==> s[k] != c,
        j == s.len() || s[j] == c,
    ensures
        first_of(s, c) == j,
    decreases s.len(),
{
    if j == 0 {
    } else {
        assert(s[0] != c);
        assert forall|k: int| 0 <= k < j - 1 implies s.skip(1)[k] != c by {
            assert(s.skip(1)[k] == s[k + 1]);
        }
        if j < s.len() {
            assert(s.skip(1)[j - 1] == s[j]);
        }
        lemma_first_of_unique(s.skip(1), c, j - 1);
    }
}

/// One step of the palette grammar, on one line. A blank line separates
/// nothing; a line starting with `#` is a color literal of the open block;
/// any other line names a new block. Errors carry the 0-based line index:
/// a color before any name, a literal `parse_hex` rejects, or a block that
/// closes with no colors.
pub open spec fn spec_step(
    done: Seq<SpecBlock>,
    cur: Option<SpecBlock>,
    line: Seq<char>,
    line_no: int,
) -> Result<(Seq<SpecBlock>, Option<SpecBlock>), int> {
    if line.len() == 0 {
        Ok((done, cur))
    } else if line[0] == '#' {
        match cur {
            None => Err(line_no),
            Some(b) => match spec_parse_hex(line) {
                Some(c) => Ok((done, Some((b.0, b.1.push(c))))),
                None => Err(line_no),
            },
        }
    } else {
        match cur {
            Some(b) => if b.1.len() == 0 {
                Err(line_no)
            } else {
                Ok((done.push(b), Some((line, Seq::empty()))))
            },
            None => Ok((done, Some((line, Seq::empty())))),
        }
    }
}

/// End of the document: the still-open block closes, and must hold at least
/// one color.
pub open spec fn spec_finish(
    done: Seq<SpecBlock>,
    cur: Option<SpecBlock>,
    line_no: int,
) -> Result<Seq<SpecBlock>, int> {
    match cur {
        None => Ok(done),
        Some(b) => if b.1.len() == 0 {
            Err(line_no)
        } else {
            Ok(done.push(b))
        },
    }
}

/// The palette document grammar, line by line from the text still to read:
/// the blocks it denotes, or the 0-based index of the first offending line.
pub open spec fn spec_parse_doc(
    s: Seq<char>,
    line_no: int,
    done: Seq<SpecBlock>,
    cur: Option<SpecBlock>,
) -> Result<Seq<SpecBlock>, int>
    decreases s.len(),
    via spec_parse_doc_dec
{
    if s.len() == 0 {
        spec_finish(done, cur, line_no)
    } else {
        let j = first_of(s, '\n');
        match spec_step(done, cur, s.take(j), line_no) {
            Err(e) => Err(e),
            Ok(st) => {
                let rest = if j == s.len() {
                    Seq::empty()
                } else {
                    s.skip(j + 1)
                };
                spec_parse_doc(rest, line_no + 1, st.0, st.1)
            },
        }
    }
}

#[via_fn]
proof fn spec_parse_doc_dec(
    s: Seq<char>,
    line_no: int,
    done: Seq<SpecBlock>,
    cur: Option<SpecBlock>,
) {
    if s.len() > 0 {
        lemma_first_of_props(s, '\n');
    }
}

/// Named palettes in document order, looked up by name.
#[derive(Debug, PartialEq, Eq)]
pub struct PaletteSet {
    pub palettes: Vec<(String, Palette)>,
}

/// Position of the last palette under `name`, or -1 when the name is absent.
/// A later palette under the same name shadows an earlier one.
pub open spec fn find_last(ps: Seq<(String, Palette)>, name: Seq<char>) -> int
    decreases ps.len(),
{
    if ps.len() == 0 {
        -1
    } else if ps.last().0@ == name {
        ps.len() - 1
    } else {
        find_last(ps.drop_last(), name)
    }
}

impl PaletteSet {
    /// The set holds exactly these blocks, in order: the same names, and for
    /// each block the entries indexed 0, 1, ... by position of its colors.
    pub open spec fn matches_blocks(&self, blocks: Seq<SpecBlock>) -> bool {
        &&& self.palettes@.len() == blocks.len()
        &&& forall|k: int| 0 <= k < blocks.len() ==> {
            &&& (#[trigger] self.palettes@[k]).0@ == blocks[k].0
            &&& self.palettes@[k].1.entries@ == entries_of(blocks[k].1)
        }
    }

    /// The palette stored under `name`, the last one when several share it;
    /// `UnknownPalette` when none does.
    pub fn lookup<'a>(&'a self, name: &str) -> (r: Result<&'a Palette, Error>)
        ensures
            find_last(self.palettes@, name@) >= 0 ==> (r matches Ok(p)
                && *p == self.palettes@[find_last(self.palettes@, name@)].1),
            find_last(self.palettes@, name@) < 0 ==> r == Err::<&'a Palette, Error>(
                Error::UnknownPalette,
            ),
    {
        let name_owned: String = name.to_owned();
        let mut k = self.palettes.len();
        proof {
            assert(self.palettes@.take(k as int) =~= self.palettes@);
        }
        while k > 0
            invariant
                0 <= k <= self.palettes@.len(),
                name_owned@ == name@,
                find_last(self.palettes@, name@) == find_last(
                    self.palettes@.take(k as int),
                    name@,
                ),
            decreases k,
        {
            k = k - 1;
            proof {
                assert(self.palettes@.take(k + 1).drop_last() =~= self.palettes@.take(k as int));
                assert(self.palettes@.take(k + 1).last() == self.palettes@[k as int]);
            }
            if self.palettes[k].0 == name_owned {
                return Ok(&self.palettes[k].1);
            }
        }
        proof {
            assert(self.palettes@.take(0) =~= Seq::<(String, Palette)>::empty());
        }
        Err(Error::UnknownPalette)
    }
}

/// Parser for the palette definition document.
pub struct ColorParser;

impl ColorParser {
    /// Parse a palette document: blocks of a name line followed by one
    /// `#RRGGBB` literal per line, blank lines ignored, indices assigned by
    /// position from 0. The first line that breaks the grammar is reported
    /// by its 0-based index.
    pub fn parse_palettes(text: &str) -> (r: Result<PaletteSet, Error>)
        ensures
            (match spec_parse_doc(text@, 0, Seq::empty(), None) {
                Ok(blocks) => r matches Ok(ps) && ps.matches_blocks(blocks),
                Err(line) => r == Err::<PaletteSet, Error>(
                    Error::PaletteParseError { line: line as usize },
                ),
            }),
    {
        let n = text.unicode_len();
        let mut palettes: Vec<(String, Palette)> = Vec::new();
        let mut cur: Option<(String, Vec<(usize, Color)>)> = None;
        let ghost mut bs: Seq<SpecBlock> = Seq::empty();
        let ghost mut ob: Option<SpecBlock> = None;
        let mut i: usize = 0;
        let mut line_no: usize = 0;
        proof {
            assert(text@.skip(0) =~= text@);
        }
        while i < n
            invariant
                i <= n,
                n == text@.len(),
                line_no <= i,
                spec_parse_doc(text@, 0, Seq::empty(), None) == spec_parse_doc(
                    text@.skip(i as int),
                    line_no as int,
                    bs,
                    ob,
                ),
                (cur is Some) <==> (ob is Some),
                cur is Some ==> cur->Some_0.0@ == ob->Some_0.0
                    && cur->Some_0.1@ == entries_of(ob->Some_0.1),
                palettes@.len() == bs.len(),
                forall|k: int| 0 <= k < bs.len() ==> (#[trigger] palettes@[k]).0@ == bs[k].0
                    && palettes@[k].1.entries@ == entries_of(bs[k].1),
            decreases n - i,
        {
            let ghost rem = text@.skip(i as int);
            // scan to the end of the current line
            let mut j: usize = i;
            loop
                invariant_except_break
                    i <= j <= n,
                    n == text@.len(),
                    forall|k: int| i <= k < j ==> text@[k] != '\n',
                ensures
                    i <= j <= n,
                    forall|k: int| i <= k < j ==> text@[k] != '\n',
                    j == n || text@[j as int] == '\n',
                decreases n - j,
            {
                if j == n {
                    break;
                }
                if text.get_char(j) == '\n' {
                    break;
                }
                j += 1;
            }
            let line = text.substring_char(i, j);
            proof {
                assert forall|k: int| 0 <= k < j - i implies rem[k] != '\n' by {
                    assert(rem[k] == text@[i + k]);
                }
                if j < n {
                    assert(rem[(j - i) as int] == text@[j as int]);
                }
                lemma_first_of_unique(rem, '\n', j - i);
                assert(rem.take((j - i) as int) =~= text@.subrange(i as int, j as int));
                assert(line@ == rem.take(first_of(rem, '\n')));
            }
            let line_len = j - i;
            if line_len == 0 {
                // a blank line separates nothing
                proof {
                    assert(spec_step(bs, ob, line@, line_no as int) == Ok::<_, int>((bs, ob)));
                }
            } else if line.get_char(0) == '#' {
                match cur {
                    None => {
                        proof {
                            assert(spec_step(bs, ob, line@, line_no as int)
                                == Err::<(Seq<SpecBlock>, Option<SpecBlock>), int>(line_no as int));
                        }
                        return Err(Error::PaletteParseError { line: line_no });
                    },
                    Some((name, mut colors)) => {
                        match parse_hex(line) {
                            Ok(c) => {
                                colors.push((colors.len(), c));
                                proof {
                                    ob = Some((ob->Some_0.0, ob->Some_0.1.push(c)));
                                    assert(colors@ =~= entries_of(ob->Some_0.1));
                                }
                                cur = Some((name, colors));
                            },
                            Err(_) => {
                                return Err(Error::PaletteParseError { line: line_no });
                            },
                        }
                    },
                }
            } else {
                match cur {
                    Some((name, colors)) => {
                        if colors.len() == 0 {
                            return Err(Error::PaletteParseError { line: line_no });
                        }
                        palettes.push((name, Palette { entries: colors }));
                        cur = Some((line.to_owned(), Vec::new()));
                        proof {
                            bs = bs.push(ob->Some_0);
                            ob = Some((line@, Seq::empty()));
                            assert(Seq::<(usize, Color)>::empty() =~= entries_of(
                                Seq::<Color>::empty(),
                            ));
                        }
                    },
                    None => {
                        cur = Some((line.to_owned(), Vec::new()));
                        proof {
                            ob = Some((line@, Seq::empty()));
                            assert(Seq::<(usize, Color)>::empty() =~= entries_of(
                                Seq::<Color>::empty(),
                            ));
                        }
                    },
                }
            }
            proof {
                if j == n {
                    assert(text@.skip(n as int) =~= Seq::<char>::empty());
                } else {
                    assert(rem.skip((j - i + 1) as int) =~= text@.skip((j + 1) as int));
                }
            }
            if j == n {
                i = n;
            } else {
                i = j + 1;
            }
            line_no += 1;
        }
        proof {
            assert(text@.skip(n as int) =~= Seq::<char>::empty());
        }
        match cur {
            None => Ok(PaletteSet { palettes }),
            Some((name, colors)) => {
                if colors.len() == 0 {
                    return Err(Error::PaletteParseError { line: line_no });
                }
                palettes.push((name, Palette { entries: colors }));
                proof {
                    bs = bs.push(ob->Some_0);
                }
                Ok(PaletteSet { palettes })
            },
        }
    }
}

} // verus!
