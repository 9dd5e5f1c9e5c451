//! Parsing the round-trips table: a document in which a line naming a
//! function (``* - :func:`name()` ``) is followed by a line whose ending
//! gives the function's classification.

use crate::doc::RoundTrips;
use crate::name_map::NameMap;
use crate::strutil::{
    ends_with, find_sub, line_views, spec_ends_with, spec_find, spec_matches_at, lemma_spec_find,
};
use vstd::prelude::*;

verus! {

/// A line of the round-trips document that the parser cannot read.
#[derive(Clone, Copy, Debug, PartialEq, Eq, Structural)]
pub struct RstParseError {
    /// One-based number of the offending line.
    pub line_no: usize,
}

/// The function name captured from a table line, if the line holds the
/// function marker followed by the closing parentheses.
pub open spec fn func_capture(line: Seq<char>) -> Option<Seq<char>> {
    match (spec_find(line, "* - :func:`"@), spec_find(line, "()`"@)) {
        (Some(s), Some(e)) => if s < e {
            Some(line.subrange(s + 11, e))
        } else {
            None
        },
        _ => None,
    }
}

/// The classification read off a line's ending.
pub open spec fn classify_line(line: Seq<char>) -> Option<RoundTrips> {
    if spec_ends_with(line, " Yes"@) {
        Some(RoundTrips::Yes)
    } else if spec_ends_with(line, " No"@) {
        Some(RoundTrips::No)
    } else if spec_ends_with(line, " Maybe"@) {
        Some(RoundTrips::Maybe)
    } else {
        None
    }
}

/// Parsing the document's lines: a captured function name makes the next
/// line its classification line; a classification line that names none of
/// the three classifications is an error at its line number.
pub open spec fn spec_parse_round_trips(
    m: Map<Seq<char>, RoundTrips>,
    pending: Option<Seq<char>>,
    idx: int,
    lines: Seq<Seq<char>>,
) -> Result<Map<Seq<char>, RoundTrips>, int>
    decreases lines.len(),
{
    if lines.len() == 0 {
        Ok(m)
    } else {
        match pending {
            Some(name) => match classify_line(lines[0]) {
                Some(rt) => spec_parse_round_trips(
                    m.insert(name, rt),
                    None,
                    idx + 1,
                    lines.drop_first(),
                ),
                None => Err(idx),
            },
            None => spec_parse_round_trips(m, func_capture(lines[0]), idx + 1, lines.drop_first()),
        }
    }
}

proof fn lemma_func_bounds(line: Seq<char>, s: int, e: int)
    requires
        spec_matches_at(line, "* - :func:`"@, s),
        spec_matches_at(line, "()`"@, e),
        s < e,
    ensures
        s + 11 <= e,
{
    reveal_strlit("* - :func:`");
    reveal_strlit("()`");
    if e < s + 11 {
        let d = e - s;
        assert(line.subrange(e, e + 3)[0] == "()`"@[0]);
        assert(line[e] == '(');
        assert(line.subrange(s, s + 11)[d] == "* - :func:`"@[d]);
        assert(line[e] == "* - :func:`"@[d]);
        assert(1 <= d <= 10);
        assert("* - :func:`"@[d] != '(');
    }
}

/// Parse the round-trips document into the classification table.
pub fn function_types(lines: &Vec<String>) -> (r: Result<NameMap<RoundTrips>, RstParseError>)
    ensures
        match r {
            Ok(m) => m.wf() && spec_parse_round_trips(
                Map::empty(),
                None,
                1,
                line_views(lines@),
            ) == Ok::<Map<Seq<char>, RoundTrips>, int>(m@),
            Err(e) => spec_parse_round_trips(
                Map::empty(),
                None,
                1,
                line_views(lines@),
            ) == Err::<Map<Seq<char>, RoundTrips>, int>(e.line_no as int),
        },
{
    let ghost lviews = line_views(lines@);
    let ghost target = spec_parse_round_trips(Map::empty(), None, 1, lviews);
    let mut m: NameMap<RoundTrips> = NameMap::new();
    let mut pending: Option<String> = None;
    proof {
        assert(lviews.skip(0) =~= lviews);
    }
    let n = lines.len();
    let mut i: usize = 0;
    while i < n
        invariant
            n == lines@.len(),
            lviews == line_views(lines@),
            target == spec_parse_round_trips(Map::empty(), None, 1, lviews),
            0 <= i <= n,
            m.wf(),
            spec_parse_round_trips(
                m@,
                match pending {
                    Some(p) => Some(p@),
                    None => None,
                },
                i + 1,
                lviews.skip(i as int),
            ) == target,
        decreases n - i,
    {
        proof {
            assert(lviews.skip(i as int)[0] == lviews[i as int]);
            assert(lviews.skip(i as int).drop_first() =~= lviews.skip(i as int + 1));
            assert(lviews[i as int] == lines@[i as int]@);
        }
        let line = &lines[i];
        match pending {
            Some(fname) => {
                let rt: RoundTrips;
                if ends_with(line.as_str(), " Yes") {
                    rt = RoundTrips::Yes;
                } else if ends_with(line.as_str(), " No") {
                    rt = RoundTrips::No;
                } else if ends_with(line.as_str(), " Maybe") {
                    rt = RoundTrips::Maybe;
                } else {
                    proof {
                        assert(classify_line(lviews[i as int]).is_none());
                        assert(target == Err::<Map<Seq<char>, RoundTrips>, int>(i + 1));
                    }
                    return Err(RstParseError { line_no: i + 1 });
                }
                proof {
                    assert(classify_line(lviews[i as int]) == Some(rt));
                }
                m.insert(fname, rt);
                pending = None;
            },
            None => {
                let start = find_sub(line.as_str(), "* - :func:`");
                let stop = find_sub(line.as_str(), "()`");
                match (start, stop) {
                    (Some(s), Some(e)) => {
                        if s < e {
                            proof {
                                lemma_spec_find(lviews[i as int], "* - :func:`"@);
                                lemma_spec_find(lviews[i as int], "()`"@);
                                lemma_func_bounds(lviews[i as int], s as int, e as int);
                            }
                            let name = line.as_str().substring_char(s + 11, e).to_owned();
                            pending = Some(name);
                        } else {
                            pending = None;
                        }
                    },
                    _ => {
                        pending = None;
                    },
                }
            },
        }
        i += 1;
    }
    proof {
        assert(lviews.skip(n as int) =~= Seq::<Seq<char>>::empty());
    }
    Ok(m)
}

/// Add the classification entries that the round-trips document itself
/// lacks: one function, deprecated upstream, that never contacts the
/// database.
pub fn apply_additional_funcs(m: &mut NameMap<RoundTrips>)
    requires
        old(m).wf(),
    ensures
        final(m).wf(),
        final(m)@ == old(m)@.insert("dpiSodaDb_freeCollectionNames"@, RoundTrips::No),
{
    m.insert(String::from_str("dpiSodaDb_freeCollectionNames"), RoundTrips::No);
}

} // verus!
