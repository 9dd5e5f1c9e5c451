//! Verified character-level string utilities: equality, substring search,
//! suffix tests, line splitting and joining, newline collapsing.

use vstd::prelude::*;

verus! {

/// The literal `pat` occurs in `s` starting at character position `i`.
pub open spec fn spec_matches_at(s: Seq<char>, pat: Seq<char>, i: int) -> bool {
    0 <= i && i + pat.len() <= s.len() && s.subrange(i, i + pat.len() as int) == pat
}

/// Compare two string slices character by character.
pub fn str_eq(a: &str, b: &str) -> (r: bool)
    ensures
        r <==> a@ == b@,
{
    let an = a.unicode_len();
    let bn = b.unicode_len();
    if an != bn {
        assert(a@ != b@) by {
            assert(a@.len() != b@.len());
        }
        return false;
    }
    let mut i: usize = 0;
    while i < an
        invariant
            an == a@.len(),
            an == b@.len(),
            0 <= i <= an,
            forall|j: int| 0 <= j < i ==> a@[j] == b@[j],
        decreases an - i,
    {
        if a.get_char(i) != b.get_char(i) {
            assert(a@ != b@);
            return false;
        }
        i += 1;
    }
    assert(a@ =~= b@);
    true
}

/// Test whether `pat` occurs in `s` at character position `i`.
pub fn matches_at(s: &str, pat: &str, i: usize) -> (r: bool)
    ensures
        r <==> spec_matches_at(s@, pat@, i as int),
{
    let n = s.unicode_len();
    let m = pat.unicode_len();
    if m > n || i > n - m {
        assert(!spec_matches_at(s@, pat@, i as int));
        return false;
    }
    let mut j: usize = 0;
    while j < m
        invariant
            n == s@.len(),
            m == pat@.len(),
            i + m <= n,
            0 <= j <= m,
            forall|k: int| 0 <= k < j ==> s@[i + k] == pat@[k],
        decreases m - j,
    {
        if s.get_char(i + j) != pat.get_char(j) {
            assert(s@.subrange(i as int, i + m as int)[j as int] != pat@[j as int]);
            return false;
        }
        j += 1;
    }
    assert(s@.subrange(i as int, i + m as int) =~= pat@);
    true
}

/// The character sequences of a sequence of strings.
pub open spec fn line_views(ls: Seq<String>) -> Seq<Seq<char>> {
    ls.map_values(|l: String| l@)
}

/// Indentation whitespace: a space or a tab.
pub open spec fn is_wspace(c: char) -> bool {
    c == ' ' || c == '\t'
}

/// An identifier character: ASCII letter, digit or underscore.
pub open spec fn is_word_char(c: char) -> bool {
    ('a' <= c && c <= 'z') || ('A' <= c && c <= 'Z') || ('0' <= c && c <= '9') || c == '_'
}

/// Length of the longest whitespace run at the front of `s`.
pub open spec fn ws_prefix_len(s: Seq<char>) -> nat
    decreases s.len(),
{
    if s.len() == 0 || !is_wspace(s[0]) {
        0
    } else {
        1 + ws_prefix_len(s.drop_first())
    }
}

/// Length of the longest identifier-character run at the front of `s`.
pub open spec fn word_prefix_len(s: Seq<char>) -> nat
    decreases s.len(),
{
    if s.len() == 0 || !is_word_char(s[0]) {
        0
    } else {
        1 + word_prefix_len(s.drop_first())
    }
}

/// Length of the longest newline-free run at the front of `s`.
pub open spec fn nonl_prefix_len(s: Seq<char>) -> nat
    decreases s.len(),
{
    if s.len() == 0 || s[0] == '\n' {
        0
    } else {
        1 + nonl_prefix_len(s.drop_first())
    }
}

pub proof fn lemma_ws_prefix_len(s: Seq<char>, i: int)
    requires
        0 <= i <= s.len(),
        forall|j: int| 0 <= j < i ==> is_wspace(#[trigger] s[j]),
        i == s.len() || !is_wspace(s[i]),
    ensures
        ws_prefix_len(s) == i,
    decreases s.len(),
{
    if i == 0 {
    } else {
        assert(is_wspace(s[0]));
        assert(forall|j: int| 0 <= j < i - 1 ==> is_wspace(#[trigger] s.drop_first()[j]));
        lemma_ws_prefix_len(s.drop_first(), i - 1);
    }
}

pub proof fn lemma_word_prefix_len(s: Seq<char>, i: int)
    requires
        0 <= i <= s.len(),
        forall|j: int| 0 <= j < i ==> is_word_char(#[trigger] s[j]),
        i == s.len() || !is_word_char(s[i]),
    ensures
        word_prefix_len(s) == i,
    decreases s.len(),
{
    if i == 0 {
    } else {
        assert(is_word_char(s[0]));
        assert(forall|j: int| 0 <= j < i - 1 ==> is_word_char(#[trigger] s.drop_first()[j]));
        lemma_word_prefix_len(s.drop_first(), i - 1);
    }
}

pub proof fn lemma_nonl_prefix_len(s: Seq<char>, i: int)
    requires
        0 <= i <= s.len(),
        forall|j: int| 0 <= j < i ==> #[trigger] s[j] != '\n',
        i == s.len() || s[i] == '\n',
    ensures
        nonl_prefix_len(s) == i,
    decreases s.len(),
{
    if i == 0 {
    } else {
        assert(s[0] != '\n');
        assert(forall|j: int| 0 <= j < i - 1 ==> #[trigger] s.drop_first()[j] != '\n');
        lemma_nonl_prefix_len(s.drop_first(), i - 1);
    }
}

fn is_wspace_c(c: char) -> (r: bool)
    ensures
        r == is_wspace(c),
{
    c == ' ' || c == '\t'
}

fn is_word_char_c(c: char) -> (r: bool)
    ensures
        r == is_word_char(c),
{
    ('a' <= c && c <= 'z') || ('A' <= c && c <= 'Z') || ('0' <= c && c <= '9') || c == '_'
}

/// End of the whitespace run that starts at `from`.
pub fn ws_run_end(s: &str, from: usize) -> (r: usize)
    requires
        from <= s@.len(),
    ensures
        from <= r <= s@.len(),
        ws_prefix_len(s@.skip(from as int)) == r - from,
        forall|j: int| from <= j < r ==> is_wspace(#[trigger] s@[j]),
        r == s@.len() || !is_wspace(s@[r as int]),
{
    let n = s.unicode_len();
    let mut i = from;
    while i < n && is_wspace_c(s.get_char(i))
        invariant
            n == s@.len(),
            from <= i <= n,
            forall|j: int| from <= j < i ==> is_wspace(#[trigger] s@[j]),
        decreases n - i,
    {
        i += 1;
    }
    proof {
        let t = s@.skip(from as int);
        assert(forall|j: int| 0 <= j < i - from ==> is_wspace(#[trigger] t[j]));
        lemma_ws_prefix_len(t, i - from);
    }
    i
}

/// End of the identifier-character run that starts at `from`.
pub fn word_run_end(s: &str, from: usize) -> (r: usize)
    requires
        from <= s@.len(),
    ensures
        from <= r <= s@.len(),
        word_prefix_len(s@.skip(from as int)) == r - from,
        forall|j: int| from <= j < r ==> is_word_char(#[trigger] s@[j]),
        r == s@.len() || !is_word_char(s@[r as int]),
{
    let n = s.unicode_len();
    let mut i = from;
    while i < n && is_word_char_c(s.get_char(i))
        invariant
            n == s@.len(),
            from <= i <= n,
            forall|j: int| from <= j < i ==> is_word_char(#[trigger] s@[j]),
        decreases n - i,
    {
        i += 1;
    }
    proof {
        let t = s@.skip(from as int);
        assert(forall|j: int| 0 <= j < i - from ==> is_word_char(#[trigger] t[j]));
        lemma_word_prefix_len(t, i - from);
    }
    i
}

fn nonl_run_end(s: &str, from: usize) -> (r: usize)
    requires
        from <= s@.len(),
    ensures
        from <= r <= s@.len(),
        nonl_prefix_len(s@.skip(from as int)) == r - from,
        forall|j: int| from <= j < r ==> #[trigger] s@[j] != '\n',
        r == s@.len() || s@[r as int] == '\n',
{
    let n = s.unicode_len();
    let mut i = from;
    while i < n && s.get_char(i) != '\n'
        invariant
            n == s@.len(),
            from <= i <= n,
            forall|j: int| from <= j < i ==> #[trigger] s@[j] != '\n',
        decreases n - i,
    {
        i += 1;
    }
    proof {
        let t = s@.skip(from as int);
        assert(forall|j: int| 0 <= j < i - from ==> #[trigger] t[j] != '\n');
        lemma_nonl_prefix_len(t, i - from);
    }
    i
}

/// Position of the leftmost occurrence of `pat` in `s`, if any.
pub open spec fn spec_find(s: Seq<char>, pat: Seq<char>) -> Option<int>
    decreases s.len(),
{
    if pat.len() > s.len() {
        None
    } else if s.subrange(0, pat.len() as int) == pat {
        Some(0)
    } else if s.len() == 0 {
        None
    } else {
        match spec_find(s.drop_first(), pat) {
            Some(i) => Some(i + 1),
            None => None,
        }
    }
}

/// `spec_find` returns the least match position, and `None` exactly when
/// no position matches.
pub proof fn lemma_spec_find(s: Seq<char>, pat: Seq<char>)
    ensures
        match spec_find(s, pat) {
            Some(i) => spec_matches_at(s, pat, i) && forall|j: int|
                0 <= j < i ==> !spec_matches_at(s, pat, j),
            None => forall|j: int| !spec_matches_at(s, pat, j),
        },
    decreases s.len(),
{
    if pat.len() > s.len() {
    } else if s.subrange(0, pat.len() as int) == pat {
    } else if s.len() == 0 {
    } else {
        lemma_spec_find(s.drop_first(), pat);
        assert forall|j: int| 1 <= j implies (spec_matches_at(s, pat, j) <==> spec_matches_at(
            s.drop_first(),
            pat,
            j - 1,
        )) by {
            if 1 <= j && j + pat.len() <= s.len() {
                assert(s.drop_first().subrange(j - 1, j - 1 + pat.len()) =~= s.subrange(
                    j,
                    j + pat.len(),
                ));
            }
        }
        match spec_find(s.drop_first(), pat) {
            Some(i) => {
                assert(spec_matches_at(s, pat, i + 1));
                assert forall|j: int| 0 <= j < i + 1 implies !spec_matches_at(s, pat, j) by {
                    if j == 0 {
                        assert(!spec_matches_at(s, pat, 0));
                    } else {
                        assert(!spec_matches_at(s.drop_first(), pat, j - 1));
                    }
                }
            },
            None => {
                assert forall|j: int| true implies !spec_matches_at(s, pat, j) by {
                    if j == 0 {
                        assert(!spec_matches_at(s, pat, 0));
                    } else if j >= 1 {
                        assert(!spec_matches_at(s.drop_first(), pat, j - 1));
                    }
                }
            },
        }
    }
}

/// Leftmost occurrence of `pat` in `s`.
pub fn find_sub(s: &str, pat: &str) -> (r: Option<usize>)
    ensures
        match r {
            Some(i) => spec_find(s@, pat@) == Some(i as int),
            None => spec_find(s@, pat@).is_none(),
        },
{
    let n = s.unicode_len();
    let m = pat.unicode_len();
    proof {
        lemma_spec_find(s@, pat@);
    }
    if m > n {
        assert(spec_find(s@, pat@).is_none()) by {
            if spec_find(s@, pat@).is_some() {
                let i = spec_find(s@, pat@).unwrap();
                assert(spec_matches_at(s@, pat@, i));
            }
        }
        return None;
    }
    if m == 0 {
        proof {
            assert(s@.subrange(0, 0) =~= pat@);
            assert(spec_matches_at(s@, pat@, 0));
            if spec_find(s@, pat@) != Some(0int) {
                assert(false);
            }
        }
        return Some(0);
    }
    let mut i: usize = 0;
    while i <= n - m
        invariant
            n == s@.len(),
            m == pat@.len(),
            0 < m <= n,
            0 <= i <= n - m + 1,
            forall|j: int| 0 <= j < i ==> !spec_matches_at(s@, pat@, j),
        decreases n - m + 1 - i,
    {
        if matches_at(s, pat, i) {
            proof {
                lemma_spec_find(s@, pat@);
                if spec_find(s@, pat@).is_none() {
                    assert(!spec_matches_at(s@, pat@, i as int));
                }
                let f = spec_find(s@, pat@).unwrap();
                if f < i as int {
                    assert(!spec_matches_at(s@, pat@, f));
                }
                if f > i as int {
                    assert(!spec_matches_at(s@, pat@, i as int));
                }
            }
            return Some(i);
        }
        i += 1;
    }
    proof {
        lemma_spec_find(s@, pat@);
        if spec_find(s@, pat@).is_some() {
            let f = spec_find(s@, pat@).unwrap();
            assert(spec_matches_at(s@, pat@, f));
            assert(f + m <= n);
            assert(!spec_matches_at(s@, pat@, f));
        }
    }
    None
}

/// `s` ends with `suf`.
pub open spec fn spec_ends_with(s: Seq<char>, suf: Seq<char>) -> bool {
    suf.len() <= s.len() && s.subrange(s.len() - suf.len(), s.len() as int) == suf
}

pub fn ends_with(s: &str, suf: &str) -> (r: bool)
    ensures
        r == spec_ends_with(s@, suf@),
{
    let n = s.unicode_len();
    let m = suf.unicode_len();
    if m > n {
        return false;
    }
    matches_at(s, suf, n - m)
}

/// A line piece with one trailing carriage return removed.
pub open spec fn strip_cr(s: Seq<char>) -> Seq<char> {
    if s.len() > 0 && s.last() == '\r' {
        s.drop_last()
    } else {
        s
    }
}

/// The lines of `s`: split at newlines, each newline-terminated piece
/// stripped of one trailing carriage return, with no final empty piece
/// for text that ends in a newline.
pub open spec fn spec_lines(s: Seq<char>) -> Seq<Seq<char>>
    decreases s.len(),
{
    if s.len() == 0 {
        Seq::empty()
    } else {
        let k = nonl_prefix_len(s) as int;
        if k >= s.len() {
            seq![s]
        } else {
            seq![strip_cr(s.take(k))] + spec_lines(s.skip(k + 1))
        }
    }
}

/// Split a string into its lines.
pub fn split_lines(s: &str) -> (r: Vec<String>)
    ensures
        r@.map_values(|l: String| l@) == spec_lines(s@),
{
    let n = s.unicode_len();
    let mut r: Vec<String> = Vec::new();
    proof {
        assert(s@.skip(0) =~= s@);
        assert(r@.map_values(|l: String| l@) =~= Seq::<Seq<char>>::empty());
    }
    let mut pos: usize = 0;
    while pos < n
        invariant
            n == s@.len(),
            0 <= pos <= n,
            spec_lines(s@) == r@.map_values(|l: String| l@) + spec_lines(s@.skip(pos as int)),
        decreases n - pos,
    {
        let ghost r0 = r@;
        let ghost rest = s@.skip(pos as int);
        let k = nonl_run_end(s, pos);
        proof {
            assert(rest.len() == n - pos);
            assert(nonl_prefix_len(rest) == k - pos);
        }
        let piece_end = if k < n && k > pos && s.get_char(k - 1) == '\r' {
            k - 1
        } else {
            k
        };
        let piece = s.substring_char(pos, piece_end).to_owned();
        if k < n {
            proof {
                if k > pos && s@[k - 1] == '\r' {
                    assert(s@.subrange(pos as int, k as int).last() == '\r');
                }
                assert(s@.subrange(pos as int, piece_end as int) =~= strip_cr(
                    s@.subrange(pos as int, k as int),
                ));
                assert(piece@ == strip_cr(s@.subrange(pos as int, k as int)));
            }
            r.push(piece);
            proof {
                assert(r@.map_values(|l: String| l@) =~= r0.map_values(|l: String| l@) + seq![
                    strip_cr(s@.subrange(pos as int, k as int)),
                ]);
                assert(rest.take(k - pos) =~= s@.subrange(pos as int, k as int));
                assert(rest.skip(k - pos + 1) =~= s@.skip(k as int + 1));
                assert(spec_lines(rest) == seq![strip_cr(rest.take(k - pos))] + spec_lines(
                    rest.skip(k - pos + 1),
                ));
            }
            pos = k + 1;
        } else {
            proof {
                assert(k == n);
                assert(piece@ == s@.subrange(pos as int, k as int));
            }
            r.push(piece);
            proof {
                assert(nonl_prefix_len(rest) >= rest.len());
                assert(spec_lines(rest) == seq![rest]);
                assert(rest =~= s@.subrange(pos as int, k as int));
                assert(r@.map_values(|l: String| l@) =~= r0.map_values(|l: String| l@) + seq![
                    rest,
                ]);
                assert(s@.skip(n as int) =~= Seq::<char>::empty());
            }
            pos = n;
        }
    }
    proof {
        assert(s@.skip(n as int) =~= Seq::<char>::empty());
        assert(spec_lines(s@) =~= r@.map_values(|l: String| l@));
    }
    r
}

/// The text whose lines are `ls`, each line followed by a newline.
pub open spec fn spec_unlines(ls: Seq<Seq<char>>) -> Seq<char>
    decreases ls.len(),
{
    if ls.len() == 0 {
        Seq::empty()
    } else {
        spec_unlines(ls.drop_last()) + ls.last() + "\n"@
    }
}

/// Join lines into a text, a newline after every line.
pub fn join_lines_nl(lines: &Vec<String>) -> (r: String)
    ensures
        r@ == spec_unlines(lines@.map_values(|l: String| l@)),
{
    let ghost views = lines@.map_values(|l: String| l@);
    let mut r = String::new();
    proof {
        assert(views.take(0) =~= Seq::<Seq<char>>::empty());
    }
    let n = lines.len();
    let mut i: usize = 0;
    while i < n
        invariant
            n == lines@.len(),
            views == lines@.map_values(|l: String| l@),
            0 <= i <= n,
            r@ == spec_unlines(views.take(i as int)),
        decreases n - i,
    {
        r.append(lines[i].as_str());
        r.append("\n");
        proof {
            assert(views.take(i as int + 1).drop_last() =~= views.take(i as int));
            assert(views.take(i as int + 1).last() == views[i as int]);
        }
        i += 1;
    }
    proof {
        assert(views.take(n as int) =~= views);
    }
    r
}

/// Each newline replaced by a space.
pub open spec fn spec_collapse_nl(s: Seq<char>) -> Seq<char> {
    s.map_values(|c: char| if c == '\n' { ' ' } else { c })
}

/// Replace every newline in `s` by a space.
pub fn collapse_newlines(s: &str) -> (r: String)
    ensures
        r@ == spec_collapse_nl(s@),
{
    let n = s.unicode_len();
    let mut r = String::new();
    proof {
        reveal_strlit(" ");
    }
    let mut i: usize = 0;
    while i < n
        invariant
            n == s@.len(),
            " "@ =~= seq![' '],
            0 <= i <= n,
            r@.len() == i,
            forall|j: int| 0 <= j < i ==> r@[j] == (if s@[j] == '\n' { ' ' } else { s@[j] }),
        decreases n - i,
    {
        if s.get_char(i) == '\n' {
            r.append(" ");
        } else {
            let piece = s.substring_char(i, i + 1);
            r.append(piece);
        }
        i += 1;
    }
    proof {
        assert(r@ =~= spec_collapse_nl(s@));
    }
    r
}

} // verus!
