//! Injecting documentation blocks into generated declaration text.
//!
//! The generator's output is processed line by line. Exactly two line
//! shapes are recognized: a top-level declaration introducer (`pub` plus
//! `const`/`fn`/`struct`/`union`/`type` and a name) and a field
//! declaration nested inside the current struct or union (`pub` plus a
//! name and a colon). Anything else passes through untouched.

use crate::doc::{desc_view, field_key, DataTypeInfo, OdpicDoc};
use crate::strutil::{
    spec_lines, spec_matches_at, split_lines, word_prefix_len, word_run_end, ws_prefix_len,
    ws_run_end, matches_at,
};
use vstd::prelude::*;

verus! {

/// The keyword of a top-level declaration introducer.
#[derive(Clone, Copy, Debug, PartialEq, Eq, Structural)]
pub enum DeclKeyword {
    Const,
    Func,
    Struct,
    Union,
    TyAlias,
}

/// The shape of one generated line, at the specification level.
pub enum LineShape {
    NoDecl,
    TopLevel { indent: Seq<char>, kw: DeclKeyword, name: Seq<char> },
    Field { indent: Seq<char>, name: Seq<char> },
}

/// The literal that introduces a top-level declaration of each keyword,
/// trailing space included.
pub open spec fn keyword_str(kw: DeclKeyword) -> Seq<char> {
    match kw {
        DeclKeyword::Const => "const "@,
        DeclKeyword::Func => "fn "@,
        DeclKeyword::Struct => "struct "@,
        DeclKeyword::Union => "union "@,
        DeclKeyword::TyAlias => "type "@,
    }
}

/// The top-level keyword found at position `p`, if any.
pub open spec fn try_keyword_at(s: Seq<char>, p: int) -> Option<DeclKeyword> {
    if spec_matches_at(s, "const "@, p) {
        Some(DeclKeyword::Const)
    } else if spec_matches_at(s, "fn "@, p) {
        Some(DeclKeyword::Func)
    } else if spec_matches_at(s, "struct "@, p) {
        Some(DeclKeyword::Struct)
    } else if spec_matches_at(s, "union "@, p) {
        Some(DeclKeyword::Union)
    } else if spec_matches_at(s, "type "@, p) {
        Some(DeclKeyword::TyAlias)
    } else {
        None
    }
}

/// The shape of a line: leading whitespace, then `pub `, then either a
/// keyword and a name, or a name directly followed by a colon.
pub open spec fn spec_match_line(s: Seq<char>) -> LineShape {
    let w = ws_prefix_len(s) as int;
    if !spec_matches_at(s, "pub "@, w) {
        LineShape::NoDecl
    } else {
        let p = w + 4;
        let kw_name = match try_keyword_at(s, p) {
            Some(kw) => {
                let q = p + keyword_str(kw).len();
                let wl = word_prefix_len(s.skip(q)) as int;
                if wl > 0 {
                    Some((kw, s.subrange(q, q + wl)))
                } else {
                    None
                }
            },
            None => None,
        };
        match kw_name {
            Some((kw, name)) => LineShape::TopLevel { indent: s.take(w), kw, name },
            None => {
                let wl = word_prefix_len(s.skip(p)) as int;
                if wl > 0 && p + wl < s.len() && s[p + wl] == ':' {
                    LineShape::Field { indent: s.take(w), name: s.subrange(p, p + wl) }
                } else {
                    LineShape::NoDecl
                }
            },
        }
    }
}

/// The shape of one generated line, carried by executable code.
#[derive(Clone, Debug)]
pub enum LineMatch {
    NoDecl,
    TopLevel { indent: String, kw: DeclKeyword, name: String },
    Field { indent: String, name: String },
}

impl View for LineMatch {
    type V = LineShape;

    open spec fn view(&self) -> LineShape {
        match self {
            LineMatch::NoDecl => LineShape::NoDecl,
            LineMatch::TopLevel { indent, kw, name } => LineShape::TopLevel {
                indent: indent@,
                kw: *kw,
                name: name@,
            },
            LineMatch::Field { indent, name } => LineShape::Field {
                indent: indent@,
                name: name@,
            },
        }
    }
}

/// Recognize the shape of one generated line.
pub fn match_line(line: &str) -> (r: LineMatch)
    ensures
        r@ == spec_match_line(line@),
{
    proof {
        reveal_strlit("pub ");
        reveal_strlit("const ");
        reveal_strlit("fn ");
        reveal_strlit("struct ");
        reveal_strlit("union ");
        reveal_strlit("type ");
    }
    let n = line.unicode_len();
    let w = ws_run_end(line, 0);
    proof {
        assert(line@.skip(0) =~= line@);
    }
    if !matches_at(line, "pub ", w) {
        return LineMatch::NoDecl;
    }
    let p = w + 4;
    let mut kw = DeclKeyword::Const;
    let mut kwlen: usize = 0;
    let mut have_kw = true;
    if matches_at(line, "const ", p) {
        kw = DeclKeyword::Const;
        kwlen = 6;
    } else if matches_at(line, "fn ", p) {
        kw = DeclKeyword::Func;
        kwlen = 3;
    } else if matches_at(line, "struct ", p) {
        kw = DeclKeyword::Struct;
        kwlen = 7;
    } else if matches_at(line, "union ", p) {
        kw = DeclKeyword::Union;
        kwlen = 6;
    } else if matches_at(line, "type ", p) {
        kw = DeclKeyword::TyAlias;
        kwlen = 5;
    } else {
        have_kw = false;
    }
    assert(try_keyword_at(line@, p as int) == (if have_kw {
        Some(kw)
    } else {
        Option::<DeclKeyword>::None
    }));
    if have_kw {
        assert(kwlen == keyword_str(kw).len());
        let q = p + kwlen;
        let e = word_run_end(line, q);
        if e > q {
            let indent = line.substring_char(0, w).to_owned();
            let name = line.substring_char(q, e).to_owned();
            proof {
                assert(indent@ =~= line@.take(w as int));
                assert(name@ =~= line@.subrange(q as int, q + (e - q) as int));
            }
            return LineMatch::TopLevel { indent, kw, name };
        }
    }
    let e = word_run_end(line, p);
    if e > p && e < n && line.get_char(e) == ':' {
        let indent = line.substring_char(0, w).to_owned();
        let name = line.substring_char(p, e).to_owned();
        proof {
            assert(indent@ =~= line@.take(w as int));
            assert(name@ =~= line@.subrange(p as int, p + (e - p) as int));
        }
        return LineMatch::Field { indent, name };
    }
    LineMatch::NoDecl
}

/// The struct/union scope after one line: a struct or union introducer
/// opens its name as the scope, any other top-level introducer closes
/// it, and other lines leave it unchanged.
pub open spec fn next_owner(cur: Seq<char>, shape: LineShape) -> Seq<char> {
    match shape {
        LineShape::TopLevel { kw, name, .. } => if kw == DeclKeyword::Struct || kw
            == DeclKeyword::Union {
            name
        } else {
            Seq::empty()
        },
        _ => cur,
    }
}

/// The catalog key a line's declaration resolves to, given the current
/// struct/union scope: a top-level name stands alone, a field name is
/// qualified by the scope.
pub open spec fn lookup_key(cur: Seq<char>, shape: LineShape) -> Option<Seq<char>> {
    match shape {
        LineShape::NoDecl => None,
        LineShape::TopLevel { name, .. } => Some(name),
        LineShape::Field { name, .. } => Some(field_key(cur, name)),
    }
}

/// The indentation captured from a line's declaration.
pub open spec fn shape_indent(shape: LineShape) -> Seq<char> {
    match shape {
        LineShape::NoDecl => Seq::empty(),
        LineShape::TopLevel { indent, .. } => indent,
        LineShape::Field { indent, .. } => indent,
    }
}

/// Law: struct scoping. A field declaration resolves under the name of
/// the nearest preceding top-level struct or union introducer, and any
/// top-level introducer — struct, union, function, constant or type
/// alias — resets the scope exactly when it is seen.
pub proof fn lemma_struct_scoping(cur: Seq<char>, shape: LineShape)
    ensures
        match shape {
            LineShape::TopLevel { kw, name, .. } => next_owner(cur, shape) == (if kw
                == DeclKeyword::Struct || kw == DeclKeyword::Union {
                name
            } else {
                Seq::<char>::empty()
            }),
            LineShape::Field { name, .. } => next_owner(cur, shape) == cur && lookup_key(cur, shape)
                == Some(field_key(cur, name)),
            LineShape::NoDecl => next_owner(cur, shape) == cur && lookup_key(cur, shape).is_none(),
        },
{
}

/// The outcome of resolving one line against the catalog.
pub enum LineLookup {
    NotDecl,
    Found { desc: String, indent: String },
    Missing { name: String },
}

/// The line-by-line annotator: the catalog and the name of the struct or
/// union whose fields the current lines declare (empty outside one).
pub struct DocComment {
    pub doc: OdpicDoc,
    pub struct_or_union_name: String,
}

impl DocComment {
    pub open spec fn wf(&self) -> bool {
        self.doc.wf()
    }

    /// Build the annotator: derive the catalog's indexes from the type
    /// entries and apply the enum-description rewrite, starting outside
    /// any struct or union.
    pub fn new(data_types: Vec<DataTypeInfo>) -> (r: DocComment)
        ensures
            r.wf(),
            r.doc.data_types == data_types,
            r.doc.round_trips_map@ == crate::doc::rt_map(Map::empty(), data_types@),
            r.doc.underlying_type_map@ == crate::doc::ut_map(Map::empty(), data_types@),
            desc_view(r.doc.name_to_desc@) == crate::doc::rewrite_descs(
                crate::doc::desc_map(Map::empty(), data_types@),
                data_types@,
            ),
            r.struct_or_union_name@ == Seq::<char>::empty(),
    {
        let mut doc = OdpicDoc::read_yaml(data_types);
        proof {
            crate::doc::lemma_desc_map_contains_type_names(Map::empty(), doc.data_types@);
            assert forall|k: Seq<char>|
                desc_view(doc.name_to_desc@).contains_key(k) implies doc.name_to_desc@.contains_key(
                k,
            ) by {}
            assert(doc.enum_names_indexed());
        }
        doc.rewrite_enum_descs();
        DocComment { doc, struct_or_union_name: String::new() }
    }

    /// Resolve one generated line: recognize its shape, update the
    /// struct/union scope, and look its key up in the description index.
    pub fn find_desc(&mut self, line: &str) -> (r: LineLookup)
        requires
            old(self).wf(),
        ensures
            final(self).wf(),
            final(self).doc == old(self).doc,
            final(self).struct_or_union_name@ == next_owner(
                old(self).struct_or_union_name@,
                spec_match_line(line@),
            ),
            match lookup_key(old(self).struct_or_union_name@, spec_match_line(line@)) {
                None => r is NotDecl,
                Some(k) => match r {
                    LineLookup::NotDecl => false,
                    LineLookup::Found { desc, indent } => old(self).doc.name_to_desc@.contains_key(
                        k,
                    ) && desc@ == desc_view(old(self).doc.name_to_desc@)[k] && indent@
                        == shape_indent(spec_match_line(line@)),
                    LineLookup::Missing { name } => !old(self).doc.name_to_desc@.contains_key(k)
                        && name@ == k,
                },
            },
    {
        let m = match_line(line);
        match m {
            LineMatch::NoDecl => LineLookup::NotDecl,
            LineMatch::TopLevel { indent, kw, name } => {
                let is_scope = match kw {
                    DeclKeyword::Struct => true,
                    DeclKeyword::Union => true,
                    _ => false,
                };
                if is_scope {
                    self.struct_or_union_name = name.clone();
                } else {
                    self.struct_or_union_name = String::new();
                }
                match self.doc.find_desc(name.as_str()) {
                    Some(d) => LineLookup::Found { desc: d.to_owned(), indent },
                    None => LineLookup::Missing { name },
                }
            },
            LineMatch::Field { indent, name } => {
                let key = self.struct_or_union_name.clone().concat("::").concat(name.as_str());
                match self.doc.find_desc(key.as_str()) {
                    Some(d) => LineLookup::Found { desc: d.to_owned(), indent },
                    None => LineLookup::Missing { name: key },
                }
            },
        }
    }
}

/// The lines emitted for one input line: for a resolved key with a
/// non-empty description, one blank separator line, the description's
/// lines each prefixed with the declaration's indentation and a
/// documentation-comment marker, then the line itself; otherwise the
/// line alone.
pub open spec fn emit_for_line(
    dm: Map<Seq<char>, Seq<char>>,
    cur: Seq<char>,
    line: Seq<char>,
) -> Seq<Seq<char>> {
    let shape = spec_match_line(line);
    match lookup_key(cur, shape) {
        None => seq![line],
        Some(k) => if dm.contains_key(k) && dm[k].len() > 0 {
            seq![Seq::<char>::empty()] + spec_lines(dm[k]).map_values(
                |dl: Seq<char>| shape_indent(shape) + "/// "@ + dl,
            ) + seq![line]
        } else {
            seq![line]
        },
    }
}

/// The warnings emitted for one input line: one, if the line declares a
/// name the catalog does not describe.
pub open spec fn warn_for_line(
    dm: Map<Seq<char>, Seq<char>>,
    cur: Seq<char>,
    line: Seq<char>,
) -> Seq<Seq<char>> {
    match lookup_key(cur, spec_match_line(line)) {
        Some(k) => if !dm.contains_key(k) {
            seq!["WARNING: "@ + k + " has no description."@]
        } else {
            Seq::empty()
        },
        None => Seq::empty(),
    }
}

/// The result of annotating a sequence of lines.
pub struct AnnotOut {
    pub out: Seq<Seq<char>>,
    pub warnings: Seq<Seq<char>>,
    pub owner: Seq<char>,
}

/// Annotation of a sequence of lines, threading the struct/union scope
/// and accumulating output lines and warnings.
pub open spec fn spec_annotate(
    dm: Map<Seq<char>, Seq<char>>,
    cur: Seq<char>,
    out: Seq<Seq<char>>,
    warns: Seq<Seq<char>>,
    lines: Seq<Seq<char>>,
) -> AnnotOut
    decreases lines.len(),
{
    if lines.len() == 0 {
        AnnotOut { out, warnings: warns, owner: cur }
    } else {
        spec_annotate(
            dm,
            next_owner(cur, spec_match_line(lines[0])),
            out + emit_for_line(dm, cur, lines[0]),
            warns + warn_for_line(dm, cur, lines[0]),
            lines.drop_first(),
        )
    }
}

/// Law: annotation correctness. For a line whose resolved key carries a
/// non-empty description of `k` lines, exactly `k` documentation lines
/// are emitted immediately before the line, each indented like the
/// declaration and marked as a documentation comment, preceded by exactly
/// one blank separator line; a line whose description is empty or absent
/// is emitted alone.
pub proof fn lemma_annotation_shape(dm: Map<Seq<char>, Seq<char>>, cur: Seq<char>, line: Seq<char>)
    ensures
        match lookup_key(cur, spec_match_line(line)) {
            Some(k) => {
                let e = emit_for_line(dm, cur, line);
                if dm.contains_key(k) && dm[k].len() > 0 {
                    let dls = spec_lines(dm[k]);
                    e.len() == 2 + dls.len() && e[0] == Seq::<char>::empty() && e[e.len() - 1]
                        == line && forall|x: int|
                        0 <= x < dls.len() ==> e[x + 1] == shape_indent(spec_match_line(line))
                            + "/// "@ + dls[x]
                } else {
                    e == seq![line]
                }
            },
            None => emit_for_line(dm, cur, line) == seq![line],
        },
{
    let shape = spec_match_line(line);
    match lookup_key(cur, shape) {
        Some(k) => {
            if dm.contains_key(k) && dm[k].len() > 0 {
                let dls = spec_lines(dm[k]);
                let mapped = dls.map_values(|dl: Seq<char>| shape_indent(shape) + "/// "@ + dl);
                let e = emit_for_line(dm, cur, line);
                assert(e.len() == 2 + dls.len());
                assert forall|x: int| 0 <= x < dls.len() implies e[x + 1] == shape_indent(shape)
                    + "/// "@ + dls[x] by {
                    assert(mapped[x] == shape_indent(shape) + "/// "@ + dls[x]);
                    assert(e[x + 1] == mapped[x]);
                }
            }
        },
        None => {},
    }
}

/// Annotate the generator's output lines: each recognized declaration
/// gains its documentation block, unresolved declarations yield
/// warnings, and everything else passes through unchanged.
pub fn annotate_lines(dc: &mut DocComment, lines: &Vec<String>) -> (r: (Vec<String>, Vec<String>))
    requires
        old(dc).wf(),
    ensures
        final(dc).wf(),
        final(dc).doc == old(dc).doc,
        ({
            let res = spec_annotate(
                desc_view(old(dc).doc.name_to_desc@),
                old(dc).struct_or_union_name@,
                Seq::empty(),
                Seq::empty(),
                lines@.map_values(|l: String| l@),
            );
            r.0@.map_values(|l: String| l@) == res.out && r.1@.map_values(|l: String| l@)
                == res.warnings && final(dc).struct_or_union_name@ == res.owner
        }),
{
    let ghost dm = desc_view(old(dc).doc.name_to_desc@);
    let ghost lviews = lines@.map_values(|l: String| l@);
    let ghost target = spec_annotate(dm, old(dc).struct_or_union_name@, Seq::empty(), Seq::empty(), lviews);
    let mut out: Vec<String> = Vec::new();
    let mut warns: Vec<String> = Vec::new();
    proof {
        assert(lviews.skip(0) =~= lviews);
        assert(out@.map_values(|l: String| l@) =~= Seq::<Seq<char>>::empty());
        assert(warns@.map_values(|l: String| l@) =~= Seq::<Seq<char>>::empty());
    }
    let n = lines.len();
    let mut i: usize = 0;
    while i < n
        invariant
            n == lines@.len(),
            lviews == lines@.map_values(|l: String| l@),
            0 <= i <= n,
            dc.wf(),
            dc.doc == old(dc).doc,
            dm == desc_view(dc.doc.name_to_desc@),
            spec_annotate(
                dm,
                dc.struct_or_union_name@,
                out@.map_values(|l: String| l@),
                warns@.map_values(|l: String| l@),
                lviews.skip(i as int),
            ) == target,
        decreases n - i,
    {
        proof {
            assert(lviews.skip(i as int)[0] == lviews[i as int]);
            assert(lviews.skip(i as int).drop_first() =~= lviews.skip(i as int + 1));
        }
        let ghost cur0 = dc.struct_or_union_name@;
        let ghost out0 = out@.map_values(|l: String| l@);
        let ghost warns0 = warns@.map_values(|l: String| l@);
        let line = &lines[i];
        let ll = dc.find_desc(line.as_str());
        match ll {
            LineLookup::NotDecl => {
                out.push(line.clone());
                proof {
                    assert(out@.map_values(|l: String| l@) =~= out0 + emit_for_line(dm, cur0, lviews[i as int]));
                    assert(warns@.map_values(|l: String| l@) =~= warns0 + warn_for_line(dm, cur0, lviews[i as int]));
                }
            },
            LineLookup::Found { desc, indent } => {
                let ghost k = lookup_key(cur0, spec_match_line(lviews[i as int])).unwrap();
                if desc.as_str().unicode_len() > 0 {
                    out.push(String::new());
                    let dls = split_lines(desc.as_str());
                    let ghost dviews = spec_lines(dm[k]);
                    let ghost mapped = dviews.map_values(
                        |dl: Seq<char>| shape_indent(spec_match_line(lviews[i as int])) + "/// "@ + dl,
                    );
                    proof {
                        assert(dls@.map_values(|l: String| l@) == dviews);
                        assert(out@.map_values(|l: String| l@) =~= out0 + seq![Seq::<char>::empty()]);
                    }
                    let dcount = dls.len();
                    let mut x: usize = 0;
                    while x < dcount
                        invariant
                            dcount == dls@.len(),
                            dls@.map_values(|l: String| l@) == dviews,
                            mapped == dviews.map_values(
                                |dl: Seq<char>| shape_indent(spec_match_line(lviews[i as int])) + "/// "@ + dl,
                            ),
                            indent@ == shape_indent(spec_match_line(lviews[i as int])),
                            0 <= x <= dcount,
                            out@.map_values(|l: String| l@) == out0 + seq![Seq::<char>::empty()]
                                + mapped.take(x as int),
                        decreases dcount - x,
                    {
                        let docline = indent.clone().concat("/// ").concat(dls[x].as_str());
                        proof {
                            assert(dviews[x as int] == dls@[x as int]@);
                            assert(mapped[x as int] == shape_indent(
                                spec_match_line(lviews[i as int]),
                            ) + "/// "@ + dviews[x as int]);
                            assert(docline@ == mapped[x as int]);
                        }
                        let ghost ovs = out@.map_values(|l: String| l@);
                        out.push(docline);
                        proof {
                            assert(out@.map_values(|l: String| l@) =~= ovs.push(docline@));
                            assert(mapped.take(x as int + 1) =~= mapped.take(x as int) + seq![
                                mapped[x as int],
                            ]);
                            assert(ovs.push(docline@) =~= out0 + seq![Seq::<char>::empty()]
                                + mapped.take(x as int + 1));
                        }
                        x += 1;
                    }
                    let ghost ovs2 = out@.map_values(|l: String| l@);
                    out.push(line.clone());
                    proof {
                        assert(mapped.take(dcount as int) =~= mapped);
                        assert(out@.map_values(|l: String| l@) =~= ovs2.push(lviews[i as int]));
                        assert(ovs2.push(lviews[i as int]) =~= out0 + (seq![
                            Seq::<char>::empty(),
                        ] + mapped + seq![lviews[i as int]]));
                        assert(emit_for_line(dm, cur0, lviews[i as int]) == seq![
                            Seq::<char>::empty(),
                        ] + mapped + seq![lviews[i as int]]);
                        assert(warns@.map_values(|l: String| l@) =~= warns0 + warn_for_line(
                            dm,
                            cur0,
                            lviews[i as int],
                        ));
                    }
                } else {
                    out.push(line.clone());
                    proof {
                        assert(out@.map_values(|l: String| l@) =~= out0 + emit_for_line(
                            dm,
                            cur0,
                            lviews[i as int],
                        ));
                        assert(warns@.map_values(|l: String| l@) =~= warns0 + warn_for_line(
                            dm,
                            cur0,
                            lviews[i as int],
                        ));
                    }
                }
            },
            LineLookup::Missing { name } => {
                let w = String::from_str("WARNING: ").concat(name.as_str()).concat(
                    " has no description.",
                );
                warns.push(w);
                out.push(line.clone());
                proof {
                    assert(out@.map_values(|l: String| l@) =~= out0 + emit_for_line(
                        dm,
                        cur0,
                        lviews[i as int],
                    ));
                    assert(warns@.map_values(|l: String| l@) =~= warns0 + warn_for_line(
                        dm,
                        cur0,
                        lviews[i as int],
                    ));
                }
            },
        }
        i += 1;
    }
    proof {
        assert(lviews.skip(n as int) =~= Seq::<Seq<char>>::empty());
    }
    (out, warns)
}

} // verus!
