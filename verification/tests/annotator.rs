use odpic_doc::annotate::{annotate_lines, DocComment};
use odpic_doc::doc::{DataKind, DataTypeInfo, FunctionInfo, MemberInfo, RoundTrips};
use odpic_doc::strutil::{collapse_newlines, join_lines_nl, split_lines};

fn member(name: &str, desc: &str) -> MemberInfo {
    MemberInfo { name: name.to_string(), desc: desc.to_string(), c_type: None, mode: None }
}

fn func(name: &str, desc: &str, rt: RoundTrips) -> FunctionInfo {
    FunctionInfo {
        name: name.to_string(),
        desc: desc.to_string(),
        round_trips: rt,
        rettype: "int".to_string(),
        params: vec![],
    }
}

fn strs(lines: &[&str]) -> Vec<String> {
    lines.iter().map(|s| s.to_string()).collect()
}

fn two_structs() -> Vec<DataTypeInfo> {
    vec![
        DataTypeInfo {
            name: "Foo".to_string(),
            kind: DataKind::Struct,
            desc: "the Foo struct".to_string(),
            underlying_type: None,
            members: vec![member("a", "field a of Foo"), member("b", "field b of Foo"), member("c", "wrong: c under Foo")],
            functions: vec![],
        },
        DataTypeInfo {
            name: "Bar".to_string(),
            kind: DataKind::Struct,
            desc: "the Bar struct".to_string(),
            underlying_type: None,
            members: vec![member("c", "field c of Bar")],
            functions: vec![],
        },
    ]
}

#[test]
fn annotation_block_shape() {
    let dt = DataTypeInfo {
        name: "FOO".to_string(),
        kind: DataKind::OpaqueStruct,
        desc: "line one\nline two".to_string(),
        underlying_type: None,
        members: vec![],
        functions: vec![],
    };
    let mut dc = DocComment::new(vec![dt]);
    let (out, warns) = annotate_lines(&mut dc, &strs(&["  pub const FOO: u32 = 1;"]));
    assert_eq!(
        out,
        strs(&["", "  /// line one", "  /// line two", "  pub const FOO: u32 = 1;"])
    );
    assert!(warns.is_empty());
}

#[test]
fn empty_description_yields_no_block_and_no_warning() {
    let dt = DataTypeInfo {
        name: "FOO".to_string(),
        kind: DataKind::OpaqueStruct,
        desc: "".to_string(),
        underlying_type: None,
        members: vec![],
        functions: vec![],
    };
    let mut dc = DocComment::new(vec![dt]);
    let (out, warns) = annotate_lines(&mut dc, &strs(&["pub const FOO: u32 = 1;"]));
    assert_eq!(out, strs(&["pub const FOO: u32 = 1;"]));
    assert!(warns.is_empty());
}

#[test]
fn missing_description_warns_and_passes_through() {
    let mut dc = DocComment::new(vec![]);
    let (out, warns) = annotate_lines(&mut dc, &strs(&["pub fn dpiConn_break() {}"]));
    assert_eq!(out, strs(&["pub fn dpiConn_break() {}"]));
    assert_eq!(warns, strs(&["WARNING: dpiConn_break has no description."]));
}

#[test]
fn unrelated_lines_pass_through_untouched() {
    let mut dc = DocComment::new(two_structs());
    let (out, warns) = annotate_lines(
        &mut dc,
        &strs(&["#[repr(C)]", "}", "impl Foo {", "    x: u32,"]),
    );
    assert_eq!(out, strs(&["#[repr(C)]", "}", "impl Foo {", "    x: u32,"]));
    assert!(warns.is_empty());
}

#[test]
fn struct_scoping_resolves_fields_under_the_right_owner() {
    let mut dc = DocComment::new(two_structs());
    let (out, warns) = annotate_lines(
        &mut dc,
        &strs(&[
            "pub struct Foo {",
            "    pub a: T1,",
            "    pub b: T2,",
            "}",
            "pub struct Bar {",
            "    pub c: T3,",
            "}",
        ]),
    );
    assert_eq!(
        out,
        strs(&[
            "",
            "/// the Foo struct",
            "pub struct Foo {",
            "",
            "    /// field a of Foo",
            "    pub a: T1,",
            "",
            "    /// field b of Foo",
            "    pub b: T2,",
            "}",
            "",
            "/// the Bar struct",
            "pub struct Bar {",
            "",
            "    /// field c of Bar",
            "    pub c: T3,",
            "}",
        ])
    );
    assert!(warns.is_empty());
}

#[test]
fn scope_resets_at_any_top_level_introducer() {
    let mut docs = two_structs();
    docs.push(DataTypeInfo {
        name: "dpiConn".to_string(),
        kind: DataKind::OpaqueStruct,
        desc: "".to_string(),
        underlying_type: None,
        members: vec![],
        functions: vec![func("dpiConn_ping", "", RoundTrips::No)],
    });
    let mut dc = DocComment::new(docs);
    // After the function introducer the struct scope is closed, so the
    // stray field resolves under the empty owner and is unknown.
    let (_, warns) = annotate_lines(
        &mut dc,
        &strs(&["pub struct Foo {", "pub fn dpiConn_ping() {}", "    pub c: T3,"]),
    );
    assert_eq!(warns, strs(&["WARNING: ::c has no description."]));
}

#[test]
fn enum_constant_lines_get_the_cross_reference() {
    let dts = vec![DataTypeInfo {
        name: "Color".to_string(),
        kind: DataKind::Enum,
        desc: "A color.".to_string(),
        underlying_type: None,
        members: vec![member("Red", "the color red")],
        functions: vec![],
    }];
    let mut dc = DocComment::new(dts);
    let (out, warns) = annotate_lines(&mut dc, &strs(&["pub const Red: Color = Color(0);"]));
    assert_eq!(
        out,
        strs(&["", "/// See [`Color`]", "pub const Red: Color = Color(0);"])
    );
    assert!(warns.is_empty());
}

#[test]
fn split_and_join_lines() {
    assert_eq!(split_lines(""), Vec::<String>::new());
    assert_eq!(split_lines("a"), strs(&["a"]));
    assert_eq!(split_lines("a\n"), strs(&["a"]));
    assert_eq!(split_lines("a\n\nb"), strs(&["a", "", "b"]));
    assert_eq!(split_lines("a\r\nb"), strs(&["a", "b"]));
    assert_eq!(split_lines("a\r"), strs(&["a\r"]));
    assert_eq!(join_lines_nl(&strs(&["a", "b"])), "a\nb\n");
    assert_eq!(join_lines_nl(&Vec::new()), "");
}

#[test]
fn collapse_newlines_replaces_each_newline() {
    assert_eq!(collapse_newlines("a\nb\nc"), "a b c");
    assert_eq!(collapse_newlines(""), "");
    assert_eq!(collapse_newlines("plain"), "plain");
}
