use odpic_doc::annotate::{annotate_lines, DocComment};
use odpic_doc::callback::{int_macro, unlisted_function_warning, IntKind};
use odpic_doc::doc::{DataKind, DataTypeInfo, FunctionInfo, MemberInfo, OdpicDoc, RoundTrips, UnderlyingType};
use odpic_doc::driver::{pass_a_config, pass_b_config, pass_c_config, HeaderSource};
use odpic_doc::rst::{apply_additional_funcs, function_types};

fn member(name: &str, desc: &str) -> MemberInfo {
    MemberInfo { name: name.to_string(), desc: desc.to_string(), c_type: None, mode: None }
}

fn func(name: &str, desc: &str, rt: RoundTrips) -> FunctionInfo {
    FunctionInfo {
        name: name.to_string(),
        desc: desc.to_string(),
        round_trips: rt,
        rettype: "int".to_string(),
        params: vec![],
    }
}

fn sample_doc() -> OdpicDoc {
    OdpicDoc::read_yaml(vec![
        DataTypeInfo {
            name: "Color".to_string(),
            kind: DataKind::Enum,
            desc: "A color.".to_string(),
            underlying_type: Some(UnderlyingType::Uint8),
            members: vec![member("Red", "red"), member("Green", "green")],
            functions: vec![],
        },
        DataTypeInfo {
            name: "Flags".to_string(),
            kind: DataKind::Enum,
            desc: "Some flags.".to_string(),
            underlying_type: Some(UnderlyingType::Uint16),
            members: vec![member("DPI_FLAG_ONE", "the first flag")],
            functions: vec![],
        },
        DataTypeInfo {
            name: "dpiConn".to_string(),
            kind: DataKind::OpaqueStruct,
            desc: "A connection.".to_string(),
            underlying_type: None,
            members: vec![],
            functions: vec![
                func("dpiConn_ping", "Pings the database.", RoundTrips::No),
                func("dpiConn_close", "Closes the connection.", RoundTrips::Maybe),
                func("dpiConn_commit", "Commits.", RoundTrips::Yes),
            ],
        },
    ])
}

fn contains(v: &[String], s: &str) -> bool {
    v.iter().any(|x| x == s)
}

#[test]
fn passes_partition_the_function_surface() {
    let doc = sample_doc();
    let a = pass_a_config(&doc);
    let b = pass_b_config(&doc);
    // Pass A blocks exactly the functions that may block on the network.
    assert!(contains(&a.blocklist_functions, "dpiConn_close"));
    assert!(contains(&a.blocklist_functions, "dpiConn_commit"));
    assert!(!contains(&a.blocklist_functions, "dpiConn_ping"));
    // Pass B allows exactly those same functions.
    assert!(contains(&b.allowlist_functions, "dpiConn_close"));
    assert!(contains(&b.allowlist_functions, "dpiConn_commit"));
    assert!(!contains(&b.allowlist_functions, "dpiConn_ping"));
    // No function name is emitted by both passes.
    for name in &b.allowlist_functions {
        assert!(contains(&a.blocklist_functions, name));
    }
}

#[test]
fn pass_configurations_match_their_headers_and_filters() {
    let doc = sample_doc();
    let a = pass_a_config(&doc);
    assert_eq!(a.header, HeaderSource::Public);
    assert_eq!(a.allowlist_types, vec!["^dpi.*".to_string()]);
    assert_eq!(a.allowlist_functions, vec!["^dpi.*".to_string()]);
    assert_eq!(a.allowlist_vars, vec!["^DPI_.*".to_string()]);
    assert_eq!(
        a.bitfield_enums,
        vec![
            "dpiExecMode".to_string(),
            "dpiFetchMode".to_string(),
            "dpiOpCode".to_string(),
            "dpiSubscrQOS".to_string()
        ]
    );
    assert!(a.allowlist_recursively);
    assert!(!a.prepend_enum_name);
    assert!(a.derive_default);
    assert!(a.annotate);

    let b = pass_b_config(&doc);
    assert_eq!(b.header, HeaderSource::Public);
    assert!(!b.allowlist_recursively);
    assert!(b.allowlist_types.is_empty());
    assert!(b.annotate);

    let c = pass_c_config();
    assert_eq!(c.header, HeaderSource::Internal);
    assert_eq!(c.allowlist_vars, vec!["^DPI_.*".to_string()]);
    assert!(c.allowlist_functions.is_empty());
    assert!(c.allowlist_types.is_empty());
    assert!(!c.annotate);
}

#[test]
fn macro_typing_follows_declared_widths() {
    let doc = sample_doc();
    assert_eq!(int_macro(&doc, "Red"), Some(IntKind::U8));
    assert_eq!(int_macro(&doc, "DPI_FLAG_ONE"), Some(IntKind::U16));
    assert_eq!(int_macro(&doc, "unknown"), None);
    assert_eq!(int_macro(&doc, "DPI_SUCCESS"), Some(IntKind::I32));
}

#[test]
fn success_code_macro_is_i32_regardless_of_catalog() {
    let doc = OdpicDoc::read_yaml(vec![DataTypeInfo {
        name: "Odd".to_string(),
        kind: DataKind::Enum,
        desc: "".to_string(),
        underlying_type: Some(UnderlyingType::Uint16),
        members: vec![member("DPI_SUCCESS", "a stray entry")],
        functions: vec![],
    }]);
    assert_eq!(int_macro(&doc, "DPI_SUCCESS"), Some(IntKind::I32));
}

#[test]
fn unlisted_functions_warn() {
    let doc = sample_doc();
    assert_eq!(unlisted_function_warning(&doc, true, "dpiConn_ping"), None);
    assert_eq!(
        unlisted_function_warning(&doc, true, "dpiConn_startup"),
        Some("WARNING: dpiConn_startup isn't listed in round_trips.rst".to_string())
    );
    assert_eq!(unlisted_function_warning(&doc, false, "dpiConn_startup"), None);
}

#[test]
fn round_trips_document_is_parsed() {
    let lines: Vec<String> = vec![
        "ODPI-C Function Round-Trips".to_string(),
        "   * - :func:`dpiConn_ping()`".to_string(),
        "     - Yes".to_string(),
        "   * - :func:`dpiConn_getEncodingInfo()`".to_string(),
        "     - No".to_string(),
        "   * - :func:`dpiConn_close()`".to_string(),
        "     - Maybe".to_string(),
    ];
    let m = function_types(&lines).unwrap();
    assert_eq!(m.get("dpiConn_ping"), Some(&RoundTrips::Yes));
    assert_eq!(m.get("dpiConn_getEncodingInfo"), Some(&RoundTrips::No));
    assert_eq!(m.get("dpiConn_close"), Some(&RoundTrips::Maybe));
    assert_eq!(m.get("dpiConn_commit"), None);
}

#[test]
fn round_trips_document_bad_line_is_an_error() {
    let lines: Vec<String> = vec![
        "   * - :func:`dpiConn_ping()`".to_string(),
        "     - Sometimes".to_string(),
    ];
    let err = function_types(&lines).unwrap_err();
    assert_eq!(err.line_no, 2);
}

#[test]
fn additional_functions_are_classified_no() {
    let mut m = function_types(&Vec::new()).unwrap();
    apply_additional_funcs(&mut m);
    assert_eq!(m.get("dpiSodaDb_freeCollectionNames"), Some(&RoundTrips::No));
}

#[test]
fn end_to_end_scenario() {
    let doc = sample_doc();
    let a = pass_a_config(&doc);
    let b = pass_b_config(&doc);
    // The generator would emit dpiConn_ping only in pass A and
    // dpiConn_close only in pass B.
    assert!(!contains(&a.blocklist_functions, "dpiConn_ping"));
    assert!(contains(&a.blocklist_functions, "dpiConn_close"));
    assert!(contains(&b.allowlist_functions, "dpiConn_close"));
    assert!(!contains(&b.allowlist_functions, "dpiConn_ping"));

    let mut dc = DocComment::new(doc.data_types);
    let color = dc.doc.find_desc("Color").unwrap().to_string();
    assert!(color.contains("Value | Description"));
    assert!(color.contains("`Red` | red"));
    assert!(color.contains("`Green` | green"));
    assert_eq!(dc.doc.find_desc("Red"), Some("See [`Color`]"));

    let (pass_a_out, warns) = annotate_lines(
        &mut dc,
        &vec!["pub fn dpiConn_ping(conn: u64) -> i32;".to_string()],
    );
    assert_eq!(
        pass_a_out,
        vec![
            "".to_string(),
            "/// Pings the database.".to_string(),
            "pub fn dpiConn_ping(conn: u64) -> i32;".to_string()
        ]
    );
    assert!(warns.is_empty());
    assert!(!pass_a_out.iter().any(|l| l.contains("dpiConn_close")));

    let (pass_b_out, _) = annotate_lines(
        &mut dc,
        &vec!["pub fn dpiConn_close(conn: u64) -> i32;".to_string()],
    );
    assert!(pass_b_out.iter().any(|l| l.contains("dpiConn_close")));
    assert!(!pass_b_out.iter().any(|l| l.contains("dpiConn_ping")));
}
