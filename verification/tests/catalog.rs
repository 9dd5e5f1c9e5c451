use odpic_doc::doc::{DataKind, DataTypeInfo, FunctionInfo, MemberInfo, Mode, OdpicDoc, RoundTrips, UnderlyingType};

fn member(name: &str, desc: &str) -> MemberInfo {
    MemberInfo { name: name.to_string(), desc: desc.to_string(), c_type: None, mode: None }
}

fn func(name: &str, desc: &str, rt: RoundTrips) -> FunctionInfo {
    FunctionInfo {
        name: name.to_string(),
        desc: desc.to_string(),
        round_trips: rt,
        rettype: "int".to_string(),
        params: vec![member("handle", "the handle"), ],
    }
}

fn color_enum() -> DataTypeInfo {
    DataTypeInfo {
        name: "Color".to_string(),
        kind: DataKind::Enum,
        desc: "A color.".to_string(),
        underlying_type: Some(UnderlyingType::Uint8),
        members: vec![member("Red", "the color red"), member("Green", "the color\ngreen")],
        functions: vec![],
    }
}

fn conn_struct() -> DataTypeInfo {
    DataTypeInfo {
        name: "dpiConn".to_string(),
        kind: DataKind::OpaqueStruct,
        desc: "A connection.".to_string(),
        underlying_type: None,
        members: vec![],
        functions: vec![
            func("dpiConn_ping", "Pings the database.", RoundTrips::No),
            func("dpiConn_close", "Closes the connection.", RoundTrips::Maybe),
        ],
    }
}

#[test]
fn indexes_are_built_from_the_catalog() {
    let doc = OdpicDoc::read_yaml(vec![color_enum(), conn_struct()]);
    assert_eq!(doc.find_desc("Color"), Some("A color."));
    assert_eq!(doc.find_desc("Red"), Some("the color red"));
    assert_eq!(doc.find_desc("dpiConn_ping"), Some("Pings the database."));
    assert_eq!(doc.find_desc("dpiConn"), Some("A connection."));
    assert_eq!(doc.find_desc("nothing"), None);
    assert_eq!(doc.find_underlying_type("Red"), Some(UnderlyingType::Uint8));
    assert_eq!(doc.find_underlying_type("Green"), Some(UnderlyingType::Uint8));
    assert_eq!(doc.find_underlying_type("Color"), None);
    assert_eq!(doc.find_underlying_type("dpiConn_ping"), None);
}

#[test]
fn struct_fields_use_composite_keys() {
    let dt = DataTypeInfo {
        name: "dpiData".to_string(),
        kind: DataKind::Struct,
        desc: "A data buffer.".to_string(),
        underlying_type: None,
        members: vec![member("isNull", "whether the value is null")],
        functions: vec![],
    };
    let doc = OdpicDoc::read_yaml(vec![dt]);
    assert_eq!(doc.find_desc("dpiData::isNull"), Some("whether the value is null"));
    assert_eq!(doc.find_desc("isNull"), None);
}

#[test]
fn union_fields_use_composite_keys() {
    let dt = DataTypeInfo {
        name: "dpiBuf".to_string(),
        kind: DataKind::Union,
        desc: "A buffer.".to_string(),
        underlying_type: None,
        members: vec![member("asInt", "as an integer")],
        functions: vec![],
    };
    let doc = OdpicDoc::read_yaml(vec![dt]);
    assert_eq!(doc.find_desc("dpiBuf::asInt"), Some("as an integer"));
}

#[test]
fn later_entries_overwrite_earlier_ones() {
    let mut first = conn_struct();
    first.functions = vec![func("dpiConn_ping", "old description", RoundTrips::Yes)];
    let doc = OdpicDoc::read_yaml(vec![first, conn_struct()]);
    assert_eq!(doc.find_desc("dpiConn_ping"), Some("Pings the database."));
}

#[test]
fn member_direction_is_kept() {
    let mut m = member("out", "an out parameter");
    m.mode = Some(Mode::Out);
    assert_eq!(m.mode, Some(Mode::Out));
    let m2 = member("plain", "no direction");
    assert_eq!(m2.mode, None);
}

#[test]
fn rewrite_appends_value_table_and_cross_references() {
    let mut doc = OdpicDoc::read_yaml(vec![color_enum()]);
    doc.rewrite_enum_descs();
    let color = doc.find_desc("Color").unwrap().to_string();
    assert_eq!(
        color,
        "A color.\nValue | Description\n---|---\n`Red` | the color red\n`Green` | the color green\n"
    );
    assert_eq!(doc.find_desc("Red"), Some("See [`Color`]"));
    assert_eq!(doc.find_desc("Green"), Some("See [`Color`]"));
}

#[test]
fn rewrite_twice_keeps_member_descriptions() {
    let mut doc = OdpicDoc::read_yaml(vec![color_enum(), conn_struct()]);
    doc.rewrite_enum_descs();
    let red_once = doc.find_desc("Red").map(|s| s.to_string());
    let green_once = doc.find_desc("Green").map(|s| s.to_string());
    doc.rewrite_enum_descs();
    assert_eq!(doc.find_desc("Red").map(|s| s.to_string()), red_once);
    assert_eq!(doc.find_desc("Green").map(|s| s.to_string()), green_once);
}

#[test]
fn rewrite_leaves_non_enum_entries_alone() {
    let mut doc = OdpicDoc::read_yaml(vec![conn_struct()]);
    doc.rewrite_enum_descs();
    assert_eq!(doc.find_desc("dpiConn"), Some("A connection."));
    assert_eq!(doc.find_desc("dpiConn_ping"), Some("Pings the database."));
}
