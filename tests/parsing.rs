use dto_mapper::mapper_entry::{AttrValue, MapValue, MapperEntry, MetaItem, NewField, ParseError};
use dto_mapper::struct_entry::{is_type_option, RawField, RecordShape, StructEntry, TypeSig};
use dto_mapper::utils::{is_white_space, isblank, remove_white_space, trim_text};

fn text(s: &str) -> AttrValue {
    AttrValue::Str(s.to_string())
}

fn item(key: &str, value: AttrValue) -> MetaItem {
    MetaItem { key: key.to_string(), value }
}

fn new_field(decl: &str, expr: &str) -> AttrValue {
    AttrValue::Tuple(vec![text(decl), text(expr)])
}

fn parse(items: Vec<MetaItem>) -> Result<MapperEntry, ParseError> {
    MapperEntry::build(&items)
}

#[test]
fn white_space_is_removed_everywhere() {
    assert_eq!(remove_white_space(&" a b\tc\n".to_string()), "abc");
    assert_eq!(remove_white_space(&"\u{a0}x\u{3000}".to_string()), "x");
    assert_eq!(remove_white_space(&String::new()), "");
}

#[test]
fn blank_texts() {
    assert!(isblank(&"   ".to_string()));
    assert!(isblank(&String::new()));
    assert!(!isblank(&" a ".to_string()));
}

#[test]
fn trimming_keeps_inner_space() {
    assert_eq!(trim_text("  a b  "), "a b");
    assert_eq!(trim_text("   "), "");
    assert_eq!(trim_text("x"), "x");
}

#[test]
fn white_space_characters() {
    assert!(is_white_space(' '));
    assert!(is_white_space('\u{2028}'));
    assert!(!is_white_space('a'));
    assert!(!is_white_space('\u{200b}'));
}

#[test]
fn map_value_splits_on_first_colon() {
    let m = MapValue::new(&("username:login".to_string(), true, vec![]));
    assert_eq!(m.from_field, "username");
    assert_eq!(m.to_field, Some("login".to_string()));
    assert!(m.required);

    let m = MapValue::new(&(" a : b:c ".to_string(), false, vec!["#[x]".to_string()]));
    assert_eq!(m.from_field, "a");
    assert_eq!(m.to_field, Some("b:c".to_string()));
    assert_eq!(m.macro_attr, vec!["#[x]"]);
    assert!(!m.required);

    let m = MapValue::new(&("email: ".to_string(), false, vec![]));
    assert_eq!(m.from_field, "email");
    assert_eq!(m.to_field, None);
}

#[test]
fn new_field_constructor() {
    let f = NewField::new("name", "String", "a + b", None);
    assert_eq!(f.field_name, "name");
    assert_eq!(f.field_type, "String");
    assert_eq!(f.expression_value, "a + b");
    assert!(f.attributes.is_empty());
    let f = NewField::new("n", "u8", "1", Some(vec!["#[a]".to_string()]));
    assert_eq!(f.attributes, vec!["#[a]"]);
}

#[test]
fn full_declaration_is_read() {
    let e = parse(vec![
        item("dto", text(" Login Dto ")),
        item(
            "map",
            AttrValue::Array(vec![
                AttrValue::Tuple(vec![text("user name : login"), AttrValue::Bool(false)]),
                AttrValue::Tuple(vec![text("password")]),
                AttrValue::Other,
            ]),
        ),
        item("ignore", AttrValue::Array(vec![text(" pass word ")])),
        item("EXACTLY", AttrValue::Bool(true)),
        item("derive", AttrValue::Tuple(vec![
            AttrValue::Ident("Debug".to_string()),
            AttrValue::Ident("Default".to_string()),
            AttrValue::Other,
        ])),
        item("new_fields", AttrValue::Array(vec![AttrValue::Tuple(vec![
            text(" full name : String "),
            text("a ( b )"),
            AttrValue::Bool(true),
            AttrValue::Array(vec![text("  #[x]  ")]),
        ])])),
        item("macro_attr", AttrValue::Array(vec![text(" #[serde(a = \"b\")] ")])),
        item("unknown", AttrValue::Bool(true)),
    ])
    .unwrap();
    assert_eq!(e.dto, "LoginDto");
    assert_eq!(e.map.len(), 1);
    assert_eq!(e.map[0].from_field, "username");
    assert_eq!(e.map[0].to_field, Some("login".to_string()));
    assert!(!e.map[0].required);
    assert_eq!(e.ignore, vec!["password"]);
    assert!(e.exactly);
    assert!(!e.no_builder);
    assert_eq!(e.derive, vec!["Default", "Builder", "Debug", ""]);
    assert_eq!(e.new_fields.len(), 1);
    assert_eq!(e.new_fields[0].field_name, "fullname");
    assert_eq!(e.new_fields[0].field_type, "String");
    assert_eq!(e.new_fields[0].expression_value, "a ( b )");
    assert_eq!(e.new_fields[0].attributes, vec!["#[x]"]);
    assert_eq!(e.macro_attr, vec!["#[serde(a = \"b\")]"]);
}

#[test]
fn builder_marker_follows_no_builder() {
    let e = parse(vec![item("dto", text("D")), item("no_builder", AttrValue::Bool(true))]).unwrap();
    assert_eq!(e.derive, vec!["Default"]);
    let e = parse(vec![item("dto", text("D"))]).unwrap();
    assert_eq!(e.derive, vec!["Default", "Builder"]);
}

#[test]
fn missing_dto_is_refused() {
    assert_eq!(parse(vec![item("exactly", AttrValue::Bool(true))]).unwrap_err(), ParseError::MissingDto);
    assert_eq!(parse(vec![]).unwrap_err(), ParseError::MissingDto);
}

#[test]
fn blank_dto_is_refused() {
    assert_eq!(parse(vec![item("dto", text("  "))]).unwrap_err(), ParseError::BlankDto);
    assert_eq!(parse(vec![item("dto", AttrValue::Bool(true))]).unwrap_err(), ParseError::BlankDto);
}

#[test]
fn blank_ignore_is_refused() {
    let r = parse(vec![item("dto", text("D")), item("ignore", AttrValue::Array(vec![text("a"), text(" ")]))]);
    assert_eq!(r.unwrap_err(), ParseError::BlankIgnore);
}

#[test]
fn blank_map_field_is_refused() {
    let r = parse(vec![
        item("dto", text("D")),
        item("map", AttrValue::Array(vec![AttrValue::Tuple(vec![text(" :to"), AttrValue::Bool(true)])])),
    ]);
    assert_eq!(r.unwrap_err(), ParseError::BlankMapField);
}

#[test]
fn empty_new_fields_is_refused() {
    let r = parse(vec![item("dto", text("D")), item("new_fields", AttrValue::Array(vec![]))]);
    assert_eq!(r.unwrap_err(), ParseError::EmptyNewFields);
}

#[test]
fn blank_macro_attr_is_refused_when_given_again() {
    let r = parse(vec![
        item("dto", text("D")),
        item("macro_attr", AttrValue::Array(vec![text("  ")])),
        item("macro_attr", AttrValue::Array(vec![text("#[a]")])),
    ]);
    assert_eq!(r.unwrap_err(), ParseError::BlankMacroAttr);
}

#[test]
fn new_field_without_one_colon_is_refused() {
    let r = parse(vec![item("dto", text("D")), item("new_fields", AttrValue::Array(vec![new_field("badname", "x")]))]);
    assert_eq!(r.unwrap_err(), ParseError::NewFieldColon);
    let r = parse(vec![item("dto", text("D")), item("new_fields", AttrValue::Array(vec![new_field("a:b:c", "x")]))]);
    assert_eq!(r.unwrap_err(), ParseError::NewFieldColon);
}

#[test]
fn new_field_without_name_or_type_is_refused() {
    let r = parse(vec![item("dto", text("D")), item("new_fields", AttrValue::Array(vec![new_field(" :String", "x")]))]);
    assert_eq!(r.unwrap_err(), ParseError::NewFieldName);
    let r = parse(vec![item("dto", text("D")), item("new_fields", AttrValue::Array(vec![new_field("name: ", "x")]))]);
    assert_eq!(r.unwrap_err(), ParseError::NewFieldType);
}

#[test]
fn first_error_wins() {
    let r = parse(vec![
        item("ignore", AttrValue::Array(vec![text(" ")])),
        item("new_fields", AttrValue::Array(vec![new_field("bad", "x")])),
    ]);
    assert_eq!(r.unwrap_err(), ParseError::BlankIgnore);
}

fn sig(text: &str, path: &[&str]) -> TypeSig {
    TypeSig { text: text.to_string(), path: path.iter().map(|s| s.to_string()).collect() }
}

#[test]
fn optional_types_by_name() {
    assert!(is_type_option(&sig("Option<u8>", &["Option"])));
    assert!(!is_type_option(&sig("std::option::Option<u8>", &["std", "option", "Option"])));
    assert!(!is_type_option(&sig("u8", &["u8"])));
    assert!(!is_type_option(&sig("&str", &[])));
}

#[test]
fn record_introspection() {
    let shape = RecordShape::NamedFields(vec![
        RawField { name: "a".to_string(), ty: sig("u8", &["u8"]) },
        RawField { name: "b".to_string(), ty: sig("Option<String>", &["Option"]) },
    ]);
    let st = StructEntry::build_struct_entry("R".to_string(), &shape).unwrap();
    assert_eq!(st.name, "R");
    assert_eq!(st.field_entries.len(), 2);
    assert_eq!(st.field_entries[0].field_name, "a");
    assert!(!st.field_entries[0].is_optional);
    assert_eq!(st.field_entries[1].field_type.text, "Option<String>");
    assert!(st.field_entries[1].is_optional);
}

#[test]
fn other_record_shapes_are_refused() {
    assert!(StructEntry::build_struct_entry("R".to_string(), &RecordShape::PositionalFields).is_none());
    assert!(StructEntry::build_struct_entry("R".to_string(), &RecordShape::UnitRecord).is_none());
    assert!(StructEntry::build_struct_entry("R".to_string(), &RecordShape::TaggedUnion).is_none());
}
