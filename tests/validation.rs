use dto_mapper::entry_validator::{
    duplicated_names, validate_entry_data, DupKind, FieldError, ValidationError,
};
use dto_mapper::mapper_entry::{AttrValue, MapperEntry, MetaItem};
use dto_mapper::struct_entry::{RawField, RecordShape, StructEntry, TypeSig};
use dto_mapper::{generate, GenerationError};

fn text(s: &str) -> AttrValue {
    AttrValue::Str(s.to_string())
}

fn item(key: &str, value: AttrValue) -> MetaItem {
    MetaItem { key: key.to_string(), value }
}

fn rules(names: &[&str]) -> MetaItem {
    item(
        "map",
        AttrValue::Array(names.iter().map(|n| AttrValue::Tuple(vec![text(n), AttrValue::Bool(true)])).collect()),
    )
}

fn shape() -> RecordShape {
    RecordShape::NamedFields(
        ["a", "b", "c"]
            .iter()
            .map(|n| RawField {
                name: n.to_string(),
                ty: TypeSig { text: "u8".to_string(), path: vec!["u8".to_string()] },
            })
            .collect(),
    )
}

fn record() -> StructEntry {
    StructEntry::build_struct_entry("R".to_string(), &shape()).unwrap()
}

fn entry(items: Vec<MetaItem>) -> MapperEntry {
    MapperEntry::build(&items).unwrap()
}

fn names(v: &[&str]) -> Vec<String> {
    v.iter().map(|s| s.to_string()).collect()
}

#[test]
fn valid_entries_pass() {
    let es = vec![
        entry(vec![item("dto", text("A")), rules(&["a:x", "b"])]),
        entry(vec![item("dto", text("B")), item("ignore", AttrValue::Array(vec![text("c")]))]),
        entry(vec![item("dto", text("C")), item("exactly", AttrValue::Bool(true))]),
    ];
    assert!(validate_entry_data(&record(), &es).is_ok());
}

#[test]
fn duplicates_are_listed_once_each() {
    assert_eq!(duplicated_names(&names(&["a", "b", "a", "c", "b", "a"])), names(&["a", "b"]));
    assert!(duplicated_names(&names(&["a", "b"])).is_empty());
    assert!(duplicated_names(&vec![]).is_empty());
}

#[test]
fn repeated_fields_in_an_entry_are_refused() {
    let es = vec![entry(vec![item("dto", text("A")), rules(&["a:x", "a:y", "b:x", "c:b"])])];
    let err = validate_entry_data(&record(), &es).unwrap_err();
    assert_eq!(
        err,
        ValidationError::MapperEntryError(vec![
            FieldError::DupField(DupKind::DestinationIsSource, "A".to_string(), names(&["b"])),
            FieldError::DupField(DupKind::Source, "A".to_string(), names(&["a"])),
            FieldError::DupField(DupKind::Destination, "A".to_string(), names(&["x"])),
        ])
    );
}

#[test]
fn missing_fields_are_refused_per_entry() {
    let es = vec![
        entry(vec![item("dto", text("A")), rules(&["a", "zz", "yy"])]),
        entry(vec![item("dto", text("B")), rules(&["b"])]),
        entry(vec![item("dto", text("C")), rules(&["q"])]),
    ];
    let err = validate_entry_data(&record(), &es).unwrap_err();
    assert_eq!(
        err,
        ValidationError::StructEntryError(vec![
            FieldError::MissingField("A".to_string(), names(&["zz", "yy"])),
            FieldError::MissingField("C".to_string(), names(&["q"])),
        ])
    );
}

#[test]
fn duplicate_dto_names_are_refused() {
    let es = vec![
        entry(vec![item("dto", text("A")), rules(&["a"])]),
        entry(vec![item("dto", text("B")), rules(&["a"])]),
        entry(vec![item("dto", text("A")), rules(&["b"])]),
    ];
    let err = validate_entry_data(&record(), &es).unwrap_err();
    assert_eq!(err, ValidationError::DtoNameDuplicated(names(&["A"])));
}

#[test]
fn entry_without_selector_is_refused() {
    let es = vec![entry(vec![item("dto", text("A")), item("exactly", AttrValue::Bool(false))])];
    let err = validate_entry_data(&record(), &es).unwrap_err();
    assert_eq!(
        err,
        ValidationError::MissingPropertyError("mapper requires a `map` or an `ignore` property".to_string())
    );
}

#[test]
fn checks_run_in_order() {
    // a repeated source name is reported before a missing one
    let es = vec![
        entry(vec![item("dto", text("A")), rules(&["a", "a", "zz"])]),
        entry(vec![item("dto", text("A"))]),
    ];
    let err = validate_entry_data(&record(), &es).unwrap_err();
    assert!(matches!(err, ValidationError::MapperEntryError(_)));
}

#[test]
fn generation_stops_at_the_first_failure() {
    let decls = vec![vec![item("dto", text("A")), rules(&["zz"])]];
    assert!(matches!(
        generate("R".to_string(), &shape(), &decls),
        Err(GenerationError::Validation(ValidationError::StructEntryError(_)))
    ));
    let decls = vec![vec![item("map", AttrValue::Array(vec![]))]];
    assert!(matches!(
        generate("R".to_string(), &shape(), &decls),
        Err(GenerationError::Syntax(_))
    ));
    assert!(matches!(
        generate("R".to_string(), &RecordShape::TaggedUnion, &decls),
        Err(GenerationError::UnsupportedRecordShape)
    ));
    let ok = generate("R".to_string(), &shape(), &vec![]).unwrap();
    assert!(ok.dtos.is_empty() && ok.into_dto.is_empty() && ok.into_record.is_empty());
}
