//! Derives data-transfer objects from a record and a set of mapping
//! declarations: reads each declaration, validates the set against the
//! record's fields, and computes for each DTO its fields and the two
//! conversions between it and the record.

use vstd::prelude::*;

pub mod conversion;
pub mod dto_builder;
pub mod entry_validator;
pub mod laws;
pub mod mapper_entry;
pub mod my_dto;
pub mod struct_entry;
pub mod utils;

use crate::dto_builder::{
    conversion_ok, dto_definition_ok, generate_dto_stream, generate_impl, Conversion,
    DtoDefinition,
};
use crate::entry_validator::{entry_views, validate_entry_data, validation, ValidationError};
use crate::mapper_entry::{parse_entry, MapperEntry, MapperEntryV, MetaItem, ParseError};
use crate::struct_entry::{field_of_raw, RawField, RecordShape, StructEntry};

verus! {

/// Why no code was generated for a record.
#[derive(Debug, Clone, PartialEq, Eq)]
pub enum GenerationError {
    UnsupportedRecordShape,
    Syntax(ParseError),
    Validation(ValidationError),
}

/// What is generated for one record: per entry, its DTO type and the two
/// conversions.
#[derive(Debug, Clone, PartialEq, Eq)]
pub struct Generated {
    pub dtos: Vec<DtoDefinition>,
    pub into_dto: Vec<Conversion>,
    pub into_record: Vec<Conversion>,
}

/// The entries of all declarations, in order, or the first refusal.
pub open spec fn parse_all(decls: Seq<Vec<MetaItem>>) -> Result<Seq<MapperEntryV>, ParseError>
    decreases decls.len(),
{
    if decls.len() == 0 {
        Ok(Seq::empty())
    } else {
        match parse_all(decls.drop_last()) {
            Err(e) => Err(e),
            Ok(es) => match parse_entry(decls.last()@) {
                Err(e) => Err(e),
                Ok(x) => Ok(es.push(x)),
            },
        }
    }
}

/// Introspects the record; only a record with named fields is accepted.
fn process_struct_data(name: String, shape: &RecordShape) -> (r: Option<StructEntry>)
    ensures
        match shape {
            RecordShape::NamedFields(raw) => r matches Some(st) && st.name@ == name@
                && st.fields() == raw@.map_values(|f: RawField| field_of_raw(f)),
            _ => r is None,
        },
{
    StructEntry::build_struct_entry(name, shape)
}

/// Reads every declaration of a record, in order; stops at the first refusal.
pub fn get_mapper_entries(decls: &Vec<Vec<MetaItem>>) -> (r: Result<Vec<MapperEntry>, ParseError>)
    ensures
        match (r, parse_all(decls@)) {
            (Ok(v), Ok(es)) => entry_views(v) == es,
            (Err(a), Err(b)) => a == b,
            _ => false,
        },
{
    let mut entries: Vec<MapperEntry> = Vec::new();
    let mut i: usize = 0;
    assert(entry_views(entries) =~= Seq::<MapperEntryV>::empty());
    while i < decls.len()
        invariant
            i <= decls@.len(),
            parse_all(decls@.subrange(0, i as int)) == Ok::<Seq<MapperEntryV>, ParseError>(
                entry_views(entries),
            ),
        decreases decls@.len() - i,
    {
        assert(decls@.subrange(0, i + 1).drop_last() =~= decls@.subrange(0, i as int));
        match MapperEntry::build(&decls[i]) {
            Ok(e) => {
                let ghost before = entry_views(entries);
                let ghost ev = e@;
                entries.push(e);
                assert(entry_views(entries) =~= before.push(ev));
            },
            Err(e) => {
                proof {
                    lemma_parse_err_stays(decls@, i + 1, e);
                }
                return Err(e);
            },
        }
        i = i + 1;
    }
    assert(decls@.subrange(0, i as int) =~= decls@);
    Ok(entries)
}

proof fn lemma_parse_err_stays(decls: Seq<Vec<MetaItem>>, k: int, e: ParseError)
    requires
        0 <= k <= decls.len(),
        parse_all(decls.subrange(0, k)) == Err::<Seq<MapperEntryV>, ParseError>(e),
    ensures
        parse_all(decls) == Err::<Seq<MapperEntryV>, ParseError>(e),
    decreases decls.len() - k,
{
    if k < decls.len() {
        assert(decls.subrange(0, k + 1).drop_last() =~= decls.subrange(0, k));
        lemma_parse_err_stays(decls, k + 1, e);
    } else {
        assert(decls.subrange(0, k) =~= decls);
    }
}

/// The whole pass for one record: introspection, reading of every
/// declaration, validation, then one DTO type and two conversions per entry.
/// Any failure stops the pass and nothing is generated.
pub fn generate(name: String, shape: &RecordShape, decls: &Vec<Vec<MetaItem>>) -> (r: Result<
    Generated,
    GenerationError,
>)
    ensures
        match shape {
            RecordShape::NamedFields(raw) => {
                let fs = raw@.map_values(|f: RawField| field_of_raw(f));
                let names = fs.map_values(|f: crate::struct_entry::FieldV| f.name);
                match parse_all(decls@) {
                    Err(e) => r matches Err(GenerationError::Syntax(x)) && x == e,
                    Ok(es) => match validation(names, es) {
                        Err(e) => r matches Err(GenerationError::Validation(x)) && x@ == e,
                        Ok(_) => r matches Ok(g) && g.dtos@.len() == es.len()
                            && g.into_dto@.len() == es.len() && g.into_record@.len() == es.len()
                            && forall|i: int|
                            0 <= i < es.len() ==> {
                                &&& dto_definition_ok(#[trigger] g.dtos@[i], fs, es[i])
                                &&& conversion_ok(g.into_dto@[i], name@, fs, es[i], true)
                                &&& conversion_ok(g.into_record@[i], name@, fs, es[i], false)
                            },
                    },
                }
            },
            _ => r matches Err(GenerationError::UnsupportedRecordShape),
        },
{
    let st = match process_struct_data(name, shape) {
        Some(st) => st,
        None => {
            return Err(GenerationError::UnsupportedRecordShape);
        },
    };
    assert(st.field_names() =~= st.fields().map_values(|f: crate::struct_entry::FieldV| f.name));
    let entries = match get_mapper_entries(decls) {
        Ok(v) => v,
        Err(e) => {
            return Err(GenerationError::Syntax(e));
        },
    };
    match validate_entry_data(&st, &entries) {
        Ok(_) => {},
        Err(e) => {
            return Err(GenerationError::Validation(e));
        },
    }
    let dtos = generate_dto_stream(&entries, &st);
    let into_dto = generate_impl(&entries, &st, true);
    let into_record = generate_impl(&entries, &st, false);
    Ok(Generated { dtos, into_dto, into_record })
}

} // verus!
