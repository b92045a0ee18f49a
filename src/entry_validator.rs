use vstd::prelude::*;
use vstd::string::*;

use crate::mapper_entry::{clone_text, from_fields, strs, MapValueV, MapperEntry, MapperEntryV};
use crate::struct_entry::StructEntry;

verus! {

/// Which kind of repetition was found among an entry's field rules.
#[derive(Debug, Clone, Copy, PartialEq, Eq)]
pub enum DupKind {
    /// A destination name that is also a source name of the same entry.
    DestinationIsSource,
    /// A source name given twice.
    Source,
    /// A destination name given twice.
    Destination,
}

/// A violation found in one entry: the DTO's name and the names at fault.
#[derive(Debug, Clone, PartialEq, Eq)]
pub enum FieldError {
    DupField(DupKind, String, Vec<String>),
    MissingField(String, Vec<String>),
}

/// Why a record's set of entries was refused. Each variant holds every
/// violation of its kind.
#[derive(Debug, Clone, PartialEq, Eq)]
pub enum ValidationError {
    MapperEntryError(Vec<FieldError>),
    StructEntryError(Vec<FieldError>),
    DtoNameDuplicated(Vec<String>),
    MissingPropertyError(String),
}

pub enum FieldErrorV {
    DupField(DupKind, Seq<char>, Seq<Seq<char>>),
    MissingField(Seq<char>, Seq<Seq<char>>),
}

pub enum ValidationErrorV {
    MapperEntryError(Seq<FieldErrorV>),
    StructEntryError(Seq<FieldErrorV>),
    DtoNameDuplicated(Seq<Seq<char>>),
    MissingPropertyError(Seq<char>),
}

impl View for FieldError {
    type V = FieldErrorV;

    open spec fn view(&self) -> FieldErrorV {
        match self {
            FieldError::DupField(k, d, n) => FieldErrorV::DupField(*k, d@, strs(*n)),
            FieldError::MissingField(d, n) => FieldErrorV::MissingField(d@, strs(*n)),
        }
    }
}

pub open spec fn field_error_views(v: Vec<FieldError>) -> Seq<FieldErrorV> {
    v@.map_values(|e: FieldError| e@)
}

impl View for ValidationError {
    type V = ValidationErrorV;

    open spec fn view(&self) -> ValidationErrorV {
        match self {
            ValidationError::MapperEntryError(v) => ValidationErrorV::MapperEntryError(
                field_error_views(*v),
            ),
            ValidationError::StructEntryError(v) => ValidationErrorV::StructEntryError(
                field_error_views(*v),
            ),
            ValidationError::DtoNameDuplicated(v) => ValidationErrorV::DtoNameDuplicated(strs(*v)),
            ValidationError::MissingPropertyError(m) => ValidationErrorV::MissingPropertyError(m@),
        }
    }
}

/// The names that occur more than once in `s`, each once, in the order in
/// which they are first repeated.
pub open spec fn dups(s: Seq<Seq<char>>) -> Seq<Seq<char>>
    decreases s.len(),
{
    if s.len() == 0 {
        Seq::empty()
    } else {
        let r = dups(s.drop_last());
        if s.drop_last().contains(s.last()) && !r.contains(s.last()) {
            r.push(s.last())
        } else {
            r
        }
    }
}

/// The names of `tos` that are also in `froms`, each once.
pub open spec fn collisions(tos: Seq<Seq<char>>, froms: Seq<Seq<char>>) -> Seq<Seq<char>>
    decreases tos.len(),
{
    if tos.len() == 0 {
        Seq::empty()
    } else {
        let r = collisions(tos.drop_last(), froms);
        if froms.contains(tos.last()) && !r.contains(tos.last()) {
            r.push(tos.last())
        } else {
            r
        }
    }
}

/// The destination names that the rules give, in order.
pub open spec fn to_fields(m: Seq<MapValueV>) -> Seq<Seq<char>>
    decreases m.len(),
{
    if m.len() == 0 {
        Seq::empty()
    } else {
        let r = to_fields(m.drop_last());
        match m.last().to {
            Some(t) => r.push(t),
            None => r,
        }
    }
}

/// The names of `froms` that are not in `names`, in order.
pub open spec fn missing_names(froms: Seq<Seq<char>>, names: Seq<Seq<char>>) -> Seq<Seq<char>>
    decreases froms.len(),
{
    if froms.len() == 0 {
        Seq::empty()
    } else {
        let r = missing_names(froms.drop_last(), names);
        if names.contains(froms.last()) {
            r
        } else {
            r.push(froms.last())
        }
    }
}

pub open spec fn one_if(c: bool, e: FieldErrorV) -> Seq<FieldErrorV> {
    if c {
        seq![e]
    } else {
        Seq::empty()
    }
}

/// The repetitions found in one entry's rules.
pub open spec fn entry_dup_errors(e: MapperEntryV) -> Seq<FieldErrorV> {
    let f = from_fields(e.map);
    let t = to_fields(e.map);
    one_if(
        collisions(t, f).len() > 0,
        FieldErrorV::DupField(DupKind::DestinationIsSource, e.dto, collisions(t, f)),
    ) + one_if(dups(f).len() > 0, FieldErrorV::DupField(DupKind::Source, e.dto, dups(f)))
        + one_if(dups(t).len() > 0, FieldErrorV::DupField(DupKind::Destination, e.dto, dups(t)))
}

/// The repetitions found in all entries, entry by entry.
pub open spec fn dup_errors(es: Seq<MapperEntryV>) -> Seq<FieldErrorV>
    decreases es.len(),
{
    if es.len() == 0 {
        Seq::empty()
    } else {
        dup_errors(es.drop_last()) + entry_dup_errors(es.last())
    }
}

/// For each entry whose rules name source fields that the record lacks, the
/// list of those names.
pub open spec fn missing_errors(es: Seq<MapperEntryV>, names: Seq<Seq<char>>) -> Seq<FieldErrorV>
    decreases es.len(),
{
    if es.len() == 0 {
        Seq::empty()
    } else {
        let m = missing_names(from_fields(es.last().map), names);
        missing_errors(es.drop_last(), names) + one_if(
            m.len() > 0,
            FieldErrorV::MissingField(es.last().dto, m),
        )
    }
}

pub open spec fn dto_names(es: Seq<MapperEntryV>) -> Seq<Seq<char>> {
    es.map_values(|e: MapperEntryV| e.dto)
}

/// An entry selects its fields by `map`, by `ignore`, or with `exactly`.
pub open spec fn has_selector(e: MapperEntryV) -> bool {
    e.map.len() > 0 || e.ignore.len() > 0 || e.exactly
}

pub open spec fn selector_message() -> Seq<char> {
    "mapper requires a `map` or an `ignore` property"@
}

/// The outcome of validating the entries of a record whose field names are
/// `names`: the four checks in order, the first that finds anything deciding.
pub open spec fn validation(names: Seq<Seq<char>>, es: Seq<MapperEntryV>) -> Result<
    (),
    ValidationErrorV,
> {
    if dup_errors(es).len() > 0 {
        Err(ValidationErrorV::MapperEntryError(dup_errors(es)))
    } else if missing_errors(es, names).len() > 0 {
        Err(ValidationErrorV::StructEntryError(missing_errors(es, names)))
    } else if dups(dto_names(es)).len() > 0 {
        Err(ValidationErrorV::DtoNameDuplicated(dups(dto_names(es))))
    } else if exists|i: int| 0 <= i < es.len() && !has_selector(#[trigger] es[i]) {
        Err(ValidationErrorV::MissingPropertyError(selector_message()))
    } else {
        Ok(())
    }
}

pub open spec fn entry_views(v: Vec<MapperEntry>) -> Seq<MapperEntryV> {
    v@.map_values(|e: MapperEntry| e@)
}

/// Whether `v` holds a text equal to `x`.
pub fn contains_text(v: &Vec<String>, x: &String) -> (r: bool)
    ensures
        r == strs(*v).contains(x@),
{
    let mut i: usize = 0;
    while i < v.len()
        invariant
            i <= v@.len(),
            forall|m: int| 0 <= m < i ==> strs(*v)[m] != x@,
        decreases v@.len() - i,
    {
        if v[i].eq(x) {
            assert(strs(*v)[i as int] == x@);
            return true;
        }
        i = i + 1;
    }
    false
}

fn push_text(v: &mut Vec<String>, x: &String)
    ensures
        strs(*final(v)) == strs(*old(v)).push(x@),
{
    let ghost before = strs(*v);
    v.push(clone_text(x));
    assert(strs(*v) =~= before.push(x@));
}

/// The names that occur more than once, each once.
pub fn duplicated_names(names: &Vec<String>) -> (r: Vec<String>)
    ensures
        strs(r) == dups(strs(*names)),
{
    let mut r: Vec<String> = Vec::new();
    let mut seen: Vec<String> = Vec::new();
    let mut i: usize = 0;
    assert(strs(r) =~= Seq::<Seq<char>>::empty());
    assert(strs(seen) =~= strs(*names).subrange(0, 0));
    while i < names.len()
        invariant
            i <= names@.len(),
            strs(seen) == strs(*names).subrange(0, i as int),
            strs(r) == dups(strs(*names).subrange(0, i as int)),
        decreases names@.len() - i,
    {
        assert(strs(*names).subrange(0, i + 1).drop_last() =~= strs(*names).subrange(0, i as int));
        let x = &names[i];
        if contains_text(&seen, x) && !contains_text(&r, x) {
            push_text(&mut r, x);
        }
        push_text(&mut seen, x);
        assert(strs(seen) =~= strs(*names).subrange(0, i + 1));
        i = i + 1;
    }
    assert(strs(*names).subrange(0, i as int) =~= strs(*names));
    r
}

/// The names of `tos` that are also in `froms`, each once.
fn colliding_names(tos: &Vec<String>, froms: &Vec<String>) -> (r: Vec<String>)
    ensures
        strs(r) == collisions(strs(*tos), strs(*froms)),
{
    let mut r: Vec<String> = Vec::new();
    let mut i: usize = 0;
    assert(strs(r) =~= Seq::<Seq<char>>::empty());
    while i < tos.len()
        invariant
            i <= tos@.len(),
            strs(r) == collisions(strs(*tos).subrange(0, i as int), strs(*froms)),
        decreases tos@.len() - i,
    {
        assert(strs(*tos).subrange(0, i + 1).drop_last() =~= strs(*tos).subrange(0, i as int));
        let x = &tos[i];
        if contains_text(froms, x) && !contains_text(&r, x) {
            push_text(&mut r, x);
        }
        i = i + 1;
    }
    assert(strs(*tos).subrange(0, i as int) =~= strs(*tos));
    r
}

/// The source and the destination names of an entry's rules.
fn rule_names(e: &MapperEntry) -> (r: (Vec<String>, Vec<String>))
    ensures
        strs(r.0) == from_fields(e@.map),
        strs(r.1) == to_fields(e@.map),
{
    let mut froms: Vec<String> = Vec::new();
    let mut tos: Vec<String> = Vec::new();
    let mut i: usize = 0;
    assert(strs(froms) =~= from_fields(e@.map.subrange(0, 0)));
    assert(strs(tos) =~= Seq::<Seq<char>>::empty());
    while i < e.map.len()
        invariant
            i <= e@.map.len(),
            e@.map.len() == e.map@.len(),
            strs(froms) == from_fields(e@.map.subrange(0, i as int)),
            strs(tos) == to_fields(e@.map.subrange(0, i as int)),
        decreases e.map@.len() - i,
    {
        assert(e@.map.subrange(0, i + 1).drop_last() =~= e@.map.subrange(0, i as int));
        assert(e@.map[i as int] == e.map@[i as int]@);
        push_text(&mut froms, &e.map[i].from_field);
        assert(strs(froms) =~= from_fields(e@.map.subrange(0, i + 1)));
        if let Some(t) = &e.map[i].to_field {
            push_text(&mut tos, t);
        }
        i = i + 1;
    }
    assert(e@.map.subrange(0, i as int) =~= e@.map);
    (froms, tos)
}

fn push_error(errors: &mut Vec<FieldError>, e: FieldError)
    ensures
        field_error_views(*final(errors)) == field_error_views(*old(errors)).push(e@),
{
    let ghost before = field_error_views(*errors);
    let ghost ev = e@;
    errors.push(e);
    assert(field_error_views(*errors) =~= before.push(ev));
}

/// Within each entry: no source name twice, no destination name twice, and
/// no destination name that is also a source name.
fn validate_mapper_entries(mp_entries: &Vec<MapperEntry>) -> (r: Result<(), ValidationError>)
    ensures
        match r {
            Ok(_) => dup_errors(entry_views(*mp_entries)).len() == 0,
            Err(e) => dup_errors(entry_views(*mp_entries)).len() > 0 && e@
                == ValidationErrorV::MapperEntryError(dup_errors(entry_views(*mp_entries))),
        },
{
    let ghost es = entry_views(*mp_entries);
    let mut errors: Vec<FieldError> = Vec::new();
    let mut i: usize = 0;
    assert(field_error_views(errors) =~= dup_errors(es.subrange(0, 0)));
    while i < mp_entries.len()
        invariant
            i <= mp_entries@.len(),
            es == entry_views(*mp_entries),
            field_error_views(errors) == dup_errors(es.subrange(0, i as int)),
        decreases mp_entries@.len() - i,
    {
        assert(es.subrange(0, i + 1).drop_last() =~= es.subrange(0, i as int));
        let mp_entry = &mp_entries[i];
        let ghost ev = mp_entry@;
        assert(es.subrange(0, i + 1).last() == ev);
        let ghost start = field_error_views(errors);
        let (froms, tos) = rule_names(mp_entry);
        let dup_fields = colliding_names(&tos, &froms);
        if dup_fields.len() > 0 {
            push_error(
                &mut errors,
                FieldError::DupField(DupKind::DestinationIsSource, clone_text(&mp_entry.dto), dup_fields),
            );
        }
        let dup_from = duplicated_names(&froms);
        if dup_from.len() > 0 {
            push_error(&mut errors, FieldError::DupField(DupKind::Source, clone_text(&mp_entry.dto), dup_from));
        }
        let dup_to = duplicated_names(&tos);
        if dup_to.len() > 0 {
            push_error(
                &mut errors,
                FieldError::DupField(DupKind::Destination, clone_text(&mp_entry.dto), dup_to),
            );
        }
        assert(field_error_views(errors) =~= start + entry_dup_errors(ev));
        i = i + 1;
    }
    assert(es.subrange(0, i as int) =~= es);
    if errors.len() > 0 {
        return Err(ValidationError::MapperEntryError(errors));
    }
    Ok(())
}

/// Every source name of every rule is a field of the record.
fn validate_struct_entry(st_entry: &StructEntry, mp_entries: &Vec<MapperEntry>) -> (r: Result<
    (),
    ValidationError,
>)
    ensures
        match r {
            Ok(_) => missing_errors(entry_views(*mp_entries), st_entry.field_names()).len() == 0,
            Err(e) => missing_errors(entry_views(*mp_entries), st_entry.field_names()).len() > 0
                && e@ == ValidationErrorV::StructEntryError(
                missing_errors(entry_views(*mp_entries), st_entry.field_names()),
            ),
        },
{
    let ghost es = entry_views(*mp_entries);
    let ghost names = st_entry.field_names();
    let mut field_set: Vec<String> = Vec::new();
    let mut j: usize = 0;
    while j < st_entry.field_entries.len()
        invariant
            j <= st_entry.field_entries@.len(),
            field_set@.len() == j,
            forall|m: int| 0 <= m < j ==> field_set@[m]@ == st_entry.field_entries@[m].field_name@,
        decreases st_entry.field_entries@.len() - j,
    {
        field_set.push(clone_text(&st_entry.field_entries[j].field_name));
        j = j + 1;
    }
    assert(strs(field_set) =~= names);
    let mut errors: Vec<FieldError> = Vec::new();
    let mut i: usize = 0;
    assert(field_error_views(errors) =~= missing_errors(es.subrange(0, 0), names));
    while i < mp_entries.len()
        invariant
            i <= mp_entries@.len(),
            es == entry_views(*mp_entries),
            strs(field_set) == names,
            field_error_views(errors) == missing_errors(es.subrange(0, i as int), names),
        decreases mp_entries@.len() - i,
    {
        assert(es.subrange(0, i + 1).drop_last() =~= es.subrange(0, i as int));
        let mp_entry = &mp_entries[i];
        let ghost ev = mp_entry@;
        assert(es.subrange(0, i + 1).last() == ev);
        let ghost start = field_error_views(errors);
        let (froms, _tos) = rule_names(mp_entry);
        let mut missing: Vec<String> = Vec::new();
        let mut k: usize = 0;
        assert(strs(missing) =~= missing_names(strs(froms).subrange(0, 0), names));
        while k < froms.len()
            invariant
                k <= froms@.len(),
                strs(field_set) == names,
                strs(missing) == missing_names(strs(froms).subrange(0, k as int), names),
            decreases froms@.len() - k,
        {
            assert(strs(froms).subrange(0, k + 1).drop_last() =~= strs(froms).subrange(0, k as int));
            if !contains_text(&field_set, &froms[k]) {
                push_text(&mut missing, &froms[k]);
            }
            k = k + 1;
        }
        assert(strs(froms).subrange(0, k as int) =~= strs(froms));
        if missing.len() > 0 {
            push_error(&mut errors, FieldError::MissingField(clone_text(&mp_entry.dto), missing));
        }
        assert(field_error_views(errors) =~= start + one_if(
            missing_names(from_fields(ev.map), names).len() > 0,
            FieldErrorV::MissingField(ev.dto, missing_names(from_fields(ev.map), names)),
        ));
        i = i + 1;
    }
    assert(es.subrange(0, i as int) =~= es);
    if errors.len() > 0 {
        return Err(ValidationError::StructEntryError(errors));
    }
    Ok(())
}

/// No two entries of a record share a DTO name.
fn validate_dto_name(mp_entries: &Vec<MapperEntry>) -> (r: Result<(), ValidationError>)
    ensures
        match r {
            Ok(_) => dups(dto_names(entry_views(*mp_entries))).len() == 0,
            Err(e) => dups(dto_names(entry_views(*mp_entries))).len() > 0 && e@
                == ValidationErrorV::DtoNameDuplicated(dups(dto_names(entry_views(*mp_entries)))),
        },
{
    let mut names: Vec<String> = Vec::new();
    let mut i: usize = 0;
    while i < mp_entries.len()
        invariant
            i <= mp_entries@.len(),
            names@.len() == i,
            forall|m: int| 0 <= m < i ==> names@[m]@ == mp_entries@[m].dto@,
        decreases mp_entries@.len() - i,
    {
        names.push(clone_text(&mp_entries[i].dto));
        i = i + 1;
    }
    assert(strs(names) =~= dto_names(entry_views(*mp_entries)));
    let dto_dup = duplicated_names(&names);
    if dto_dup.len() > 0 {
        return Err(ValidationError::DtoNameDuplicated(dto_dup));
    }
    Ok(())
}

/// Every entry selects its fields by `map`, by `ignore`, or with `exactly`.
fn validate_map_ignore(mp_entries: &Vec<MapperEntry>) -> (r: Result<(), ValidationError>)
    ensures
        match r {
            Ok(_) => forall|i: int|
                0 <= i < mp_entries@.len() ==> has_selector(#[trigger] entry_views(*mp_entries)[i]),
            Err(e) => (exists|i: int|
                0 <= i < mp_entries@.len() && !has_selector(
                    #[trigger] entry_views(*mp_entries)[i],
                )) && e@ == ValidationErrorV::MissingPropertyError(selector_message()),
        },
{
    let mut i: usize = 0;
    while i < mp_entries.len()
        invariant
            i <= mp_entries@.len(),
            forall|m: int| 0 <= m < i ==> has_selector(#[trigger] entry_views(*mp_entries)[m]),
        decreases mp_entries@.len() - i,
    {
        let e = &mp_entries[i];
        assert(entry_views(*mp_entries)[i as int] == e@);
        if e.map.len() == 0 && e.ignore.len() == 0 && !e.exactly {
            proof {
                reveal_strlit("mapper requires a `map` or an `ignore` property");
            }
            return Err(
                ValidationError::MissingPropertyError(
                    String::from_str("mapper requires a `map` or an `ignore` property"),
                ),
            );
        }
        i = i + 1;
    }
    Ok(())
}

/// Checks a record's entries against each other and against its fields.
pub fn validate_entry_data(st_entry: &StructEntry, mp_entries: &Vec<MapperEntry>) -> (r: Result<
    (),
    ValidationError,
>)
    ensures
        match (r, validation(st_entry.field_names(), entry_views(*mp_entries))) {
            (Ok(_), Ok(_)) => true,
            (Err(a), Err(b)) => a@ == b,
            _ => false,
        },
{
    validate_mapper_entries(mp_entries)?;
    validate_struct_entry(st_entry, mp_entries)?;
    validate_dto_name(mp_entries)?;
    validate_map_ignore(mp_entries)?;
    Ok(())
}

} // verus!
