use vstd::prelude::*;
use vstd::string::*;

use crate::entry_validator::contains_text;
use crate::mapper_entry::{
    clone_text, clone_texts, from_fields, map_views, strs, MapValue, MapValueV, MapperEntry,
    MapperEntryV, NewField, NewFieldV,
};
use crate::struct_entry::{FieldEntry, FieldV, StructEntry};

verus! {

/// One field of a generated DTO. When `wrapped` is set the field's type is
/// the optional wrapper around `field_type`.
#[derive(Debug, Clone, PartialEq, Eq)]
pub struct DtoField {
    pub name: String,
    pub field_type: String,
    pub wrapped: bool,
    pub attributes: Vec<String>,
}

/// A generated DTO type, ready to be rendered.
#[derive(Debug, Clone, PartialEq, Eq)]
pub struct DtoDefinition {
    pub name: String,
    pub fields: Vec<DtoField>,
    pub macro_attr: Vec<String>,
    pub derive: Vec<String>,
    pub builder: bool,
}

/// Where a field of a conversion's result takes its value from.
#[derive(Debug, Clone, PartialEq, Eq)]
pub enum SourceExpr {
    /// The named field of the value converted.
    Field(String),
    /// The named field, wrapped as present.
    WrapSome(String),
    /// The named optional field, its content or, when absent, the default.
    UnwrapOrDefault(String),
    /// An opaque expression, reproduced as written.
    Expression(String),
}

/// One `destination = source` line of a conversion.
#[derive(Debug, Clone, PartialEq, Eq)]
pub struct Assignment {
    pub dest: String,
    pub source: SourceExpr,
}

/// A conversion routine between the record and one DTO. With `fill_default`
/// the fields that no assignment sets take the record type's default.
#[derive(Debug, Clone, PartialEq, Eq)]
pub struct Conversion {
    pub from_type: String,
    pub to_type: String,
    pub assignments: Vec<Assignment>,
    pub fill_default: bool,
}

pub struct DtoFieldV {
    pub name: Seq<char>,
    pub ty: Seq<char>,
    pub wrapped: bool,
    pub attrs: Seq<Seq<char>>,
}

pub enum SourceExprV {
    Field(Seq<char>),
    WrapSome(Seq<char>),
    UnwrapOrDefault(Seq<char>),
    Expression(Seq<char>),
}

pub struct AssignmentV {
    pub dest: Seq<char>,
    pub source: SourceExprV,
}

impl View for DtoField {
    type V = DtoFieldV;

    open spec fn view(&self) -> DtoFieldV {
        DtoFieldV {
            name: self.name@,
            ty: self.field_type@,
            wrapped: self.wrapped,
            attrs: strs(self.attributes),
        }
    }
}

impl View for SourceExpr {
    type V = SourceExprV;

    open spec fn view(&self) -> SourceExprV {
        match self {
            SourceExpr::Field(s) => SourceExprV::Field(s@),
            SourceExpr::WrapSome(s) => SourceExprV::WrapSome(s@),
            SourceExpr::UnwrapOrDefault(s) => SourceExprV::UnwrapOrDefault(s@),
            SourceExpr::Expression(s) => SourceExprV::Expression(s@),
        }
    }
}

impl View for Assignment {
    type V = AssignmentV;

    open spec fn view(&self) -> AssignmentV {
        AssignmentV { dest: self.dest@, source: self.source@ }
    }
}

pub open spec fn dto_field_views(v: Vec<DtoField>) -> Seq<DtoFieldV> {
    v@.map_values(|f: DtoField| f@)
}

pub open spec fn assignment_views(v: Vec<Assignment>) -> Seq<AssignmentV> {
    v@.map_values(|a: Assignment| a@)
}

pub open spec fn field_views(v: Vec<FieldEntry>) -> Seq<FieldV> {
    v@.map_values(|f: FieldEntry| f@)
}

/// The entry takes every field as it is.
pub open spec fn takes_all(e: MapperEntryV) -> bool {
    e.exactly && e.map.len() == 0 && e.ignore.len() == 0
}

/// Whether the entry selects the source field called `name`: all of them in
/// `exactly` mode, those not ignored when `ignore` is given, else those that
/// a rule names.
pub open spec fn keep(e: MapperEntryV, name: Seq<char>) -> bool {
    if takes_all(e) {
        true
    } else if e.ignore.len() > 0 {
        !e.ignore.contains(name)
    } else {
        from_fields(e.map).contains(name)
    }
}

/// The source fields that the entry selects, in declaration order.
pub open spec fn selected(fs: Seq<FieldV>, e: MapperEntryV) -> Seq<FieldV>
    decreases fs.len(),
{
    if fs.len() == 0 {
        Seq::empty()
    } else if keep(e, fs.last().name) {
        selected(fs.drop_last(), e).push(fs.last())
    } else {
        selected(fs.drop_last(), e)
    }
}

/// The rule that applies to the source field `name`: the last one naming it.
pub open spec fn rule_for(m: Seq<MapValueV>, name: Seq<char>) -> Option<MapValueV>
    decreases m.len(),
{
    if m.len() == 0 {
        None
    } else if m.last().from == name {
        Some(m.last())
    } else {
        rule_for(m.drop_last(), name)
    }
}

/// A required source field becomes optional in the DTO when its rule says
/// `required = false`; an optional one is never wrapped twice.
pub open spec fn coerced(f: FieldV, rule: Option<MapValueV>) -> bool {
    match rule {
        Some(m) => !m.required && !f.optional,
        None => false,
    }
}

/// The name that a source field takes in the DTO.
pub open spec fn dto_name_of(f: FieldV, rule: Option<MapValueV>) -> Seq<char> {
    match rule {
        Some(m) => match m.to {
            Some(t) => t,
            None => f.name,
        },
        None => f.name,
    }
}

pub open spec fn dto_field_of(e: MapperEntryV, f: FieldV) -> DtoFieldV {
    let rule = rule_for(e.map, f.name);
    DtoFieldV {
        name: dto_name_of(f, rule),
        ty: f.ty,
        wrapped: coerced(f, rule),
        attrs: match rule {
            Some(m) => m.attrs,
            None => Seq::empty(),
        },
    }
}

pub open spec fn new_dto_field(nf: NewFieldV) -> DtoFieldV {
    DtoFieldV { name: nf.name, ty: nf.ty, wrapped: false, attrs: nf.attrs }
}

/// The fields of the DTO: the selected source fields, then the new fields.
pub open spec fn dto_fields(fs: Seq<FieldV>, e: MapperEntryV) -> Seq<DtoFieldV> {
    selected(fs, e).map_values(|f: FieldV| dto_field_of(e, f)) + e.new_fields.map_values(
        |nf: NewFieldV| new_dto_field(nf),
    )
}

/// The record-to-DTO line of a selected field.
pub open spec fn to_dto_assign(e: MapperEntryV, f: FieldV) -> AssignmentV {
    let rule = rule_for(e.map, f.name);
    AssignmentV {
        dest: dto_name_of(f, rule),
        source: if coerced(f, rule) {
            SourceExprV::WrapSome(f.name)
        } else {
            SourceExprV::Field(f.name)
        },
    }
}

/// The DTO-to-record line of a selected field.
pub open spec fn to_record_assign(e: MapperEntryV, f: FieldV) -> AssignmentV {
    let rule = rule_for(e.map, f.name);
    AssignmentV {
        dest: f.name,
        source: if coerced(f, rule) {
            SourceExprV::UnwrapOrDefault(dto_name_of(f, rule))
        } else {
            SourceExprV::Field(dto_name_of(f, rule))
        },
    }
}

pub open spec fn init_new_field(nf: NewFieldV) -> AssignmentV {
    AssignmentV { dest: nf.name, source: SourceExprV::Expression(nf.expr) }
}

/// The record-to-DTO conversion: one line per selected field, then one per
/// new field with its expression.
pub open spec fn to_dto_plan(fs: Seq<FieldV>, e: MapperEntryV) -> Seq<AssignmentV> {
    selected(fs, e).map_values(|f: FieldV| to_dto_assign(e, f)) + e.new_fields.map_values(
        |nf: NewFieldV| init_new_field(nf),
    )
}

/// The DTO-to-record conversion: one line per selected field.
pub open spec fn to_record_plan(fs: Seq<FieldV>, e: MapperEntryV) -> Seq<AssignmentV> {
    selected(fs, e).map_values(|f: FieldV| to_record_assign(e, f))
}

/// Index of the rule that applies to the source field `name`.
fn get_map_of_mapvalue(map: &Vec<MapValue>, name: &String) -> (r: Option<usize>)
    ensures
        match r {
            Some(k) => k < map@.len() && rule_for(map_views(*map), name@) == Some(map@[k as int]@),
            None => rule_for(map_views(*map), name@) is None,
        },
{
    let mut k: usize = map.len();
    assert(map_views(*map).subrange(0, k as int) =~= map_views(*map));
    while k > 0
        invariant
            k <= map@.len(),
            rule_for(map_views(*map), name@) == rule_for(map_views(*map).subrange(0, k as int), name@),
        decreases k,
    {
        assert(map_views(*map).subrange(0, k as int).drop_last() =~= map_views(*map).subrange(0, k - 1));
        assert(map_views(*map).subrange(0, k as int).last() == map@[k - 1]@);
        if map[k - 1].from_field.eq(name) {
            return Some(k - 1);
        }
        k = k - 1;
    }
    None
}

/// Whether some rule of the entry names the source field `name`.
fn names_field(map: &Vec<MapValue>, name: &String) -> (r: bool)
    ensures
        r == from_fields(map_views(*map)).contains(name@),
{
    let mut i: usize = 0;
    while i < map.len()
        invariant
            i <= map@.len(),
            forall|m: int| 0 <= m < i ==> from_fields(map_views(*map))[m] != name@,
        decreases map@.len() - i,
    {
        if map[i].from_field.eq(name) {
            assert(from_fields(map_views(*map))[i as int] == name@);
            return true;
        }
        i = i + 1;
    }
    false
}

/// Every field of the record, in order.
fn get_all_fields(st_entry: &StructEntry) -> (r: Vec<FieldEntry>)
    ensures
        field_views(r) == st_entry.fields(),
{
    let mut r: Vec<FieldEntry> = Vec::new();
    let mut i: usize = 0;
    while i < st_entry.field_entries.len()
        invariant
            i <= st_entry.field_entries@.len(),
            r@.len() == i,
            forall|m: int| 0 <= m < i ==> r@[m]@ == st_entry.field_entries@[m]@,
        decreases st_entry.field_entries@.len() - i,
    {
        r.push(st_entry.field_entries[i].duplicate());
        i = i + 1;
    }
    assert(field_views(r) =~= st_entry.fields());
    r
}

/// The fields of the record that the entry selects, in order.
fn get_selected_fields(st_entry: &StructEntry, mp_entry: &MapperEntry) -> (r: Vec<FieldEntry>)
    ensures
        field_views(r) == selected(st_entry.fields(), mp_entry@),
{
    let ghost fs = st_entry.fields();
    let all = mp_entry.exactly && mp_entry.map.len() == 0 && mp_entry.ignore.len() == 0;
    let is_ignore = mp_entry.ignore.len() > 0;
    let mut r: Vec<FieldEntry> = Vec::new();
    let mut i: usize = 0;
    assert(field_views(r) =~= selected(fs.subrange(0, 0), mp_entry@));
    while i < st_entry.field_entries.len()
        invariant
            i <= st_entry.field_entries@.len(),
            fs == st_entry.fields(),
            all == takes_all(mp_entry@),
            is_ignore == (mp_entry@.ignore.len() > 0),
            field_views(r) == selected(fs.subrange(0, i as int), mp_entry@),
        decreases st_entry.field_entries@.len() - i,
    {
        assert(fs.subrange(0, i + 1).drop_last() =~= fs.subrange(0, i as int));
        let field = &st_entry.field_entries[i];
        assert(fs.subrange(0, i + 1).last() == field@);
        let keep_it = if all {
            true
        } else if is_ignore {
            !contains_text(&mp_entry.ignore, &field.field_name)
        } else {
            names_field(&mp_entry.map, &field.field_name)
        };
        if keep_it {
            let ghost before = field_views(r);
            r.push(field.duplicate());
            assert(field_views(r) =~= before.push(field@));
        }
        i = i + 1;
    }
    assert(fs.subrange(0, i as int) =~= fs);
    r
}

/// The selected fields; in `exactly` mode these are all of them.
fn selection(st_entry: &StructEntry, mp_entry: &MapperEntry) -> (r: Vec<FieldEntry>)
    ensures
        field_views(r) == selected(st_entry.fields(), mp_entry@),
{
    if mp_entry.exactly && mp_entry.map.len() == 0 && mp_entry.ignore.len() == 0 {
        let r = get_all_fields(st_entry);
        proof {
            lemma_takes_all_selects_all(st_entry.fields(), mp_entry@);
        }
        r
    } else {
        get_selected_fields(st_entry, mp_entry)
    }
}

/// In `exactly` mode the selection is the whole field list.
pub proof fn lemma_takes_all_selects_all(fs: Seq<FieldV>, e: MapperEntryV)
    requires
        takes_all(e),
    ensures
        selected(fs, e) == fs,
    decreases fs.len(),
{
    if fs.len() > 0 {
        lemma_takes_all_selects_all(fs.drop_last(), e);
        assert(fs.drop_last().push(fs.last()) =~= fs);
    }
}

/// The DTO fields that stand for the selected source fields.
fn build_source_fields(fields: &Vec<FieldEntry>, mp_entry: &MapperEntry) -> (r: Vec<DtoField>)
    ensures
        dto_field_views(r) == field_views(*fields).map_values(|f: FieldV| dto_field_of(mp_entry@, f)),
{
    let mut r: Vec<DtoField> = Vec::new();
    let mut i: usize = 0;
    while i < fields.len()
        invariant
            i <= fields@.len(),
            r@.len() == i,
            forall|m: int| 0 <= m < i ==> r@[m]@ == dto_field_of(mp_entry@, #[trigger] fields@[m]@),
        decreases fields@.len() - i,
    {
        let field = &fields[i];
        let rule = get_map_of_mapvalue(&mp_entry.map, &field.field_name);
        let f = match rule {
            Some(k) => {
                let m = &mp_entry.map[k];
                let name = match &m.to_field {
                    Some(t) => clone_text(t),
                    None => clone_text(&field.field_name),
                };
                DtoField {
                    name,
                    field_type: clone_text(&field.field_type.text),
                    wrapped: !m.required && !field.is_optional,
                    attributes: clone_texts(&m.macro_attr),
                }
            },
            None => {
                let attributes: Vec<String> = Vec::new();
                assert(strs(attributes) =~= Seq::<Seq<char>>::empty());
                DtoField {
                    name: clone_text(&field.field_name),
                    field_type: clone_text(&field.field_type.text),
                    wrapped: false,
                    attributes,
                }
            },
        };
        r.push(f);
        i = i + 1;
    }
    assert(dto_field_views(r) =~= field_views(*fields).map_values(
        |f: FieldV| dto_field_of(mp_entry@, f),
    ));
    r
}

/// The DTO fields that the entry declares as new.
fn build_new_fields_token(mp_entry: &MapperEntry) -> (r: Vec<DtoField>)
    ensures
        dto_field_views(r) == mp_entry@.new_fields.map_values(|nf: NewFieldV| new_dto_field(nf)),
{
    let mut r: Vec<DtoField> = Vec::new();
    let mut i: usize = 0;
    while i < mp_entry.new_fields.len()
        invariant
            i <= mp_entry.new_fields@.len(),
            r@.len() == i,
            forall|m: int|
                0 <= m < i ==> r@[m]@ == new_dto_field(#[trigger] mp_entry.new_fields@[m]@),
        decreases mp_entry.new_fields@.len() - i,
    {
        let nf: &NewField = &mp_entry.new_fields[i];
        r.push(
            DtoField {
                name: clone_text(&nf.field_name),
                field_type: clone_text(&nf.field_type),
                wrapped: false,
                attributes: clone_texts(&nf.attributes),
            },
        );
        i = i + 1;
    }
    assert(dto_field_views(r) =~= mp_entry@.new_fields.map_values(
        |nf: NewFieldV| new_dto_field(nf),
    ));
    r
}

fn append_fields(a: &mut Vec<DtoField>, b: Vec<DtoField>)
    ensures
        dto_field_views(*final(a)) == dto_field_views(*old(a)) + dto_field_views(b),
{
    let ghost start = dto_field_views(*a);
    let mut b = b;
    let ghost bv = dto_field_views(b);
    a.append(&mut b);
    assert(dto_field_views(*a) =~= start + bv);
}

fn append_assignments(a: &mut Vec<Assignment>, b: Vec<Assignment>)
    ensures
        assignment_views(*final(a)) == assignment_views(*old(a)) + assignment_views(b),
{
    let ghost start = assignment_views(*a);
    let mut b = b;
    let ghost bv = assignment_views(b);
    a.append(&mut b);
    assert(assignment_views(*a) =~= start + bv);
}

/// The fields of the DTO that an entry describes.
fn build_fields(st_entry: &StructEntry, mp_entry: &MapperEntry) -> (r: Vec<DtoField>)
    ensures
        dto_field_views(r) == dto_fields(st_entry.fields(), mp_entry@),
{
    let selected_fields = selection(st_entry, mp_entry);
    let mut r = build_source_fields(&selected_fields, mp_entry);
    append_fields(&mut r, build_new_fields_token(mp_entry));
    r
}

/// The lines of a conversion for the selected fields: record to DTO when
/// `is_dto`, else DTO to record.
fn build_into_fields(fields: &Vec<FieldEntry>, mp_entry: &MapperEntry, is_dto: bool) -> (r: Vec<
    Assignment,
>)
    ensures
        assignment_views(r) == field_views(*fields).map_values(
            |f: FieldV|
                if is_dto {
                    to_dto_assign(mp_entry@, f)
                } else {
                    to_record_assign(mp_entry@, f)
                },
        ),
{
    let mut r: Vec<Assignment> = Vec::new();
    let mut i: usize = 0;
    while i < fields.len()
        invariant
            i <= fields@.len(),
            r@.len() == i,
            forall|m: int|
                0 <= m < i ==> r@[m]@ == if is_dto {
                    to_dto_assign(mp_entry@, #[trigger] fields@[m]@)
                } else {
                    to_record_assign(mp_entry@, fields@[m]@)
                },
        decreases fields@.len() - i,
    {
        let field = &fields[i];
        let rule = get_map_of_mapvalue(&mp_entry.map, &field.field_name);
        let (dto_name, wrap) = match rule {
            Some(k) => {
                let m = &mp_entry.map[k];
                let n = match &m.to_field {
                    Some(t) => clone_text(t),
                    None => clone_text(&field.field_name),
                };
                (n, !m.required && !field.is_optional)
            },
            None => (clone_text(&field.field_name), false),
        };
        let a = if is_dto {
            Assignment {
                dest: dto_name,
                source: if wrap {
                    SourceExpr::WrapSome(clone_text(&field.field_name))
                } else {
                    SourceExpr::Field(clone_text(&field.field_name))
                },
            }
        } else {
            Assignment {
                dest: clone_text(&field.field_name),
                source: if wrap {
                    SourceExpr::UnwrapOrDefault(dto_name)
                } else {
                    SourceExpr::Field(dto_name)
                },
            }
        };
        r.push(a);
        i = i + 1;
    }
    assert(assignment_views(r) =~= field_views(*fields).map_values(
        |f: FieldV|
            if is_dto {
                to_dto_assign(mp_entry@, f)
            } else {
                to_record_assign(mp_entry@, f)
            },
    ));
    r
}

/// The record-to-DTO lines of the new fields: each takes its expression.
fn build_init_new_fields_token(mp_entry: &MapperEntry) -> (r: Vec<Assignment>)
    ensures
        assignment_views(r) == mp_entry@.new_fields.map_values(|nf: NewFieldV| init_new_field(nf)),
{
    let mut r: Vec<Assignment> = Vec::new();
    let mut i: usize = 0;
    while i < mp_entry.new_fields.len()
        invariant
            i <= mp_entry.new_fields@.len(),
            r@.len() == i,
            forall|m: int|
                0 <= m < i ==> r@[m]@ == init_new_field(#[trigger] mp_entry.new_fields@[m]@),
        decreases mp_entry.new_fields@.len() - i,
    {
        let nf = &mp_entry.new_fields[i];
        r.push(
            Assignment {
                dest: clone_text(&nf.field_name),
                source: SourceExpr::Expression(clone_text(&nf.expression_value)),
            },
        );
        i = i + 1;
    }
    assert(assignment_views(r) =~= mp_entry@.new_fields.map_values(
        |nf: NewFieldV| init_new_field(nf),
    ));
    r
}

/// The DTO type that an entry describes.
pub open spec fn dto_definition_ok(d: DtoDefinition, fs: Seq<FieldV>, e: MapperEntryV) -> bool {
    &&& d.name@ == e.dto
    &&& dto_field_views(d.fields) == dto_fields(fs, e)
    &&& strs(d.macro_attr) == e.macro_attr
    &&& strs(d.derive) == e.derive
    &&& d.builder == !e.no_builder
}

/// The conversion that an entry describes, record to DTO when `is_dto`,
/// else DTO to record.
pub open spec fn conversion_ok(
    c: Conversion,
    record: Seq<char>,
    fs: Seq<FieldV>,
    e: MapperEntryV,
    is_dto: bool,
) -> bool {
    if is_dto {
        &&& c.from_type@ == record
        &&& c.to_type@ == e.dto
        &&& assignment_views(c.assignments) == to_dto_plan(fs, e)
        &&& !c.fill_default
    } else {
        &&& c.from_type@ == e.dto
        &&& c.to_type@ == record
        &&& assignment_views(c.assignments) == to_record_plan(fs, e)
        &&& c.fill_default
    }
}

/// One DTO type per entry, in order.
pub fn generate_dto_stream(mapper_entries: &Vec<MapperEntry>, struct_entry: &StructEntry) -> (r: Vec<
    DtoDefinition,
>)
    ensures
        r@.len() == mapper_entries@.len(),
        forall|i: int|
            0 <= i < r@.len() ==> dto_definition_ok(
                #[trigger] r@[i],
                struct_entry.fields(),
                mapper_entries@[i]@,
            ),
{
    let mut r: Vec<DtoDefinition> = Vec::new();
    let mut i: usize = 0;
    while i < mapper_entries.len()
        invariant
            i <= mapper_entries@.len(),
            r@.len() == i,
            forall|m: int|
                0 <= m < i ==> dto_definition_ok(
                    #[trigger] r@[m],
                    struct_entry.fields(),
                    mapper_entries@[m]@,
                ),
        decreases mapper_entries@.len() - i,
    {
        let e = &mapper_entries[i];
        r.push(
            DtoDefinition {
                name: clone_text(&e.dto),
                fields: build_fields(struct_entry, e),
                macro_attr: clone_texts(&e.macro_attr),
                derive: clone_texts(&e.derive),
                builder: !e.no_builder,
            },
        );
        i = i + 1;
    }
    r
}

/// One conversion per entry, in order: record to DTO when `is_dto`, else
/// DTO to record.
pub fn generate_impl(mapper_entries: &Vec<MapperEntry>, struct_entry: &StructEntry, is_dto: bool) -> (r:
    Vec<Conversion>)
    ensures
        r@.len() == mapper_entries@.len(),
        forall|i: int|
            0 <= i < r@.len() ==> conversion_ok(
                #[trigger] r@[i],
                struct_entry.name@,
                struct_entry.fields(),
                mapper_entries@[i]@,
                is_dto,
            ),
{
    let mut r: Vec<Conversion> = Vec::new();
    let mut i: usize = 0;
    while i < mapper_entries.len()
        invariant
            i <= mapper_entries@.len(),
            r@.len() == i,
            forall|m: int|
                0 <= m < i ==> conversion_ok(
                    #[trigger] r@[m],
                    struct_entry.name@,
                    struct_entry.fields(),
                    mapper_entries@[m]@,
                    is_dto,
                ),
        decreases mapper_entries@.len() - i,
    {
        let e = &mapper_entries[i];
        let selected_fields = selection(struct_entry, e);
        let mut init_fields = build_into_fields(&selected_fields, e, is_dto);
        let ghost sel = selected(struct_entry.fields(), e@);
        let c = if is_dto {
            assert(assignment_views(init_fields) =~= sel.map_values(
                |f: FieldV| to_dto_assign(e@, f),
            ));
            append_assignments(&mut init_fields, build_init_new_fields_token(e));
            Conversion {
                from_type: clone_text(&struct_entry.name),
                to_type: clone_text(&e.dto),
                assignments: init_fields,
                fill_default: false,
            }
        } else {
            assert(assignment_views(init_fields) =~= sel.map_values(
                |f: FieldV| to_record_assign(e@, f),
            ));
            Conversion {
                from_type: clone_text(&e.dto),
                to_type: clone_text(&struct_entry.name),
                assignments: init_fields,
                fill_default: true,
            }
        };
        r.push(c);
        i = i + 1;
    }
    r
}

} // verus!
