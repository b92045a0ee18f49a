use vstd::prelude::*;
use vstd::string::*;

use crate::mapper_entry::clone_text;

verus! {

/// A field's declared type: its source text and, when it is written as a
/// path, the names of the path's segments (empty otherwise).
#[derive(Debug, Clone, PartialEq, Eq)]
pub struct TypeSig {
    pub text: String,
    pub path: Vec<String>,
}

/// One field of the source record.
#[derive(Debug, Clone, PartialEq, Eq)]
pub struct FieldEntry {
    pub field_name: String,
    pub field_type: TypeSig,
    pub is_optional: bool,
}

/// The source record: its name and its fields in declaration order.
#[derive(Debug, Clone, PartialEq, Eq)]
pub struct StructEntry {
    pub name: String,
    pub field_entries: Vec<FieldEntry>,
}

/// A field as the host hands it over: its name and its declared type.
#[derive(Debug, Clone, PartialEq, Eq)]
pub struct RawField {
    pub name: String,
    pub ty: TypeSig,
}

/// The shape of the type that a derivation is attached to.
#[derive(Debug, Clone, PartialEq, Eq)]
pub enum RecordShape {
    NamedFields(Vec<RawField>),
    PositionalFields,
    UnitRecord,
    TaggedUnion,
}

/// The mathematical form of a field.
pub struct FieldV {
    pub name: Seq<char>,
    pub ty: Seq<char>,
    pub optional: bool,
}

impl View for FieldEntry {
    type V = FieldV;

    open spec fn view(&self) -> FieldV {
        FieldV { name: self.field_name@, ty: self.field_type.text@, optional: self.is_optional }
    }
}

impl StructEntry {
    /// The record's fields, in declaration order.
    pub open spec fn fields(&self) -> Seq<FieldV> {
        self.field_entries@.map_values(|f: FieldEntry| f@)
    }

    /// The record's field names, in declaration order.
    pub open spec fn field_names(&self) -> Seq<Seq<char>> {
        self.field_entries@.map_values(|f: FieldEntry| f.field_name@)
    }
}

/// A type is taken as optional when the first segment of its path is named
/// `Option`; the generic arguments are not looked at.
pub open spec fn names_option(path: Seq<Seq<char>>) -> bool {
    path.len() > 0 && path[0] == "Option"@
}

pub open spec fn path_view(ty: TypeSig) -> Seq<Seq<char>> {
    ty.path@.map_values(|s: String| s@)
}

pub open spec fn field_of_raw(f: RawField) -> FieldV {
    FieldV { name: f.name@, ty: f.ty.text@, optional: names_option(path_view(f.ty)) }
}

/// Whether a field's type is the optional wrapper, by the name of the first
/// segment of its path.
pub fn is_type_option(a_type: &TypeSig) -> (r: bool)
    ensures
        r == names_option(path_view(*a_type)),
{
    if a_type.path.len() > 0 {
        let option_name = String::from_str("Option");
        a_type.path[0].eq(&option_name)
    } else {
        false
    }
}

pub fn clone_sig(t: &TypeSig) -> (r: TypeSig)
    ensures
        r.text@ == t.text@,
        path_view(r) == path_view(*t),
{
    let mut path: Vec<String> = Vec::new();
    let mut i: usize = 0;
    while i < t.path.len()
        invariant
            i <= t.path@.len(),
            path@.len() == i,
            forall|m: int| 0 <= m < i ==> path@[m]@ == t.path@[m]@,
        decreases t.path@.len() - i,
    {
        path.push(clone_text(&t.path[i]));
        i = i + 1;
    }
    let r = TypeSig { text: clone_text(&t.text), path };
    assert(path_view(r) =~= path_view(*t));
    r
}

impl StructEntry {
    /// Introspects the record that a derivation is attached to. Only a record
    /// with named fields is accepted; any other shape gives `None`.
    pub fn build_struct_entry(name: String, shape: &RecordShape) -> (r: Option<StructEntry>)
        ensures
            match shape {
                RecordShape::NamedFields(raw) => r matches Some(st) && st.name@ == name@
                    && st.fields() == raw@.map_values(|f: RawField| field_of_raw(f)),
                _ => r is None,
            },
    {
        match shape {
            RecordShape::NamedFields(raw) => {
                let mut entries: Vec<FieldEntry> = Vec::new();
                let mut i: usize = 0;
                while i < raw.len()
                    invariant
                        i <= raw@.len(),
                        entries@.len() == i,
                        forall|m: int|
                            0 <= m < i ==> entries@[m]@ == field_of_raw(#[trigger] raw@[m]),
                    decreases raw@.len() - i,
                {
                    let f = &raw[i];
                    let is_optional = is_type_option(&f.ty);
                    entries.push(
                        FieldEntry {
                            field_name: clone_text(&f.name),
                            field_type: clone_sig(&f.ty),
                            is_optional,
                        },
                    );
                    i = i + 1;
                }
                let st = StructEntry { name, field_entries: entries };
                assert(st.fields() =~= raw@.map_values(|f: RawField| field_of_raw(f)));
                Some(st)
            },
            _ => None,
        }
    }
}

impl FieldEntry {
    /// A copy of this field.
    pub fn duplicate(&self) -> (r: FieldEntry)
        ensures
            r@ == self@,
    {
        FieldEntry {
            field_name: clone_text(&self.field_name),
            field_type: clone_sig(&self.field_type),
            is_optional: self.is_optional,
        }
    }
}

} // verus!
