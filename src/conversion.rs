use vstd::prelude::*;
use vstd::string::*;

use crate::dto_builder::{
    assignment_views, AssignmentV, Conversion, SourceExpr, SourceExprV,
};
use crate::mapper_entry::clone_text;

verus! {

/// The value of one field, as far as conversions can tell it apart: a
/// required value, an optional value that is present or absent, or the
/// result of an opaque expression, named by its text.
#[derive(Debug, Clone, PartialEq, Eq)]
pub enum FieldValue {
    Plain(String),
    Present(String),
    Absent,
    Computed(String),
}

/// A field of a record value or of a DTO value.
#[derive(Debug, Clone, PartialEq, Eq)]
pub struct NamedValue {
    pub name: String,
    pub value: FieldValue,
}

pub enum FieldValueV {
    Plain(Seq<char>),
    Present(Seq<char>),
    Absent,
    Computed(Seq<char>),
}

impl View for FieldValue {
    type V = FieldValueV;

    open spec fn view(&self) -> FieldValueV {
        match self {
            FieldValue::Plain(s) => FieldValueV::Plain(s@),
            FieldValue::Present(s) => FieldValueV::Present(s@),
            FieldValue::Absent => FieldValueV::Absent,
            FieldValue::Computed(s) => FieldValueV::Computed(s@),
        }
    }
}

impl View for NamedValue {
    type V = (Seq<char>, FieldValueV);

    open spec fn view(&self) -> (Seq<char>, FieldValueV) {
        (self.name@, self.value@)
    }
}

pub open spec fn named_views(v: Vec<NamedValue>) -> Seq<(Seq<char>, FieldValueV)> {
    v@.map_values(|x: NamedValue| x@)
}

/// Index of the first field called `n`, or the length when there is none.
pub open spec fn index_of(s: Seq<(Seq<char>, FieldValueV)>, n: Seq<char>) -> int
    decreases s.len(),
{
    if s.len() == 0 || s[0].0 == n {
        0
    } else {
        1 + index_of(s.drop_first(), n)
    }
}

/// The value of the field called `n`; absent when there is none.
pub open spec fn lookup(s: Seq<(Seq<char>, FieldValueV)>, n: Seq<char>) -> FieldValueV {
    if index_of(s, n) < s.len() {
        s[index_of(s, n)].1
    } else {
        FieldValueV::Absent
    }
}

/// A required value made present; any other value is left as it is.
pub open spec fn wrap(v: FieldValueV) -> FieldValueV {
    match v {
        FieldValueV::Plain(x) => FieldValueV::Present(x),
        _ => v,
    }
}

/// The content of a present value; `fallback` for an absent one.
pub open spec fn unwrap_or(v: FieldValueV, fallback: FieldValueV) -> FieldValueV {
    match v {
        FieldValueV::Present(x) => FieldValueV::Plain(x),
        FieldValueV::Absent => fallback,
        _ => v,
    }
}

/// The value that a source expression gives over `src`; `current` is the
/// destination's value before the assignment.
pub open spec fn eval(e: SourceExprV, src: Seq<(Seq<char>, FieldValueV)>, current: FieldValueV) -> FieldValueV {
    match e {
        SourceExprV::Field(n) => lookup(src, n),
        SourceExprV::WrapSome(n) => wrap(lookup(src, n)),
        SourceExprV::UnwrapOrDefault(n) => unwrap_or(lookup(src, n), current),
        SourceExprV::Expression(t) => FieldValueV::Computed(t),
    }
}

/// The value that a conversion builds: `init` with the assignments applied in
/// order; an assignment to a field that `init` lacks does nothing.
pub open spec fn apply(
    plan: Seq<AssignmentV>,
    src: Seq<(Seq<char>, FieldValueV)>,
    init: Seq<(Seq<char>, FieldValueV)>,
) -> Seq<(Seq<char>, FieldValueV)>
    decreases plan.len(),
{
    if plan.len() == 0 {
        init
    } else {
        let prev = apply(plan.drop_last(), src, init);
        let a = plan.last();
        let i = index_of(prev, a.dest);
        if i < prev.len() {
            prev.update(i, (a.dest, eval(a.source, src, prev[i].1)))
        } else {
            prev
        }
    }
}

fn clone_value(v: &FieldValue) -> (r: FieldValue)
    ensures
        r@ == v@,
{
    match v {
        FieldValue::Plain(s) => FieldValue::Plain(clone_text(s)),
        FieldValue::Present(s) => FieldValue::Present(clone_text(s)),
        FieldValue::Absent => FieldValue::Absent,
        FieldValue::Computed(s) => FieldValue::Computed(clone_text(s)),
    }
}

/// Index of the first field called `n`, or the length when there is none.
fn find_field(s: &Vec<NamedValue>, n: &String) -> (r: usize)
    ensures
        r == index_of(named_views(*s), n@),
        r <= s@.len(),
{
    let ghost sv = named_views(*s);
    let mut i: usize = 0;
    assert(sv.subrange(0, sv.len() as int) =~= sv);
    while i < s.len() && !s[i].name.eq(n)
        invariant
            sv == named_views(*s),
            i <= s@.len(),
            index_of(sv, n@) == i + index_of(sv.subrange(i as int, sv.len() as int), n@),
        decreases s@.len() - i,
    {
        assert(sv.subrange(i as int, sv.len() as int).drop_first() =~= sv.subrange(
            i + 1,
            sv.len() as int,
        ));
        i = i + 1;
    }
    i
}

/// The value of the field called `n`; absent when there is none.
fn lookup_value(s: &Vec<NamedValue>, n: &String) -> (r: FieldValue)
    ensures
        r@ == lookup(named_views(*s), n@),
{
    let i = find_field(s, n);
    if i < s.len() {
        clone_value(&s[i].value)
    } else {
        FieldValue::Absent
    }
}

fn eval_source(e: &SourceExpr, src: &Vec<NamedValue>, current: &FieldValue) -> (r: FieldValue)
    ensures
        r@ == eval(e@, named_views(*src), current@),
{
    match e {
        SourceExpr::Field(n) => lookup_value(src, n),
        SourceExpr::WrapSome(n) => match lookup_value(src, n) {
            FieldValue::Plain(x) => FieldValue::Present(x),
            v => v,
        },
        SourceExpr::UnwrapOrDefault(n) => match lookup_value(src, n) {
            FieldValue::Present(x) => FieldValue::Plain(x),
            FieldValue::Absent => clone_value(current),
            v => v,
        },
        SourceExpr::Expression(t) => FieldValue::Computed(clone_text(t)),
    }
}

/// Runs a conversion over the value `src`: starts from `init`, which names
/// the result's fields and holds their default values, and applies the
/// assignments in order.
pub fn apply_conversion(c: &Conversion, src: &Vec<NamedValue>, init: &Vec<NamedValue>) -> (r: Vec<
    NamedValue,
>)
    ensures
        named_views(r) == apply(assignment_views(c.assignments), named_views(*src), named_views(*init)),
{
    let ghost plan = assignment_views(c.assignments);
    let mut r: Vec<NamedValue> = Vec::new();
    let mut j: usize = 0;
    while j < init.len()
        invariant
            j <= init@.len(),
            r@.len() == j,
            forall|m: int| 0 <= m < j ==> r@[m]@ == init@[m]@,
        decreases init@.len() - j,
    {
        r.push(NamedValue { name: clone_text(&init[j].name), value: clone_value(&init[j].value) });
        j = j + 1;
    }
    assert(named_views(r) =~= apply(plan.subrange(0, 0), named_views(*src), named_views(*init)));
    let mut k: usize = 0;
    while k < c.assignments.len()
        invariant
            k <= c.assignments@.len(),
            plan == assignment_views(c.assignments),
            named_views(r) == apply(plan.subrange(0, k as int), named_views(*src), named_views(*init)),
        decreases c.assignments@.len() - k,
    {
        assert(plan.subrange(0, k + 1).drop_last() =~= plan.subrange(0, k as int));
        let a = &c.assignments[k];
        assert(plan.subrange(0, k + 1).last() == a@);
        let i = find_field(&r, &a.dest);
        if i < r.len() {
            let v = eval_source(&a.source, src, &r[i].value);
            let ghost before = named_views(r);
            r.set(i, NamedValue { name: clone_text(&a.dest), value: v });
            assert(named_views(r) =~= before.update(i as int, (a.dest@, v@)));
        }
        k = k + 1;
    }
    assert(plan.subrange(0, k as int) =~= plan);
    r
}

} // verus!
