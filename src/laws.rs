use vstd::prelude::*;

use crate::conversion::{apply, eval, index_of, lookup, unwrap_or, wrap, FieldValueV};
use crate::dto_builder::{
    coerced, dto_field_of, dto_fields, dto_name_of, keep, rule_for,
    selected, to_dto_assign, to_dto_plan, to_record_assign, to_record_plan, AssignmentV,
    DtoFieldV, SourceExprV,
};
use crate::entry_validator::{
    dups, has_selector, missing_errors, missing_names, validation,
};
use crate::mapper_entry::{
    count_colons, from_fields, key_is, lemma_new_fields_err_stays, lemma_read_err_stays,
    new_field_of, new_fields_of, parse_entry, read_items, step, AttrValue, DraftV, MapValueV,
    MapperEntryV, MetaItem, NewFieldV, ParseError,
};
use crate::utils::strip_ws;
use crate::struct_entry::FieldV;

verus! {

/// No name occurs twice.
pub open spec fn distinct(s: Seq<Seq<char>>) -> bool {
    forall|i: int, j: int| 0 <= i < s.len() && 0 <= j < s.len() && i != j ==> s[i] != s[j]
}

pub open spec fn names_of(fs: Seq<FieldV>) -> Seq<Seq<char>> {
    fs.map_values(|f: FieldV| f.name)
}

pub open spec fn value_names(s: Seq<(Seq<char>, FieldValueV)>) -> Seq<Seq<char>> {
    s.map_values(|p: (Seq<char>, FieldValueV)| p.0)
}

pub open spec fn dests(plan: Seq<AssignmentV>) -> Seq<Seq<char>> {
    plan.map_values(|a: AssignmentV| a.dest)
}

/// The names of the DTO's fields.
pub open spec fn dto_names(fs: Seq<FieldV>, e: MapperEntryV) -> Seq<Seq<char>> {
    dto_fields(fs, e).map_values(|d: DtoFieldV| d.name)
}

/// A value of the record: one entry per field, in order, each required field
/// holding a plain value.
pub open spec fn record_value(fs: Seq<FieldV>, r: Seq<(Seq<char>, FieldValueV)>) -> bool {
    &&& r.len() == fs.len()
    &&& forall|i: int| 0 <= i < fs.len() ==> #[trigger] r[i].0 == fs[i].name
    &&& forall|i: int| 0 <= i < fs.len() && !fs[i].optional ==> r[i].1 is Plain
}

/// A DTO value before any assignment: each field absent.
pub open spec fn blank_dto(fs: Seq<FieldV>, e: MapperEntryV) -> Seq<(Seq<char>, FieldValueV)> {
    dto_names(fs, e).map_values(|n: Seq<char>| (n, FieldValueV::Absent))
}

/// The DTO value that the record-to-DTO conversion builds from `r`.
pub open spec fn into_dto(fs: Seq<FieldV>, e: MapperEntryV, r: Seq<(Seq<char>, FieldValueV)>) -> Seq<
    (Seq<char>, FieldValueV),
> {
    apply(to_dto_plan(fs, e), r, blank_dto(fs, e))
}

/// The record value that the DTO-to-record conversion builds from `d`, the
/// record's default value filling what the DTO does not carry.
pub open spec fn into_record(
    fs: Seq<FieldV>,
    e: MapperEntryV,
    d: Seq<(Seq<char>, FieldValueV)>,
    defaults: Seq<(Seq<char>, FieldValueV)>,
) -> Seq<(Seq<char>, FieldValueV)> {
    apply(to_record_plan(fs, e), d, defaults)
}

/// The last assignment to `n`.
pub open spec fn assigned(plan: Seq<AssignmentV>, n: Seq<char>) -> Option<AssignmentV>
    decreases plan.len(),
{
    if plan.len() == 0 {
        None
    } else if plan.last().dest == n {
        Some(plan.last())
    } else {
        assigned(plan.drop_last(), n)
    }
}

proof fn lemma_index_of_bound(s: Seq<(Seq<char>, FieldValueV)>, n: Seq<char>)
    ensures
        0 <= index_of(s, n) <= s.len(),
        index_of(s, n) < s.len() ==> s[index_of(s, n)].0 == n,
        forall|j: int| 0 <= j < index_of(s, n) && j < s.len() ==> s[j].0 != n,
    decreases s.len(),
{
    if s.len() > 0 && s[0].0 != n {
        lemma_index_of_bound(s.drop_first(), n);
        assert forall|j: int| 0 <= j < index_of(s, n) && j < s.len() implies s[j].0 != n by {
            if j > 0 {
                assert(s[j] == s.drop_first()[j - 1]);
            }
        }
    }
}

/// Among distinct names, a name is found where it stands.
proof fn lemma_index_of_distinct(s: Seq<(Seq<char>, FieldValueV)>, i: int)
    requires
        distinct(value_names(s)),
        0 <= i < s.len(),
    ensures
        index_of(s, s[i].0) == i,
{
    lemma_index_of_bound(s, s[i].0);
    let k = index_of(s, s[i].0);
    if k < i {
        assert(value_names(s)[k] == value_names(s)[i]);
    }
}

/// Applying assignments keeps the field names.
proof fn lemma_apply_names(
    plan: Seq<AssignmentV>,
    src: Seq<(Seq<char>, FieldValueV)>,
    init: Seq<(Seq<char>, FieldValueV)>,
)
    ensures
        value_names(apply(plan, src, init)) == value_names(init),
    decreases plan.len(),
{
    if plan.len() > 0 {
        lemma_apply_names(plan.drop_last(), src, init);
        let prev = apply(plan.drop_last(), src, init);
        lemma_index_of_bound(prev, plan.last().dest);
        assert(value_names(apply(plan, src, init)) =~= value_names(prev));
    }
}

/// With distinct field names and distinct destinations, each field ends up
/// with the value of the one assignment to it, or keeps its initial value.
proof fn lemma_apply_at(
    plan: Seq<AssignmentV>,
    src: Seq<(Seq<char>, FieldValueV)>,
    init: Seq<(Seq<char>, FieldValueV)>,
    i: int,
)
    requires
        distinct(value_names(init)),
        distinct(dests(plan)),
        0 <= i < init.len(),
    ensures
        apply(plan, src, init).len() == init.len(),
        apply(plan, src, init)[i].1 == match assigned(plan, init[i].0) {
            Some(a) => eval(a.source, src, init[i].1),
            None => init[i].1,
        },
    decreases plan.len(),
{
    lemma_apply_names(plan, src, init);
    assert(value_names(apply(plan, src, init)).len() == value_names(init).len());
    if plan.len() > 0 {
        let pl = plan.drop_last();
        assert(distinct(dests(pl))) by {
            assert forall|x: int, y: int|
                0 <= x < dests(pl).len() && 0 <= y < dests(pl).len() && x != y implies dests(pl)[x]
                != dests(pl)[y] by {
                assert(dests(pl)[x] == dests(plan)[x]);
                assert(dests(pl)[y] == dests(plan)[y]);
            }
        }
        lemma_apply_at(pl, src, init, i);
        lemma_apply_names(pl, src, init);
        let prev = apply(pl, src, init);
        let a = plan.last();
        lemma_index_of_bound(prev, a.dest);
        let k = index_of(prev, a.dest);
        assert(value_names(prev)[i] == init[i].0);
        if k < prev.len() && k == i {
            assert(a.dest == init[i].0);
            if let Some(b) = assigned(pl, init[i].0) {
                lemma_assigned_in(pl, init[i].0);
                let j = choose|j: int| 0 <= j < pl.len() && pl[j] == b;
                assert(dests(plan)[j] == dests(plan)[plan.len() - 1]);
            }
        } else if k < prev.len() {
            assert(value_names(prev)[k] == a.dest);
            assert(value_names(init)[k] != value_names(init)[i]);
        } else {
            assert(value_names(prev)[i] == init[i].0);
        }
    }
}

/// What `assigned` gives is one of the plan's lines, with that destination.
proof fn lemma_assigned_in(plan: Seq<AssignmentV>, n: Seq<char>)
    ensures
        assigned(plan, n) matches Some(a) ==> a.dest == n && exists|j: int|
            0 <= j < plan.len() && plan[j] == a,
    decreases plan.len(),
{
    if plan.len() > 0 && plan.last().dest != n {
        lemma_assigned_in(plan.drop_last(), n);
        if let Some(a) = assigned(plan, n) {
            let j = choose|j: int| 0 <= j < plan.drop_last().len() && plan.drop_last()[j] == a;
            assert(plan[j] == a);
        }
    } else if plan.len() > 0 {
        assert(plan[plan.len() - 1] == plan.last());
    }
}

/// With distinct destinations, the line to `plan[k].dest` is `plan[k]`.
proof fn lemma_assigned_at(plan: Seq<AssignmentV>, k: int)
    requires
        distinct(dests(plan)),
        0 <= k < plan.len(),
    ensures
        assigned(plan, plan[k].dest) == Some(plan[k]),
    decreases plan.len(),
{
    if k < plan.len() - 1 {
        let pl = plan.drop_last();
        assert(dests(plan)[k] != dests(plan)[plan.len() - 1]);
        assert(distinct(dests(pl))) by {
            assert forall|x: int, y: int|
                0 <= x < dests(pl).len() && 0 <= y < dests(pl).len() && x != y implies dests(pl)[x]
                != dests(pl)[y] by {
                assert(dests(pl)[x] == dests(plan)[x]);
                assert(dests(pl)[y] == dests(plan)[y]);
            }
        }
        assert(pl[k] == plan[k]);
        lemma_assigned_at(pl, k);
    }
}

/// A name that no line has as destination is not assigned.
proof fn lemma_not_assigned(plan: Seq<AssignmentV>, n: Seq<char>)
    requires
        forall|j: int| 0 <= j < plan.len() ==> plan[j].dest != n,
    ensures
        assigned(plan, n) is None,
    decreases plan.len(),
{
    if plan.len() > 0 {
        assert(plan[plan.len() - 1] == plan.last());
        lemma_not_assigned(plan.drop_last(), n);
    }
}

/// `f` is a field of the record that the entry keeps.
pub open spec fn in_record(fs: Seq<FieldV>, e: MapperEntryV, f: FieldV) -> bool {
    exists|i: int| 0 <= i < fs.len() && f == fs[i] && keep(e, fs[i].name)
}

/// The selected fields are fields of the record that the entry keeps, and
/// every kept field is selected.
pub proof fn lemma_selected(fs: Seq<FieldV>, e: MapperEntryV)
    ensures
        selected(fs, e).len() <= fs.len(),
        forall|k: int|
            0 <= k < selected(fs, e).len() ==> #[trigger] in_record(fs, e, selected(fs, e)[k]),
        forall|i: int|
            0 <= i < fs.len() && keep(e, fs[i].name) ==> exists|k: int|
                0 <= k < selected(fs, e).len() && #[trigger] selected(fs, e)[k] == fs[i],
    decreases fs.len(),
{
    if fs.len() > 0 {
        let pre = fs.drop_last();
        lemma_selected(pre, e);
        let s = selected(fs, e);
        let sp = selected(pre, e);
        assert forall|k: int| 0 <= k < s.len() implies #[trigger] in_record(fs, e, s[k]) by {
            if k < sp.len() {
                assert(s[k] == sp[k]);
                assert(in_record(pre, e, sp[k]));
                let i = choose|i: int| 0 <= i < pre.len() && sp[k] == pre[i] && keep(e, pre[i].name);
                assert(fs[i] == pre[i]);
                assert(0 <= i < fs.len() && s[k] == fs[i] && keep(e, fs[i].name));
            } else {
                assert(s[k] == fs[fs.len() - 1]);
                assert(keep(e, fs[fs.len() - 1].name));
            }
        }
        assert forall|i: int| 0 <= i < fs.len() && keep(e, fs[i].name) implies exists|k: int|
            0 <= k < s.len() && #[trigger] s[k] == fs[i] by {
            if i < fs.len() - 1 {
                assert(fs[i] == pre[i]);
                let k = choose|k: int| 0 <= k < sp.len() && #[trigger] sp[k] == pre[i];
                assert(s[k] == sp[k]);
            } else {
                assert(s[sp.len() as int] == fs.last());
            }
        }
    } else {
        assert(selected(fs, e).len() == 0);
    }
}

/// The selected fields of a record with distinct names have distinct names.
pub proof fn lemma_selected_distinct(fs: Seq<FieldV>, e: MapperEntryV)
    requires
        distinct(names_of(fs)),
    ensures
        distinct(names_of(selected(fs, e))),
    decreases fs.len(),
{
    if fs.len() > 0 {
        let pre = fs.drop_last();
        assert(distinct(names_of(pre))) by {
            assert forall|x: int, y: int|
                0 <= x < pre.len() && 0 <= y < pre.len() && x != y implies names_of(pre)[x]
                != names_of(pre)[y] by {
                assert(names_of(pre)[x] == names_of(fs)[x]);
                assert(names_of(pre)[y] == names_of(fs)[y]);
            }
        }
        lemma_selected_distinct(pre, e);
        lemma_selected(pre, e);
        let s = selected(fs, e);
        let sp = selected(pre, e);
        if keep(e, fs.last().name) {
            assert forall|x: int, y: int|
                0 <= x < s.len() && 0 <= y < s.len() && x != y implies names_of(s)[x]
                != names_of(s)[y] by {
                if x < sp.len() && y < sp.len() {
                    assert(names_of(sp)[x] == names_of(s)[x]);
                    assert(names_of(sp)[y] == names_of(s)[y]);
                } else if x < sp.len() {
                    assert(in_record(pre, e, sp[x]));
                    let i = choose|i: int| 0 <= i < pre.len() && sp[x] == pre[i] && keep(e, pre[i].name);
                    assert(names_of(fs)[i] == names_of(s)[x]);
                    assert(names_of(fs)[i] != names_of(fs)[fs.len() - 1]);
                } else {
                    assert(in_record(pre, e, sp[y]));
                    let i = choose|i: int| 0 <= i < pre.len() && sp[y] == pre[i] && keep(e, pre[i].name);
                    assert(names_of(fs)[i] == names_of(s)[y]);
                    assert(names_of(fs)[i] != names_of(fs)[fs.len() - 1]);
                }
            }
        }
    }
}

/// The destinations of the record-to-DTO conversion are the DTO's field names.
proof fn lemma_dto_plan_dests(fs: Seq<FieldV>, e: MapperEntryV)
    ensures
        dests(to_dto_plan(fs, e)) == dto_names(fs, e),
{
    assert(dests(to_dto_plan(fs, e)) =~= dto_names(fs, e));
}

/// Round trip: converting a record value to the DTO and back gives every
/// field that the DTO covers unchanged, and every other field its default.
/// It holds where the record's field names are distinct and so are the DTO's,
/// as a compiled type requires.
pub proof fn law_round_trip(
    fs: Seq<FieldV>,
    e: MapperEntryV,
    r: Seq<(Seq<char>, FieldValueV)>,
    defaults: Seq<(Seq<char>, FieldValueV)>,
)
    requires
        distinct(names_of(fs)),
        distinct(dto_names(fs, e)),
        record_value(fs, r),
        record_value(fs, defaults),
    ensures
        into_record(fs, e, into_dto(fs, e, r), defaults).len() == fs.len(),
        forall|i: int|
            0 <= i < fs.len() ==> #[trigger] into_record(fs, e, into_dto(fs, e, r), defaults)[i]
                == if keep(e, fs[i].name) {
                r[i]
            } else {
                defaults[i]
            },
{
    let sel = selected(fs, e);
    let dplan = to_dto_plan(fs, e);
    let rplan = to_record_plan(fs, e);
    let blank = blank_dto(fs, e);
    let d = into_dto(fs, e, r);
    let back = into_record(fs, e, d, defaults);
    lemma_selected(fs, e);
    lemma_selected_distinct(fs, e);
    lemma_dto_plan_dests(fs, e);
    assert(value_names(blank) =~= dto_names(fs, e));
    assert(value_names(r) =~= names_of(fs));
    assert(value_names(defaults) =~= names_of(fs));
    lemma_apply_names(dplan, r, blank);
    lemma_apply_names(rplan, d, defaults);
    assert(dests(rplan) =~= names_of(sel));
    assert(back.len() == fs.len()) by {
        assert(value_names(back).len() == value_names(defaults).len());
    }
    assert forall|i: int| 0 <= i < fs.len() implies #[trigger] back[i] == if keep(e, fs[i].name) {
        r[i]
    } else {
        defaults[i]
    } by {
        lemma_apply_at(rplan, d, defaults, i);
        assert(value_names(back)[i] == value_names(defaults)[i]);
        if keep(e, fs[i].name) {
            let k = choose|k: int| 0 <= k < sel.len() && #[trigger] sel[k] == fs[i];
            assert(rplan[k] == to_record_assign(e, sel[k]));
            assert(dests(rplan)[k] == fs[i].name);
            lemma_assigned_at(rplan, k);
            assert(defaults[i].0 == fs[i].name);
            let f = fs[i];
            let rule = rule_for(e.map, f.name);
            let t = dto_name_of(f, rule);
            // the DTO field that stands for `f`
            assert(dplan[k] == to_dto_assign(e, sel[k]));
            assert(dto_names(fs, e)[k] == t);
            assert(value_names(blank)[k] == t);
            lemma_apply_at(dplan, r, blank, k);
            lemma_assigned_at(dplan, k);
            assert(dests(dplan)[k] == t);
            assert(value_names(d)[k] == t);
            lemma_index_of_distinct(d, k);
            assert(value_names(r)[i] == f.name);
            lemma_index_of_distinct(r, i);
            assert(r[i].0 == f.name);
            assert(lookup(r, f.name) == r[i].1);
            assert(lookup(d, t) == d[k].1);
            if coerced(f, rule) {
                assert(r[i].1 is Plain);
            }
            assert(back[i].1 == r[i].1);
        } else {
            assert forall|j: int| 0 <= j < rplan.len() implies rplan[j].dest != defaults[i].0 by {
                assert(rplan[j].dest == sel[j].name);
                assert(in_record(fs, e, sel[j]));
                let x = choose|x: int| 0 <= x < fs.len() && sel[j] == fs[x] && keep(e, fs[x].name);
                assert(names_of(fs)[x] == sel[j].name);
                assert(names_of(fs)[i] == defaults[i].0);
            }
            lemma_not_assigned(rplan, defaults[i].0);
        }
    }
}

/// With `exactly` and neither rules nor ignored names, the DTO holds every
/// field of the record, in order, under its own name and type, followed by
/// the new fields.
pub proof fn law_exactly_keeps_all(fs: Seq<FieldV>, e: MapperEntryV)
    requires
        e.exactly,
        e.map.len() == 0,
        e.ignore.len() == 0,
    ensures
        selected(fs, e) == fs,
        dto_fields(fs, e).len() == fs.len() + e.new_fields.len(),
        forall|i: int|
            0 <= i < fs.len() ==> #[trigger] dto_fields(fs, e)[i] == (DtoFieldV {
                name: fs[i].name,
                ty: fs[i].ty,
                wrapped: false,
                attrs: Seq::empty(),
            }),
{
    crate::dto_builder::lemma_takes_all_selects_all(fs, e);
    assert forall|i: int| 0 <= i < fs.len() implies #[trigger] dto_fields(fs, e)[i] == (DtoFieldV {
        name: fs[i].name,
        ty: fs[i].ty,
        wrapped: false,
        attrs: Seq::empty(),
    }) by {
        assert(rule_for(e.map, fs[i].name) is None);
        assert(dto_fields(fs, e)[i] == dto_field_of(e, fs[i]));
    }
}

/// With ignored names, the DTO takes exactly the record's fields whose names
/// are not ignored; a rule for an ignored field does not bring it back.
pub proof fn law_ignore_mode(fs: Seq<FieldV>, e: MapperEntryV)
    requires
        e.ignore.len() > 0,
    ensures
        forall|k: int|
            0 <= k < selected(fs, e).len() ==> !e.ignore.contains(
                #[trigger] selected(fs, e)[k].name,
            ) && in_record(fs, e, selected(fs, e)[k]),
        forall|i: int|
            0 <= i < fs.len() && !e.ignore.contains(#[trigger] fs[i].name) ==> exists|k: int|
                0 <= k < selected(fs, e).len() && selected(fs, e)[k] == fs[i],
        forall|k: int|
            0 <= k < selected(fs, e).len() ==> #[trigger] dto_fields(fs, e)[k] == dto_field_of(
                e,
                selected(fs, e)[k],
            ),
{
    lemma_selected(fs, e);
    assert forall|k: int| 0 <= k < selected(fs, e).len() implies !e.ignore.contains(
        #[trigger] selected(fs, e)[k].name,
    ) && in_record(fs, e, selected(fs, e)[k]) by {
        assert(in_record(fs, e, selected(fs, e)[k]));
        let i = choose|i: int|
            0 <= i < fs.len() && selected(fs, e)[k] == fs[i] && keep(e, fs[i].name);
        assert(!e.ignore.contains(fs[i].name));
    }
    assert forall|i: int| 0 <= i < fs.len() && !e.ignore.contains(#[trigger] fs[i].name) implies exists|
        k: int,
    | 0 <= k < selected(fs, e).len() && selected(fs, e)[k] == fs[i] by {
        assert(keep(e, fs[i].name));
    }
}

/// A rule with `required = false` on a required field makes the DTO field
/// optional; the record-to-DTO line wraps the value and the DTO-to-record
/// line unwraps it with the default as fallback.
pub proof fn law_optional_coercion(fs: Seq<FieldV>, e: MapperEntryV, k: int, m: MapValueV)
    requires
        0 <= k < selected(fs, e).len(),
        rule_for(e.map, selected(fs, e)[k].name) == Some(m),
        !m.required,
        !selected(fs, e)[k].optional,
    ensures
        dto_fields(fs, e)[k].wrapped,
        dto_fields(fs, e)[k].ty == selected(fs, e)[k].ty,
        to_dto_plan(fs, e)[k].source == SourceExprV::WrapSome(selected(fs, e)[k].name),
        to_record_plan(fs, e)[k].source == SourceExprV::UnwrapOrDefault(dto_fields(fs, e)[k].name),
        forall|x: Seq<char>, fallback: FieldValueV|
            #![trigger wrap(FieldValueV::Plain(x)), unwrap_or(FieldValueV::Absent, fallback)]
            unwrap_or(wrap(FieldValueV::Plain(x)), fallback) == FieldValueV::Plain(x)
                && unwrap_or(FieldValueV::Absent, fallback) == fallback,
{
    assert(dto_fields(fs, e)[k] == dto_field_of(e, selected(fs, e)[k]));
    assert(to_dto_plan(fs, e)[k] == to_dto_assign(e, selected(fs, e)[k]));
    assert(to_record_plan(fs, e)[k] == to_record_assign(e, selected(fs, e)[k]));
}

/// A rule `"from:to"` gives a DTO field named `to` that holds the record's
/// `from`; the way back assigns the record's `from` from the DTO's `to`.
pub proof fn law_renaming(
    fs: Seq<FieldV>,
    e: MapperEntryV,
    r: Seq<(Seq<char>, FieldValueV)>,
    k: int,
    m: MapValueV,
    to: Seq<char>,
)
    requires
        distinct(names_of(fs)),
        distinct(dto_names(fs, e)),
        record_value(fs, r),
        0 <= k < selected(fs, e).len(),
        rule_for(e.map, selected(fs, e)[k].name) == Some(m),
        m.to == Some(to),
        m.required || selected(fs, e)[k].optional,
    ensures
        dto_fields(fs, e)[k].name == to,
        lookup(into_dto(fs, e, r), to) == lookup(r, selected(fs, e)[k].name),
        to_record_plan(fs, e)[k] == (AssignmentV {
            dest: selected(fs, e)[k].name,
            source: SourceExprV::Field(to),
        }),
{
    let sel = selected(fs, e);
    let f = sel[k];
    let dplan = to_dto_plan(fs, e);
    let blank = blank_dto(fs, e);
    let d = into_dto(fs, e, r);
    lemma_selected(fs, e);
    lemma_dto_plan_dests(fs, e);
    assert(dto_fields(fs, e)[k] == dto_field_of(e, f));
    assert(to_record_plan(fs, e)[k] == to_record_assign(e, f));
    assert(dplan[k] == to_dto_assign(e, f));
    assert(value_names(blank) =~= dto_names(fs, e));
    assert(value_names(r) =~= names_of(fs));
    lemma_apply_names(dplan, r, blank);
    assert(dto_names(fs, e)[k] == to);
    assert(value_names(blank)[k] == to);
    lemma_apply_at(dplan, r, blank, k);
    lemma_assigned_at(dplan, k);
    assert(dests(dplan)[k] == to);
    assert(value_names(d)[k] == to);
    lemma_index_of_distinct(d, k);
}

/// With no repeated name, `dups` finds nothing; so a repeated name is found.
pub proof fn lemma_dups_empty(s: Seq<Seq<char>>)
    requires
        dups(s).len() == 0,
    ensures
        distinct(s),
    decreases s.len(),
{
    if s.len() > 0 {
        let pre = s.drop_last();
        if dups(pre).len() > 0 {
            assert(dups(s).len() >= dups(pre).len());
        } else {
            lemma_dups_empty(pre);
            assert(!pre.contains(s.last()));
            assert forall|i: int, j: int|
                0 <= i < s.len() && 0 <= j < s.len() && i != j implies s[i] != s[j] by {
                if i < pre.len() && j < pre.len() {
                    assert(pre[i] == s[i] && pre[j] == s[j]);
                } else if i < pre.len() {
                    assert(pre[i] == s[i]);
                } else {
                    assert(pre[j] == s[j]);
                }
            }
        }
    }
}

proof fn lemma_missing_names(froms: Seq<Seq<char>>, names: Seq<Seq<char>>, k: int)
    requires
        0 <= k < froms.len(),
        !names.contains(froms[k]),
    ensures
        missing_names(froms, names).len() > 0,
    decreases froms.len(),
{
    if k < froms.len() - 1 {
        assert(froms.drop_last()[k] == froms[k]);
        lemma_missing_names(froms.drop_last(), names, k);
    }
}

proof fn lemma_missing_errors(es: Seq<MapperEntryV>, names: Seq<Seq<char>>, i: int)
    requires
        0 <= i < es.len(),
        missing_names(from_fields(es[i].map), names).len() > 0,
    ensures
        missing_errors(es, names).len() > 0,
    decreases es.len(),
{
    if i < es.len() - 1 {
        assert(es.drop_last()[i] == es[i]);
        lemma_missing_errors(es.drop_last(), names, i);
    }
}

/// Two entries with the same DTO name are refused.
pub proof fn law_rejects_duplicate_dto(
    names: Seq<Seq<char>>,
    es: Seq<MapperEntryV>,
    i: int,
    j: int,
)
    requires
        0 <= i < es.len(),
        0 <= j < es.len(),
        i != j,
        es[i].dto == es[j].dto,
    ensures
        validation(names, es) is Err,
{
    let dn = crate::entry_validator::dto_names(es);
    if dups(dn).len() == 0 {
        lemma_dups_empty(dn);
        assert(dn[i] == dn[j]);
    }
}

/// A rule naming a source field that the record lacks is refused.
pub proof fn law_rejects_missing_field(
    names: Seq<Seq<char>>,
    es: Seq<MapperEntryV>,
    i: int,
    k: int,
)
    requires
        0 <= i < es.len(),
        0 <= k < es[i].map.len(),
        !names.contains(es[i].map[k].from),
    ensures
        validation(names, es) is Err,
{
    assert(from_fields(es[i].map)[k] == es[i].map[k].from);
    lemma_missing_names(from_fields(es[i].map), names, k);
    lemma_missing_errors(es, names, i);
}

/// An entry with none of `map`, `ignore` and `exactly` is refused.
pub proof fn law_rejects_missing_selector(names: Seq<Seq<char>>, es: Seq<MapperEntryV>, i: int)
    requires
        0 <= i < es.len(),
        !has_selector(es[i]),
    ensures
        validation(names, es) is Err,
{
    assert(!has_selector(es[i]));
}

proof fn lemma_new_fields_bad(elems: Seq<AttrValue>, j: int)
    requires
        0 <= j < elems.len(),
        elems[j] is Tuple,
        new_field_of(elems[j]->Tuple_0@) is Some,
        new_field_of(elems[j]->Tuple_0@)->Some_0 is Err,
    ensures
        new_fields_of(elems) is Err,
{
    let pre = elems.subrange(0, j + 1);
    assert(pre.drop_last() =~= elems.subrange(0, j));
    assert(pre.last() == elems[j]);
    let e = new_fields_of(pre)->Err_0;
    lemma_new_fields_err_stays(elems, j + 1, e);
}

/// A new-field tuple whose `name: type` text does not hold exactly one `:`.
pub open spec fn bad_new_field(t: Seq<AttrValue>) -> bool {
    t.len() >= 2 && t[0] is Str && t[1] is Str && count_colons(strip_ws(t[0]->Str_0@)) != 1
}

/// A declaration whose `new_fields` holds a `name: type` text without
/// exactly one `:` is refused.
pub proof fn law_rejects_bad_new_field(items: Seq<MetaItem>, n: int, j: int)
    requires
        0 <= n < items.len(),
        key_is(strip_ws(items[n].key@), "new_fields"@),
        items[n].value is Array,
        0 <= j < items[n].value->Array_0@.len(),
        items[n].value->Array_0@[j] is Tuple,
        bad_new_field(items[n].value->Array_0@[j]->Tuple_0@),
    ensures
        parse_entry(items) is Err,
{
    reveal_strlit("map");
    reveal_strlit("new_fields");
    let a = items[n].value->Array_0;
    let t = a@[j]->Tuple_0;
    assert(new_field_of(t@) == Some(Err::<NewFieldV, ParseError>(ParseError::NewFieldColon)));
    lemma_new_fields_bad(a@, j);
    assert(!key_is(strip_ws(items[n].key@), "map"@)) by {
        assert(strip_ws(items[n].key@).len() == 10);
    }
    let pre = items.subrange(0, n + 1);
    assert(pre.drop_last() =~= items.subrange(0, n));
    assert(pre.last() == items[n]);
    assert(forall|d: DraftV| #[trigger] step(d, items[n]) is Err);
    assert(read_items(pre) is Err);
    lemma_read_err_stays(items, n + 1, read_items(pre)->Err_0);
}

} // verus!
