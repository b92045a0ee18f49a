use dto_mapper::conversion::{apply_conversion, FieldValue, NamedValue};
use dto_mapper::dto_builder::{Assignment, SourceExpr};
use dto_mapper::mapper_entry::{AttrValue, MetaItem};
use dto_mapper::my_dto::User;
use dto_mapper::struct_entry::{RawField, RecordShape, TypeSig};
use dto_mapper::{generate, Generated};

fn text(s: &str) -> AttrValue {
    AttrValue::Str(s.to_string())
}

fn item(key: &str, value: AttrValue) -> MetaItem {
    MetaItem { key: key.to_string(), value }
}

fn rule(name: &str, required: bool) -> AttrValue {
    AttrValue::Tuple(vec![text(name), AttrValue::Bool(required)])
}

fn ty(t: &str, head: &str) -> TypeSig {
    TypeSig { text: t.to_string(), path: vec![head.to_string()] }
}

fn account_shape() -> RecordShape {
    let f = |n: &str, t: &str, h: &str| RawField { name: n.to_string(), ty: ty(t, h) };
    RecordShape::NamedFields(vec![
        f("username", "String", "String"),
        f("password", "String", "String"),
        f("email", "String", "String"),
        f("firstname", "String", "String"),
        f("lastname", "String", "String"),
        f("nickname", "Option<String>", "Option"),
        f("age", "u8", "u8"),
    ])
}

fn gen(decls: Vec<Vec<MetaItem>>) -> Generated {
    generate("Account".to_string(), &account_shape(), &decls).unwrap()
}

fn nv(name: &str, v: FieldValue) -> NamedValue {
    NamedValue { name: name.to_string(), value: v }
}

fn plain(s: &str) -> FieldValue {
    FieldValue::Plain(s.to_string())
}

fn account() -> Vec<NamedValue> {
    vec![
        nv("username", plain("dessalines")),
        nv("password", plain("pw")),
        nv("email", plain("d@mail.ht")),
        nv("firstname", plain("Jean")),
        nv("lastname", plain("Jacques")),
        nv("nickname", FieldValue::Present("JJ".to_string())),
        nv("age", plain("50")),
    ]
}

fn account_default() -> Vec<NamedValue> {
    vec![
        nv("username", plain("")),
        nv("password", plain("")),
        nv("email", plain("")),
        nv("firstname", plain("")),
        nv("lastname", plain("")),
        nv("nickname", FieldValue::Absent),
        nv("age", plain("0")),
    ]
}

fn field_names(g: &Generated) -> Vec<String> {
    g.dtos[0].fields.iter().map(|f| f.name.clone()).collect()
}

fn into_dto(g: &Generated, r: &Vec<NamedValue>) -> Vec<NamedValue> {
    let blank: Vec<NamedValue> =
        g.dtos[0].fields.iter().map(|f| nv(&f.name, FieldValue::Absent)).collect();
    apply_conversion(&g.into_dto[0], r, &blank)
}

fn into_record(g: &Generated, d: &Vec<NamedValue>) -> Vec<NamedValue> {
    apply_conversion(&g.into_record[0], d, &account_default())
}

#[test]
fn exactly_takes_every_field_unchanged() {
    let g = gen(vec![vec![item("dto", text("Copy")), item("exactly", AttrValue::Bool(true))]]);
    let d = &g.dtos[0];
    assert_eq!(d.fields.len(), 7);
    let types: Vec<&str> = d.fields.iter().map(|f| f.field_type.as_str()).collect();
    assert_eq!(types, vec!["String", "String", "String", "String", "String", "Option<String>", "u8"]);
    assert_eq!(
        field_names(&g),
        vec!["username", "password", "email", "firstname", "lastname", "nickname", "age"]
    );
    assert!(d.fields.iter().all(|f| !f.wrapped));
    assert_eq!(into_record(&g, &into_dto(&g, &account())), account());
}

#[test]
fn ignored_fields_never_appear() {
    let g = gen(vec![vec![
        item("dto", text("Public")),
        item("ignore", AttrValue::Array(vec![text("password"), text("age")])),
        item("map", AttrValue::Array(vec![rule("password:secret", false), rule("email:mail", false)])),
    ]]);
    assert_eq!(field_names(&g), vec!["username", "mail", "firstname", "lastname", "nickname"]);
    // the rule on a kept field still applies
    assert!(g.dtos[0].fields[1].wrapped);
}

#[test]
fn optional_coercion_wraps_and_unwraps() {
    let g = gen(vec![vec![
        item("dto", text("Opt")),
        item("map", AttrValue::Array(vec![rule("age", false), rule("nickname", false)])),
    ]]);
    let d = &g.dtos[0];
    assert_eq!(d.fields[1].name, "age");
    assert!(d.fields[1].wrapped);
    assert_eq!(d.fields[1].field_type, "u8");
    // an optional field is never wrapped twice
    assert_eq!(d.fields[0].name, "nickname");
    assert!(!d.fields[0].wrapped);
    assert_eq!(
        g.into_dto[0].assignments[0],
        Assignment { dest: "nickname".to_string(), source: SourceExpr::Field("nickname".to_string()) }
    );
    assert_eq!(
        g.into_dto[0].assignments[1],
        Assignment { dest: "age".to_string(), source: SourceExpr::WrapSome("age".to_string()) }
    );
    assert_eq!(
        g.into_record[0].assignments[1],
        Assignment { dest: "age".to_string(), source: SourceExpr::UnwrapOrDefault("age".to_string()) }
    );
    let dto = into_dto(&g, &account());
    assert_eq!(dto[1], nv("age", FieldValue::Present("50".to_string())));
    // an absent value falls back to the default
    let back = into_record(&g, &vec![nv("nickname", FieldValue::Absent), nv("age", FieldValue::Absent)]);
    assert_eq!(back[6], nv("age", plain("0")));
    assert!(!g.into_dto[0].fill_default);
    assert!(g.into_record[0].fill_default);
}

#[test]
fn round_trip_keeps_covered_fields() {
    let g = gen(vec![vec![
        item("dto", text("Rt")),
        item("map", AttrValue::Array(vec![rule("username:login", true), rule("age", false), rule("nickname", false)])),
    ]]);
    let back = into_record(&g, &into_dto(&g, &account()));
    let mut expected = account_default();
    expected[0] = nv("username", plain("dessalines"));
    expected[5] = nv("nickname", FieldValue::Present("JJ".to_string()));
    expected[6] = nv("age", plain("50"));
    assert_eq!(back, expected);
}

#[test]
fn renaming_moves_the_value() {
    let g = gen(vec![vec![item("dto", text("R")), item("map", AttrValue::Array(vec![rule("email:contact", true)]))]]);
    assert_eq!(field_names(&g), vec!["contact"]);
    assert_eq!(into_dto(&g, &account()), vec![nv("contact", plain("d@mail.ht"))]);
    assert_eq!(
        g.into_record[0].assignments,
        vec![Assignment { dest: "email".to_string(), source: SourceExpr::Field("contact".to_string()) }]
    );
}

#[test]
fn login_scenario() {
    let g = gen(vec![vec![
        item("dto", text("LoginDto")),
        item("map", AttrValue::Array(vec![rule("username:login", true), rule("password", true)])),
    ]]);
    assert_eq!(g.dtos[0].name, "LoginDto");
    assert_eq!(field_names(&g), vec!["login", "password"]);
    assert!(g.dtos[0].fields.iter().all(|f| f.field_type == "String" && !f.wrapped));
    assert_eq!(
        into_dto(&g, &account()),
        vec![nv("login", plain("dessalines")), nv("password", plain("pw"))]
    );
}

#[test]
fn profile_scenario() {
    let g = gen(vec![vec![item("dto", text("ProfileDto")), item("ignore", AttrValue::Array(vec![text("password")]))]]);
    assert_eq!(
        field_names(&g),
        vec!["username", "email", "firstname", "lastname", "nickname", "age"]
    );
    let types: Vec<&str> = g.dtos[0].fields.iter().map(|f| f.field_type.as_str()).collect();
    assert_eq!(types, vec!["String", "String", "String", "String", "Option<String>", "u8"]);
}

#[test]
fn new_field_scenario() {
    let g = gen(vec![vec![
        item("dto", text("Named")),
        item("map", AttrValue::Array(vec![rule("age", true)])),
        item(
            "new_fields",
            AttrValue::Array(vec![AttrValue::Tuple(vec![text("name: string"), text("concat(firstname, lastname)")])]),
        ),
    ]]);
    let f = &g.dtos[0].fields[1];
    assert_eq!(f.name, "name");
    assert_eq!(f.field_type, "string");
    assert_eq!(
        g.into_dto[0].assignments[1],
        Assignment {
            dest: "name".to_string(),
            source: SourceExpr::Expression("concat(firstname, lastname)".to_string())
        }
    );
    let dto = into_dto(&g, &account());
    assert_eq!(dto[1], nv("name", FieldValue::Computed("concat(firstname, lastname)".to_string())));
    // the way back has no line for a new field
    assert_eq!(g.into_record[0].assignments.len(), 1);
}

#[test]
fn sample_user() {
    let u = User::new("user".to_string(), "password".to_string(), "user@mail.org".to_string(), 25);
    assert_eq!(u.username, "user");
    assert_eq!(u.password, "password");
    assert_eq!(u.email, Some("user@mail.org".to_string()));
    assert_eq!(u.firstname, None);
    assert_eq!(u.lastname, None);
    assert_eq!(u.age, 25);
    let d = User::default();
    assert!(d.username.is_empty() && d.email.is_none() && d.age == 0);
}
