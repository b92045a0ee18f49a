use dto_mapper::conversion::{apply_conversion, FieldValue, NamedValue};
use dto_mapper::dto_builder::{Conversion, DtoDefinition, DtoField};
use dto_mapper::mapper_entry::{AttrValue, MetaItem};
use dto_mapper::struct_entry::{RawField, RecordShape, TypeSig};
use dto_mapper::{generate, Generated};

fn text(s: &str) -> AttrValue {
    AttrValue::Str(s.to_string())
}

fn item(key: &str, value: AttrValue) -> MetaItem {
    MetaItem { key: key.to_string(), value }
}

fn rule(name: &str, required: bool) -> AttrValue {
    AttrValue::Tuple(vec![text(name), AttrValue::Bool(required)])
}

fn idents(names: &[&str]) -> AttrValue {
    AttrValue::Tuple(names.iter().map(|n| AttrValue::Ident(n.to_string())).collect())
}

fn ty(t: &str) -> TypeSig {
    let head = t.split('<').next().unwrap().to_string();
    TypeSig { text: t.to_string(), path: vec![head] }
}

fn field(name: &str, t: &str) -> RawField {
    RawField { name: name.to_string(), ty: ty(t) }
}

fn user_shape() -> RecordShape {
    RecordShape::NamedFields(vec![
        field("username", "String"),
        field("password", "String"),
        field("email", "String"),
        field("firstname", "String"),
        field("middle_name", "Option<String>"),
        field("lastname", "String"),
        field("age", "u8"),
    ])
}

const CONCAT: &str = "concat_str( self.firstname.as_str(), self.lastname.as_str() )";

fn user_declarations() -> Vec<Vec<MetaItem>> {
    vec![
        vec![
            item("dto", text("LoginDto")),
            item("map", AttrValue::Array(vec![rule("username:login", true), rule("password", true)])),
            item("derive", idents(&["Debug", "Clone", "PartialEq"])),
        ],
        vec![
            item("dto", text("ProfileDto")),
            item("ignore", AttrValue::Array(vec![text("password")])),
            item("derive", idents(&["Debug", "Clone", "PartialEq"])),
        ],
        vec![
            item("dto", text("PersonDto")),
            item("no_builder", AttrValue::Bool(true)),
            item(
                "map",
                AttrValue::Array(vec![
                    rule("firstname", true),
                    rule("lastname", true),
                    rule("email", false),
                ]),
            ),
        ],
        vec![
            item("dto", text("CustomDto")),
            item("no_builder", AttrValue::Bool(true)),
            item("map", AttrValue::Array(vec![rule("email", false)])),
            item("derive", idents(&["Debug", "Clone"])),
            item(
                "new_fields",
                AttrValue::Array(vec![AttrValue::Tuple(vec![text("name: String"), text(CONCAT)])]),
            ),
        ],
        vec![
            item("dto", text("CustomDtoWithAttribute")),
            item("no_builder", AttrValue::Bool(true)),
            item("derive", idents(&["Debug", "Clone", "Serialize", "Deserialize", "Validate"])),
            item(
                "map",
                AttrValue::Array(vec![AttrValue::Tuple(vec![
                    text("email"),
                    AttrValue::Bool(false),
                    AttrValue::Array(vec![
                        text("#[serde(rename = \"email_address\")]"),
                        text("#[validate(email(message = \"Invalid Email Address\") ) ]"),
                    ]),
                ])]),
            ),
            item(
                "new_fields",
                AttrValue::Array(vec![
                    AttrValue::Tuple(vec![
                        text("name: String"),
                        text(CONCAT),
                        AttrValue::Array(vec![
                            text("#[serde(rename = \"full_name\")]"),
                            text("#[validate( length( max=3, message= \"Too short\" ) )]"),
                        ]),
                    ]),
                    AttrValue::Tuple(vec![
                        text("hidden_password: String"),
                        text("\"*\".repeat( self.password.len() )"),
                    ]),
                ]),
            ),
            item(
                "macro_attr",
                AttrValue::Array(vec![text("#[serde(rename_all = \"UPPERCASE\")]")]),
            ),
        ],
    ]
}

fn generated() -> Generated {
    match generate("User".to_string(), &user_shape(), &user_declarations()) {
        Ok(g) => g,
        Err(e) => panic!("generation failed: {:?}", e),
    }
}

fn dto<'a>(g: &'a Generated, name: &str) -> (usize, &'a DtoDefinition) {
    let i = g.dtos.iter().position(|d| d.name == name).expect("no such dto");
    (i, &g.dtos[i])
}

fn dto_field<'a>(d: &'a DtoDefinition, name: &str) -> &'a DtoField {
    d.fields.iter().find(|f| f.name == name).expect("no such field")
}

fn plain(s: &str) -> FieldValue {
    FieldValue::Plain(s.to_string())
}

fn value(name: &str, v: FieldValue) -> NamedValue {
    NamedValue { name: name.to_string(), value: v }
}

fn user_default() -> Vec<NamedValue> {
    vec![
        value("username", plain("")),
        value("password", plain("")),
        value("email", plain("")),
        value("firstname", plain("")),
        value("middle_name", FieldValue::Absent),
        value("lastname", plain("")),
        value("age", plain("0")),
    ]
}

/// The default value of a record, with some fields set.
fn user_with(fields: &[(&str, FieldValue)]) -> Vec<NamedValue> {
    let mut u = user_default();
    for (n, v) in fields {
        let slot = u.iter_mut().find(|x| x.name == *n).unwrap();
        slot.value = v.clone();
    }
    u
}

fn blank_dto(d: &DtoDefinition) -> Vec<NamedValue> {
    d.fields.iter().map(|f| value(&f.name, FieldValue::Absent)).collect()
}

fn to_dto(g: &Generated, name: &str, user: &Vec<NamedValue>) -> Vec<NamedValue> {
    let (i, d) = dto(g, name);
    let c: &Conversion = &g.into_dto[i];
    apply_conversion(c, user, &blank_dto(d))
}

fn get(v: &Vec<NamedValue>, name: &str) -> FieldValue {
    v.iter().find(|x| x.name == name).expect("no such field").value.clone()
}

#[test]
fn test_multiple_dto_creation() {
    let g = generated();
    let (_, login_dto) = dto(&g, "LoginDto");
    let (_, profile_dto) = dto(&g, "ProfileDto");
    let names: Vec<&str> = login_dto.fields.iter().map(|f| f.name.as_str()).collect();
    assert_eq!(names, vec!["login", "password"]);
    assert_eq!(dto_field(login_dto, "login").field_type, "String");
    assert_eq!(dto_field(login_dto, "password").field_type, "String");
    assert!(login_dto.derive.iter().any(|d| d == "Default"));

    assert_eq!(dto_field(profile_dto, "username").field_type, "String");
    assert_eq!(dto_field(profile_dto, "email").field_type, "String");
    assert_eq!(dto_field(profile_dto, "age").field_type, "u8");
    assert!(profile_dto.derive.iter().any(|d| d == "Default"));
}

#[test]
fn test_optional_creation() {
    let g = generated();
    let (_, person_dto) = dto(&g, "PersonDto");
    let email = dto_field(person_dto, "email");
    //email field should be of Option type
    assert!(email.wrapped);
    assert_eq!(email.field_type, "String");
    assert!(!dto_field(person_dto, "firstname").wrapped);
}

#[test]
fn test_struct_into_dto() {
    let g = generated();
    let user = user_with(&[
        ("username", plain("dessalines")),
        ("email", plain("dessalines@mail.ht")),
        ("password", plain("XXXXXXXXXXXXX")),
        ("firstname", plain("Dessalines")),
        ("lastname", plain("Jean jacques")),
        ("age", plain("50")),
    ]);
    let lg_dto_user = to_dto(&g, "LoginDto", &user);
    let pf_dto_user = to_dto(&g, "ProfileDto", &user);
    println!("User to LoginDto = {:?}", lg_dto_user);
    println!("User to ProfileDto = {:?}", pf_dto_user);
    assert_eq!(
        vec![value("login", plain("dessalines")), value("password", plain("XXXXXXXXXXXXX"))],
        lg_dto_user
    );
    assert_eq!(
        vec![
            value("username", plain("dessalines")),
            value("email", plain("dessalines@mail.ht")),
            value("firstname", plain("Dessalines")),
            value("middle_name", FieldValue::Absent),
            value("lastname", plain("Jean jacques")),
            value("age", plain("50")),
        ],
        pf_dto_user
    );
}

#[test]
fn test_dto_into_struct() {
    let g = generated();
    let (i, _) = dto(&g, "PersonDto");
    let person = vec![
        value("firstname", plain("Dessalines")),
        value("lastname", plain("Jean Jacques")),
        value("email", FieldValue::Present("dessalines@mail.ht".to_string())),
    ];
    let user_from_person = apply_conversion(&g.into_record[i], &person, &user_default());

    assert_eq!(plain("Dessalines"), get(&user_from_person, "firstname"));
    assert_eq!(plain("Jean Jacques"), get(&user_from_person, "lastname"));
    assert_eq!(plain("dessalines@mail.ht"), get(&user_from_person, "email"));

    //assert all the remaining fields are all initialized with default value from User::default
    let default = user_default();
    assert_eq!(get(&default, "username"), get(&user_from_person, "username"));
    assert_eq!(get(&default, "password"), get(&user_from_person, "password"));
    assert_eq!(get(&default, "middle_name"), get(&user_from_person, "middle_name"));
    assert_eq!(get(&default, "age"), get(&user_from_person, "age"));
}

#[test]
fn test_dto_with_builder() {
    let g = generated();
    let (_, login_dto) = dto(&g, "LoginDto");
    assert!(login_dto.builder);
    assert_eq!(login_dto.derive, vec!["Default", "Builder", "Debug", "Clone", "PartialEq"]);
    let (_, person_dto) = dto(&g, "PersonDto");
    assert!(!person_dto.builder);
    assert_eq!(person_dto.derive, vec!["Default"]);
}

#[test]
fn test_custom_dto_expression() {
    let g = generated();
    let user = user_with(&[
        ("firstname", plain("Dessalines")),
        ("lastname", plain("Jean Jacques")),
    ]);
    let custom_dto = to_dto(&g, "CustomDto", &user);
    assert_eq!(get(&custom_dto, "name"), FieldValue::Computed(CONCAT.to_string()));
    assert_eq!(get(&custom_dto, "email"), FieldValue::Present(String::new()));
}

#[test]
fn test_custom_dto_with_struct_attributes() {
    let g = generated();
    let (_, d) = dto(&g, "CustomDtoWithAttribute");
    assert_eq!(
        dto_field(d, "email").attributes,
        vec![
            "#[serde(rename = \"email_address\")]",
            "#[validate(email(message = \"Invalid Email Address\") ) ]",
        ]
    );
    assert!(dto_field(d, "email").wrapped);
    assert_eq!(
        dto_field(d, "name").attributes,
        vec![
            "#[serde(rename = \"full_name\")]",
            "#[validate( length( max=3, message= \"Too short\" ) )]",
        ]
    );
    assert_eq!(dto_field(d, "hidden_password").field_type, "String");
    assert!(dto_field(d, "hidden_password").attributes.is_empty());
    assert_eq!(d.macro_attr, vec!["#[serde(rename_all = \"UPPERCASE\")]"]);
    let user = user_with(&[
        ("firstname", plain("Dessalines")),
        ("lastname", plain("Jean Jacques")),
        ("email", plain("dessalinesgmail.com")),
        ("password", plain("hello123")),
    ]);
    let custom_dto = to_dto(&g, "CustomDtoWithAttribute", &user);
    assert_eq!(get(&custom_dto, "email"), FieldValue::Present("dessalinesgmail.com".to_string()));
    assert_eq!(
        get(&custom_dto, "hidden_password"),
        FieldValue::Computed("\"*\".repeat( self.password.len() )".to_string())
    );
}
