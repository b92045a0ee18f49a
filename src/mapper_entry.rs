use vstd::prelude::*;
use vstd::string::*;

use crate::utils::{blank, isblank, remove_white_space, strip_ws, trim, trim_text};

verus! {

/// A value on the right of `key = value` in a mapping declaration, classified
/// by its literal shape.
#[derive(Debug, PartialEq, Eq)]
pub enum AttrValue {
    Str(String),
    Bool(bool),
    OtherLit,
    Ident(String),
    Array(Vec<AttrValue>),
    Tuple(Vec<AttrValue>),
    Other,
}

/// One `key = value` pair of a mapping declaration.
#[derive(Debug, PartialEq, Eq)]
pub struct MetaItem {
    pub key: String,
    pub value: AttrValue,
}

/// One field-level mapping rule.
#[derive(Debug, Clone, PartialEq, Eq)]
pub struct MapValue {
    pub from_field: String,
    pub to_field: Option<String>,
    pub macro_attr: Vec<String>,
    pub required: bool,
}

/// A field of the DTO with no counterpart in the source record.
#[derive(Debug, Clone, PartialEq, Eq)]
pub struct NewField {
    pub field_name: String,
    pub field_type: String,
    pub expression_value: String,
    pub attributes: Vec<String>,
}

/// One DTO declaration.
#[derive(Debug, Clone, PartialEq, Eq)]
pub struct MapperEntry {
    pub dto: String,
    pub map: Vec<MapValue>,
    pub ignore: Vec<String>,
    pub derive: Vec<String>,
    pub no_builder: bool,
    pub new_fields: Vec<NewField>,
    pub exactly: bool,
    pub macro_attr: Vec<String>,
}

/// Why a mapping declaration was refused; each names the property at fault.
#[derive(Debug, Clone, Copy, PartialEq, Eq)]
pub enum ParseError {
    MissingDto,
    BlankDto,
    BlankIgnore,
    BlankMapField,
    EmptyNewFields,
    BlankMacroAttr,
    NewFieldColon,
    NewFieldName,
    NewFieldType,
}

pub struct MapValueV {
    pub from: Seq<char>,
    pub to: Option<Seq<char>>,
    pub attrs: Seq<Seq<char>>,
    pub required: bool,
}

pub struct NewFieldV {
    pub name: Seq<char>,
    pub ty: Seq<char>,
    pub expr: Seq<char>,
    pub attrs: Seq<Seq<char>>,
}

pub struct MapperEntryV {
    pub dto: Seq<char>,
    pub map: Seq<MapValueV>,
    pub ignore: Seq<Seq<char>>,
    pub derive: Seq<Seq<char>>,
    pub no_builder: bool,
    pub new_fields: Seq<NewFieldV>,
    pub exactly: bool,
    pub macro_attr: Seq<Seq<char>>,
}

pub open spec fn strs(v: Vec<String>) -> Seq<Seq<char>> {
    v@.map_values(|s: String| s@)
}

pub open spec fn opt_view(o: Option<String>) -> Option<Seq<char>> {
    match o {
        Some(s) => Some(s@),
        None => None,
    }
}

impl View for MapValue {
    type V = MapValueV;

    open spec fn view(&self) -> MapValueV {
        MapValueV {
            from: self.from_field@,
            to: opt_view(self.to_field),
            attrs: strs(self.macro_attr),
            required: self.required,
        }
    }
}

impl View for NewField {
    type V = NewFieldV;

    open spec fn view(&self) -> NewFieldV {
        NewFieldV {
            name: self.field_name@,
            ty: self.field_type@,
            expr: self.expression_value@,
            attrs: strs(self.attributes),
        }
    }
}

impl View for MapperEntry {
    type V = MapperEntryV;

    open spec fn view(&self) -> MapperEntryV {
        MapperEntryV {
            dto: self.dto@,
            map: self.map@.map_values(|m: MapValue| m@),
            ignore: strs(self.ignore),
            derive: strs(self.derive),
            no_builder: self.no_builder,
            new_fields: self.new_fields@.map_values(|f: NewField| f@),
            exactly: self.exactly,
            macro_attr: strs(self.macro_attr),
        }
    }
}

/// Index of the first `:` in `s`, or the length of `s` when there is none.
pub open spec fn find_colon(s: Seq<char>) -> int
    decreases s.len(),
{
    if s.len() == 0 || s[0] == ':' {
        0
    } else {
        1 + find_colon(s.drop_first())
    }
}

/// Number of `:` characters in `s`.
pub open spec fn count_colons(s: Seq<char>) -> int
    decreases s.len(),
{
    if s.len() == 0 {
        0
    } else {
        count_colons(s.drop_last()) + if s.last() == ':' {
            1int
        } else {
            0
        }
    }
}

/// The rule written `"from"` or `"from:to"`: split on the first `:`, both
/// parts trimmed; a blank destination means no rename.
pub open spec fn map_value_of(text: Seq<char>, required: bool, attrs: Seq<Seq<char>>) -> MapValueV {
    let p = find_colon(text);
    let to = trim(text.subrange(p + 1, text.len() as int));
    MapValueV {
        from: trim(text.subrange(0, p)),
        to: if p < text.len() && to.len() > 0 {
            Some(to)
        } else {
            None
        },
        attrs,
        required,
    }
}

pub fn clone_text(s: &String) -> (r: String)
    ensures
        r@ == s@,
{
    s.clone()
}

pub fn clone_texts(v: &Vec<String>) -> (r: Vec<String>)
    ensures
        strs(r) == strs(*v),
{
    let mut r: Vec<String> = Vec::new();
    let mut i: usize = 0;
    while i < v.len()
        invariant
            i <= v@.len(),
            r@.len() == i,
            forall|m: int| 0 <= m < i ==> r@[m]@ == v@[m]@,
        decreases v@.len() - i,
    {
        r.push(clone_text(&v[i]));
        i = i + 1;
    }
    assert(strs(r) =~= strs(*v));
    r
}

/// Index of the first `:` of a text, or its length when there is none.
fn colon_position(s: &str) -> (r: usize)
    ensures
        r == find_colon(s@),
        r <= s@.len(),
{
    let n = s.unicode_len();
    let mut i: usize = 0;
    assert(s@.subrange(0, n as int) =~= s@);
    while i < n && s.get_char(i) != ':'
        invariant
            n == s@.len(),
            i <= n,
            find_colon(s@) == i + find_colon(s@.subrange(i as int, n as int)),
        decreases n - i,
    {
        assert(s@.subrange(i as int, n as int).drop_first() =~= s@.subrange(i + 1, n as int));
        i = i + 1;
    }
    i
}

/// Number of `:` characters in a text.
fn colon_count(s: &str) -> (r: usize)
    ensures
        r == count_colons(s@),
{
    let n = s.unicode_len();
    let mut i: usize = 0;
    let mut c: usize = 0;
    while i < n
        invariant
            n == s@.len(),
            i <= n,
            c <= i,
            c == count_colons(s@.subrange(0, i as int)),
        decreases n - i,
    {
        assert(s@.subrange(0, i + 1).drop_last() =~= s@.subrange(0, i as int));
        if s.get_char(i) == ':' {
            c = c + 1;
        }
        i = i + 1;
    }
    assert(s@.subrange(0, n as int) =~= s@);
    c
}

impl MapValue {
    /// Builds a field rule from its text, its `required` flag and its extra
    /// attributes.
    pub fn new(map_tuple: &(String, bool, Vec<String>)) -> (r: MapValue)
        ensures
            r@ == map_value_of(map_tuple.0@, map_tuple.1, strs(map_tuple.2)),
    {
        let s = map_tuple.0.as_str();
        let n = s.unicode_len();
        let p = colon_position(s);
        let from_field = trim_text(s.substring_char(0, p));
        let mut to_field: Option<String> = None;
        if p < n {
            let to = trim_text(s.substring_char(p + 1, n));
            if to.as_str().unicode_len() > 0 {
                to_field = Some(to);
            }
        }
        MapValue { from_field, to_field, macro_attr: clone_texts(&map_tuple.2), required: map_tuple.1 }
    }
}

impl NewField {
    /// A new field from its name, its type, the expression that computes it,
    /// and its extra attributes (none when `attr` is `None`).
    pub fn new(name: &str, field_ty: &str, init_expression: &str, attr: Option<Vec<String>>) -> (r:
        NewField)
        ensures
            r@ == (NewFieldV {
                name: name@,
                ty: field_ty@,
                expr: init_expression@,
                attrs: match attr {
                    Some(a) => strs(a),
                    None => Seq::empty(),
                },
            }),
    {
        let attributes = match attr {
            Some(a) => a,
            None => {
                let e: Vec<String> = Vec::new();
                assert(strs(e) =~= Seq::<Seq<char>>::empty());
                e
            },
        };
        NewField {
            field_name: String::from_str(name),
            field_type: String::from_str(field_ty),
            expression_value: String::from_str(init_expression),
            attributes,
        }
    }
}


/// The trimmed text of each string literal of an array, in order.
pub open spec fn attr_strings(elems: Seq<AttrValue>) -> Seq<Seq<char>>
    decreases elems.len(),
{
    if elems.len() == 0 {
        Seq::empty()
    } else {
        let r = attr_strings(elems.drop_last());
        match elems.last() {
            AttrValue::Str(s) => r.push(trim(s@)),
            _ => r,
        }
    }
}

/// The text of each string literal of an array with all white space removed.
pub open spec fn ignore_strings(elems: Seq<AttrValue>) -> Seq<Seq<char>>
    decreases elems.len(),
{
    if elems.len() == 0 {
        Seq::empty()
    } else {
        let r = ignore_strings(elems.drop_last());
        match elems.last() {
            AttrValue::Str(s) => r.push(strip_ws(s@)),
            _ => r,
        }
    }
}

/// The last string literal of a tuple, without white space.
pub open spec fn tuple_text(t: Seq<AttrValue>) -> Option<Seq<char>>
    decreases t.len(),
{
    if t.len() == 0 {
        None
    } else {
        match t.last() {
            AttrValue::Str(s) => Some(strip_ws(s@)),
            _ => tuple_text(t.drop_last()),
        }
    }
}

/// The last boolean literal of a tuple.
pub open spec fn tuple_flag(t: Seq<AttrValue>) -> Option<bool>
    decreases t.len(),
{
    if t.len() == 0 {
        None
    } else {
        match t.last() {
            AttrValue::Bool(b) => Some(b),
            _ => tuple_flag(t.drop_last()),
        }
    }
}

/// The attribute strings of the last array of a tuple (none without one).
pub open spec fn tuple_attrs(t: Seq<AttrValue>) -> Seq<Seq<char>>
    decreases t.len(),
{
    if t.len() == 0 {
        Seq::empty()
    } else {
        match t.last() {
            AttrValue::Array(a) => attr_strings(a@),
            _ => tuple_attrs(t.drop_last()),
        }
    }
}

/// The field rules of a `map` array: one for each tuple that holds a string
/// and a boolean; other elements are passed over.
pub open spec fn map_rules(elems: Seq<AttrValue>) -> Seq<MapValueV>
    decreases elems.len(),
{
    if elems.len() == 0 {
        Seq::empty()
    } else {
        let r = map_rules(elems.drop_last());
        match elems.last() {
            AttrValue::Tuple(t) => match (tuple_text(t@), tuple_flag(t@)) {
                (Some(x), Some(b)) => r.push(map_value_of(x, b, tuple_attrs(t@))),
                _ => r,
            },
            _ => r,
        }
    }
}

/// The capability markers of a `derive` tuple, `Default` left out; an element
/// that is not a plain name stands as an empty marker.
pub open spec fn derive_names(elems: Seq<AttrValue>) -> Seq<Seq<char>>
    decreases elems.len(),
{
    if elems.len() == 0 {
        Seq::empty()
    } else {
        let r = derive_names(elems.drop_last());
        match elems.last() {
            AttrValue::Ident(n) => if n@ == "Default"@ {
                r
            } else {
                r.push(n@)
            },
            _ => r.push(Seq::empty()),
        }
    }
}

/// The attributes of a new-field tuple: its last array among the third and
/// fourth elements.
pub open spec fn new_field_attrs(t: Seq<AttrValue>) -> Seq<Seq<char>> {
    if t.len() > 3 && t[3] is Array {
        attr_strings(t[3]->Array_0@)
    } else if t.len() > 2 && t[2] is Array {
        attr_strings(t[2]->Array_0@)
    } else {
        Seq::empty()
    }
}

/// Splits a `name:type` declaration (white space already removed).
pub open spec fn new_field_decl(decl: Seq<char>, expr: Seq<char>, attrs: Seq<Seq<char>>) -> Result<
    NewFieldV,
    ParseError,
> {
    let p = find_colon(decl);
    if count_colons(decl) != 1 {
        Err(ParseError::NewFieldColon)
    } else if p == 0 {
        Err(ParseError::NewFieldName)
    } else if p == decl.len() - 1 {
        Err(ParseError::NewFieldType)
    } else {
        Ok(
            NewFieldV {
                name: decl.subrange(0, p),
                ty: decl.subrange(p + 1, decl.len() as int),
                expr,
                attrs,
            },
        )
    }
}

/// A new-field tuple `("name: type", "expression"[, flag][, [attributes]])`;
/// `None` when its first two elements are not both strings.
pub open spec fn new_field_of(t: Seq<AttrValue>) -> Option<Result<NewFieldV, ParseError>> {
    if t.len() >= 2 && t[0] is Str && t[1] is Str {
        Some(new_field_decl(strip_ws(t[0]->Str_0@), t[1]->Str_0@, new_field_attrs(t)))
    } else {
        None
    }
}

/// The new fields of a `new_fields` array, or the first error among them.
pub open spec fn new_fields_of(elems: Seq<AttrValue>) -> Result<Seq<NewFieldV>, ParseError>
    decreases elems.len(),
{
    if elems.len() == 0 {
        Ok(Seq::empty())
    } else {
        match new_fields_of(elems.drop_last()) {
            Err(e) => Err(e),
            Ok(r) => match elems.last() {
                AttrValue::Tuple(t) => match new_field_of(t@) {
                    None => Ok(r),
                    Some(Err(e)) => Err(e),
                    Some(Ok(f)) => Ok(r.push(f)),
                },
                _ => Ok(r),
            },
        }
    }
}

pub open spec fn map_views(v: Vec<MapValue>) -> Seq<MapValueV> {
    v@.map_values(|m: MapValue| m@)
}

pub open spec fn new_field_views(v: Vec<NewField>) -> Seq<NewFieldV> {
    v@.map_values(|f: NewField| f@)
}

impl MapperEntry {
    /// The attribute strings of an array, each trimmed.
    fn parse_array_of_macro_attr(elems: &Vec<AttrValue>) -> (r: Vec<String>)
        ensures
            strs(r) == attr_strings(elems@),
    {
        let mut r: Vec<String> = Vec::new();
        let mut i: usize = 0;
        while i < elems.len()
            invariant
                i <= elems@.len(),
                strs(r) == attr_strings(elems@.subrange(0, i as int)),
            decreases elems@.len() - i,
        {
            assert(elems@.subrange(0, i + 1).drop_last() =~= elems@.subrange(0, i as int));
            Self::process_macro_attr(&mut r, &elems[i]);
            i = i + 1;
        }
        assert(elems@.subrange(0, i as int) =~= elems@);
        r
    }

    fn process_macro_attr(vec_array: &mut Vec<String>, elem: &AttrValue)
        ensures
            strs(*final(vec_array)) == match elem {
                AttrValue::Str(s) => strs(*old(vec_array)).push(trim(s@)),
                _ => strs(*old(vec_array)),
            },
    {
        if let AttrValue::Str(content) = elem {
            let ghost before = strs(*vec_array);
            vec_array.push(trim_text(content.as_str()));
            assert(strs(*vec_array) =~= before.push(trim(content@)));
        }
    }

    /// The string literals of an array, white space removed.
    fn parse_array_of_string(elems: &Vec<AttrValue>) -> (r: Vec<String>)
        ensures
            strs(r) == ignore_strings(elems@),
    {
        let mut r: Vec<String> = Vec::new();
        let mut i: usize = 0;
        while i < elems.len()
            invariant
                i <= elems@.len(),
                strs(r) == ignore_strings(elems@.subrange(0, i as int)),
            decreases elems@.len() - i,
        {
            assert(elems@.subrange(0, i + 1).drop_last() =~= elems@.subrange(0, i as int));
            if let AttrValue::Str(content) = &elems[i] {
                let ghost before = strs(r);
                r.push(remove_white_space(content));
                assert(strs(r) =~= before.push(strip_ws(content@)));
            }
            i = i + 1;
        }
        assert(elems@.subrange(0, i as int) =~= elems@);
        r
    }

    /// Reads the text, the flag and the attributes of one `map` tuple.
    fn parse_map_tuple(t: &Vec<AttrValue>) -> (r: (Option<String>, Option<bool>, Vec<String>))
        ensures
            opt_view(r.0) == tuple_text(t@),
            r.1 == tuple_flag(t@),
            strs(r.2) == tuple_attrs(t@),
    {
        let mut str_val: Option<String> = None;
        let mut flag: Option<bool> = None;
        let mut attrs: Vec<String> = Vec::new();
        assert(strs(attrs) =~= Seq::<Seq<char>>::empty());
        let mut i: usize = 0;
        while i < t.len()
            invariant
                i <= t@.len(),
                opt_view(str_val) == tuple_text(t@.subrange(0, i as int)),
                flag == tuple_flag(t@.subrange(0, i as int)),
                strs(attrs) == tuple_attrs(t@.subrange(0, i as int)),
            decreases t@.len() - i,
        {
            assert(t@.subrange(0, i + 1).drop_last() =~= t@.subrange(0, i as int));
            match &t[i] {
                AttrValue::Str(content) => {
                    str_val = Some(remove_white_space(content));
                },
                AttrValue::Bool(b) => {
                    flag = Some(*b);
                },
                AttrValue::Array(a) => {
                    attrs = Self::parse_array_of_macro_attr(a);
                },
                _ => {},
            }
            i = i + 1;
        }
        assert(t@.subrange(0, i as int) =~= t@);
        (str_val, flag, attrs)
    }

    /// The field rules of a `map` array.
    fn parse_array_of_tuple(elems: &Vec<AttrValue>) -> (r: Vec<MapValue>)
        ensures
            map_views(r) == map_rules(elems@),
    {
        let mut r: Vec<MapValue> = Vec::new();
        let mut i: usize = 0;
        assert(map_views(r) =~= map_rules(elems@.subrange(0, 0)));
        while i < elems.len()
            invariant
                i <= elems@.len(),
                map_views(r) == map_rules(elems@.subrange(0, i as int)),
            decreases elems@.len() - i,
        {
            assert(elems@.subrange(0, i + 1).drop_last() =~= elems@.subrange(0, i as int));
            if let AttrValue::Tuple(t) = &elems[i] {
                let (str_val, flag, attrs) = Self::parse_map_tuple(t);
                if let (Some(text), Some(b)) = (str_val, flag) {
                    let ghost before = map_views(r);
                    let tuple = (text, b, attrs);
                    r.push(MapValue::new(&tuple));
                    assert(map_views(r) =~= before.push(map_value_of(tuple.0@, b, strs(tuple.2))));
                }
            }
            i = i + 1;
        }
        assert(elems@.subrange(0, i as int) =~= elems@);
        r
    }

    /// Splits a `name:type` declaration and builds the new field.
    fn insert_next_field_value(
        vec_tuple: &mut Vec<NewField>,
        str_val: &String,
        field_decl: &String,
        attributes: Option<Vec<String>>,
    ) -> (r: Result<(), ParseError>)
        ensures
            match new_field_decl(
                field_decl@,
                str_val@,
                match attributes {
                    Some(a) => strs(a),
                    None => Seq::empty(),
                },
            ) {
                Ok(f) => r is Ok && new_field_views(*final(vec_tuple)) == new_field_views(
                    *old(vec_tuple),
                ).push(f),
                Err(e) => r == Err::<(), ParseError>(e) && *final(vec_tuple) == *old(vec_tuple),
            },
    {
        let d = field_decl.as_str();
        let n = d.unicode_len();
        if colon_count(d) != 1 {
            return Err(ParseError::NewFieldColon);
        }
        let p = colon_position(d);
        if p == 0 {
            return Err(ParseError::NewFieldName);
        }
        if p == n - 1 {
            return Err(ParseError::NewFieldType);
        }
        proof {
            lemma_colon_found(d@);
        }
        let ghost before = new_field_views(*vec_tuple);
        let f = NewField::new(d.substring_char(0, p), d.substring_char(p + 1, n), str_val.as_str(), attributes);
        vec_tuple.push(f);
        assert(new_field_views(*vec_tuple) =~= before.push(f@));
        Ok(())
    }

    /// Reads one new-field tuple and adds the field it declares.
    fn process_new_fields(vec_tuple: &mut Vec<NewField>, t: &Vec<AttrValue>) -> (r: Result<(), ParseError>)
        ensures
            match new_field_of(t@) {
                None => r is Ok && *final(vec_tuple) == *old(vec_tuple),
                Some(Ok(f)) => r is Ok && new_field_views(*final(vec_tuple)) == new_field_views(
                    *old(vec_tuple),
                ).push(f),
                Some(Err(e)) => r == Err::<(), ParseError>(e),
            },
    {
        if t.len() < 2 {
            return Ok(());
        }
        let decl = match &t[0] {
            AttrValue::Str(s) => remove_white_space(s),
            _ => {
                return Ok(());
            },
        };
        let expr = match &t[1] {
            AttrValue::Str(s) => s,
            _ => {
                return Ok(());
            },
        };
        let mut attributes: Vec<String> = Vec::new();
        assert(strs(attributes) =~= Seq::<Seq<char>>::empty());
        let last_array: usize = if t.len() > 3 && matches!(&t[3], AttrValue::Array(_)) {
            3
        } else {
            2
        };
        if t.len() > last_array {
            if let AttrValue::Array(a) = &t[last_array] {
                attributes = Self::parse_array_of_macro_attr(a);
            }
        }
        let ghost attrs = strs(attributes);
        assert(attrs == new_field_attrs(t@));
        let new_field_attr = if attributes.len() == 0 {
            assert(attrs =~= Seq::<Seq<char>>::empty());
            None
        } else {
            Some(attributes)
        };
        Self::insert_next_field_value(vec_tuple, expr, &decl, new_field_attr)
    }

    /// The new fields of a `new_fields` array, or the first error among them.
    fn parse_array_of_new_fields(elems: &Vec<AttrValue>) -> (r: Result<Vec<NewField>, ParseError>)
        ensures
            match (r, new_fields_of(elems@)) {
                (Ok(v), Ok(s)) => new_field_views(v) == s,
                (Err(a), Err(b)) => a == b,
                _ => false,
            },
    {
        let mut r: Vec<NewField> = Vec::new();
        let mut i: usize = 0;
        assert(new_field_views(r) =~= Seq::<NewFieldV>::empty());
        while i < elems.len()
            invariant
                i <= elems@.len(),
                new_fields_of(elems@.subrange(0, i as int)) == Ok::<Seq<NewFieldV>, ParseError>(
                    new_field_views(r),
                ),
            decreases elems@.len() - i,
        {
            assert(elems@.subrange(0, i + 1).drop_last() =~= elems@.subrange(0, i as int));
            if let AttrValue::Tuple(t) = &elems[i] {
                let res = Self::process_new_fields(&mut r, t);
                if let Err(e) = res {
                    proof {
                        lemma_new_fields_err_stays(elems@, i + 1, e);
                    }
                    return Err(e);
                }
            }
            i = i + 1;
        }
        assert(elems@.subrange(0, i as int) =~= elems@);
        Ok(r)
    }
}

/// Whether some text of `s` is blank.
pub open spec fn any_blank(s: Seq<Seq<char>>) -> bool {
    exists|i: int| 0 <= i < s.len() && blank(#[trigger] s[i])
}

pub open spec fn from_fields(m: Seq<MapValueV>) -> Seq<Seq<char>> {
    m.map_values(|v: MapValueV| v.from)
}

/// Two characters equal up to ASCII case.
pub open spec fn key_char_eq(x: char, y: char) -> bool {
    x == y || ('a' <= y && y <= 'z' && x as u32 + 32 == y as u32) || ('a' <= x && x <= 'z' && y
        as u32 + 32 == x as u32)
}

/// A key names a property when the two are equal up to ASCII case.
pub open spec fn key_is(k: Seq<char>, name: Seq<char>) -> bool {
    k.len() == name.len() && forall|i: int| 0 <= i < k.len() ==> key_char_eq(k[i], name[i])
}

/// A declaration as it stands part-way through its reading: the entry with
/// only the user's capability markers, and whether `dto` was given.
pub struct DraftV {
    pub entry: MapperEntryV,
    pub dto_seen: bool,
}

pub open spec fn empty_entry() -> MapperEntryV {
    MapperEntryV {
        dto: Seq::empty(),
        map: Seq::empty(),
        ignore: Seq::empty(),
        derive: Seq::empty(),
        no_builder: false,
        new_fields: Seq::empty(),
        exactly: false,
        macro_attr: Seq::empty(),
    }
}

/// What a literal value does to the draft.
pub open spec fn literal_step(d: DraftV, k: Seq<char>, v: AttrValue) -> DraftV {
    let e = d.entry;
    if key_is(k, "dto"@) {
        DraftV {
            entry: match v {
                AttrValue::Str(s) => MapperEntryV { dto: strip_ws(s@), ..e },
                _ => e,
            },
            dto_seen: true,
        }
    } else if key_is(k, "no_builder"@) && v is Bool {
        DraftV { entry: MapperEntryV { no_builder: v->Bool_0, ..e }, ..d }
    } else if key_is(k, "exactly"@) && v is Bool {
        DraftV { entry: MapperEntryV { exactly: v->Bool_0, ..e }, ..d }
    } else {
        d
    }
}

/// What an array value does to the draft.
pub open spec fn array_step(d: DraftV, k: Seq<char>, a: Seq<AttrValue>) -> Result<
    DraftV,
    ParseError,
> {
    let e = d.entry;
    if key_is(k, "map"@) {
        if any_blank(from_fields(map_rules(a))) {
            Err(ParseError::BlankMapField)
        } else {
            Ok(DraftV { entry: MapperEntryV { map: map_rules(a), ..e }, ..d })
        }
    } else if key_is(k, "new_fields"@) {
        match new_fields_of(a) {
            Err(x) => Err(x),
            Ok(f) => if f.len() == 0 {
                Err(ParseError::EmptyNewFields)
            } else {
                Ok(DraftV { entry: MapperEntryV { new_fields: f, ..e }, ..d })
            },
        }
    } else if key_is(k, "macro_attr"@) {
        if any_blank(e.macro_attr) {
            Err(ParseError::BlankMacroAttr)
        } else {
            Ok(DraftV { entry: MapperEntryV { macro_attr: attr_strings(a), ..e }, ..d })
        }
    } else if key_is(k, "ignore"@) {
        if any_blank(ignore_strings(a)) {
            Err(ParseError::BlankIgnore)
        } else {
            Ok(DraftV { entry: MapperEntryV { ignore: ignore_strings(a), ..e }, ..d })
        }
    } else {
        Ok(d)
    }
}

/// What one `key = value` pair does to the draft.
pub open spec fn step(d: DraftV, item: MetaItem) -> Result<DraftV, ParseError> {
    let k = strip_ws(item.key@);
    match item.value {
        AttrValue::Str(_) => Ok(literal_step(d, k, item.value)),
        AttrValue::Bool(_) => Ok(literal_step(d, k, item.value)),
        AttrValue::OtherLit => Ok(literal_step(d, k, item.value)),
        AttrValue::Array(a) => array_step(d, k, a@),
        AttrValue::Tuple(t) => if key_is(k, "derive"@) {
            Ok(
                DraftV {
                    entry: MapperEntryV { derive: d.entry.derive + derive_names(t@), ..d.entry },
                    ..d
                },
            )
        } else {
            Ok(d)
        },
        _ => Ok(d),
    }
}

/// The draft after the pairs of `items`, in order, or the first error.
pub open spec fn read_items(items: Seq<MetaItem>) -> Result<DraftV, ParseError>
    decreases items.len(),
{
    if items.len() == 0 {
        Ok(DraftV { entry: empty_entry(), dto_seen: false })
    } else {
        match read_items(items.drop_last()) {
            Err(e) => Err(e),
            Ok(d) => step(d, items.last()),
        }
    }
}

/// The capability markers of a finished entry: `Default` first, then the
/// builder marker unless `no_builder`, then the user's own.
pub open spec fn full_derive(no_builder: bool, user: Seq<Seq<char>>) -> Seq<Seq<char>> {
    seq!["Default"@] + (if no_builder {
        Seq::<Seq<char>>::empty()
    } else {
        seq!["Builder"@]
    }) + user
}

/// The entry that a declaration describes, or why it is refused.
pub open spec fn parse_entry(items: Seq<MetaItem>) -> Result<MapperEntryV, ParseError> {
    match read_items(items) {
        Err(e) => Err(e),
        Ok(d) => if !d.dto_seen {
            Err(ParseError::MissingDto)
        } else if blank(d.entry.dto) {
            Err(ParseError::BlankDto)
        } else {
            Ok(
                MapperEntryV {
                    derive: full_derive(d.entry.no_builder, d.entry.derive),
                    ..d.entry
                },
            )
        },
    }
}

/// Whether a key names the given property, up to ASCII case.
fn key_matches(key: &String, name: &str) -> (r: bool)
    ensures
        r == key_is(key@, name@),
{
    let k = key.as_str();
    let n = k.unicode_len();
    if n != name.unicode_len() {
        return false;
    }
    let mut i: usize = 0;
    while i < n
        invariant
            n == k@.len(),
            n == name@.len(),
            k@ == key@,
            i <= n,
            forall|m: int| 0 <= m < i ==> key_char_eq(k@[m], name@[m]),
        decreases n - i,
    {
        let x = k.get_char(i);
        let y = name.get_char(i);
        let same = x == y || ('a' <= y && y <= 'z' && x as u32 + 32 == y as u32) || ('a' <= x && x
            <= 'z' && y as u32 + 32 == x as u32);
        if !same {
            return false;
        }
        i = i + 1;
    }
    true
}

/// Whether some text of `v` is blank.
fn has_blank(v: &Vec<String>) -> (r: bool)
    ensures
        r == any_blank(strs(*v)),
{
    let mut i: usize = 0;
    while i < v.len()
        invariant
            i <= v@.len(),
            forall|m: int| 0 <= m < i ==> !blank(#[trigger] strs(*v)[m]),
        decreases v@.len() - i,
    {
        if isblank(&v[i]) {
            assert(blank(strs(*v)[i as int]));
            return true;
        }
        i = i + 1;
    }
    false
}

impl MapperEntry {
    /// An entry with nothing declared yet.
    fn empty() -> (r: MapperEntry)
        ensures
            r@ == empty_entry(),
    {
        let r = MapperEntry {
            dto: String::new(),
            map: Vec::new(),
            ignore: Vec::new(),
            derive: Vec::new(),
            no_builder: false,
            new_fields: Vec::new(),
            exactly: false,
            macro_attr: Vec::new(),
        };
        assert(r@.map =~= Seq::<MapValueV>::empty());
        assert(r@.ignore =~= Seq::<Seq<char>>::empty());
        assert(r@.derive =~= Seq::<Seq<char>>::empty());
        assert(r@.new_fields =~= Seq::<NewFieldV>::empty());
        assert(r@.macro_attr =~= Seq::<Seq<char>>::empty());
        assert(r@.dto =~= Seq::<char>::empty());
        r
    }

    fn parse_dto_attribute(mapper_entry: &mut MapperEntry, expr: &AttrValue)
        ensures
            final(mapper_entry)@ == match expr {
                AttrValue::Str(s) => MapperEntryV { dto: strip_ws(s@), ..old(mapper_entry)@ },
                _ => old(mapper_entry)@,
            },
    {
        if let AttrValue::Str(lit_str) = expr {
            mapper_entry.dto = remove_white_space(lit_str);
        }
    }

    fn parse_no_builder_attribute(mapper_entry: &mut MapperEntry, flag: bool)
        ensures
            final(mapper_entry)@ == (MapperEntryV { no_builder: flag, ..old(mapper_entry)@ }),
    {
        mapper_entry.no_builder = flag;
    }

    fn parse_exactly_attribute(mapper_entry: &mut MapperEntry, flag: bool)
        ensures
            final(mapper_entry)@ == (MapperEntryV { exactly: flag, ..old(mapper_entry)@ }),
    {
        mapper_entry.exactly = flag;
    }

    fn parse_derive_attribute(mapper_entry: &mut MapperEntry, elems: &Vec<AttrValue>)
        ensures
            final(mapper_entry)@ == (MapperEntryV {
                derive: old(mapper_entry)@.derive + derive_names(elems@),
                ..old(mapper_entry)@
            }),
    {
        proof {
            reveal_strlit("Default");
        }
        let default_name = String::from_str("Default");
        let ghost start = strs(mapper_entry.derive);
        let mut i: usize = 0;
        assert(start + derive_names(elems@.subrange(0, 0)) =~= start);
        while i < elems.len()
            invariant
                i <= elems@.len(),
                default_name@ == "Default"@,
                strs(mapper_entry.derive) == start + derive_names(elems@.subrange(0, i as int)),
                mapper_entry@ == (MapperEntryV { derive: strs(mapper_entry.derive), ..old(mapper_entry)@ }),
                start == old(mapper_entry)@.derive,
            decreases elems@.len() - i,
        {
            assert(elems@.subrange(0, i + 1).drop_last() =~= elems@.subrange(0, i as int));
            let ghost before = strs(mapper_entry.derive);
            match &elems[i] {
                AttrValue::Ident(name) => {
                    if !name.eq(&default_name) {
                        mapper_entry.derive.push(clone_text(name));
                        assert(strs(mapper_entry.derive) =~= before.push(name@));
                    }
                },
                _ => {
                    mapper_entry.derive.push(String::new());
                    assert(strs(mapper_entry.derive) =~= before.push(Seq::empty()));
                },
            }
            i = i + 1;
        }
        assert(elems@.subrange(0, i as int) =~= elems@);
    }

    fn parse_ignore_attribute(mapper_entry: &mut MapperEntry, elems: &Vec<AttrValue>) -> (r: Result<
        (),
        ParseError,
    >)
        ensures
            if any_blank(ignore_strings(elems@)) {
                r == Err::<(), ParseError>(ParseError::BlankIgnore)
            } else {
                r is Ok && final(mapper_entry)@ == (MapperEntryV {
                    ignore: ignore_strings(elems@),
                    ..old(mapper_entry)@
                })
            },
    {
        let ignore_arr = Self::parse_array_of_string(elems);
        if has_blank(&ignore_arr) {
            return Err(ParseError::BlankIgnore);
        }
        mapper_entry.ignore = ignore_arr;
        Ok(())
    }

    fn parse_new_fields_attribute(mapper_entry: &mut MapperEntry, elems: &Vec<AttrValue>) -> (r:
        Result<(), ParseError>)
        ensures
            match new_fields_of(elems@) {
                Err(e) => r == Err::<(), ParseError>(e),
                Ok(f) => if f.len() == 0 {
                    r == Err::<(), ParseError>(ParseError::EmptyNewFields)
                } else {
                    r is Ok && final(mapper_entry)@ == (MapperEntryV {
                        new_fields: f,
                        ..old(mapper_entry)@
                    })
                },
            },
    {
        let fields = Self::parse_array_of_new_fields(elems)?;
        if fields.len() == 0 {
            return Err(ParseError::EmptyNewFields);
        }
        mapper_entry.new_fields = fields;
        Ok(())
    }

    fn parse_macro_attr_attribute(mapper_entry: &mut MapperEntry, elems: &Vec<AttrValue>) -> (r:
        Result<(), ParseError>)
        ensures
            if any_blank(old(mapper_entry)@.macro_attr) {
                r == Err::<(), ParseError>(ParseError::BlankMacroAttr)
            } else {
                r is Ok && final(mapper_entry)@ == (MapperEntryV {
                    macro_attr: attr_strings(elems@),
                    ..old(mapper_entry)@
                })
            },
    {
        if has_blank(&mapper_entry.macro_attr) {
            return Err(ParseError::BlankMacroAttr);
        }
        mapper_entry.macro_attr = Self::parse_array_of_macro_attr(elems);
        Ok(())
    }

    fn parse_map_attribute(mapper_entry: &mut MapperEntry, elems: &Vec<AttrValue>) -> (r: Result<
        (),
        ParseError,
    >)
        ensures
            if any_blank(from_fields(map_rules(elems@))) {
                r == Err::<(), ParseError>(ParseError::BlankMapField)
            } else {
                r is Ok && final(mapper_entry)@ == (MapperEntryV {
                    map: map_rules(elems@),
                    ..old(mapper_entry)@
                })
            },
    {
        let map = Self::parse_array_of_tuple(elems);
        let mut i: usize = 0;
        while i < map.len()
            invariant
                i <= map@.len(),
                map_views(map) == map_rules(elems@),
                forall|m: int| 0 <= m < i ==> !blank(#[trigger] from_fields(map_views(map))[m]),
            decreases map@.len() - i,
        {
            if isblank(&map[i].from_field) {
                assert(blank(from_fields(map_views(map))[i as int]));
                return Err(ParseError::BlankMapField);
            }
            i = i + 1;
        }
        mapper_entry.map = map;
        Ok(())
    }

    /// Applies one `key = value` pair of a declaration to the entry read so far.
    fn apply_meta(mapper_entry: &mut MapperEntry, dto_seen: &mut bool, item: &MetaItem) -> (r:
        Result<(), ParseError>)
        ensures
            match step(DraftV { entry: old(mapper_entry)@, dto_seen: *old(dto_seen) }, *item) {
                Ok(d) => r is Ok && final(mapper_entry)@ == d.entry && *final(dto_seen)
                    == d.dto_seen,
                Err(e) => r == Err::<(), ParseError>(e),
            },
    {
        proof {
            reveal_strlit("dto");
            reveal_strlit("no_builder");
            reveal_strlit("exactly");
            reveal_strlit("map");
            reveal_strlit("new_fields");
            reveal_strlit("macro_attr");
            reveal_strlit("ignore");
            reveal_strlit("derive");
        }
        let keyname = remove_white_space(&item.key);
        match &item.value {
            AttrValue::Str(_) | AttrValue::Bool(_) | AttrValue::OtherLit => {
                if key_matches(&keyname, "dto") {
                    Self::parse_dto_attribute(mapper_entry, &item.value);
                    *dto_seen = true;
                } else if key_matches(&keyname, "no_builder") {
                    if let AttrValue::Bool(b) = &item.value {
                        Self::parse_no_builder_attribute(mapper_entry, *b);
                    }
                } else if key_matches(&keyname, "exactly") {
                    if let AttrValue::Bool(b) = &item.value {
                        Self::parse_exactly_attribute(mapper_entry, *b);
                    }
                }
                Ok(())
            },
            AttrValue::Array(a) => {
                if key_matches(&keyname, "map") {
                    Self::parse_map_attribute(mapper_entry, a)
                } else if key_matches(&keyname, "new_fields") {
                    Self::parse_new_fields_attribute(mapper_entry, a)
                } else if key_matches(&keyname, "macro_attr") {
                    Self::parse_macro_attr_attribute(mapper_entry, a)
                } else if key_matches(&keyname, "ignore") {
                    Self::parse_ignore_attribute(mapper_entry, a)
                } else {
                    Ok(())
                }
            },
            AttrValue::Tuple(t) => {
                if key_matches(&keyname, "derive") {
                    Self::parse_derive_attribute(mapper_entry, t);
                }
                Ok(())
            },
            _ => Ok(()),
        }
    }

    /// Reads one mapping declaration, given as its `key = value` pairs in
    /// order, into an entry; refuses it with the property at fault.
    pub fn build(items: &Vec<MetaItem>) -> (r: Result<MapperEntry, ParseError>)
        ensures
            match (r, parse_entry(items@)) {
                (Ok(e), Ok(v)) => e@ == v,
                (Err(a), Err(b)) => a == b,
                _ => false,
            },
    {
        let mut mapper_entry = MapperEntry::empty();
        let mut dto_seen = false;
        let mut i: usize = 0;
        while i < items.len()
            invariant
                i <= items@.len(),
                read_items(items@.subrange(0, i as int)) == Ok::<DraftV, ParseError>(
                    DraftV { entry: mapper_entry@, dto_seen },
                ),
            decreases items@.len() - i,
        {
            assert(items@.subrange(0, i + 1).drop_last() =~= items@.subrange(0, i as int));
            let res = Self::apply_meta(&mut mapper_entry, &mut dto_seen, &items[i]);
            if let Err(e) = res {
                proof {
                    lemma_read_err_stays(items@, i + 1, e);
                }
                return Err(e);
            }
            i = i + 1;
        }
        assert(items@.subrange(0, i as int) =~= items@);
        if !dto_seen {
            return Err(ParseError::MissingDto);
        }
        if isblank(&mapper_entry.dto) {
            return Err(ParseError::BlankDto);
        }
        proof {
            reveal_strlit("Default");
            reveal_strlit("Builder");
        }
        let mut derive: Vec<String> = Vec::new();
        derive.push(String::from_str("Default"));
        if !mapper_entry.no_builder {
            derive.push(String::from_str("Builder"));
        }
        let ghost head = strs(derive);
        assert(head =~= seq!["Default"@] + (if mapper_entry.no_builder {
            Seq::<Seq<char>>::empty()
        } else {
            seq!["Builder"@]
        }));
        let mut k: usize = 0;
        while k < mapper_entry.derive.len()
            invariant
                k <= mapper_entry.derive@.len(),
                strs(derive) == head + strs(mapper_entry.derive).subrange(0, k as int),
            decreases mapper_entry.derive@.len() - k,
        {
            let ghost before = strs(derive);
            derive.push(clone_text(&mapper_entry.derive[k]));
            assert(strs(derive) =~= before.push(mapper_entry.derive@[k as int]@));
            assert(strs(derive) =~= head + strs(mapper_entry.derive).subrange(0, k + 1));
            k = k + 1;
        }
        assert(strs(mapper_entry.derive).subrange(0, k as int) =~= strs(mapper_entry.derive));
        let ghost user = mapper_entry@;
        mapper_entry.derive = derive;
        assert(mapper_entry@ == (MapperEntryV {
            derive: full_derive(user.no_builder, user.derive),
            ..user
        }));
        Ok(mapper_entry)
    }
}

/// Once a pair is refused, the whole declaration is refused with that error.
pub proof fn lemma_read_err_stays(items: Seq<MetaItem>, k: int, e: ParseError)
    requires
        0 <= k <= items.len(),
        read_items(items.subrange(0, k)) == Err::<DraftV, ParseError>(e),
    ensures
        read_items(items) == Err::<DraftV, ParseError>(e),
    decreases items.len() - k,
{
    if k < items.len() {
        assert(items.subrange(0, k + 1).drop_last() =~= items.subrange(0, k));
        lemma_read_err_stays(items, k + 1, e);
    } else {
        assert(items.subrange(0, k) =~= items);
    }
}

/// Once an error is met among the new fields, it is the result of any longer
/// prefix too.
pub proof fn lemma_new_fields_err_stays(elems: Seq<AttrValue>, k: int, e: ParseError)
    requires
        0 <= k <= elems.len(),
        new_fields_of(elems.subrange(0, k)) == Err::<Seq<NewFieldV>, ParseError>(e),
    ensures
        new_fields_of(elems) == Err::<Seq<NewFieldV>, ParseError>(e),
    decreases elems.len() - k,
{
    if k < elems.len() {
        assert(elems.subrange(0, k + 1).drop_last() =~= elems.subrange(0, k));
        lemma_new_fields_err_stays(elems, k + 1, e);
    } else {
        assert(elems.subrange(0, k) =~= elems);
    }
}

/// Where no `:` is found, there is none to count.
proof fn lemma_colon_found(s: Seq<char>)
    ensures
        count_colons(s) > 0 ==> find_colon(s) < s.len(),
{
    if find_colon(s) >= s.len() {
        lemma_no_colon_before(s);
        lemma_count_none(s);
    }
}

proof fn lemma_no_colon_before(s: Seq<char>)
    ensures
        forall|j: int| 0 <= j < find_colon(s) && j < s.len() ==> s[j] != ':',
    decreases s.len(),
{
    if s.len() > 0 && s[0] != ':' {
        lemma_no_colon_before(s.drop_first());
        assert forall|j: int| 0 <= j < find_colon(s) && j < s.len() implies s[j] != ':' by {
            if j > 0 {
                assert(s[j] == s.drop_first()[j - 1]);
            }
        }
    }
}

proof fn lemma_count_none(s: Seq<char>)
    requires
        forall|j: int| 0 <= j < s.len() ==> s[j] != ':',
    ensures
        count_colons(s) == 0,
    decreases s.len(),
{
    if s.len() > 0 {
        lemma_count_none(s.drop_last());
    }
}

} // verus!
