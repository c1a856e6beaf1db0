//! JSON documents: a plain tree that the rest of the crate reads, and its
//! mathematical view.

use vstd::prelude::*;

use crate::text::{opt_str_view, str_eq};

verus! {

// ---------------------------------------------------------------------------
// The tree and its view
// ---------------------------------------------------------------------------

/// A number: what it is as an integer of either kind, and how it is written.
#[derive(Debug, PartialEq, Eq)]
pub struct JsonNumber {
    pub unsigned: Option<u64>,
    pub signed: Option<i64>,
    pub text: String,
}

/// A JSON document. The keys of an object stand in the order in which they are
/// walked.
#[derive(Debug, PartialEq, Eq)]
pub enum Json {
    Null,
    Bool(bool),
    Number(JsonNumber),
    Text(String),
    List(Vec<Json>),
    Object(Vec<(String, Json)>),
}

pub ghost struct NumberView {
    pub unsigned: Option<u64>,
    pub signed: Option<i64>,
    pub text: Seq<char>,
}

pub ghost enum JsonView {
    Null,
    Bool(bool),
    Number(NumberView),
    Text(Seq<char>),
    List(Seq<JsonView>),
    Object(Seq<(Seq<char>, JsonView)>),
}

impl Json {
    pub open spec fn view(&self) -> JsonView
        decreases self,
    {
        match self {
            Json::Null => JsonView::Null,
            Json::Bool(b) => JsonView::Bool(*b),
            Json::Number(n) => JsonView::Number(
                NumberView { unsigned: n.unsigned, signed: n.signed, text: n.text@ },
            ),
            Json::Text(s) => JsonView::Text(s@),
            Json::List(items) => JsonView::List(
                Seq::new(
                    items@.len(),
                    |i: int|
                        if 0 <= i < items@.len() {
                            items@[i].view()
                        } else {
                            JsonView::Null
                        },
                ),
            ),
            Json::Object(fields) => JsonView::Object(
                Seq::new(
                    fields@.len(),
                    |i: int|
                        if 0 <= i < fields@.len() {
                            (fields@[i].0@, fields@[i].1.view())
                        } else {
                            (Seq::empty(), JsonView::Null)
                        },
                ),
            ),
        }
    }
}

// ---------------------------------------------------------------------------
// Reading documents
// ---------------------------------------------------------------------------

/// `serde_json::Value`, carried from the parser to `lift`.
#[verifier::external_type_specification]
#[verifier::external_body]
pub struct ExValue(serde_json::Value);

/// What a `serde_json::Value` holds.
pub uninterp spec fn value_model(value: serde_json::Value) -> JsonView;

/// What `serde_json::from_str` reads: the document, or the message of its error.
pub uninterp spec fn json_document(text: Seq<char>) -> Result<JsonView, Seq<char>>;

/// What `serde_json::from_slice` reads: the document, or the message of its
/// error.
pub uninterp spec fn json_bytes(bytes: Seq<u8>) -> Result<JsonView, Seq<char>>;

/// `serde_json::from_str`, whose result is a function of the text alone.
#[verifier::external_body]
fn parse_value(text: &str) -> (r: Result<serde_json::Value, String>)
    ensures
        json_document(text@) == (match r {
            Ok(value) => Ok::<JsonView, Seq<char>>(value_model(value)),
            Err(message) => Err(message@),
        }),
{
    serde_json::from_str(text).map_err(|error| error.to_string())
}

/// `serde_json::from_slice`, whose result is a function of the bytes alone.
#[verifier::external_body]
fn parse_value_bytes(bytes: &[u8]) -> (r: Result<serde_json::Value, String>)
    ensures
        json_bytes(bytes@) == (match r {
            Ok(value) => Ok::<JsonView, Seq<char>>(value_model(value)),
            Err(message) => Err(message@),
        }),
{
    serde_json::from_slice(bytes).map_err(|error| error.to_string())
}

/// One level of a `serde_json::Value`.
enum Node<'a> {
    Null,
    Bool(bool),
    Number(Option<u64>, Option<i64>, String),
    Text(&'a String),
    List(&'a Vec<serde_json::Value>),
    Object(Vec<(&'a String, &'a serde_json::Value)>),
}

/// `node` is the top level of `model`.
spec fn is_top_level(node: Node, model: JsonView) -> bool {
    match (node, model) {
        (Node::Null, JsonView::Null) => true,
        (Node::Bool(a), JsonView::Bool(b)) => a == b,
        (Node::Number(unsigned, signed, text), JsonView::Number(n)) => n == (NumberView {
            unsigned,
            signed,
            text: text@,
        }),
        (Node::Text(a), JsonView::Text(b)) => a@ == b,
        (Node::List(items), JsonView::List(models)) => {
            &&& items@.len() == models.len()
            &&& forall|i: int| 0 <= i < models.len() ==> value_model(items@[i]) == #[trigger] models[i]
        },
        (Node::Object(fields), JsonView::Object(models)) => {
            &&& fields@.len() == models.len()
            &&& forall|i: int|
                0 <= i < models.len() ==> fields@[i].0@ == (#[trigger] models[i]).0
                    && value_model(*fields@[i].1) == models[i].1
        },
        _ => false,
    }
}

/// The variants of `serde_json::Value`, told apart. A number is handed out as
/// `Number::as_u64`, `Number::as_i64` and its `Display` text give it, an object
/// as the pairs of `Map::iter` in their order.
#[verifier::external_body]
fn top_level(value: &serde_json::Value) -> (node: Node<'_>)
    ensures
        is_top_level(node, value_model(*value)),
{
    match value {
        serde_json::Value::Null => Node::Null,
        serde_json::Value::Bool(b) => Node::Bool(*b),
        serde_json::Value::Number(n) => Node::Number(n.as_u64(), n.as_i64(), n.to_string()),
        serde_json::Value::String(s) => Node::Text(s),
        serde_json::Value::Array(items) => Node::List(items),
        serde_json::Value::Object(fields) => Node::Object(fields.iter().collect()),
    }
}

fn lift(value: &serde_json::Value) -> (r: Json)
    ensures
        r@ == value_model(*value),
    decreases value_model(*value),
{
    let ghost model = value_model(*value);
    match top_level(value) {
        Node::Null => Json::Null,
        Node::Bool(b) => Json::Bool(b),
        Node::Number(unsigned, signed, text) => Json::Number(JsonNumber { unsigned, signed, text }),
        Node::Text(s) => Json::Text(s.clone()),
        Node::List(items) => {
            let mut out: Vec<Json> = Vec::new();
            let mut i: usize = 0;
            let ghost models = model->List_0;
            while i < items.len()
                invariant
                    i <= items@.len(),
                    out@.len() == i,
                    model == value_model(*value),
                    model == JsonView::List(models),
                    items@.len() == models.len(),
                    forall|j: int|
                        0 <= j < models.len() ==> value_model(items@[j]) == #[trigger] models[j],
                    forall|j: int| 0 <= j < i ==> (#[trigger] out@[j])@ == models[j],
                decreases items@.len() - i,
            {
                assert(value_model(items@[i as int]) == models[i as int]);
                assert(decreases_to!(model => model->List_0));
                assert(decreases_to!(model->List_0 => model->List_0[i as int]));
                out.push(lift(&items[i]));
                i = i + 1;
            }
            let r = Json::List(out);
            assert(r@->List_0 =~= models);
            r
        },
        Node::Object(fields) => {
            let mut out: Vec<(String, Json)> = Vec::new();
            let mut i: usize = 0;
            let ghost models = model->Object_0;
            while i < fields.len()
                invariant
                    i <= fields@.len(),
                    out@.len() == i,
                    model == value_model(*value),
                    model == JsonView::Object(models),
                    fields@.len() == models.len(),
                    forall|j: int|
                        0 <= j < models.len() ==> fields@[j].0@ == (#[trigger] models[j]).0
                            && value_model(*fields@[j].1) == models[j].1,
                    forall|j: int|
                        0 <= j < i ==> (#[trigger] out@[j]).0@ == models[j].0 && out@[j].1@
                            == models[j].1,
                decreases fields@.len() - i,
            {
                assert(value_model(*fields@[i as int].1) == models[i as int].1);
                assert(decreases_to!(model => model->Object_0));
                assert(decreases_to!(model->Object_0 => model->Object_0[i as int]));
                assert(decreases_to!(model->Object_0[i as int] => model->Object_0[i as int].1));
                let key = fields[i].0.clone();
                let item = lift(fields[i].1);
                out.push((key, item));
                i = i + 1;
            }
            let r = Json::Object(out);
            assert(r@->Object_0 =~= models);
            r
        },
    }
}

pub open spec fn result_view(r: Result<Json, String>) -> Result<JsonView, Seq<char>> {
    match r {
        Ok(j) => Ok(j@),
        Err(message) => Err(message@),
    }
}

/// Reads a JSON document.
pub fn parse_json(text: &str) -> (r: Result<Json, String>)
    ensures
        result_view(r) == json_document(text@),
{
    match parse_value(text) {
        Ok(value) => Ok(lift(&value)),
        Err(message) => Err(message),
    }
}

/// Reads a JSON document from UTF-8 bytes.
pub fn parse_json_bytes(bytes: &[u8]) -> (r: Result<Json, String>)
    ensures
        result_view(r) == json_bytes(bytes@),
{
    match parse_value_bytes(bytes) {
        Ok(value) => Ok(lift(&value)),
        Err(message) => Err(message),
    }
}

// ---------------------------------------------------------------------------
// Looking into documents
// ---------------------------------------------------------------------------

/// The value of the first pair with this key.
pub open spec fn lookup(fields: Seq<(Seq<char>, JsonView)>, key: Seq<char>) -> Option<JsonView>
    decreases fields.len(),
{
    if fields.len() == 0 {
        None
    } else if fields[0].0 == key {
        Some(fields[0].1)
    } else {
        lookup(fields.drop_first(), key)
    }
}

/// The field of an object; nothing else has fields.
pub open spec fn field(v: JsonView, key: Seq<char>) -> Option<JsonView> {
    match v {
        JsonView::Object(fields) => lookup(fields, key),
        _ => None,
    }
}

/// A field of a value that may itself be missing.
pub open spec fn opt_field(v: Option<JsonView>, key: Seq<char>) -> Option<JsonView> {
    match v {
        Some(v) => field(v, key),
        None => None,
    }
}

pub open spec fn text_of(v: Option<JsonView>) -> Option<Seq<char>> {
    match v {
        Some(JsonView::Text(s)) => Some(s),
        _ => None,
    }
}

pub open spec fn unsigned_of(v: Option<JsonView>) -> Option<u64> {
    match v {
        Some(JsonView::Number(n)) => n.unsigned,
        _ => None,
    }
}

/// The items of a list; anything else has none.
pub open spec fn items_of(v: Option<JsonView>) -> Seq<JsonView> {
    match v {
        Some(JsonView::List(items)) => items,
        _ => Seq::empty(),
    }
}

pub open spec fn opt_json(v: Option<&Json>) -> Option<JsonView> {
    match v {
        Some(j) => Some(j@),
        None => None,
    }
}

impl Json {
    /// The field of an object with this key.
    pub fn get(&self, key: &str) -> (r: Option<&Json>)
        ensures
            opt_json(r) == field(self@, key@),
            r is Some <==> field(self@, key@) is Some,
    {
        match self {
            Json::Object(fields) => {
                let ghost model = self@->Object_0;
                let mut i: usize = 0;
                assert(model.skip(0) =~= model);
                while i < fields.len()
                    invariant
                        i <= fields@.len(),
                        *self == Json::Object(*fields),
                        model == self@->Object_0,
                        model.len() == fields@.len(),
                        lookup(model, key@) == lookup(model.skip(i as int), key@),
                    decreases fields@.len() - i,
                {
                    assert(model[i as int] == (fields@[i as int].0@, fields@[i as int].1@));
                    assert(model.skip(i as int)[0] == model[i as int]);
                    if str_eq(fields[i].0.as_str(), key) {
                        return Some(&fields[i].1);
                    }
                    assert(model.skip(i as int).drop_first() =~= model.skip(i + 1));
                    i = i + 1;
                }
                None
            },
            _ => None,
        }
    }

    pub fn as_str(&self) -> (r: Option<&str>)
        ensures
            opt_str_view(r) == text_of(Some(self@)),
            r is Some <==> text_of(Some(self@)) is Some,
    {
        match self {
            Json::Text(s) => Some(s.as_str()),
            _ => None,
        }
    }

    pub fn as_u64(&self) -> (r: Option<u64>)
        ensures
            r == unsigned_of(Some(self@)),
    {
        match self {
            Json::Number(n) => n.unsigned,
            _ => None,
        }
    }

    /// The items, where this is a list.
    pub fn as_list(&self) -> (r: Option<&Vec<Json>>)
        ensures
            match r {
                Some(items) => self@ matches JsonView::List(models) && models.len() == items@.len()
                    && forall|i: int| 0 <= i < items@.len() ==> (#[trigger] items@[i])@ == models[i],
                None => !(self@ is List),
            },
    {
        match self {
            Json::List(items) => {
                assert forall|i: int| 0 <= i < items@.len() implies (#[trigger] items@[i])@
                    == self@->List_0[i] by {}
                Some(items)
            },
            _ => None,
        }
    }

    /// The pairs, where this is an object.
    pub fn as_object(&self) -> (r: Option<&Vec<(String, Json)>>)
        ensures
            match r {
                Some(fields) => self@ matches JsonView::Object(models) && models.len()
                    == fields@.len() && forall|i: int|
                    0 <= i < fields@.len() ==> models[i] == ((#[trigger] fields@[i]).0@, fields@[i].1@),
                None => !(self@ is Object),
            },
    {
        match self {
            Json::Object(fields) => {
                assert forall|i: int| 0 <= i < fields@.len() implies self@->Object_0[i] == (
                    (#[trigger] fields@[i]).0@,
                    fields@[i].1@,
                ) by {}
                Some(fields)
            },
            _ => None,
        }
    }

    pub fn is_object(&self) -> (r: bool)
        ensures
            r == (self@ is Object),
    {
        match self {
            Json::Object(_) => true,
            _ => false,
        }
    }
}

/// The field of a value that may itself be missing.
pub fn get_opt<'a>(value: Option<&'a Json>, key: &str) -> (r: Option<&'a Json>)
    ensures
        opt_json(r) == opt_field(opt_json(value), key@),
{
    match value {
        Some(j) => j.get(key),
        None => None,
    }
}

/// The text of a value that may be missing.
pub fn str_opt<'a>(value: Option<&'a Json>) -> (r: Option<&'a str>)
    ensures
        opt_str_view(r) == text_of(opt_json(value)),
{
    match value {
        Some(j) => j.as_str(),
        None => None,
    }
}

// ---------------------------------------------------------------------------
// Writing strings
// ---------------------------------------------------------------------------

pub open spec fn hex_digit(n: int) -> char {
    if n < 10 {
        (n + 48) as char
    } else {
        (n + 87) as char
    }
}

/// How one character of a JSON string is written.
pub open spec fn escaped(c: char) -> Seq<char> {
    if c == '"' {
        seq!['\\', '"']
    } else if c == '\\' {
        seq!['\\', '\\']
    } else if c == '\n' {
        seq!['\\', 'n']
    } else if c == '\r' {
        seq!['\\', 'r']
    } else if c == '\t' {
        seq!['\\', 't']
    } else if c as u32 == 8 {
        seq!['\\', 'b']
    } else if c as u32 == 12 {
        seq!['\\', 'f']
    } else if (c as u32) < 32 {
        seq!['\\', 'u', '0', '0', hex_digit(c as int / 16), hex_digit(c as int % 16)]
    } else {
        seq![c]
    }
}

pub open spec fn escaped_all(s: Seq<char>) -> Seq<char>
    decreases s.len(),
{
    if s.len() == 0 {
        Seq::empty()
    } else {
        escaped(s[0]) + escaped_all(s.drop_first())
    }
}

/// A string as JSON writes it.
pub open spec fn quoted(s: Seq<char>) -> Seq<char> {
    seq!['"'] + escaped_all(s) + seq!['"']
}

/// `serde_json::to_string` on a string: between double quotes, with the quote,
/// the backslash and the control characters below U+0020 escaped.
#[verifier::external_body]
pub(crate) fn quote_json(s: &str) -> (r: String)
    ensures
        r@ == quoted(s@),
{
    serde_json::to_string(s).expect("a string has a JSON form")
}

// ---------------------------------------------------------------------------
// What documents hold
// ---------------------------------------------------------------------------

/// A field is found under its name, the first of them counting, in objects alone; texts,
/// numbers and lists are told where they are that.
pub proof fn fields_are_found_by_name(
    fields: Seq<(Seq<char>, JsonView)>,
    key: Seq<char>,
    value: JsonView,
    other: Seq<char>,
)
    ensures
        field(JsonView::Object(seq![(key, value)] + fields), key) == Some(value),
        other != key ==> field(JsonView::Object(seq![(other, value)] + fields), key) == field(
            JsonView::Object(fields),
            key,
        ),
        field(JsonView::Object(Seq::empty()), key) is None,
        !(value is Object) ==> field(value, key) is None,
        opt_field(Some(value), key) == field(value, key),
        opt_field(None, key) is None,
        text_of(Some(JsonView::Text(key))) == Some(key),
        !(value is Text) ==> text_of(Some(value)) is None,
        (value matches JsonView::Number(n)) ==> unsigned_of(Some(value))
            == value->Number_0.unsigned,
        !(value is Number) ==> unsigned_of(Some(value)) is None,
        (value matches JsonView::List(items)) ==> items_of(Some(value)) == value->List_0,
        !(value is List) ==> items_of(Some(value)).len() == 0,
{
    let all = seq![(key, value)] + fields;
    assert(all[0] == (key, value));
    let more = seq![(other, value)] + fields;
    assert(more[0] == (other, value));
    assert(more.drop_first() =~= fields);
}

/// A text stands between quotes, what would end it or break its line being marked.
pub proof fn texts_stand_between_quotes(s: Seq<char>, c: char)
    ensures
        quoted(s)[0] == '"' && quoted(s).last() == '"',
        quoted(Seq::empty()) == seq!['"', '"'],
        escaped_all(s.push(c)) == escaped_all(s) + escaped(c),
        escaped('"') == seq!['\\', '"'],
        escaped('\\') == seq!['\\', '\\'],
        escaped('\n') == seq!['\\', 'n'],
        escaped('\r') == seq!['\\', 'r'],
        escaped('\t') == seq!['\\', 't'],
        ' ' <= c && c != '"' && c != '\\' ==> escaped(c) == seq![c],
        c < ' ' ==> escaped(c)[0] == '\\' && (escaped(c).len() == 2 || escaped(c).len() == 6),
        hex_digit(0) == '0' && hex_digit(9) == '9' && hex_digit(10) == 'a' && hex_digit(15) == 'f',
    decreases s.len(),
{
    assert(quoted(Seq::empty()) =~= seq!['"', '"']);
    if s.len() > 0 {
        texts_stand_between_quotes(s.drop_first(), c);
        assert(s.push(c).drop_first() =~= s.drop_first().push(c));
        assert(s.push(c)[0] == s[0]);
        assert(escaped_all(s.push(c)) =~= escaped_all(s) + escaped(c));
    } else {
        assert(s.push(c).drop_first() =~= Seq::empty());
        assert(escaped_all(s.push(c)) =~= escaped_all(s) + escaped(c));
    }
}

} // verus!
