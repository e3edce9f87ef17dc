use serde_json::Value;
use vstd::prelude::*;

verus! {

#[verifier::external_type_specification]
#[verifier::external_body]
pub struct ExJsonError(serde_json::Error);

#[verifier::external_type_specification]
#[verifier::external_body]
pub struct ExJsonValue(serde_json::Value);

/// A JSON document. A number is kept as the text that stands for it; the
/// members of an object are kept in the order in which the parser hands them
/// out.
pub enum Json {
    Null,
    Bool(bool),
    Number(String),
    Text(String),
    List(Vec<Json>),
    Object(Vec<Member>),
}

/// A member of a JSON object.
pub struct Member {
    pub name: String,
    pub value: Json,
}

pub enum JsonDoc {
    Null,
    Bool(bool),
    Number(Seq<char>),
    Text(Seq<char>),
    List(Seq<JsonDoc>),
    Object(Seq<(Seq<char>, JsonDoc)>),
}

impl View for Json {
    type V = JsonDoc;

    open spec fn view(&self) -> JsonDoc
        decreases self,
    {
        match self {
            Json::Null => JsonDoc::Null,
            Json::Bool(b) => JsonDoc::Bool(*b),
            Json::Number(n) => JsonDoc::Number(n@),
            Json::Text(s) => JsonDoc::Text(s@),
            Json::List(items) => JsonDoc::List(
                Seq::new(
                    items@.len(),
                    |i: int|
                        if 0 <= i < items@.len() {
                            items@[i]@
                        } else {
                            JsonDoc::Null
                        },
                ),
            ),
            Json::Object(members) => JsonDoc::Object(
                Seq::new(
                    members@.len(),
                    |i: int|
                        if 0 <= i < members@.len() {
                            (members@[i].name@, members@[i].value@)
                        } else {
                            (Seq::<char>::empty(), JsonDoc::Null)
                        },
                ),
            ),
        }
    }
}

/// What is written as JSON: a string, an array of strings, or an array
/// of arrays of strings.
pub enum JsonOut {
    Text(String),
    Texts(Vec<String>),
    Rows(Vec<Vec<String>>),
}

pub enum JsonOutView {
    Text(Seq<char>),
    Texts(Seq<Seq<char>>),
    Rows(Seq<Seq<Seq<char>>>),
}

impl View for JsonOut {
    type V = JsonOutView;

    open spec fn view(&self) -> JsonOutView {
        match self {
            JsonOut::Text(text) => JsonOutView::Text(text@),
            JsonOut::Texts(texts) => JsonOutView::Texts(string_views(texts@)),
            JsonOut::Rows(rows) => JsonOutView::Rows(row_views(rows@)),
        }
    }
}

#[derive(Clone, Copy, Debug, PartialEq, Eq, Structural)]
pub enum JsonError {
    /// The text is not a JSON document.
    Malformed,
    /// The document is not an object.
    NotAnObject,
}

pub open spec fn string_views(texts: Seq<String>) -> Seq<Seq<char>> {
    texts.map_values(|t: String| t@)
}

pub open spec fn row_views(rows: Seq<Vec<String>>) -> Seq<Seq<Seq<char>>> {
    rows.map_values(|r: Vec<String>| string_views(r@))
}

pub open spec fn string_pair_views(pairs: Seq<(String, String)>) -> Seq<(Seq<char>, Seq<char>)> {
    pairs.map_values(|p: (String, String)| (p.0@, p.1@))
}

/// The document that serde_json reads from `text`, where it reads one.
pub uninterp spec fn json_document(text: Seq<char>) -> Option<JsonDoc>;

/// The compact JSON text that serde_json writes for a value.
pub uninterp spec fn json_text(value: JsonOutView) -> Seq<char>;

/// Turns a `serde_json::Value` into a `Json`, variant by variant. Nothing is
/// claimed of the result here: `parse_json` names what it hands out.
#[verifier::external_body]
fn json_of(value: &Value) -> Json {
    match value {
        Value::Null => Json::Null,
        Value::Bool(b) => Json::Bool(*b),
        Value::Number(n) => Json::Number(n.to_string()),
        Value::String(s) => Json::Text(s.clone()),
        Value::Array(items) => Json::List(items.iter().map(json_of).collect()),
        Value::Object(members) => Json::Object(
            members.iter().map(|(k, v)| Member { name: k.clone(), value: json_of(v) }).collect(),
        ),
    }
}

/// Reads `text` with `serde_json::from_str` into a `serde_json::Value`.
///
/// Not proved: that the same text always gives the same document, which
/// `json_document` names. The error of serde_json comes back as it is.
#[verifier::external_body]
pub(crate) fn parse_json(text: &str) -> (r: Result<Json, serde_json::Error>)
    ensures
        r is Ok <==> json_document(text@) is Some,
        r matches Ok(doc) ==> json_document(text@) == Some(doc@),
{
    match serde_json::from_str::<Value>(text) {
        Ok(value) => Ok(json_of(&value)),
        Err(e) => Err(e),
    }
}

/// Writes a value as JSON text: the value is handed to `serde_json::Value`
/// by its `From`, and written by its `to_string`.
///
/// Not proved: that the same value always gives the same text, which
/// `json_text` names.
#[verifier::external_body]
pub(crate) fn write_json(value: &JsonOut) -> (r: String)
    ensures
        r@ == json_text(value@),
{
    let value = match value {
        JsonOut::Text(text) => Value::from(text.as_str()),
        JsonOut::Texts(texts) => Value::from(texts.clone()),
        JsonOut::Rows(rows) => Value::from(
            rows.iter().map(|row| Value::from(row.clone())).collect::<Vec<Value>>(),
        ),
    };
    value.to_string()
}

/// Copies of these strings, in their order.
pub fn clone_strings(texts: &Vec<String>) -> (out: Vec<String>)
    ensures
        string_views(out@) == string_views(texts@),
{
    let mut out: Vec<String> = Vec::new();
    let mut i: usize = 0;
    while i < texts.len()
        invariant
            i <= texts.len(),
            string_views(out@) == string_views(texts@.take(i as int)),
        decreases texts.len() - i,
    {
        let ghost before = out@;
        out.push(texts[i].clone());
        proof {
            assert(string_views(out@) == string_views(before).push(texts@[i as int]@));
            assert(string_views(texts@.take(i + 1)) == string_views(texts@.take(i as int)).push(
                texts@[i as int]@,
            ));
        }
        i += 1;
    }
    proof {
        assert(texts@.take(i as int) == texts@);
    }
    out
}

/// The JSON text for one string.
pub open spec fn json_text_of_string(item: Seq<char>) -> Seq<char> {
    json_text(JsonOutView::Text(item))
}

/// The JSON text for an array of strings.
pub open spec fn json_text_of_strings(items: Seq<Seq<char>>) -> Seq<char> {
    json_text(JsonOutView::Texts(items))
}

/// The JSON text for an array of arrays of strings.
pub open spec fn json_text_of_rows(rows: Seq<Seq<Seq<char>>>) -> Seq<char> {
    json_text(JsonOutView::Rows(rows))
}

/// Writes one string as JSON text.
pub fn string_to_json(item: &str) -> (r: String)
    ensures
        r@ == json_text_of_string(item@),
{
    write_json(&JsonOut::Text(item.to_owned()))
}

/// Writes an array of strings as JSON text.
pub fn strings_to_json(items: Vec<String>) -> (r: String)
    ensures
        r@ == json_text_of_strings(string_views(items@)),
{
    write_json(&JsonOut::Texts(items))
}

/// Writes an array of arrays of strings as JSON text.
pub fn rows_to_json(rows: Vec<Vec<String>>) -> (r: String)
    ensures
        r@ == json_text_of_rows(row_views(rows@)),
{
    write_json(&JsonOut::Rows(rows))
}

/// The member of an object that goes by `name`: the first, should the name
/// occur more than once.
pub open spec fn member_of(members: Seq<(Seq<char>, JsonDoc)>, name: Seq<char>) -> Option<JsonDoc>
    decreases members.len(),
{
    if members.len() == 0 {
        None
    } else if members[0].0 == name {
        Some(members[0].1)
    } else {
        member_of(members.drop_first(), name)
    }
}

/// The strings of a list, where the list holds nothing but strings.
pub open spec fn texts_of(items: Seq<JsonDoc>) -> Option<Seq<Seq<char>>>
    decreases items.len(),
{
    if items.len() == 0 {
        Some(Seq::empty())
    } else {
        match (texts_of(items.drop_last()), items.last()) {
            (Some(init), JsonDoc::Text(t)) => Some(init.push(t)),
            _ => None,
        }
    }
}

/// The members of an object whose value is a string, each with its name.
pub open spec fn text_members(members: Seq<(Seq<char>, JsonDoc)>) -> Seq<(Seq<char>, Seq<char>)>
    decreases members.len(),
{
    if members.len() == 0 {
        Seq::empty()
    } else {
        match members.last().1 {
            JsonDoc::Text(t) => text_members(members.drop_last()).push((members.last().0, t)),
            _ => text_members(members.drop_last()),
        }
    }
}

impl Json {
    /// The members of an object; `None` for any other document.
    pub fn members(&self) -> (r: Option<&Vec<Member>>)
        ensures
            match r {
                Some(members) => *self == Json::Object(*members),
                None => !(self is Object),
            },
    {
        match self {
            Json::Object(members) => Some(members),
            _ => None,
        }
    }

    /// The string that the document is; `None` for any other document.
    pub fn as_text(&self) -> (r: Option<&String>)
        ensures
            match r {
                Some(t) => self@ == JsonDoc::Text(t@),
                None => !(self@ is Text),
            },
    {
        match self {
            Json::Text(t) => Some(t),
            _ => None,
        }
    }

    /// The strings of a list that holds nothing but strings; `None` for any
    /// other document.
    pub fn as_texts(&self) -> (r: Option<Vec<String>>)
        ensures
            match self@ {
                JsonDoc::List(items) => match r {
                    Some(texts) => texts_of(items) == Some(string_views(texts@)),
                    None => texts_of(items) is None,
                },
                _ => r is None,
            },
    {
        match self {
            Json::List(items) => {
                let ghost docs = json_views(items@);
                let mut texts: Vec<String> = Vec::new();
                let mut i: usize = 0;
                proof {
                    lemma_list_view(*items);
                    assert(docs.take(0) == Seq::<JsonDoc>::empty());
                }
                while i < items.len()
                    invariant
                        i <= items.len(),
                        docs == json_views(items@),
                        self@ == JsonDoc::List(docs),
                        texts_of(docs.take(i as int)) == Some(string_views(texts@)),
                    decreases items.len() - i,
                {
                    let ghost before = texts@;
                    proof {
                        assert(docs.take(i + 1).drop_last() == docs.take(i as int));
                        assert(docs.take(i + 1).last() == items@[i as int]@);
                    }
                    match &items[i] {
                        Json::Text(t) => {
                            texts.push(t.clone());
                            proof {
                                assert(string_views(texts@) == string_views(before).push(t@));
                            }
                        },
                        _ => {
                            proof {
                                assert(!(items@[i as int]@ is Text));
                                assert(!(docs.take(i + 1).last() is Text));
                                assert(texts_of(docs.take(i + 1)) is None);
                                lemma_texts_of_prefix(docs, i + 1);
                            }
                            return None;
                        },
                    }
                    i += 1;
                }
                proof {
                    assert(docs.take(i as int) == docs);
                }
                Some(texts)
            },
            _ => None,
        }
    }
}

/// A list holds nothing but strings only if each of its beginnings does.
pub proof fn lemma_texts_of_prefix(items: Seq<JsonDoc>, n: int)
    requires
        0 <= n <= items.len(),
        texts_of(items.take(n)) is None,
    ensures
        texts_of(items) is None,
    decreases items.len(),
{
    if n < items.len() {
        assert(items.drop_last().take(n) == items.take(n));
        lemma_texts_of_prefix(items.drop_last(), n);
    } else {
        assert(items.take(n) == items);
    }
}

/// What the members of an object stand for, one by one.
pub open spec fn member_views(members: Seq<Member>) -> Seq<(Seq<char>, JsonDoc)> {
    Seq::new(members.len(), |i: int| (members[i].name@, members[i].value@))
}

pub open spec fn json_views(items: Seq<Json>) -> Seq<JsonDoc> {
    Seq::new(items.len(), |i: int| items[i]@)
}

/// An object stands for what its members stand for, in their order.
pub proof fn lemma_object_view(members: Vec<Member>)
    ensures
        (Json::Object(members))@ == JsonDoc::Object(member_views(members@)),
{
    reveal_with_fuel(<Json as View>::view, 2);
    assert((Json::Object(members))@->Object_0 =~= member_views(members@));
}

/// A list stands for what its items stand for, in their order.
pub proof fn lemma_list_view(items: Vec<Json>)
    ensures
        (Json::List(items))@ == JsonDoc::List(json_views(items@)),
{
    reveal_with_fuel(<Json as View>::view, 2);
    assert((Json::List(items))@->List_0 =~= json_views(items@));
}

/// Looks up the member that goes by `name`.
pub fn find_member<'a>(members: &'a Vec<Member>, name: &str) -> (r: Option<&'a Json>)
    ensures
        match r {
            Some(value) => member_of(member_views(members@), name@) == Some(value@),
            None => member_of(member_views(members@), name@) is None,
        },
{
    let ghost docs = member_views(members@);
    let wanted = name.to_owned();
    let mut i: usize = 0;
    proof {
        assert(docs.skip(0) == docs);
    }
    while i < members.len()
        invariant
            i <= members.len(),
            wanted@ == name@,
            docs == member_views(members@),
            member_of(docs, name@) == member_of(docs.skip(i as int), name@),
        decreases members.len() - i,
    {
        proof {
            assert(docs.skip(i as int).drop_first() == docs.skip(i + 1));
            assert(docs.skip(i as int)[0] == docs[i as int]);
        }
        if members[i].name == wanted {
            return Some(&members[i].value);
        }
        i += 1;
    }
    None
}

/// The members whose value is a string, each with its name, in the order of
/// the object.
pub fn collect_text_members(members: &Vec<Member>) -> (r: Vec<(String, String)>)
    ensures
        string_pair_views(r@) == text_members(member_views(members@)),
{
    let ghost docs = member_views(members@);
    let mut out: Vec<(String, String)> = Vec::new();
    let mut i: usize = 0;
    proof {
        assert(docs.take(0) == Seq::<(Seq<char>, JsonDoc)>::empty());
    }
    while i < members.len()
        invariant
            i <= members.len(),
            docs == member_views(members@),
            string_pair_views(out@) == text_members(docs.take(i as int)),
        decreases members.len() - i,
    {
        let ghost before = out@;
        proof {
            assert(docs.take(i + 1).drop_last() == docs.take(i as int));
            assert(docs.take(i + 1).last() == docs[i as int]);
        }
        match &members[i].value {
            Json::Text(t) => {
                out.push((members[i].name.clone(), t.clone()));
                proof {
                    assert(string_pair_views(out@) == string_pair_views(before).push(
                        (members@[i as int].name@, t@),
                    ));
                }
            },
            _ => {},
        }
        i += 1;
    }
    proof {
        assert(docs.take(i as int) == docs);
    }
    out
}

/// The member of a document that goes by `name`; a document that is no
/// object has no members.
pub open spec fn field(doc: JsonDoc, name: Seq<char>) -> Option<JsonDoc> {
    match doc {
        JsonDoc::Object(members) => member_of(members, name),
        _ => None,
    }
}

/// The string under `name`; a member of another kind counts as absent.
pub open spec fn text_field(doc: JsonDoc, name: Seq<char>) -> Option<Seq<char>> {
    match field(doc, name) {
        Some(JsonDoc::Text(t)) => Some(t),
        _ => None,
    }
}

/// The truth value under `name`; a member of another kind counts as absent.
pub open spec fn bool_field(doc: JsonDoc, name: Seq<char>) -> Option<bool> {
    match field(doc, name) {
        Some(JsonDoc::Bool(b)) => Some(b),
        _ => None,
    }
}

/// The object under `name`; a member of another kind counts as absent.
pub open spec fn object_field(doc: JsonDoc, name: Seq<char>) -> Option<JsonDoc> {
    match field(doc, name) {
        Some(JsonDoc::Object(members)) => Some(JsonDoc::Object(members)),
        _ => None,
    }
}

/// The list under `name`; a member of another kind counts as absent.
pub open spec fn list_field(doc: JsonDoc, name: Seq<char>) -> Option<Seq<JsonDoc>> {
    match field(doc, name) {
        Some(JsonDoc::List(items)) => Some(items),
        _ => None,
    }
}

/// The digit that a character is.
pub open spec fn digit_value(c: char) -> Option<nat> {
    if '0' <= c <= '9' {
        Some((c as nat - '0' as nat) as nat)
    } else {
        None
    }
}

/// The number that a run of decimal digits writes; `None` for the empty
/// text and for a text that holds anything but digits.
pub open spec fn natural_of(s: Seq<char>) -> Option<nat>
    decreases s.len(),
{
    if s.len() == 0 {
        None
    } else if s.len() == 1 {
        digit_value(s[0])
    } else {
        match (natural_of(s.drop_last()), digit_value(s.last())) {
            (Some(high), Some(low)) => Some(high * 10 + low),
            _ => None,
        }
    }
}

/// The whole number that a text writes: decimal digits, with a minus sign
/// before them for a number under zero.
pub open spec fn integer_of(s: Seq<char>) -> Option<int> {
    if s.len() > 0 && s[0] == '-' {
        match natural_of(s.skip(1)) {
            Some(n) => Some(-(n as int)),
            None => None,
        }
    } else {
        match natural_of(s) {
            Some(n) => Some(n as int),
            None => None,
        }
    }
}

/// The whole number under `name`, where it fits 64 bits; a member of
/// another kind, a fraction and a number too large count as absent.
pub open spec fn i64_field(doc: JsonDoc, name: Seq<char>) -> Option<i64> {
    match field(doc, name) {
        Some(JsonDoc::Number(text)) => match integer_of(text) {
            Some(v) => if i64::MIN <= v <= i64::MAX {
                Some(v as i64)
            } else {
                None
            },
            None => None,
        },
        _ => None,
    }
}

/// A run of digits writes a number no smaller than any of its beginnings
/// writes.
pub proof fn lemma_natural_grows(s: Seq<char>, k: int)
    requires
        1 <= k <= s.len(),
        natural_of(s) is Some,
    ensures
        natural_of(s.take(k)) is Some,
        natural_of(s.take(k))->0 <= natural_of(s)->0,
    decreases s.len(),
{
    if k == s.len() {
        assert(s.take(k) == s);
    } else {
        assert(s.drop_last().take(k) == s.take(k));
        lemma_natural_grows(s.drop_last(), k);
    }
}

/// Looks up the member of a document that goes by `name`.
pub fn get_field<'a>(doc: &'a Json, name: &str) -> (r: Option<&'a Json>)
    ensures
        match r {
            Some(value) => field(doc@, name@) == Some(value@),
            None => field(doc@, name@) is None,
        },
{
    match doc {
        Json::Object(members) => {
            proof {
                lemma_object_view(*members);
            }
            find_member(members, name)
        },
        _ => None,
    }
}

/// The string under `name`.
pub fn get_text(doc: &Json, name: &str) -> (r: Option<String>)
    ensures
        crate::text::opt_view(r) == text_field(doc@, name@),
{
    match get_field(doc, name) {
        Some(Json::Text(t)) => Some(t.clone()),
        _ => None,
    }
}

/// The truth value under `name`.
pub fn get_bool(doc: &Json, name: &str) -> (r: Option<bool>)
    ensures
        r == bool_field(doc@, name@),
{
    match get_field(doc, name) {
        Some(Json::Bool(b)) => Some(*b),
        _ => None,
    }
}

/// The object under `name`.
pub fn get_object<'a>(doc: &'a Json, name: &str) -> (r: Option<&'a Json>)
    ensures
        match r {
            Some(value) => object_field(doc@, name@) == Some(value@),
            None => object_field(doc@, name@) is None,
        },
{
    match get_field(doc, name) {
        Some(value) => match value {
            Json::Object(members) => {
                proof {
                    lemma_object_view(*members);
                }
                Some(value)
            },
            _ => None,
        },
        None => None,
    }
}

/// The list under `name`.
pub fn get_list<'a>(doc: &'a Json, name: &str) -> (r: Option<&'a Vec<Json>>)
    ensures
        match r {
            Some(items) => list_field(doc@, name@) == Some(json_views(items@)),
            None => list_field(doc@, name@) is None,
        },
{
    match get_field(doc, name) {
        Some(Json::List(items)) => {
            proof {
                lemma_list_view(*items);
            }
            Some(items)
        },
        _ => None,
    }
}

fn digit_at(c: char) -> (r: Option<u64>)
    ensures
        match r {
            Some(d) => digit_value(c) == Some(d as nat) && d <= 9,
            None => digit_value(c) is None,
        },
{
    if c == '0' {
        Some(0)
    } else if c == '1' {
        Some(1)
    } else if c == '2' {
        Some(2)
    } else if c == '3' {
        Some(3)
    } else if c == '4' {
        Some(4)
    } else if c == '5' {
        Some(5)
    } else if c == '6' {
        Some(6)
    } else if c == '7' {
        Some(7)
    } else if c == '8' {
        Some(8)
    } else if c == '9' {
        Some(9)
    } else {
        None
    }
}

/// Reads the digits of `chars` from `from` on as a number up to `limit`.
fn read_natural(chars: &Vec<char>, from: usize, limit: u64) -> (r: Option<u64>)
    requires
        from <= chars.len(),
        9 <= limit <= 0x8000_0000_0000_0000,
    ensures
        match r {
            Some(n) => natural_of(chars@.skip(from as int)) == Some(n as nat) && n <= limit,
            None => natural_of(chars@.skip(from as int)) matches Some(n) ==> n > limit,
        },
{
    let ghost digits = chars@.skip(from as int);
    if from == chars.len() {
        return None;
    }
    let mut value: u64 = match digit_at(chars[from]) {
        Some(d) => d,
        None => {
            proof {
                assert(digits[0] == chars@[from as int]);
                if digits.len() > 1 {
                    lemma_first_digit(digits);
                }
            }
            return None;
        },
    };
    let mut i: usize = from + 1;
    proof {
        assert(digits.take(1).len() == 1);
        assert(digits.take(1)[0] == chars@[from as int]);
    }
    while i < chars.len()
        invariant
            from < i <= chars.len(),
            digits == chars@.skip(from as int),
            9 <= limit <= 0x8000_0000_0000_0000,
            natural_of(digits.take(i - from)) == Some(value as nat),
            value <= limit,
        decreases chars.len() - i,
    {
        let ghost k = i - from;
        proof {
            assert(digits.take(k + 1).drop_last() == digits.take(k));
            assert(digits.take(k + 1).last() == chars@[i as int]);
        }
        let d = match digit_at(chars[i]) {
            Some(d) => d,
            None => {
                proof {
                    assert(natural_of(digits.take(k + 1)) is None);
                    if natural_of(digits) is Some {
                        lemma_natural_grows(digits, k + 1);
                    }
                }
                return None;
            },
        };
        if value > (limit - d) / 10 {
            proof {
                assert(value * 10 + d > limit);
                if natural_of(digits) is Some {
                    lemma_natural_grows(digits, k + 1);
                }
            }
            return None;
        }
        value = value * 10 + d;
        i += 1;
    }
    proof {
        assert(digits.take(i - from) == digits);
    }
    Some(value)
}

/// A run that writes a number begins with a digit.
proof fn lemma_first_digit(s: Seq<char>)
    requires
        s.len() >= 1,
        digit_value(s[0]) is None,
    ensures
        natural_of(s) is None,
    decreases s.len(),
{
    if s.len() > 1 {
        lemma_first_digit(s.drop_last());
    }
}

/// The whole number under `name`, where it fits 64 bits.
pub fn get_i64(doc: &Json, name: &str) -> (r: Option<i64>)
    ensures
        r == i64_field(doc@, name@),
{
    let text = match get_field(doc, name) {
        Some(Json::Number(text)) => text,
        _ => {
            return None;
        },
    };
    let chars = crate::text::chars_of(text.as_str());
    if chars.len() > 0 && chars[0] == '-' {
        match read_natural(&chars, 1, 0x8000_0000_0000_0000) {
            Some(n) => {
                if n == 0x8000_0000_0000_0000 {
                    Some(i64::MIN)
                } else {
                    Some(0 - (n as i64))
                }
            },
            None => None,
        }
    } else {
        proof {
            assert(chars@.skip(0) == chars@);
        }
        match read_natural(&chars, 0, 0x7fff_ffff_ffff_ffff) {
            Some(n) => Some(n as i64),
            None => None,
        }
    }
}

} // verus!
