//! Parsed JSON, one level at a time: a document is a scalar, or an array or
//! object whose nested values are kept as their JSON text, to be parsed in
//! turn when they are read. Replies of the language model, the YouTube API,
//! Super Productivity and yt-dlp are all read through it.
use vstd::prelude::*;
use serde_json::Value;
use crate::text::eq_str;

verus! {

/// A parsed JSON document, one level deep.
pub enum JsonDoc {
    /// `null`.
    Null,
    /// `true` or `false`.
    Bool(bool),
    /// A number, with its value where it is an integer that fits in a `u64`
    /// (`Number::as_u64`).
    Number(Option<u64>),
    /// A string.
    Text(String),
    /// An array: the JSON text of each element.
    Array(Vec<String>),
    /// An object: each member's key and the JSON text of its value (keys
    /// are distinct).
    Object(Vec<(String, String)>),
}

/// The model of a document.
pub enum JsonDocView {
    Null,
    Bool(bool),
    Number(Option<u64>),
    Text(Seq<char>),
    Array(Seq<Seq<char>>),
    Object(Seq<(Seq<char>, Seq<char>)>),
}

/// The model of an optional text.
pub open spec fn opt_text(o: Option<String>) -> Option<Seq<char>> {
    match o {
        Some(s) => Some(s@),
        None => None,
    }
}

impl View for JsonDoc {
    type V = JsonDocView;

    open spec fn view(&self) -> JsonDocView {
        match self {
            JsonDoc::Null => JsonDocView::Null,
            JsonDoc::Bool(b) => JsonDocView::Bool(*b),
            JsonDoc::Number(n) => JsonDocView::Number(*n),
            JsonDoc::Text(s) => JsonDocView::Text(s@),
            JsonDoc::Array(v) => JsonDocView::Array(v@.map_values(|s: String| s@)),
            JsonDoc::Object(m) => JsonDocView::Object(m@.map_values(|kv: (String, String)| (kv.0@, kv.1@))),
        }
    }
}

/// The document that `serde_json::from_str::<serde_json::Value>` reads from
/// `text`, one level deep (nested values as serde_json writes them back), or
/// `None` where it reports an error.
pub uninterp spec fn json_document(text: Seq<char>) -> Option<JsonDocView>;

/// The model of an optional document.
pub open spec fn opt_doc(d: Option<JsonDoc>) -> Option<JsonDocView> {
    match d {
        Some(d) => Some(d@),
        None => None,
    }
}

/// `serde_json::from_str::<serde_json::Value>`: parses `text` as JSON. The
/// result is only named (what serde_json accepts is not restated); the
/// `Value` is moved, variant by variant, into the library's model, nested
/// values written back as text by `Value`'s `Display` (serde_json's compact
/// serialization).
#[verifier::external_body]
pub(crate) fn parse_json(text: &str) -> (res: Option<JsonDoc>)
    ensures
        opt_doc(res) == json_document(text@),
{
    match serde_json::from_str::<Value>(text) {
        Err(_) => None,
        Ok(Value::Null) => Some(JsonDoc::Null),
        Ok(Value::Bool(b)) => Some(JsonDoc::Bool(b)),
        Ok(Value::Number(n)) => Some(JsonDoc::Number(n.as_u64())),
        Ok(Value::String(s)) => Some(JsonDoc::Text(s)),
        Ok(Value::Array(a)) => Some(JsonDoc::Array(a.iter().map(|e| e.to_string()).collect())),
        Ok(Value::Object(m)) => Some(JsonDoc::Object(m.into_iter().map(|(k, v)| (k, v.to_string())).collect())),
    }
}

/// What serde_json writes for a string: the string as a JSON string
/// literal, quoted and escaped.
pub uninterp spec fn json_string(s: Seq<char>) -> Seq<char>;

/// `serde_json::to_string` on a string: the JSON string literal of `s`.
/// Serializing a string cannot fail; the contract only names the result.
#[verifier::external_body]
pub(crate) fn json_quote(s: &str) -> (res: String)
    ensures
        res@ == json_string(s@),
{
    serde_json::to_string(s).unwrap_or_default()
}

/// The document a JSON text reads as; `null` when it is not JSON.
pub open spec fn doc_of(raw: Seq<char>) -> JsonDocView {
    match json_document(raw) {
        Some(d) => d,
        None => JsonDocView::Null,
    }
}

/// The JSON text of the first member of `doc` named `key` (none when there
/// is no such member, or when `doc` is not an object).
#[verifier::opaque]
pub open spec fn member(doc: JsonDocView, key: Seq<char>) -> Option<Seq<char>> {
    match doc {
        JsonDocView::Object(m) => {
            if exists|i: int| 0 <= i < m.len() && m[i].0 == key {
                let i = choose|i: int| 0 <= i < m.len() && m[i].0 == key && forall|j: int| 0 <= j < i ==> m[j].0 != key;
                Some(m[i].1)
            } else {
                None
            }
        },
        _ => None,
    }
}

/// The member `key` of `doc` as a document (`value[key]`: `null` when absent).
pub open spec fn member_doc(doc: JsonDocView, key: Seq<char>) -> JsonDocView {
    match member(doc, key) {
        Some(raw) => doc_of(raw),
        None => JsonDocView::Null,
    }
}

/// The member `key` as a string (`value[key].as_str()`).
pub open spec fn member_text(doc: JsonDocView, key: Seq<char>) -> Option<Seq<char>> {
    match member_doc(doc, key) {
        JsonDocView::Text(s) => Some(s),
        _ => None,
    }
}

/// The member `key` as an unsigned integer (`value[key].as_u64()`).
pub open spec fn member_count(doc: JsonDocView, key: Seq<char>) -> Option<u64> {
    match member_doc(doc, key) {
        JsonDocView::Number(n) => n,
        _ => None,
    }
}

/// The member `key` as a boolean (`value[key].as_bool()`).
pub open spec fn member_bool(doc: JsonDocView, key: Seq<char>) -> Option<bool> {
    match member_doc(doc, key) {
        JsonDocView::Bool(b) => Some(b),
        _ => None,
    }
}

/// A JSON text as a string, if it is one.
pub open spec fn text_of(raw: Seq<char>) -> Option<Seq<char>> {
    match doc_of(raw) {
        JsonDocView::Text(s) => Some(s),
        _ => None,
    }
}

/// The member `key` as an array (`value[key].as_array()`), each element
/// given as a string where it is one.
pub open spec fn member_list(doc: JsonDocView, key: Seq<char>) -> Option<Seq<Option<Seq<char>>>> {
    match member_doc(doc, key) {
        JsonDocView::Array(items) => Some(items.map_values(|r: Seq<char>| text_of(r))),
        _ => None,
    }
}

/// The JSON texts of the elements of the member `key`, none when it is not
/// an array.
pub open spec fn member_items(doc: JsonDocView, key: Seq<char>) -> Seq<Seq<char>> {
    match member_doc(doc, key) {
        JsonDocView::Array(items) => items,
        _ => seq![],
    }
}

/// The first element of an array document (`value[0]`: `null` when there is
/// none).
pub open spec fn first_doc(doc: JsonDocView) -> JsonDocView {
    match doc {
        JsonDocView::Array(items) => if items.len() > 0 {
            doc_of(items[0])
        } else {
            JsonDocView::Null
        },
        _ => JsonDocView::Null,
    }
}

} // verus!

verus! {

/// Index of the first member of `m` named `key`, if any.
fn find_member(m: &Vec<(String, String)>, key: &str) -> (res: Option<usize>)
    ensures
        match res {
            Some(i) => i < m@.len() && m@[i as int].0@ == key@ && forall|j: int| 0 <= j < i ==> m@[j].0@ != key@,
            None => forall|j: int| 0 <= j < m@.len() ==> m@[j].0@ != key@,
        },
{
    for i in 0..m.len()
        invariant
            forall|j: int| 0 <= j < i ==> m@[j].0@ != key@,
    {
        if eq_str(m[i].0.as_str(), key) {
            return Some(i);
        }
    }
    None
}

proof fn lemma_member_at(doc: JsonDoc, key: Seq<char>, i: int)
    requires
        doc matches JsonDoc::Object(m) && 0 <= i < m@.len() && m@[i].0@ == key && forall|j: int|
            0 <= j < i ==> m@[j].0@ != key,
    ensures
        doc matches JsonDoc::Object(m) && member(doc@, key) == Some(m@[i].1@),
{
    reveal(member);
    if let JsonDoc::Object(m) = doc {
        let mv = m@.map_values(|kv: (String, String)| (kv.0@, kv.1@));
        assert(mv[i].0 == key);
        let k = choose|k: int| 0 <= k < mv.len() && mv[k].0 == key && forall|j: int| 0 <= j < k ==> mv[j].0 != key;
        if k < i {
            assert(mv[k].0 == m@[k].0@);
        } else if k > i {
        }
    }
}

proof fn lemma_member_absent(doc: JsonDoc, key: Seq<char>)
    requires
        doc matches JsonDoc::Object(m) && forall|j: int| 0 <= j < m@.len() ==> m@[j].0@ != key,
    ensures
        member(doc@, key) is None,
{
    reveal(member);
    if let JsonDoc::Object(m) = doc {
        let mv = m@.map_values(|kv: (String, String)| (kv.0@, kv.1@));
        assert forall|i: int| !(0 <= i < mv.len() && mv[i].0 == key) by {
            if 0 <= i < mv.len() {
                assert(mv[i].0 == m@[i].0@);
            }
        }
    }
}

/// The JSON text of the member `key` of `doc`, if there is one.
pub fn member_raw_of(doc: &JsonDoc, key: &str) -> (res: Option<String>)
    ensures
        opt_text(res) == member(doc@, key@),
{
    match doc {
        JsonDoc::Object(m) => match find_member(m, key) {
            Some(i) => {
                proof {
                    lemma_member_at(*doc, key@, i as int);
                }
                Some(m[i].1.clone())
            },
            None => {
                proof {
                    lemma_member_absent(*doc, key@);
                }
                None
            },
        },
        _ => {
            proof {
                reveal(member);
            }
            None
        },
    }
}

/// The document a JSON text reads as (`null` when it is not JSON).
pub fn doc_of_text(raw: &str) -> (res: JsonDoc)
    ensures
        res@ == doc_of(raw@),
{
    match parse_json(raw) {
        Some(d) => d,
        None => JsonDoc::Null,
    }
}

/// The member `key` of `doc` as a document.
pub fn member_doc_of(doc: &JsonDoc, key: &str) -> (res: JsonDoc)
    ensures
        res@ == member_doc(doc@, key@),
{
    match member_raw_of(doc, key) {
        Some(raw) => doc_of_text(raw.as_str()),
        None => JsonDoc::Null,
    }
}

/// The member `key` of `doc` as a string, if it is one.
pub fn member_text_of(doc: &JsonDoc, key: &str) -> (res: Option<String>)
    ensures
        opt_text(res) == member_text(doc@, key@),
{
    match member_doc_of(doc, key) {
        JsonDoc::Text(s) => Some(s),
        _ => None,
    }
}

/// The member `key` of `doc` as an unsigned integer, if it is one.
pub fn member_count_of(doc: &JsonDoc, key: &str) -> (res: Option<u64>)
    ensures
        res == member_count(doc@, key@),
{
    match member_doc_of(doc, key) {
        JsonDoc::Number(n) => n,
        _ => None,
    }
}

/// The member `key` of `doc` as a boolean, if it is one.
pub fn member_bool_of(doc: &JsonDoc, key: &str) -> (res: Option<bool>)
    ensures
        res == member_bool(doc@, key@),
{
    match member_doc_of(doc, key) {
        JsonDoc::Bool(b) => Some(b),
        _ => None,
    }
}

/// The JSON texts of the elements of the member `key` (none when it is not
/// an array).
pub fn member_items_of(doc: &JsonDoc, key: &str) -> (res: Vec<String>)
    ensures
        res@.map_values(|s: String| s@) == member_items(doc@, key@),
{
    match member_doc_of(doc, key) {
        JsonDoc::Array(items) => items,
        _ => {
            let v: Vec<String> = Vec::new();
            assert(v@.map_values(|s: String| s@) == Seq::<Seq<char>>::empty());
            v
        },
    }
}

/// The member `key` of `doc` as a list, if it is an array.
pub fn member_list_of(doc: &JsonDoc, key: &str) -> (res: Option<Vec<Option<String>>>)
    ensures
        match res {
            Some(v) => member_list(doc@, key@) == Some(v@.map_values(|o: Option<String>| opt_text(o))),
            None => member_list(doc@, key@) is None,
        },
{
    match member_doc_of(doc, key) {
        JsonDoc::Array(items) => {
            let ghost raws = items@.map_values(|s: String| s@);
            let mut out: Vec<Option<String>> = Vec::new();
            for k in 0..items.len()
                invariant
                    raws == items@.map_values(|s: String| s@),
                    out@.len() == k,
                    forall|j: int| 0 <= j < k ==> opt_text(#[trigger] out@[j]) == text_of(raws[j]),
            {
                let o = match doc_of_text(items[k].as_str()) {
                    JsonDoc::Text(s) => Some(s),
                    _ => None,
                };
                out.push(o);
            }
            assert(out@.map_values(|o: Option<String>| opt_text(o)) == raws.map_values(|r: Seq<char>| text_of(r)));
            Some(out)
        },
        _ => None,
    }
}

/// The first element of an array document, as a document.
pub fn first_doc_of(doc: &JsonDoc) -> (res: JsonDoc)
    ensures
        res@ == first_doc(doc@),
{
    match doc {
        JsonDoc::Array(items) => {
            if items.len() > 0 {
                doc_of_text(items[0].as_str())
            } else {
                JsonDoc::Null
            }
        },
        _ => JsonDoc::Null,
    }
}

} // verus!
