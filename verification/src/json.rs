//! The JSON documents the sidecars print, read as plain records: the text
//! and unsigned-number fields of an object, and of each object of one of its
//! arrays.
use vstd::prelude::*;

verus! {

/// A field of a JSON object as the logic reads it.
#[derive(Debug, Clone)]
pub enum JsonScalar {
    Text(String),
    Unsigned(u64),
    /// Anything else: null, a boolean, a negative or fractional number, an
    /// array or an object.
    Other,
}

pub enum JsonScalarView {
    Text(Seq<char>),
    Unsigned(u64),
    Other,
}

impl View for JsonScalar {
    type V = JsonScalarView;

    open spec fn view(&self) -> JsonScalarView {
        match self {
            JsonScalar::Text(s) => JsonScalarView::Text(s@),
            JsonScalar::Unsigned(n) => JsonScalarView::Unsigned(*n),
            JsonScalar::Other => JsonScalarView::Other,
        }
    }
}

/// The fields of a JSON object, by name; a value that is not an object has
/// none.
#[derive(Debug)]
pub struct JsonRecord {
    pub fields: Vec<(String, JsonScalar)>,
}

pub type RecordView = Seq<(Seq<char>, JsonScalarView)>;

pub open spec fn record_view(r: JsonRecord) -> RecordView {
    r.fields@.map_values(|f: (String, JsonScalar)| (f.0@, f.1@))
}

pub open spec fn records_view(v: Seq<JsonRecord>) -> Seq<RecordView> {
    v.map_values(|r: JsonRecord| record_view(r))
}

/// The parsed document: its own fields and, when the field named by the
/// caller holds an array, the fields of each of its elements.
pub open spec fn document_view(r: Result<(JsonRecord, Option<Vec<JsonRecord>>), String>) -> Result<
    (RecordView, Option<Seq<RecordView>>),
    Seq<char>,
> {
    match r {
        Ok((top, list)) => Ok(
            (
                record_view(top),
                match list {
                    Some(l) => Some(records_view(l@)),
                    None => None,
                },
            ),
        ),
        Err(e) => Err(e@),
    }
}

/// What `serde_json` makes of a text: the fields of the top-level value and
/// of the elements of its array `list_key`, or the text of its parse error.
pub uninterp spec fn json_document(text: Seq<char>, list_key: Seq<char>) -> Result<
    (RecordView, Option<Seq<RecordView>>),
    Seq<char>,
>;

/// Parses a text with `serde_json::from_str` into a `serde_json::Value`, then
/// reads the text and unsigned-number fields of the top-level object and of
/// each element of its array `list_key`.
///
/// Trusted: the result is a function of the text and the key alone, named
/// `json_document`; an error carries the `Display` text of the parse error.
#[verifier::external_body]
pub(crate) fn parse_json_document(text: &str, list_key: &str) -> (r: Result<
    (JsonRecord, Option<Vec<JsonRecord>>),
    String,
>)
    ensures
        document_view(r) == json_document(text@, list_key@),
{
    let v: serde_json::Value = serde_json::from_str(text).map_err(|e| e.to_string())?;
    let rec = |o: &serde_json::Value| JsonRecord { fields: o.as_object().map_or(Vec::new(), |m| m.iter().map(|(k, x)| (k.clone(), match x {
        serde_json::Value::String(s) => JsonScalar::Text(s.clone()),
        serde_json::Value::Number(n) => n.as_u64().map_or(JsonScalar::Other, JsonScalar::Unsigned),
        _ => JsonScalar::Other,
    })).collect()) };
    let list = v[list_key].as_array().map(|a| a.iter().map(|x| rec(x)).collect());
    Ok((rec(&v), list))
}

/// The value of the first field with the given name, `Other` when absent.
pub open spec fn field_of(r: RecordView, key: Seq<char>) -> JsonScalarView
    decreases r.len(),
{
    if r.len() == 0 {
        JsonScalarView::Other
    } else if r[0].0 == key {
        r[0].1
    } else {
        field_of(r.drop_first(), key)
    }
}

/// `Value::as_str` on a field.
pub open spec fn text_field(r: RecordView, key: Seq<char>) -> Option<Seq<char>> {
    match field_of(r, key) {
        JsonScalarView::Text(s) => Some(s),
        _ => None,
    }
}

/// `Value::as_u64` on a field.
pub open spec fn unsigned_field(r: RecordView, key: Seq<char>) -> Option<u64> {
    match field_of(r, key) {
        JsonScalarView::Unsigned(n) => Some(n),
        _ => None,
    }
}

fn str_equal(a: &str, b: &str) -> (r: bool)
    ensures
        r == (a@ == b@),
{
    let n: usize = a.unicode_len();
    if n != b.unicode_len() {
        return false;
    }
    let mut i: usize = 0;
    while i < n
        invariant
            n == a@.len(),
            n == b@.len(),
            i <= n,
            forall|j: int| 0 <= j < i ==> a@[j] == b@[j],
        decreases n - i,
    {
        if a.get_char(i) != b.get_char(i) {
            return false;
        }
        i = i + 1;
    }
    assert(a@ =~= b@);
    true
}

impl JsonRecord {
    /// The value of the field with the given name.
    pub fn field(&self, key: &str) -> (r: JsonScalar)
        ensures
            r@ == field_of(record_view(*self), key@),
    {
        let ghost rv = record_view(*self);
        assert(rv.subrange(0, rv.len() as int) == rv);
        let mut i: usize = 0;
        while i < self.fields.len()
            invariant
                i <= self.fields@.len(),
                rv == record_view(*self),
                field_of(rv, key@) == field_of(rv.subrange(i as int, rv.len() as int), key@),
            decreases self.fields@.len() - i,
        {
            let ghost rest = rv.subrange(i as int, rv.len() as int);
            assert(rest[0] == (self.fields@[i as int].0@, self.fields@[i as int].1@));
            if str_equal(self.fields[i].0.as_str(), key) {
                return self.fields[i].1.clone_scalar();
            }
            assert(rest.drop_first() =~= rv.subrange(i + 1, rv.len() as int));
            i = i + 1;
        }
        JsonScalar::Other
    }

    /// `Value::as_str` on a field.
    pub fn text(&self, key: &str) -> (r: Option<String>)
        ensures
            crate::media_url::opt_view(r) == text_field(record_view(*self), key@),
    {
        match self.field(key) {
            JsonScalar::Text(s) => Some(s),
            _ => None,
        }
    }

    /// `Value::as_u64` on a field.
    pub fn unsigned(&self, key: &str) -> (r: Option<u64>)
        ensures
            r == unsigned_field(record_view(*self), key@),
    {
        match self.field(key) {
            JsonScalar::Unsigned(n) => Some(n),
            _ => None,
        }
    }
}

impl JsonScalar {
    pub fn clone_scalar(&self) -> (r: Self)
        ensures
            r@ == self@,
    {
        match self {
            JsonScalar::Text(s) => JsonScalar::Text(s.clone()),
            JsonScalar::Unsigned(n) => JsonScalar::Unsigned(*n),
            JsonScalar::Other => JsonScalar::Other,
        }
    }
}

} // verus!
