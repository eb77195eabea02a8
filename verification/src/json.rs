//! JSON documents as plain values. Parsing and printing are serde_json's; the
//! library reads and builds documents through the `Json` tree below.

use crate::text;
use vstd::prelude::*;

verus! {

#[verifier::external_type_specification]
#[verifier::external_body]
pub struct ExValue(serde_json::Value);

/// A JSON document. Object members keep the order in which they were built;
/// members read by `parse` come in serde_json's order, sorted by key, and
/// `render` prints them in that order too. A number keeps the text
/// serde_json writes for it.
#[derive(Debug)]
pub enum Json {
    Null,
    Bool(bool),
    Number(String),
    Str(String),
    Array(Vec<Json>),
    Object(Vec<(String, Json)>),
}

/// What `serde_json::from_str::<Value>` gives for `text`: the document, or the
/// text of its error.
pub uninterp spec fn json_parse(text: Seq<char>) -> Result<Json, Seq<char>>;

/// What `serde_json::to_string` writes for the document.
pub uninterp spec fn json_text(doc: Json) -> Seq<char>;

/// One node of a `serde_json::Value` for one node of `Json`; numbers keep
/// their printed text.
#[verifier::external_body]
fn json_of(v: serde_json::Value) -> Json {
    match v {
        serde_json::Value::Null => Json::Null,
        serde_json::Value::Bool(b) => Json::Bool(b),
        serde_json::Value::Number(n) => Json::Number(n.to_string()),
        serde_json::Value::String(s) => Json::Str(s),
        serde_json::Value::Array(a) => Json::Array(a.into_iter().map(json_of).collect()),
        serde_json::Value::Object(m) => Json::Object(
            m.into_iter().map(|(k, v)| (k, json_of(v))).collect(),
        ),
    }
}

/// One `serde_json::Value` node for one `Json` node; a number is read back
/// from its text.
#[verifier::external_body]
fn value_of(j: &Json) -> serde_json::Value {
    match j {
        Json::Null => serde_json::Value::Null,
        Json::Bool(b) => serde_json::Value::Bool(*b),
        Json::Number(t) => serde_json::from_str(t).unwrap_or(serde_json::Value::Null),
        Json::Str(s) => serde_json::Value::String(s.clone()),
        Json::Array(a) => serde_json::Value::Array(a.iter().map(value_of).collect()),
        Json::Object(m) => serde_json::Value::Object(
            m.iter().map(|(k, v)| (k.clone(), value_of(v))).collect(),
        ),
    }
}

/// `serde_json::from_str::<serde_json::Value>`, with the document turned
/// into a `Json` and an error into its message. The contract names the
/// outcome and says nothing of its shape.
#[verifier::external_body]
fn from_str(text: &str) -> (r: Result<Json, String>)
    ensures
        match r {
            Ok(doc) => json_parse(text@) == Ok::<Json, Seq<char>>(doc),
            Err(e) => json_parse(text@) == Err::<Json, Seq<char>>(e@),
        },
{
    match serde_json::from_str::<serde_json::Value>(text) {
        Ok(v) => Ok(json_of(v)),
        Err(e) => Err(e.to_string()),
    }
}

/// `serde_json::to_string` of the document, which cannot fail for a
/// `Value`. The contract names the text and says nothing of its shape.
#[verifier::external_body]
fn to_string(doc: &Json) -> (r: String)
    ensures
        r@ == json_text(*doc),
{
    value_of(doc).to_string()
}

/// Parses a JSON document.
pub fn parse(text: &str) -> (r: Result<Json, String>)
    ensures
        match r {
            Ok(doc) => json_parse(text@) == Ok::<Json, Seq<char>>(doc),
            Err(e) => json_parse(text@) == Err::<Json, Seq<char>>(e@),
        },
{
    from_str(text)
}

/// Prints a JSON document compactly.
pub fn render(doc: &Json) -> (r: String)
    ensures
        r@ == json_text(*doc),
{
    to_string(doc)
}

/// The value of the first member named `key` among `entries[i..]`.
pub open spec fn member(entries: Seq<(String, Json)>, key: Seq<char>, i: int) -> Option<Json>
    decreases entries.len() - i,
{
    if 0 <= i < entries.len() {
        if entries[i].0@ == key {
            Some(entries[i].1)
        } else {
            member(entries, key, i + 1)
        }
    } else {
        None
    }
}

/// A reference read back as the value it points to.
pub open spec fn deref_opt(r: Option<&Json>) -> Option<Json> {
    match r {
        Some(j) => Some(*j),
        None => None,
    }
}

/// The text of a JSON string, if the value is one.
pub open spec fn str_value(j: Option<Json>) -> Option<Seq<char>> {
    match j {
        Some(Json::Str(s)) => Some(s@),
        _ => None,
    }
}

/// Value of a run of decimal digits, most significant first.
pub open spec fn digits_value(s: Seq<char>) -> nat
    decreases s.len(),
{
    if s.len() == 0 {
        0
    } else {
        digits_value(s.drop_last()) * 10 + digit_of(s.last())
    }
}

/// The value of a decimal digit character.
pub open spec fn digit_of(c: char) -> nat {
    ((c as u32) - 48) as nat
}

/// `'0'..='9'`.
pub open spec fn is_digit(c: char) -> bool {
    48 <= c as u32 <= 57
}

/// `Number::as_u64`: the number text is a plain run of digits whose value fits.
pub open spec fn number_u64(t: Seq<char>) -> Option<u64> {
    if t.len() > 0 && (forall|k: int| 0 <= k < t.len() ==> is_digit(#[trigger] t[k]))
        && digits_value(t) <= u64::MAX {
        Some(digits_value(t) as u64)
    } else {
        None
    }
}

impl Json {
    /// `value.get(key)` on an object; `None` on anything else.
    pub open spec fn field(self, key: Seq<char>) -> Option<Json> {
        match self {
            Json::Object(entries) => member(entries@, key, 0),
            _ => None,
        }
    }

    /// `value.get(i)` on an array; `None` on anything else.
    pub open spec fn item(self, i: int) -> Option<Json> {
        match self {
            Json::Array(items) => if 0 <= i < items@.len() {
                Some(items@[i])
            } else {
                None
            },
            _ => None,
        }
    }

    /// The member named `key`, if this is an object that has one.
    pub fn get(&self, key: &str) -> (r: Option<&Json>)
        ensures
            deref_opt(r) == self.field(key@),
    {
        match self {
            Json::Object(entries) => {
                let mut i: usize = 0;
                while i < entries.len()
                    invariant
                        i <= entries@.len(),
                        self.field(key@) == member(entries@, key@, 0),
                        member(entries@, key@, i as int) == member(entries@, key@, 0),
                    decreases entries.len() - i,
                {
                    let entry = &entries[i];
                    if text::same(entry.0.as_str(), key) {
                        assert(entries@[i as int].0@ == key@);
                        return Some(&entry.1);
                    }
                    i += 1;
                }
                None
            },
            _ => None,
        }
    }

    /// The element at `i`, if this is an array that long.
    pub fn at(&self, i: usize) -> (r: Option<&Json>)
        ensures
            deref_opt(r) == self.item(i as int),
    {
        match self {
            Json::Array(items) => {
                if i < items.len() {
                    Some(&items[i])
                } else {
                    None
                }
            },
            _ => None,
        }
    }

    /// The text, if this is a string.
    pub fn as_str(&self) -> (r: Option<&str>)
        ensures
            match r {
                Some(s) => str_value(Some(*self)) == Some(s@),
                None => str_value(Some(*self)) is None,
            },
    {
        match self {
            Json::Str(s) => Some(s.as_str()),
            _ => None,
        }
    }

    /// The elements, if this is an array.
    pub fn as_array(&self) -> (r: Option<&Vec<Json>>)
        ensures
            match r {
                Some(items) => *self == Json::Array(*items),
                None => !(self is Array),
            },
    {
        match self {
            Json::Array(items) => Some(items),
            _ => None,
        }
    }

    /// The number as a `u64`, if it is a non-negative integer that fits.
    pub fn as_u64(&self) -> (r: Option<u64>)
        ensures
            r == match *self {
                Json::Number(t) => number_u64(t@),
                _ => None::<u64>,
            },
    {
        match self {
            Json::Number(t) => digits_u64(t.as_str()),
            _ => None,
        }
    }
}

proof fn lemma_digits_grow(s: Seq<char>, n: int)
    requires
        0 <= n <= s.len(),
        forall|k: int| 0 <= k < s.len() ==> is_digit(#[trigger] s[k]),
    ensures
        digits_value(s.subrange(0, n)) <= digits_value(s),
    decreases s.len() - n,
{
    if n < s.len() {
        lemma_digits_grow(s, n + 1);
        let t = s.subrange(0, n + 1);
        assert(t.drop_last() =~= s.subrange(0, n));
        assert(digits_value(t) == digits_value(s.subrange(0, n)) * 10 + digit_of(t.last()));
    } else {
        assert(s.subrange(0, n) =~= s);
    }
}

/// Reads a plain run of decimal digits as a `u64`.
fn digits_u64(t: &str) -> (r: Option<u64>)
    ensures
        r == number_u64(t@),
{
    let chars = text::chars_of(t);
    if chars.len() == 0 {
        return None;
    }
    let mut acc: u64 = 0;
    let mut i: usize = 0;
    while i < chars.len()
        invariant
            i <= chars@.len(),
            chars@ == t@,
            forall|k: int| 0 <= k < i ==> is_digit(#[trigger] chars@[k]),
            acc == digits_value(chars@.subrange(0, i as int)),
        decreases chars.len() - i,
    {
        let u = chars[i] as u32;
        if !(48 <= u && u <= 57) {
            assert(!is_digit(chars@[i as int]));
            return None;
        }
        let d = (u - 48) as u64;
        assert(chars@.subrange(0, i + 1).drop_last() =~= chars@.subrange(0, i as int));
        if acc > (u64::MAX - d) / 10 {
            // The value already exceeds `u64::MAX`, and more digits only grow it.
            proof {
                let p = chars@.subrange(0, i + 1);
                assert(digits_value(p) == acc * 10 + d) by (nonlinear_arith)
                    requires
                        digits_value(p) == digits_value(p.drop_last()) * 10 + digit_of(p.last()),
                        digits_value(p.drop_last()) == acc,
                        digit_of(p.last()) == d,
                ;
                assert(acc * 10 + d > u64::MAX) by (nonlinear_arith)
                    requires
                        acc > (u64::MAX - d) / 10,
                        d <= 9,
                ;
                if forall|k: int| 0 <= k < chars@.len() ==> is_digit(#[trigger] chars@[k]) {
                    lemma_digits_grow(chars@, i + 1);
                }
            }
            return None;
        }
        acc = acc * 10 + d;
        i += 1;
    }
    assert(chars@.subrange(0, i as int) =~= chars@);
    Some(acc)
}

/// A JSON string value.
pub fn string(s: &str) -> (j: Json)
    ensures
        j matches Json::Str(t) && t@ == s@,
{
    Json::Str(text::owned(s))
}

} // verus!
