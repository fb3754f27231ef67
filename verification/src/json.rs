//! JSON values as the database returns them, and the lookups the bot makes
//! in them (`Value::get` by key or index, `Value::as_str`, and the text
//! that `Value`'s `Display` writes).

use vstd::prelude::*;
use crate::text::chars_of;

verus! {

/// A number as serde_json holds it.
#[verifier::external_type_specification]
#[verifier::external_body]
pub struct ExJsonNumber(serde_json::Number);

/// A value as serde_json holds it.
#[verifier::external_type_specification]
#[verifier::external_body]
pub struct ExJsonValue(serde_json::Value);

/// A JSON value: the shape of `serde_json::Value`, an object keeping its
/// members as a list of key and value.
#[derive(Debug)]
pub enum Json {
    Null,
    Bool(bool),
    Number(serde_json::Number),
    Str(String),
    Array(Vec<Json>),
    Object(Vec<(String, Json)>),
}

/// The value of the last member of `entries` named `key`, as a map built
/// from them keeps it.
pub open spec fn entries_get(entries: Seq<(String, Json)>, key: Seq<char>) -> Option<Json>
    decreases entries.len(),
{
    if entries.len() == 0 {
        None
    } else if entries.last().0@ == key {
        Some(entries.last().1)
    } else {
        entries_get(entries.drop_last(), key)
    }
}

/// What `Value::get(key)` finds: the member `key` of an object.
pub open spec fn member(j: Json, key: Seq<char>) -> Option<Json> {
    match j {
        Json::Object(entries) => entries_get(entries@, key),
        _ => None,
    }
}

/// What `Value::get(i)` finds: the element `i` of an array.
pub open spec fn element(j: Json, i: int) -> Option<Json> {
    match j {
        Json::Array(items) => if 0 <= i < items.len() {
            Some(items@[i])
        } else {
            None
        },
        _ => None,
    }
}

/// What `Value::as_str` finds: the text of a string.
pub open spec fn text_value(j: Json) -> Option<Seq<char>> {
    match j {
        Json::Str(s) => Some(s@),
        _ => None,
    }
}

/// The text that `serde_json::Value`'s `Display` writes for `j` (compact
/// JSON), the value being built from `j` member by member.
pub uninterp spec fn json_text(j: Json) -> Seq<char>;

/// The `serde_json::Value` built from `j`: each member inserted in order
/// into a `serde_json::Map`. A conversion only; nothing is claimed of it.
#[verifier::external_body]
fn to_serde_value(j: &Json) -> serde_json::Value {
    match j {
        Json::Null => serde_json::Value::Null,
        Json::Bool(b) => serde_json::Value::Bool(*b),
        Json::Number(n) => serde_json::Value::Number(n.clone()),
        Json::Str(s) => serde_json::Value::String(s.clone()),
        Json::Array(items) => serde_json::Value::Array(items.iter().map(to_serde_value).collect()),
        Json::Object(entries) => serde_json::Value::Object(
            entries.iter().map(|(k, v)| (k.clone(), to_serde_value(v))).collect(),
        ),
    }
}

/// `ToString::to_string` through `serde_json::Value`'s `Display`. Claims
/// that the text is the named one.
#[verifier::external_body]
pub fn json_to_text(j: &Json) -> (r: String)
    ensures
        r@ == json_text(*j),
{
    to_serde_value(j).to_string()
}

/// The error that `serde_json` reports.
#[verifier::external_type_specification]
#[verifier::external_body]
pub struct ExJsonError(serde_json::Error);

/// The bytes that `serde_json::to_vec` writes for the `serde_json::Value`
/// built from `j`, or `None` where it reports an error.
pub uninterp spec fn json_bytes_of(j: Json) -> Option<Seq<u8>>;

/// `serde_json::to_vec` of the value built from `j`. Claims that the bytes
/// are the named ones.
#[verifier::external_body]
pub fn json_bytes(j: &Json) -> (r: Result<Vec<u8>, serde_json::Error>)
    ensures
        match r {
            Ok(b) => json_bytes_of(*j) == Some(b@),
            Err(_) => json_bytes_of(*j) is None,
        },
{
    serde_json::to_vec(&to_serde_value(j))
}

/// Whether `a` and `b` hold the same text.
pub fn same_text(a: &str, b: &str) -> (r: bool)
    ensures
        r == (a@ == b@),
{
    let x = chars_of(a);
    let y = chars_of(b);
    if x.len() != y.len() {
        return false;
    }
    let mut i: usize = 0;
    while i < x.len()
        invariant
            x.len() == y.len(),
            x@ == a@,
            y@ == b@,
            i <= x.len(),
            forall|k: int| 0 <= k < i ==> x@[k] == y@[k],
        decreases x.len() - i,
    {
        if x[i] != y[i] {
            assert(a@[i as int] != b@[i as int]);
            return false;
        }
        i += 1;
    }
    assert(x@ =~= y@);
    true
}

/// `Value::get(key)`.
pub fn get_member<'a>(j: &'a Json, key: &str) -> (r: Option<&'a Json>)
    ensures
        match r {
            Some(v) => member(*j, key@) == Some(*v),
            None => member(*j, key@) is None,
        },
{
    match j {
        Json::Object(entries) => {
            let mut i = entries.len();
            assert(entries@.take(i as int) =~= entries@);
            while i > 0
                invariant
                    i <= entries.len(),
                    member(*j, key@) == entries_get(entries@.take(i as int), key@),
                decreases i,
            {
                let ghost part = entries@.take(i as int);
                assert(part.drop_last() =~= entries@.take(i - 1));
                assert(part.last() == entries@[i - 1]);
                if same_text(entries[i - 1].0.as_str(), key) {
                    return Some(&entries[i - 1].1);
                }
                i -= 1;
            }
            None
        },
        _ => None,
    }
}

/// `Value::get(i)`.
pub fn get_element(j: &Json, i: usize) -> (r: Option<&Json>)
    ensures
        match r {
            Some(v) => element(*j, i as int) == Some(*v),
            None => element(*j, i as int) is None,
        },
{
    match j {
        Json::Array(items) => {
            if i < items.len() {
                Some(&items[i])
            } else {
                None
            }
        },
        _ => None,
    }
}

/// `Value::as_str`.
pub fn get_text(j: &Json) -> (r: Option<&String>)
    ensures
        match r {
            Some(s) => text_value(*j) == Some(s@),
            None => text_value(*j) is None,
        },
{
    match j {
        Json::Str(s) => Some(s),
        _ => None,
    }
}

// ---------------------------------------------------------------------------
// Laws
// ---------------------------------------------------------------------------

/// The lookup in a list of members finds the last member whose name is the
/// key exactly, and finds nothing where no member has that name.
proof fn lemma_entries_get_exact(entries: Seq<(String, Json)>, key: Seq<char>)
    ensures
        match entries_get(entries, key) {
            Some(v) => exists|i: int|
                0 <= i < entries.len() && #[trigger] entries[i].0@ == key && entries[i].1 == v
                    && forall|j: int| i < j < entries.len() ==> (#[trigger] entries[j]).0@ != key,
            None => forall|i: int| 0 <= i < entries.len() ==> (#[trigger] entries[i]).0@ != key,
        },
    decreases entries.len(),
{
    if entries.len() > 0 {
        let rest = entries.drop_last();
        lemma_entries_get_exact(rest, key);
        let n = entries.len() - 1;
        if entries.last().0@ == key {
            assert(entries[n].0@ == key);
        } else {
            match entries_get(rest, key) {
                Some(v) => {
                    let i = choose|i: int|
                        0 <= i < rest.len() && #[trigger] rest[i].0@ == key && rest[i].1 == v
                            && forall|j: int| i < j < rest.len() ==> (#[trigger] rest[j]).0@ != key;
                    assert(entries[i] == rest[i]);
                    assert forall|j: int| i < j < entries.len() implies (
                    #[trigger] entries[j]).0@ != key by {
                        if j < n {
                            assert(entries[j] == rest[j]);
                        }
                    }
                },
                None => {
                    assert forall|i: int| 0 <= i < entries.len() implies (
                    #[trigger] entries[i]).0@ != key by {
                        if i < n {
                            assert(entries[i] == rest[i]);
                        }
                    }
                },
            }
        }
    }
}

/// `Value::get(key)` on an object finds the member whose name equals `key`
/// exactly (the last such member, as a map built from the members keeps
/// it), and nothing where no member is named `key`; on anything but an
/// object it finds nothing.
pub proof fn law_member_is_exact(j: Json, key: Seq<char>)
    ensures
        match j {
            Json::Object(entries) => match member(j, key) {
                Some(v) => exists|i: int|
                    0 <= i < entries@.len() && #[trigger] entries@[i].0@ == key && entries@[i].1
                        == v && forall|k: int|
                        i < k < entries@.len() ==> (#[trigger] entries@[k]).0@ != key,
                None => forall|i: int|
                    0 <= i < entries@.len() ==> (#[trigger] entries@[i]).0@ != key,
            },
            _ => member(j, key) is None,
        },
{
    match j {
        Json::Object(entries) => {
            lemma_entries_get_exact(entries@, key);
        },
        _ => {},
    }
}

} // verus!
