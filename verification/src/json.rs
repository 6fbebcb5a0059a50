//! JSON documents.
//!
//! [`Json`] is the executable document, [`JsonView`] its mathematical value: an object is a map
//! from member names to values, so neither the order of the members nor the way in which they
//! are stored is part of what the contracts speak of.

use vstd::prelude::*;
use vstd::string::*;

use crate::text::str_eq;

verus! {

/// A JSON document. Numbers keep their decimal text. Where a member name occurs more than once
/// in an object, the last occurrence counts.
#[derive(Debug)]
pub enum Json {
    Null,
    Bool(bool),
    Number(String),
    Str(String),
    Array(Vec<Json>),
    Object(Vec<(String, Json)>),
}

/// The mathematical value of a JSON document.
#[verifier::ext_equal]
pub enum JsonView {
    Null,
    Bool(bool),
    Number(Seq<char>),
    Str(Seq<char>),
    Array(Seq<JsonView>),
    Object(Map<Seq<char>, JsonView>),
}

/// The value of a document.
pub open spec fn json_view(j: Json) -> JsonView
    decreases j,
{
    match j {
        Json::Null => JsonView::Null,
        Json::Bool(b) => JsonView::Bool(b),
        Json::Number(n) => JsonView::Number(n@),
        Json::Str(s) => JsonView::Str(s@),
        Json::Array(v) => JsonView::Array(items_view(v@)),
        Json::Object(v) => JsonView::Object(members_view(v@)),
    }
}

/// The values of the items of an array.
pub open spec fn items_view(s: Seq<Json>) -> Seq<JsonView>
    decreases s,
{
    if s.len() == 0 {
        Seq::empty()
    } else {
        items_view(s.drop_last()).push(json_view(s.last()))
    }
}

/// The members of an object.
pub open spec fn members_view(s: Seq<(String, Json)>) -> Map<Seq<char>, JsonView>
    decreases s,
{
    if s.len() == 0 {
        Map::empty()
    } else {
        members_view(s.drop_last()).insert(s.last().0@, json_view(s.last().1))
    }
}

impl View for Json {
    type V = JsonView;

    open spec fn view(&self) -> JsonView {
        json_view(*self)
    }
}

impl JsonView {
    /// The member `key` of an object; `None` for anything else.
    pub open spec fn member(self, key: Seq<char>) -> Option<JsonView> {
        match self {
            JsonView::Object(m) => if m.dom().contains(key) {
                Some(m[key])
            } else {
                None
            },
            _ => None,
        }
    }

    /// The item `i` of an array; `None` for anything else.
    pub open spec fn item(self, i: int) -> Option<JsonView> {
        match self {
            JsonView::Array(s) => if 0 <= i < s.len() {
                Some(s[i])
            } else {
                None
            },
            _ => None,
        }
    }

    /// The text of a string; `None` for anything else.
    pub open spec fn text(self) -> Option<Seq<char>> {
        match self {
            JsonView::Str(s) => Some(s),
            _ => None,
        }
    }
}

/// The member `key` of what `v` holds, where `v` holds something.
pub open spec fn then_member(v: Option<JsonView>, key: Seq<char>) -> Option<JsonView> {
    match v {
        Some(j) => j.member(key),
        None => None,
    }
}

/// The item `i` of what `v` holds, where `v` holds something.
pub open spec fn then_item(v: Option<JsonView>, i: int) -> Option<JsonView> {
    match v {
        Some(j) => j.item(i),
        None => None,
    }
}

/// The text of what `v` holds, where `v` holds something.
pub open spec fn then_text(v: Option<JsonView>) -> Option<Seq<char>> {
    match v {
        Some(j) => j.text(),
        None => None,
    }
}

/// The value behind an optional reference.
pub open spec fn opt_view(v: Option<&Json>) -> Option<JsonView> {
    match v {
        Some(j) => Some(j@),
        None => None,
    }
}

pub proof fn lemma_items_view(s: Seq<Json>)
    ensures
        items_view(s).len() == s.len(),
        forall|i: int| 0 <= i < s.len() ==> #[trigger] items_view(s)[i] == json_view(s[i]),
    decreases s.len(),
{
    if s.len() > 0 {
        lemma_items_view(s.drop_last());
        assert forall|i: int| 0 <= i < s.len() implies #[trigger] items_view(s)[i] == json_view(
            s[i],
        ) by {
            if i < s.len() - 1 {
                assert(items_view(s)[i] == items_view(s.drop_last())[i]);
            }
        }
    }
}

pub proof fn lemma_items_view_push(s: Seq<Json>, j: Json)
    ensures
        items_view(s.push(j)) == items_view(s).push(json_view(j)),
{
    assert(s.push(j).drop_last() =~= s);
}

/// The last occurrence of a member name gives the member's value.
pub proof fn lemma_members_last(s: Seq<(String, Json)>, key: Seq<char>, i: int)
    requires
        0 <= i < s.len(),
        s[i].0@ == key,
        forall|j: int| i < j < s.len() ==> (#[trigger] s[j]).0@ != key,
    ensures
        members_view(s).dom().contains(key),
        members_view(s)[key] == json_view(s[i].1),
    decreases s.len(),
{
    let d = s.drop_last();
    if i < s.len() - 1 {
        assert(s[s.len() - 1].0@ != key);
        assert forall|j: int| i < j < d.len() implies (#[trigger] d[j]).0@ != key by {
            assert(s[j].0@ != key);
        }
        lemma_members_last(d, key, i);
    }
}

/// A name that does not occur is no member.
pub proof fn lemma_members_absent(s: Seq<(String, Json)>, key: Seq<char>)
    requires
        forall|j: int| 0 <= j < s.len() ==> (#[trigger] s[j]).0@ != key,
    ensures
        !members_view(s).dom().contains(key),
    decreases s.len(),
{
    if s.len() > 0 {
        let d = s.drop_last();
        assert(s[s.len() - 1].0@ != key);
        assert forall|j: int| 0 <= j < d.len() implies (#[trigger] d[j]).0@ != key by {
            assert(s[j].0@ != key);
        }
        lemma_members_absent(d, key);
    }
}

/// Replacing the value of the last occurrence of a member name replaces that member.
pub proof fn lemma_members_update(s: Seq<(String, Json)>, i: int, entry: (String, Json))
    requires
        0 <= i < s.len(),
        s[i].0@ == entry.0@,
        forall|j: int| i < j < s.len() ==> (#[trigger] s[j]).0@ != entry.0@,
    ensures
        members_view(s.update(i, entry)) == members_view(s).insert(entry.0@, json_view(entry.1)),
    decreases s.len(),
{
    let u = s.update(i, entry);
    if i == s.len() - 1 {
        assert(u.drop_last() =~= s.drop_last());
        assert(members_view(u) =~= members_view(s).insert(entry.0@, json_view(entry.1)));
    } else {
        let d = s.drop_last();
        assert forall|j: int| i < j < d.len() implies (#[trigger] d[j]).0@ != entry.0@ by {
            assert(s[j].0@ != entry.0@);
        }
        lemma_members_update(d, i, entry);
        assert(u.drop_last() =~= d.update(i, entry));
        assert(s[s.len() - 1].0@ != entry.0@);
        assert(members_view(u) =~= members_view(s).insert(entry.0@, json_view(entry.1)));
    }
}

pub proof fn lemma_members_push(s: Seq<(String, Json)>, entry: (String, Json))
    ensures
        members_view(s.push(entry)) == members_view(s).insert(entry.0@, json_view(entry.1)),
{
    assert(s.push(entry).drop_last() =~= s);
}

/// Where the member `key` is stored.
pub fn find_member(members: &Vec<(String, Json)>, key: &str) -> (r: Option<usize>)
    ensures
        match r {
            Some(i) => i < members@.len() && members@[i as int].0@ == key@ && (forall|j: int|
                i < j < members@.len() ==> (#[trigger] members@[j]).0@ != key@)
                && members_view(members@).dom().contains(key@) && members_view(members@)[key@]
                == json_view(members@[i as int].1),
            None => !members_view(members@).dom().contains(key@),
        },
{
    let mut i: usize = members.len();
    while i > 0
        invariant
            i <= members@.len(),
            forall|j: int| i <= j < members@.len() ==> (#[trigger] members@[j]).0@ != key@,
        decreases i,
    {
        i -= 1;
        if str_eq(members[i].0.as_str(), key) {
            proof {
                lemma_members_last(members@, key@, i as int);
            }
            return Some(i);
        }
    }
    proof {
        lemma_members_absent(members@, key@);
    }
    None
}

/// Whether an object has the member `key`.
pub fn has_member(members: &Vec<(String, Json)>, key: &str) -> (r: bool)
    ensures
        r == members_view(members@).dom().contains(key@),
{
    match find_member(members, key) {
        Some(_) => true,
        None => false,
    }
}

/// Sets the member `key` of an object.
pub fn put_member(members: &mut Vec<(String, Json)>, key: &str, value: Json)
    ensures
        members_view(final(members)@) == members_view(old(members)@).insert(key@, value@),
{
    match find_member(members, key) {
        Some(i) => {
            let entry = (key.to_owned(), value);
            proof {
                lemma_members_update(members@, i as int, entry);
            }
            members.set(i, entry);
        },
        None => {
            let entry = (key.to_owned(), value);
            proof {
                lemma_members_push(members@, entry);
            }
            members.push(entry);
        },
    }
}

/// Moves the member `key` out of an object, where it has one, and leaves `null` in its place.
pub fn take_member(members: &mut Vec<(String, Json)>, key: &str) -> (r: Option<Json>)
    ensures
        match r {
            Some(j) => members_view(old(members)@).dom().contains(key@)
                && members_view(old(members)@)[key@] == j@
                && members_view(final(members)@) == members_view(old(members)@).insert(
                key@,
                JsonView::Null,
            ),
            None => !members_view(old(members)@).dom().contains(key@)
                && final(members)@ == old(members)@,
        },
{
    match find_member(members, key) {
        Some(i) => {
            let mut entry = (key.to_owned(), Json::Null);
            proof {
                lemma_members_update(members@, i as int, entry);
            }
            std::mem::swap(&mut members[i], &mut entry);
            Some(entry.1)
        },
        None => None,
    }
}

impl Json {
    /// The member `key` of an object.
    pub fn get(&self, key: &str) -> (r: Option<&Json>)
        ensures
            opt_view(r) == self@.member(key@),
    {
        match self {
            Json::Object(members) => match find_member(members, key) {
                Some(i) => Some(&members[i].1),
                None => None,
            },
            _ => None,
        }
    }

    /// The item `i` of an array.
    pub fn get_index(&self, i: usize) -> (r: Option<&Json>)
        ensures
            opt_view(r) == self@.item(i as int),
    {
        match self {
            Json::Array(items) => {
                proof {
                    lemma_items_view(items@);
                }
                if i < items.len() {
                    Some(&items[i])
                } else {
                    None
                }
            },
            _ => None,
        }
    }

    /// The text of a string.
    pub fn as_str(&self) -> (r: Option<&str>)
        ensures
            match r {
                Some(s) => self@.text() == Some(s@),
                None => self@.text() is None,
            },
    {
        match self {
            Json::Str(s) => Some(s.as_str()),
            _ => None,
        }
    }
}

/// A copy of a document.
pub fn clone_json(j: &Json) -> (r: Json)
    ensures
        r@ == j@,
    decreases j,
{
    match j {
        Json::Null => Json::Null,
        Json::Bool(b) => Json::Bool(*b),
        Json::Number(n) => Json::Number(n.clone()),
        Json::Str(s) => Json::Str(s.clone()),
        Json::Array(v) => {
            let mut out: Vec<Json> = Vec::new();
            let mut i: usize = 0;
            while i < v.len()
                invariant
                    i <= v.len(),
                    items_view(out@) == items_view(v@.take(i as int)),
                    decreases_to!(j => v),
                decreases v.len() - i,
            {
                assert(decreases_to!(v => v@));
                assert(decreases_to!(v@ => v@[i as int]));
                let c = clone_json(&v[i]);
                proof {
                    lemma_items_view_push(out@, c);
                    lemma_items_view_push(v@.take(i as int), v@[i as int]);
                    assert(v@.take(i + 1) =~= v@.take(i as int).push(v@[i as int]));
                }
                out.push(c);
                i += 1;
            }
            assert(v@.take(i as int) =~= v@);
            Json::Array(out)
        },
        Json::Object(v) => {
            let mut out: Vec<(String, Json)> = Vec::new();
            let mut i: usize = 0;
            while i < v.len()
                invariant
                    i <= v.len(),
                    members_view(out@) == members_view(v@.take(i as int)),
                    decreases_to!(j => v),
                decreases v.len() - i,
            {
                assert(decreases_to!(v => v@));
                assert(decreases_to!(v@ => v@[i as int]));
                assert(decreases_to!(v@[i as int] => v@[i as int].1));
                let c = clone_json(&v[i].1);
                let entry = (v[i].0.clone(), c);
                proof {
                    lemma_members_push(out@, entry);
                    lemma_members_push(v@.take(i as int), v@[i as int]);
                    assert(v@.take(i + 1) =~= v@.take(i as int).push(v@[i as int]));
                }
                out.push(entry);
                i += 1;
            }
            assert(v@.take(i as int) =~= v@);
            Json::Object(out)
        },
    }
}

/// A parsed `serde_json` document.
#[verifier::external_type_specification]
#[verifier::external_body]
pub struct ExSerdeJsonValue(serde_json::Value);

/// What a parsed `serde_json` document holds.
pub uninterp spec fn serde_value(v: serde_json::Value) -> JsonView;

/// What `serde_json` reads in a text: the document, or `None` where the bytes are no JSON text.
pub uninterp spec fn json_of_bytes(data: Seq<u8>) -> Option<JsonView>;

/// Parses a JSON text (`serde_json::from_slice::<serde_json::Value>`).
///
/// Trusted: whether the bytes parse, and what they parse to, depends on the bytes alone.
#[verifier::external_body]
fn parse_value(data: &[u8]) -> (r: Option<serde_json::Value>)
    ensures
        match r {
            Some(v) => json_of_bytes(data@) == Some(serde_value(v)),
            None => json_of_bytes(data@) is None,
        },
{
    serde_json::from_slice(data).ok()
}

/// Moves a `serde_json::Value` into a [`Json`], variant by variant.
///
/// Trusted: the document has the value of the `serde_json::Value`; a number is held by the
/// decimal text that `serde_json` displays for it.
#[verifier::external_body]
pub(crate) fn from_value(v: serde_json::Value) -> (r: Json)
    ensures
        r@ == serde_value(v),
{
    match v {
        serde_json::Value::Null => Json::Null,
        serde_json::Value::Bool(b) => Json::Bool(b),
        serde_json::Value::Number(n) => Json::Number(n.to_string()),
        serde_json::Value::String(s) => Json::Str(s),
        serde_json::Value::Array(a) => Json::Array(a.into_iter().map(from_value).collect()),
        serde_json::Value::Object(o) => Json::Object(
            o.into_iter().map(|(k, v)| (k, from_value(v))).collect(),
        ),
    }
}

/// Parses a JSON text; `None` where the bytes are none.
pub fn parse_json(data: &[u8]) -> (r: Option<Json>)
    ensures
        match r {
            Some(j) => json_of_bytes(data@) == Some(j@),
            None => json_of_bytes(data@) is None,
        },
{
    match parse_value(data) {
        Some(v) => Some(from_value(v)),
        None => None,
    }
}

/// The JSON text that `serde_json` writes for a document.
pub uninterp spec fn serialized(v: JsonView) -> Seq<u8>;

/// Writes a document as a JSON text (`serde_json::to_vec` of a `serde_json::Value`, which cannot
/// fail).
///
/// Trusted: the text depends on the value of the document alone; the members of an object are
/// kept in the order of their names.
#[verifier::external_body]
pub(crate) fn value_to_vec(v: &serde_json::Value) -> (r: Vec<u8>)
    ensures
        r@ == serialized(serde_value(*v)),
{
    serde_json::to_vec(v).expect("a document serializes")
}

/// The JSON string literal for a text, as `serde_json` writes it.
pub uninterp spec fn json_quoted(s: Seq<char>) -> Seq<char>;

/// Writes a text as a JSON string literal (`serde_json::to_string` of a string, which cannot
/// fail).
///
/// Trusted: the literal depends on the text alone.
#[verifier::external_body]
pub(crate) fn json_quote(s: &str) -> (r: String)
    ensures
        r@ == json_quoted(s@),
{
    serde_json::to_string(s).expect("a string serializes")
}

} // verus!
