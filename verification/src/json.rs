//! An owned JSON document tree and its mathematical model.
//!
//! Objects are stored as a sequence of members; when a key occurs more than
//! once the later member wins, exactly as inserting the members in order
//! into a JSON map would.  The model of an object is therefore a `Map` from
//! keys to models, so two objects that hold the same members in a different
//! order have the same model.
use vstd::prelude::*;

use crate::text::str_equal;

verus! {

/// An owned JSON value.
///
/// `Number` keeps the canonical decimal text of the number (as the JSON
/// library prints it), so no floating-point value is ever held here.
#[derive(Debug)]
pub enum JsonValue {
    Null,
    Bool(bool),
    Number(String),
    Str(String),
    Array(Vec<JsonValue>),
    Object(Vec<(String, JsonValue)>),
}

/// The mathematical model of a JSON value.
pub enum Json {
    Null,
    Bool(bool),
    Number(Seq<char>),
    Str(Seq<char>),
    Array(Seq<Json>),
    Object(Map<Seq<char>, Json>),
}

/// The model of a JSON value.
pub open spec fn model(v: JsonValue) -> Json
    decreases v, 0int,
{
    match v {
        JsonValue::Null => Json::Null,
        JsonValue::Bool(b) => Json::Bool(b),
        JsonValue::Number(t) => Json::Number(t@),
        JsonValue::Str(s) => Json::Str(s@),
        JsonValue::Array(items) => Json::Array(items_model(items@)),
        JsonValue::Object(members) => Json::Object(members_model(members@)),
    }
}

/// The models of a sequence of values, element by element.
pub open spec fn items_model(s: Seq<JsonValue>) -> Seq<Json>
    decreases s, 1int,
{
    if s.len() == 0 {
        Seq::empty()
    } else {
        items_model(s.drop_last()).push(model(s.last()))
    }
}

/// The model of a sequence of object members: later members win.
pub open spec fn members_model(s: Seq<(String, JsonValue)>) -> Map<Seq<char>, Json>
    decreases s, 1int,
{
    if s.len() == 0 {
        Map::empty()
    } else {
        members_model(s.drop_last()).insert(s.last().0@, model(s.last().1))
    }
}

impl View for JsonValue {
    type V = Json;

    open spec fn view(&self) -> Json {
        model(*self)
    }
}

/// Looks up `key` in an object model; `None` for a missing key or a non-object.
pub open spec fn json_get(j: Json, key: Seq<char>) -> Option<Json> {
    match j {
        Json::Object(m) => if m.contains_key(key) {
            Some(m[key])
        } else {
            None
        },
        _ => None,
    }
}

/// The characters of a string value, `None` for any other value.
pub open spec fn json_as_str(j: Json) -> Option<Seq<char>> {
    match j {
        Json::Str(s) => Some(s),
        _ => None,
    }
}

/// The member map of an object value, `None` for any other value.
pub open spec fn json_as_object(j: Json) -> Option<Map<Seq<char>, Json>> {
    match j {
        Json::Object(m) => Some(m),
        _ => None,
    }
}

/// The index of the last member whose key is `key`.
pub open spec fn last_index_of_key(s: Seq<(String, JsonValue)>, key: Seq<char>) -> Option<int>
    decreases s.len(),
{
    if s.len() == 0 {
        None
    } else if s.last().0@ == key {
        Some(s.len() - 1)
    } else {
        last_index_of_key(s.drop_last(), key)
    }
}

/// A member lookup in the model agrees with the last member carrying the key.
pub proof fn lemma_members_lookup(s: Seq<(String, JsonValue)>, key: Seq<char>)
    ensures
        members_model(s).contains_key(key) <==> last_index_of_key(s, key) is Some,
        last_index_of_key(s, key) matches Some(i) ==> 0 <= i < s.len() && s[i].0@ == key
            && members_model(s)[key] == model(s[i].1)
            && forall|j: int| i < j < s.len() ==> s[j].0@ != key,
        last_index_of_key(s, key) is None ==> forall|j: int| 0 <= j < s.len() ==> s[j].0@ != key,
    decreases s.len(),
{
    if s.len() > 0 {
        let t = s.drop_last();
        lemma_members_lookup(t, key);
        assert forall|j: int| 0 <= j < t.len() implies t[j] == s[j] by {}
    }
}

/// The members of `s` whose key differs from `key`, in order.
pub open spec fn drop_key(s: Seq<(String, JsonValue)>, key: Seq<char>) -> Seq<(String, JsonValue)>
    decreases s.len(),
{
    if s.len() == 0 {
        s
    } else if s.last().0@ == key {
        drop_key(s.drop_last(), key)
    } else {
        drop_key(s.drop_last(), key).push(s.last())
    }
}

/// Dropping the members that carry `key` removes `key` from the model.
pub proof fn lemma_members_without(s: Seq<(String, JsonValue)>, key: Seq<char>)
    ensures
        members_model(drop_key(s, key)) =~= members_model(s).remove(key),
    decreases s.len(),
{
    if s.len() > 0 {
        let t = s.drop_last();
        lemma_members_without(t, key);
        if s.last().0@ != key {
            lemma_members_push(drop_key(t, key), s.last().0, s.last().1);
        }
    }
}

/// Pushing a member updates the model like a map insertion.
pub proof fn lemma_members_push(s: Seq<(String, JsonValue)>, k: String, v: JsonValue)
    ensures
        members_model(s.push((k, v))) == members_model(s).insert(k@, model(v)),
{
    assert(s.push((k, v)).drop_last() =~= s);
}

/// The model of a sequence of values has one model per value.
pub proof fn lemma_items_model(s: Seq<JsonValue>)
    ensures
        items_model(s).len() == s.len(),
        forall|i: int| 0 <= i < s.len() ==> items_model(s)[i] == model(#[trigger] s[i]),
    decreases s.len(),
{
    if s.len() > 0 {
        let t = s.drop_last();
        lemma_items_model(t);
        assert forall|i: int| 0 <= i < s.len() implies items_model(s)[i] == model(#[trigger] s[i]) by {
            if i < t.len() {
                assert(t[i] == s[i]);
            }
        }
    }
}

/// Looks up the last member of `members` whose key is `key`.
pub fn members_get<'a>(members: &'a Vec<(String, JsonValue)>, key: &str) -> (r: Option<
    &'a JsonValue,
>)
    ensures
        r matches Some(v) ==> members_model(members@).contains_key(key@) && model(*v)
            == members_model(members@)[key@],
        r is None ==> !members_model(members@).contains_key(key@),
{
    proof {
        lemma_members_lookup(members@, key@);
    }
    let mut i = members.len();
    while i > 0
        invariant
            i <= members@.len(),
            forall|j: int| i <= j < members@.len() ==> members@[j].0@ != key@,
            members_model(members@).contains_key(key@) <==> last_index_of_key(members@, key@) is Some,
            last_index_of_key(members@, key@) matches Some(x) ==> 0 <= x < members@.len()
                && members@[x].0@ == key@ && members_model(members@)[key@] == model(members@[x].1)
                && forall|j: int| x < j < members@.len() ==> members@[j].0@ != key@,
            last_index_of_key(members@, key@) is None ==> forall|j: int|
                0 <= j < members@.len() ==> members@[j].0@ != key@,
        decreases i,
    {
        i = i - 1;
        if str_equal(members[i].0.as_str(), key) {
            return Some(&members[i].1);
        }
    }
    None
}

/// Takes the members apart: those whose key is not `key`, in order, and
/// the value under `key` (the last member carrying it), if any.
pub fn split_member(members: Vec<(String, JsonValue)>, key: &str) -> (r: (Vec<(String, JsonValue)>, Option<JsonValue>))
    ensures
        members_model(r.0@) == members_model(members@).remove(key@),
        match r.1 {
            Some(v) => members_model(members@).contains_key(key@) && v@ == members_model(members@)[key@],
            None => !members_model(members@).contains_key(key@),
        },
{
    let ghost orig = members@;
    let mut src = members;
    let mut rev: Vec<(String, JsonValue)> = Vec::new();
    while src.len() > 0
        invariant
            src@.len() + rev@.len() == orig.len(),
            src@ == orig.subrange(0, src@.len() as int),
            forall|j: int| 0 <= j < rev@.len() ==> rev@[j] == orig[orig.len() - 1 - j],
        decreases src@.len(),
    {
        let m = src.pop().unwrap();
        rev.push(m);
        proof {
            assert(src@ =~= orig.subrange(0, src@.len() as int));
        }
    }
    let mut kept: Vec<(String, JsonValue)> = Vec::new();
    let mut val: Option<JsonValue> = None;
    proof {
        assert(orig.subrange(0, 0) =~= Seq::<(String, JsonValue)>::empty());
    }
    while rev.len() > 0
        invariant
            rev@.len() <= orig.len(),
            forall|j: int| 0 <= j < rev@.len() ==> rev@[j] == orig[orig.len() - 1 - j],
            kept@ == drop_key(orig.subrange(0, orig.len() - rev@.len()), key@),
            match val {
                Some(v) => members_model(orig.subrange(0, orig.len() - rev@.len())).contains_key(key@)
                    && v@ == members_model(orig.subrange(0, orig.len() - rev@.len()))[key@],
                None => !members_model(orig.subrange(0, orig.len() - rev@.len())).contains_key(key@),
            },
        decreases rev@.len(),
    {
        let ghost n = rev@.len();
        let m = rev.pop().unwrap();
        let ghost idx = orig.len() - n;
        let ghost pre = orig.subrange(0, idx);
        proof {
            assert(m == orig[idx]);
            assert(orig.subrange(0, idx + 1) =~= pre.push(m));
            assert(orig.subrange(0, idx + 1).drop_last() =~= pre);
            lemma_members_push(pre, m.0, m.1);
        }
        let (k, v) = m;
        if str_equal(k.as_str(), key) {
            val = Some(v);
        } else {
            kept.push((k, v));
        }
    }
    proof {
        assert(orig.subrange(0, orig.len() as int) =~= orig);
        lemma_members_without(orig, key@);
    }
    (kept, val)
}

/// Drops every member whose key is `key`.
pub fn members_remove(members: &mut Vec<(String, JsonValue)>, key: &str)
    ensures
        members_model(final(members)@) == members_model(old(members)@).remove(key@),
{
    let mut taken: Vec<(String, JsonValue)> = Vec::new();
    std::mem::swap(&mut taken, members);
    let (rest, _) = split_member(taken, key);
    *members = rest;
}

/// Sets `key` to `value`, replacing any member already carrying the key.
pub fn members_set(members: &mut Vec<(String, JsonValue)>, key: String, value: JsonValue)
    ensures
        members_model(final(members)@) == members_model(old(members)@).insert(key@, model(value)),
{
    members_remove(members, key.as_str());
    let ghost before = members@;
    proof {
        lemma_members_push(before, key, value);
    }
    members.push((key, value));
    proof {
        assert(members_model(old(members)@).remove(key@).insert(key@, model(value))
            =~= members_model(old(members)@).insert(key@, model(value)));
    }
}

impl JsonValue {
    /// Looks up `key` when this value is an object.
    pub fn get(&self, key: &str) -> (r: Option<&JsonValue>)
        ensures
            r matches Some(v) ==> json_get(self@, key@) == Some(model(*v)),
            r is None ==> json_get(self@, key@) is None,
    {
        match self {
            JsonValue::Object(members) => members_get(members, key),
            _ => None,
        }
    }

    /// The string held by a string value.
    pub fn as_str(&self) -> (r: Option<&String>)
        ensures
            r matches Some(s) ==> json_as_str(self@) == Some(s@),
            r is None ==> json_as_str(self@) is None,
    {
        match self {
            JsonValue::Str(s) => Some(s),
            _ => None,
        }
    }

    /// The members of an object value.
    pub fn as_object(&self) -> (r: Option<&Vec<(String, JsonValue)>>)
        ensures
            r matches Some(m) ==> json_as_object(self@) == Some(members_model(m@)),
            r is None ==> json_as_object(self@) is None,
    {
        match self {
            JsonValue::Object(members) => Some(members),
            _ => None,
        }
    }

    /// Whether this value is an object.
    pub fn is_object(&self) -> (r: bool)
        ensures
            r == (self@ is Object),
    {
        match self {
            JsonValue::Object(_) => true,
            _ => false,
        }
    }
}

/// The keys of a list of members are pairwise distinct.
pub open spec fn member_keys_distinct(s: Seq<(String, JsonValue)>) -> bool {
    forall|i: int, j: int| 0 <= i < j < s.len() ==> s[i].0@ != s[j].0@
}

/// The same members with distinct keys, listed in any order, make the same
/// object.
pub proof fn law_members_any_order(s: Seq<(String, JsonValue)>, t: Seq<(String, JsonValue)>)
    requires
        member_keys_distinct(s),
        t.to_multiset() == s.to_multiset(),
    ensures
        members_model(s) == members_model(t),
{
    broadcast use vstd::seq_lib::group_to_multiset_ensures;

    assert forall|k: Seq<char>| #[trigger] members_model(s).dom().contains(k) implies members_model(
        t,
    ).dom().contains(k) && members_model(t)[k] == members_model(s)[k] by {
        lemma_members_lookup(s, k);
        lemma_members_lookup(t, k);
        let i = last_index_of_key(s, k)->0;
        assert(s.contains(s[i]));
        assert(s.to_multiset().count(s[i]) > 0);
        assert(t.contains(s[i]));
        let j0 = choose|j: int| 0 <= j < t.len() && t[j] == s[i];
        assert(t[j0].0@ == k);
        let j = last_index_of_key(t, k)->0;
        assert(t.contains(t[j]));
        assert(t.to_multiset().count(t[j]) > 0);
        assert(s.contains(t[j]));
        let i2 = choose|x: int| 0 <= x < s.len() && s[x] == t[j];
        assert(s[i2].0@ == k);
        if i2 < i {
            assert(s[i2].0@ != s[i].0@);
        } else if i < i2 {
            assert(s[i].0@ != s[i2].0@);
        }
    }
    assert forall|k: Seq<char>| #[trigger] members_model(t).dom().contains(k) implies members_model(
        s,
    ).dom().contains(k) by {
        lemma_members_lookup(s, k);
        lemma_members_lookup(t, k);
        let j = last_index_of_key(t, k)->0;
        assert(t.contains(t[j]));
        assert(t.to_multiset().count(t[j]) > 0);
        assert(s.contains(t[j]));
        let i2 = choose|x: int| 0 <= x < s.len() && s[x] == t[j];
        assert(s[i2].0@ == k);
    }
    assert(members_model(s) =~= members_model(t));
}

} // verus!
