//! A JSON document as plain values, as the Sentry API hands it back.
//!
//! Numbers keep the exact text that the API sent, so that rendering a number
//! gives back the same digits.

use vstd::prelude::*;
use crate::text::{eq_str, owned};

verus! {

pub enum Json {
    Null,
    Bool(bool),
    /// A number, by its decimal text.
    Number(String),
    Str(String),
    Array(Vec<Json>),
    /// Members in order; keys are distinct.
    Object(Vec<(String, Json)>),
}

/// First member of `entries` whose key is `key`.
pub open spec fn member(entries: Seq<(String, Json)>, key: Seq<char>) -> Option<Json>
    decreases entries.len(),
{
    if entries.len() == 0 {
        None
    } else if entries[0].0@ == key {
        Some(entries[0].1)
    } else {
        member(entries.drop_first(), key)
    }
}

pub proof fn lemma_member_skip(entries: Seq<(String, Json)>, key: Seq<char>, i: int)
    requires
        0 <= i <= entries.len(),
        forall|j: int| 0 <= j < i ==> (#[trigger] entries[j]).0@ != key,
    ensures
        member(entries, key) == member(entries.subrange(i, entries.len() as int), key),
    decreases i,
{
    if i == 0 {
        assert(entries.subrange(0, entries.len() as int) =~= entries);
    } else {
        let t = entries.drop_first();
        assert(t.subrange(i - 1, t.len() as int) =~= entries.subrange(i, entries.len() as int));
        assert forall|j: int| 0 <= j < i - 1 implies (#[trigger] t[j]).0@ != key by {
            assert(t[j] == entries[j + 1]);
        }
        assert(entries[0].0@ != key);
        lemma_member_skip(t, key, i - 1);
    }
}

pub proof fn lemma_member_none(entries: Seq<(String, Json)>, key: Seq<char>)
    requires
        forall|j: int| 0 <= j < entries.len() ==> (#[trigger] entries[j]).0@ != key,
    ensures
        member(entries, key) is None,
{
    lemma_member_skip(entries, key, entries.len() as int);
}

pub proof fn lemma_member_push(entries: Seq<(String, Json)>, e: (String, Json), key: Seq<char>)
    ensures
        member(entries.push(e), key) == if member(entries, key) is Some {
            member(entries, key)
        } else if e.0@ == key {
            Some(e.1)
        } else {
            None
        },
    decreases entries.len(),
{
    if entries.len() == 0 {
        assert(entries.push(e).drop_first() =~= Seq::<(String, Json)>::empty());
        assert(entries.push(e)[0] == e);
        assert(member(entries, key) is None);
        assert(member(Seq::<(String, Json)>::empty(), key) is None);
    } else {
        assert(entries.push(e).drop_first() =~= entries.drop_first().push(e));
        assert(entries.push(e)[0] == entries[0]);
        lemma_member_push(entries.drop_first(), e, key);
    }
}

pub proof fn lemma_member_update(entries: Seq<(String, Json)>, i: int, e: (String, Json), key: Seq<char>)
    requires
        0 <= i < entries.len(),
        forall|j: int| 0 <= j < i ==> (#[trigger] entries[j]).0@ != e.0@,
        entries[i].0@ == e.0@,
    ensures
        member(entries.update(i, e), key) == if e.0@ == key {
            Some(e.1)
        } else {
            member(entries, key)
        },
    decreases i,
{
    if i == 0 {
        assert(entries.update(0, e).drop_first() =~= entries.drop_first());
    } else {
        assert(entries.update(i, e).drop_first() =~= entries.drop_first().update(i - 1, e));
        assert forall|j: int| 0 <= j < i - 1 implies (#[trigger] entries.drop_first()[j]).0@ != e.0@ by {
            assert(entries.drop_first()[j] == entries[j + 1]);
        }
        lemma_member_update(entries.drop_first(), i - 1, e, key);
    }
}

/// The mathematical value of a JSON document.
pub enum JsonV {
    Null,
    Bool(bool),
    Number(Seq<char>),
    Str(Seq<char>),
    Array(Seq<JsonV>),
    Object(Seq<(Seq<char>, JsonV)>),
}

impl JsonV {
    /// The member `key` of an object value.
    pub open spec fn get(self, key: Seq<char>) -> Option<JsonV> {
        match self {
            JsonV::Object(entries) => member_v(entries, key),
            _ => None,
        }
    }

    /// The text of a string value.
    pub open spec fn text(self) -> Option<Seq<char>> {
        match self {
            JsonV::Str(s) => Some(s),
            _ => None,
        }
    }

    /// The member `key` when it is a string.
    pub open spec fn get_text(self, key: Seq<char>) -> Option<Seq<char>> {
        match self.get(key) {
            Some(v) => v.text(),
            None => None,
        }
    }
}

/// First value under `key` among object members.
pub open spec fn member_v(entries: Seq<(Seq<char>, JsonV)>, key: Seq<char>) -> Option<JsonV>
    decreases entries.len(),
{
    if entries.len() == 0 {
        None
    } else if entries[0].0 == key {
        Some(entries[0].1)
    } else {
        member_v(entries.drop_first(), key)
    }
}

impl View for Json {
    type V = JsonV;

    open spec fn view(&self) -> JsonV
        decreases self,
    {
        match self {
            Json::Null => JsonV::Null,
            Json::Bool(b) => JsonV::Bool(*b),
            Json::Number(n) => JsonV::Number(n@),
            Json::Str(s) => JsonV::Str(s@),
            Json::Array(items) => JsonV::Array(
                Seq::new(
                    items@.len(),
                    |i: int|
                        if 0 <= i < items@.len() {
                            items@[i].view()
                        } else {
                            JsonV::Null
                        },
                ),
            ),
            Json::Object(entries) => JsonV::Object(
                Seq::new(
                    entries@.len(),
                    |i: int|
                        (
                            entries@[i].0@,
                            if 0 <= i < entries@.len() {
                                entries@[i].1.view()
                            } else {
                                JsonV::Null
                            },
                        ),
                ),
            ),
        }
    }
}

impl Json {
    /// `Value::get` with a key: a member of an object, nothing otherwise.
    pub open spec fn field(self, key: Seq<char>) -> Option<Json> {
        match self {
            Json::Object(entries) => member(entries@, key),
            _ => None,
        }
    }

    /// `Value::as_str`.
    pub open spec fn text(self) -> Option<Seq<char>> {
        match self {
            Json::Str(s) => Some(s@),
            _ => None,
        }
    }

    /// `Value::get` with a key.
    pub fn get(&self, key: &str) -> (r: Option<&Json>)
        ensures
            match r {
                Some(v) => self.field(key@) == Some(*v),
                None => self.field(key@) is None,
            },
    {
        match self {
            Json::Object(entries) => find_member(entries, key),
            _ => None,
        }
    }

    /// A copy of this value.
    pub fn duplicate(&self) -> (r: Json)
        ensures
            r@ == self@,
        decreases self,
    {
        match self {
            Json::Null => Json::Null,
            Json::Bool(b) => Json::Bool(*b),
            Json::Number(n) => Json::Number(n.clone()),
            Json::Str(s) => Json::Str(s.clone()),
            Json::Array(items) => {
                let mut out: Vec<Json> = Vec::new();
                let n = items.len();
                let mut i: usize = 0;
                while i < n
                    invariant
                        n == items@.len(),
                        i <= n,
                        out@.len() == i,
                        forall|j: int| 0 <= j < i ==> (#[trigger] out@[j])@ == items@[j]@,
                        *self == Json::Array(*items),
                    decreases n - i,
                {
                    proof {
                        assert(decreases_to!(*self => (*self)->Array_0));
                        assert((*self)->Array_0 == *items);
                        assert(decreases_to!(*items => items@));
                        assert(decreases_to!(items@ => items@[i as int]));
                    }
                    let c = items[i].duplicate();
                    out.push(c);
                    i = i + 1;
                }
                let r = Json::Array(out);
                assert(r@ == self@) by {
                    if let JsonV::Array(a) = r@ {
                        if let JsonV::Array(b) = self@ {
                            assert(a =~= b);
                        }
                    }
                }
                r
            },
            Json::Object(entries) => {
                let mut out: Vec<(String, Json)> = Vec::new();
                let n = entries.len();
                let mut i: usize = 0;
                while i < n
                    invariant
                        n == entries@.len(),
                        i <= n,
                        out@.len() == i,
                        forall|j: int| 0 <= j < i ==> (#[trigger] out@[j]).0@ == entries@[j].0@ && out@[j].1@ == entries@[j].1@,
                        *self == Json::Object(*entries),
                    decreases n - i,
                {
                    proof {
                        assert(decreases_to!(*self => (*self)->Object_0));
                        assert((*self)->Object_0 == *entries);
                        assert(decreases_to!(*entries => entries@));
                        assert(decreases_to!(entries@ => entries@[i as int]));
                        assert(decreases_to!(entries@[i as int] => entries@[i as int].1));
                    }
                    let k = entries[i].0.clone();
                    let v = entries[i].1.duplicate();
                    out.push((k, v));
                    i = i + 1;
                }
                let r = Json::Object(out);
                assert(r@ == self@) by {
                    if let JsonV::Object(a) = r@ {
                        if let JsonV::Object(b) = self@ {
                            assert forall|j: int| 0 <= j < a.len() implies a[j] == b[j] by {
                                assert(out@[j].0@ == entries@[j].0@);
                                assert(out@[j].1@ == entries@[j].1@);
                            }
                            assert(a =~= b);
                        }
                    }
                }
                r
            },
        }
    }

    /// `Value::as_str`.
    pub fn as_str(&self) -> (r: Option<&str>)
        ensures
            match r {
                Some(s) => self.text() == Some(s@),
                None => self.text() is None,
            },
    {
        match self {
            Json::Str(s) => Some(s.as_str()),
            _ => None,
        }
    }

    /// The text of the member `key` when it is a string.
    pub open spec fn field_text(self, key: Seq<char>) -> Option<Seq<char>> {
        match self.field(key) {
            Some(v) => v.text(),
            None => None,
        }
    }

    /// `v.get(key).and_then(|x| x.as_str())`, owned.
    pub fn get_text(&self, key: &str) -> (r: Option<String>)
        ensures
            match r {
                Some(s) => self.field_text(key@) == Some(s@),
                None => self.field_text(key@) is None,
            },
    {
        match self.get(key) {
            Some(v) => match v.as_str() {
                Some(s) => Some(owned(s)),
                None => None,
            },
            None => None,
        }
    }

    /// The member `key` as text, or the empty text.
    pub open spec fn field_text_or_empty(self, key: Seq<char>) -> Seq<char> {
        match self.field_text(key) {
            Some(s) => s,
            None => Seq::empty(),
        }
    }

    /// `v.get(key).and_then(|x| x.as_str()).unwrap_or("")`, owned.
    pub fn get_text_or_empty(&self, key: &str) -> (r: String)
        ensures
            r@ == self.field_text_or_empty(key@),
    {
        match self.get_text(key) {
            Some(s) => s,
            None => String::new(),
        }
    }

    /// `Map::insert` on an object's members: the member is replaced in place,
    /// or appended when the object lacks it. Other values are left alone,
    /// as `as_object_mut` yields nothing for them.
    pub fn insert(&mut self, key: String, value: Json)
        ensures
            match *old(self) {
                Json::Object(_) => {
                    &&& *final(self) is Object
                    &&& forall|k: Seq<char>| #[trigger] final(self).field(k) == if k == key@ {
                        Some(value)
                    } else {
                        old(self).field(k)
                    }
                },
                _ => *final(self) == *old(self),
            },
    {
        match self {
            Json::Object(entries) => {
                insert_member(entries, key, value);
            },
            _ => {},
        }
    }
}

/// The member `key` of an object's members.
pub fn find_member<'a>(entries: &'a Vec<(String, Json)>, key: &str) -> (r: Option<&'a Json>)
    ensures
        match r {
            Some(v) => member(entries@, key@) == Some(*v),
            None => member(entries@, key@) is None,
        },
{
    let n = entries.len();
    let mut i: usize = 0;
    while i < n
        invariant
            n == entries@.len(),
            i <= n,
            forall|j: int| 0 <= j < i ==> (#[trigger] entries@[j]).0@ != key@,
        decreases n - i,
    {
        if eq_str(entries[i].0.as_str(), key) {
            proof {
                lemma_member_skip(entries@, key@, i as int);
                let sub = entries@.subrange(i as int, n as int);
                assert(sub[0] == entries@[i as int]);
            }
            return Some(&entries[i].1);
        }
        i = i + 1;
    }
    proof {
        lemma_member_none(entries@, key@);
    }
    None
}

/// Sets the member `key` of an object's members, in place when present.
pub fn insert_member(entries: &mut Vec<(String, Json)>, key: String, value: Json)
    ensures
        forall|k: Seq<char>| #[trigger] member(final(entries)@, k) == if k == key@ {
            Some(value)
        } else {
            member(old(entries)@, k)
        },
{
    let n = entries.len();
    let mut i: usize = 0;
    while i < n
        invariant
            n == entries@.len(),
            entries@ == old(entries)@,
            i <= n,
            forall|j: int| 0 <= j < i ==> (#[trigger] entries@[j]).0@ != key@,
        decreases n - i,
    {
        if eq_str(entries[i].0.as_str(), key.as_str()) {
            let ghost before = entries@;
            let ghost e = (key, value);
            entries.set(i, (key, value));
            proof {
                assert forall|k: Seq<char>| #[trigger] member(entries@, k) == if k == e.0@ {
                    Some(e.1)
                } else {
                    member(before, k)
                } by {
                    lemma_member_update(before, i as int, e, k);
                }
            }
            return ;
        }
        i = i + 1;
    }
    let ghost before = entries@;
    let ghost e = (key, value);
    entries.push((key, value));
    proof {
        assert forall|k: Seq<char>| #[trigger] member(entries@, k) == if k == e.0@ {
            Some(e.1)
        } else {
            member(before, k)
        } by {
            lemma_member_push(before, e, k);
            if k == e.0@ {
                lemma_member_none(before, k);
            }
        }
    }
}


/// `field` seen through the view.
pub proof fn lemma_field_view(j: Json, key: Seq<char>)
    ensures
        match j.field(key) {
            Some(v) => j@.get(key) == Some(v@),
            None => j@.get(key) is None,
        },
{
    if let Json::Object(entries) = j {
        lemma_member_view(entries@, key);
        assert(j@->Object_0 =~= entries_views(entries@));
    }
}

/// The members' views.
pub open spec fn entries_views(s: Seq<(String, Json)>) -> Seq<(Seq<char>, JsonV)> {
    Seq::new(s.len(), |i: int| (s[i].0@, s[i].1@))
}

proof fn lemma_member_view(s: Seq<(String, Json)>, key: Seq<char>)
    ensures
        match member(s, key) {
            Some(v) => member_v(entries_views(s), key) == Some(v@),
            None => member_v(entries_views(s), key) is None,
        },
    decreases s.len(),
{
    if s.len() > 0 {
        assert(entries_views(s.drop_first()) =~= entries_views(s).drop_first());
        lemma_member_view(s.drop_first(), key);
    }
}


/// The views of a sequence of JSON values.
pub open spec fn json_views(s: Seq<Json>) -> Seq<JsonV> {
    s.map_values(|j: Json| j@)
}

/// An object's view is its members' views.
pub proof fn lemma_object_view(j: Json)
    requires
        j is Object,
    ensures
        j@ == JsonV::Object(entries_views(j->Object_0@)),
{
    assert(j@->Object_0 =~= entries_views(j->Object_0@));
}

/// An array's view is its elements' views.
pub proof fn lemma_array_view(j: Json)
    requires
        j is Array,
    ensures
        j@ == JsonV::Array(json_views(j->Array_0@)),
{
    assert(j@->Array_0 =~= json_views(j->Array_0@));
}

/// Skipping members whose keys differ leaves `member_v` unchanged.
pub proof fn lemma_member_v_skip(entries: Seq<(Seq<char>, JsonV)>, key: Seq<char>, i: int)
    requires
        0 <= i <= entries.len(),
        forall|j: int| 0 <= j < i ==> (#[trigger] entries[j]).0 != key,
    ensures
        member_v(entries, key) == if i < entries.len() && entries[i].0 == key {
            Some(entries[i].1)
        } else if i < entries.len() {
            member_v(entries.subrange(i, entries.len() as int), key)
        } else {
            None
        },
    decreases i,
{
    if i == 0 {
        if entries.len() > 0 {
            assert(entries.subrange(0, entries.len() as int) =~= entries);
        }
    } else {
        let t = entries.drop_first();
        assert forall|j: int| 0 <= j < i - 1 implies (#[trigger] t[j]).0 != key by {
            assert(t[j] == entries[j + 1]);
        }
        assert(entries[0].0 != key);
        lemma_member_v_skip(t, key, i - 1);
        if i < entries.len() {
            assert(t[i - 1] == entries[i]);
            assert(t.subrange(i - 1, t.len() as int) =~= entries.subrange(i, entries.len() as int));
        }
    }
}

} // verus!
