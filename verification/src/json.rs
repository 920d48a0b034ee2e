//! JSON values.
//!
//! Numbers are 64-bit integers. The members of an object keep the order they
//! were given in; a member is found by the first key that is equal.

use vstd::prelude::*;
use crate::text::copy_str;
use crate::text::str_eq;

verus! {

/// What a JSON value is, mathematically.
pub enum Json {
    Null,
    Bool(bool),
    Number(int),
    Text(Seq<char>),
    Array(Seq<Json>),
    Object(Seq<(Seq<char>, Json)>),
}

/// A JSON value. Numbers are 64-bit integers; the members of an object keep
/// the order they were given in.
#[derive(Debug, PartialEq, Eq)]
pub enum Value {
    Null,
    Bool(bool),
    Number(i64),
    Text(String),
    Array(Vec<Value>),
    Object(Vec<(String, Value)>),
}

impl View for Value {
    type V = Json;

    open spec fn view(&self) -> Json
        decreases self,
    {
        match self {
            Value::Null => Json::Null,
            Value::Bool(b) => Json::Bool(*b),
            Value::Number(n) => Json::Number(*n as int),
            Value::Text(s) => Json::Text(s@),
            Value::Array(items) => Json::Array(spec_views(items@)),
            Value::Object(entries) => Json::Object(spec_entry_views(entries@)),
        }
    }
}

/// The views of a list of values.
pub open spec fn spec_views(items: Seq<Value>) -> Seq<Json>
    decreases items,
{
    Seq::new(
        items.len(),
        |i: int|
            if 0 <= i < items.len() {
                items[i].view()
            } else {
                Json::Null
            },
    )
}

/// The views of the members of an object.
pub open spec fn spec_entry_views(entries: Seq<(String, Value)>) -> Seq<(Seq<char>, Json)>
    decreases entries,
{
    Seq::new(
        entries.len(),
        |i: int|
            if 0 <= i < entries.len() {
                (entries[i].0@, entries[i].1.view())
            } else {
                (Seq::empty(), Json::Null)
            },
    )
}

/// Whether no key occurs twice.
pub open spec fn spec_keys_distinct(entries: Seq<(Seq<char>, Json)>) -> bool {
    forall|i: int, j: int| 0 <= i < j < entries.len() ==> entries[i].0 != entries[j].0
}

/// The value of the first member with `key`, if there is one.
pub open spec fn spec_get(entries: Seq<(Seq<char>, Json)>, key: Seq<char>) -> Option<Json>
    decreases entries.len(),
{
    if entries.len() == 0 {
        None
    } else if entries[0].0 == key {
        Some(entries[0].1)
    } else {
        spec_get(entries.drop_first(), key)
    }
}

impl Json {
    /// The value of the first member with `key`, if this is an object that
    /// has one.
    pub open spec fn get(self, key: Seq<char>) -> Option<Json> {
        match self {
            Json::Object(entries) => spec_get(entries, key),
            _ => None,
        }
    }
}

/// In an object without a key twice, every member is found by its key.
pub proof fn lemma_get_at(entries: Seq<(Seq<char>, Json)>, i: int)
    requires
        spec_keys_distinct(entries),
        0 <= i < entries.len(),
    ensures
        spec_get(entries, entries[i].0) == Some(entries[i].1),
    decreases entries.len(),
{
    if i > 0 {
        let rest = entries.drop_first();
        assert(spec_keys_distinct(rest)) by {
            assert forall|a: int, b: int| 0 <= a < b < rest.len() implies rest[a].0 != rest[b].0 by {
                assert(rest[a] == entries[a + 1]);
                assert(rest[b] == entries[b + 1]);
            }
        }
        assert(rest[i - 1] == entries[i]);
        lemma_get_at(rest, i - 1);
    }
}

/// A key that no member has is not found.
pub proof fn lemma_get_absent(entries: Seq<(Seq<char>, Json)>, key: Seq<char>)
    requires
        forall|i: int| 0 <= i < entries.len() ==> (#[trigger] entries[i]).0 != key,
    ensures
        spec_get(entries, key) is None,
    decreases entries.len(),
{
    if entries.len() > 0 {
        let rest = entries.drop_first();
        assert forall|i: int| 0 <= i < rest.len() implies (#[trigger] rest[i]).0 != key by {
            assert(rest[i] == entries[i + 1]);
        }
        lemma_get_absent(rest, key);
    }
}

/// What is left of a list of members without a key has no member with that
/// key, and is the list itself where no member had it.
pub proof fn lemma_without(entries: Seq<(Seq<char>, Json)>, key: Seq<char>)
    ensures
        forall|i: int|
            0 <= i < spec_without(entries, key).len() ==> (#[trigger] spec_without(entries, key)[i]).0 != key,
        (forall|i: int| 0 <= i < entries.len() ==> (#[trigger] entries[i]).0 != key) ==> spec_without(
            entries,
            key,
        ) == entries,
    decreases entries.len(),
{
    if entries.len() > 0 {
        lemma_without(entries.drop_last(), key);
        let rest = spec_without(entries.drop_last(), key);
        let all = spec_without(entries, key);
        assert forall|i: int| 0 <= i < all.len() implies (#[trigger] all[i]).0 != key by {
            if i < rest.len() {
                assert(all[i] == rest[i]);
            }
        }
        if forall|i: int| 0 <= i < entries.len() ==> (#[trigger] entries[i]).0 != key {
            assert forall|i: int| 0 <= i < entries.drop_last().len() implies (#[trigger] entries.drop_last()[i]).0
                != key by {
                assert(entries.drop_last()[i] == entries[i]);
            }
            assert(entries.drop_last().push(entries.last()) =~= entries);
        }
    } else {
        assert(spec_without(entries, key) =~= entries);
    }
}

/// A member put at the end of a list that has not its key is found by its
/// key, and every other key finds what it found before.
pub proof fn lemma_get_push(entries: Seq<(Seq<char>, Json)>, key: Seq<char>, value: Json)
    requires
        forall|i: int| 0 <= i < entries.len() ==> (#[trigger] entries[i]).0 != key,
    ensures
        spec_get(entries.push((key, value)), key) == Some(value),
    decreases entries.len(),
{
    let all = entries.push((key, value));
    if entries.len() > 0 {
        let rest = entries.drop_first();
        assert(all[0] == entries[0]);
        assert(all.drop_first() =~= rest.push((key, value)));
        assert forall|i: int| 0 <= i < rest.len() implies (#[trigger] rest[i]).0 != key by {
            assert(rest[i] == entries[i + 1]);
        }
        lemma_get_push(rest, key, value);
    } else {
        assert(all[0] == (key, value));
    }
}

/// What a list of items reads as, item by item in order: the list of what
/// the items read as, or nothing where an item reads as nothing.
pub open spec fn spec_read_all<T>(items: Seq<Json>, read: spec_fn(Json) -> Option<T>) -> Option<Seq<T>>
    decreases items.len(),
{
    if items.len() == 0 {
        Some(Seq::empty())
    } else {
        match (spec_read_all(items.drop_last(), read), read(items.last())) {
            (Some(rest), Some(item)) => Some(rest.push(item)),
            _ => None,
        }
    }
}

/// Where the first items of a list read as nothing, so does the list.
pub proof fn lemma_read_all_prefix<T>(items: Seq<Json>, read: spec_fn(Json) -> Option<T>, n: int)
    requires
        0 <= n <= items.len(),
        spec_read_all(items.take(n), read) is None,
    ensures
        spec_read_all(items, read) is None,
    decreases items.len() - n,
{
    if n < items.len() {
        assert(items.take(n + 1).drop_last() =~= items.take(n));
        lemma_read_all_prefix(items, read, n + 1);
    } else {
        assert(items.take(n) =~= items);
    }
}

/// A list reads as the list it was written from, where each item reads as
/// what it was written from.
pub proof fn lemma_read_all_written<T>(
    values: Seq<T>,
    write: spec_fn(T) -> Json,
    read: spec_fn(Json) -> Option<T>,
)
    requires
        forall|i: int| 0 <= i < values.len() ==> read(write(#[trigger] values[i])) == Some(values[i]),
    ensures
        spec_read_all(Seq::new(values.len(), |i: int| write(values[i])), read) == Some(values),
    decreases values.len(),
{
    let items = Seq::new(values.len(), |i: int| write(values[i]));
    if values.len() > 0 {
        let rest = values.drop_last();
        lemma_read_all_written(rest, write, read);
        assert(items.drop_last() =~= Seq::new(rest.len(), |i: int| write(rest[i])));
        assert(items.last() == write(values.last()));
        assert(rest.push(values.last()) =~= values);
    } else {
        assert(values =~= Seq::<T>::empty());
    }
}

/// The items of the member `key` of an object: none where the object has no
/// such member; nothing where the member is no array.
pub open spec fn spec_list_of(j: Json, key: Seq<char>) -> Option<Seq<Json>> {
    match j.get(key) {
        None => Some(Seq::empty()),
        Some(Json::Array(items)) => Some(items),
        Some(_) => None,
    }
}

/// The text of the member `key` of an object, where it has one that is
/// text.
pub open spec fn spec_text_of(j: Json, key: Seq<char>) -> Option<Seq<char>> {
    match j.get(key) {
        Some(Json::Text(s)) => Some(s),
        _ => None,
    }
}

/// The members whose key is not `key`, in order.
pub open spec fn spec_without(entries: Seq<(Seq<char>, Json)>, key: Seq<char>) -> Seq<(Seq<char>, Json)>
    decreases entries.len(),
{
    if entries.len() == 0 {
        Seq::empty()
    } else if entries.last().0 == key {
        spec_without(entries.drop_last(), key)
    } else {
        spec_without(entries.drop_last(), key).push(entries.last())
    }
}

fn copy_items(items: &Vec<Value>) -> (out: Vec<Value>)
    ensures
        spec_views(out@) == spec_views(items@),
    decreases items,
{
    let mut out: Vec<Value> = Vec::new();
    let mut i: usize = 0;
    while i < items.len()
        invariant
            i <= items.len(),
            out.len() == i,
            forall|k: int| 0 <= k < i ==> (#[trigger] out@[k])@ == items@[k]@,
        decreases items.len() - i,
    {
        out.push(items[i].deep_copy());
        i += 1;
    }
    assert(spec_views(out@) =~= spec_views(items@));
    out
}

fn copy_entries(entries: &Vec<(String, Value)>) -> (out: Vec<(String, Value)>)
    ensures
        spec_entry_views(out@) == spec_entry_views(entries@),
    decreases entries,
{
    let mut out: Vec<(String, Value)> = Vec::new();
    let mut i: usize = 0;
    while i < entries.len()
        invariant
            i <= entries.len(),
            out.len() == i,
            forall|k: int|
                0 <= k < i ==> (#[trigger] out@[k]).0@ == entries@[k].0@ && out@[k].1@ == entries@[k].1@,
        decreases entries.len() - i,
    {
        let key: String = copy_str(entries[i].0.as_str());
        let value: Value = entries[i].1.deep_copy();
        out.push((key, value));
        i += 1;
    }
    assert(spec_entry_views(out@) =~= spec_entry_views(entries@));
    out
}

impl Value {
    /// A text value.
    pub fn text(s: &str) -> (v: Value)
        ensures
            v@ == Json::Text(s@),
    {
        Value::Text(copy_str(s))
    }

    /// The value of the first member with `key`, if this is an object that
    /// has one.
    pub fn get(&self, key: &str) -> (r: Option<&Value>)
        ensures
            r is Some <==> self@.get(key@) is Some,
            r is Some ==> r->0@ == self@.get(key@)->0,
    {
        match self {
            Value::Object(entries) => {
                let ghost views = spec_entry_views(entries@);
                let mut i: usize = 0;
                assert(views.skip(0) =~= views);
                while i < entries.len()
                    invariant
                        i <= entries.len(),
                        views == spec_entry_views(entries@),
                        self@ == Json::Object(views),
                        spec_get(views, key@) == spec_get(views.skip(i as int), key@),
                    decreases entries.len() - i,
                {
                    proof {
                        assert(views.skip(i as int)[0] == views[i as int]);
                        assert(views.skip(i as int).drop_first() =~= views.skip(i + 1));
                    }
                    if str_eq(entries[i].0.as_str(), key) {
                        return Some(&entries[i].1);
                    }
                    i += 1;
                }
                None
            },
            _ => None,
        }
    }

    /// Copies of the members of an object whose key is not `key`, in order;
    /// none where the value is no object.
    pub fn without(&self, key: &str) -> (r: Option<Vec<(String, Value)>>)
        ensures
            r is Some <==> self@ is Object,
            r is Some ==> spec_entry_views(r->0@) == spec_without(self@->Object_0, key@),
    {
        match self {
            Value::Object(entries) => {
                let ghost views = spec_entry_views(entries@);
                let mut out: Vec<(String, Value)> = Vec::new();
                let mut i: usize = 0;
                proof {
                    assert(views.take(0) =~= Seq::empty());
                    assert(spec_entry_views(out@) =~= Seq::empty());
                }
                while i < entries.len()
                    invariant
                        i <= entries.len(),
                        views == spec_entry_views(entries@),
                        spec_entry_views(out@) == spec_without(views.take(i as int), key@),
                    decreases entries.len() - i,
                {
                    let ghost before = spec_entry_views(out@);
                    proof {
                        assert(views.take(i + 1).drop_last() =~= views.take(i as int));
                        assert(views.take(i + 1).last() == views[i as int]);
                    }
                    if !str_eq(entries[i].0.as_str(), key) {
                        let name: String = copy_str(entries[i].0.as_str());
                        let value: Value = entries[i].1.deep_copy();
                        out.push((name, value));
                        proof {
                            assert(spec_entry_views(out@) =~= before.push(views[i as int]));
                        }
                    }
                    i += 1;
                }
                proof {
                    assert(views.take(views.len() as int) =~= views);
                }
                Some(out)
            },
            _ => None,
        }
    }

    /// The text of the member `key`, where the value is an object that has
    /// one that is text.
    pub fn text_of(&self, key: &str) -> (r: Option<&str>)
        ensures
            r is Some <==> spec_text_of(self@, key@) is Some,
            r is Some ==> r->0@ == spec_text_of(self@, key@)->0,
    {
        match self.get(key) {
            Some(v) => v.as_text(),
            None => None,
        }
    }

    /// The characters of a text value.
    pub fn as_text(&self) -> (r: Option<&str>)
        ensures
            r is Some <==> self@ is Text,
            r is Some ==> r->0@ == self@->Text_0,
    {
        match self {
            Value::Text(s) => Some(s.as_str()),
            _ => None,
        }
    }

    /// The items of an array.
    pub fn as_array(&self) -> (r: Option<&Vec<Value>>)
        ensures
            r is Some <==> self@ is Array,
            r is Some ==> spec_views(r->0@) == self@->Array_0,
    {
        match self {
            Value::Array(items) => Some(items),
            _ => None,
        }
    }

    /// A copy of the value.
    pub fn deep_copy(&self) -> (v: Value)
        ensures
            v@ == self@,
        decreases self,
    {
        match self {
            Value::Null => Value::Null,
            Value::Bool(b) => Value::Bool(*b),
            Value::Number(n) => Value::Number(*n),
            Value::Text(s) => Value::Text(copy_str(s.as_str())),
            Value::Array(items) => Value::Array(copy_items(items)),
            Value::Object(entries) => Value::Object(copy_entries(entries)),
        }
    }
}

} // verus!
