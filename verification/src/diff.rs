//! Signed differences between two versions of a document.
//!
//! The difference between two JSON objects is a list of changes, one for
//! each member that was removed, added or replaced. Members are compared by
//! their canonical forms, so an array is one value: it is replaced as a whole
//! or not at all. A signed difference names the message that came before it,
//! which makes the differences of a document a chain.

use vstd::prelude::*;
use crate::bytes::bytes_eq;
use crate::document::Document;
use crate::document::SpecDocument;
use crate::document::spec_resolve;
use crate::document_json::lemma_doc_json_valid;
use crate::document_json::read_proof;
use crate::document_json::spec_doc_json;
use crate::document_json::spec_proof_members;
use crate::document_json::spec_read_proof;
use crate::ed25519;
use crate::error::Error;
use crate::jcs::spec_jcs;
use crate::jcs::spec_valid;
use crate::jcs::to_jcs;
use crate::json::Json;
use crate::json::Value;
use crate::json::lemma_get_absent;
use crate::json::lemma_get_at;
use crate::json::lemma_read_all_prefix;
use crate::json::lemma_read_all_written;
use crate::json::spec_entry_views;
use crate::json::spec_get;
use crate::json::spec_keys_distinct;
use crate::json::spec_list_of;
use crate::json::spec_read_all;
use crate::json::spec_text_of;
use crate::json::spec_views;
use crate::method::Method;
use crate::method::MethodIdent;
use crate::method::MethodScope;
use crate::method::SpecIdent;
use crate::method_query::MethodQuery;
use crate::signature::SetSignature;
use crate::signature::Signature;
use crate::signature::SpecSignature;
use crate::signature::TrySignature;
use crate::signature::TrySignatureMut;
use crate::signature::lemma_signature_json_valid;
use crate::signature::lemma_signature_round_trip;
use crate::signature::sign_value;
use crate::signature::spec_opt_signature;
use crate::signature::spec_sign_value;
use crate::signature::spec_signature_json;
use crate::signature::spec_signature_round_trips;
use crate::signature::spec_verify_value;
use crate::signature::verify_value;
use crate::text::copy_str;
use crate::text::str_eq;

verus! {

/// One change of a member of an object.
#[derive(Debug, PartialEq, Eq)]
pub enum Change {
    /// A member that the new object has and the old one has not.
    Add(String, Value),
    /// A member that the old object has and the new one has not.
    Remove(String),
    /// A member that both have, with the value it has in the new one.
    Replace(String, Value),
}

/// What a change is, mathematically.
pub enum SpecChange {
    Add(Seq<char>, Json),
    Remove(Seq<char>),
    Replace(Seq<char>, Json),
}

impl View for Change {
    type V = SpecChange;

    open spec fn view(&self) -> SpecChange {
        match self {
            Change::Add(key, value) => SpecChange::Add(key@, value@),
            Change::Remove(key) => SpecChange::Remove(key@),
            Change::Replace(key, value) => SpecChange::Replace(key@, value@),
        }
    }
}

/// The views of a list of changes.
pub open spec fn spec_changes(changes: Seq<Change>) -> Seq<SpecChange> {
    Seq::new(changes.len(), |i: int| changes[i]@)
}

/// A removal for each member of `old` whose key `new` has not, in the order
/// of `old`.
pub open spec fn spec_removed(old: Seq<(Seq<char>, Json)>, new: Seq<(Seq<char>, Json)>) -> Seq<SpecChange>
    decreases old.len(),
{
    if old.len() == 0 {
        Seq::empty()
    } else {
        let rest = spec_removed(old.drop_last(), new);
        if spec_get(new, old.last().0) is None {
            rest.push(SpecChange::Remove(old.last().0))
        } else {
            rest
        }
    }
}

/// For each member of `new`, in the order of `new`: an addition where `old`
/// has not its key, a replacement where `old` has it with a value of another
/// canonical form, and nothing where the canonical forms are the same.
pub open spec fn spec_changed(old: Seq<(Seq<char>, Json)>, new: Seq<(Seq<char>, Json)>) -> Seq<SpecChange>
    decreases new.len(),
{
    if new.len() == 0 {
        Seq::empty()
    } else {
        let rest = spec_changed(old, new.drop_last());
        let entry = new.last();
        match spec_get(old, entry.0) {
            None => rest.push(SpecChange::Add(entry.0, entry.1)),
            Some(before) => if spec_jcs(before) != spec_jcs(entry.1) {
                rest.push(SpecChange::Replace(entry.0, entry.1))
            } else {
                rest
            },
        }
    }
}

/// The difference between two values: the removals, then the additions and
/// replacements. Both must be objects with a canonical form.
pub open spec fn spec_diff(old: Json, new: Json) -> Result<Seq<SpecChange>, Error> {
    if old is Object && new is Object && spec_valid(old) && spec_valid(new) {
        Ok(spec_removed(old->Object_0, new->Object_0) + spec_changed(old->Object_0, new->Object_0))
    } else {
        Err(Error::EncodingFailure)
    }
}

/// The value that `spec_get` finds is the value of a member.
pub proof fn lemma_get_is_member(entries: Seq<(Seq<char>, Json)>, key: Seq<char>)
    ensures
        spec_get(entries, key) is Some ==> exists|i: int|
            0 <= i < entries.len() && (#[trigger] entries[i]).1 == spec_get(entries, key)->0,
    decreases entries.len(),
{
    if entries.len() > 0 {
        if entries[0].0 == key {
            assert(entries[0].1 == spec_get(entries, key)->0);
        } else {
            lemma_get_is_member(entries.drop_first(), key);
            if spec_get(entries, key) is Some {
                let i = choose|i: int|
                    0 <= i < entries.drop_first().len() && (#[trigger] entries.drop_first()[i]).1 == spec_get(
                        entries.drop_first(),
                        key,
                    )->0;
                assert(entries[i + 1].1 == spec_get(entries, key)->0);
            }
        }
    }
}

fn same_form(a: &Value, b: &Value) -> (same: bool)
    requires
        spec_valid(a@),
        spec_valid(b@),
    ensures
        same == (spec_jcs(a@) == spec_jcs(b@)),
{
    match (to_jcs(a), to_jcs(b)) {
        (Ok(x), Ok(y)) => bytes_eq(x.as_slice(), y.as_slice()),
        _ => false,
    }
}

/// The difference between two JSON objects. Fails with `EncodingFailure`
/// exactly when one of the two is no object or has no canonical form.
pub fn diff_values(old: &Value, new: &Value) -> (r: Result<Vec<Change>, Error>)
    ensures
        r is Ok <==> spec_diff(old@, new@) is Ok,
        r is Ok ==> spec_changes(r->Ok_0@) == spec_diff(old@, new@)->Ok_0,
        r is Err ==> r->Err_0 == Error::EncodingFailure,
{
    let old_entries: &Vec<(String, Value)> = match old {
        Value::Object(entries) => entries,
        _ => return Err(Error::EncodingFailure),
    };
    let new_entries: &Vec<(String, Value)> = match new {
        Value::Object(entries) => entries,
        _ => return Err(Error::EncodingFailure),
    };
    match to_jcs(old) {
        Ok(_) => {},
        Err(_) => return Err(Error::EncodingFailure),
    }
    match to_jcs(new) {
        Ok(_) => {},
        Err(_) => return Err(Error::EncodingFailure),
    }
    let ghost olds = spec_entry_views(old_entries@);
    let ghost news = spec_entry_views(new_entries@);
    let mut changes: Vec<Change> = Vec::new();
    let mut i: usize = 0;
    proof {
        assert(olds.take(0) =~= Seq::empty());
        assert(spec_changes(changes@) =~= Seq::empty());
    }
    while i < old_entries.len()
        invariant
            i <= old_entries.len(),
            olds == spec_entry_views(old_entries@),
            new@ == Json::Object(news),
            spec_changes(changes@) == spec_removed(olds.take(i as int), news),
        decreases old_entries.len() - i,
    {
        let ghost before = spec_changes(changes@);
        proof {
            assert(olds.take(i + 1).drop_last() =~= olds.take(i as int));
            assert(olds.take(i + 1).last() == olds[i as int]);
        }
        if new.get(old_entries[i].0.as_str()).is_none() {
            changes.push(Change::Remove(copy_str(old_entries[i].0.as_str())));
            proof {
                assert(spec_changes(changes@) =~= before.push(SpecChange::Remove(olds[i as int].0)));
            }
        }
        i += 1;
    }
    proof {
        assert(olds.take(olds.len() as int) =~= olds);
        assert(news.take(0) =~= Seq::empty());
        assert(spec_changes(changes@) + Seq::<SpecChange>::empty() =~= spec_changes(changes@));
    }
    let ghost removed = spec_changes(changes@);
    let mut j: usize = 0;
    while j < new_entries.len()
        invariant
            j <= new_entries.len(),
            olds == spec_entry_views(old_entries@),
            news == spec_entry_views(new_entries@),
            old@ == Json::Object(olds),
            spec_valid(old@),
            spec_valid(new@),
            new@ == Json::Object(news),
            spec_changes(changes@) == removed + spec_changed(olds, news.take(j as int)),
        decreases new_entries.len() - j,
    {
        let ghost before = spec_changes(changes@);
        let ghost entry = news[j as int];
        proof {
            assert(news.take(j + 1).drop_last() =~= news.take(j as int));
            assert(news.take(j + 1).last() == entry);
            assert(spec_valid(news[j as int].1));
        }
        match old.get(new_entries[j].0.as_str()) {
            None => {
                changes.push(
                    Change::Add(copy_str(new_entries[j].0.as_str()), new_entries[j].1.deep_copy()),
                );
                proof {
                    assert(spec_changes(changes@) =~= before.push(SpecChange::Add(entry.0, entry.1)));
                    assert(before.push(SpecChange::Add(entry.0, entry.1)) =~= removed + spec_changed(
                        olds,
                        news.take(j + 1),
                    ));
                }
            },
            Some(found) => {
                proof {
                    lemma_get_is_member(olds, entry.0);
                }
                if !same_form(found, &new_entries[j].1) {
                    changes.push(
                        Change::Replace(copy_str(new_entries[j].0.as_str()), new_entries[j].1.deep_copy()),
                    );
                    proof {
                        assert(spec_changes(changes@) =~= before.push(
                            SpecChange::Replace(entry.0, entry.1),
                        ));
                        assert(before.push(SpecChange::Replace(entry.0, entry.1)) =~= removed + spec_changed(
                            olds,
                            news.take(j + 1),
                        ));
                    }
                }
            },
        }
        j += 1;
    }
    proof {
        assert(news.take(news.len() as int) =~= news);
    }
    Ok(changes)
}

/// The JSON form of a change: the operation, the key, and the new value
/// where there is one.
pub open spec fn spec_change_json(c: SpecChange) -> Json {
    match c {
        SpecChange::Add(key, value) => Json::Object(
            seq![("op"@, Json::Text("add"@)), ("key"@, Json::Text(key)), ("value"@, value)],
        ),
        SpecChange::Remove(key) => Json::Object(seq![("op"@, Json::Text("remove"@)), ("key"@, Json::Text(key))]),
        SpecChange::Replace(key, value) => Json::Object(
            seq![("op"@, Json::Text("replace"@)), ("key"@, Json::Text(key)), ("value"@, value)],
        ),
    }
}

/// The JSON forms of a list of changes.
pub open spec fn spec_changes_json(changes: Seq<SpecChange>) -> Seq<Json> {
    Seq::new(changes.len(), |i: int| spec_change_json(changes[i]))
}

impl Change {
    /// A copy of the change.
    pub fn copy(&self) -> (c: Change)
        ensures
            c@ == self@,
    {
        match self {
            Change::Add(key, value) => Change::Add(copy_str(key.as_str()), value.deep_copy()),
            Change::Remove(key) => Change::Remove(copy_str(key.as_str())),
            Change::Replace(key, value) => Change::Replace(copy_str(key.as_str()), value.deep_copy()),
        }
    }

    /// The JSON form of the change.
    pub fn to_json(&self) -> (value: Value)
        ensures
            value@ == spec_change_json(self@),
    {
        let mut members: Vec<(String, Value)> = Vec::new();
        match self {
            Change::Add(key, value) => {
                members.push((copy_str("op"), Value::text("add")));
                members.push((copy_str("key"), Value::text(key.as_str())));
                members.push((copy_str("value"), value.deep_copy()));
            },
            Change::Remove(key) => {
                members.push((copy_str("op"), Value::text("remove")));
                members.push((copy_str("key"), Value::text(key.as_str())));
            },
            Change::Replace(key, value) => {
                members.push((copy_str("op"), Value::text("replace")));
                members.push((copy_str("key"), Value::text(key.as_str())));
                members.push((copy_str("value"), value.deep_copy()));
            },
        }
        proof {
            assert(spec_entry_views(members@) =~= spec_change_json(self@)->Object_0);
        }
        Value::Object(members)
    }
}

/// A signed difference between two versions of a document.
#[derive(Debug, PartialEq, Eq)]
pub struct DocumentDiff {
    pub id: String,
    pub diff: Vec<Change>,
    pub previous_message_id: String,
    pub proof: Option<Signature>,
}

/// What a signed difference is, mathematically.
pub struct SpecDiff {
    pub id: Seq<char>,
    pub diff: Seq<SpecChange>,
    pub previous_message_id: Seq<char>,
    pub proof: Option<SpecSignature>,
}

impl View for DocumentDiff {
    type V = SpecDiff;

    open spec fn view(&self) -> SpecDiff {
        SpecDiff {
            id: self.id@,
            diff: spec_changes(self.diff@),
            previous_message_id: self.previous_message_id@,
            proof: spec_opt_signature(self.proof),
        }
    }
}

/// The JSON form of a signed difference.
pub open spec fn spec_diff_json(d: SpecDiff) -> Json {
    Json::Object(
        seq![
            ("id"@, Json::Text(d.id)),
            ("diff"@, Json::Array(spec_changes_json(d.diff))),
            ("previousMessageId"@, Json::Text(d.previous_message_id)),
        ] + spec_proof_members(d.proof),
    )
}

/// Whether the value that a change brings, if it brings one, has a
/// canonical form.
pub open spec fn spec_change_valid(c: SpecChange) -> bool {
    match c {
        SpecChange::Add(_, value) => spec_valid(value),
        SpecChange::Remove(_) => true,
        SpecChange::Replace(_, value) => spec_valid(value),
    }
}

/// Whether every change brings a value with a canonical form.
pub open spec fn spec_changes_valid(changes: Seq<SpecChange>) -> bool {
    forall|i: int| 0 <= i < changes.len() ==> spec_change_valid(#[trigger] changes[i])
}

/// The removals of a difference bring no value.
pub proof fn lemma_removed_valid(old: Seq<(Seq<char>, Json)>, new: Seq<(Seq<char>, Json)>)
    ensures
        spec_changes_valid(spec_removed(old, new)),
    decreases old.len(),
{
    if old.len() > 0 {
        lemma_removed_valid(old.drop_last(), new);
    }
}

/// The additions and replacements of a difference bring the values of the
/// new object, which have a canonical form where those of the new object
/// have one.
pub proof fn lemma_changed_valid(old: Seq<(Seq<char>, Json)>, new: Seq<(Seq<char>, Json)>)
    requires
        forall|i: int| 0 <= i < new.len() ==> spec_valid((#[trigger] new[i]).1),
    ensures
        spec_changes_valid(spec_changed(old, new)),
    decreases new.len(),
{
    if new.len() > 0 {
        assert forall|i: int| 0 <= i < new.drop_last().len() implies spec_valid(
            (#[trigger] new.drop_last()[i]).1,
        ) by {
            assert(new.drop_last()[i] == new[i]);
        }
        lemma_changed_valid(old, new.drop_last());
        assert(spec_valid(new[new.len() - 1].1));
    }
}

/// Every change of the difference between two objects brings a value with
/// a canonical form.
pub proof fn lemma_diff_valid(old: Json, new: Json)
    requires
        spec_diff(old, new) is Ok,
    ensures
        spec_changes_valid(spec_diff(old, new)->Ok_0),
{
    lemma_removed_valid(old->Object_0, new->Object_0);
    lemma_changed_valid(old->Object_0, new->Object_0);
}

/// The JSON form of a change has a canonical form where the value it brings
/// has one.
pub proof fn lemma_change_json_valid(c: SpecChange)
    requires
        spec_change_valid(c),
    ensures
        spec_valid(spec_change_json(c)),
{
    reveal_strlit("op");
    reveal_strlit("key");
    reveal_strlit("value");
    let entries = spec_change_json(c)->Object_0;
    assert("op"@.len() == 2);
    assert("key"@.len() == 3);
    assert("value"@.len() == 5);
    assert(spec_keys_distinct(entries));
    assert(spec_valid(entries[0].1));
    assert(spec_valid(entries[1].1));
}

/// The JSON form of a difference has a canonical form, and so has what is
/// signed of it, where every change brings a value that has one.
pub proof fn lemma_diff_json_valid(d: SpecDiff)
    requires
        spec_changes_valid(d.diff),
    ensures
        spec_valid(spec_diff_json(d)),
        spec_valid(spec_diff_signable(d)),
{
    lemma_diff_json_valid_with(d);
    lemma_diff_json_valid_with(SpecDiff { proof: None, ..d });
}

proof fn lemma_diff_json_valid_with(d: SpecDiff)
    requires
        spec_changes_valid(d.diff),
    ensures
        spec_valid(spec_diff_json(d)),
{
    reveal_strlit("id");
    reveal_strlit("diff");
    reveal_strlit("previousMessageId");
    reveal_strlit("proof");
    let entries = spec_diff_json(d)->Object_0;
    assert("id"@.len() == 2);
    assert("diff"@.len() == 4);
    assert("previousMessageId"@.len() == 17);
    assert("proof"@.len() == 5);
    assert(spec_keys_distinct(entries));
    let items = spec_changes_json(d.diff);
    assert forall|i: int| 0 <= i < items.len() implies spec_valid(#[trigger] items[i]) by {
        lemma_change_json_valid(d.diff[i]);
    }
    assert(spec_valid(Json::Array(items)));
    match d.proof {
        Some(s) => lemma_signature_json_valid(s),
        None => {},
    }
    assert(spec_valid(entries[0].1));
    assert(spec_valid(entries[2].1));
    assert forall|i: int| 0 <= i < entries.len() implies spec_valid((#[trigger] entries[i]).1) by {
        if i == 3 {
            assert(entries[3].1 == spec_signature_json(d.proof->0));
        }
    }
}

/// What is signed of a difference: its JSON form without a signature.
pub open spec fn spec_diff_signable(d: SpecDiff) -> Json {
    spec_diff_json(SpecDiff { proof: None, ..d })
}

/// What making the signed difference from one version of a document to
/// another comes to. The difference is that of the JSON forms of the two;
/// it is signed for the first method for authentication of the old version.
pub open spec fn spec_diff_doc(old: SpecDocument, new: SpecDocument, secret: Seq<u8>, previous: Seq<char>) -> Result<
    SpecDiff,
    Error,
> {
    match spec_diff(spec_doc_json(old), spec_doc_json(new)) {
        Err(e) => Err(e),
        Ok(changes) => match spec_resolve(old, SpecIdent::Index(0), MethodScope::Authentication) {
            None => Err(Error::UnresolvedMethod),
            Some(m) => {
                let unsigned = SpecDiff { id: old.id, diff: changes, previous_message_id: previous, proof: None };
                match spec_sign_value(spec_diff_json(unsigned), m.id, secret) {
                    Err(e) => Err(e),
                    Ok(sig) => Ok(SpecDiff { proof: Some(sig), ..unsigned }),
                }
            },
        },
    }
}

/// Whether a difference carries a signature that verifies under the method
/// for authentication of the document that the signature names.
pub open spec fn spec_verify_diff(d: SpecDocument, diff: SpecDiff) -> bool {
    match diff.proof {
        None => false,
        Some(sig) => match spec_resolve(d, SpecIdent::Ident(sig.verification_method), MethodScope::Authentication) {
            None => false,
            Some(m) => spec_verify_value(spec_diff_signable(diff), sig.value, m.key_data) is Ok,
        },
    }
}

/// The view of the outcome of making a difference.
pub open spec fn spec_diff_result(r: Result<DocumentDiff, Error>) -> Result<SpecDiff, Error> {
    match r {
        Ok(d) => Ok(d@),
        Err(e) => Err(e),
    }
}

fn changes_json(changes: &Vec<Change>) -> (out: Vec<Value>)
    ensures
        spec_views(out@) == spec_changes_json(spec_changes(changes@)),
{
    let mut out: Vec<Value> = Vec::new();
    let mut i: usize = 0;
    while i < changes.len()
        invariant
            i <= changes.len(),
            out.len() == i,
            forall|k: int| 0 <= k < i ==> (#[trigger] out@[k])@ == spec_change_json(changes@[k]@),
        decreases changes.len() - i,
    {
        out.push(changes[i].to_json());
        i += 1;
    }
    assert(spec_views(out@) =~= spec_changes_json(spec_changes(changes@)));
    out
}

impl DocumentDiff {
    fn json_with(&self, with_proof: bool) -> (value: Value)
        ensures
            with_proof ==> value@ == spec_diff_json(self@),
            with_proof && self@.proof is Some ==> spec_signature_round_trips(self@.proof->0),
            !with_proof ==> value@ == spec_diff_signable(self@),
    {
        let mut members: Vec<(String, Value)> = Vec::new();
        members.push((copy_str("id"), Value::text(self.id.as_str())));
        members.push((copy_str("diff"), Value::Array(changes_json(&self.diff))));
        members.push((copy_str("previousMessageId"), Value::text(self.previous_message_id.as_str())));
        if with_proof {
            match self.proof.as_ref() {
                Some(s) => {
                    members.push((copy_str("proof"), s.to_json()));
                },
                None => {},
            }
            proof {
                assert(spec_entry_views(members@) =~= spec_diff_json(self@)->Object_0);
            }
        } else {
            proof {
                assert(spec_entry_views(members@) =~= spec_diff_signable(self@)->Object_0);
            }
        }
        Value::Object(members)
    }

    /// The JSON form of the difference. It reads back as the difference.
    pub fn to_json(&self) -> (value: Value)
        ensures
            value@ == spec_diff_json(self@),
            spec_diff_from_json(value@) == Some(self@),
    {
        let value: Value = self.json_with(true);
        proof {
            lemma_diff_round_trip(self@);
        }
        value
    }

    /// What is signed of the difference: its JSON form without a signature.
    pub fn signable_json(&self) -> (value: Value)
        ensures
            value@ == spec_diff_signable(self@),
    {
        self.json_with(false)
    }
}

/// The change that a JSON value reads as, if it reads as one: an object
/// with the texts `op` and `key`, the operation being `add`, `remove` or
/// `replace`, and with a member `value` but for a removal.
pub open spec fn spec_change_from_json(j: Json) -> Option<SpecChange> {
    match (spec_text_of(j, "op"@), spec_text_of(j, "key"@)) {
        (Some(op), Some(key)) => if op == "remove"@ {
            Some(SpecChange::Remove(key))
        } else {
            match j.get("value"@) {
                Some(value) => if op == "add"@ {
                    Some(SpecChange::Add(key, value))
                } else if op == "replace"@ {
                    Some(SpecChange::Replace(key, value))
                } else {
                    None
                },
                None => None,
            }
        },
        _ => None,
    }
}

/// Reading a change, as a function.
pub open spec fn spec_change_reader() -> spec_fn(Json) -> Option<SpecChange> {
    |j: Json| spec_change_from_json(j)
}

/// The signed difference that a JSON value reads as, if it reads as one: an
/// object with the texts `id` and `previousMessageId`, a list `diff` of
/// changes, which may be missing, and a member `proof` that reads as a
/// signature where there is one.
pub open spec fn spec_diff_from_json(j: Json) -> Option<SpecDiff> {
    let id = spec_text_of(j, "id"@);
    let previous = spec_text_of(j, "previousMessageId"@);
    let changes = match spec_list_of(j, "diff"@) {
        Some(items) => spec_read_all(items, spec_change_reader()),
        None => None,
    };
    let carried = spec_read_proof(j);
    if id is Some && previous is Some && changes is Some && carried is Some {
        Some(SpecDiff { id: id->0, diff: changes->0, previous_message_id: previous->0, proof: carried->0 })
    } else {
        None
    }
}

/// Whether a JSON value reads as a difference that verifies against a
/// document. A value that reads as no difference does not verify.
pub open spec fn spec_verify_diff_json(d: SpecDocument, j: Json) -> bool {
    match spec_diff_from_json(j) {
        Some(diff) => spec_verify_diff(d, diff),
        None => false,
    }
}

/// A change is read back from its JSON form.
pub proof fn lemma_change_round_trip(c: SpecChange)
    ensures
        spec_change_from_json(spec_change_json(c)) == Some(c),
{
    reveal_strlit("op");
    reveal_strlit("key");
    reveal_strlit("value");
    reveal_strlit("add");
    reveal_strlit("remove");
    reveal_strlit("replace");
    assert("op"@.len() == 2);
    assert("key"@.len() == 3);
    assert("value"@.len() == 5);
    assert("add"@.len() == 3);
    assert("remove"@.len() == 6);
    assert("replace"@.len() == 7);
    let entries = spec_change_json(c)->Object_0;
    assert(spec_keys_distinct(entries));
    lemma_get_at(entries, 0);
    lemma_get_at(entries, 1);
    match c {
        SpecChange::Remove(_) => {},
        _ => {
            lemma_get_at(entries, 2);
        },
    }
}

/// A signed difference is read back from its JSON form, where the bytes of
/// its signature read back from their base58 text.
pub proof fn lemma_diff_round_trip(d: SpecDiff)
    requires
        d.proof is Some ==> spec_signature_round_trips(d.proof->0),
    ensures
        spec_diff_from_json(spec_diff_json(d)) == Some(d),
{
    reveal_strlit("id");
    reveal_strlit("diff");
    reveal_strlit("previousMessageId");
    reveal_strlit("proof");
    assert("id"@.len() == 2);
    assert("diff"@.len() == 4);
    assert("previousMessageId"@.len() == 17);
    assert("proof"@.len() == 5);
    let j = spec_diff_json(d);
    let entries = j->Object_0;
    assert(spec_keys_distinct(entries));
    lemma_get_at(entries, 0);
    lemma_get_at(entries, 1);
    lemma_get_at(entries, 2);
    let write = |c: SpecChange| spec_change_json(c);
    assert forall|i: int| 0 <= i < d.diff.len() implies (spec_change_reader())(write(#[trigger] d.diff[i]))
        == Some(d.diff[i]) by {
        lemma_change_round_trip(d.diff[i]);
    }
    lemma_read_all_written(d.diff, write, spec_change_reader());
    assert(Seq::new(d.diff.len(), |i: int| write(d.diff[i])) =~= spec_changes_json(d.diff));
    match d.proof {
        Some(s) => {
            lemma_get_at(entries, 3);
            lemma_signature_round_trip(s);
        },
        None => {
            lemma_get_absent(entries, "proof"@);
        },
    }
}

impl Change {
    /// Reads a change from its JSON form; none where the value does not
    /// have that form.
    pub fn from_json(value: &Value) -> (r: Option<Change>)
        ensures
            r is Some <==> spec_change_from_json(value@) is Some,
            r is Some ==> r->0@ == spec_change_from_json(value@)->0,
    {
        let op: &str = match value.text_of("op") {
            Some(s) => s,
            None => return None,
        };
        let key: &str = match value.text_of("key") {
            Some(s) => s,
            None => return None,
        };
        if str_eq(op, "remove") {
            return Some(Change::Remove(copy_str(key)));
        }
        let brought: &Value = match value.get("value") {
            Some(v) => v,
            None => return None,
        };
        if str_eq(op, "add") {
            Some(Change::Add(copy_str(key), brought.deep_copy()))
        } else if str_eq(op, "replace") {
            Some(Change::Replace(copy_str(key), brought.deep_copy()))
        } else {
            None
        }
    }
}

fn read_changes(value: &Value) -> (r: Option<Vec<Change>>)
    ensures
        r is Some <==> spec_list_of(value@, "diff"@) is Some && spec_read_all(
            spec_list_of(value@, "diff"@)->0,
            spec_change_reader(),
        ) is Some,
        r is Some ==> spec_changes(r->0@) == spec_read_all(
            spec_list_of(value@, "diff"@)->0,
            spec_change_reader(),
        )->0,
{
    let mut out: Vec<Change> = Vec::new();
    let items: &Vec<Value> = match value.get("diff") {
        None => {
            assert(spec_changes(out@) =~= Seq::empty());
            return Some(out);
        },
        Some(v) => match v.as_array() {
            Some(items) => items,
            None => return None,
        },
    };
    let ghost views = spec_views(items@);
    let mut i: usize = 0;
    proof {
        assert(views.take(0) =~= Seq::empty());
        assert(spec_changes(out@) =~= Seq::empty());
    }
    while i < items.len()
        invariant
            i <= items.len(),
            views == spec_views(items@),
            spec_list_of(value@, "diff"@) == Some(views),
            spec_read_all(views.take(i as int), spec_change_reader()) == Some(spec_changes(out@)),
        decreases items.len() - i,
    {
        let ghost before = spec_changes(out@);
        proof {
            assert(views.take(i + 1).drop_last() =~= views.take(i as int));
            assert(views.take(i + 1).last() == items@[i as int]@);
        }
        match Change::from_json(&items[i]) {
            Some(c) => {
                out.push(c);
                proof {
                    assert(spec_changes(out@) =~= before.push(c@));
                }
            },
            None => {
                proof {
                    assert(spec_read_all(views.take(i + 1), spec_change_reader()) is None);
                    lemma_read_all_prefix(views, spec_change_reader(), i + 1);
                }
                return None;
            },
        }
        i += 1;
    }
    proof {
        assert(views.take(views.len() as int) =~= views);
    }
    Some(out)
}

impl DocumentDiff {
    /// Reads a signed difference from its JSON form; none where the value
    /// does not have that form.
    pub fn from_json(value: &Value) -> (r: Option<DocumentDiff>)
        ensures
            r is Some <==> spec_diff_from_json(value@) is Some,
            r is Some ==> r->0@ == spec_diff_from_json(value@)->0,
    {
        let id: &str = match value.text_of("id") {
            Some(s) => s,
            None => return None,
        };
        let previous: &str = match value.text_of("previousMessageId") {
            Some(s) => s,
            None => return None,
        };
        let diff: Vec<Change> = match read_changes(value) {
            Some(c) => c,
            None => return None,
        };
        let carried: Option<Signature> = match read_proof(value) {
            Some(p) => p,
            None => return None,
        };
        Some(DocumentDiff { id: copy_str(id), diff, previous_message_id: copy_str(previous), proof: carried })
    }
}

impl TrySignature for DocumentDiff {
    open spec fn spec_signature(&self) -> Option<SpecSignature> {
        self@.proof
    }

    fn signature(&self) -> (s: Option<&Signature>) {
        self.proof.as_ref()
    }
}

impl TrySignatureMut for DocumentDiff {
    fn signature_mut(&mut self) -> (s: Option<&mut Signature>)
        ensures
            s is Some ==> final(self)@ == (SpecDiff { proof: Some((*final(s->0))@), ..old(self)@ }),
            s is None ==> final(self)@ == old(self)@,
    {
        self.proof.as_mut()
    }
}

impl SetSignature for DocumentDiff {
    fn set_signature(&mut self, value: Signature)
        ensures
            final(self)@ == (SpecDiff { proof: Some(value@), ..old(self)@ }),
    {
        self.proof = Some(value);
    }
}

impl Document {
    /// The signed difference from this version of the document to `other`.
    /// It names `previous` as the message before it and is signed with
    /// `secret` for the first method for authentication of this version.
    /// Where the key data of that method is the public key that belongs to
    /// `secret`, the difference verifies against this version.
    pub fn diff(&self, other: &Document, secret: &[u8], previous: String) -> (r: Result<DocumentDiff, Error>)
        ensures
            spec_diff_result(r) == spec_diff_doc(self@, other@, secret@, previous@),
            r is Ok && spec_resolve(self@, SpecIdent::Index(0), MethodScope::Authentication)->0.key_data
                == ed25519::spec_ed25519_public(secret@) ==> spec_verify_diff(self@, r->Ok_0@),
            r is Ok <==> spec_resolve(self@, SpecIdent::Index(0), MethodScope::Authentication) is Some
                && secret@.len() == 32,
    {
        proof {
            lemma_doc_json_valid(self@);
            lemma_doc_json_valid(other@);
            lemma_diff_valid(spec_doc_json(self@), spec_doc_json(other@));
        }
        let changes: Vec<Change> = match diff_values(&self.to_json(), &other.to_json()) {
            Ok(c) => c,
            Err(e) => return Err(e),
        };
        let method: &Method = match self.resolve(
            MethodQuery { ident: MethodIdent::Index(0), scope: MethodScope::Authentication },
        ) {
            Some(m) => m,
            None => return Err(Error::UnresolvedMethod),
        };
        let mut out: DocumentDiff = DocumentDiff {
            id: copy_str(self.id()),
            diff: changes,
            previous_message_id: previous,
            proof: None,
        };
        proof {
            lemma_diff_json_valid(out@);
        }
        let payload: Value = out.signable_json();
        let signature: Signature = match sign_value(&payload, method.id.as_str(), secret) {
            Ok(s) => s,
            Err(e) => return Err(e),
        };
        proof {
            crate::document::lemma_first_resolves_by_name(self@, MethodScope::Authentication);
        }
        out.proof = Some(signature);
        Ok(out)
    }

    /// Tells whether a JSON value reads as a difference that verifies
    /// against this document. A value that reads as no difference does not
    /// verify.
    pub fn verify_diff_json(&self, value: &Value) -> (ok: bool)
        ensures
            ok == spec_verify_diff_json(self@, value@),
    {
        match DocumentDiff::from_json(value) {
            Some(diff) => self.verify_diff(&diff),
            None => false,
        }
    }

    /// Tells whether `diff` carries a signature that verifies under the
    /// method for authentication of this document that the signature names.
    /// A difference without a signature, or with one that names no such
    /// method, does not verify.
    pub fn verify_diff(&self, diff: &DocumentDiff) -> (ok: bool)
        ensures
            ok == spec_verify_diff(self@, diff@),
    {
        let signature: &Signature = match diff.proof.as_ref() {
            Some(s) => s,
            None => return false,
        };
        let method: &Method = match self.resolve(
            MethodQuery {
                ident: MethodIdent::Ident(signature.verification_method.as_str()),
                scope: MethodScope::Authentication,
            },
        ) {
            Some(m) => m,
            None => return false,
        };
        let payload: Value = diff.signable_json();
        verify_value(&payload, signature.value.as_slice(), method.key_data.as_slice()).is_ok()
    }
}

} // verus!
