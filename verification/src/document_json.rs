//! The JSON form of a document, and its signature.
//!
//! What is signed of a document is its JSON form without the signature. The
//! signature names the method for authentication that checks it.

use vstd::prelude::*;
use crate::base58::spec_b58_round_trips;
use crate::document::Document;
use crate::document::DocumentParts;
use crate::document::SpecDocument;
use crate::document::lemma_first_resolves_by_name;
use crate::document::spec_doc_valid;
use crate::document::spec_methods;
use crate::document::spec_refs;
use crate::document::spec_resolve;
use crate::document::spec_services;
use crate::ed25519;
use crate::error::Error;
use crate::jcs::spec_valid;
use crate::json::Json;
use crate::json::Value;
use crate::json::lemma_get_absent;
use crate::json::lemma_get_at;
use crate::json::lemma_read_all_prefix;
use crate::json::lemma_read_all_written;
use crate::json::spec_entry_views;
use crate::json::spec_keys_distinct;
use crate::json::spec_list_of;
use crate::json::spec_read_all;
use crate::json::spec_text_of;
use crate::json::spec_views;
use crate::method::Method;
use crate::method::MethodIdent;
use crate::method::MethodRef;
use crate::method::MethodScope;
use crate::method::Service;
use crate::method::SpecIdent;
use crate::method::SpecMethod;
use crate::method::SpecRef;
use crate::method::SpecService;
use crate::method::lemma_method_json_valid;
use crate::method::lemma_method_round_trip;
use crate::method::lemma_ref_json_valid;
use crate::method::lemma_ref_round_trip;
use crate::method::lemma_service_json_valid;
use crate::method::lemma_service_round_trip;
use crate::method::spec_method_json;
use crate::method::spec_method_reader;
use crate::method::spec_ref_json;
use crate::method::spec_ref_reader;
use crate::method::spec_ref_round_trips;
use crate::method::spec_service_json;
use crate::method::spec_service_reader;
use crate::method_query::MethodQuery;
use crate::signature::SetSignature;
use crate::signature::Signature;
use crate::signature::SpecSignature;
use crate::signature::lemma_signature_json_valid;
use crate::signature::lemma_signature_round_trip;
use crate::signature::sign_value;
use crate::signature::spec_opt_signature;
use crate::signature::spec_sign_value;
use crate::signature::spec_signature_from_json;
use crate::signature::spec_signature_json;
use crate::signature::spec_signature_round_trips;
use crate::signature::spec_verify_value;
use crate::signature::verify_value;
use crate::text::copy_str;

verus! {

/// The JSON forms of a list of methods.
pub open spec fn spec_methods_json(methods: Seq<SpecMethod>) -> Seq<Json> {
    Seq::new(methods.len(), |i: int| spec_method_json(methods[i]))
}

/// The JSON forms of a list of entries.
pub open spec fn spec_refs_json(refs: Seq<SpecRef>) -> Seq<Json> {
    Seq::new(refs.len(), |i: int| spec_ref_json(refs[i]))
}

/// The JSON forms of a list of services.
pub open spec fn spec_services_json(services: Seq<SpecService>) -> Seq<Json> {
    Seq::new(services.len(), |i: int| spec_service_json(services[i]))
}

/// The member that a signature adds to the JSON form of what carries it.
pub open spec fn spec_proof_members(carried: Option<SpecSignature>) -> Seq<(Seq<char>, Json)> {
    match carried {
        Some(s) => seq![("proof"@, spec_signature_json(s))],
        None => Seq::empty(),
    }
}

/// The JSON form of a document: its identifier, each of its lists, and its
/// signature where it carries one.
pub open spec fn spec_doc_json(d: SpecDocument) -> Json {
    Json::Object(
        seq![
            ("id"@, Json::Text(d.id)),
            ("verificationMethod"@, Json::Array(spec_methods_json(d.verification_method))),
            ("authentication"@, Json::Array(spec_refs_json(d.authentication))),
            ("assertionMethod"@, Json::Array(spec_refs_json(d.assertion_method))),
            ("keyAgreement"@, Json::Array(spec_refs_json(d.key_agreement))),
            ("capabilityDelegation"@, Json::Array(spec_refs_json(d.capability_delegation))),
            ("capabilityInvocation"@, Json::Array(spec_refs_json(d.capability_invocation))),
            ("service"@, Json::Array(spec_services_json(d.service))),
        ] + spec_proof_members(d.proof),
    )
}

/// What is signed of a document: its JSON form without a signature.
pub open spec fn spec_signable(d: SpecDocument) -> Json {
    spec_doc_json(SpecDocument { proof: None, ..d })
}

/// The JSON form of a document has a canonical form, and so has what is
/// signed of it.
pub proof fn lemma_doc_json_valid(d: SpecDocument)
    ensures
        spec_valid(spec_doc_json(d)),
        spec_valid(spec_signable(d)),
{
    lemma_doc_json_valid_with(d);
    lemma_doc_json_valid_with(SpecDocument { proof: None, ..d });
}

proof fn lemma_doc_json_valid_with(d: SpecDocument)
    ensures
        spec_valid(spec_doc_json(d)),
{
    reveal_strlit("id");
    reveal_strlit("verificationMethod");
    reveal_strlit("authentication");
    reveal_strlit("assertionMethod");
    reveal_strlit("keyAgreement");
    reveal_strlit("capabilityDelegation");
    reveal_strlit("capabilityInvocation");
    reveal_strlit("service");
    reveal_strlit("proof");
    let entries = spec_doc_json(d)->Object_0;
    assert("id"@.len() == 2);
    assert("verificationMethod"@.len() == 18);
    assert("authentication"@.len() == 14);
    assert("assertionMethod"@.len() == 15);
    assert("keyAgreement"@.len() == 12);
    assert("capabilityDelegation"@.len() == 20);
    assert("capabilityInvocation"@.len() == 20);
    assert("service"@.len() == 7);
    assert("proof"@.len() == 5);
    assert("capabilityDelegation"@[10] != "capabilityInvocation"@[10]);
    assert(spec_keys_distinct(entries));
    lemma_methods_json_valid(d.verification_method);
    lemma_refs_json_valid(d.authentication);
    lemma_refs_json_valid(d.assertion_method);
    lemma_refs_json_valid(d.key_agreement);
    lemma_refs_json_valid(d.capability_delegation);
    lemma_refs_json_valid(d.capability_invocation);
    lemma_services_json_valid(d.service);
    match d.proof {
        Some(s) => lemma_signature_json_valid(s),
        None => {},
    }
    assert(spec_valid(entries[0].1));
    assert forall|i: int| 0 <= i < entries.len() implies spec_valid((#[trigger] entries[i]).1) by {
        if i == 8 {
            assert(entries[8].1 == spec_signature_json(d.proof->0));
        }
    }
}

proof fn lemma_methods_json_valid(methods: Seq<SpecMethod>)
    ensures
        spec_valid(Json::Array(spec_methods_json(methods))),
{
    let items = spec_methods_json(methods);
    assert forall|i: int| 0 <= i < items.len() implies spec_valid(#[trigger] items[i]) by {
        lemma_method_json_valid(methods[i]);
    }
}

proof fn lemma_refs_json_valid(refs: Seq<SpecRef>)
    ensures
        spec_valid(Json::Array(spec_refs_json(refs))),
{
    let items = spec_refs_json(refs);
    assert forall|i: int| 0 <= i < items.len() implies spec_valid(#[trigger] items[i]) by {
        lemma_ref_json_valid(refs[i]);
    }
}

proof fn lemma_services_json_valid(services: Seq<SpecService>)
    ensures
        spec_valid(Json::Array(spec_services_json(services))),
{
    let items = spec_services_json(services);
    assert forall|i: int| 0 <= i < items.len() implies spec_valid(#[trigger] items[i]) by {
        lemma_service_json_valid(services[i]);
    }
}

/// What signing a document comes to. The method signed for is the first of
/// those for authentication; without one the method is unresolved.
pub open spec fn spec_sign_doc(d: SpecDocument, secret: Seq<u8>) -> Result<SpecDocument, Error> {
    match spec_resolve(d, SpecIdent::Index(0), MethodScope::Authentication) {
        None => Err(Error::UnresolvedMethod),
        Some(m) => match spec_sign_value(spec_signable(d), m.id, secret) {
            Err(e) => Err(e),
            Ok(sig) => Ok(SpecDocument { proof: Some(sig), ..d }),
        },
    }
}

/// What checking the signature of a document comes to. A document without
/// a signature has an invalid one; the method the signature names is looked
/// up among those for authentication, and its key data is the public key.
pub open spec fn spec_verify_doc(d: SpecDocument) -> Result<(), Error> {
    match d.proof {
        None => Err(Error::InvalidSignature),
        Some(sig) => match spec_resolve(d, SpecIdent::Ident(sig.verification_method), MethodScope::Authentication) {
            None => Err(Error::UnresolvedMethod),
            Some(m) => spec_verify_value(spec_signable(d), sig.value, m.key_data),
        },
    }
}

fn methods_json(methods: &Vec<Method>) -> (out: Vec<Value>)
    ensures
        spec_views(out@) == spec_methods_json(spec_methods(methods@)),
        spec_methods_round_trip(spec_methods(methods@)),
{
    let mut out: Vec<Value> = Vec::new();
    let mut i: usize = 0;
    while i < methods.len()
        invariant
            i <= methods.len(),
            out.len() == i,
            forall|k: int| 0 <= k < i ==> (#[trigger] out@[k])@ == spec_method_json(methods@[k]@),
            forall|k: int| 0 <= k < i ==> spec_b58_round_trips((#[trigger] methods@[k])@.key_data),
        decreases methods.len() - i,
    {
        out.push(methods[i].to_json());
        i += 1;
    }
    assert(spec_views(out@) =~= spec_methods_json(spec_methods(methods@)));
    out
}

fn refs_json(refs: &Vec<MethodRef>) -> (out: Vec<Value>)
    ensures
        spec_views(out@) == spec_refs_json(spec_refs(refs@)),
        spec_refs_round_trip(spec_refs(refs@)),
{
    let mut out: Vec<Value> = Vec::new();
    let mut i: usize = 0;
    while i < refs.len()
        invariant
            i <= refs.len(),
            out.len() == i,
            forall|k: int| 0 <= k < i ==> (#[trigger] out@[k])@ == spec_ref_json(refs@[k]@),
            forall|k: int| 0 <= k < i ==> spec_ref_round_trips((#[trigger] refs@[k])@),
        decreases refs.len() - i,
    {
        out.push(refs[i].to_json());
        i += 1;
    }
    assert(spec_views(out@) =~= spec_refs_json(spec_refs(refs@)));
    out
}

fn services_json(services: &Vec<Service>) -> (out: Vec<Value>)
    ensures
        spec_views(out@) == spec_services_json(spec_services(services@)),
{
    let mut out: Vec<Value> = Vec::new();
    let mut i: usize = 0;
    while i < services.len()
        invariant
            i <= services.len(),
            out.len() == i,
            forall|k: int| 0 <= k < i ==> (#[trigger] out@[k])@ == spec_service_json(services@[k]@),
        decreases services.len() - i,
    {
        out.push(services[i].to_json());
        i += 1;
    }
    assert(spec_views(out@) =~= spec_services_json(spec_services(services@)));
    out
}

impl Document {
    fn json_with(&self, with_proof: bool) -> (value: Value)
        ensures
            with_proof ==> value@ == spec_doc_json(self@),
            with_proof ==> spec_doc_round_trips(self@),
            !with_proof ==> value@ == spec_signable(self@),
    {
        let mut members: Vec<(String, Value)> = Vec::new();
        members.push((copy_str("id"), Value::text(self.id())));
        members.push((copy_str("verificationMethod"), Value::Array(methods_json(self.verification_method()))));
        members.push((copy_str("authentication"), Value::Array(refs_json(self.authentication()))));
        members.push((copy_str("assertionMethod"), Value::Array(refs_json(self.assertion_method()))));
        members.push((copy_str("keyAgreement"), Value::Array(refs_json(self.key_agreement()))));
        members.push((copy_str("capabilityDelegation"), Value::Array(refs_json(self.capability_delegation()))));
        members.push((copy_str("capabilityInvocation"), Value::Array(refs_json(self.capability_invocation()))));
        members.push((copy_str("service"), Value::Array(services_json(self.service()))));
        if with_proof {
            match self.signature_of() {
                Some(s) => {
                    members.push((copy_str("proof"), s.to_json()));
                },
                None => {},
            }
            proof {
                assert(spec_entry_views(members@) =~= spec_doc_json(self@)->Object_0);
            }
        } else {
            proof {
                assert(spec_entry_views(members@) =~= spec_signable(self@)->Object_0);
            }
        }
        Value::Object(members)
    }

    /// The JSON form of the document. It reads back as the document.
    pub fn to_json(&self) -> (value: Value)
        ensures
            value@ == spec_doc_json(self@),
            spec_doc_from_json(value@) == Ok::<SpecDocument, Error>(self@),
    {
        let value: Value = self.json_with(true);
        self.valid();
        proof {
            lemma_doc_round_trip(self@);
        }
        value
    }

    /// What is signed of the document: its JSON form without a signature.
    pub fn signable_json(&self) -> (value: Value)
        ensures
            value@ == spec_signable(self@),
    {
        self.json_with(false)
    }

    /// Signs the document with an Ed25519 secret key for the first of its
    /// methods for authentication, and lets the document carry the
    /// signature. Where the key data of that method is the public key that
    /// belongs to the secret key, the signed document verifies.
    pub fn sign(&mut self, secret: &[u8]) -> (r: Result<(), Error>)
        ensures
            r is Ok <==> spec_sign_doc(old(self)@, secret@) is Ok,
            r is Ok ==> final(self)@ == spec_sign_doc(old(self)@, secret@)->Ok_0,
            r is Err ==> r->Err_0 == spec_sign_doc(old(self)@, secret@)->Err_0 && final(self)@ == old(self)@,
            r is Ok && spec_resolve(old(self)@, SpecIdent::Index(0), MethodScope::Authentication)->0.key_data
                == ed25519::spec_ed25519_public(secret@) ==> spec_verify_doc(final(self)@) is Ok,
            r is Ok <==> spec_resolve(old(self)@, SpecIdent::Index(0), MethodScope::Authentication) is Some
                && secret@.len() == 32,
    {
        self.valid();
        proof {
            lemma_doc_json_valid(self@);
        }
        let payload: Value = self.signable_json();
        let signature: Signature = {
            let method: &Method = match self.resolve(
                MethodQuery { ident: MethodIdent::Index(0), scope: MethodScope::Authentication },
            ) {
                Some(m) => m,
                None => return Err(Error::UnresolvedMethod),
            };
            match sign_value(&payload, method.id.as_str(), secret) {
                Ok(s) => s,
                Err(e) => return Err(e),
            }
        };
        proof {
            lemma_first_resolves_by_name(old(self)@, MethodScope::Authentication);
        }
        self.set_signature(signature);
        Ok(())
    }

    /// Checks the signature the document carries against the method for
    /// authentication that it names.
    pub fn verify(&self) -> (r: Result<(), Error>)
        ensures
            r == spec_verify_doc(self@),
    {
        let signature: &Signature = match self.signature_of() {
            Some(s) => s,
            None => return Err(Error::InvalidSignature),
        };
        let method: &Method = match self.resolve(
            MethodQuery {
                ident: MethodIdent::Ident(signature.verification_method.as_str()),
                scope: MethodScope::Authentication,
            },
        ) {
            Some(m) => m,
            None => return Err(Error::UnresolvedMethod),
        };
        let payload: Value = self.signable_json();
        verify_value(&payload, signature.value.as_slice(), method.key_data.as_slice())
    }
}

/// The methods that the member `key` of an object reads as: none where
/// there is no such member; nothing where it is no array or one of its items
/// reads as no method.
pub open spec fn spec_read_methods(j: Json, key: Seq<char>) -> Option<Seq<SpecMethod>> {
    match spec_list_of(j, key) {
        Some(items) => spec_read_all(items, spec_method_reader()),
        None => None,
    }
}

/// The entries that the member `key` of an object reads as.
pub open spec fn spec_read_refs(j: Json, key: Seq<char>) -> Option<Seq<SpecRef>> {
    match spec_list_of(j, key) {
        Some(items) => spec_read_all(items, spec_ref_reader()),
        None => None,
    }
}

/// The services that the member `key` of an object reads as.
pub open spec fn spec_read_services(j: Json, key: Seq<char>) -> Option<Seq<SpecService>> {
    match spec_list_of(j, key) {
        Some(items) => spec_read_all(items, spec_service_reader()),
        None => None,
    }
}

/// The signature that the member `proof` of an object reads as: none where
/// there is no such member; nothing where it reads as no signature.
pub open spec fn spec_read_proof(j: Json) -> Option<Option<SpecSignature>> {
    match j.get("proof"@) {
        None => Some(None),
        Some(p) => match spec_signature_from_json(p) {
            Some(s) => Some(Some(s)),
            None => None,
        },
    }
}

/// The parts of a document that a JSON value reads as, if it reads as such:
/// an object with a text `id`; each list may be missing, which leaves it
/// empty.
pub open spec fn spec_parts_from_json(j: Json) -> Option<SpecDocument> {
    let id = spec_text_of(j, "id"@);
    let general = spec_read_methods(j, "verificationMethod"@);
    let authentication = spec_read_refs(j, "authentication"@);
    let assertion = spec_read_refs(j, "assertionMethod"@);
    let agreement = spec_read_refs(j, "keyAgreement"@);
    let delegation = spec_read_refs(j, "capabilityDelegation"@);
    let invocation = spec_read_refs(j, "capabilityInvocation"@);
    let service = spec_read_services(j, "service"@);
    let carried = spec_read_proof(j);
    if id is Some && general is Some && authentication is Some && assertion is Some && agreement is Some
        && delegation is Some && invocation is Some && service is Some && carried is Some {
        Some(
            SpecDocument {
                id: id->0,
                verification_method: general->0,
                authentication: authentication->0,
                assertion_method: assertion->0,
                key_agreement: agreement->0,
                capability_delegation: delegation->0,
                capability_invocation: invocation->0,
                service: service->0,
                proof: carried->0,
            },
        )
    } else {
        None
    }
}

/// The document that a JSON value reads as: an encoding failure where the
/// value has not the form of a document, a validation failure where it has
/// but the document would not be valid.
pub open spec fn spec_doc_from_json(j: Json) -> Result<SpecDocument, Error> {
    match spec_parts_from_json(j) {
        None => Err(Error::EncodingFailure),
        Some(d) => if spec_doc_valid(d) {
            Ok(d)
        } else {
            Err(Error::ValidationFailure)
        },
    }
}

/// Whether the key data of every method reads back from its base58 text.
pub open spec fn spec_methods_round_trip(methods: Seq<SpecMethod>) -> bool {
    forall|i: int| 0 <= i < methods.len() ==> spec_b58_round_trips((#[trigger] methods[i]).key_data)
}

/// Whether the key data of every entry that is a method of its own reads
/// back from its base58 text.
pub open spec fn spec_refs_round_trip(refs: Seq<SpecRef>) -> bool {
    forall|i: int| 0 <= i < refs.len() ==> spec_ref_round_trips(#[trigger] refs[i])
}

/// Whether all bytes that the JSON form of a document holds as base58 text
/// read back from it.
pub open spec fn spec_doc_round_trips(d: SpecDocument) -> bool {
    &&& spec_methods_round_trip(d.verification_method)
    &&& spec_refs_round_trip(d.authentication)
    &&& spec_refs_round_trip(d.assertion_method)
    &&& spec_refs_round_trip(d.key_agreement)
    &&& spec_refs_round_trip(d.capability_delegation)
    &&& spec_refs_round_trip(d.capability_invocation)
    &&& (d.proof is Some ==> spec_signature_round_trips(d.proof->0))
}

proof fn lemma_methods_round_trip(methods: Seq<SpecMethod>)
    requires
        spec_methods_round_trip(methods),
    ensures
        spec_read_all(spec_methods_json(methods), spec_method_reader()) == Some(methods),
{
    let write = |m: SpecMethod| spec_method_json(m);
    assert forall|i: int| 0 <= i < methods.len() implies (spec_method_reader())(write(#[trigger] methods[i]))
        == Some(methods[i]) by {
        lemma_method_round_trip(methods[i]);
    }
    lemma_read_all_written(methods, write, spec_method_reader());
    assert(Seq::new(methods.len(), |i: int| write(methods[i])) =~= spec_methods_json(methods));
}

proof fn lemma_refs_round_trip(refs: Seq<SpecRef>)
    requires
        spec_refs_round_trip(refs),
    ensures
        spec_read_all(spec_refs_json(refs), spec_ref_reader()) == Some(refs),
{
    let write = |r: SpecRef| spec_ref_json(r);
    assert forall|i: int| 0 <= i < refs.len() implies (spec_ref_reader())(write(#[trigger] refs[i])) == Some(
        refs[i],
    ) by {
        lemma_ref_round_trip(refs[i]);
    }
    lemma_read_all_written(refs, write, spec_ref_reader());
    assert(Seq::new(refs.len(), |i: int| write(refs[i])) =~= spec_refs_json(refs));
}

proof fn lemma_services_round_trip(services: Seq<SpecService>)
    ensures
        spec_read_all(spec_services_json(services), spec_service_reader()) == Some(services),
{
    let write = |s: SpecService| spec_service_json(s);
    assert forall|i: int| 0 <= i < services.len() implies (spec_service_reader())(
        write(#[trigger] services[i]),
    ) == Some(services[i]) by {
        lemma_service_round_trip(services[i]);
    }
    lemma_read_all_written(services, write, spec_service_reader());
    assert(Seq::new(services.len(), |i: int| write(services[i])) =~= spec_services_json(services));
}

/// The parts of a document are read back from its JSON form, where all
/// bytes that the form holds as base58 text read back from it.
pub proof fn lemma_doc_round_trip(d: SpecDocument)
    requires
        spec_doc_round_trips(d),
    ensures
        spec_parts_from_json(spec_doc_json(d)) == Some(d),
{
    reveal_strlit("id");
    reveal_strlit("verificationMethod");
    reveal_strlit("authentication");
    reveal_strlit("assertionMethod");
    reveal_strlit("keyAgreement");
    reveal_strlit("capabilityDelegation");
    reveal_strlit("capabilityInvocation");
    reveal_strlit("service");
    reveal_strlit("proof");
    lemma_doc_json_valid(d);
    let j = spec_doc_json(d);
    let entries = j->Object_0;
    assert(spec_keys_distinct(entries));
    lemma_get_at(entries, 0);
    lemma_get_at(entries, 1);
    lemma_get_at(entries, 2);
    lemma_get_at(entries, 3);
    lemma_get_at(entries, 4);
    lemma_get_at(entries, 5);
    lemma_get_at(entries, 6);
    lemma_get_at(entries, 7);
    lemma_methods_round_trip(d.verification_method);
    lemma_refs_round_trip(d.authentication);
    lemma_refs_round_trip(d.assertion_method);
    lemma_refs_round_trip(d.key_agreement);
    lemma_refs_round_trip(d.capability_delegation);
    lemma_refs_round_trip(d.capability_invocation);
    lemma_services_round_trip(d.service);
    match d.proof {
        Some(s) => {
            lemma_get_at(entries, 8);
            lemma_signature_round_trip(s);
        },
        None => {
            assert("id"@.len() == 2);
            assert("verificationMethod"@.len() == 18);
            assert("authentication"@.len() == 14);
            assert("assertionMethod"@.len() == 15);
            assert("keyAgreement"@.len() == 12);
            assert("capabilityDelegation"@.len() == 20);
            assert("capabilityInvocation"@.len() == 20);
            assert("service"@.len() == 7);
            assert("proof"@.len() == 5);
            lemma_get_absent(entries, "proof"@);
        },
    }
}

fn read_methods(value: &Value, key: &str) -> (r: Option<Vec<Method>>)
    ensures
        r is Some <==> spec_read_methods(value@, key@) is Some,
        r is Some ==> spec_methods(r->0@) == spec_read_methods(value@, key@)->0,
{
    let mut out: Vec<Method> = Vec::new();
    let items: &Vec<Value> = match value.get(key) {
        None => {
            assert(spec_methods(out@) =~= Seq::empty());
            return Some(out);
        },
        Some(v) => match v.as_array() {
            Some(items) => items,
            None => return None,
        },
    };
    let ghost views = spec_views(items@);
    let mut i: usize = 0;
    proof {
        assert(views.take(0) =~= Seq::empty());
        assert(spec_methods(out@) =~= Seq::empty());
    }
    while i < items.len()
        invariant
            i <= items.len(),
            views == spec_views(items@),
            spec_list_of(value@, key@) == Some(views),
            spec_read_all(views.take(i as int), spec_method_reader()) == Some(spec_methods(out@)),
        decreases items.len() - i,
    {
        let ghost before = spec_methods(out@);
        proof {
            assert(views.take(i + 1).drop_last() =~= views.take(i as int));
            assert(views.take(i + 1).last() == items@[i as int]@);
        }
        match Method::from_json(&items[i]) {
            Some(m) => {
                out.push(m);
                proof {
                    assert(spec_methods(out@) =~= before.push(m@));
                }
            },
            None => {
                proof {
                    assert(spec_read_all(views.take(i + 1), spec_method_reader()) is None);
                    lemma_read_all_prefix(views, spec_method_reader(), i + 1);
                }
                return None;
            },
        }
        i += 1;
    }
    proof {
        assert(views.take(views.len() as int) =~= views);
    }
    Some(out)
}

fn read_refs(value: &Value, key: &str) -> (r: Option<Vec<MethodRef>>)
    ensures
        r is Some <==> spec_read_refs(value@, key@) is Some,
        r is Some ==> spec_refs(r->0@) == spec_read_refs(value@, key@)->0,
{
    let mut out: Vec<MethodRef> = Vec::new();
    let items: &Vec<Value> = match value.get(key) {
        None => {
            assert(spec_refs(out@) =~= Seq::empty());
            return Some(out);
        },
        Some(v) => match v.as_array() {
            Some(items) => items,
            None => return None,
        },
    };
    let ghost views = spec_views(items@);
    let mut i: usize = 0;
    proof {
        assert(views.take(0) =~= Seq::empty());
        assert(spec_refs(out@) =~= Seq::empty());
    }
    while i < items.len()
        invariant
            i <= items.len(),
            views == spec_views(items@),
            spec_list_of(value@, key@) == Some(views),
            spec_read_all(views.take(i as int), spec_ref_reader()) == Some(spec_refs(out@)),
        decreases items.len() - i,
    {
        let ghost before = spec_refs(out@);
        proof {
            assert(views.take(i + 1).drop_last() =~= views.take(i as int));
            assert(views.take(i + 1).last() == items@[i as int]@);
        }
        match MethodRef::from_json(&items[i]) {
            Some(m) => {
                out.push(m);
                proof {
                    assert(spec_refs(out@) =~= before.push(m@));
                }
            },
            None => {
                proof {
                    assert(spec_read_all(views.take(i + 1), spec_ref_reader()) is None);
                    lemma_read_all_prefix(views, spec_ref_reader(), i + 1);
                }
                return None;
            },
        }
        i += 1;
    }
    proof {
        assert(views.take(views.len() as int) =~= views);
    }
    Some(out)
}

fn read_services(value: &Value, key: &str) -> (r: Option<Vec<Service>>)
    ensures
        r is Some <==> spec_read_services(value@, key@) is Some,
        r is Some ==> spec_services(r->0@) == spec_read_services(value@, key@)->0,
{
    let mut out: Vec<Service> = Vec::new();
    let items: &Vec<Value> = match value.get(key) {
        None => {
            assert(spec_services(out@) =~= Seq::empty());
            return Some(out);
        },
        Some(v) => match v.as_array() {
            Some(items) => items,
            None => return None,
        },
    };
    let ghost views = spec_views(items@);
    let mut i: usize = 0;
    proof {
        assert(views.take(0) =~= Seq::empty());
        assert(spec_services(out@) =~= Seq::empty());
    }
    while i < items.len()
        invariant
            i <= items.len(),
            views == spec_views(items@),
            spec_list_of(value@, key@) == Some(views),
            spec_read_all(views.take(i as int), spec_service_reader()) == Some(spec_services(out@)),
        decreases items.len() - i,
    {
        let ghost before = spec_services(out@);
        proof {
            assert(views.take(i + 1).drop_last() =~= views.take(i as int));
            assert(views.take(i + 1).last() == items@[i as int]@);
        }
        match Service::from_json(&items[i]) {
            Some(m) => {
                out.push(m);
                proof {
                    assert(spec_services(out@) =~= before.push(m@));
                }
            },
            None => {
                proof {
                    assert(spec_read_all(views.take(i + 1), spec_service_reader()) is None);
                    lemma_read_all_prefix(views, spec_service_reader(), i + 1);
                }
                return None;
            },
        }
        i += 1;
    }
    proof {
        assert(views.take(views.len() as int) =~= views);
    }
    Some(out)
}

/// Reads the signature that the member `proof` of an object holds.
pub fn read_proof(value: &Value) -> (r: Option<Option<Signature>>)
    ensures
        r is Some <==> spec_read_proof(value@) is Some,
        r is Some ==> spec_opt_signature(r->0) == spec_read_proof(value@)->0,
{
    match value.get("proof") {
        None => Some(None),
        Some(p) => match Signature::from_json(p) {
            Some(s) => Some(Some(s)),
            None => None,
        },
    }
}

impl DocumentParts {
    /// Reads the parts of a document from a JSON value; none where the
    /// value has not the form of a document.
    pub fn from_json(value: &Value) -> (r: Option<DocumentParts>)
        ensures
            r is Some <==> spec_parts_from_json(value@) is Some,
            r is Some ==> r->0@ == spec_parts_from_json(value@)->0,
    {
        let id: &str = match value.text_of("id") {
            Some(s) => s,
            None => return None,
        };
        let verification_method: Vec<Method> = match read_methods(value, "verificationMethod") {
            Some(list) => list,
            None => return None,
        };
        let authentication: Vec<MethodRef> = match read_refs(value, "authentication") {
            Some(list) => list,
            None => return None,
        };
        let assertion_method: Vec<MethodRef> = match read_refs(value, "assertionMethod") {
            Some(list) => list,
            None => return None,
        };
        let key_agreement: Vec<MethodRef> = match read_refs(value, "keyAgreement") {
            Some(list) => list,
            None => return None,
        };
        let capability_delegation: Vec<MethodRef> = match read_refs(value, "capabilityDelegation") {
            Some(list) => list,
            None => return None,
        };
        let capability_invocation: Vec<MethodRef> = match read_refs(value, "capabilityInvocation") {
            Some(list) => list,
            None => return None,
        };
        let service: Vec<Service> = match read_services(value, "service") {
            Some(list) => list,
            None => return None,
        };
        let carried: Option<Signature> = match read_proof(value) {
            Some(p) => p,
            None => return None,
        };
        Some(
            DocumentParts {
                id: copy_str(id),
                verification_method,
                authentication,
                assertion_method,
                key_agreement,
                capability_delegation,
                capability_invocation,
                service,
                proof: carried,
            },
        )
    }
}

impl Document {
    /// Reads a document from its JSON form. Fails with `EncodingFailure`
    /// where the value has not the form of a document, and with
    /// `ValidationFailure` where it has but the document would not be valid.
    pub fn from_json(value: &Value) -> (r: Result<Document, Error>)
        ensures
            r is Ok <==> spec_doc_from_json(value@) is Ok,
            r is Ok ==> r->Ok_0@ == spec_doc_from_json(value@)->Ok_0,
            r is Err ==> r->Err_0 == spec_doc_from_json(value@)->Err_0,
    {
        match DocumentParts::from_json(value) {
            Some(parts) => Self::build(parts),
            None => Err(Error::EncodingFailure),
        }
    }
}

} // verus!
