//! Verification methods, the ways to refer to them, and services.

use vstd::prelude::*;
use crate::base58::decode_b58;
use crate::base58::encode_b58;
use crate::base58::spec_b58_decode;
use crate::base58::spec_b58_encode;
use crate::base58::spec_b58_round_trips;
use crate::bytes::copy_bytes;
use crate::jcs::spec_valid;
use crate::json::Json;
use crate::json::Value;
use crate::json::lemma_get_at;
use crate::json::spec_entry_views;
use crate::json::spec_keys_distinct;
use crate::json::spec_text_of;
use crate::text::copy_str;
use crate::text::names;
use crate::text::spec_names;
use crate::text::str_eq;

verus! {

/// The kinds of verification methods.
#[derive(Clone, Copy, Debug, PartialEq, Eq, Structural)]
pub enum MethodType {
    /// The key data is an Ed25519 public key.
    Ed25519VerificationKey2018,
    /// The key data is a Merkle key: two tags and the root of a tree of keys.
    MerkleKeyCollection2021,
}

impl MethodType {
    /// The name of the kind in JSON.
    pub open spec fn spec_name(self) -> Seq<char> {
        match self {
            MethodType::Ed25519VerificationKey2018 => "Ed25519VerificationKey2018"@,
            MethodType::MerkleKeyCollection2021 => "MerkleKeyCollection2021"@,
        }
    }

    /// The name of the kind in JSON.
    pub fn name(self) -> (s: &'static str)
        ensures
            s@ == self.spec_name(),
    {
        match self {
            MethodType::Ed25519VerificationKey2018 => "Ed25519VerificationKey2018",
            MethodType::MerkleKeyCollection2021 => "MerkleKeyCollection2021",
        }
    }

    /// The kind that goes by `name`, if there is one.
    pub open spec fn spec_parse(name: Seq<char>) -> Option<MethodType> {
        if name == "Ed25519VerificationKey2018"@ {
            Some(MethodType::Ed25519VerificationKey2018)
        } else if name == "MerkleKeyCollection2021"@ {
            Some(MethodType::MerkleKeyCollection2021)
        } else {
            None
        }
    }

    /// The kind that goes by `name`, if there is one.
    pub fn parse(name: &str) -> (t: Option<MethodType>)
        ensures
            t == Self::spec_parse(name@),
    {
        if str_eq(name, "Ed25519VerificationKey2018") {
            Some(MethodType::Ed25519VerificationKey2018)
        } else if str_eq(name, "MerkleKeyCollection2021") {
            Some(MethodType::MerkleKeyCollection2021)
        } else {
            None
        }
    }
}

/// A verification method: a named key, or a named commitment to keys.
#[derive(Debug, PartialEq, Eq)]
pub struct Method {
    pub id: String,
    pub controller: String,
    pub type_: MethodType,
    pub key_data: Vec<u8>,
}

/// What a verification method is, mathematically.
pub struct SpecMethod {
    pub id: Seq<char>,
    pub controller: Seq<char>,
    pub type_: MethodType,
    pub key_data: Seq<u8>,
}

impl View for Method {
    type V = SpecMethod;

    open spec fn view(&self) -> SpecMethod {
        SpecMethod { id: self.id@, controller: self.controller@, type_: self.type_, key_data: self.key_data@ }
    }
}

/// The JSON form of a verification method; its key data is base58 text.
pub open spec fn spec_method_json(m: SpecMethod) -> Json {
    Json::Object(
        seq![
            ("id"@, Json::Text(m.id)),
            ("controller"@, Json::Text(m.controller)),
            ("type"@, Json::Text(m.type_.spec_name())),
            ("publicKeyBase58"@, Json::Text(spec_b58_encode(m.key_data))),
        ],
    )
}

impl Method {
    /// A verification method of the given parts.
    pub fn new(id: &str, controller: &str, type_: MethodType, key_data: &[u8]) -> (m: Method)
        ensures
            m@ == (SpecMethod { id: id@, controller: controller@, type_, key_data: key_data@ }),
    {
        Method { id: copy_str(id), controller: copy_str(controller), type_, key_data: copy_bytes(key_data) }
    }

    /// A copy of the method.
    pub fn copy(&self) -> (m: Method)
        ensures
            m@ == self@,
    {
        Method {
            id: copy_str(self.id.as_str()),
            controller: copy_str(self.controller.as_str()),
            type_: self.type_,
            key_data: copy_bytes(self.key_data.as_slice()),
        }
    }

    /// The JSON form of the method.
    pub fn to_json(&self) -> (value: Value)
        ensures
            value@ == spec_method_json(self@),
            spec_b58_round_trips(self@.key_data),
    {
        let mut members: Vec<(String, Value)> = Vec::new();
        members.push((copy_str("id"), Value::text(self.id.as_str())));
        members.push((copy_str("controller"), Value::text(self.controller.as_str())));
        members.push((copy_str("type"), Value::text(self.type_.name())));
        members.push((copy_str("publicKeyBase58"), Value::Text(encode_b58(self.key_data.as_slice()))));
        proof {
            assert(spec_entry_views(members@) =~= spec_method_json(self@)->Object_0);
        }
        Value::Object(members)
    }
}

/// An entry of a purpose collection: a method of its own, or the identifier
/// of a general method of the document.
#[derive(Debug, PartialEq, Eq)]
pub enum MethodRef {
    Embed(Method),
    Refer(String),
}

/// What an entry of a purpose collection is, mathematically.
pub enum SpecRef {
    Embed(SpecMethod),
    Refer(Seq<char>),
}

impl SpecRef {
    /// The identifier of the method the entry stands for.
    pub open spec fn id(self) -> Seq<char> {
        match self {
            SpecRef::Embed(m) => m.id,
            SpecRef::Refer(id) => id,
        }
    }
}

impl View for MethodRef {
    type V = SpecRef;

    open spec fn view(&self) -> SpecRef {
        match self {
            MethodRef::Embed(m) => SpecRef::Embed(m@),
            MethodRef::Refer(id) => SpecRef::Refer(id@),
        }
    }
}

/// The JSON form of an entry: the method itself, or the identifier as text.
pub open spec fn spec_ref_json(r: SpecRef) -> Json {
    match r {
        SpecRef::Embed(m) => spec_method_json(m),
        SpecRef::Refer(id) => Json::Text(id),
    }
}

impl MethodRef {
    /// The identifier of the method the entry stands for.
    pub fn id(&self) -> (id: &str)
        ensures
            id@ == self@.id(),
    {
        match self {
            MethodRef::Embed(m) => m.id.as_str(),
            MethodRef::Refer(id) => id.as_str(),
        }
    }

    /// A copy of the entry.
    pub fn copy(&self) -> (r: MethodRef)
        ensures
            r@ == self@,
    {
        match self {
            MethodRef::Embed(m) => MethodRef::Embed(m.copy()),
            MethodRef::Refer(id) => MethodRef::Refer(copy_str(id.as_str())),
        }
    }

    /// The JSON form of the entry.
    pub fn to_json(&self) -> (value: Value)
        ensures
            value@ == spec_ref_json(self@),
            spec_ref_round_trips(self@),
    {
        match self {
            MethodRef::Embed(m) => m.to_json(),
            MethodRef::Refer(id) => Value::text(id.as_str()),
        }
    }
}

/// The JSON form of a verification method has a canonical form.
pub proof fn lemma_method_json_valid(m: SpecMethod)
    ensures
        spec_valid(spec_method_json(m)),
{
    reveal_strlit("id");
    reveal_strlit("controller");
    reveal_strlit("type");
    reveal_strlit("publicKeyBase58");
    reveal_with_fuel(spec_valid, 2);
    let entries = spec_method_json(m)->Object_0;
    assert(entries[0].0.len() == 2);
    assert(entries[1].0.len() == 10);
    assert(entries[2].0.len() == 4);
    assert(entries[3].0.len() == 15);
    assert(crate::json::spec_keys_distinct(entries));
}

/// The JSON form of an entry of a purpose list has a canonical form.
pub proof fn lemma_ref_json_valid(r: SpecRef)
    ensures
        spec_valid(spec_ref_json(r)),
{
    match r {
        SpecRef::Embed(m) => lemma_method_json_valid(m),
        SpecRef::Refer(_) => {},
    }
}

/// The JSON form of a service has a canonical form.
pub proof fn lemma_service_json_valid(s: SpecService)
    ensures
        spec_valid(spec_service_json(s)),
{
    reveal_strlit("id");
    reveal_strlit("type");
    reveal_strlit("serviceEndpoint");
    reveal_with_fuel(spec_valid, 2);
    let entries = spec_service_json(s)->Object_0;
    assert(entries[0].0.len() == 2);
    assert(entries[1].0.len() == 4);
    assert(entries[2].0.len() == 15);
    assert(crate::json::spec_keys_distinct(entries));
}

/// A service endpoint of a document.
#[derive(Debug, PartialEq, Eq)]
pub struct Service {
    pub id: String,
    pub type_: String,
    pub endpoint: String,
}

/// What a service is, mathematically.
pub struct SpecService {
    pub id: Seq<char>,
    pub type_: Seq<char>,
    pub endpoint: Seq<char>,
}

impl View for Service {
    type V = SpecService;

    open spec fn view(&self) -> SpecService {
        SpecService { id: self.id@, type_: self.type_@, endpoint: self.endpoint@ }
    }
}

/// The JSON form of a service.
pub open spec fn spec_service_json(s: SpecService) -> Json {
    Json::Object(
        seq![
            ("id"@, Json::Text(s.id)),
            ("type"@, Json::Text(s.type_)),
            ("serviceEndpoint"@, Json::Text(s.endpoint)),
        ],
    )
}

impl Service {
    /// A service of the given parts.
    pub fn new(id: &str, type_: &str, endpoint: &str) -> (s: Service)
        ensures
            s@ == (SpecService { id: id@, type_: type_@, endpoint: endpoint@ }),
    {
        Service { id: copy_str(id), type_: copy_str(type_), endpoint: copy_str(endpoint) }
    }

    /// A copy of the service.
    pub fn copy(&self) -> (s: Service)
        ensures
            s@ == self@,
    {
        Service {
            id: copy_str(self.id.as_str()),
            type_: copy_str(self.type_.as_str()),
            endpoint: copy_str(self.endpoint.as_str()),
        }
    }

    /// The JSON form of the service.
    pub fn to_json(&self) -> (value: Value)
        ensures
            value@ == spec_service_json(self@),
    {
        let mut members: Vec<(String, Value)> = Vec::new();
        members.push((copy_str("id"), Value::text(self.id.as_str())));
        members.push((copy_str("type"), Value::text(self.type_.as_str())));
        members.push((copy_str("serviceEndpoint"), Value::text(self.endpoint.as_str())));
        proof {
            assert(spec_entry_views(members@) =~= spec_service_json(self@)->Object_0);
        }
        Value::Object(members)
    }
}

/// The verification method that a JSON value reads as, if it reads as one:
/// an object with the texts `id`, `controller`, `type` and `publicKeyBase58`,
/// the type being that of a known kind and the key base58.
pub open spec fn spec_method_from_json(j: Json) -> Option<SpecMethod> {
    match (
        spec_text_of(j, "id"@),
        spec_text_of(j, "controller"@),
        spec_text_of(j, "type"@),
        spec_text_of(j, "publicKeyBase58"@),
    ) {
        (Some(id), Some(controller), Some(t), Some(k)) => match (MethodType::spec_parse(t), spec_b58_decode(k)) {
            (Some(type_), Some(key_data)) => Some(SpecMethod { id, controller, type_, key_data }),
            _ => None,
        },
        _ => None,
    }
}

/// The entry of a purpose list that a JSON value reads as, if it reads as
/// one: text refers to a general method, anything else must read as a
/// method.
pub open spec fn spec_ref_from_json(j: Json) -> Option<SpecRef> {
    match j {
        Json::Text(id) => Some(SpecRef::Refer(id)),
        _ => match spec_method_from_json(j) {
            Some(m) => Some(SpecRef::Embed(m)),
            None => None,
        },
    }
}

/// The service that a JSON value reads as, if it reads as one: an object
/// with the texts `id`, `type` and `serviceEndpoint`.
pub open spec fn spec_service_from_json(j: Json) -> Option<SpecService> {
    match (spec_text_of(j, "id"@), spec_text_of(j, "type"@), spec_text_of(j, "serviceEndpoint"@)) {
        (Some(id), Some(type_), Some(endpoint)) => Some(SpecService { id, type_, endpoint }),
        _ => None,
    }
}

/// The kind of a method is read back from its name.
pub proof fn lemma_method_type_round_trip(t: MethodType)
    ensures
        MethodType::spec_parse(t.spec_name()) == Some(t),
{
    reveal_strlit("Ed25519VerificationKey2018");
    reveal_strlit("MerkleKeyCollection2021");
    assert("Ed25519VerificationKey2018"@.len() == 26);
    assert("MerkleKeyCollection2021"@.len() == 23);
}

/// A method is read back from its JSON form, where its key data reads back
/// from its base58 text.
pub proof fn lemma_method_round_trip(m: SpecMethod)
    requires
        spec_b58_round_trips(m.key_data),
    ensures
        spec_method_from_json(spec_method_json(m)) == Some(m),
{
    lemma_method_json_valid(m);
    lemma_method_type_round_trip(m.type_);
    let entries = spec_method_json(m)->Object_0;
    assert(spec_keys_distinct(entries));
    lemma_get_at(entries, 0);
    lemma_get_at(entries, 1);
    lemma_get_at(entries, 2);
    lemma_get_at(entries, 3);
}

/// Whether the key data of an entry, where it is a method of its own, reads
/// back from its base58 text.
pub open spec fn spec_ref_round_trips(r: SpecRef) -> bool {
    match r {
        SpecRef::Embed(m) => spec_b58_round_trips(m.key_data),
        SpecRef::Refer(_) => true,
    }
}

/// An entry of a purpose list is read back from its JSON form, where its
/// key data reads back from its base58 text.
pub proof fn lemma_ref_round_trip(r: SpecRef)
    requires
        spec_ref_round_trips(r),
    ensures
        spec_ref_from_json(spec_ref_json(r)) == Some(r),
{
    match r {
        SpecRef::Embed(m) => lemma_method_round_trip(m),
        SpecRef::Refer(_) => {},
    }
}

/// A service is read back from its JSON form.
pub proof fn lemma_service_round_trip(s: SpecService)
    ensures
        spec_service_from_json(spec_service_json(s)) == Some(s),
{
    lemma_service_json_valid(s);
    let entries = spec_service_json(s)->Object_0;
    assert(spec_keys_distinct(entries));
    lemma_get_at(entries, 0);
    lemma_get_at(entries, 1);
    lemma_get_at(entries, 2);
}

/// Reading a method, as a function.
pub open spec fn spec_method_reader() -> spec_fn(Json) -> Option<SpecMethod> {
    |j: Json| spec_method_from_json(j)
}

/// Reading an entry of a purpose list, as a function.
pub open spec fn spec_ref_reader() -> spec_fn(Json) -> Option<SpecRef> {
    |j: Json| spec_ref_from_json(j)
}

/// Reading a service, as a function.
pub open spec fn spec_service_reader() -> spec_fn(Json) -> Option<SpecService> {
    |j: Json| spec_service_from_json(j)
}

impl Method {
    /// Reads a method from its JSON form; none where the value does not
    /// have that form.
    pub fn from_json(value: &Value) -> (r: Option<Method>)
        ensures
            r is Some <==> spec_method_from_json(value@) is Some,
            r is Some ==> r->0@ == spec_method_from_json(value@)->0,
    {
        let id: &str = match value.text_of("id") {
            Some(s) => s,
            None => return None,
        };
        let controller: &str = match value.text_of("controller") {
            Some(s) => s,
            None => return None,
        };
        let kind: &str = match value.text_of("type") {
            Some(s) => s,
            None => return None,
        };
        let key: &str = match value.text_of("publicKeyBase58") {
            Some(s) => s,
            None => return None,
        };
        let type_: MethodType = match MethodType::parse(kind) {
            Some(t) => t,
            None => return None,
        };
        let key_data: Vec<u8> = match decode_b58(key) {
            Ok(bytes) => bytes,
            Err(_) => return None,
        };
        Some(Method { id: copy_str(id), controller: copy_str(controller), type_, key_data })
    }
}

impl MethodRef {
    /// Reads an entry of a purpose list from its JSON form; none where the
    /// value does not have that form.
    pub fn from_json(value: &Value) -> (r: Option<MethodRef>)
        ensures
            r is Some <==> spec_ref_from_json(value@) is Some,
            r is Some ==> r->0@ == spec_ref_from_json(value@)->0,
    {
        match value {
            Value::Text(id) => Some(MethodRef::Refer(copy_str(id.as_str()))),
            _ => match Method::from_json(value) {
                Some(m) => Some(MethodRef::Embed(m)),
                None => None,
            },
        }
    }
}

impl Service {
    /// Reads a service from its JSON form; none where the value does not
    /// have that form.
    pub fn from_json(value: &Value) -> (r: Option<Service>)
        ensures
            r is Some <==> spec_service_from_json(value@) is Some,
            r is Some ==> r->0@ == spec_service_from_json(value@)->0,
    {
        let id: &str = match value.text_of("id") {
            Some(s) => s,
            None => return None,
        };
        let type_: &str = match value.text_of("type") {
            Some(s) => s,
            None => return None,
        };
        let endpoint: &str = match value.text_of("serviceEndpoint") {
            Some(s) => s,
            None => return None,
        };
        Some(Service { id: copy_str(id), type_: copy_str(type_), endpoint: copy_str(endpoint) })
    }
}

/// The purposes a method can be looked up for. `VerificationMethod` is the
/// general list of a document; `Any` stands for every list in turn, the
/// general one first.
#[derive(Clone, Copy, Debug, Hash, PartialEq, Eq, PartialOrd, Ord, Structural)]
pub enum MethodScope {
    VerificationMethod,
    Authentication,
    AssertionMethod,
    KeyAgreement,
    CapabilityDelegation,
    CapabilityInvocation,
    Any,
}

impl Default for MethodScope {
    fn default() -> (s: MethodScope)
        ensures
            s == MethodScope::VerificationMethod,
    {
        MethodScope::VerificationMethod
    }
}

impl MethodScope {
    /// The purpose that goes by `name`, if there is one.
    pub open spec fn spec_parse(name: Seq<char>) -> Option<MethodScope> {
        if name == "VerificationMethod"@ {
            Some(MethodScope::VerificationMethod)
        } else if name == "Authentication"@ {
            Some(MethodScope::Authentication)
        } else if name == "AssertionMethod"@ {
            Some(MethodScope::AssertionMethod)
        } else if name == "KeyAgreement"@ {
            Some(MethodScope::KeyAgreement)
        } else if name == "CapabilityDelegation"@ {
            Some(MethodScope::CapabilityDelegation)
        } else if name == "CapabilityInvocation"@ {
            Some(MethodScope::CapabilityInvocation)
        } else if name == "Any"@ {
            Some(MethodScope::Any)
        } else {
            None
        }
    }

    /// The purpose that goes by `name`, if there is one.
    pub fn parse(name: &str) -> (s: Option<MethodScope>)
        ensures
            s == Self::spec_parse(name@),
    {
        if str_eq(name, "VerificationMethod") {
            Some(MethodScope::VerificationMethod)
        } else if str_eq(name, "Authentication") {
            Some(MethodScope::Authentication)
        } else if str_eq(name, "AssertionMethod") {
            Some(MethodScope::AssertionMethod)
        } else if str_eq(name, "KeyAgreement") {
            Some(MethodScope::KeyAgreement)
        } else if str_eq(name, "CapabilityDelegation") {
            Some(MethodScope::CapabilityDelegation)
        } else if str_eq(name, "CapabilityInvocation") {
            Some(MethodScope::CapabilityInvocation)
        } else if str_eq(name, "Any") {
            Some(MethodScope::Any)
        } else {
            None
        }
    }
}

/// How a method is pointed at within a list: by its place or by its name.
#[derive(Clone, Copy, Debug, Hash, PartialEq, Eq, PartialOrd, Ord)]
pub enum MethodIdent<'a> {
    Index(usize),
    Ident(&'a str),
}

/// What a pointer at a method is, mathematically.
pub enum SpecIdent {
    Index(int),
    Ident(Seq<char>),
}

impl<'a> View for MethodIdent<'a> {
    type V = SpecIdent;

    open spec fn view(&self) -> SpecIdent {
        match self {
            MethodIdent::Index(n) => SpecIdent::Index(*n as int),
            MethodIdent::Ident(name) => SpecIdent::Ident(name@),
        }
    }
}

impl<'a> MethodIdent<'a> {
    /// Tells whether the pointer names the identifier `id`. A place names
    /// no identifier.
    pub fn matches(&self, id: &str) -> (b: bool)
        ensures
            b == spec_ident_names(self@, id@),
    {
        match self {
            MethodIdent::Index(_) => false,
            MethodIdent::Ident(name) => names(id, name),
        }
    }
}

/// Whether a pointer names the identifier `id`.
pub open spec fn spec_ident_names(ident: SpecIdent, id: Seq<char>) -> bool {
    match ident {
        SpecIdent::Index(_) => false,
        SpecIdent::Ident(name) => spec_names(id, name),
    }
}

} // verus!
