//! DID documents: the methods they hold for each purpose, and the lookup of
//! a method.
//!
//! A document is valid when no list of it holds an identifier twice and every
//! entry that refers to a general method finds it. Every document that
//! exists is valid.

use vstd::prelude::*;
use crate::error::Error;
use crate::method::Method;
use crate::method::MethodIdent;
use crate::method::MethodRef;
use crate::method::MethodScope;
use crate::method::Service;
use crate::method::SpecIdent;
use crate::method::SpecMethod;
use crate::method::SpecRef;
use crate::method::SpecService;
use crate::method_query::MethodQuery;
use crate::signature::SetSignature;
use crate::signature::Signature;
use crate::signature::SpecSignature;
use crate::signature::TrySignature;
use crate::signature::TrySignatureMut;
use crate::signature::spec_opt_signature;
use crate::text::copy_str;
use crate::text::names;
use crate::text::spec_names;
use crate::text::str_eq;

verus! {

/// What a document is, mathematically.
pub struct SpecDocument {
    pub id: Seq<char>,
    pub verification_method: Seq<SpecMethod>,
    pub authentication: Seq<SpecRef>,
    pub assertion_method: Seq<SpecRef>,
    pub key_agreement: Seq<SpecRef>,
    pub capability_delegation: Seq<SpecRef>,
    pub capability_invocation: Seq<SpecRef>,
    pub service: Seq<SpecService>,
    pub proof: Option<SpecSignature>,
}

/// The views of a list of methods.
pub open spec fn spec_methods(methods: Seq<Method>) -> Seq<SpecMethod> {
    Seq::new(methods.len(), |i: int| methods[i]@)
}

/// The views of a list of entries.
pub open spec fn spec_refs(refs: Seq<MethodRef>) -> Seq<SpecRef> {
    Seq::new(refs.len(), |i: int| refs[i]@)
}

/// The views of a list of services.
pub open spec fn spec_services(services: Seq<Service>) -> Seq<SpecService> {
    Seq::new(services.len(), |i: int| services[i]@)
}

/// The identifiers of a list of methods.
pub open spec fn spec_method_ids(methods: Seq<SpecMethod>) -> Seq<Seq<char>> {
    Seq::new(methods.len(), |i: int| methods[i].id)
}

/// The identifiers of a list of entries.
pub open spec fn spec_ref_ids(refs: Seq<SpecRef>) -> Seq<Seq<char>> {
    Seq::new(refs.len(), |i: int| refs[i].id())
}

/// The identifiers of a list of services.
pub open spec fn spec_service_ids(services: Seq<SpecService>) -> Seq<Seq<char>> {
    Seq::new(services.len(), |i: int| services[i].id)
}

/// The characters of a list of strings.
pub open spec fn spec_strs(items: Seq<&str>) -> Seq<Seq<char>> {
    Seq::new(items.len(), |i: int| items[i]@)
}

/// Whether no identifier occurs twice.
pub open spec fn spec_distinct(ids: Seq<Seq<char>>) -> bool {
    forall|i: int, j: int| 0 <= i < j < ids.len() ==> ids[i] != ids[j]
}

/// The place of the first identifier equal to `id`; the length of the list
/// where there is none.
pub open spec fn spec_position(ids: Seq<Seq<char>>, id: Seq<char>) -> int
    decreases ids.len(),
{
    if ids.len() == 0 {
        0
    } else if ids[0] == id {
        0
    } else {
        1 + spec_position(ids.drop_first(), id)
    }
}

/// The place of the first identifier equal to `id` lies within the list or
/// at its end; the identifier there is `id`, and none before it is.
pub proof fn lemma_position(ids: Seq<Seq<char>>, id: Seq<char>)
    ensures
        0 <= spec_position(ids, id) <= ids.len(),
        spec_position(ids, id) < ids.len() ==> ids[spec_position(ids, id)] == id,
        forall|k: int| 0 <= k < spec_position(ids, id) ==> ids[k] != id,
    decreases ids.len(),
{
    if ids.len() > 0 && ids[0] != id {
        lemma_position(ids.drop_first(), id);
        assert forall|k: int| 0 <= k < spec_position(ids, id) implies ids[k] != id by {
            if k > 0 {
                assert(ids.drop_first()[k - 1] == ids[k]);
            }
        }
    }
}

/// The place of the first identifier that `name` names lies within the list
/// or at its end; `name` names the identifier there, and none before it.
pub proof fn lemma_first_named(ids: Seq<Seq<char>>, name: Seq<char>)
    ensures
        0 <= spec_first_named(ids, name) <= ids.len(),
        spec_first_named(ids, name) < ids.len() ==> spec_names(ids[spec_first_named(ids, name)], name),
        forall|k: int| 0 <= k < spec_first_named(ids, name) ==> !spec_names(ids[k], name),
    decreases ids.len(),
{
    if ids.len() > 0 && !spec_names(ids[0], name) {
        lemma_first_named(ids.drop_first(), name);
        assert forall|k: int| 0 <= k < spec_first_named(ids, name) implies !spec_names(ids[k], name) by {
            if k > 0 {
                assert(ids.drop_first()[k - 1] == ids[k]);
            }
        }
    }
}

/// The place of the first identifier that `name` names; the length of the
/// list where there is none.
pub open spec fn spec_first_named(ids: Seq<Seq<char>>, name: Seq<char>) -> int
    decreases ids.len(),
{
    if ids.len() == 0 {
        0
    } else if spec_names(ids[0], name) {
        0
    } else {
        1 + spec_first_named(ids.drop_first(), name)
    }
}

/// The place that a pointer picks in a list of identifiers; the length of
/// the list where it picks none.
pub open spec fn spec_pick(ids: Seq<Seq<char>>, ident: SpecIdent) -> int {
    match ident {
        SpecIdent::Index(n) => if 0 <= n < ids.len() {
            n
        } else {
            ids.len() as int
        },
        SpecIdent::Ident(name) => spec_first_named(ids, name),
    }
}

/// Whether every entry that refers to a general method finds one among
/// `master`.
pub open spec fn spec_refs_resolve(master: Seq<Seq<char>>, refs: Seq<SpecRef>) -> bool {
    forall|i: int|
        0 <= i < refs.len() && (#[trigger] refs[i]) is Refer ==> spec_position(master, refs[i].id())
            < master.len()
}

/// Whether a purpose list is in order: no identifier twice, no entry that
/// refers to nothing.
pub open spec fn spec_list_valid(master: Seq<Seq<char>>, refs: Seq<SpecRef>) -> bool {
    spec_distinct(spec_ref_ids(refs)) && spec_refs_resolve(master, refs)
}

/// Whether a document is valid.
pub open spec fn spec_doc_valid(d: SpecDocument) -> bool {
    let master = spec_method_ids(d.verification_method);
    &&& spec_distinct(master)
    &&& spec_list_valid(master, d.authentication)
    &&& spec_list_valid(master, d.assertion_method)
    &&& spec_list_valid(master, d.key_agreement)
    &&& spec_list_valid(master, d.capability_delegation)
    &&& spec_list_valid(master, d.capability_invocation)
    &&& spec_distinct(spec_service_ids(d.service))
}

/// The method an entry stands for: itself, or the general method it refers
/// to.
pub open spec fn spec_resolve_ref(master: Seq<SpecMethod>, r: SpecRef) -> Option<SpecMethod> {
    match r {
        SpecRef::Embed(m) => Some(m),
        SpecRef::Refer(id) => {
            let k = spec_position(spec_method_ids(master), id);
            if k < master.len() {
                Some(master[k])
            } else {
                None
            }
        },
    }
}

/// The general method that a pointer picks.
pub open spec fn spec_resolve_general(master: Seq<SpecMethod>, ident: SpecIdent) -> Option<SpecMethod> {
    let k = spec_pick(spec_method_ids(master), ident);
    if k < master.len() {
        Some(master[k])
    } else {
        None
    }
}

/// The method that a pointer picks in a purpose list.
pub open spec fn spec_resolve_in(master: Seq<SpecMethod>, refs: Seq<SpecRef>, ident: SpecIdent) -> Option<
    SpecMethod,
> {
    let k = spec_pick(spec_ref_ids(refs), ident);
    if k < refs.len() {
        spec_resolve_ref(master, refs[k])
    } else {
        None
    }
}

/// The first of two outcomes that is one.
pub open spec fn spec_or(a: Option<SpecMethod>, b: Option<SpecMethod>) -> Option<SpecMethod> {
    match a {
        Some(_) => a,
        None => b,
    }
}

/// The purpose list of a document for a scope; the empty list for the scopes
/// that are no purpose list.
pub open spec fn spec_list(d: SpecDocument, scope: MethodScope) -> Seq<SpecRef> {
    match scope {
        MethodScope::Authentication => d.authentication,
        MethodScope::AssertionMethod => d.assertion_method,
        MethodScope::KeyAgreement => d.key_agreement,
        MethodScope::CapabilityDelegation => d.capability_delegation,
        MethodScope::CapabilityInvocation => d.capability_invocation,
        _ => Seq::empty(),
    }
}

/// The method that a pointer picks in a document for a scope. A place is
/// counted within the list of the scope; a name is the identifier of a method
/// or its fragment. The scope `Any` takes the general list first and then
/// each purpose list in turn, and gives the first method found.
pub open spec fn spec_resolve(d: SpecDocument, ident: SpecIdent, scope: MethodScope) -> Option<SpecMethod> {
    let master = d.verification_method;
    match scope {
        MethodScope::VerificationMethod => spec_resolve_general(master, ident),
        MethodScope::Any => spec_or(
            spec_resolve_general(master, ident),
            spec_or(
                spec_resolve_in(master, d.authentication, ident),
                spec_or(
                    spec_resolve_in(master, d.assertion_method, ident),
                    spec_or(
                        spec_resolve_in(master, d.key_agreement, ident),
                        spec_or(
                            spec_resolve_in(master, d.capability_delegation, ident),
                            spec_resolve_in(master, d.capability_invocation, ident),
                        ),
                    ),
                ),
            ),
        ),
        _ => spec_resolve_in(master, spec_list(d, scope), ident),
    }
}

/// The view of a method that may be there.
pub open spec fn spec_opt_method(m: Option<&Method>) -> Option<SpecMethod> {
    match m {
        Some(method) => Some(method@),
        None => None,
    }
}

pub(crate) fn method_ids<'a>(methods: &'a Vec<Method>) -> (ids: Vec<&'a str>)
    ensures
        spec_strs(ids@) == spec_method_ids(spec_methods(methods@)),
{
    let mut ids: Vec<&'a str> = Vec::new();
    let mut i: usize = 0;
    while i < methods.len()
        invariant
            i <= methods.len(),
            ids.len() == i,
            forall|k: int| 0 <= k < i ==> (#[trigger] ids@[k])@ == methods@[k].id@,
        decreases methods.len() - i,
    {
        ids.push(methods[i].id.as_str());
        i += 1;
    }
    assert(spec_strs(ids@) =~= spec_method_ids(spec_methods(methods@)));
    ids
}

pub(crate) fn ref_ids<'a>(refs: &'a Vec<MethodRef>) -> (ids: Vec<&'a str>)
    ensures
        spec_strs(ids@) == spec_ref_ids(spec_refs(refs@)),
{
    let mut ids: Vec<&'a str> = Vec::new();
    let mut i: usize = 0;
    while i < refs.len()
        invariant
            i <= refs.len(),
            ids.len() == i,
            forall|k: int| 0 <= k < i ==> (#[trigger] ids@[k])@ == refs@[k]@.id(),
        decreases refs.len() - i,
    {
        ids.push(refs[i].id());
        i += 1;
    }
    assert(spec_strs(ids@) =~= spec_ref_ids(spec_refs(refs@)));
    ids
}

pub(crate) fn service_ids<'a>(services: &'a Vec<Service>) -> (ids: Vec<&'a str>)
    ensures
        spec_strs(ids@) == spec_service_ids(spec_services(services@)),
{
    let mut ids: Vec<&'a str> = Vec::new();
    let mut i: usize = 0;
    while i < services.len()
        invariant
            i <= services.len(),
            ids.len() == i,
            forall|k: int| 0 <= k < i ==> (#[trigger] ids@[k])@ == services@[k].id@,
        decreases services.len() - i,
    {
        ids.push(services[i].id.as_str());
        i += 1;
    }
    assert(spec_strs(ids@) =~= spec_service_ids(spec_services(services@)));
    ids
}

fn distinct(ids: &Vec<&str>) -> (ok: bool)
    ensures
        ok == spec_distinct(spec_strs(ids@)),
{
    let ghost all = spec_strs(ids@);
    let mut j: usize = 0;
    while j < ids.len()
        invariant
            j <= ids.len(),
            all == spec_strs(ids@),
            forall|a: int, b: int| 0 <= a < b < j ==> all[a] != all[b],
        decreases ids.len() - j,
    {
        let mut i: usize = 0;
        while i < j
            invariant
                i <= j,
                j < ids.len(),
                all == spec_strs(ids@),
                forall|a: int| 0 <= a < i ==> all[a] != all[j as int],
            decreases j - i,
        {
            if str_eq(ids[i], ids[j]) {
                proof {
                    assert(all[i as int] == all[j as int]);
                }
                return false;
            }
            i += 1;
        }
        j += 1;
    }
    true
}

pub(crate) fn position(ids: &Vec<&str>, id: &str) -> (at: usize)
    ensures
        at == spec_position(spec_strs(ids@), id@),
        at <= ids.len(),
{
    let ghost all = spec_strs(ids@);
    let mut i: usize = 0;
    assert(all.skip(0) =~= all);
    while i < ids.len()
        invariant
            i <= ids.len(),
            all == spec_strs(ids@),
            spec_position(all, id@) == i + spec_position(all.skip(i as int), id@),
        decreases ids.len() - i,
    {
        proof {
            assert(all.skip(i as int)[0] == all[i as int]);
            assert(all.skip(i as int).drop_first() =~= all.skip(i + 1));
        }
        if str_eq(ids[i], id) {
            return i;
        }
        i += 1;
    }
    i
}

fn first_named(ids: &Vec<&str>, name: &str) -> (at: usize)
    ensures
        at == spec_first_named(spec_strs(ids@), name@),
        at <= ids.len(),
{
    let ghost all = spec_strs(ids@);
    let mut i: usize = 0;
    assert(all.skip(0) =~= all);
    while i < ids.len()
        invariant
            i <= ids.len(),
            all == spec_strs(ids@),
            spec_first_named(all, name@) == i + spec_first_named(all.skip(i as int), name@),
        decreases ids.len() - i,
    {
        proof {
            assert(all.skip(i as int)[0] == all[i as int]);
            assert(all.skip(i as int).drop_first() =~= all.skip(i + 1));
        }
        if names(ids[i], name) {
            return i;
        }
        i += 1;
    }
    i
}

fn pick(ids: &Vec<&str>, ident: &MethodIdent<'_>) -> (at: usize)
    ensures
        at == spec_pick(spec_strs(ids@), ident@),
        at <= ids.len(),
{
    match ident {
        MethodIdent::Index(n) => if *n < ids.len() {
            *n
        } else {
            ids.len()
        },
        MethodIdent::Ident(name) => first_named(ids, name),
    }
}

fn refs_resolve(master: &Vec<&str>, refs: &Vec<MethodRef>) -> (ok: bool)
    ensures
        ok == spec_refs_resolve(spec_strs(master@), spec_refs(refs@)),
{
    let ghost views = spec_refs(refs@);
    let mut i: usize = 0;
    while i < refs.len()
        invariant
            i <= refs.len(),
            views == spec_refs(refs@),
            forall|k: int|
                0 <= k < i && (#[trigger] views[k]) is Refer ==> spec_position(
                    spec_strs(master@),
                    views[k].id(),
                ) < master.len(),
        decreases refs.len() - i,
    {
        match &refs[i] {
            MethodRef::Refer(id) => {
                if position(master, id.as_str()) >= master.len() {
                    proof {
                        assert(views[i as int] is Refer);
                    }
                    return false;
                }
            },
            MethodRef::Embed(_) => {},
        }
        i += 1;
    }
    true
}

fn list_valid(master: &Vec<&str>, refs: &Vec<MethodRef>) -> (ok: bool)
    ensures
        ok == spec_list_valid(spec_strs(master@), spec_refs(refs@)),
{
    let ids: Vec<&str> = ref_ids(refs);
    distinct(&ids) && refs_resolve(master, refs)
}

fn resolve_ref<'a>(master: &'a Vec<Method>, entry: &'a MethodRef) -> (m: Option<&'a Method>)
    ensures
        spec_opt_method(m) == spec_resolve_ref(spec_methods(master@), entry@),
{
    match entry {
        MethodRef::Embed(method) => Some(method),
        MethodRef::Refer(id) => {
            let ids: Vec<&str> = method_ids(master);
            let at: usize = position(&ids, id.as_str());
            if at < master.len() {
                Some(&master[at])
            } else {
                None
            }
        },
    }
}

fn resolve_general<'a>(master: &'a Vec<Method>, ident: &MethodIdent<'_>) -> (m: Option<&'a Method>)
    ensures
        spec_opt_method(m) == spec_resolve_general(spec_methods(master@), ident@),
{
    let ids: Vec<&str> = method_ids(master);
    let at: usize = pick(&ids, ident);
    if at < master.len() {
        Some(&master[at])
    } else {
        None
    }
}

fn resolve_in<'a>(master: &'a Vec<Method>, refs: &'a Vec<MethodRef>, ident: &MethodIdent<'_>) -> (m: Option<
    &'a Method,
>)
    ensures
        spec_opt_method(m) == spec_resolve_in(spec_methods(master@), spec_refs(refs@), ident@),
{
    let ids: Vec<&str> = ref_ids(refs);
    let at: usize = pick(&ids, ident);
    if at < refs.len() {
        resolve_ref(master, &refs[at])
    } else {
        None
    }
}

/// What a document holds besides its signature. Always valid.
struct Body {
    id: String,
    verification_method: Vec<Method>,
    authentication: Vec<MethodRef>,
    assertion_method: Vec<MethodRef>,
    key_agreement: Vec<MethodRef>,
    capability_delegation: Vec<MethodRef>,
    capability_invocation: Vec<MethodRef>,
    service: Vec<Service>,
}

impl Body {
    #[verifier::type_invariant]
    spec fn well_formed(self) -> bool {
        spec_doc_valid(self.with(None))
    }

    spec fn with(self, carried: Option<SpecSignature>) -> SpecDocument {
        SpecDocument {
            id: self.id@,
            verification_method: spec_methods(self.verification_method@),
            authentication: spec_refs(self.authentication@),
            assertion_method: spec_refs(self.assertion_method@),
            key_agreement: spec_refs(self.key_agreement@),
            capability_delegation: spec_refs(self.capability_delegation@),
            capability_invocation: spec_refs(self.capability_invocation@),
            service: spec_services(self.service@),
            proof: carried,
        }
    }
}

/// A DID document.
pub struct Document {
    body: Body,
    proof: Option<Signature>,
}

impl View for Document {
    type V = SpecDocument;

    closed spec fn view(&self) -> SpecDocument {
        self.body.with(spec_opt_signature(self.proof))
    }
}

/// The parts a document is built from.
pub struct DocumentParts {
    pub id: String,
    pub verification_method: Vec<Method>,
    pub authentication: Vec<MethodRef>,
    pub assertion_method: Vec<MethodRef>,
    pub key_agreement: Vec<MethodRef>,
    pub capability_delegation: Vec<MethodRef>,
    pub capability_invocation: Vec<MethodRef>,
    pub service: Vec<Service>,
    pub proof: Option<Signature>,
}

impl View for DocumentParts {
    type V = SpecDocument;

    open spec fn view(&self) -> SpecDocument {
        SpecDocument {
            id: self.id@,
            verification_method: spec_methods(self.verification_method@),
            authentication: spec_refs(self.authentication@),
            assertion_method: spec_refs(self.assertion_method@),
            key_agreement: spec_refs(self.key_agreement@),
            capability_delegation: spec_refs(self.capability_delegation@),
            capability_invocation: spec_refs(self.capability_invocation@),
            service: spec_services(self.service@),
            proof: spec_opt_signature(self.proof),
        }
    }
}

impl DocumentParts {
    /// The parts of a document with the given identifier and nothing else.
    pub fn new(id: &str) -> (parts: DocumentParts)
        ensures
            parts@ == (SpecDocument {
                id: id@,
                verification_method: Seq::empty(),
                authentication: Seq::empty(),
                assertion_method: Seq::empty(),
                key_agreement: Seq::empty(),
                capability_delegation: Seq::empty(),
                capability_invocation: Seq::empty(),
                service: Seq::empty(),
                proof: None,
            }),
    {
        let parts = DocumentParts {
            id: copy_str(id),
            verification_method: Vec::new(),
            authentication: Vec::new(),
            assertion_method: Vec::new(),
            key_agreement: Vec::new(),
            capability_delegation: Vec::new(),
            capability_invocation: Vec::new(),
            service: Vec::new(),
            proof: None,
        };
        proof {
            assert(parts@.verification_method =~= Seq::empty());
            assert(parts@.authentication =~= Seq::empty());
            assert(parts@.assertion_method =~= Seq::empty());
            assert(parts@.key_agreement =~= Seq::empty());
            assert(parts@.capability_delegation =~= Seq::empty());
            assert(parts@.capability_invocation =~= Seq::empty());
            assert(parts@.service =~= Seq::empty());
        }
        parts
    }

    /// Tells whether the parts make a valid document.
    pub fn is_valid(&self) -> (ok: bool)
        ensures
            ok == spec_doc_valid(self@),
    {
        let master: Vec<&str> = method_ids(&self.verification_method);
        let services: Vec<&str> = service_ids(&self.service);
        distinct(&master) && list_valid(&master, &self.authentication) && list_valid(
            &master,
            &self.assertion_method,
        ) && list_valid(&master, &self.key_agreement) && list_valid(&master, &self.capability_delegation)
            && list_valid(&master, &self.capability_invocation) && distinct(&services)
    }
}

impl Document {
    /// The document made of `parts`. Fails with `ValidationFailure` exactly
    /// when the parts do not make a valid document.
    pub fn build(parts: DocumentParts) -> (r: Result<Document, Error>)
        ensures
            r is Ok <==> spec_doc_valid(parts@),
            r is Ok ==> r->Ok_0@ == parts@,
            r is Err ==> r->Err_0 == Error::ValidationFailure,
    {
        if !parts.is_valid() {
            return Err(Error::ValidationFailure);
        }
        Ok(
            Document {
                body: Body {
                    id: parts.id,
                    verification_method: parts.verification_method,
                    authentication: parts.authentication,
                    assertion_method: parts.assertion_method,
                    key_agreement: parts.key_agreement,
                    capability_delegation: parts.capability_delegation,
                    capability_invocation: parts.capability_invocation,
                    service: parts.service,
                },
                proof: parts.proof,
            },
        )
    }

    /// Every document is valid. Costs nothing at run time.
    pub fn valid(&self)
        ensures
            spec_doc_valid(self@),
    {
        proof {
            use_type_invariant(&self.body);
        }
    }

    /// A copy of the parts of the document.
    pub fn parts(&self) -> (parts: DocumentParts)
        ensures
            parts@ == self@,
    {
        let parts = DocumentParts {
            id: copy_str(self.body.id.as_str()),
            verification_method: copy_methods(&self.body.verification_method),
            authentication: copy_refs(&self.body.authentication),
            assertion_method: copy_refs(&self.body.assertion_method),
            key_agreement: copy_refs(&self.body.key_agreement),
            capability_delegation: copy_refs(&self.body.capability_delegation),
            capability_invocation: copy_refs(&self.body.capability_invocation),
            service: copy_services(&self.body.service),
            proof: match &self.proof {
                Some(s) => Some(s.copy()),
                None => None,
            },
        };
        parts
    }

    /// The document whose one method is `auth`, held for authentication; its
    /// identifier is the controller of `auth`.
    pub fn from_auth(auth: Method) -> (r: Result<Document, Error>)
        ensures
            r is Ok,
            r->Ok_0@ == (SpecDocument {
                id: auth@.controller,
                verification_method: Seq::empty(),
                authentication: seq![SpecRef::Embed(auth@)],
                assertion_method: Seq::empty(),
                key_agreement: Seq::empty(),
                capability_delegation: Seq::empty(),
                capability_invocation: Seq::empty(),
                service: Seq::empty(),
                proof: None,
            }),
    {
        let mut parts: DocumentParts = DocumentParts::new(auth.controller.as_str());
        let ghost before = parts@;
        parts.authentication.push(MethodRef::Embed(auth));
        proof {
            assert(parts@.authentication =~= seq![SpecRef::Embed(auth@)]);
            assert(parts@.verification_method =~= before.verification_method);
            assert(parts@.assertion_method =~= before.assertion_method);
            assert(parts@.key_agreement =~= before.key_agreement);
            assert(parts@.capability_delegation =~= before.capability_delegation);
            assert(parts@.capability_invocation =~= before.capability_invocation);
            assert(parts@.service =~= before.service);
        }
        Self::build(parts)
    }

    /// A copy of the document.
    pub fn copy(&self) -> (d: Document)
        ensures
            d@ == self@,
    {
        proof {
            use_type_invariant(&self.body);
        }
        Document {
            body: Body {
                id: copy_str(self.body.id.as_str()),
                verification_method: copy_methods(&self.body.verification_method),
                authentication: copy_refs(&self.body.authentication),
                assertion_method: copy_refs(&self.body.assertion_method),
                key_agreement: copy_refs(&self.body.key_agreement),
                capability_delegation: copy_refs(&self.body.capability_delegation),
                capability_invocation: copy_refs(&self.body.capability_invocation),
                service: copy_services(&self.body.service),
            },
            proof: match self.proof.as_ref() {
                Some(s) => Some(s.copy()),
                None => None,
            },
        }
    }

    /// The identifier of the document.
    pub fn id(&self) -> (id: &str)
        ensures
            id@ == self@.id,
    {
        self.body.id.as_str()
    }

    /// The general methods.
    pub fn verification_method(&self) -> (list: &Vec<Method>)
        ensures
            spec_methods(list@) == self@.verification_method,
    {
        &self.body.verification_method
    }

    /// The methods for authentication.
    pub fn authentication(&self) -> (list: &Vec<MethodRef>)
        ensures
            spec_refs(list@) == self@.authentication,
    {
        &self.body.authentication
    }

    /// The methods for assertions.
    pub fn assertion_method(&self) -> (list: &Vec<MethodRef>)
        ensures
            spec_refs(list@) == self@.assertion_method,
    {
        &self.body.assertion_method
    }

    /// The methods for key agreement.
    pub fn key_agreement(&self) -> (list: &Vec<MethodRef>)
        ensures
            spec_refs(list@) == self@.key_agreement,
    {
        &self.body.key_agreement
    }

    /// The methods for capability delegation.
    pub fn capability_delegation(&self) -> (list: &Vec<MethodRef>)
        ensures
            spec_refs(list@) == self@.capability_delegation,
    {
        &self.body.capability_delegation
    }

    /// The methods for capability invocation.
    pub fn capability_invocation(&self) -> (list: &Vec<MethodRef>)
        ensures
            spec_refs(list@) == self@.capability_invocation,
    {
        &self.body.capability_invocation
    }

    /// The services.
    pub fn service(&self) -> (list: &Vec<Service>)
        ensures
            spec_services(list@) == self@.service,
    {
        &self.body.service
    }

    /// The signature the document carries, if any.
    pub fn signature_of(&self) -> (s: Option<&Signature>)
        ensures
            s is Some <==> self@.proof is Some,
            s is Some ==> s->0@ == self@.proof->0,
    {
        self.proof.as_ref()
    }

    /// The method that `query` picks; none where it picks none.
    pub fn resolve(&self, query: MethodQuery<'_>) -> (m: Option<&Method>)
        ensures
            spec_opt_method(m) == spec_resolve(self@, query@.ident, query@.scope),
    {
        let ident: &MethodIdent<'_> = &query.ident;
        let master: &Vec<Method> = &self.body.verification_method;
        match query.scope {
            MethodScope::VerificationMethod => resolve_general(master, ident),
            MethodScope::Authentication => resolve_in(master, &self.body.authentication, ident),
            MethodScope::AssertionMethod => resolve_in(master, &self.body.assertion_method, ident),
            MethodScope::KeyAgreement => resolve_in(master, &self.body.key_agreement, ident),
            MethodScope::CapabilityDelegation => resolve_in(master, &self.body.capability_delegation, ident),
            MethodScope::CapabilityInvocation => resolve_in(master, &self.body.capability_invocation, ident),
            MethodScope::Any => {
                match resolve_general(master, ident) {
                    Some(m) => return Some(m),
                    None => {},
                }
                match resolve_in(master, &self.body.authentication, ident) {
                    Some(m) => return Some(m),
                    None => {},
                }
                match resolve_in(master, &self.body.assertion_method, ident) {
                    Some(m) => return Some(m),
                    None => {},
                }
                match resolve_in(master, &self.body.key_agreement, ident) {
                    Some(m) => return Some(m),
                    None => {},
                }
                match resolve_in(master, &self.body.capability_delegation, ident) {
                    Some(m) => return Some(m),
                    None => {},
                }
                resolve_in(master, &self.body.capability_invocation, ident)
            },
        }
    }

    /// The method that `query` picks. Fails with `UnresolvedMethod` exactly
    /// when it picks none.
    pub fn try_resolve(&self, query: MethodQuery<'_>) -> (r: Result<&Method, Error>)
        ensures
            r is Ok <==> spec_resolve(self@, query@.ident, query@.scope) is Some,
            r is Ok ==> r->Ok_0@ == spec_resolve(self@, query@.ident, query@.scope)->0,
            r is Err ==> r->Err_0 == Error::UnresolvedMethod,
    {
        match self.resolve(query) {
            Some(m) => Ok(m),
            None => Err(Error::UnresolvedMethod),
        }
    }

    /// A copy of the method that `ident` picks among the methods of the
    /// purpose named `scope`, or among those for authentication where no
    /// purpose is named. Fails with `UnresolvedMethod` when the name is that
    /// of no purpose or the pointer picks no method.
    pub fn resolve_key(&self, ident: MethodIdent<'_>, scope: Option<&str>) -> (r: Result<Method, Error>)
        ensures
            r is Ok <==> spec_resolve_key(self@, ident@, spec_opt_str(scope)) is Some,
            r is Ok ==> r->Ok_0@ == spec_resolve_key(self@, ident@, spec_opt_str(scope))->0,
            r is Err ==> r->Err_0 == Error::UnresolvedMethod,
    {
        let scope: MethodScope = match scope {
            Some(name) => match MethodScope::parse(name) {
                Some(s) => s,
                None => return Err(Error::UnresolvedMethod),
            },
            None => MethodScope::Authentication,
        };
        match self.resolve(MethodQuery { ident, scope }) {
            Some(m) => Ok(m.copy()),
            None => Err(Error::UnresolvedMethod),
        }
    }
}

impl TrySignature for Document {
    /// The signature the document carries.
    open spec fn spec_signature(&self) -> Option<SpecSignature> {
        self@.proof
    }

    fn signature(&self) -> (s: Option<&Signature>) {
        self.proof.as_ref()
    }
}

impl TrySignatureMut for Document {
    fn signature_mut(&mut self) -> (s: Option<&mut Signature>)
        ensures
            s is Some ==> final(self)@ == (SpecDocument { proof: Some((*final(s->0))@), ..old(self)@ }),
            s is None ==> final(self)@ == old(self)@,
    {
        self.proof.as_mut()
    }
}

impl SetSignature for Document {
    fn set_signature(&mut self, value: Signature)
        ensures
            final(self)@ == (SpecDocument { proof: Some(value@), ..old(self)@ }),
    {
        proof {
            use_type_invariant(&self.body);
        }
        self.proof = Some(value);
    }
}

/// Where a list has a method at its first place, the identifier of that
/// method picks the same method in the list: looking a method up by its
/// place and by its name agree.
pub proof fn lemma_first_resolves_by_name(d: SpecDocument, scope: MethodScope)
    requires
        scope != MethodScope::Any,
        spec_resolve(d, SpecIdent::Index(0), scope) is Some,
    ensures
        spec_resolve(d, SpecIdent::Ident(spec_resolve(d, SpecIdent::Index(0), scope)->0.id), scope)
            == spec_resolve(d, SpecIdent::Index(0), scope),
{
    let m = spec_resolve(d, SpecIdent::Index(0), scope)->0;
    if scope == MethodScope::VerificationMethod {
        let ids = spec_method_ids(d.verification_method);
        assert(ids[0] == m.id);
        assert(spec_names(m.id, m.id));
    } else {
        let refs = spec_list(d, scope);
        let ids = spec_ref_ids(refs);
        lemma_position(spec_method_ids(d.verification_method), refs[0].id());
        assert(ids[0] == m.id);
        assert(spec_names(m.id, m.id));
    }
}

/// Any name that names the identifier of the first entry of a list picks
/// what the first place picks.
pub proof fn lemma_name_of_first(master: Seq<SpecMethod>, refs: Seq<SpecRef>, name: Seq<char>)
    requires
        refs.len() > 0,
        spec_names(refs[0].id(), name),
    ensures
        spec_resolve_in(master, refs, SpecIdent::Ident(name)) == spec_resolve_in(
            master,
            refs,
            SpecIdent::Index(0),
        ),
{
    assert(spec_ref_ids(refs)[0] == refs[0].id());
}

/// No pointer picks a method in an empty list.
pub proof fn lemma_resolve_in_empty(master: Seq<SpecMethod>, ident: SpecIdent)
    ensures
        spec_resolve_in(master, Seq::empty(), ident) is None,
        spec_resolve_general(Seq::empty(), ident) is None,
{
    assert(spec_ref_ids(Seq::<SpecRef>::empty()) =~= Seq::empty());
    assert(spec_method_ids(Seq::<SpecMethod>::empty()) =~= Seq::empty());
}

/// The characters of a string that may be there.
pub open spec fn spec_opt_str(s: Option<&str>) -> Option<Seq<char>> {
    match s {
        Some(t) => Some(t@),
        None => None,
    }
}

/// The method that a pointer picks among the methods of the purpose named
/// `scope`; authentication where no purpose is named.
pub open spec fn spec_resolve_key(d: SpecDocument, ident: SpecIdent, scope: Option<Seq<char>>) -> Option<
    SpecMethod,
> {
    match scope {
        None => spec_resolve(d, ident, MethodScope::Authentication),
        Some(name) => match MethodScope::spec_parse(name) {
            Some(s) => spec_resolve(d, ident, s),
            None => None,
        },
    }
}

/// A copy of a list of methods.
pub fn copy_methods(methods: &Vec<Method>) -> (out: Vec<Method>)
    ensures
        spec_methods(out@) == spec_methods(methods@),
{
    let mut out: Vec<Method> = Vec::new();
    let mut i: usize = 0;
    while i < methods.len()
        invariant
            i <= methods.len(),
            out.len() == i,
            forall|k: int| 0 <= k < i ==> (#[trigger] out@[k])@ == methods@[k]@,
        decreases methods.len() - i,
    {
        out.push(methods[i].copy());
        i += 1;
    }
    assert(spec_methods(out@) =~= spec_methods(methods@));
    out
}

/// A copy of a list of entries.
pub fn copy_refs(refs: &Vec<MethodRef>) -> (out: Vec<MethodRef>)
    ensures
        spec_refs(out@) == spec_refs(refs@),
{
    let mut out: Vec<MethodRef> = Vec::new();
    let mut i: usize = 0;
    while i < refs.len()
        invariant
            i <= refs.len(),
            out.len() == i,
            forall|k: int| 0 <= k < i ==> (#[trigger] out@[k])@ == refs@[k]@,
        decreases refs.len() - i,
    {
        out.push(refs[i].copy());
        i += 1;
    }
    assert(spec_refs(out@) =~= spec_refs(refs@));
    out
}

/// A copy of a list of services.
pub fn copy_services(services: &Vec<Service>) -> (out: Vec<Service>)
    ensures
        spec_services(out@) == spec_services(services@),
{
    let mut out: Vec<Service> = Vec::new();
    let mut i: usize = 0;
    while i < services.len()
        invariant
            i <= services.len(),
            out.len() == i,
            forall|k: int| 0 <= k < i ==> (#[trigger] out@[k])@ == services@[k]@,
        decreases services.len() - i,
    {
        out.push(services[i].copy());
        i += 1;
    }
    assert(spec_services(out@) =~= spec_services(services@));
    out
}

} // verus!
