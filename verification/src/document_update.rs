//! The controlled ways to change a document.
//!
//! A change is made on a copy of the parts of the document. Where the copy
//! is a valid document it takes the place of the document; where it is not,
//! the change is refused and the document stays as it was.

use vstd::prelude::*;
use crate::document::Document;
use crate::document::DocumentParts;
use crate::document::SpecDocument;
use crate::document::lemma_position;
use crate::document::lemma_resolve_in_empty;
use crate::document::method_ids;
use crate::document::position;
use crate::document::ref_ids;
use crate::document::service_ids;
use crate::document::spec_distinct;
use crate::document::spec_doc_valid;
use crate::document::spec_list;
use crate::document::spec_list_valid;
use crate::document::spec_method_ids;
use crate::document::spec_methods;
use crate::document::spec_position;
use crate::document::spec_ref_ids;
use crate::document::spec_refs;
use crate::document::spec_resolve;
use crate::document::spec_service_ids;
use crate::document::spec_services;
use crate::error::Error;
use crate::method::Method;
use crate::method::MethodRef;
use crate::method::MethodScope;
use crate::method::Service;
use crate::method::SpecIdent;
use crate::method::SpecMethod;
use crate::method::SpecRef;
use crate::method::SpecService;

verus! {

/// A list with `entry` in the place of the first entry with the same
/// identifier, or at the end where there is none; and whether an entry was
/// replaced.
pub open spec fn spec_update(refs: Seq<SpecRef>, entry: SpecRef) -> (Seq<SpecRef>, bool) {
    let k = spec_position(spec_ref_ids(refs), entry.id());
    if k < refs.len() {
        (refs.update(k, entry), true)
    } else {
        (refs.push(entry), false)
    }
}

/// A list of methods with `m` in the place of the first method with the same
/// identifier, or at the end where there is none; and whether a method was
/// replaced.
pub open spec fn spec_update_methods(methods: Seq<SpecMethod>, m: SpecMethod) -> (Seq<SpecMethod>, bool) {
    let k = spec_position(spec_method_ids(methods), m.id);
    if k < methods.len() {
        (methods.update(k, m), true)
    } else {
        (methods.push(m), false)
    }
}

/// A list of services with `s` in the place of the first service with the
/// same identifier, or at the end where there is none; and whether a service
/// was replaced.
pub open spec fn spec_update_services(services: Seq<SpecService>, s: SpecService) -> (Seq<SpecService>, bool) {
    let k = spec_position(spec_service_ids(services), s.id);
    if k < services.len() {
        (services.update(k, s), true)
    } else {
        (services.push(s), false)
    }
}

/// The document with `list` as its purpose list for `scope`; the document
/// itself for the scopes that are no purpose list.
pub open spec fn spec_with_list(d: SpecDocument, scope: MethodScope, list: Seq<SpecRef>) -> SpecDocument {
    match scope {
        MethodScope::Authentication => SpecDocument { authentication: list, ..d },
        MethodScope::AssertionMethod => SpecDocument { assertion_method: list, ..d },
        MethodScope::KeyAgreement => SpecDocument { key_agreement: list, ..d },
        MethodScope::CapabilityDelegation => SpecDocument { capability_delegation: list, ..d },
        MethodScope::CapabilityInvocation => SpecDocument { capability_invocation: list, ..d },
        _ => d,
    }
}

/// What a document would be after `m` was put into its list for `scope`, and
/// whether a method was replaced; none for the scope `Any`, which is no
/// list. For a purpose the method becomes an entry of its own.
pub open spec fn spec_updated(d: SpecDocument, scope: MethodScope, m: SpecMethod) -> Option<(SpecDocument, bool)> {
    match scope {
        MethodScope::Any => None,
        MethodScope::VerificationMethod => {
            let (list, replaced) = spec_update_methods(d.verification_method, m);
            Some((SpecDocument { verification_method: list, ..d }, replaced))
        },
        _ => {
            let (list, replaced) = spec_update(spec_list(d, scope), SpecRef::Embed(m));
            Some((spec_with_list(d, scope, list), replaced))
        },
    }
}

/// What a document would be after its list for `scope` was emptied; none for
/// the scope `Any`, which is no list.
pub open spec fn spec_cleared(d: SpecDocument, scope: MethodScope) -> Option<SpecDocument> {
    match scope {
        MethodScope::Any => None,
        MethodScope::VerificationMethod => Some(SpecDocument { verification_method: Seq::empty(), ..d }),
        _ => Some(spec_with_list(d, scope, Seq::empty())),
    }
}

/// Whether `r` and `after` are what a change of `before` into `wanted` comes
/// to: the change is made where `wanted` is a valid document, and refused
/// with `ValidationFailure`, the document staying as it was, where it is not
/// or where nothing is wanted.
pub open spec fn spec_committed<T>(
    before: SpecDocument,
    wanted: Option<(SpecDocument, T)>,
    r: Result<T, Error>,
    after: SpecDocument,
) -> bool {
    match wanted {
        Some((d, out)) => if spec_doc_valid(d) {
            r == Ok::<T, Error>(out) && after == d
        } else {
            r == Err::<T, Error>(Error::ValidationFailure) && after == before
        },
        None => r == Err::<T, Error>(Error::ValidationFailure) && after == before,
    }
}

/// What emptying a list is wanted to come to.
pub open spec fn spec_clear_wanted(d: SpecDocument, scope: MethodScope) -> Option<(SpecDocument, ())> {
    match spec_cleared(d, scope) {
        Some(doc) => Some((doc, ())),
        None => None,
    }
}

/// What putting a service into a document is wanted to come to.
pub open spec fn spec_service_wanted(d: SpecDocument, s: SpecService) -> Option<(SpecDocument, bool)> {
    let (list, replaced) = spec_update_services(d.service, s);
    Some((SpecDocument { service: list, ..d }, replaced))
}

fn update_refs(refs: Vec<MethodRef>, entry: MethodRef) -> (out: (Vec<MethodRef>, bool))
    ensures
        (spec_refs(out.0@), out.1) == spec_update(spec_refs(refs@), entry@),
{
    let mut refs = refs;
    let ghost before = spec_refs(refs@);
    let at: usize = {
        let ids: Vec<&str> = ref_ids(&refs);
        position(&ids, entry.id())
    };
    if at < refs.len() {
        refs.set(at, entry);
        assert(spec_refs(refs@) =~= before.update(at as int, entry@));
        (refs, true)
    } else {
        refs.push(entry);
        assert(spec_refs(refs@) =~= before.push(entry@));
        (refs, false)
    }
}

fn update_methods(methods: Vec<Method>, m: Method) -> (out: (Vec<Method>, bool))
    ensures
        (spec_methods(out.0@), out.1) == spec_update_methods(spec_methods(methods@), m@),
{
    let mut methods = methods;
    let ghost before = spec_methods(methods@);
    let at: usize = {
        let ids: Vec<&str> = method_ids(&methods);
        position(&ids, m.id.as_str())
    };
    if at < methods.len() {
        methods.set(at, m);
        assert(spec_methods(methods@) =~= before.update(at as int, m@));
        (methods, true)
    } else {
        methods.push(m);
        assert(spec_methods(methods@) =~= before.push(m@));
        (methods, false)
    }
}

fn update_services(services: Vec<Service>, s: Service) -> (out: (Vec<Service>, bool))
    ensures
        (spec_services(out.0@), out.1) == spec_update_services(spec_services(services@), s@),
{
    let mut services = services;
    let ghost before = spec_services(services@);
    let at: usize = {
        let ids: Vec<&str> = service_ids(&services);
        position(&ids, s.id.as_str())
    };
    if at < services.len() {
        services.set(at, s);
        assert(spec_services(services@) =~= before.update(at as int, s@));
        (services, true)
    } else {
        services.push(s);
        assert(spec_services(services@) =~= before.push(s@));
        (services, false)
    }
}

impl Document {
    /// Puts in place the document made of `parts` where they make a valid
    /// one, and hands `out` back; leaves the document as it was where they do
    /// not.
    fn commit<T>(&mut self, parts: DocumentParts, out: T) -> (r: Result<T, Error>)
        ensures
            spec_committed(old(self)@, Some((parts@, out)), r, final(self)@),
    {
        match Self::build(parts) {
            Ok(doc) => {
                *self = doc;
                Ok(out)
            },
            Err(_) => Err(Error::ValidationFailure),
        }
    }

    /// Puts `method` into the list for `scope`: in the place of the method
    /// with the same identifier where there is one, which keeps the order,
    /// else at the end. Tells whether a method was replaced. The change is
    /// refused where it would leave the document invalid.
    pub fn update(&mut self, scope: MethodScope, method: &Method) -> (r: Result<bool, Error>)
        ensures
            spec_committed(old(self)@, spec_updated(old(self)@, scope, method@), r, final(self)@),
            scope != MethodScope::Any ==> r is Ok,
    {
        self.valid();
        proof {
            if scope != MethodScope::Any {
                lemma_update_valid(self@, scope, method@);
            }
        }
        let mut parts: DocumentParts = self.parts();
        let replaced: bool = match scope {
            MethodScope::Any => return Err(Error::ValidationFailure),
            MethodScope::VerificationMethod => {
                let (list, replaced) = update_methods(parts.verification_method, method.copy());
                parts.verification_method = list;
                replaced
            },
            MethodScope::Authentication => {
                let (list, replaced) = update_refs(parts.authentication, MethodRef::Embed(method.copy()));
                parts.authentication = list;
                replaced
            },
            MethodScope::AssertionMethod => {
                let (list, replaced) = update_refs(parts.assertion_method, MethodRef::Embed(method.copy()));
                parts.assertion_method = list;
                replaced
            },
            MethodScope::KeyAgreement => {
                let (list, replaced) = update_refs(parts.key_agreement, MethodRef::Embed(method.copy()));
                parts.key_agreement = list;
                replaced
            },
            MethodScope::CapabilityDelegation => {
                let (list, replaced) = update_refs(
                    parts.capability_delegation,
                    MethodRef::Embed(method.copy()),
                );
                parts.capability_delegation = list;
                replaced
            },
            MethodScope::CapabilityInvocation => {
                let (list, replaced) = update_refs(
                    parts.capability_invocation,
                    MethodRef::Embed(method.copy()),
                );
                parts.capability_invocation = list;
                replaced
            },
        };
        self.commit(parts, replaced)
    }

    /// Empties the list for `scope`. The methods that were entries of their
    /// own in the list are gone with it. The change is refused where it would
    /// leave the document invalid.
    pub fn clear(&mut self, scope: MethodScope) -> (r: Result<(), Error>)
        ensures
            spec_committed(old(self)@, spec_clear_wanted(old(self)@, scope), r, final(self)@),
            scope != MethodScope::Any && scope != MethodScope::VerificationMethod ==> r is Ok,
    {
        self.valid();
        proof {
            if scope != MethodScope::Any && scope != MethodScope::VerificationMethod {
                lemma_clear_valid(self@, scope);
            }
        }
        let mut parts: DocumentParts = self.parts();
        match scope {
            MethodScope::Any => return Err(Error::ValidationFailure),
            MethodScope::VerificationMethod => {
                parts.verification_method = Vec::new();
                assert(spec_methods(parts.verification_method@) =~= Seq::empty());
            },
            MethodScope::Authentication => {
                parts.authentication = Vec::new();
                assert(spec_refs(parts.authentication@) =~= Seq::empty());
            },
            MethodScope::AssertionMethod => {
                parts.assertion_method = Vec::new();
                assert(spec_refs(parts.assertion_method@) =~= Seq::empty());
            },
            MethodScope::KeyAgreement => {
                parts.key_agreement = Vec::new();
                assert(spec_refs(parts.key_agreement@) =~= Seq::empty());
            },
            MethodScope::CapabilityDelegation => {
                parts.capability_delegation = Vec::new();
                assert(spec_refs(parts.capability_delegation@) =~= Seq::empty());
            },
            MethodScope::CapabilityInvocation => {
                parts.capability_invocation = Vec::new();
                assert(spec_refs(parts.capability_invocation@) =~= Seq::empty());
            },
        }
        self.commit(parts, ())
    }

    /// Puts `service` into the list of services: in the place of the service
    /// with the same identifier where there is one, else at the end. Tells
    /// whether a service was replaced.
    pub fn update_service(&mut self, service: Service) -> (r: Result<bool, Error>)
        ensures
            spec_committed(old(self)@, spec_service_wanted(old(self)@, service@), r, final(self)@),
            r is Ok,
    {
        self.valid();
        proof {
            lemma_update_service_valid(self@, service@);
        }
        let mut parts: DocumentParts = self.parts();
        let (list, replaced) = update_services(parts.service, service);
        parts.service = list;
        self.commit(parts, replaced)
    }

    /// Empties the list of services.
    pub fn clear_services(&mut self) -> (r: Result<(), Error>)
        ensures
            spec_committed(
                old(self)@,
                Some((SpecDocument { service: Seq::empty(), ..old(self)@ }, ())),
                r,
                final(self)@,
            ),
            r is Ok,
    {
        self.valid();
        proof {
            lemma_clear_valid(self@, MethodScope::Authentication);
        }
        let mut parts: DocumentParts = self.parts();
        parts.service = Vec::new();
        assert(spec_services(parts.service@) =~= Seq::empty());
        self.commit(parts, ())
    }

    /// Puts `method` among the methods for authentication.
    pub fn update_authentication(&mut self, method: &Method) -> (r: Result<bool, Error>)
        ensures
            spec_committed(
                old(self)@,
                spec_updated(old(self)@, MethodScope::Authentication, method@),
                r,
                final(self)@,
            ),
            r is Ok,
    {
        self.update(MethodScope::Authentication, method)
    }

    /// Empties the methods for authentication.
    pub fn clear_authentication(&mut self) -> (r: Result<(), Error>)
        ensures
            spec_committed(
                old(self)@,
                spec_clear_wanted(old(self)@, MethodScope::Authentication),
                r,
                final(self)@,
            ),
            r is Ok,
    {
        self.clear(MethodScope::Authentication)
    }

    /// Puts `method` among the methods for assertions.
    pub fn update_assertion_method(&mut self, method: &Method) -> (r: Result<bool, Error>)
        ensures
            spec_committed(
                old(self)@,
                spec_updated(old(self)@, MethodScope::AssertionMethod, method@),
                r,
                final(self)@,
            ),
            r is Ok,
    {
        self.update(MethodScope::AssertionMethod, method)
    }

    /// Empties the methods for assertions.
    pub fn clear_assertion_method(&mut self) -> (r: Result<(), Error>)
        ensures
            spec_committed(
                old(self)@,
                spec_clear_wanted(old(self)@, MethodScope::AssertionMethod),
                r,
                final(self)@,
            ),
            r is Ok,
    {
        self.clear(MethodScope::AssertionMethod)
    }

    /// Puts `method` among the general methods.
    pub fn update_verification_method(&mut self, method: &Method) -> (r: Result<bool, Error>)
        ensures
            spec_committed(
                old(self)@,
                spec_updated(old(self)@, MethodScope::VerificationMethod, method@),
                r,
                final(self)@,
            ),
            r is Ok,
    {
        self.update(MethodScope::VerificationMethod, method)
    }

    /// Empties the general methods. Refused while an entry of a purpose list
    /// refers to one of them.
    pub fn clear_verification_method(&mut self) -> (r: Result<(), Error>)
        ensures
            spec_committed(
                old(self)@,
                spec_clear_wanted(old(self)@, MethodScope::VerificationMethod),
                r,
                final(self)@,
            ),
    {
        self.clear(MethodScope::VerificationMethod)
    }

    /// Puts `method` among the methods for capability delegation.
    pub fn update_capability_delegation(&mut self, method: &Method) -> (r: Result<bool, Error>)
        ensures
            spec_committed(
                old(self)@,
                spec_updated(old(self)@, MethodScope::CapabilityDelegation, method@),
                r,
                final(self)@,
            ),
            r is Ok,
    {
        self.update(MethodScope::CapabilityDelegation, method)
    }

    /// Empties the methods for capability delegation.
    pub fn clear_capability_delegation(&mut self) -> (r: Result<(), Error>)
        ensures
            spec_committed(
                old(self)@,
                spec_clear_wanted(old(self)@, MethodScope::CapabilityDelegation),
                r,
                final(self)@,
            ),
            r is Ok,
    {
        self.clear(MethodScope::CapabilityDelegation)
    }

    /// Puts `method` among the methods for capability invocation.
    pub fn update_capability_invocation(&mut self, method: &Method) -> (r: Result<bool, Error>)
        ensures
            spec_committed(
                old(self)@,
                spec_updated(old(self)@, MethodScope::CapabilityInvocation, method@),
                r,
                final(self)@,
            ),
            r is Ok,
    {
        self.update(MethodScope::CapabilityInvocation, method)
    }

    /// Empties the methods for capability invocation.
    pub fn clear_capability_invocation(&mut self) -> (r: Result<(), Error>)
        ensures
            spec_committed(
                old(self)@,
                spec_clear_wanted(old(self)@, MethodScope::CapabilityInvocation),
                r,
                final(self)@,
            ),
            r is Ok,
    {
        self.clear(MethodScope::CapabilityInvocation)
    }

    /// Puts `method` among the methods for key agreement.
    pub fn update_key_agreement(&mut self, method: &Method) -> (r: Result<bool, Error>)
        ensures
            spec_committed(
                old(self)@,
                spec_updated(old(self)@, MethodScope::KeyAgreement, method@),
                r,
                final(self)@,
            ),
            r is Ok,
    {
        self.update(MethodScope::KeyAgreement, method)
    }

    /// Empties the methods for key agreement.
    pub fn clear_key_agreement(&mut self) -> (r: Result<(), Error>)
        ensures
            spec_committed(
                old(self)@,
                spec_clear_wanted(old(self)@, MethodScope::KeyAgreement),
                r,
                final(self)@,
            ),
            r is Ok,
    {
        self.clear(MethodScope::KeyAgreement)
    }
}

/// After the list for a scope was emptied, no pointer picks a method for
/// that scope.
pub proof fn lemma_cleared_resolves_none(d: SpecDocument, scope: MethodScope, ident: SpecIdent)
    requires
        scope != MethodScope::Any,
    ensures
        spec_resolve(spec_cleared(d, scope)->0, ident, scope) is None,
{
    lemma_resolve_in_empty(d.verification_method, ident);
}

/// Putting an entry into an empty list appends it and replaces nothing.
pub proof fn lemma_update_empty(entry: SpecRef)
    ensures
        spec_update(Seq::empty(), entry) == (seq![entry], false),
{
    assert(spec_ref_ids(Seq::<SpecRef>::empty()) =~= Seq::empty());
    assert(Seq::<SpecRef>::empty().push(entry) =~= seq![entry]);
}

/// Once an entry was put into a list, putting in an entry with the same
/// identifier replaces an entry and leaves the length of the list as it is.
pub proof fn lemma_update_again(refs: Seq<SpecRef>, first: SpecRef, second: SpecRef)
    requires
        first.id() == second.id(),
    ensures
        spec_update(spec_update(refs, first).0, second).1,
        spec_update(spec_update(refs, first).0, second).0.len() == spec_update(refs, first).0.len(),
{
    let once = spec_update(refs, first).0;
    let k = spec_position(spec_ref_ids(refs), first.id());
    lemma_position(spec_ref_ids(refs), first.id());
    let at = if k < refs.len() {
        k
    } else {
        refs.len() as int
    };
    assert(spec_ref_ids(once)[at] == second.id());
    lemma_position(spec_ref_ids(once), second.id());
}

/// An identifier that is found in a list is found at the same place once
/// another identifier was added at the end.
pub proof fn lemma_position_push(ids: Seq<Seq<char>>, extra: Seq<char>, id: Seq<char>)
    requires
        spec_position(ids, id) < ids.len(),
    ensures
        spec_position(ids.push(extra), id) == spec_position(ids, id),
    decreases ids.len(),
{
    if ids.len() > 0 {
        assert(ids.push(extra)[0] == ids[0]);
        if ids[0] != id {
            assert(ids.push(extra).drop_first() =~= ids.drop_first().push(extra));
            lemma_position_push(ids.drop_first(), extra, id);
        }
    }
}

/// A list of distinct identifiers stays one when an identifier is put in
/// the place where it is found, or at the end where it is not found.
pub proof fn lemma_distinct_update(ids: Seq<Seq<char>>, id: Seq<char>)
    requires
        spec_distinct(ids),
    ensures
        spec_position(ids, id) < ids.len() ==> ids.update(spec_position(ids, id), id) == ids,
        spec_position(ids, id) >= ids.len() ==> spec_distinct(ids.push(id)),
{
    lemma_position(ids, id);
    let k = spec_position(ids, id);
    if k < ids.len() {
        assert(ids.update(k, id) =~= ids);
    }
}

/// A purpose list that is in order stays in order when a method is put into
/// it as an entry of its own.
pub proof fn lemma_update_list_valid(master: Seq<Seq<char>>, refs: Seq<SpecRef>, m: SpecMethod)
    requires
        spec_list_valid(master, refs),
    ensures
        spec_list_valid(master, spec_update(refs, SpecRef::Embed(m)).0),
{
    let entry = SpecRef::Embed(m);
    let ids = spec_ref_ids(refs);
    let k = spec_position(ids, m.id);
    let after = spec_update(refs, entry).0;
    lemma_position(ids, m.id);
    lemma_distinct_update(ids, m.id);
    if k < refs.len() {
        assert(spec_ref_ids(after) =~= ids.update(k, m.id));
    } else {
        assert(spec_ref_ids(after) =~= ids.push(m.id));
    }
    assert forall|i: int| 0 <= i < after.len() && (#[trigger] after[i]) is Refer implies spec_position(
        master,
        after[i].id(),
    ) < master.len() by {
        assert(after[i] == refs[i]);
    }
}

/// A purpose list that is in order stays in order when a general method is
/// replaced by one with the same identifier, or a general method is added.
pub proof fn lemma_master_update_keeps_list(master: Seq<SpecMethod>, refs: Seq<SpecRef>, m: SpecMethod)
    requires
        spec_list_valid(spec_method_ids(master), refs),
    ensures
        spec_list_valid(spec_method_ids(spec_update_methods(master, m).0), refs),
{
    let ids = spec_method_ids(master);
    let k = spec_position(ids, m.id);
    let after = spec_method_ids(spec_update_methods(master, m).0);
    lemma_position(ids, m.id);
    if k < master.len() {
        assert(after =~= ids);
    } else {
        assert(after =~= ids.push(m.id));
        assert forall|i: int| 0 <= i < refs.len() && (#[trigger] refs[i]) is Refer implies spec_position(
            after,
            refs[i].id(),
        ) < after.len() by {
            lemma_position_push(ids, m.id, refs[i].id());
        }
    }
}

/// Putting a method into a list of a valid document leaves the document
/// valid: an update is never refused, but for the scope `Any`.
pub proof fn lemma_update_valid(d: SpecDocument, scope: MethodScope, m: SpecMethod)
    requires
        spec_doc_valid(d),
        scope != MethodScope::Any,
    ensures
        spec_updated(d, scope, m) is Some,
        spec_doc_valid((spec_updated(d, scope, m)->0).0),
{
    let master = spec_method_ids(d.verification_method);
    if scope == MethodScope::VerificationMethod {
        let after = spec_method_ids(spec_update_methods(d.verification_method, m).0);
        let k = spec_position(master, m.id);
        lemma_position(master, m.id);
        lemma_distinct_update(master, m.id);
        if k < master.len() {
            assert(after =~= master.update(k, m.id));
        } else {
            assert(after =~= master.push(m.id));
        }
        lemma_master_update_keeps_list(d.verification_method, d.authentication, m);
        lemma_master_update_keeps_list(d.verification_method, d.assertion_method, m);
        lemma_master_update_keeps_list(d.verification_method, d.key_agreement, m);
        lemma_master_update_keeps_list(d.verification_method, d.capability_delegation, m);
        lemma_master_update_keeps_list(d.verification_method, d.capability_invocation, m);
    } else {
        lemma_update_list_valid(master, spec_list(d, scope), m);
    }
}

/// Putting a service into a valid document leaves the document valid.
pub proof fn lemma_update_service_valid(d: SpecDocument, s: SpecService)
    requires
        spec_doc_valid(d),
    ensures
        spec_doc_valid((spec_service_wanted(d, s)->0).0),
{
    let ids = spec_service_ids(d.service);
    let k = spec_position(ids, s.id);
    let after = spec_service_ids(spec_update_services(d.service, s).0);
    lemma_position(ids, s.id);
    lemma_distinct_update(ids, s.id);
    if k < ids.len() {
        assert(after =~= ids.update(k, s.id));
    } else {
        assert(after =~= ids.push(s.id));
    }
}

/// Emptying a purpose list or the list of services of a valid document
/// leaves the document valid.
pub proof fn lemma_clear_valid(d: SpecDocument, scope: MethodScope)
    requires
        spec_doc_valid(d),
        scope != MethodScope::Any,
        scope != MethodScope::VerificationMethod,
    ensures
        spec_doc_valid(spec_cleared(d, scope)->0),
        spec_doc_valid(SpecDocument { service: Seq::empty(), ..d }),
{
    assert(spec_ref_ids(Seq::<SpecRef>::empty()) =~= Seq::empty());
    assert(spec_service_ids(Seq::<SpecService>::empty()) =~= Seq::empty());
}

} // verus!
