//! The conditions of a method lookup in a document: which method, and among
//! the methods of which purpose.

use vstd::prelude::*;
use vstd::std_specs::convert::FromSpecImpl;
use vstd::std_specs::convert::IntoSpec;
use vstd::std_specs::convert::TryFromSpecImpl;
use crate::error::Error;
use crate::method::MethodIdent;
use crate::method::MethodScope;
use crate::method::SpecIdent;
use crate::signature::Signature;
use crate::signature::SpecSignature;

verus! {

impl<'a> From<&'a str> for MethodIdent<'a> {
    fn from(other: &'a str) -> (ident: Self) {
        MethodIdent::Ident(other)
    }
}

impl<'a> FromSpecImpl<&'a str> for MethodIdent<'a> {
    open spec fn obeys_from_spec() -> bool {
        true
    }

    open spec fn from_spec(other: &'a str) -> Self {
        MethodIdent::Ident(other)
    }
}

impl<'a> From<usize> for MethodIdent<'a> {
    fn from(other: usize) -> (ident: Self) {
        MethodIdent::Index(other)
    }
}

impl<'a> FromSpecImpl<usize> for MethodIdent<'a> {
    open spec fn obeys_from_spec() -> bool {
        true
    }

    open spec fn from_spec(other: usize) -> Self {
        MethodIdent::Index(other)
    }
}

/// The conditions of a method lookup.
#[derive(Clone, Copy, Debug, Hash, PartialEq, Eq, PartialOrd, Ord)]
pub struct MethodQuery<'a> {
    pub ident: MethodIdent<'a>,
    pub scope: MethodScope,
}

/// What the conditions of a lookup are, mathematically.
pub struct SpecQuery {
    pub ident: SpecIdent,
    pub scope: MethodScope,
}

impl<'a> View for MethodQuery<'a> {
    type V = SpecQuery;

    open spec fn view(&self) -> SpecQuery {
        SpecQuery { ident: self.ident@, scope: self.scope }
    }
}

impl<'a> MethodQuery<'a> {
    /// A lookup among the general methods of a document.
    pub fn new<T>(ident: T) -> (q: Self) where T: Into<MethodIdent<'a>>
        ensures
            T::obeys_into_spec() ==> q == (MethodQuery {
                ident: ident.into_spec(),
                scope: MethodScope::VerificationMethod,
            }),
    {
        Self::with_scope(ident, MethodScope::default())
    }

    /// A lookup among the methods of the given purpose.
    pub fn with_scope<T>(ident: T, scope: MethodScope) -> (q: Self) where T: Into<MethodIdent<'a>>
        ensures
            T::obeys_into_spec() ==> q == (MethodQuery { ident: ident.into_spec(), scope }),
    {
        MethodQuery { ident: ident.into(), scope }
    }
}

/// The lookup that a signature asks for: the method it names, among the
/// methods of the purpose it names, or among the general methods where it
/// names none. A purpose that does not exist is an unresolved method.
pub open spec fn spec_query_of(s: SpecSignature) -> Result<SpecQuery, Error> {
    match s.proof_purpose {
        None => Ok(
            SpecQuery { ident: SpecIdent::Ident(s.verification_method), scope: MethodScope::VerificationMethod },
        ),
        Some(purpose) => match MethodScope::spec_parse(purpose) {
            Some(scope) => Ok(SpecQuery { ident: SpecIdent::Ident(s.verification_method), scope }),
            None => Err(Error::UnresolvedMethod),
        },
    }
}

/// The view of the outcome of reading a lookup.
pub open spec fn spec_query_result(r: Result<MethodQuery<'_>, Error>) -> Result<SpecQuery, Error> {
    match r {
        Ok(q) => Ok(q@),
        Err(e) => Err(e),
    }
}

impl<'a> MethodQuery<'a> {
    /// The lookup that a signature asks for.
    pub fn from_signature(other: &'a Signature) -> (r: Result<MethodQuery<'a>, Error>)
        ensures
            spec_query_result(r) == spec_query_of(other@),
    {
        let ident: MethodIdent<'a> = MethodIdent::Ident(other.verification_method.as_str());
        match &other.proof_purpose {
            Some(purpose) => match MethodScope::parse(purpose.as_str()) {
                Some(scope) => Ok(MethodQuery { ident, scope }),
                None => Err(Error::UnresolvedMethod),
            },
            None => Ok(MethodQuery { ident, scope: MethodScope::VerificationMethod }),
        }
    }
}

impl<'a> From<&'a str> for MethodQuery<'a> {
    fn from(other: &'a str) -> (q: Self) {
        MethodQuery { ident: MethodIdent::Ident(other), scope: MethodScope::VerificationMethod }
    }
}

impl<'a> FromSpecImpl<&'a str> for MethodQuery<'a> {
    open spec fn obeys_from_spec() -> bool {
        true
    }

    open spec fn from_spec(other: &'a str) -> Self {
        MethodQuery { ident: MethodIdent::Ident(other), scope: MethodScope::VerificationMethod }
    }
}

impl<'a> From<usize> for MethodQuery<'a> {
    fn from(other: usize) -> (q: Self) {
        MethodQuery { ident: MethodIdent::Index(other), scope: MethodScope::VerificationMethod }
    }
}

impl<'a> FromSpecImpl<usize> for MethodQuery<'a> {
    open spec fn obeys_from_spec() -> bool {
        true
    }

    open spec fn from_spec(other: usize) -> Self {
        MethodQuery { ident: MethodIdent::Index(other), scope: MethodScope::VerificationMethod }
    }
}

impl<'a> From<(&'a str, MethodScope)> for MethodQuery<'a> {
    fn from(other: (&'a str, MethodScope)) -> (q: Self) {
        MethodQuery { ident: MethodIdent::Ident(other.0), scope: other.1 }
    }
}

impl<'a> FromSpecImpl<(&'a str, MethodScope)> for MethodQuery<'a> {
    open spec fn obeys_from_spec() -> bool {
        true
    }

    open spec fn from_spec(other: (&'a str, MethodScope)) -> Self {
        MethodQuery { ident: MethodIdent::Ident(other.0), scope: other.1 }
    }
}

impl<'a> From<(usize, MethodScope)> for MethodQuery<'a> {
    fn from(other: (usize, MethodScope)) -> (q: Self) {
        MethodQuery { ident: MethodIdent::Index(other.0), scope: other.1 }
    }
}

impl<'a> FromSpecImpl<(usize, MethodScope)> for MethodQuery<'a> {
    open spec fn obeys_from_spec() -> bool {
        true
    }

    open spec fn from_spec(other: (usize, MethodScope)) -> Self {
        MethodQuery { ident: MethodIdent::Index(other.0), scope: other.1 }
    }
}

impl<'a> From<(MethodIdent<'a>, MethodScope)> for MethodQuery<'a> {
    fn from(other: (MethodIdent<'a>, MethodScope)) -> (q: Self) {
        MethodQuery { ident: other.0, scope: other.1 }
    }
}

impl<'a> FromSpecImpl<(MethodIdent<'a>, MethodScope)> for MethodQuery<'a> {
    open spec fn obeys_from_spec() -> bool {
        true
    }

    open spec fn from_spec(other: (MethodIdent<'a>, MethodScope)) -> Self {
        MethodQuery { ident: other.0, scope: other.1 }
    }
}

impl<'a> From<MethodScope> for MethodQuery<'a> {
    fn from(other: MethodScope) -> (q: Self) {
        MethodQuery { ident: MethodIdent::Index(0), scope: other }
    }
}

impl<'a> FromSpecImpl<MethodScope> for MethodQuery<'a> {
    open spec fn obeys_from_spec() -> bool {
        true
    }

    open spec fn from_spec(other: MethodScope) -> Self {
        MethodQuery { ident: MethodIdent::Index(0), scope: other }
    }
}

impl<'a> TryFrom<&'a Signature> for MethodQuery<'a> {
    type Error = Error;

    fn try_from(other: &'a Signature) -> (r: Result<Self, Error>)
        ensures
            spec_query_result(r) == spec_query_of(other@),
    {
        MethodQuery::from_signature(other)
    }
}

/// `try_from` states what it returns in its own `ensures`, over views. This
/// impl claims nothing more: the lookup borrows its name from the signature,
/// and a borrowed string cannot be written down as a value in a contract.
impl<'a> TryFromSpecImpl<&'a Signature> for MethodQuery<'a> {
    open spec fn obeys_try_from_spec() -> bool {
        false
    }

    open spec fn try_from_spec(other: &'a Signature) -> Result<Self, Error> {
        vstd::pervasive::arbitrary()
    }
}

} // verus!
