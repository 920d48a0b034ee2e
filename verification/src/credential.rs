//! A credential with the proofs attached to it.

use vstd::prelude::*;
use vstd::std_specs::convert::FromSpecImpl;
use vstd::std_specs::convert::IntoSpec;
use crate::signature::SetSignature;
use crate::signature::Signature;
use crate::signature::SpecSignature;
use crate::signature::TrySignature;
use crate::signature::TrySignatureMut;

verus! {

/// One value, or any number of them.
#[derive(Debug, PartialEq, Eq)]
pub enum OneOrMany<T> {
    One(T),
    Many(Vec<T>),
}

impl<T> OneOrMany<T> {
    /// The values held, in order.
    pub open spec fn spec_items(self) -> Seq<T> {
        match self {
            OneOrMany::One(item) => seq![item],
            OneOrMany::Many(items) => items@,
        }
    }

    /// The number of values held.
    pub fn len(&self) -> (n: usize)
        ensures
            n == self.spec_items().len(),
    {
        match self {
            OneOrMany::One(_) => 1,
            OneOrMany::Many(items) => items.len(),
        }
    }

    /// Whether no value is held.
    pub fn is_empty(&self) -> (b: bool)
        ensures
            b == (self.spec_items().len() == 0),
    {
        match self {
            OneOrMany::One(_) => false,
            OneOrMany::Many(items) => items.len() == 0,
        }
    }

    /// The value at `index`; none beyond the last.
    pub fn get(&self, index: usize) -> (r: Option<&T>)
        ensures
            r is Some <==> index < self.spec_items().len(),
            r is Some ==> *r->0 == self.spec_items()[index as int],
    {
        match self {
            OneOrMany::One(item) => if index == 0 {
                Some(item)
            } else {
                None
            },
            OneOrMany::Many(items) => if index < items.len() {
                Some(&items[index])
            } else {
                None
            },
        }
    }

    /// The value at `index`, for change in place; none beyond the last.
    pub fn get_mut(&mut self, index: usize) -> (r: Option<&mut T>)
        ensures
            r is Some <==> index < old(self).spec_items().len(),
            r is Some ==> *r->0 == old(self).spec_items()[index as int],
            r is Some ==> final(self).spec_items() == old(self).spec_items().update(
                index as int,
                *final(r->0),
            ),
            r is None ==> *final(self) == *old(self),
            *final(self) is One <==> *old(self) is One,
    {
        match self {
            OneOrMany::One(item) => if index == 0 {
                Some(item)
            } else {
                None
            },
            OneOrMany::Many(items) => if index < items.len() {
                Some(&mut items[index])
            } else {
                None
            },
        }
    }
}

impl<T> From<T> for OneOrMany<T> {
    fn from(other: T) -> (r: Self) {
        OneOrMany::One(other)
    }
}

impl<T> FromSpecImpl<T> for OneOrMany<T> {
    open spec fn obeys_from_spec() -> bool {
        true
    }

    open spec fn from_spec(other: T) -> Self {
        OneOrMany::One(other)
    }
}

impl<T> From<Vec<T>> for OneOrMany<T> {
    fn from(other: Vec<T>) -> (r: Self) {
        OneOrMany::Many(other)
    }
}

impl<T> FromSpecImpl<Vec<T>> for OneOrMany<T> {
    open spec fn obeys_from_spec() -> bool {
        true
    }

    open spec fn from_spec(other: Vec<T>) -> Self {
        OneOrMany::Many(other)
    }
}

/// A credential: who issued it, and what it says of its subject.
#[derive(Debug, PartialEq, Eq)]
pub struct Credential<T> {
    pub id: String,
    pub issuer: String,
    pub subject: T,
}

/// A credential with the proofs attached to it.
#[derive(Debug, PartialEq, Eq)]
pub struct VerifiableCredential<T> {
    credential: Credential<T>,
    proof: OneOrMany<Signature>,
}

impl<T> VerifiableCredential<T> {
    /// The credential without its proofs.
    pub closed spec fn spec_credential(&self) -> Credential<T> {
        self.credential
    }

    /// The proofs attached.
    pub closed spec fn spec_proof(&self) -> OneOrMany<Signature> {
        self.proof
    }

    /// Attaches `proof` to `credential`.
    pub fn new<P>(credential: Credential<T>, proof: P) -> (vc: Self) where P: Into<OneOrMany<Signature>>
        ensures
            vc.spec_credential() == credential,
            P::obeys_into_spec() ==> vc.spec_proof() == proof.into_spec(),
    {
        VerifiableCredential { credential, proof: proof.into() }
    }

    /// The credential without its proofs.
    pub fn credential(&self) -> (c: &Credential<T>)
        ensures
            *c == self.spec_credential(),
    {
        &self.credential
    }

    /// The credential without its proofs, for change in place.
    pub fn credential_mut(&mut self) -> (c: &mut Credential<T>)
        ensures
            *c == old(self).spec_credential(),
            final(self).spec_credential() == *final(c),
            final(self).spec_proof() == old(self).spec_proof(),
    {
        &mut self.credential
    }

    /// The proofs attached.
    pub fn proofs(&self) -> (p: &OneOrMany<Signature>)
        ensures
            *p == self.spec_proof(),
    {
        &self.proof
    }

    /// The proofs attached, for change in place.
    pub fn proof_mut(&mut self) -> (p: &mut OneOrMany<Signature>)
        ensures
            *p == old(self).spec_proof(),
            final(self).spec_proof() == *final(p),
            final(self).spec_credential() == old(self).spec_credential(),
    {
        &mut self.proof
    }
}

impl<T> TrySignature for VerifiableCredential<T> {
    /// The first of the proofs attached; none where none is attached.
    open spec fn spec_signature(&self) -> Option<SpecSignature> {
        if self.spec_proof().spec_items().len() > 0 {
            Some(self.spec_proof().spec_items()[0]@)
        } else {
            None
        }
    }

    fn signature(&self) -> (s: Option<&Signature>)
        ensures
            s is Some ==> *s->0 == self.spec_proof().spec_items()[0],
    {
        self.proof.get(0)
    }
}

impl<T> TrySignatureMut for VerifiableCredential<T> {
    fn signature_mut(&mut self) -> (s: Option<&mut Signature>)
        ensures
            final(self).spec_credential() == old(self).spec_credential(),
            s is Some ==> *s->0 == old(self).spec_proof().spec_items()[0],
            s is Some ==> final(self).spec_proof().spec_items() == old(self).spec_proof().spec_items().update(
                0,
                *final(s->0),
            ),
            s is None ==> final(self).spec_proof() == old(self).spec_proof(),
            final(self).spec_proof() is One <==> old(self).spec_proof() is One,
    {
        self.proof.get_mut(0)
    }
}

impl<T> SetSignature for VerifiableCredential<T> {
    fn set_signature(&mut self, value: Signature)
        ensures
            final(self).spec_proof() == OneOrMany::One(value),
            final(self).spec_credential() == old(self).spec_credential(),
    {
        self.proof = OneOrMany::One(value);
    }
}

} // verus!
