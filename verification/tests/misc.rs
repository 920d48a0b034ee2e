use identity::actor::respond;
use identity::actor::Inbound;
use identity::actor::Outbound;
use identity::actor::Request;
use identity::actor::Response;
use identity::base58::encode_b58;
use identity::credential::Credential;
use identity::credential::OneOrMany;
use identity::credential::VerifiableCredential;
use identity::digest::Digest;
use identity::error::Error;
use identity::key::KeyPair;
use identity::key::KeyType;
use identity::method::MethodIdent;
use identity::method::MethodRef;
use identity::method::MethodScope;
use identity::method::MethodType;
use identity::method_query::MethodQuery;
use identity::new_document::create_did;
use identity::new_document::Params;
use identity::document::Document;
use identity::signature::SetSignature;
use identity::signature::Signature;
use identity::signature::TrySignature;
use identity::signature::TrySignatureMut;

fn sig(method: &str, purpose: Option<&str>) -> Signature {
    Signature {
        type_: "JcsEd25519Signature2020".to_string(),
        verification_method: method.to_string(),
        proof_purpose: purpose.map(|p| p.to_string()),
        value: vec![1, 2, 3],
        merkle: None,
    }
}

fn credential() -> Credential<u32> {
    Credential { id: "urn:c:1".to_string(), issuer: "did:example:123".to_string(), subject: 7 }
}

#[test]
fn query_new_looks_among_the_general_methods() {
    let q = MethodQuery::new("#key-1");
    assert_eq!(q.ident, MethodIdent::Ident("#key-1"));
    assert_eq!(q.scope, MethodScope::VerificationMethod);
    let q = MethodQuery::new(3usize);
    assert_eq!(q.ident, MethodIdent::Index(3));
    assert_eq!(q.scope, MethodScope::VerificationMethod);
    let q = MethodQuery::new(MethodIdent::Index(1));
    assert_eq!(q.ident, MethodIdent::Index(1));
}

#[test]
fn query_with_scope_keeps_both() {
    let q = MethodQuery::with_scope("#k", MethodScope::KeyAgreement);
    assert_eq!(q, MethodQuery { ident: MethodIdent::Ident("#k"), scope: MethodScope::KeyAgreement });
    let q = MethodQuery::with_scope(2usize, MethodScope::Authentication);
    assert_eq!(q, MethodQuery { ident: MethodIdent::Index(2), scope: MethodScope::Authentication });
}

#[test]
fn query_from_other_values() {
    let general = MethodScope::VerificationMethod;
    assert_eq!(MethodQuery::from("#k"), MethodQuery { ident: MethodIdent::Ident("#k"), scope: general });
    assert_eq!(MethodQuery::from(4usize), MethodQuery { ident: MethodIdent::Index(4), scope: general });
    assert_eq!(
        MethodQuery::from(("#k", MethodScope::Authentication)),
        MethodQuery { ident: MethodIdent::Ident("#k"), scope: MethodScope::Authentication }
    );
    assert_eq!(
        MethodQuery::from((5usize, MethodScope::AssertionMethod)),
        MethodQuery { ident: MethodIdent::Index(5), scope: MethodScope::AssertionMethod }
    );
    assert_eq!(
        MethodQuery::from((MethodIdent::Index(6), MethodScope::KeyAgreement)),
        MethodQuery { ident: MethodIdent::Index(6), scope: MethodScope::KeyAgreement }
    );
    assert_eq!(
        MethodQuery::from(MethodScope::CapabilityInvocation),
        MethodQuery { ident: MethodIdent::Index(0), scope: MethodScope::CapabilityInvocation }
    );
    assert_eq!(MethodIdent::from("x"), MethodIdent::Ident("x"));
    assert_eq!(MethodIdent::from(9usize), MethodIdent::Index(9));
}

#[test]
fn query_from_a_signature() {
    let plain = sig("#key-1", None);
    assert_eq!(
        MethodQuery::try_from(&plain),
        Ok(MethodQuery { ident: MethodIdent::Ident("#key-1"), scope: MethodScope::VerificationMethod })
    );
    let scoped = sig("#key-2", Some("Authentication"));
    assert_eq!(
        MethodQuery::from_signature(&scoped),
        Ok(MethodQuery { ident: MethodIdent::Ident("#key-2"), scope: MethodScope::Authentication })
    );
    assert_eq!(MethodQuery::try_from(&scoped), MethodQuery::from_signature(&scoped));
    let unknown = sig("#key-3", Some("Nonsense"));
    assert_eq!(MethodQuery::try_from(&unknown), Err(Error::UnresolvedMethod));
}

#[test]
fn ident_matches_by_name_only() {
    assert!(MethodIdent::Ident("#k").matches("did:x#k"));
    assert!(MethodIdent::Ident("did:x#k").matches("did:x#k"));
    assert!(!MethodIdent::Ident("#j").matches("did:x#k"));
    assert!(!MethodIdent::Index(0).matches("did:x#k"));
}

#[test]
fn one_or_many() {
    let one = OneOrMany::One(5);
    assert_eq!(one.len(), 1);
    assert!(!one.is_empty());
    assert_eq!(one.get(0), Some(&5));
    assert_eq!(one.get(1), None);
    let mut many = OneOrMany::Many(vec![1, 2, 3]);
    assert_eq!(many.len(), 3);
    assert_eq!(many.get(2), Some(&3));
    assert_eq!(many.get(3), None);
    *many.get_mut(1).unwrap() = 9;
    assert_eq!(many, OneOrMany::Many(vec![1, 9, 3]));
    assert!(many.get_mut(3).is_none());
    let none: OneOrMany<u8> = OneOrMany::Many(vec![]);
    assert!(none.is_empty());
    assert_eq!(none.get(0), None);
    assert_eq!(OneOrMany::from(4), OneOrMany::One(4));
    assert_eq!(OneOrMany::from(vec![4, 5]), OneOrMany::Many(vec![4, 5]));
}

#[test]
fn credential_carries_its_proofs() {
    let vc = VerifiableCredential::new(credential(), sig("#a", None));
    assert_eq!(vc.credential(), &credential());
    assert_eq!(vc.proofs(), &OneOrMany::One(sig("#a", None)));
    assert_eq!(vc.signature(), Some(&sig("#a", None)));

    let vc = VerifiableCredential::new(credential(), vec![sig("#a", None), sig("#b", None)]);
    assert_eq!(vc.proofs().len(), 2);
    assert_eq!(vc.signature(), Some(&sig("#a", None)));

    let mut vc = VerifiableCredential::new(credential(), Vec::new());
    assert!(vc.proofs().is_empty());
    assert_eq!(vc.signature(), None);
    assert!(vc.signature_mut().is_none());
    vc.set_signature(sig("#c", None));
    assert_eq!(vc.proofs(), &OneOrMany::One(sig("#c", None)));
    vc.signature_mut().unwrap().verification_method = "#d".to_string();
    assert_eq!(vc.signature(), Some(&sig("#d", None)));
    *vc.proof_mut() = OneOrMany::Many(vec![sig("#e", None), sig("#f", None)]);
    assert_eq!(vc.signature(), Some(&sig("#e", None)));
    vc.set_signature(sig("#g", None));
    assert_eq!(vc.proofs(), &OneOrMany::One(sig("#g", None)));
    vc.credential_mut().subject = 8;
    assert_eq!(vc.credential().subject, 8);
    assert_eq!(vc.credential().issuer, "did:example:123");
}

#[test]
fn digest_names() {
    assert_eq!(Digest::parse("sha256"), Some(Digest::Sha256));
    assert_eq!(Digest::parse("Sha256"), Some(Digest::Sha256));
    assert_eq!(Digest::parse("SHA256"), Some(Digest::Sha256));
    assert_eq!(Digest::parse("sha-256"), None);
    assert_eq!(Digest::parse("sHA256"), None);
    assert_eq!(Digest::parse(""), None);
    assert_eq!(Digest::Sha256.name(), "sha256");
    assert_eq!(Digest::parse(Digest::Sha256.name()), Some(Digest::Sha256));
    assert_eq!(KeyType::Ed25519.secret_len(), 32);
}

#[test]
fn first_proof_is_the_signature() {
    let vc = VerifiableCredential::new(credential(), vec![sig("#a", None), sig("#b", None)]);
    assert_eq!(vc.proofs().get(0), vc.signature());
    let none = VerifiableCredential::new(credential(), Vec::new());
    assert_eq!(none.proofs().get(0), none.signature());
    assert_eq!(none.signature(), None);
}

#[test]
fn peer_answers_ping_with_pong() {
    let ping = Inbound::Req { peer_id: "peer-1".to_string(), request_id: Some(42), request: Request::Ping };
    assert_eq!(
        respond(ping),
        Some(Outbound { peer_id: "peer-1".to_string(), request_id: 42, response: Response::Pong })
    );
    let unnumbered = Inbound::Req { peer_id: "peer-1".to_string(), request_id: None, request: Request::Ping };
    assert_eq!(respond(unnumbered), None);
    assert_eq!(respond(Inbound::Other), None);
}

#[test]
fn params_give_their_parts() {
    assert_eq!(Params::Empty.network(), None);
    assert_eq!(Params::Empty.shard(), None);
    assert_eq!(Params::Empty.tag(), None);
    let p = Params::Object { network: Some("main".to_string()), shard: None, tag: Some("k".to_string()) };
    assert_eq!(p.network(), Some("main"));
    assert_eq!(p.shard(), None);
    assert_eq!(p.tag(), Some("k"));
}

#[test]
fn identifier_is_derived_from_the_public_key() {
    let public: Vec<u8> = (0..32u8).map(|i| i.wrapping_mul(7)).collect();
    let tag = encode_b58(Digest::Sha256.hash(&public).as_slice());
    assert_eq!(create_did(&public, None, None), format!("did:iota:{}", tag));
    assert_eq!(create_did(&public, Some("dev"), None), format!("did:iota:dev:{}", tag));
    assert_eq!(create_did(&public, None, Some("s1")), format!("did:iota:s1:{}", tag));
    assert_eq!(create_did(&public, Some("dev"), Some("s1")), format!("did:iota:dev:s1:{}", tag));
    let known = [
        0xd7, 0x5a, 0x98, 0x01, 0x82, 0xb1, 0x0a, 0xb7, 0xd5, 0x4b, 0xfe, 0xd3, 0xc9, 0x64, 0x07, 0x3a, 0x0e,
        0xe1, 0x72, 0xf3, 0xda, 0xa6, 0x23, 0x25, 0xaf, 0x02, 0x1a, 0x68, 0xf7, 0x07, 0x51, 0x1a,
    ];
    assert_eq!(create_did(&known, None, None), "did:iota:3HhGPB6ht33n51YFaocqBtGePb3xqT4VgnjYbd81eeZW");
}

#[test]
fn fresh_document_holds_its_key_for_authentication() {
    let key = KeyPair::from_secret(KeyType::Ed25519, vec![4u8; 32]).unwrap();
    let params = Params::Object { network: Some("dev".to_string()), shard: None, tag: Some("root".to_string()) };
    let fresh = Document::from_keypair(key.copy(), &params).unwrap();
    assert_eq!(fresh.key(), key);
    let doc = fresh.doc();
    let did = create_did(key.public(), Some("dev"), None);
    assert_eq!(doc.id(), did);
    let auth = doc.parts().authentication;
    assert_eq!(auth.len(), 1);
    match &auth[0] {
        MethodRef::Embed(m) => {
            assert_eq!(m.id, format!("{}#root", did));
            assert_eq!(m.controller, did);
            assert_eq!(m.type_, MethodType::Ed25519VerificationKey2018);
            assert_eq!(m.key_data, key.public());
        }
        MethodRef::Refer(_) => panic!("expected a method of its own"),
    }
    let plain = Document::from_keypair(key.copy(), &Params::Empty).unwrap().doc();
    assert_eq!(
        plain.resolve_key(MethodIdent::Ident("#authentication"), None).unwrap().id,
        format!("{}#authentication", create_did(key.public(), None, None))
    );
}

#[test]
fn new_document_signs_and_verifies() {
    let fresh = Document::new(KeyType::Ed25519, &Params::Empty).unwrap();
    let key = fresh.key();
    let mut doc = fresh.doc();
    assert!(doc.id().starts_with("did:iota:"));
    assert_eq!(doc.sign(key.secret()), Ok(()));
    assert_eq!(doc.verify(), Ok(()));
    let other = Document::new(KeyType::Ed25519, &Params::Empty).unwrap();
    assert_ne!(other.doc().id(), doc.id());
}
