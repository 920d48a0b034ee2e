//! Base58 text for keys and hashes, as the crate `bs58` writes and reads it.

use vstd::prelude::*;
use crate::error::Error;

verus! {

/// The base58 text that `bs58` writes for `data` in its default alphabet.
pub uninterp spec fn spec_b58_encode(data: Seq<u8>) -> Seq<char>;

/// The bytes that `bs58` reads from `text` in its default alphabet; none
/// where `text` holds a character outside the alphabet.
pub uninterp spec fn spec_b58_decode(text: Seq<char>) -> Option<Seq<u8>>;

/// Whether `bs58` reads the text it writes for `data` back as `data`.
/// `encode_b58` records this of every text it writes.
pub open spec fn spec_b58_round_trips(data: Seq<u8>) -> bool {
    spec_b58_decode(spec_b58_encode(data)) == Some(data)
}

/// Calls `bs58::encode(..).into_string()`. The contract names the text and
/// records that `bs58` reads its own text back as the bytes it was made from.
#[verifier::external_body]
fn b58_encode(data: &[u8]) -> (text: String)
    ensures
        text@ == spec_b58_encode(data@),
        spec_b58_decode(text@) == Some(data@),
{
    bs58::encode(data).into_string()
}

/// Calls `bs58::decode(..).into_vec()`. The contract names the outcome; an
/// error of `bs58` becomes `None`.
#[verifier::external_body]
fn b58_decode(text: &str) -> (data: Option<Vec<u8>>)
    ensures
        data is Some <==> spec_b58_decode(text@) is Some,
        data is Some ==> data->0@ == spec_b58_decode(text@)->0,
{
    bs58::decode(text).into_vec().ok()
}

/// Writes `data` as base58 text.
pub fn encode_b58(data: &[u8]) -> (text: String)
    ensures
        text@ == spec_b58_encode(data@),
        spec_b58_round_trips(data@),
{
    b58_encode(data)
}

/// Reads base58 text. Fails with `EncodingFailure` exactly when the text is
/// not base58.
pub fn decode_b58(text: &str) -> (r: Result<Vec<u8>, Error>)
    ensures
        r is Ok <==> spec_b58_decode(text@) is Some,
        r is Ok ==> r->Ok_0@ == spec_b58_decode(text@)->0,
        r is Err ==> r->Err_0 == Error::EncodingFailure,
{
    match b58_decode(text) {
        Some(data) => Ok(data),
        None => Err(Error::EncodingFailure),
    }
}

} // verus!
