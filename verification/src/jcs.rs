//! The canonical form of JSON values, and its digest.
//!
//! The canonical form of a value is a string of bytes without insignificant
//! whitespace, in UTF-8. The members of an object are ordered by the bytes of
//! their keys; numbers are integers in decimal notation; strings escape the
//! quotation mark, the backslash and the control characters, and nothing
//! else. A value with an object that holds a key twice has no canonical form.

use vstd::prelude::*;
use crate::bytes::append_bytes;
use crate::bytes::copy_bytes;
use crate::digest::Digest;
use crate::digest;
use crate::error::Error;
use crate::json::Json;
use crate::json::Value;
use crate::json::spec_entry_views;
use crate::json::spec_keys_distinct;
use crate::json::spec_views;
use crate::text::str_eq;

verus! {

/// The UTF-8 bytes of a string.
pub open spec fn spec_text_bytes(s: Seq<char>) -> Seq<u8> {
    vstd::utf8::encode_utf8(s)
}

/// The lower-case hexadecimal digit for a number below sixteen.
pub open spec fn spec_hex_digit(n: int) -> u8 {
    if n < 10 {
        (0x30 + n) as u8
    } else {
        (0x57 + n) as u8
    }
}

/// What one byte of a string becomes between the quotation marks.
pub open spec fn spec_escape_byte(b: u8) -> Seq<u8> {
    if b == 0x22 {
        seq![0x5cu8, 0x22u8]
    } else if b == 0x5c {
        seq![0x5cu8, 0x5cu8]
    } else if b == 0x08 {
        seq![0x5cu8, 0x62u8]
    } else if b == 0x09 {
        seq![0x5cu8, 0x74u8]
    } else if b == 0x0a {
        seq![0x5cu8, 0x6eu8]
    } else if b == 0x0c {
        seq![0x5cu8, 0x66u8]
    } else if b == 0x0d {
        seq![0x5cu8, 0x72u8]
    } else if b < 0x20 {
        seq![0x5cu8, 0x75u8, 0x30u8, 0x30u8, spec_hex_digit(b as int / 16), spec_hex_digit(b as int % 16)]
    } else {
        seq![b]
    }
}

/// The bytes of a string with each byte escaped where it must be.
pub open spec fn spec_escape(bytes: Seq<u8>) -> Seq<u8>
    decreases bytes.len(),
{
    if bytes.len() == 0 {
        Seq::empty()
    } else {
        spec_escape(bytes.drop_last()) + spec_escape_byte(bytes.last())
    }
}

/// A string in canonical form: escaped, between quotation marks.
pub open spec fn spec_quote(s: Seq<char>) -> Seq<u8> {
    seq![0x22u8] + spec_escape(spec_text_bytes(s)) + seq![0x22u8]
}

/// The decimal digits of a natural number, without leading zeros.
pub open spec fn spec_digits(n: nat) -> Seq<u8>
    decreases n,
{
    if n < 10 {
        seq![(0x30 + n) as u8]
    } else {
        spec_digits(n / 10).push((0x30 + n % 10) as u8)
    }
}

/// An integer in canonical form.
pub open spec fn spec_decimal(n: int) -> Seq<u8> {
    if n < 0 {
        seq![0x2du8] + spec_digits((-n) as nat)
    } else {
        spec_digits(n as nat)
    }
}

/// The parts in order, with a comma between each two.
pub open spec fn spec_join(parts: Seq<Seq<u8>>) -> Seq<u8>
    decreases parts.len(),
{
    if parts.len() == 0 {
        Seq::empty()
    } else if parts.len() == 1 {
        parts[0]
    } else {
        spec_join(parts.drop_last()) + seq![0x2cu8] + parts.last()
    }
}

/// Whether `a` comes before `b` in the order of their bytes: at the first
/// place where they differ `a` has the smaller byte, or `a` ends there and
/// `b` goes on.
pub open spec fn spec_bytes_less(a: Seq<u8>, b: Seq<u8>) -> bool
    decreases a.len(),
{
    if b.len() == 0 {
        false
    } else if a.len() == 0 {
        true
    } else if a[0] != b[0] {
        a[0] < b[0]
    } else {
        spec_bytes_less(a.drop_first(), b.drop_first())
    }
}

/// Where a member with `key` goes among members already in order: before the
/// first one whose key comes after `key`.
pub open spec fn spec_insert_pos(sorted: Seq<(Seq<u8>, Seq<u8>)>, key: Seq<u8>) -> int
    decreases sorted.len(),
{
    if sorted.len() == 0 {
        0
    } else if spec_bytes_less(key, sorted[0].0) {
        0
    } else {
        1 + spec_insert_pos(sorted.drop_first(), key)
    }
}

/// The members, each a pair of key bytes and text, ordered by their keys.
/// Members with the same key keep the order they came in.
pub open spec fn spec_sort(members: Seq<(Seq<u8>, Seq<u8>)>) -> Seq<(Seq<u8>, Seq<u8>)>
    decreases members.len(),
{
    if members.len() == 0 {
        Seq::empty()
    } else {
        let sorted = spec_sort(members.drop_last());
        sorted.insert(spec_insert_pos(sorted, members.last().0), members.last())
    }
}

/// The texts of a list of members.
pub open spec fn spec_texts(members: Seq<(Seq<u8>, Seq<u8>)>) -> Seq<Seq<u8>> {
    Seq::new(members.len(), |i: int| members[i].1)
}

/// Whether a value has a canonical form: no object in it holds a key twice.
pub open spec fn spec_valid(j: Json) -> bool
    decreases j,
{
    match j {
        Json::Array(items) => forall|i: int| 0 <= i < items.len() ==> spec_valid(#[trigger] items[i]),
        Json::Object(entries) => spec_keys_distinct(entries) && forall|i: int|
            0 <= i < entries.len() ==> spec_valid((#[trigger] entries[i]).1),
        _ => true,
    }
}

/// The canonical form of a value.
pub open spec fn spec_jcs(j: Json) -> Seq<u8>
    decreases j,
{
    match j {
        Json::Null => seq![0x6eu8, 0x75u8, 0x6cu8, 0x6cu8],
        Json::Bool(b) => if b {
            seq![0x74u8, 0x72u8, 0x75u8, 0x65u8]
        } else {
            seq![0x66u8, 0x61u8, 0x6cu8, 0x73u8, 0x65u8]
        },
        Json::Number(n) => spec_decimal(n),
        Json::Text(s) => spec_quote(s),
        Json::Array(items) => seq![0x5bu8] + spec_join(spec_item_texts(items)) + seq![0x5du8],
        Json::Object(entries) => seq![0x7bu8] + spec_join(spec_texts(spec_sort(spec_members(entries))))
            + seq![0x7du8],
    }
}

/// The canonical forms of a list of values.
pub open spec fn spec_item_texts(items: Seq<Json>) -> Seq<Seq<u8>>
    decreases items,
{
    Seq::new(
        items.len(),
        |i: int|
            if 0 <= i < items.len() {
                spec_jcs(items[i])
            } else {
                Seq::empty()
            },
    )
}

/// The members of an object as pairs of key bytes and text. The text of a
/// member is its key in canonical form, a colon, and its value in canonical
/// form.
pub open spec fn spec_members(entries: Seq<(Seq<char>, Json)>) -> Seq<(Seq<u8>, Seq<u8>)>
    decreases entries,
{
    Seq::new(
        entries.len(),
        |i: int|
            if 0 <= i < entries.len() {
                (
                    spec_text_bytes(entries[i].0),
                    spec_quote(entries[i].0) + seq![0x3au8] + spec_jcs(entries[i].1),
                )
            } else {
                (Seq::empty(), Seq::empty())
            },
    )
}

/// The views of a list of members held as byte vectors.
pub open spec fn spec_member_views(members: Seq<(Vec<u8>, Vec<u8>)>) -> Seq<(Seq<u8>, Seq<u8>)> {
    Seq::new(members.len(), |i: int| (members[i].0@, members[i].1@))
}

fn hex_digit(n: u8) -> (c: u8)
    requires
        n < 16,
    ensures
        c == spec_hex_digit(n as int),
{
    if n < 10 {
        0x30 + n
    } else {
        0x57 + n
    }
}

fn push_escaped_byte(out: &mut Vec<u8>, b: u8)
    ensures
        final(out)@ == old(out)@ + spec_escape_byte(b),
{
    if b == 0x22 {
        out.push(0x5c);
        out.push(0x22);
    } else if b == 0x5c {
        out.push(0x5c);
        out.push(0x5c);
    } else if b == 0x08 {
        out.push(0x5c);
        out.push(0x62);
    } else if b == 0x09 {
        out.push(0x5c);
        out.push(0x74);
    } else if b == 0x0a {
        out.push(0x5c);
        out.push(0x6e);
    } else if b == 0x0c {
        out.push(0x5c);
        out.push(0x66);
    } else if b == 0x0d {
        out.push(0x5c);
        out.push(0x72);
    } else if b < 0x20 {
        out.push(0x5c);
        out.push(0x75);
        out.push(0x30);
        out.push(0x30);
        out.push(hex_digit(b / 16));
        out.push(hex_digit(b % 16));
    } else {
        out.push(b);
    }
    assert(out@ =~= old(out)@ + spec_escape_byte(b));
}

fn push_escaped(out: &mut Vec<u8>, bytes: &[u8])
    ensures
        final(out)@ == old(out)@ + spec_escape(bytes@),
{
    let mut i: usize = 0;
    assert(out@ =~= old(out)@ + spec_escape(bytes@.take(0)));
    while i < bytes.len()
        invariant
            i <= bytes.len(),
            out@ == old(out)@ + spec_escape(bytes@.take(i as int)),
        decreases bytes.len() - i,
    {
        let ghost before = out@;
        push_escaped_byte(out, bytes[i]);
        proof {
            assert(bytes@.take(i + 1).drop_last() =~= bytes@.take(i as int));
            assert(bytes@.take(i + 1).last() == bytes@[i as int]);
            assert(out@ =~= old(out)@ + spec_escape(bytes@.take(i + 1)));
        }
        i += 1;
    }
    assert(bytes@.take(bytes@.len() as int) =~= bytes@);
}

fn push_quoted(out: &mut Vec<u8>, s: &str)
    ensures
        final(out)@ == old(out)@ + spec_quote(s@),
{
    out.push(0x22);
    push_escaped(out, s.as_bytes());
    out.push(0x22);
    assert(out@ =~= old(out)@ + spec_quote(s@));
}

fn push_digits(out: &mut Vec<u8>, n: u64)
    ensures
        final(out)@ == old(out)@ + spec_digits(n as nat),
    decreases n,
{
    if n >= 10 {
        push_digits(out, n / 10);
    }
    let d: u8 = (n % 10) as u8;
    out.push(0x30 + d);
    assert(out@ =~= old(out)@ + spec_digits(n as nat));
}

fn push_decimal(out: &mut Vec<u8>, n: i64)
    ensures
        final(out)@ == old(out)@ + spec_decimal(n as int),
{
    if n < 0 {
        out.push(0x2d);
        let magnitude: u64 = if n == i64::MIN {
            9223372036854775808u64
        } else {
            (-n) as u64
        };
        push_digits(out, magnitude);
        assert(out@ =~= old(out)@ + spec_decimal(n as int));
    } else {
        push_digits(out, n as u64);
    }
}

/// Tells whether `a` comes before `b` in the order of their bytes.
pub fn bytes_less(a: &[u8], b: &[u8]) -> (less: bool)
    ensures
        less == spec_bytes_less(a@, b@),
{
    let mut i: usize = 0;
    assert(a@.skip(0) =~= a@);
    assert(b@.skip(0) =~= b@);
    while i < a.len() && i < b.len()
        invariant
            i <= a.len(),
            i <= b.len(),
            spec_bytes_less(a@, b@) == spec_bytes_less(a@.skip(i as int), b@.skip(i as int)),
        decreases a.len() - i,
    {
        proof {
            assert(a@.skip(i as int)[0] == a@[i as int]);
            assert(b@.skip(i as int)[0] == b@[i as int]);
            assert(a@.skip(i as int).drop_first() =~= a@.skip(i + 1));
            assert(b@.skip(i as int).drop_first() =~= b@.skip(i + 1));
        }
        if a[i] != b[i] {
            return a[i] < b[i];
        }
        i += 1;
    }
    i < b.len()
}

fn insert_pos(sorted: &Vec<(Vec<u8>, Vec<u8>)>, key: &[u8]) -> (pos: usize)
    ensures
        pos == spec_insert_pos(spec_member_views(sorted@), key@),
        pos <= sorted.len(),
{
    let ghost all = spec_member_views(sorted@);
    let mut i: usize = 0;
    assert(all.skip(0) =~= all);
    while i < sorted.len()
        invariant
            i <= sorted.len(),
            all == spec_member_views(sorted@),
            spec_insert_pos(all, key@) == i + spec_insert_pos(all.skip(i as int), key@),
        decreases sorted.len() - i,
    {
        proof {
            assert(all.skip(i as int)[0] == all[i as int]);
            assert(all.skip(i as int).drop_first() =~= all.skip(i + 1));
        }
        if bytes_less(key, sorted[i].0.as_slice()) {
            return i;
        }
        i += 1;
    }
    i
}

fn keys_distinct(entries: &Vec<(String, Value)>) -> (distinct: bool)
    ensures
        distinct == spec_keys_distinct(spec_entry_views(entries@)),
{
    let ghost views = spec_entry_views(entries@);
    let mut j: usize = 0;
    while j < entries.len()
        invariant
            j <= entries.len(),
            views == spec_entry_views(entries@),
            forall|a: int, b: int| 0 <= a < b < j ==> views[a].0 != views[b].0,
        decreases entries.len() - j,
    {
        let mut i: usize = 0;
        while i < j
            invariant
                i <= j,
                j < entries.len(),
                views == spec_entry_views(entries@),
                forall|a: int| 0 <= a < i ==> views[a].0 != views[j as int].0,
            decreases j - i,
        {
            if str_eq(entries[i].0.as_str(), entries[j].0.as_str()) {
                proof {
                    assert(views[i as int].0 == views[j as int].0);
                }
                return false;
            }
            i += 1;
        }
        j += 1;
    }
    true
}

fn join_into(out: &mut Vec<u8>, parts: &Vec<(Vec<u8>, Vec<u8>)>)
    ensures
        final(out)@ == old(out)@ + spec_join(spec_texts(spec_member_views(parts@))),
{
    let ghost texts = spec_texts(spec_member_views(parts@));
    let mut i: usize = 0;
    assert(out@ =~= old(out)@ + spec_join(texts.take(0)));
    while i < parts.len()
        invariant
            i <= parts.len(),
            texts == spec_texts(spec_member_views(parts@)),
            out@ == old(out)@ + spec_join(texts.take(i as int)),
        decreases parts.len() - i,
    {
        if i > 0 {
            out.push(0x2c);
        }
        append_bytes(out, parts[i].1.as_slice());
        proof {
            assert(texts.take(i + 1).drop_last() =~= texts.take(i as int));
            assert(texts.take(i + 1).last() == parts@[i as int].1@);
            assert(out@ =~= old(out)@ + spec_join(texts.take(i + 1)));
        }
        i += 1;
    }
    assert(texts.take(texts.len() as int) =~= texts);
}

fn jcs_array(items: &Vec<Value>) -> (r: Result<Vec<u8>, Error>)
    ensures
        r is Ok <==> spec_valid(Json::Array(spec_views(items@))),
        r is Ok ==> r->Ok_0@ == spec_jcs(Json::Array(spec_views(items@))),
        r is Err ==> r->Err_0 == Error::EncodingFailure,
    decreases items,
{
    let ghost views = spec_views(items@);
    let ghost texts = spec_item_texts(views);
    let mut out: Vec<u8> = Vec::new();
    out.push(0x5b);
    let mut i: usize = 0;
    proof {
        assert(out@ =~= seq![0x5bu8] + spec_join(texts.take(0)));
    }
    while i < items.len()
        invariant
            i <= items.len(),
            views == spec_views(items@),
            texts == spec_item_texts(views),
            forall|k: int| 0 <= k < i ==> spec_valid(#[trigger] views[k]),
            out@ == seq![0x5bu8] + spec_join(texts.take(i as int)),
        decreases items.len() - i,
    {
        match to_jcs(&items[i]) {
            Err(_) => {
                proof {
                    assert(!spec_valid(views[i as int]));
                    if spec_valid(Json::Array(views)) {
                        assert(spec_valid(Json::Array(views)->Array_0[i as int]));
                    }
                }
                return Err(Error::EncodingFailure);
            },
            Ok(text) => {
                if i > 0 {
                    out.push(0x2c);
                }
                append_bytes(&mut out, text.as_slice());
                proof {
                    assert(texts.take(i + 1).drop_last() =~= texts.take(i as int));
                    assert(texts.take(i + 1).last() == text@);
                    assert(out@ =~= seq![0x5bu8] + spec_join(texts.take(i + 1)));
                }
            },
        }
        i += 1;
    }
    out.push(0x5d);
    proof {
        assert(texts.take(texts.len() as int) =~= texts);
        assert(out@ =~= seq![0x5bu8] + spec_join(texts) + seq![0x5du8]);
    }
    Ok(out)
}

fn jcs_object(entries: &Vec<(String, Value)>) -> (r: Result<Vec<u8>, Error>)
    ensures
        r is Ok <==> spec_valid(Json::Object(spec_entry_views(entries@))),
        r is Ok ==> r->Ok_0@ == spec_jcs(Json::Object(spec_entry_views(entries@))),
        r is Err ==> r->Err_0 == Error::EncodingFailure,
    decreases entries,
{
    let ghost views = spec_entry_views(entries@);
    let ghost members = spec_members(views);
    if !keys_distinct(entries) {
        return Err(Error::EncodingFailure);
    }
    let mut sorted: Vec<(Vec<u8>, Vec<u8>)> = Vec::new();
    let mut i: usize = 0;
    proof {
        assert(spec_member_views(sorted@) =~= spec_sort(members.take(0)));
    }
    while i < entries.len()
        invariant
            i <= entries.len(),
            views == spec_entry_views(entries@),
            members == spec_members(views),
            forall|k: int| 0 <= k < i ==> spec_valid((#[trigger] views[k]).1),
            spec_member_views(sorted@) == spec_sort(members.take(i as int)),
        decreases entries.len() - i,
    {
        let ghost before = spec_member_views(sorted@);
        match to_jcs(&entries[i].1) {
            Err(_) => {
                proof {
                    assert(!spec_valid(views[i as int].1));
                }
                return Err(Error::EncodingFailure);
            },
            Ok(value_text) => {
                let key: Vec<u8> = copy_bytes(entries[i].0.as_str().as_bytes());
                let mut text: Vec<u8> = Vec::new();
                push_quoted(&mut text, entries[i].0.as_str());
                text.push(0x3a);
                append_bytes(&mut text, value_text.as_slice());
                proof {
                    assert(text@ =~= members[i as int].1);
                    assert(key@ == members[i as int].0);
                }
                let pos: usize = insert_pos(&sorted, key.as_slice());
                sorted.insert(pos, (key, text));
                proof {
                    assert(members.take(i + 1).drop_last() =~= members.take(i as int));
                    assert(members.take(i + 1).last() == members[i as int]);
                    assert(spec_member_views(sorted@) =~= before.insert(pos as int, members[i as int]));
                }
            },
        }
        i += 1;
    }
    let mut out: Vec<u8> = Vec::new();
    out.push(0x7b);
    join_into(&mut out, &sorted);
    out.push(0x7d);
    proof {
        assert(members.take(members.len() as int) =~= members);
        assert(out@ =~= seq![0x7bu8] + spec_join(spec_texts(spec_sort(members))) + seq![0x7du8]);
    }
    Ok(out)
}

/// Writes a value in canonical form. Fails with `EncodingFailure` exactly when
/// an object in the value holds a key twice.
pub fn to_jcs(value: &Value) -> (r: Result<Vec<u8>, Error>)
    ensures
        r is Ok <==> spec_valid(value@),
        r is Ok ==> r->Ok_0@ == spec_jcs(value@),
        r is Err ==> r->Err_0 == Error::EncodingFailure,
    decreases value,
{
    match value {
        Value::Null => {
            let mut out: Vec<u8> = Vec::new();
            out.push(0x6e);
            out.push(0x75);
            out.push(0x6c);
            out.push(0x6c);
            assert(out@ =~= spec_jcs(value@));
            Ok(out)
        },
        Value::Bool(b) => {
            let mut out: Vec<u8> = Vec::new();
            if *b {
                out.push(0x74);
                out.push(0x72);
                out.push(0x75);
                out.push(0x65);
            } else {
                out.push(0x66);
                out.push(0x61);
                out.push(0x6c);
                out.push(0x73);
                out.push(0x65);
            }
            assert(out@ =~= spec_jcs(value@));
            Ok(out)
        },
        Value::Number(n) => {
            let mut out: Vec<u8> = Vec::new();
            push_decimal(&mut out, *n);
            assert(out@ =~= spec_jcs(value@));
            Ok(out)
        },
        Value::Text(s) => {
            let mut out: Vec<u8> = Vec::new();
            push_quoted(&mut out, s.as_str());
            assert(out@ =~= spec_jcs(value@));
            Ok(out)
        },
        Value::Array(items) => jcs_array(items),
        Value::Object(entries) => jcs_object(entries),
    }
}

/// The digest of the canonical form of a value, where it has one.
pub open spec fn spec_jcs_digest(d: Digest, j: Json) -> Result<Seq<u8>, Error> {
    if spec_valid(j) {
        Ok(d.spec_hash(spec_jcs(j)))
    } else {
        Err(Error::EncodingFailure)
    }
}

/// Hashes the canonical form of a value with the chosen digest.
pub fn jcs_digest(d: Digest, value: &Value) -> (r: Result<digest::Hash, Error>)
    ensures
        r is Ok <==> spec_jcs_digest(d, value@) is Ok,
        r is Ok ==> r->Ok_0@ == spec_jcs_digest(d, value@)->Ok_0,
        r is Ok ==> r->Ok_0@.len() == d.spec_output_size(),
        r is Err ==> r->Err_0 == Error::EncodingFailure,
{
    match to_jcs(value) {
        Ok(bytes) => Ok(d.hash(bytes.as_slice())),
        Err(e) => Err(e),
    }
}

/// Hashes the canonical form of a value with SHA-256. Fails with
/// `EncodingFailure` exactly when the value has no canonical form.
pub fn jcs_sha256(value: &Value) -> (r: Result<digest::Hash, Error>)
    ensures
        r is Ok <==> spec_valid(value@),
        r is Ok ==> r->Ok_0@ == Digest::Sha256.spec_hash(spec_jcs(value@)),
        r is Ok ==> r->Ok_0@.len() == 32,
        r is Err ==> r->Err_0 == Error::EncodingFailure,
{
    jcs_digest(Digest::Sha256, value)
}

} // verus!
