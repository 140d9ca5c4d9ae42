//! The building blocks of the wire format: fixed-width little-endian integers
//! and length-prefixed UTF-8 text, written and read by `bincode`.

use vstd::bytes::{
    lemma_auto_spec_u32_to_from_le_bytes, lemma_auto_spec_u64_to_from_le_bytes,
    spec_u32_from_le_bytes, spec_u32_to_le_bytes, spec_u64_from_le_bytes, spec_u64_to_le_bytes,
};
use vstd::prelude::*;
use vstd::utf8::{encode_utf8, encode_utf8_decode_utf8};

verus! {

/// The bytes of a text on the wire: the length of its UTF-8 encoding as eight
/// little-endian bytes, then the encoding itself.
pub open spec fn text_bytes(text: Seq<char>) -> Seq<u8> {
    spec_u64_to_le_bytes(encode_utf8(text).len() as u64) + encode_utf8(text)
}

/// `bincode::serialize` on a `u32`. With bincode's default options an integer
/// is written at its fixed width, least significant byte first; writing into
/// a fresh vector with no size limit cannot fail.
#[verifier::external_body]
pub(crate) fn put_u32(v: u32) -> (bytes: Vec<u8>)
    ensures
        bytes@ == spec_u32_to_le_bytes(v),
{
    bincode::serialize(&v).unwrap_or_default()
}

/// `bincode::serialize` on a `u64`: eight bytes, least significant first.
#[verifier::external_body]
pub(crate) fn put_u64(v: u64) -> (bytes: Vec<u8>)
    ensures
        bytes@ == spec_u64_to_le_bytes(v),
{
    bincode::serialize(&v).unwrap_or_default()
}

/// `bincode::serialize` on a string slice: the byte length of the text as a
/// `u64`, then its UTF-8 bytes.
#[verifier::external_body]
pub(crate) fn put_text(text: &str) -> (bytes: Vec<u8>)
    ensures
        bytes@ == text_bytes(text@),
{
    bincode::serialize(text).unwrap_or_default()
}

/// `bincode::deserialize` to a `u32`. It reads the first four bytes, least
/// significant first, lets any further bytes be, and fails exactly when there
/// are fewer than four.
#[verifier::external_body]
pub(crate) fn take_u32(bytes: &[u8]) -> (r: Option<u32>)
    ensures
        match r {
            Some(v) => spec_u32_to_le_bytes(v).is_prefix_of(bytes@),
            None => bytes@.len() < 4,
        },
{
    bincode::deserialize::<u32>(bytes).ok()
}

/// `bincode::deserialize` to a `u64`. It reads the first eight bytes, least
/// significant first, lets any further bytes be, and fails exactly when there
/// are fewer than eight.
#[verifier::external_body]
pub(crate) fn take_u64(bytes: &[u8]) -> (r: Option<u64>)
    ensures
        match r {
            Some(v) => spec_u64_to_le_bytes(v).is_prefix_of(bytes@),
            None => bytes@.len() < 8,
        },
{
    bincode::deserialize::<u64>(bytes).ok()
}

/// `bincode::deserialize` to a `String`. It reads a `u64` length, then that
/// many bytes, and checks that they are UTF-8; further bytes are let be. It
/// fails when the length is cut short, when fewer bytes follow than it
/// announces, and when they are not UTF-8: that is, exactly when the bytes
/// start with the wire form of no text.
#[verifier::external_body]
pub(crate) fn take_text(bytes: &[u8]) -> (r: Option<String>)
    ensures
        match r {
            Some(text) => text_bytes(text@).is_prefix_of(bytes@),
            None => forall|t: Seq<char>| !(#[trigger] text_bytes(t)).is_prefix_of(bytes@),
        },
{
    bincode::deserialize::<String>(bytes).ok()
}

/// A `u32` takes four bytes, and different values take different bytes.
pub proof fn lemma_u32_bytes(a: u32, b: u32)
    ensures
        spec_u32_to_le_bytes(a).len() == 4,
        spec_u32_to_le_bytes(a) == spec_u32_to_le_bytes(b) ==> a == b,
{
    lemma_auto_spec_u32_to_from_le_bytes();
    assert(spec_u32_to_le_bytes(a).len() == 4);
    assert(spec_u32_to_le_bytes(b).len() == 4);
    assert(spec_u32_from_le_bytes(spec_u32_to_le_bytes(a)) == a);
    assert(spec_u32_from_le_bytes(spec_u32_to_le_bytes(b)) == b);
}

/// A `u64` takes eight bytes, and different values take different bytes.
pub proof fn lemma_u64_bytes(a: u64, b: u64)
    ensures
        spec_u64_to_le_bytes(a).len() == 8,
        spec_u64_to_le_bytes(a) == spec_u64_to_le_bytes(b) ==> a == b,
{
    lemma_auto_spec_u64_to_from_le_bytes();
    assert(spec_u64_from_le_bytes(spec_u64_to_le_bytes(a)) == a);
    assert(spec_u64_from_le_bytes(spec_u64_to_le_bytes(b)) == b);
}

/// At most one `u32` has its bytes at the front of given bytes.
pub proof fn lemma_u32_prefix_unique(a: u32, b: u32, bytes: Seq<u8>)
    requires
        spec_u32_to_le_bytes(a).is_prefix_of(bytes),
        spec_u32_to_le_bytes(b).is_prefix_of(bytes),
    ensures
        a == b,
{
    lemma_u32_bytes(a, b);
    lemma_u32_bytes(b, a);
    assert(spec_u32_to_le_bytes(a) =~= spec_u32_to_le_bytes(b));
}

/// At most one `u64` has its bytes at the front of given bytes.
pub proof fn lemma_u64_prefix_unique(a: u64, b: u64, bytes: Seq<u8>)
    requires
        spec_u64_to_le_bytes(a).is_prefix_of(bytes),
        spec_u64_to_le_bytes(b).is_prefix_of(bytes),
    ensures
        a == b,
{
    lemma_u64_bytes(a, b);
    lemma_u64_bytes(b, a);
    assert(spec_u64_to_le_bytes(a) =~= spec_u64_to_le_bytes(b));
}

/// A text takes eight bytes more than its UTF-8 encoding.
pub proof fn lemma_text_bytes_len(text: Seq<char>)
    ensures
        text_bytes(text).len() == 8 + encode_utf8(text).len(),
{
    lemma_u64_bytes(encode_utf8(text).len() as u64, 0);
}

/// At most one text has its wire form at the front of given bytes, as long as
/// their number fits a `u64`, which it does for every slice.
pub proof fn lemma_text_prefix_unique(a: Seq<char>, b: Seq<char>, bytes: Seq<u8>)
    requires
        text_bytes(a).is_prefix_of(bytes),
        text_bytes(b).is_prefix_of(bytes),
        bytes.len() <= u64::MAX,
    ensures
        a == b,
{
    let la = encode_utf8(a).len() as u64;
    let lb = encode_utf8(b).len() as u64;
    lemma_text_bytes_len(a);
    lemma_text_bytes_len(b);
    lemma_u64_bytes(la, lb);
    lemma_u64_bytes(lb, la);
    assert(spec_u64_to_le_bytes(la) =~= text_bytes(a).subrange(0, 8));
    assert(spec_u64_to_le_bytes(lb) =~= text_bytes(b).subrange(0, 8));
    assert(spec_u64_to_le_bytes(la) =~= bytes.subrange(0, 8));
    assert(spec_u64_to_le_bytes(lb) =~= bytes.subrange(0, 8));
    assert(la == lb);
    assert(encode_utf8(a).len() == encode_utf8(b).len());
    let n = encode_utf8(a).len() as int;
    assert(encode_utf8(a) =~= text_bytes(a).subrange(8, 8 + n));
    assert(encode_utf8(b) =~= text_bytes(b).subrange(8, 8 + n));
    assert(encode_utf8(a) =~= bytes.subrange(8, 8 + n));
    assert(encode_utf8(b) =~= bytes.subrange(8, 8 + n));
    encode_utf8_decode_utf8(a);
    encode_utf8_decode_utf8(b);
}

} // verus!
