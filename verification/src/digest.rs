//! Digests used by the certification tree, and the small encodings derived
//! from them.
//!
//! The hash functions themselves come from outside crates; each is given a
//! name here and everything proved about the tree is stated over those names.

use vstd::prelude::*;

verus! {

/// The digest of a leaf payload.
pub uninterp spec fn leaf_digest_of(data: Seq<u8>) -> Seq<u8>;

/// The digest of a fork over two subtree digests.
pub uninterp spec fn fork_digest_of(left: Seq<u8>, right: Seq<u8>) -> Seq<u8>;

/// The digest of a labeled subtree.
pub uninterp spec fn labeled_digest_of(label: Seq<char>, content: Seq<u8>) -> Seq<u8>;

/// The checksum of a byte string.
pub uninterp spec fn crc32_of(data: Seq<u8>) -> u32;

/// Relies on ic_certified_map::leaf_hash: the SHA-256 leaf digest of the
/// payload, a function of the payload bytes alone.
#[verifier::external_body]
pub fn leaf_digest(data: &[u8]) -> (r: Vec<u8>)
    ensures
        r@ == leaf_digest_of(data@),
        r@.len() == 32,
{
    ic_certified_map::leaf_hash(data).to_vec()
}

/// Relies on ic_certified_map::fork_hash: the SHA-256 fork digest of two
/// 32-byte child digests, a function of those digests alone.
#[verifier::external_body]
pub fn fork_digest(left: &Vec<u8>, right: &Vec<u8>) -> (r: Vec<u8>)
    requires
        left@.len() == 32,
        right@.len() == 32,
    ensures
        r@ == fork_digest_of(left@, right@),
        r@.len() == 32,
{
    let l: [u8; 32] = left.as_slice().try_into().unwrap();
    let rr: [u8; 32] = right.as_slice().try_into().unwrap();
    ic_certified_map::fork_hash(&l, &rr).to_vec()
}

/// Relies on ic_certified_map::labeled_hash: the SHA-256 digest of a label
/// over a 32-byte content digest, a function of the two alone.
#[verifier::external_body]
pub fn labeled_digest(label: &str, content: &Vec<u8>) -> (r: Vec<u8>)
    requires
        content@.len() == 32,
    ensures
        r@ == labeled_digest_of(label@, content@),
        r@.len() == 32,
{
    let c: [u8; 32] = content.as_slice().try_into().unwrap();
    ic_certified_map::labeled_hash(label.as_bytes(), &c).to_vec()
}

/// Relies on crc32fast::hash: the CRC-32 checksum of the bytes, a function of
/// the bytes alone.
#[verifier::external_body]
pub fn crc32(data: &[u8]) -> (r: u32)
    ensures
        r == crc32_of(data@),
{
    crc32fast::hash(data)
}

/// The character standing for one hexadecimal digit value.
pub open spec fn hex_digit(d: int) -> char {
    if d < 10 {
        crate::text::dec_digit(d)
    } else if d == 10 {
        'a'
    } else if d == 11 {
        'b'
    } else if d == 12 {
        'c'
    } else if d == 13 {
        'd'
    } else if d == 14 {
        'e'
    } else {
        'f'
    }
}

/// The lowercase hexadecimal rendering of a byte string: two digits per byte,
/// high digit first.
pub open spec fn spec_hex(b: Seq<u8>) -> Seq<char>
    decreases b.len(),
{
    if b.len() == 0 {
        Seq::empty()
    } else {
        seq![hex_digit(b[0] as int / 16), hex_digit(b[0] as int % 16)] + spec_hex(b.drop_first())
    }
}

/// Relies on hex::encode: the lowercase hexadecimal rendering of the bytes,
/// two digits per byte, high digit first.
#[verifier::external_body]
pub fn hex_encode(data: &Vec<u8>) -> (r: String)
    ensures
        r@ == spec_hex(data@),
{
    hex::encode(data)
}

} // verus!
