//! Content hashes of files, and the fingerprint by which one registry finds a file again.

use vstd::prelude::*;
use crate::text::{hex, hex_string};

verus! {

/// The SHA-1 digest of `data`.
pub uninterp spec fn sha1_of(data: Seq<u8>) -> Seq<u8>;

/// The SHA-256 digest of `data`.
pub uninterp spec fn sha256_of(data: Seq<u8>) -> Seq<u8>;

/// The SHA-512 digest of `data`.
pub uninterp spec fn sha512_of(data: Seq<u8>) -> Seq<u8>;

/// The endianness-independent MurmurHash2 of `data` with the given seed.
pub uninterp spec fn murmur2_of(data: Seq<u8>, seed: u32) -> u32;

/// Calls `sha1::Sha1::digest` and copies the digest out. The digest is a
/// function of the bytes alone; it is named, not restated.
#[verifier::external_body]
fn sha1_digest(data: &[u8]) -> (r: Vec<u8>)
    ensures
        r@ == sha1_of(data@),
{
    <sha1::Sha1 as sha1::Digest>::digest(data).to_vec()
}

/// Calls `sha2::Sha256::digest` and copies the digest out. The digest is a
/// function of the bytes alone; it is named, not restated.
#[verifier::external_body]
fn sha256_digest(data: &[u8]) -> (r: Vec<u8>)
    ensures
        r@ == sha256_of(data@),
{
    <sha2::Sha256 as sha2::Digest>::digest(data).to_vec()
}

/// Calls `sha2::Sha512::digest` and copies the digest out. The digest is a
/// function of the bytes alone; it is named, not restated.
#[verifier::external_body]
fn sha512_digest(data: &[u8]) -> (r: Vec<u8>)
    ensures
        r@ == sha512_of(data@),
{
    <sha2::Sha512 as sha2::Digest>::digest(data).to_vec()
}

/// Calls `murmur2::murmur2`, the endianness-independent MurmurHash2. The
/// hash is a function of the bytes and the seed alone; it is named, not restated.
#[verifier::external_body]
fn murmur2_hash(data: &[u8], seed: u32) -> (r: u32)
    ensures
        r == murmur2_of(data@, seed),
{
    murmur2::murmur2(data, seed)
}

/// Whether a byte is left out of a fingerprint: tab, line feed, carriage return, space.
pub open spec fn is_blank(b: u8) -> bool {
    b == 9 || b == 10 || b == 13 || b == 32
}

/// The bytes that a fingerprint is computed from.
pub open spec fn without_blanks(data: Seq<u8>) -> Seq<u8> {
    data.filter(|b: u8| !is_blank(b))
}

pub fn sha1_hex(data: &[u8]) -> (r: String)
    ensures
        r@ == hex(sha1_of(data@)),
{
    let digest = sha1_digest(data);
    hex_string(&digest)
}

pub fn sha256_hex(data: &[u8]) -> (r: String)
    ensures
        r@ == hex(sha256_of(data@)),
{
    let digest = sha256_digest(data);
    hex_string(&digest)
}

pub fn sha512_hex(data: &[u8]) -> (r: String)
    ensures
        r@ == hex(sha512_of(data@)),
{
    let digest = sha512_digest(data);
    hex_string(&digest)
}

/// `data` without its blank bytes.
pub fn strip_blanks(data: &[u8]) -> (r: Vec<u8>)
    ensures
        r@ == without_blanks(data@),
{
    let ghost pred = |b: u8| !is_blank(b);
    let mut out: Vec<u8> = Vec::new();
    let mut i: usize = 0;
    proof {
        reveal(Seq::filter);
        assert(data@.take(0).filter(pred) =~= Seq::<u8>::empty());
    }
    while i < data.len()
        invariant
            i <= data.len(),
            pred == (|b: u8| !is_blank(b)),
            out@ == data@.take(i as int).filter(pred),
        decreases data.len() - i,
    {
        let b: u8 = data[i];
        proof {
            assert(data@.take(i as int + 1) =~= data@.take(i as int).push(b));
            data@.take(i as int).lemma_filter_push(b, pred);
        }
        if !(b == 9 || b == 10 || b == 13 || b == 32) {
            out.push(b);
        }
        i += 1;
    }
    proof {
        assert(data@.take(data.len() as int) =~= data@);
    }
    out
}

/// The fingerprint of a file: the hash, with seed one, of its bytes without the blank ones.
pub fn hash_curse(bytes: &[u8]) -> (r: u32)
    ensures
        r == murmur2_of(without_blanks(bytes@), 1),
{
    let kept = strip_blanks(bytes);
    murmur2_hash(kept.as_slice(), 1)
}

} // verus!
