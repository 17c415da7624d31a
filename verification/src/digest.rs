//! Checksums and digests, with the outside hash and PEM functions behind
//! trusted wrappers.
use vstd::prelude::*;

use crate::text::{hex2, hex_string, hex_text, push_char, push_hex2};

verus! {

/// The CRC-32 (ISO-HDLC, as used by PNG) of a byte sequence.
pub uninterp spec fn crc32_of(data: Seq<u8>) -> u32;

/// Computes the CRC-32 of `first` followed by `second` with `crc32fast::Hasher`
/// (`new`, `update`, `update`, `finalize`). Trusted: the result is the checksum of
/// the concatenated bytes, because the hasher is incremental.
#[verifier::external_body]
pub(crate) fn crc32_two(first: &[u8], second: &[u8]) -> (r: u32)
    ensures
        r == crc32_of(first@ + second@),
{
    let mut hasher = crc32fast::Hasher::new();
    hasher.update(first);
    hasher.update(second);
    hasher.finalize()
}

/// The SHA-256 digest of a byte sequence.
pub uninterp spec fn sha256_of(data: Seq<u8>) -> Seq<u8>;

/// Computes SHA-256 with `sha2::Sha256::digest`. Trusted: the result is the
/// digest named by `sha256_of`, and it is 32 bytes long, the output size of
/// SHA-256.
#[verifier::external_body]
pub(crate) fn sha256(data: &[u8]) -> (r: Vec<u8>)
    ensures
        r@ == sha256_of(data@),
        r@.len() == 32,
{
    <sha2::Sha256 as sha2::Digest>::digest(data).to_vec()
}

/// The decoded content of the first PEM block of a text, if it has one.
pub uninterp spec fn pem_first_block(pem: Seq<u8>) -> Option<Seq<u8>>;

/// Decodes the first PEM block with `x509_parser::pem::parse_x509_pem`.
/// Trusted: the result is the block content named by `pem_first_block`, or,
/// when the parser reports an error, that error's text (which is not stated).
#[verifier::external_body]
pub(crate) fn pem_contents(pem: &[u8]) -> (r: Result<Vec<u8>, String>)
    ensures
        match r {
            Ok(v) => pem_first_block(pem@) == Some(v@),
            Err(_) => pem_first_block(pem@).is_none(),
        },
{
    match x509_parser::pem::parse_x509_pem(pem) {
        Ok((_, block)) => Ok(block.contents),
        Err(error) => Err(format!("{error}")),
    }
}

/// The lowercase hexadecimal SHA-256 of a byte sequence, as printed for files.
pub open spec fn sha256_hex(data: Seq<u8>) -> Seq<char> {
    hex_text(sha256_of(data), false)
}

/// The lowercase hexadecimal SHA-256 of the given bytes.
pub fn file_sha256(data: &[u8]) -> (r: String)
    ensures
        r@ == sha256_hex(data@),
{
    let digest = sha256(data);
    hex_string(digest.as_slice(), false)
}

/// Uppercase hexadecimal byte pairs joined by colons, as used for
/// certificate fingerprints.
pub open spec fn colon_hex(b: Seq<u8>) -> Seq<char>
    decreases b.len(),
{
    if b.len() == 0 {
        seq![]
    } else if b.len() == 1 {
        hex2(b[0], true)
    } else {
        colon_hex(b.drop_last()).push(':') + hex2(b.last(), true)
    }
}

/// The SHA-256 fingerprint of DER bytes in colon-separated uppercase hex.
pub open spec fn spec_fingerprint_der(der: Seq<u8>) -> Seq<char> {
    colon_hex(sha256_of(der))
}

/// The SHA-256 fingerprint of DER-encoded data.
pub fn fingerprint_der(der: &[u8]) -> (r: String)
    ensures
        r@ == spec_fingerprint_der(der@),
{
    let digest = sha256(der);
    let mut s = String::new();
    let mut i: usize = 0;
    while i < digest.len()
        invariant
            i <= digest@.len(),
            s@ == colon_hex(digest@.subrange(0, i as int)),
        decreases digest@.len() - i,
    {
        if i > 0 {
            push_char(&mut s, ':');
        }
        push_hex2(&mut s, digest[i], true);
        proof {
            let prefix = digest@.subrange(0, i + 1);
            assert(prefix.drop_last() =~= digest@.subrange(0, i as int));
            if i == 0 {
                assert(s@ =~= colon_hex(prefix));
            } else {
                assert(s@ =~= colon_hex(prefix));
            }
        }
        i = i + 1;
    }
    assert(digest@.subrange(0, digest@.len() as int) =~= digest@);
    s
}

} // verus!
