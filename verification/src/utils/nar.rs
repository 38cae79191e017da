//! SHA-256 hashes in the forms Nix writes them: SRI (`sha256-<base64>`),
//! Nix's own base32, and hexadecimal.
use base64::engine::general_purpose::STANDARD;
use base64::Engine;
use sha2::{Digest, Sha256};
use vstd::prelude::*;

use crate::text::{append_chars, chars_of, string_push};

verus! {

/// A SHA-256 hash in the output formats Nix uses.
#[derive(Debug, Clone)]
pub struct NarHash {
    /// SRI form, e.g. `sha256-RTt0byvWGFjqkJXE1t1DjWlJqmE0rq94KOGojukeD6M=`.
    pub sri: String,
    /// Nix-base32 form, e.g. `0nmyp5yrzl9dbq85wyiimsj9fklb8637a1936nw7zzvlnzkgh28n`.
    pub nix32: String,
    /// Lower-case hexadecimal form.
    pub hex: String,
}

/// The SHA-256 digest of `data`, as the `sha2` crate computes it.
pub uninterp spec fn sha256_of(data: Seq<u8>) -> Seq<u8>;

/// `sha2::Sha256::digest`. The contract names the digest and states its
/// size, 32 bytes, which the crate's output type fixes.
#[verifier::external_body]
fn sha256(data: &[u8]) -> (r: Vec<u8>)
    ensures
        r@ == sha256_of(data@),
        r@.len() == 32,
{
    Sha256::digest(data).to_vec()
}

/// The character of the standard base64 alphabet (RFC 4648) for `v < 64`.
pub open spec fn base64_digit(v: int) -> char {
    if v < 26 {
        (65 + v) as char
    } else if v < 52 {
        (97 + v - 26) as char
    } else if v < 62 {
        (48 + v - 52) as char
    } else if v == 62 {
        '+'
    } else {
        '/'
    }
}

/// The standard, padded base64 encoding of `data` (RFC 4648, `base64`'s
/// `STANDARD`): every three bytes give four characters of six bits each,
/// and a last group of one or two bytes is padded with `=`.
pub open spec fn base64_of(data: Seq<u8>) -> Seq<char>
    decreases data.len(),
{
    if data.len() == 0 {
        Seq::empty()
    } else if data.len() == 1 {
        let a = data[0] as int;
        seq![base64_digit(a / 4), base64_digit((a % 4) * 16), '=', '=']
    } else if data.len() == 2 {
        let a = data[0] as int;
        let b = data[1] as int;
        seq![base64_digit(a / 4), base64_digit((a % 4) * 16 + b / 16), base64_digit((b % 16) * 4), '=']
    } else {
        let a = data[0] as int;
        let b = data[1] as int;
        let c = data[2] as int;
        seq![
            base64_digit(a / 4),
            base64_digit((a % 4) * 16 + b / 16),
            base64_digit((b % 16) * 4 + c / 64),
            base64_digit(c % 64),
        ] + base64_of(data.subrange(3, data.len() as int))
    }
}

/// `base64::engine::general_purpose::STANDARD.encode`. The contract states
/// the result: the standard alphabet with padding, as the crate documents
/// for `STANDARD`. Inputs whose encoded length would overflow `usize`,
/// where the crate panics, are left out.
#[verifier::external_body]
fn base64_standard(data: &[u8]) -> (r: String)
    requires
        data@.len() <= usize::MAX / 4,
    ensures
        r@ == base64_of(data@),
{
    STANDARD.encode(data)
}

/// Nix's base32 encoding of `data` (`nix_base32::to_nix_base32`).
pub uninterp spec fn nix_base32_of(data: Seq<u8>) -> Seq<char>;

/// `nix_base32::to_nix_base32`. The contract names the result; the crate
/// panics on empty input, which is left out.
#[verifier::external_body]
fn nix_base32(data: &[u8]) -> (r: String)
    requires
        data@.len() > 0,
        data@.len() <= usize::MAX / 8,
    ensures
        r@ == nix_base32_of(data@),
{
    nix_base32::to_nix_base32(data)
}

/// The lower-case hexadecimal digit of `v < 16`.
pub open spec fn hex_digit(v: u8) -> char {
    if v < 10 {
        ((v + 48) as u8) as char
    } else {
        ((v + 87) as u8) as char
    }
}

/// Two lower-case hexadecimal digits per byte (`{:02x}`).
pub open spec fn hex_of(data: Seq<u8>) -> Seq<char>
    decreases data.len(),
{
    if data.len() == 0 {
        Seq::empty()
    } else {
        hex_of(data.drop_last()) + seq![hex_digit(data.last() / 16), hex_digit(data.last() % 16)]
    }
}

fn hex_digit_exec(v: u8) -> (c: char)
    requires
        v < 16,
    ensures
        c == hex_digit(v),
{
    if v < 10 {
        (v + 48) as char
    } else {
        (v + 87) as char
    }
}

/// The bytes as lower-case hexadecimal.
pub fn hex_encode(data: &[u8]) -> (r: String)
    ensures
        r@ == hex_of(data@),
{
    let mut r = String::new();
    let mut i: usize = 0;
    while i < data.len()
        invariant
            i <= data@.len(),
            r@ == hex_of(data@.subrange(0, i as int)),
        decreases data.len() - i,
    {
        let b = data[i];
        string_push(&mut r, hex_digit_exec(b / 16));
        string_push(&mut r, hex_digit_exec(b % 16));
        assert(data@.subrange(0, i + 1).drop_last() =~= data@.subrange(0, i as int));
        i += 1;
    }
    assert(data@.subrange(0, data@.len() as int) =~= data@);
    r
}

/// The hash in all three forms from a 32-byte digest.
pub open spec fn nar_hash_of(digest: Seq<u8>) -> (Seq<char>, Seq<char>, Seq<char>) {
    ("sha256-"@ + base64_of(digest), nix_base32_of(digest), hex_of(digest))
}

pub open spec fn nar_hash_view(h: NarHash) -> (Seq<char>, Seq<char>, Seq<char>) {
    (h.sri@, h.nix32@, h.hex@)
}

/// The hash in Nix's formats from a SHA-256 digest.
pub fn digest_to_nar_hash(digest: &[u8]) -> (r: NarHash)
    requires
        digest@.len() == 32,
    ensures
        nar_hash_view(r) == nar_hash_of(digest@),
{
    let mut sri = String::from_str("sha256-");
    let b64 = base64_standard(digest);
    sri.append(b64.as_str());
    NarHash { sri, nix32: nix_base32(digest), hex: hex_encode(digest) }
}

/// The flat SHA-256 hash of `content`, as Nix computes it for
/// `outputHashMode = "flat"` (`fetchurl`, `fetchpatch`): the digest of the
/// bytes themselves.
pub fn flat_hash(content: &[u8]) -> (r: NarHash)
    ensures
        nar_hash_view(r) == nar_hash_of(sha256_of(content@)),
{
    let digest = sha256(content);
    digest_to_nar_hash(digest.as_slice())
}

} // verus!
