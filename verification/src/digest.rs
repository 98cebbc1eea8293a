//! SHA-256 through the `sha2` crate.
use vstd::prelude::*;
use sha2::Digest;
use vstd::utf8::{encode_utf8, is_char_boundary};

verus! {

/// The SHA-256 digest of a byte string, as the `sha2` crate computes it.
pub uninterp spec fn sha256_spec(data: Seq<u8>) -> Seq<u8>;

/// `sha2::Sha256::digest`: the 32-byte SHA-256 digest of `data`. The
/// contract claims the digest is a function of the bytes alone and is 32
/// bytes long (the output size of SHA-256); the digest itself is not stated.
#[verifier::external_body]
pub(crate) fn sha256(data: &[u8]) -> (r: Vec<u8>)
    ensures
        r@ == sha256_spec(data@),
        r@.len() == 32,
{
    sha2::Sha256::digest(data).to_vec()
}

/// The AutoV2 hash of a model (CivitAI, A1111, Forge): the first ten bytes
/// of its hexadecimal SHA-256 (`&full_hash[..10]`). The tenth byte must end
/// a character, as it does in a hexadecimal digest.
pub fn autov2_hash(full_hash: &str) -> (r: String)
    requires
        is_char_boundary(encode_utf8(full_hash@), 10),
    ensures
        encode_utf8(r@) == encode_utf8(full_hash@).subrange(0, 10),
{
    let (head, _) = full_hash.split_at(10);
    crate::text::string_of(&crate::text::chars_of(head))
}

/// A model file's full SHA-256 (hexadecimal) with its AutoV2 short form.
pub struct ModelHashResult {
    pub sha256: String,
    pub autov2: String,
}

/// The hash result reported for a model whose SHA-256 is `sha256`.
pub fn model_hash_result(sha256: String) -> (r: ModelHashResult)
    requires
        is_char_boundary(encode_utf8(sha256@), 10),
    ensures
        r.sha256@ == sha256@,
        encode_utf8(r.autov2@) == encode_utf8(sha256@).subrange(0, 10),
{
    let autov2 = autov2_hash(sha256.as_str());
    ModelHashResult { sha256, autov2 }
}

/// Whether a model whose full hash is `full_hash` is the one an uppercase
/// `needle` names: a ten-byte needle is an AutoV2 hash, compared with the
/// first ten bytes of the full hash; any other needle is compared with the
/// whole hash.
pub open spec fn hash_matches_spec(full_hash: Seq<char>, needle: Seq<char>) -> bool {
    if encode_utf8(needle).len() == 10 {
        encode_utf8(full_hash).subrange(0, 10) == encode_utf8(needle)
    } else {
        full_hash == needle
    }
}

/// Compare a model's full hash with an uppercased needle.
pub fn hash_matches_needle(full_hash: &str, needle: &str) -> (r: bool)
    requires
        encode_utf8(needle@).len() == 10 ==> is_char_boundary(encode_utf8(full_hash@), 10),
    ensures
        r == hash_matches_spec(full_hash@, needle@),
{
    let nl = needle.as_bytes().len();
    if nl == 10 {
        let short = autov2_hash(full_hash);
        proof {
            vstd::utf8::encode_utf8_decode_utf8(short@);
            vstd::utf8::encode_utf8_decode_utf8(needle@);
        }
        crate::text::same_chars(&crate::text::chars_of(short.as_str()), &crate::text::chars_of(needle))
    } else {
        crate::text::same_chars(&crate::text::chars_of(full_hash), &crate::text::chars_of(needle))
    }
}

/// Whether a model with full hash `full_hash` is the one `hash` names, the
/// needle taken in uppercase (`str::to_uppercase`). `None` where a ten-byte
/// needle meets a full hash whose tenth byte does not end a character (the
/// short form cannot be cut there).
pub fn model_hash_matches(full_hash: &str, hash: &str) -> (r: Option<bool>)
    ensures
        match r {
            Some(b) => b == hash_matches_spec(full_hash@, crate::text::unicode_upper(hash@)),
            None => encode_utf8(crate::text::unicode_upper(hash@)).len() == 10
                && !is_char_boundary(encode_utf8(full_hash@), 10),
        },
{
    let needle = crate::text::str_to_uppercase(hash);
    let ns = needle.as_str();
    let nl = ns.as_bytes().len();
    assert(ns@ == needle@);
    if nl == 10 && !full_hash.is_char_boundary(10) {
        return None;
    }
    Some(hash_matches_needle(full_hash, ns))
}

/// Whether a file can be looked up by hash: a `.safetensors` or `.ckpt`
/// file name.
pub open spec fn hashable_model_name_spec(name: Seq<char>) -> bool {
    crate::text::ends_with(name, ".safetensors"@) || crate::text::ends_with(name, ".ckpt"@)
}

pub fn hashable_model_name(name: &str) -> (r: bool)
    ensures
        r == hashable_model_name_spec(name@),
{
    let c = crate::text::chars_of(name);
    crate::text::ends(&c, ".safetensors") || crate::text::ends(&c, ".ckpt")
}

// ---------------------------------------------------------------------------
// Hashing a file in chunks
// ---------------------------------------------------------------------------

/// A `sha2::Sha256` hasher. Verus refuses to declare `sha2::Sha256` itself
/// (it is an alias of a generic core wrapper), so the hasher is held here,
/// out of Verus's sight, and described by the name below.
#[verifier::external_body]
pub struct Sha256Hasher {
    inner: sha2::Sha256,
}

/// The bytes a hasher has been fed since it was made.
pub uninterp spec fn sha256_fed(h: Sha256Hasher) -> Seq<u8>;

/// `sha2::Sha256::new`: a hasher that has been fed nothing.
#[verifier::external_body]
fn sha256_new() -> (r: Sha256Hasher)
    ensures
        sha256_fed(r) == Seq::<u8>::empty(),
{
    Sha256Hasher { inner: sha2::Sha256::new() }
}

/// `Digest::update`: feeds `chunk` after what the hasher was fed before.
#[verifier::external_body]
fn sha256_update(h: &mut Sha256Hasher, chunk: &[u8])
    ensures
        sha256_fed(*final(h)) == sha256_fed(*old(h)) + chunk@,
{
    h.inner.update(chunk)
}

/// `Digest::finalize`: the SHA-256 digest of every byte the hasher was fed,
/// the same digest `Sha256::digest` gives for those bytes at once.
#[verifier::external_body]
fn sha256_finalize(h: Sha256Hasher) -> (r: Vec<u8>)
    ensures
        r@ == sha256_spec(sha256_fed(h)),
        r@.len() == 32,
{
    h.inner.finalize().to_vec()
}

/// A SHA-256 computation over a file read in chunks.
pub struct Sha256Stream {
    hasher: Sha256Hasher,
}

impl Sha256Stream {
    /// The bytes fed so far.
    pub closed spec fn fed(&self) -> Seq<u8> {
        sha256_fed(self.hasher)
    }

    /// A stream that has been fed nothing.
    pub fn new() -> (r: Sha256Stream)
        ensures
            r.fed() == Seq::<u8>::empty(),
    {
        Sha256Stream { hasher: sha256_new() }
    }

    /// Feed the next chunk.
    pub fn update(&mut self, chunk: &[u8])
        ensures
            final(self).fed() == old(self).fed() + chunk@,
    {
        sha256_update(&mut self.hasher, chunk);
    }

    /// The lowercase hexadecimal SHA-256 of every byte fed.
    pub fn finish_hex(self) -> (r: String)
        ensures
            r@ == crate::text::hex_of(sha256_spec(self.fed()), false),
    {
        let d = sha256_finalize(self.hasher);
        sha256_hex(&d)
    }

    /// The uppercase hexadecimal SHA-256 of every byte fed: a model file's
    /// hash as it is reported.
    pub fn finish_hex_upper(self) -> (r: String)
        ensures
            r@ == crate::text::hex_of(sha256_spec(self.fed()), true),
    {
        let d = sha256_finalize(self.hasher);
        sha256_hex_upper(&d)
    }
}

/// A digest in uppercase hexadecimal, two digits per byte (`{:X}`), the
/// form model hashes are reported in and CivitAI looks them up by.
pub fn sha256_hex_upper(d: &[u8]) -> (r: String)
    ensures
        r@ == crate::text::hex_of(d@, true),
{
    crate::text::string_of(&crate::text::hex_chars(d, true))
}

/// A digest in lowercase hexadecimal, two digits per byte (`{:x}`).
pub fn sha256_hex(d: &[u8]) -> (r: String)
    ensures
        r@ == crate::text::hex_of(d@, false),
{
    crate::text::string_of(&crate::text::hex_chars(d, false))
}

} // verus!
