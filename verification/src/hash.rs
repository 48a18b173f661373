//! SHA-256 of contents that arrive in chunks.

use sha2::Digest;
use sha2::Sha256;
use vstd::prelude::*;

use crate::number::hex;
use crate::number::lemma_hex_len;
use crate::number::to_hex;

verus! {

/// The SHA-256 hasher of `sha2`, of which only the bytes processed so far
/// matter here.
#[verifier::external_type_specification]
#[verifier::external_body]
pub struct ExSha256(sha2::Sha256);

/// The bytes that a hasher has processed.
pub uninterp spec fn processed(hasher: Sha256) -> Seq<u8>;

/// The SHA-256 digest of some bytes.
pub uninterp spec fn sha256(bytes: Seq<u8>) -> Seq<u8>;

/// `Sha256::new`: a hasher that has processed nothing.
#[verifier::external_body]
fn new_hasher() -> (r: Sha256)
    ensures
        processed(r) == Seq::<u8>::empty(),
{
    Sha256::new()
}

/// `Digest::update`: processes `data` after what came before.
#[verifier::external_body]
fn feed(hasher: &mut Sha256, data: &[u8])
    ensures
        processed(*final(hasher)) == processed(*old(hasher)) + data@,
{
    hasher.update(data);
}

/// `Digest::finalize`: the digest of all bytes processed, which is a function
/// of these bytes and 32 bytes long.
#[verifier::external_body]
fn digest_of(hasher: Sha256) -> (r: Vec<u8>)
    ensures
        r@ == sha256(processed(hasher)),
        r@.len() == 32,
{
    hasher.finalize().to_vec()
}

/// The digest of some bytes in lower-case hexadecimal notation.
pub open spec fn sha256_hex(bytes: Seq<u8>) -> Seq<char> {
    hex(sha256(bytes))
}

/// Hashes contents chunk by chunk. Its view is the contents so far.
pub struct ContentHasher {
    inner: Sha256,
}

impl View for ContentHasher {
    type V = Seq<u8>;

    closed spec fn view(&self) -> Seq<u8> {
        processed(self.inner)
    }
}

impl ContentHasher {
    pub fn new() -> (r: ContentHasher)
        ensures
            r@ == Seq::<u8>::empty(),
    {
        ContentHasher { inner: new_hasher() }
    }

    /// Takes in the next chunk.
    pub fn update(&mut self, chunk: &[u8])
        ensures
            final(self)@ == old(self)@ + chunk@,
    {
        feed(&mut self.inner, chunk);
    }

    /// The digest of the contents in lower-case hexadecimal notation.
    pub fn finish(self) -> (r: String)
        ensures
            r@ == sha256_hex(self@),
            r@.len() == 64,
    {
        let digest = digest_of(self.inner);
        proof {
            lemma_hex_len(digest@);
        }
        to_hex(digest.as_slice())
    }
}

/// The digest of `bytes` in lower-case hexadecimal notation.
pub fn digest(bytes: &[u8]) -> (r: String)
    ensures
        r@ == sha256_hex(bytes@),
        r@.len() == 64,
{
    let mut hasher = ContentHasher::new();
    hasher.update(bytes);
    assert(hasher@ =~= bytes@);
    hasher.finish()
}

/// A digest is shown byte by byte in hexadecimal notation.
pub proof fn law_digest_notation(bytes: Seq<u8>)
    ensures
        sha256_hex(bytes) == hex(sha256(bytes)),
{
}

} // verus!
