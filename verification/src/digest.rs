//! Content digests and fresh ids.

use sha2::{Digest, Sha256};
use vstd::prelude::*;

verus! {

/// The hasher of the crate `sha2`.
#[verifier::external_type_specification]
#[verifier::external_body]
pub struct ExSha256(Sha256);

/// The SHA-256 digest of bytes.
pub uninterp spec fn sha256(bytes: Seq<u8>) -> Seq<u8>;

/// The bytes that a hasher has taken in.
pub uninterp spec fn absorbed(hasher: Sha256) -> Seq<u8>;

/// `Sha256::new`: a hasher that has taken nothing in.
#[verifier::external_body]
fn new_hasher() -> (r: Sha256)
    ensures
        absorbed(r) == Seq::<u8>::empty(),
{
    Sha256::new()
}

/// `Sha256::update`: takes in more bytes after those before.
#[verifier::external_body]
fn absorb(hasher: &mut Sha256, bytes: &[u8])
    ensures
        absorbed(*final(hasher)) == absorbed(*old(hasher)) + bytes@,
{
    hasher.update(bytes);
}

/// `Sha256::finalize`: the digest, 32 bytes, of everything taken in.
#[verifier::external_body]
fn finalize(hasher: Sha256) -> (r: Vec<u8>)
    ensures
        r@ == sha256(absorbed(hasher)),
        r@.len() == 32,
{
    hasher.finalize().to_vec()
}

/// The digest of a content that arrives in pieces.
pub struct ContentDigest {
    hasher: Sha256,
}

impl ContentDigest {
    /// The content so far.
    pub closed spec fn content(&self) -> Seq<u8> {
        absorbed(self.hasher)
    }

    /// The digest of nothing.
    pub fn new() -> (r: ContentDigest)
        ensures
            r.content() == Seq::<u8>::empty(),
    {
        ContentDigest { hasher: new_hasher() }
    }

    /// Adds the next piece.
    pub fn update(&mut self, bytes: &[u8])
        ensures
            final(self).content() == old(self).content() + bytes@,
    {
        absorb(&mut self.hasher, bytes);
    }

    /// The SHA-256 digest of the whole content.
    pub fn finish(self) -> (r: Vec<u8>)
        ensures
            r@ == sha256(self.content()),
            r@.len() == 32,
    {
        finalize(self.hasher)
    }
}

/// The SHA-256 digest of bytes.
pub fn sha256_bytes(bytes: &[u8]) -> (r: Vec<u8>)
    ensures
        r@ == sha256(bytes@),
        r@.len() == 32,
{
    let mut digest = ContentDigest::new();
    digest.update(bytes);
    assert(digest.content() =~= bytes@);
    digest.finish()
}

pub open spec fn hex_digit(c: char) -> bool {
    '0' <= c <= '9' || 'a' <= c <= 'f'
}

/// A random (version 4) UUID in lower case with hyphens.
pub open spec fn uuid_shaped(text: Seq<char>) -> bool {
    &&& text.len() == 36
    &&& forall|i: int|
        0 <= i < 36 ==> if i == 8 || i == 13 || i == 18 || i == 23 {
            #[trigger] text[i] == '-'
        } else {
            hex_digit(text[i])
        }
    &&& text[14] == '4'
    &&& text[19] == '8' || text[19] == '9' || text[19] == 'a' || text[19] == 'b'
}

/// `uuid::Uuid::new_v4`: a random UUID.
///
/// Claims its shape. Which one comes back is chance, and that no two are alike is very
/// likely but not certain, so neither is claimed.
#[verifier::external_body]
pub(crate) fn new_uuid() -> (r: String)
    ensures
        uuid_shaped(r@),
{
    uuid::Uuid::new_v4().hyphenated().to_string()
}

} // verus!
