//! SHA-256 fingerprints.
use crate::text::{hex_bytes, hex_text, is_sha256_text};
use sha2::{Digest, Sha256};
use vstd::prelude::*;

verus! {

/// The SHA-256 digest of a byte string, as the `sha2` crate computes it.
pub uninterp spec fn sha256(bytes: Seq<u8>) -> Seq<u8>;

/// The bytes that a hasher has been fed so far, in order.
pub uninterp spec fn fed_bytes(hasher: Sha256Hasher) -> Seq<u8>;

/// A streaming SHA-256 hasher: it collects bytes until its digest is asked for.
#[verifier::external_body]
pub struct Sha256Hasher {
    inner: Sha256,
}

impl Sha256Hasher {
    /// `Sha256::new` gives a hasher that has been fed nothing.
    #[verifier::external_body]
    fn new() -> (hasher: Sha256Hasher)
        ensures
            fed_bytes(hasher) == Seq::<u8>::empty(),
    {
        Sha256Hasher { inner: Sha256::new() }
    }

    /// `Sha256::update` feeds `bytes` after what was fed before.
    #[verifier::external_body]
    fn update(&mut self, bytes: &[u8])
        ensures
            fed_bytes(*final(self)) == fed_bytes(*old(self)) + bytes@,
    {
        self.inner.update(bytes);
    }

    /// `Sha256::finalize` gives the digest of everything that was fed, which is
    /// thirty-two bytes long.
    #[verifier::external_body]
    fn finalize(self) -> (digest: Vec<u8>)
        ensures
            digest@ == sha256(fed_bytes(self)),
            digest@.len() == 32,
    {
        self.inner.finalize().to_vec()
    }
}

/// A hasher over a stream of chunks.
pub struct StreamHash {
    hasher: Sha256Hasher,
}

impl View for StreamHash {
    type V = Seq<u8>;

    closed spec fn view(&self) -> Seq<u8> {
        fed_bytes(self.hasher)
    }
}

impl StreamHash {
    /// Starts with nothing read.
    pub fn new() -> (stream: Self)
        ensures
            stream@ == Seq::<u8>::empty(),
    {
        StreamHash { hasher: Sha256Hasher::new() }
    }

    /// Takes in the next chunk.
    pub fn feed(&mut self, chunk: &[u8])
        ensures
            final(self)@ == old(self)@ + chunk@,
    {
        self.hasher.update(chunk);
    }

    /// The digest of everything taken in, in lowercase hexadecimal.
    pub fn finish(self) -> (hash: String)
        ensures
            hash@ == sha256_text(self@),
            is_sha256_text(hash@),
    {
        let digest: Vec<u8> = self.hasher.finalize();
        proof {
            crate::text::law_hex_of_digest_is_sha256_text(digest@);
        }
        hex_bytes(digest.as_slice())
    }
}

/// The SHA-256 digest of `bytes` in lowercase hexadecimal.
pub open spec fn sha256_text(bytes: Seq<u8>) -> Seq<char> {
    hex_text(sha256(bytes))
}

/// Hashes `bytes`.
pub fn sha256_hex(bytes: &[u8]) -> (hash: String)
    ensures
        hash@ == sha256_text(bytes@),
        is_sha256_text(hash@),
{
    let mut stream = StreamHash::new();
    stream.feed(bytes);
    assert(stream@ =~= bytes@);
    stream.finish()
}

/// Hashes `bytes` behind a domain separator.
pub fn domain_hash(domain: &[u8], bytes: &[u8]) -> (hash: String)
    ensures
        hash@ == sha256_text(domain@ + bytes@),
        is_sha256_text(hash@),
{
    let mut stream = StreamHash::new();
    stream.feed(domain);
    stream.feed(bytes);
    assert(stream@ =~= domain@ + bytes@);
    stream.finish()
}

/// Hashes the UTF-8 bytes of `content`.
pub fn content_hash(content: &str) -> (hash: String)
    ensures
        hash@ == content_sha256(content@),
        is_sha256_text(hash@),
{
    sha256_hex(content.as_bytes())
}

/// The SHA-256 text of the UTF-8 bytes of `content`.
pub open spec fn content_sha256(content: Seq<char>) -> Seq<char> {
    sha256_text(vstd::utf8::encode_utf8(content))
}

/// Hashing a stream does not depend on how it was cut into chunks.
pub proof fn law_chunking_is_irrelevant(before: Seq<u8>, first: Seq<u8>, second: Seq<u8>)
    ensures
        sha256_text((before + first) + second) == sha256_text(before + (first + second)),
{
    assert((before + first) + second =~= before + (first + second));
}

/// The hash of a text is the digest of its bytes, written in hexadecimal, and the same for
/// texts of the same bytes.
pub proof fn law_content_hashes_are_of_the_bytes(content: Seq<char>, bytes: Seq<u8>)
    ensures
        bytes == vstd::utf8::encode_utf8(content) ==> content_sha256(content) == hex_text(
            sha256(bytes),
        ),
        sha256_text(bytes) == hex_text(sha256(bytes)),
{
}

} // verus!
