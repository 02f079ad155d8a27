//! Content hashing for duplicate detection. The digest itself comes from
//! the blake3 crate behind a small trusted boundary: the digest of a byte
//! stream is given a name, `digest_of`, and the verified code reasons
//! about that name alone. The caller may stream a file in chunks through
//! `ContentHasher`, or hash a whole buffer with `hash_bytes`.

use vstd::prelude::*;
use vstd::slice::slice_subrange;

verus! {

#[verifier::external_type_specification]
#[verifier::external_body]
pub struct ExBlake3Hasher(blake3::Hasher);

/// The 32-byte content digest blake3 assigns to a byte sequence. The
/// digest is a function of the bytes alone; nothing more is assumed of it.
pub uninterp spec fn digest_of(data: Seq<u8>) -> Seq<u8>;

/// Relies on blake3::Hasher::new: a fresh hasher over the regular hash
/// function.
#[verifier::external_body]
fn blake3_hasher_new() -> blake3::Hasher {
    blake3::Hasher::new()
}

/// Relies on blake3::Hasher::update: appends the chunk to the hasher's
/// input stream.
#[verifier::external_body]
fn blake3_hasher_update(h: &mut blake3::Hasher, chunk: &[u8]) {
    h.update(chunk);
}

/// An incremental content hasher; it remembers (in ghost state) the bytes
/// fed so far, and its digest is `digest_of` those bytes.
pub struct ContentHasher {
    inner: blake3::Hasher,
    fed: Ghost<Seq<u8>>,
}

impl ContentHasher {
    /// The bytes fed to this hasher so far.
    pub closed spec fn bytes_fed(&self) -> Seq<u8> {
        self.fed@
    }

    /// A fresh hasher has hashed nothing.
    pub fn new() -> (h: Self)
        ensures
            h.bytes_fed() == Seq::<u8>::empty(),
    {
        ContentHasher { inner: blake3_hasher_new(), fed: Ghost(Seq::empty()) }
    }

    /// Append the chunk to the hashed stream.
    pub fn update(&mut self, chunk: &[u8])
        ensures
            final(self).bytes_fed() == old(self).bytes_fed() + chunk@,
    {
        blake3_hasher_update(&mut self.inner, chunk);
        proof {
            self.fed@ = self.fed@ + chunk@;
        }
    }

    /// Relies on blake3::Hasher::finalize: the 32-byte digest of the bytes
    /// the hasher was fed, a function of those bytes alone.
    #[verifier::external_body]
    pub fn finalize(&self) -> (digest: Vec<u8>)
        ensures
            digest@ == digest_of(self.bytes_fed()),
            digest@.len() == 32,
    {
        self.inner.finalize().as_bytes().to_vec()
    }
}

/// The size of the chunks `hash_bytes` streams.
pub const HASH_CHUNK_BYTES: usize = 8192;

/// The content digest of a whole buffer, streamed through the hasher in
/// fixed-size chunks.
pub fn hash_bytes(data: &[u8]) -> (digest: Vec<u8>)
    ensures
        digest@ == digest_of(data@),
        digest@.len() == 32,
{
    let mut h = ContentHasher::new();
    let n = data.len();
    let mut i: usize = 0;
    while i < n
        invariant
            i <= n,
            n == data@.len(),
            h.bytes_fed() == data@.subrange(0, i as int),
        decreases n - i,
    {
        let end = if n - i < HASH_CHUNK_BYTES {
            n
        } else {
            i + HASH_CHUNK_BYTES
        };
        let chunk = slice_subrange(data, i, end);
        h.update(chunk);
        proof {
            assert(data@.subrange(0, i as int) + data@.subrange(i as int, end as int)
                =~= data@.subrange(0, end as int));
        }
        i = end;
    }
    proof {
        assert(data@.subrange(0, n as int) =~= data@);
    }
    h.finalize()
}

} // verus!
