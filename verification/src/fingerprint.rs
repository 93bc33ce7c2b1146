//! Content fingerprints: which bytes of a file are sampled, and the
//! identifier made from their XXH3 digest.

use vstd::prelude::*;
use vstd::slice::slice_subrange;
use xxhash_rust::xxh3::Xxh3;
use crate::text::{lower_hex, to_lower_hex};

verus! {

/// Files longer than this many bytes are sampled at both ends only.
pub const CHUNK_SIZE: u64 = 1048576;

/// The streaming hasher `xxhash_rust::xxh3::Xxh3`, opaque to the verifier.
#[verifier::external_type_specification]
#[verifier::external_body]
pub struct ExXxh3(Xxh3);

/// The bytes that a hasher has been fed since it was made, in order.
pub uninterp spec fn xxh3_fed(hasher: Xxh3) -> Seq<u8>;

/// The 64-bit XXH3 digest, with the default seed and secret, of a byte
/// sequence.
pub uninterp spec fn xxh3_64(bytes: Seq<u8>) -> u64;

/// `Xxh3::new` makes a hasher with the default seed and secret that has been
/// fed nothing.
pub assume_specification[ Xxh3::new ]() -> (hasher: Xxh3)
    ensures
        xxh3_fed(hasher) == Seq::<u8>::empty(),
;

/// `Xxh3::update` feeds the hasher one more chunk: the bytes fed are the
/// earlier ones followed by `input`, however the input is cut into chunks.
pub assume_specification[ Xxh3::update ](hasher: &mut Xxh3, input: &[u8])
    ensures
        xxh3_fed(*final(hasher)) == xxh3_fed(*old(hasher)) + input@,
;

/// `Xxh3::digest` returns the digest of all bytes fed so far and leaves the
/// hasher as it was.
pub assume_specification[ Xxh3::digest ](hasher: &Xxh3) -> (digest: u64)
    ensures
        digest == xxh3_64(xxh3_fed(*hasher)),
;

/// The bytes of a file's content that its fingerprint is made from: all of
/// them up to `CHUNK_SIZE`, else the first and the last `CHUNK_SIZE` bytes,
/// in that order.
pub open spec fn sampled(content: Seq<u8>) -> Seq<u8> {
    if content.len() <= CHUNK_SIZE {
        content
    } else {
        content.subrange(0, CHUNK_SIZE as int) + content.subrange(
            content.len() - CHUNK_SIZE,
            content.len() as int,
        )
    }
}

/// The identifier of a digest: its lower-case hexadecimal text.
pub open spec fn id_of_digest(digest: u64) -> Seq<char> {
    lower_hex(digest as nat)
}

/// The fingerprint identifier of a file's content.
pub open spec fn content_id(content: Seq<u8>) -> Seq<char> {
    id_of_digest(xxh3_64(sampled(content)))
}

/// The byte ranges of a file that a fingerprint reads.
#[derive(Clone, Copy, Debug, PartialEq, Eq, Structural)]
pub struct SampleRanges {
    /// The head is the bytes `0 .. head_len`.
    pub head_len: u64,
    /// Where the tail starts, for a file that is sampled at both ends; the
    /// tail runs to the end of the file.
    pub tail_start: Option<u64>,
}

impl SampleRanges {
    /// What `sample_ranges` answers for a file of `size` bytes.
    pub open spec fn of_size(size: u64) -> SampleRanges {
        if size > CHUNK_SIZE {
            SampleRanges { head_len: CHUNK_SIZE, tail_start: Some((size - CHUNK_SIZE) as u64) }
        } else {
            SampleRanges { head_len: size, tail_start: None }
        }
    }

    /// The bytes of `content` that lie in the ranges, head first.
    pub open spec fn select(self, content: Seq<u8>) -> Seq<u8> {
        let head = content.subrange(0, self.head_len as int);
        match self.tail_start {
            Some(start) => head + content.subrange(start as int, content.len() as int),
            None => head,
        }
    }
}

/// Which bytes of a file of `size` bytes a fingerprint reads.
pub fn sample_ranges(size: u64) -> (ranges: SampleRanges)
    ensures
        ranges == SampleRanges::of_size(size),
{
    if size > CHUNK_SIZE {
        SampleRanges { head_len: CHUNK_SIZE, tail_start: Some(size - CHUNK_SIZE) }
    } else {
        SampleRanges { head_len: size, tail_start: None }
    }
}

/// The ranges for a file's size select exactly the sampled bytes of its
/// content.
pub proof fn lemma_ranges_select_sample(content: Seq<u8>)
    requires
        content.len() <= u64::MAX,
    ensures
        SampleRanges::of_size(content.len() as u64).select(content) == sampled(content),
{
    if content.len() <= CHUNK_SIZE {
        assert(content.subrange(0, content.len() as int) =~= content);
    }
}

/// The digest of a head chunk followed by a tail chunk, fed to one hasher in
/// that order.
pub fn sample_digest(head: &[u8], tail: &[u8]) -> (digest: u64)
    ensures
        digest == xxh3_64(head@ + tail@),
{
    let mut hasher = Xxh3::new();
    hasher.update(head);
    hasher.update(tail);
    assert(xxh3_fed(hasher) =~= head@ + tail@);
    hasher.digest()
}

/// The digest of the sampled bytes of a whole content held in memory.
pub fn content_digest(content: &[u8]) -> (digest: u64)
    requires
        content@.len() <= u64::MAX,
    ensures
        digest == xxh3_64(sampled(content@)),
{
    let len: usize = content.len();
    if len as u64 > CHUNK_SIZE {
        let head = slice_subrange(content, 0, CHUNK_SIZE as usize);
        let tail = slice_subrange(content, len - CHUNK_SIZE as usize, len);
        sample_digest(head, tail)
    } else {
        let mut hasher = Xxh3::new();
        hasher.update(content);
        assert(xxh3_fed(hasher) =~= content@);
        hasher.digest()
    }
}

/// The identifier that stands for a digest.
pub fn digest_id(digest: u64) -> (id: String)
    ensures
        id@ == id_of_digest(digest),
{
    to_lower_hex(digest)
}

/// Two contents longer than `CHUNK_SIZE` that agree on their first and on
/// their last `CHUNK_SIZE` bytes have the same identifier, whatever lies
/// between.
pub proof fn lemma_same_ends_same_id(a: Seq<u8>, b: Seq<u8>)
    requires
        a.len() > CHUNK_SIZE,
        b.len() > CHUNK_SIZE,
        a.subrange(0, CHUNK_SIZE as int) == b.subrange(0, CHUNK_SIZE as int),
        a.subrange(a.len() - CHUNK_SIZE, a.len() as int) == b.subrange(
            b.len() - CHUNK_SIZE,
            b.len() as int,
        ),
    ensures
        content_id(a) == content_id(b),
{
}

/// A content of at most `CHUNK_SIZE` bytes is hashed whole.
pub proof fn lemma_small_content_hashed_whole(content: Seq<u8>)
    requires
        content.len() <= CHUNK_SIZE,
    ensures
        content_id(content) == id_of_digest(xxh3_64(content)),
{
}

} // verus!
