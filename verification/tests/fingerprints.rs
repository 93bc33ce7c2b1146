use vidlib::fingerprint::{
    content_digest, digest_id, sample_digest, sample_ranges, SampleRanges, CHUNK_SIZE,
};
use xxhash_rust::xxh3::xxh3_64;

fn pattern(len: usize, seed: u8) -> Vec<u8> {
    (0..len).map(|i| (i as u8).wrapping_mul(31).wrapping_add(seed)).collect()
}

#[test]
fn chunk_size_is_one_mebibyte() {
    assert_eq!(CHUNK_SIZE, 1024 * 1024);
}

#[test]
fn small_files_are_read_whole() {
    assert_eq!(sample_ranges(0), SampleRanges { head_len: 0, tail_start: None });
    assert_eq!(sample_ranges(500 * 1024), SampleRanges { head_len: 500 * 1024, tail_start: None });
    assert_eq!(sample_ranges(CHUNK_SIZE), SampleRanges { head_len: CHUNK_SIZE, tail_start: None });
}

#[test]
fn large_files_are_read_at_both_ends() {
    assert_eq!(
        sample_ranges(CHUNK_SIZE + 1),
        SampleRanges { head_len: CHUNK_SIZE, tail_start: Some(1) }
    );
    assert_eq!(
        sample_ranges(2 * CHUNK_SIZE),
        SampleRanges { head_len: CHUNK_SIZE, tail_start: Some(CHUNK_SIZE) }
    );
    assert_eq!(
        sample_ranges(u64::MAX),
        SampleRanges { head_len: CHUNK_SIZE, tail_start: Some(u64::MAX - CHUNK_SIZE) }
    );
}

#[test]
fn digest_of_two_chunks_is_the_digest_of_their_concatenation() {
    let head = pattern(1000, 1);
    let tail = pattern(77, 9);
    let mut both = head.clone();
    both.extend_from_slice(&tail);
    assert_eq!(sample_digest(&head, &tail), xxh3_64(&both));
    assert_eq!(sample_digest(&head, &[]), xxh3_64(&head));
    assert_eq!(sample_digest(&[], &[]), xxh3_64(&[]));
    assert_ne!(sample_digest(&head, &tail), sample_digest(&tail, &head));
}

#[test]
fn digest_depends_on_the_bytes() {
    let a = pattern(4096, 1);
    let b = pattern(4096, 2);
    assert_ne!(sample_digest(&a, &[]), sample_digest(&b, &[]));
    assert_ne!(content_digest(&a), content_digest(&b));
    assert_eq!(content_digest(&a), xxh3_64(&a));
}

#[test]
fn identifier_is_the_hexadecimal_digest() {
    assert_eq!(digest_id(0), "0");
    assert_eq!(digest_id(0xabc), "abc");
    let bytes = pattern(300, 3);
    assert_eq!(digest_id(content_digest(&bytes)), format!("{:x}", xxh3_64(&bytes)));
}

#[test]
fn contents_with_the_same_ends_share_an_identifier() {
    // Expected, not a fault: only the first and the last chunk of a large
    // file are hashed, so two files that differ in the middle alone collide.
    let chunk = CHUNK_SIZE as usize;
    let mut a = pattern(3 * chunk, 5);
    let mut b = a.clone();
    b[chunk + 10] ^= 0xff;
    b[2 * chunk - 1] ^= 0x55;
    assert_ne!(a, b);
    assert_eq!(content_digest(&a), content_digest(&b));
    assert_eq!(digest_id(content_digest(&a)), digest_id(content_digest(&b)));
    let mut ends = a[..chunk].to_vec();
    ends.extend_from_slice(&a[2 * chunk..]);
    assert_eq!(content_digest(&a), xxh3_64(&ends));
    // A change in the first or in the last chunk is seen.
    b[0] ^= 1;
    assert_ne!(content_digest(&a), content_digest(&b));
    a[3 * chunk - 1] ^= 1;
    assert_ne!(content_digest(&a), xxh3_64(&ends));
}

#[test]
fn content_of_chunk_size_is_hashed_whole() {
    let chunk = CHUNK_SIZE as usize;
    let exact = pattern(chunk, 7);
    assert_eq!(content_digest(&exact), xxh3_64(&exact));
    let over = pattern(chunk + 1, 7);
    let mut ends = over[..chunk].to_vec();
    ends.extend_from_slice(&over[1..]);
    assert_eq!(content_digest(&over), xxh3_64(&ends));
}
