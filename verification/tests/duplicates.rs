use disk_cleaner::duplicate_finder::{DuplicateFinder, HashedFile, SizedFile};
use disk_cleaner::hashing::{hash_bytes, ContentHasher};

fn sized(path: &str, size: u64) -> SizedFile {
    SizedFile { path: path.to_string(), size }
}

fn hashed(path: &str, hash: Vec<u8>) -> HashedFile {
    HashedFile { path: path.to_string(), hash }
}

#[test]
fn unique_sizes_are_never_candidates() {
    let finder = DuplicateFinder::new();
    let files = vec![sized("a", 10), sized("b", 10), sized("c", 5)];
    let candidates = finder.size_candidates(&files);
    assert_eq!(candidates.len(), 2);
    assert_eq!(candidates[0].path, "a");
    assert_eq!(candidates[1].path, "b");
    // The file with the unique size contributes no hashing work at all.
    for c in &candidates {
        assert_ne!(c.path, "c");
    }
}

#[test]
fn no_candidates_among_all_unique_sizes() {
    let finder = DuplicateFinder::new();
    let files = vec![sized("a", 1), sized("b", 2), sized("c", 3)];
    assert!(finder.size_candidates(&files).is_empty());
}

#[test]
fn groups_by_equal_digest() {
    let finder = DuplicateFinder::new();
    let files = vec![
        hashed("a", vec![1, 1]),
        hashed("b", vec![2, 2]),
        hashed("c", vec![1, 1]),
        hashed("d", vec![3, 3]),
        hashed("e", vec![2, 2]),
        hashed("f", vec![2, 2]),
    ];
    let groups = finder.find_duplicates(&files);
    assert_eq!(groups.len(), 2);
    assert_eq!(groups[0], vec!["a".to_string(), "c".to_string()]);
    assert_eq!(groups[1], vec!["b".to_string(), "e".to_string(), "f".to_string()]);
}

#[test]
fn singleton_digests_yield_no_groups() {
    let finder = DuplicateFinder::new();
    let files = vec![hashed("a", vec![1]), hashed("b", vec![2])];
    assert!(finder.find_duplicates(&files).is_empty());
    assert!(finder.find_duplicates(&vec![]).is_empty());
}

#[test]
fn delete_candidates_keep_the_first_of_each_group() {
    let finder = DuplicateFinder::new();
    let groups = vec![
        vec!["a".to_string(), "b".to_string(), "c".to_string()],
        vec!["d".to_string(), "e".to_string()],
    ];
    assert_eq!(
        finder.delete_candidates(&groups),
        vec!["b".to_string(), "c".to_string(), "e".to_string()]
    );
    assert!(finder.delete_candidates(&vec![vec!["x".to_string()]]).is_empty());
    assert!(finder.delete_candidates(&vec![]).is_empty());
}

#[test]
fn identical_content_shares_one_group() {
    // Round trip through real hashing: identical bytes under different
    // names land together in exactly one group; different bytes never
    // share a group.
    let finder = DuplicateFinder::new();
    let same = vec![7u8; 10000];
    let other = {
        let mut v = vec![7u8; 10000];
        v[9999] = 8;
        v
    };
    let files = vec![
        hashed("root/cache/b.dat", hash_bytes(&same)),
        hashed("root/other/c.dat", hash_bytes(&same)),
        hashed("root/unrelated.bin", hash_bytes(&other)),
    ];
    let groups = finder.find_duplicates(&files);
    assert_eq!(groups.len(), 1);
    assert_eq!(groups[0].len(), 2);
    assert!(groups[0].contains(&"root/cache/b.dat".to_string()));
    assert!(groups[0].contains(&"root/other/c.dat".to_string()));
    assert!(!groups[0].contains(&"root/unrelated.bin".to_string()));
}

#[test]
fn digest_is_a_function_of_content_alone() {
    let a = hash_bytes(b"the quick brown fox");
    let b = hash_bytes(b"the quick brown fox");
    let c = hash_bytes(b"the quick brown fo?");
    assert_eq!(a.len(), 32);
    assert_eq!(a, b);
    assert_ne!(a, c);
}

#[test]
fn streaming_matches_whole_buffer_hashing() {
    // Feeding a file in chunks gives the digest of the whole content.
    let data = vec![42u8; 20000];
    let mut h = ContentHasher::new();
    h.update(&data[..8192]);
    h.update(&data[8192..16384]);
    h.update(&data[16384..]);
    assert_eq!(h.finalize(), hash_bytes(&data));
}

#[test]
fn empty_input_digest() {
    let h = ContentHasher::new();
    let empty: Vec<u8> = Vec::new();
    assert_eq!(h.finalize(), hash_bytes(&empty));
}
