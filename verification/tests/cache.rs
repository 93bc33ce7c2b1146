use vidlib::state::{get_video_cache, StoreWrite, VideoCache, VideoCacheItem};
use vidlib::text::same_text;

fn item(size: u64, id: &str) -> VideoCacheItem {
    VideoCacheItem::new(size, id.to_string())
}

fn found(cache: &VideoCache, path: &str) -> Option<(u64, String)> {
    cache.get_video(path).map(|v| (v.filesize(), v.id().to_string()))
}

fn shown(writes: &[StoreWrite]) -> Vec<String> {
    writes
        .iter()
        .map(|w| match w {
            StoreWrite::Delete { path } => format!("delete {}", path),
            StoreWrite::Upsert { path, size, id } => format!("upsert {} {} {}", path, size, id),
        })
        .collect()
}

#[test]
fn cache_item_keeps_size_and_identifier() {
    let v = item(42, "abc");
    assert_eq!(v.filesize(), 42);
    assert_eq!(v.id(), "abc");
    let copy = v.clone();
    assert_eq!(copy.filesize(), 42);
    assert_eq!(copy.id(), "abc");
}

#[test]
fn new_cache_is_empty() {
    let mut cache = VideoCache::new();
    assert!(found(&cache, "/lib/a.mp4").is_none());
    assert!(cache.commit().is_empty());
}

#[test]
fn lookup_sees_staged_additions() {
    let mut cache = VideoCache::new();
    cache.add_video("/lib/a.mp4", item(10, "aa"));
    assert_eq!(found(&cache, "/lib/a.mp4"), Some((10, "aa".to_string())));
    assert!(found(&cache, "/lib/b.mp4").is_none());
    cache.add_video("/lib/a.mp4", item(11, "ab"));
    assert_eq!(found(&cache, "/lib/a.mp4"), Some((11, "ab".to_string())));
}

#[test]
fn staged_deletion_does_not_hide_the_committed_row() {
    let mut cache = get_video_cache(vec![("/lib/a.mp4".to_string(), item(10, "aa"))]);
    cache.delete_video("/lib/a.mp4");
    assert_eq!(found(&cache, "/lib/a.mp4"), Some((10, "aa".to_string())));
    let writes = cache.commit();
    assert_eq!(shown(&writes), vec!["delete /lib/a.mp4"]);
    assert!(found(&cache, "/lib/a.mp4").is_none());
}

#[test]
fn commit_writes_deletions_before_insertions() {
    let mut cache = get_video_cache(vec![
        ("/lib/old.mp4".to_string(), item(1, "01")),
        ("/lib/gone.mp4".to_string(), item(2, "02")),
    ]);
    cache.add_video("/lib/new.mp4", item(3, "03"));
    cache.delete_video("/lib/gone.mp4");
    cache.add_video("/lib/other.mp4", item(4, "04"));
    cache.delete_video("/lib/old.mp4");
    let writes = cache.commit();
    assert_eq!(
        shown(&writes),
        vec![
            "delete /lib/gone.mp4",
            "delete /lib/old.mp4",
            "upsert /lib/new.mp4 3 03",
            "upsert /lib/other.mp4 4 04",
        ]
    );
    assert!(found(&cache, "/lib/gone.mp4").is_none());
    assert!(found(&cache, "/lib/old.mp4").is_none());
    assert_eq!(found(&cache, "/lib/new.mp4"), Some((3, "03".to_string())));
    assert_eq!(found(&cache, "/lib/other.mp4"), Some((4, "04".to_string())));
    assert!(cache.commit().is_empty());
}

#[test]
fn delete_then_add_of_one_path_keeps_the_added_row() {
    let mut cache = get_video_cache(vec![("/lib/a.mp4".to_string(), item(10, "old"))]);
    cache.delete_video("/lib/a.mp4");
    cache.add_video("/lib/a.mp4", item(20, "new"));
    let writes = cache.commit();
    let last = shown(&writes).pop().unwrap();
    assert_eq!(last, "upsert /lib/a.mp4 20 new");
    assert!(!shown(&writes).iter().any(|w| w.starts_with("delete")));
    assert_eq!(found(&cache, "/lib/a.mp4"), Some((20, "new".to_string())));
}

#[test]
fn add_then_delete_of_one_path_keeps_the_added_row() {
    let mut cache = get_video_cache(vec![("/lib/a.mp4".to_string(), item(10, "old"))]);
    cache.add_video("/lib/a.mp4", item(20, "new"));
    cache.delete_video("/lib/a.mp4");
    let writes = cache.commit();
    assert_eq!(shown(&writes), vec!["upsert /lib/a.mp4 20 new"]);
    assert_eq!(found(&cache, "/lib/a.mp4"), Some((20, "new".to_string())));
}

#[test]
fn a_store_that_applies_the_writes_mirrors_the_cache() {
    let rows = vec![
        ("/p/1".to_string(), item(1, "a")),
        ("/p/2".to_string(), item(2, "b")),
        ("/p/3".to_string(), item(3, "c")),
    ];
    let mut store: std::collections::BTreeMap<String, (u64, String)> =
        rows.iter().map(|(p, v)| (p.clone(), (v.filesize(), v.id().to_string()))).collect();
    let mut cache = get_video_cache(rows);
    cache.delete_video("/p/1");
    cache.delete_video("/p/2");
    cache.add_video("/p/2", item(22, "bb"));
    cache.add_video("/p/4", item(4, "d"));
    cache.delete_video("/p/9");
    for write in cache.commit() {
        match write {
            StoreWrite::Delete { path } => {
                store.remove(&path);
            }
            StoreWrite::Upsert { path, size, id } => {
                store.insert(path, (size, id));
            }
        }
    }
    for path in ["/p/1", "/p/2", "/p/3", "/p/4", "/p/9"] {
        assert_eq!(found(&cache, path), store.get(path).cloned(), "path {}", path);
    }
    assert_eq!(store.len(), 3);
    assert_eq!(store["/p/2"], (22, "bb".to_string()));
}

#[test]
fn loading_rows_keeps_the_later_of_two_with_one_path() {
    let cache = get_video_cache(vec![
        ("/p/1".to_string(), item(1, "a")),
        ("/p/1".to_string(), item(2, "b")),
    ]);
    assert_eq!(found(&cache, "/p/1"), Some((2, "b".to_string())));
}

#[test]
fn same_text_compares_contents() {
    assert!(same_text("abc", "abc"));
    assert!(!same_text("abc", "abd"));
    assert!(!same_text("abc", "ab"));
    assert!(same_text("", ""));
}

#[test]
fn digest_is_needed_without_a_row_of_path_and_size() {
    let mut cache = get_video_cache(vec![("/p/1".to_string(), item(10, "a"))]);
    assert!(!cache.needs_digest("/p/1", 10));
    assert!(cache.needs_digest("/p/1", 11));
    assert!(cache.needs_digest("/p/2", 10));
    cache.add_video("/p/2", item(10, "b"));
    assert!(!cache.needs_digest("/p/2", 10));
    cache.delete_video("/p/1");
    assert!(!cache.needs_digest("/p/1", 10));
    cache.commit();
    assert!(cache.needs_digest("/p/1", 10));
}

#[test]
fn staged_writes_are_what_the_commit_hands_out() {
    let mut cache = get_video_cache(vec![("/p/1".to_string(), item(1, "a"))]);
    assert!(cache.staged_writes().is_empty());
    cache.delete_video("/p/1");
    cache.add_video("/p/2", item(2, "b"));
    let staged = shown(&cache.staged_writes());
    assert_eq!(staged, vec!["delete /p/1", "upsert /p/2 2 b"]);
    // Nothing has changed yet.
    assert_eq!(found(&cache, "/p/1"), Some((1, "a".to_string())));
    assert_eq!(shown(&cache.staged_writes()), staged);
    assert_eq!(shown(&cache.commit()), staged);
    assert!(cache.staged_writes().is_empty());
    assert!(found(&cache, "/p/1").is_none());
}
