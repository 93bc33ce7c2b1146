//! Why a second scan of an unchanged tree fingerprints nothing: the laws
//! that tie a scan, the commit after it, and the scan after that.

use vstd::prelude::*;
use crate::filescan::{
    fingerprint_step,
    folder_name_of,
    video_count,
    read_dir,
    scan_entries,
    scan_entry,
    scan_root,
    DirListing,
    EntryListing,
    FileListing,
    FolderView,
    Walk,
};
use crate::fingerprint::id_of_digest;
use crate::progress::{LogView, ProgressView};
use crate::state::{
    lemma_stage_add_wf,
    lemma_stage_delete_wf,
    lemma_without_contains,
    CacheRow,
    CacheView,
    Rows,
};
use crate::video::is_video_file;

verus! {

/// The paths of the video files that a scan of an entry fingerprints.
pub open spec fn entry_paths(entry: EntryListing) -> Set<Seq<char>>
    decreases entry, 0nat,
{
    match entry {
        EntryListing::File(file) => {
            if is_video_file(file.name@, file.openable, file.has_video_stream) {
                set![file.path@]
            } else {
                Set::empty()
            }
        },
        EntryListing::Dir(dir) => {
            if dir.hidden {
                Set::empty()
            } else {
                dir_paths(dir)
            }
        },
    }
}

/// The paths of the video files that a scan of entries fingerprints.
pub open spec fn entries_paths(entries: Seq<EntryListing>) -> Set<Seq<char>>
    decreases entries, 0nat,
{
    if entries.len() == 0 {
        Set::empty()
    } else {
        entries_paths(entries.drop_last()).union(entry_paths(entries.last()))
    }
}

/// The paths of the video files that a scan of a directory fingerprints.
pub open spec fn dir_paths(dir: DirListing) -> Set<Seq<char>>
    decreases dir, 0nat,
{
    match dir.entries {
        Some(entries) => entries_paths(entries@),
        None => Set::empty(),
    }
}

/// Whether no path is fingerprinted twice below an entry.
pub open spec fn entry_distinct(entry: EntryListing) -> bool
    decreases entry, 0nat,
{
    match entry {
        EntryListing::File(file) => true,
        EntryListing::Dir(dir) => dir.hidden || dir_distinct(dir),
    }
}

/// Whether no path is fingerprinted twice among entries.
pub open spec fn entries_distinct(entries: Seq<EntryListing>) -> bool
    decreases entries, 0nat,
{
    if entries.len() == 0 {
        true
    } else {
        &&& entries_distinct(entries.drop_last())
        &&& entry_distinct(entries.last())
        &&& entries_paths(entries.drop_last()).disjoint(entry_paths(entries.last()))
    }
}

/// Whether no path is fingerprinted twice in a directory, as in any tree of
/// files: each video file has a path of its own.
pub open spec fn dir_distinct(dir: DirListing) -> bool
    decreases dir, 0nat,
{
    match dir.entries {
        Some(entries) => entries_distinct(entries@),
        None => true,
    }
}

/// Whether two caches stage the same for a path.
pub open spec fn same_staging(a: CacheView, b: CacheView, path: Seq<char>) -> bool {
    &&& a.adds.contains_key(path) == b.adds.contains_key(path)
    &&& a.adds.contains_key(path) ==> a.adds[path] == b.adds[path]
    &&& a.deletes.contains(path) == b.deletes.contains(path)
}

/// Whether a cache differs from another at most in what it stages for the
/// paths of a set.
pub open spec fn changed_within(before: CacheView, after: CacheView, paths: Set<Seq<char>>) -> bool {
    &&& after.committed == before.committed
    &&& forall|p: Seq<char>| !(#[trigger] paths.contains(p)) ==> same_staging(before, after, p)
}

/// Whether the rows hold for a path what a commit of the cache leaves
/// there.
pub open spec fn settled_in(cache: CacheView, rows: Rows, path: Seq<char>) -> bool {
    if cache.adds.contains_key(path) {
        rows.contains_key(path) && rows[path] == cache.adds[path]
    } else if cache.deletes.contains(path) {
        !rows.contains_key(path)
    } else {
        &&& rows.contains_key(path) == cache.committed.contains_key(path)
        &&& rows.contains_key(path) ==> rows[path] == cache.committed[path]
    }
}

/// Whether a cache stages nothing for the paths of a set.
pub open spec fn untouched(cache: CacheView, paths: Set<Seq<char>>) -> bool {
    forall|p: Seq<char>| #[trigger]
        paths.contains(p) ==> !cache.adds.contains_key(p) && !cache.deletes.contains(p)
}

/// Whether the rows hold, for every path of a set, what a commit of the
/// cache leaves there.
pub open spec fn all_settled(cache: CacheView, rows: Rows, paths: Set<Seq<char>>) -> bool {
    forall|p: Seq<char>| #[trigger] paths.contains(p) ==> settled_in(cache, rows, p)
}

/// A cache that holds the rows with nothing staged.
pub open spec fn committed_only(rows: Rows) -> CacheView {
    CacheView { committed: rows, adds: Map::empty(), add_order: Seq::empty(), deletes: Seq::empty() }
}

/// Staging a deletion changes the staging of its path alone.
pub proof fn lemma_stage_delete_frame(cache: CacheView, path: Seq<char>)
    ensures
        changed_within(cache, cache.stage_delete(path), set![path]),
        cache.stage_delete(path).adds == cache.adds,
        cache.adds.contains_key(path) ==> cache.stage_delete(path) == cache,
        !cache.adds.contains_key(path) ==> cache.stage_delete(path).deletes.contains(path),
{
    let after = cache.stage_delete(path);
    if !cache.adds.contains_key(path) {
        assert(after.deletes[cache.deletes.len() as int] == path);
        assert forall|p: Seq<char>| !(#[trigger] set![path].contains(p)) implies same_staging(
            cache,
            after,
            p,
        ) by {
            if after.deletes.contains(p) {
                let i = choose|i: int| 0 <= i < after.deletes.len() && after.deletes[i] == p;
                assert(cache.deletes[i] == p);
            }
            if cache.deletes.contains(p) {
                let i = choose|i: int| 0 <= i < cache.deletes.len() && cache.deletes[i] == p;
                assert(after.deletes[i] == p);
            }
        }
    }
}

/// Staging an insertion changes the staging of its path alone, and leaves
/// the path staged for insertion and not for deletion.
pub proof fn lemma_stage_add_frame(cache: CacheView, path: Seq<char>, row: CacheRow)
    ensures
        changed_within(cache, cache.stage_add(path, row), set![path]),
        cache.stage_add(path, row).adds.contains_key(path),
        cache.stage_add(path, row).adds[path] == row,
        !cache.stage_add(path, row).deletes.contains(path),
{
    let after = cache.stage_add(path, row);
    lemma_without_contains(cache.deletes, path, path);
    assert forall|p: Seq<char>| !(#[trigger] set![path].contains(p)) implies same_staging(
        cache,
        after,
        p,
    ) by {
        lemma_without_contains(cache.deletes, path, p);
    }
}

/// Fingerprinting a file keeps the cache well formed and changes the
/// staging of the file's path alone.
pub proof fn lemma_fingerprint_frame(file: FileListing, walk: Walk)
    requires
        walk.cache.wf(),
    ensures
        fingerprint_step(file, walk).1.cache.wf(),
        changed_within(walk.cache, fingerprint_step(file, walk).1.cache, set![file.path@]),
{
    let path = file.path@;
    let found = walk.cache.lookup(path);
    if !(found is Some && found->0.size == file.size) {
        let cache = if found is Some {
            walk.cache.stage_delete(path)
        } else {
            walk.cache
        };
        lemma_stage_delete_frame(walk.cache, path);
        lemma_stage_delete_wf(walk.cache, path);
        match file.digest {
            Some(digest) => {
                let row = CacheRow {
                    size: file.size,
                    id: id_of_digest(digest),
                };
                lemma_stage_add_frame(cache, path, row);
                lemma_stage_add_wf(cache, path, row);
            },
            None => {},
        }
    }
}

/// Scanning one entry keeps the cache well formed and changes the staging
/// of the entry's video paths alone.
pub proof fn lemma_scan_entry_frame(entry: EntryListing, at: (FolderView, Walk))
    requires
        at.1.cache.wf(),
    ensures
        scan_entry(entry, at).1.cache.wf(),
        changed_within(at.1.cache, scan_entry(entry, at).1.cache, entry_paths(entry)),
    decreases entry, 0nat,
{
    match entry {
        EntryListing::File(file) => {
            if is_video_file(file.name@, file.openable, file.has_video_stream) {
                lemma_fingerprint_frame(file, at.1);
            }
        },
        EntryListing::Dir(dir) => {
            if !dir.hidden {
                lemma_read_dir_frame(
                    dir,
                    (FolderView::fresh(
                        dir.path@,
                        folder_name_of(dir.path@, dir.name),
                        at.0.depth + 1,
                    ), at.1),
                );
            }
        },
    }
}

/// Scanning entries keeps the cache well formed and changes the staging of
/// their video paths alone.
pub proof fn lemma_scan_entries_frame(entries: Seq<EntryListing>, at: (FolderView, Walk))
    requires
        at.1.cache.wf(),
    ensures
        scan_entries(entries, at).1.cache.wf(),
        changed_within(at.1.cache, scan_entries(entries, at).1.cache, entries_paths(entries)),
    decreases entries, 0nat,
{
    if entries.len() > 0 {
        let mid = scan_entries(entries.drop_last(), at);
        lemma_scan_entries_frame(entries.drop_last(), at);
        lemma_scan_entry_frame(entries.last(), mid);
        let after = scan_entry(entries.last(), mid).1.cache;
        assert forall|p: Seq<char>| !(#[trigger] entries_paths(entries).contains(p)) implies same_staging(
            at.1.cache,
            after,
            p,
        ) by {
            assert(!entries_paths(entries.drop_last()).contains(p));
            assert(!entry_paths(entries.last()).contains(p));
            assert(same_staging(at.1.cache, mid.1.cache, p));
            assert(same_staging(mid.1.cache, after, p));
        }
    }
}

/// Reading a directory keeps the cache well formed and changes the staging
/// of its video paths alone.
pub proof fn lemma_read_dir_frame(dir: DirListing, at: (FolderView, Walk))
    requires
        at.1.cache.wf(),
    ensures
        read_dir(dir, at).1.cache.wf(),
        changed_within(at.1.cache, read_dir(dir, at).1.cache, dir_paths(dir)),
    decreases dir, 0nat,
{
    match dir.entries {
        Some(entries) => {
            let start = (
                at.0,
                Walk {
                    cache: at.1.cache,
                    log: at.1.log.emit(
                        ProgressView::folder_marker(
                            at.0.path,
                            video_count(entries@) as usize,
                        ),
                    ),
                },
            );
            lemma_scan_entries_frame(entries@, start);
        },
        None => {},
    }
}

/// Whether a second scan, over rows with nothing staged, repeats a first:
/// it makes the same folder, stages nothing and fingerprints nothing.
pub open spec fn repeats(first: (FolderView, Walk), again: (FolderView, Walk), rows: Rows, log: LogView) -> bool {
    &&& again.0 == first.0
    &&& again.1.cache == committed_only(rows)
    &&& again.1.log.fingerprinted == log.fingerprinted
}

/// A file whose path has nothing staged is fingerprinted the same over the
/// rows that the cache's commit leaves at the path, without staging or a
/// fresh digest.
pub proof fn lemma_fingerprint_repeats(file: FileListing, walk: Walk, rows: Rows, log: LogView)
    requires
        walk.cache.wf(),
        !walk.cache.adds.contains_key(file.path@),
        !walk.cache.deletes.contains(file.path@),
        settled_in(fingerprint_step(file, walk).1.cache, rows, file.path@),
    ensures
        fingerprint_step(file, Walk::of(committed_only(rows), log)).0 == fingerprint_step(
            file,
            walk,
        ).0,
        fingerprint_step(file, Walk::of(committed_only(rows), log)).1 == Walk::of(
            committed_only(rows),
            log,
        ),
{
    let path = file.path@;
    let found = walk.cache.lookup(path);
    if !(found is Some && found->0.size == file.size) {
        let cache = if found is Some {
            walk.cache.stage_delete(path)
        } else {
            walk.cache
        };
        lemma_stage_delete_frame(walk.cache, path);
        match file.digest {
            Some(digest) => {
                let row = CacheRow {
                    size: file.size,
                    id: id_of_digest(digest),
                };
                lemma_stage_add_frame(cache, path, row);
            },
            None => {},
        }
    }
}

/// One entry is scanned the same a second time.
pub proof fn lemma_scan_entry_repeats(
    entry: EntryListing,
    at: (FolderView, Walk),
    rows: Rows,
    log: LogView,
)
    requires
        at.1.cache.wf(),
        entry_distinct(entry),
        untouched(at.1.cache, entry_paths(entry)),
        all_settled(scan_entry(entry, at).1.cache, rows, entry_paths(entry)),
    ensures
        repeats(
            scan_entry(entry, at),
            scan_entry(entry, (at.0, Walk::of(committed_only(rows), log))),
            rows,
            log,
        ),
    decreases entry, 0nat,
{
    match entry {
        EntryListing::File(file) => {
            if is_video_file(file.name@, file.openable, file.has_video_stream) {
                assert(entry_paths(entry).contains(file.path@));
                lemma_fingerprint_repeats(file, at.1, rows, log);
            }
        },
        EntryListing::Dir(dir) => {
            if !dir.hidden {
                let start = FolderView::fresh(
                        dir.path@,
                        folder_name_of(dir.path@, dir.name),
                        at.0.depth + 1,
                    );
                lemma_read_dir_repeats(dir, (start, at.1), rows, log);
            }
        },
    }
}

/// Entries are scanned the same a second time.
pub proof fn lemma_scan_entries_repeats(
    entries: Seq<EntryListing>,
    at: (FolderView, Walk),
    rows: Rows,
    log: LogView,
)
    requires
        at.1.cache.wf(),
        entries_distinct(entries),
        untouched(at.1.cache, entries_paths(entries)),
        all_settled(scan_entries(entries, at).1.cache, rows, entries_paths(entries)),
    ensures
        repeats(
            scan_entries(entries, at),
            scan_entries(entries, (at.0, Walk::of(committed_only(rows), log))),
            rows,
            log,
        ),
    decreases entries, 0nat,
{
    if entries.len() > 0 {
        let rest = entries.drop_last();
        let last = entries.last();
        let mid = scan_entries(rest, at);
        let end = scan_entry(last, mid);
        lemma_scan_entries_frame(rest, at);
        lemma_scan_entry_frame(last, mid);
        assert forall|p: Seq<char>| #[trigger] entries_paths(rest).contains(p) implies settled_in(
            mid.1.cache,
            rows,
            p,
        ) by {
            assert(entries_paths(entries).contains(p));
            assert(!entry_paths(last).contains(p));
            assert(same_staging(mid.1.cache, end.1.cache, p));
            assert(settled_in(end.1.cache, rows, p));
        }
        assert forall|p: Seq<char>| #[trigger]
            entries_paths(rest).contains(p) implies !at.1.cache.adds.contains_key(p)
            && !at.1.cache.deletes.contains(p) by {
            assert(entries_paths(entries).contains(p));
        }
        lemma_scan_entries_repeats(rest, at, rows, log);
        let again_mid = scan_entries(rest, (at.0, Walk::of(committed_only(rows), log)));
        assert forall|p: Seq<char>| #[trigger]
            entry_paths(last).contains(p) implies !mid.1.cache.adds.contains_key(p)
            && !mid.1.cache.deletes.contains(p) by {
            assert(entries_paths(entries).contains(p));
            assert(!entries_paths(rest).contains(p));
            assert(same_staging(at.1.cache, mid.1.cache, p));
        }
        assert forall|p: Seq<char>| #[trigger] entry_paths(last).contains(p) implies settled_in(
            end.1.cache,
            rows,
            p,
        ) by {
            assert(entries_paths(entries).contains(p));
        }
        lemma_scan_entry_repeats(last, mid, rows, again_mid.1.log);
        assert(again_mid == (mid.0, Walk::of(committed_only(rows), again_mid.1.log)));
    }
}

/// A directory is read the same a second time.
pub proof fn lemma_read_dir_repeats(
    dir: DirListing,
    at: (FolderView, Walk),
    rows: Rows,
    log: LogView,
)
    requires
        at.1.cache.wf(),
        dir_distinct(dir),
        untouched(at.1.cache, dir_paths(dir)),
        all_settled(read_dir(dir, at).1.cache, rows, dir_paths(dir)),
    ensures
        repeats(
            read_dir(dir, at),
            read_dir(dir, (at.0, Walk::of(committed_only(rows), log))),
            rows,
            log,
        ),
    decreases dir, 0nat,
{
    match dir.entries {
        Some(entries) => {
            let marker = ProgressView::folder_marker(
                at.0.path,
                video_count(entries@) as usize,
            );
            let start = (at.0, Walk { cache: at.1.cache, log: at.1.log.emit(marker) });
            lemma_scan_entries_repeats(entries@, start, rows, log.emit(marker));
        },
        None => {},
    }
}

/// A commit leaves at every path what the cache staged for it.
pub proof fn lemma_commit_settles(cache: CacheView, path: Seq<char>)
    requires
        cache.wf(),
    ensures
        settled_in(cache, cache.commit().committed, path),
        cache.commit() == committed_only(cache.commit().committed),
{
}

/// Idempotent rescanning: where a scan starts with nothing staged for the
/// video files that it reaches, over a tree in which each video file has a
/// path of its own, and is committed, a second scan of the same tree makes
/// the same tree, with the same identifiers, and takes every identifier from
/// the cache: it fingerprints nothing and stages nothing.
pub proof fn lemma_rescan_is_idempotent(
    path: Seq<char>,
    dir: DirListing,
    cache: CacheView,
    log: LogView,
    later: LogView,
)
    requires
        cache.wf(),
        untouched(cache, dir_paths(dir)),
        dir_distinct(dir),
    ensures
        ({
            let first = scan_root(path, dir, Walk::of(cache, log));
            let again = scan_root(path, dir, Walk::of(first.1.cache.commit(), later));
            &&& again.0 == first.0
            &&& again.1.log.fingerprinted == later.fingerprinted
            &&& again.1.cache == first.1.cache.commit()
        }),
{
    let start = FolderView::fresh(path, folder_name_of(path, dir.name), 0);
    let first = read_dir(dir, (start, Walk::of(cache, log)));
    lemma_read_dir_frame(dir, (start, Walk::of(cache, log)));
    let rows = first.1.cache.commit().committed;
    assert forall|p: Seq<char>| #[trigger] dir_paths(dir).contains(p) implies settled_in(
        first.1.cache,
        rows,
        p,
    ) by {
        lemma_commit_settles(first.1.cache, p);
    }
    lemma_commit_settles(first.1.cache, path);
    lemma_read_dir_repeats(dir, (start, Walk::of(cache, log)), rows, later);
}

/// What a file's digest is does not matter where the cache has a row of its
/// path and size: the identifier is the row's, and nothing changes.
pub proof fn lemma_hit_ignores_digest(file: FileListing, other: FileListing, walk: Walk)
    requires
        other.path == file.path,
        other.size == file.size,
        walk.cache.lookup(file.path@) is Some,
        walk.cache.lookup(file.path@)->0.size == file.size,
    ensures
        fingerprint_step(file, walk) == fingerprint_step(other, walk),
        fingerprint_step(file, walk).1 == walk,
        fingerprint_step(file, walk).0 == Some(walk.cache.lookup(file.path@)->0.id),
{
}

/// Size-change invalidation: where the cache finds a row of a file's path
/// with another size than the file has now, and the file's digest was read,
/// the identifier is made from the digest, and the row of the new size and
/// identifier is what lookups find from then on, before the commit and
/// after it.
pub proof fn lemma_size_change_invalidates(file: FileListing, walk: Walk)
    requires
        walk.cache.wf(),
        walk.cache.lookup(file.path@) is Some,
        walk.cache.lookup(file.path@)->0.size != file.size,
        file.digest is Some,
    ensures
        ({
            let row = CacheRow { size: file.size, id: id_of_digest(file.digest->0) };
            let step = fingerprint_step(file, walk);
            &&& step.0 == Some(row.id)
            &&& step.1.cache.lookup(file.path@) == Some(row)
            &&& step.1.cache.commit().lookup(file.path@) == Some(row)
            &&& step.1.log.fingerprinted == walk.log.fingerprinted.push(file.path@)
        }),
{
    let path = file.path@;
    let row = CacheRow { size: file.size, id: id_of_digest(file.digest->0) };
    let staged = walk.cache.stage_delete(path);
    lemma_stage_delete_wf(walk.cache, path);
    lemma_stage_add_frame(staged, path, row);
    lemma_stage_add_wf(staged, path, row);
    lemma_commit_settles(staged.stage_add(path, row), path);
}

} // verus!
