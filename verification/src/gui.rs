//! The requests of a user interface, decided on plain values.

use vstd::prelude::*;
use crate::filescan::{
    depth_fits,
    lemma_merged_wf,
    lemma_scan_root_wf,
    scan_root,
    DirListing,
    FileScan,
    FolderInfo,
    FolderView,
    VideoFile,
    VideoFileView,
    Walk,
};
use crate::progress::ScanLog;
use crate::service::{wrap_canceled, wrap_failure, wrap_success, Response, ResponseType};
use crate::state::{lemma_stage_delete_wf, writes_of, CacheView, StoreWrite, VideoCache};
use crate::text::{same_text, texts_of};
use crate::video::{Entries, EntryView, VideoEntry, VideoTable};

verus! {

/// Scans one root path and lays the known entries over the tree. Without a
/// listing the path is no directory, and the answer is a failure.
pub fn file_scan(
    path: String,
    listing: Option<&DirListing>,
    cache: &mut VideoCache,
    x: &VideoTable,
    emitter: &mut ScanLog,
) -> (answer: Result<Response<FolderInfo>, ()>)
    requires
        old(cache).wf(),
        listing is Some ==> depth_fits(*listing->0, 0),
    ensures
        final(cache).wf(),
        answer is Ok,
        listing is None ==> answer->Ok_0.is_failure_of("Invalid path"@),
        listing is None ==> final(cache)@ == old(cache)@ && final(emitter)@ == old(emitter)@,
        listing is Some ==> answer->Ok_0.result == ResponseType::Success,
        listing is Some ==> answer->Ok_0.error is None && answer->Ok_0.response is Some,
        listing is Some ==> answer->Ok_0.response->0@ == scan_root(
            path@,
            *listing->0,
            Walk::of(old(cache)@, old(emitter)@),
        ).0.merged(x@),
        listing is Some ==> Walk::of(final(cache)@, final(emitter)@) == scan_root(
            path@,
            *listing->0,
            Walk::of(old(cache)@, old(emitter)@),
        ).1,
        listing is Some ==> answer->Ok_0.response->0@.wf(),
        listing is Some ==> answer->Ok_0.response->0@.depth == 0,
        listing is Some ==> answer->Ok_0.response->0@.path == path@,
{
    proof {
        if listing is Some {
            let walk = Walk::of(old(cache)@, old(emitter)@);
            lemma_scan_root_wf(path@, *listing->0, walk);
            lemma_merged_wf(scan_root(path@, *listing->0, walk).0, x@);
        }
    }
    let mut scan = FileScan::new(path);
    let result = scan.run(listing, cache, emitter);
    let response = match result {
        Ok(mut folder_info) => {
            folder_info.add_meta(x);
            wrap_success(folder_info)
        },
        Err(error) => wrap_failure(error.message()),
    };
    Ok(response)
}

/// One root to scan: its path, and its listing where it is a directory.
pub struct ScanRoot {
    pub path: String,
    pub listing: Option<DirListing>,
}

/// Whether the levels of every listed root fit a `usize`.
pub open spec fn roots_fit(roots: Seq<ScanRoot>) -> bool {
    forall|i: int|
        0 <= i < roots.len() ==> ((#[trigger] roots[i]).listing is Some ==> depth_fits(
            roots[i].listing->0,
            0,
        ))
}

/// The trees of the roots that are directories, in order, each with the
/// known entries laid over it, and the cache and log after all scans.
pub open spec fn scan_roots(roots: Seq<ScanRoot>, known: Entries, walk: Walk) -> (
    Seq<FolderView>,
    Walk,
)
    decreases roots.len(),
{
    if roots.len() == 0 {
        (Seq::empty(), walk)
    } else {
        let before = scan_roots(roots.drop_last(), known, walk);
        let root = roots.last();
        match root.listing {
            Some(listing) => {
                let scanned = scan_root(root.path@, listing, before.1);
                (before.0.push(scanned.0.merged(known)), scanned.1)
            },
            None => before,
        }
    }
}

/// Every tree of a scan of roots is well formed, with its root at level
/// zero.
pub proof fn lemma_scan_roots_wf(roots: Seq<ScanRoot>, known: Entries, walk: Walk)
    ensures
        forall|i: int|
            0 <= i < scan_roots(roots, known, walk).0.len() ==> {
                &&& (#[trigger] scan_roots(roots, known, walk).0[i]).wf()
                &&& scan_roots(roots, known, walk).0[i].depth == 0
            },
    decreases roots.len(),
{
    if roots.len() > 0 {
        let before = scan_roots(roots.drop_last(), known, walk);
        lemma_scan_roots_wf(roots.drop_last(), known, walk);
        let root = roots.last();
        if root.listing is Some {
            lemma_scan_root_wf(root.path@, root.listing->0, before.1);
            lemma_merged_wf(scan_root(root.path@, root.listing->0, before.1).0, known);
        }
    }
}

/// The values of a list of folders.
pub open spec fn views_of(folders: Seq<FolderInfo>) -> Seq<FolderView> {
    Seq::new(folders.len(), |i: int| folders[i]@)
}

/// Scans every root and lays the known entries over each tree. A root that
/// is no directory is passed over.
pub fn get_folders(
    folders: &Vec<ScanRoot>,
    cache: &mut VideoCache,
    entries: &VideoTable,
    emitter: &mut ScanLog,
) -> (answer: Result<Response<Vec<FolderInfo>>, ()>)
    requires
        old(cache).wf(),
        roots_fit(folders@),
    ensures
        final(cache).wf(),
        answer is Ok,
        answer->Ok_0.result == ResponseType::Success,
        answer->Ok_0.error is None && answer->Ok_0.response is Some,
        views_of(answer->Ok_0.response->0@) == scan_roots(
            folders@,
            entries@,
            Walk::of(old(cache)@, old(emitter)@),
        ).0,
        Walk::of(final(cache)@, final(emitter)@) == scan_roots(
            folders@,
            entries@,
            Walk::of(old(cache)@, old(emitter)@),
        ).1,
        forall|i: int|
            0 <= i < answer->Ok_0.response->0@.len() ==> {
                &&& (#[trigger] answer->Ok_0.response->0@[i])@.wf()
                &&& answer->Ok_0.response->0@[i]@.depth == 0
            },
{
    let ghost start = Walk::of(cache@, emitter@);
    let mut folder_infos: Vec<FolderInfo> = Vec::new();
    let mut i: usize = 0;
    assert(views_of(folder_infos@) =~= Seq::empty());
    while i < folders.len()
        invariant
            i <= folders.len(),
            cache.wf(),
            roots_fit(folders@),
            views_of(folder_infos@) == scan_roots(folders@.take(i as int), entries@, start).0,
            Walk::of(cache@, emitter@) == scan_roots(folders@.take(i as int), entries@, start).1,
        decreases folders.len() - i,
    {
        proof {
            assert(folders@.take(i + 1).drop_last() =~= folders@.take(i as int));
            assert(folders@.take(i + 1).last() == folders@[i as int]);
        }
        let ghost before = views_of(folder_infos@);
        let root = &folders[i];
        let mut scan = FileScan::new(root.path.clone());
        let listing: Option<&DirListing> = match &root.listing {
            Some(listing) => Some(listing),
            None => None,
        };
        let folder_scan = scan.run(listing, cache, emitter);
        if let Ok(mut folder_info) = folder_scan {
            folder_info.add_meta(entries);
            folder_infos.push(folder_info);
            assert(views_of(folder_infos@) =~= before.push(folder_info@));
        }
        i = i + 1;
    }
    assert(folders@.take(i as int) =~= folders@);
    proof {
        lemma_scan_roots_wf(folders@, entries@, start);
        let trees = scan_roots(folders@, entries@, start).0;
        assert forall|k: int| 0 <= k < folder_infos@.len() implies {
            &&& (#[trigger] folder_infos@[k])@.wf()
            &&& folder_infos@[k]@.depth == 0
        } by {
            assert(views_of(folder_infos@)[k] == trees[k]);
        }
    }
    Ok(wrap_success(folder_infos))
}

/// The answer to the choice of a folder: the chosen path, or a cancellation
/// where none was chosen.
pub fn select_folder(chosen: Option<String>) -> (answer: Result<Response<String>, ()>)
    ensures
        answer is Ok,
        match chosen {
            Some(path) => answer->Ok_0.is_success_of(path),
            None => answer->Ok_0.is_canceled(),
        },
{
    let response = match chosen {
        Some(path) => wrap_success(path),
        None => wrap_canceled(),
    };
    Ok(response)
}

/// The entry made for a video that has none yet: under the file's name,
/// unrated, without notes, not watched.
pub open spec fn first_entry(name: Seq<char>) -> EntryView {
    EntryView { name, rating: 0, notes: Seq::empty(), watched: false, category: None }
}

/// What a lookup of a video's entry gives.
pub struct VideoLookup {
    /// The answer: the video with its entry attached.
    pub response: Response<VideoFile>,
    /// The entry that was made because none was known; it is yet to be
    /// written to the store, under `id`.
    pub created: Option<VideoEntry>,
}

/// Attaches to a video the entry known of its identifier. Where none is
/// known, one is made first and put into the table; it is handed back so
/// that it can be stored.
pub fn get_video(video: &mut VideoFile, videos: &mut VideoTable) -> (found: VideoLookup)
    ensures
        found.response.result == ResponseType::Success,
        found.response.error is None && found.response.response is Some,
        found.response.response->0@ == final(video)@,
        old(videos)@.contains_key(old(video)@.id) ==> {
            &&& found.created is None
            &&& final(videos)@ == old(videos)@
            &&& final(video)@ == (VideoFileView {
                video: Some(old(videos)@[old(video)@.id]),
                ..old(video)@
            })
        },
        !old(videos)@.contains_key(old(video)@.id) ==> {
            &&& found.created is Some
            &&& found.created->0@ == first_entry(old(video)@.name)
            &&& final(videos)@ == old(videos)@.insert(
                old(video)@.id,
                first_entry(old(video)@.name),
            )
            &&& final(video)@ == (VideoFileView {
                video: Some(first_entry(old(video)@.name)),
                ..old(video)@
            })
        },
{
    let mut created: Option<VideoEntry> = None;
    let known: Option<VideoEntry> = match videos.get(video.id()) {
        Some(e) => Some(e.clone()),
        None => None,
    };
    let e: VideoEntry = match known {
        Some(e) => e,
        None => {
            let new_video = VideoEntry::new(video.name().to_owned(), 0, String::new(), false);
            videos.insert(video.id().to_owned(), new_video.clone());
            created = Some(new_video.clone());
            new_video
        },
    };
    video.set_video(Some(e));
    VideoLookup { response: wrap_success(video.clone()), created }
}

/// What an update of an entry gives.
pub struct EntryUpdate<T> {
    /// The answer: a success with the new value, whether an entry is known
    /// or not.
    pub response: Response<T>,
    /// Whether an entry is known of the video: only then was the table
    /// changed, and only then is the store to be written.
    pub stored: bool,
}

/// The table after the entry of an identifier is replaced, where it has
/// one.
pub open spec fn with_entry(known: Entries, id: Seq<char>, entry: EntryView) -> Entries {
    if known.contains_key(id) {
        known.insert(id, entry)
    } else {
        known
    }
}

/// Sets the rating of a video's entry.
pub fn update_rating(videos: &mut VideoTable, video: &VideoFile, new_rating: usize) -> (done:
    EntryUpdate<usize>)
    ensures
        done.response.is_success_of(new_rating),
        done.stored == old(videos)@.contains_key(video@.id),
        done.stored ==> final(videos)@ == old(videos)@.insert(
            video@.id,
            (EntryView { rating: new_rating, ..old(videos)@[video@.id] }),
        ),
        !done.stored ==> final(videos)@ == old(videos)@,
{
    let known: Option<VideoEntry> = match videos.get(video.id()) {
        Some(e) => Some(e.clone()),
        None => None,
    };
    let stored: bool = match known {
        Some(mut v) => {
            v.set_rating(new_rating);
            videos.insert(video.id().to_owned(), v);
            true
        },
        None => false,
    };
    EntryUpdate { response: wrap_success(new_rating), stored }
}

/// Sets the watched flag of a video's entry.
pub fn update_watched(videos: &mut VideoTable, video: &VideoFile, watched: bool) -> (done:
    EntryUpdate<bool>)
    ensures
        done.response.is_success_of(watched),
        done.stored == old(videos)@.contains_key(video@.id),
        done.stored ==> final(videos)@ == old(videos)@.insert(
            video@.id,
            (EntryView { watched: watched, ..old(videos)@[video@.id] }),
        ),
        !done.stored ==> final(videos)@ == old(videos)@,
{
    let known: Option<VideoEntry> = match videos.get(video.id()) {
        Some(e) => Some(e.clone()),
        None => None,
    };
    let stored: bool = match known {
        Some(mut v) => {
            v.set_watched(watched);
            videos.insert(video.id().to_owned(), v);
            true
        },
        None => false,
    };
    EntryUpdate { response: wrap_success(watched), stored }
}

/// Sets the name of a video's entry.
pub fn update_name(v: &mut VideoTable, f: &VideoFile, n: &str) -> (done: EntryUpdate<String>)
    ensures
        done.response.result == ResponseType::Success,
        done.response.error is None && done.response.response is Some,
        done.response.response->0@ == n@,
        done.stored == old(v)@.contains_key(f@.id),
        done.stored ==> final(v)@ == old(v)@.insert(
            f@.id,
            (EntryView { name: n@, ..old(v)@[f@.id] }),
        ),
        !done.stored ==> final(v)@ == old(v)@,
{
    let known: Option<VideoEntry> = match v.get(f.id()) {
        Some(e) => Some(e.clone()),
        None => None,
    };
    let stored: bool = match known {
        Some(mut e) => {
            e.set_name(n.to_owned());
            v.insert(f.id().to_owned(), e);
            true
        },
        None => false,
    };
    EntryUpdate { response: wrap_success(n.to_owned()), stored }
}

/// Sets the notes of a video's entry.
pub fn update_notes(v: &mut VideoTable, f: &VideoFile, n: &str) -> (done: EntryUpdate<String>)
    ensures
        done.response.result == ResponseType::Success,
        done.response.error is None && done.response.response is Some,
        done.response.response->0@ == n@,
        done.stored == old(v)@.contains_key(f@.id),
        done.stored ==> final(v)@ == old(v)@.insert(
            f@.id,
            (EntryView { notes: n@, ..old(v)@[f@.id] }),
        ),
        !done.stored ==> final(v)@ == old(v)@,
{
    let known: Option<VideoEntry> = match v.get(f.id()) {
        Some(e) => Some(e.clone()),
        None => None,
    };
    let stored: bool = match known {
        Some(mut e) => {
            e.set_notes(n.to_owned());
            v.insert(f.id().to_owned(), e);
            true
        },
        None => false,
    };
    EntryUpdate { response: wrap_success(n.to_owned()), stored }
}

/// Whether a path is one of the managed paths; where these could not be
/// read, the failure with the store's message.
pub fn validate_path(paths: Result<Vec<String>, String>, path: &str) -> (valid: Result<
    bool,
    Response<bool>,
>)
    ensures
        match paths {
            Ok(paths) => valid == Ok::<bool, Response<bool>>(
                texts_of(paths@).contains(path@),
            ),
            Err(message) => valid is Err && valid->Err_0.is_failure_of(message@),
        },
{
    match paths {
        Ok(paths) => {
            let mut i: usize = 0;
            let mut found: bool = false;
            while i < paths.len() && !found
                invariant
                    i <= paths.len(),
                    found ==> texts_of(paths@).contains(path@),
                    !found ==> forall|k: int|
                        0 <= k < i ==> texts_of(paths@)[k] != path@,
                decreases paths.len() - i + if found { 0int } else { 1int },
            {
                if same_text(paths[i].as_str(), path) {
                    assert(texts_of(paths@)[i as int] == path@);
                    found = true;
                } else {
                    i = i + 1;
                }
            }
            Ok(found)
        },
        Err(message) => Err(wrap_failure(message)),
    }
}

/// The cache after the deletion of each path is staged, first to last.
pub open spec fn stage_deletes(cache: CacheView, paths: Seq<Seq<char>>) -> CacheView
    decreases paths.len(),
{
    if paths.len() == 0 {
        cache
    } else {
        stage_deletes(cache, paths.drop_last()).stage_delete(paths.last())
    }
}

/// Staging deletions keeps a cache well formed.
pub proof fn lemma_stage_deletes_wf(cache: CacheView, paths: Seq<Seq<char>>)
    requires
        cache.wf(),
    ensures
        stage_deletes(cache, paths).wf(),
    decreases paths.len(),
{
    if paths.len() > 0 {
        lemma_stage_deletes_wf(cache, paths.drop_last());
        lemma_stage_delete_wf(stage_deletes(cache, paths.drop_last()), paths.last());
    }
}

/// What the removal of a managed path gives.
pub struct PathRemoval {
    pub response: Response<bool>,
    /// The writes for the store's fingerprint rows.
    pub writes: Vec<StoreWrite>,
}

/// Forgets the fingerprints below a managed path that was removed. `cached`
/// holds the paths of the store's rows below it. Their deletion is staged
/// and committed. Where the rows could not be read, nothing is staged, and
/// the answer is the failure with the store's message.
pub fn delete_path(cache: &mut VideoCache, cached: Result<Vec<String>, String>) -> (removed:
    PathRemoval)
    requires
        old(cache).wf(),
    ensures
        final(cache).wf(),
        match cached {
            Ok(paths) => {
                let staged = stage_deletes(old(cache)@, texts_of(paths@));
                &&& removed.response.is_success_of(true)
                &&& final(cache)@ == staged.commit()
                &&& writes_of(removed.writes@) == staged.pending_writes()
            },
            Err(message) => {
                &&& removed.response.is_failure_of(message@)
                &&& final(cache)@ == old(cache)@
                &&& removed.writes@.len() == 0
            },
        },
{
    match cached {
        Ok(paths) => {
            let mut i: usize = 0;
            let ghost texts = texts_of(paths@);
            while i < paths.len()
                invariant
                    i <= paths.len(),
                    cache.wf(),
                    texts == texts_of(paths@),
                    cache@ == stage_deletes(old(cache)@, texts.take(i as int)),
                decreases paths.len() - i,
            {
                proof {
                    assert(texts.take(i + 1).drop_last() =~= texts.take(i as int));
                }
                cache.delete_video(paths[i].as_str());
                i = i + 1;
            }
            assert(texts.take(i as int) =~= texts);
            let writes = cache.commit();
            PathRemoval { response: wrap_success(true), writes }
        },
        Err(message) => PathRemoval { response: wrap_failure(message), writes: Vec::new() },
    }
}

/// The path to open for a video, where it is a regular file; else the
/// failure to answer with.
pub fn open_video(v: &VideoFile, is_file: bool) -> (path: Result<String, Response<()>>)
    ensures
        is_file ==> path is Ok && path->Ok_0@ == v@.path,
        !is_file ==> path is Err && path->Err_0.is_failure_of("File not found"@),
{
    if is_file {
        Ok(v.path().to_owned())
    } else {
        Err(wrap_failure("File not found".to_owned()))
    }
}

/// The answer after a video was handed to the system to open: a success, or
/// the failure with the message of the attempt.
pub fn video_opened(opened: Result<(), String>) -> (answer: Result<Response<()>, ()>)
    ensures
        answer is Ok,
        opened is Ok ==> answer->Ok_0.is_success_of(()),
        opened is Err ==> answer->Ok_0.is_failure_of(opened->Err_0@),
{
    match opened {
        Ok(_) => Ok(wrap_success(())),
        Err(e) => Ok(wrap_failure(e)),
    }
}

/// The name of the event that tells of a change of the watched flag of a
/// video or of a folder, by its identifier.
pub open spec fn watch_event_name(id: Seq<char>) -> Seq<char> {
    "update_watch_"@ + id
}

/// The name of the event that tells of a change of a watched flag.
pub fn watch_event(id: &str) -> (name: String)
    ensures
        name@ == watch_event_name(id@),
{
    let mut name: String = "update_watch_".to_owned();
    name.append(id);
    name
}

} // verus!
