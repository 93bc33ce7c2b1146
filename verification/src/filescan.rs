//! The folder scanner: from a listing of a directory tree and the
//! fingerprint cache to the tree of folders and video files.

use std::collections::hash_map::DefaultHasher;
use std::hash::Hasher;
use vstd::prelude::*;
use vstd::std_specs::hash::DefaultHasherAdditionalSpecFns;
use vstd::string::StringSliceAdditionalSpecFns;
use crate::fingerprint::{digest_id, id_of_digest};
use crate::progress::{EmitProgress, LogView, ProgressView, ScanLog};
use crate::state::{CacheRow, CacheView, VideoCache, VideoCacheItem};
use crate::text::{lower_hex, text_of_option, to_lower_hex};
use crate::video::{
    is_video,
    is_video_file,
    Entries,
    EntryView,
    VideoEntry,
    VideoTable,
};

verus! {

/// A video file in a scanned tree.
pub struct VideoFile {
    pub id: String,
    path: String,
    name: String,
    depth: usize,
    video: Option<VideoEntry>,
    watched: bool,
}

/// The mathematical value of a video file.
pub struct VideoFileView {
    pub id: Seq<char>,
    pub path: Seq<char>,
    pub name: Seq<char>,
    pub depth: nat,
    pub video: Option<EntryView>,
    pub watched: bool,
}

impl View for VideoFile {
    type V = VideoFileView;

    closed spec fn view(&self) -> VideoFileView {
        VideoFileView {
            id: self.id@,
            path: self.path@,
            name: self.name@,
            depth: self.depth as nat,
            video: match self.video {
                Some(entry) => Some(entry@),
                None => None,
            },
            watched: self.watched,
        }
    }
}

impl VideoFileView {
    /// A file as a scan makes it: no entry attached, not watched.
    pub open spec fn fresh(path: Seq<char>, name: Seq<char>, depth: nat, id: Seq<char>) -> VideoFileView {
        VideoFileView { id, path, name, depth, video: None, watched: false }
    }
}

/// A folder in a scanned tree.
pub struct FolderInfo {
    id: String,
    path: String,
    folders: Vec<FolderInfo>,
    videos: Vec<VideoFile>,
    name: String,
    empty: bool,
    depth: usize,
    watched: bool,
}

/// The mathematical value of a folder.
pub struct FolderView {
    pub id: Seq<char>,
    pub path: Seq<char>,
    pub folders: Seq<FolderView>,
    pub videos: Seq<VideoFileView>,
    pub name: Seq<char>,
    pub empty: bool,
    pub depth: nat,
    pub watched: bool,
}

/// The values of a sequence of folders.
pub closed spec fn folder_views(folders: Seq<FolderInfo>) -> Seq<FolderView>
    decreases folders,
{
    if folders.len() == 0 {
        Seq::empty()
    } else {
        folder_views(folders.drop_last()).push(folders.last().model())
    }
}

/// The values of a sequence of video files.
pub open spec fn video_views(videos: Seq<VideoFile>) -> Seq<VideoFileView> {
    Seq::new(videos.len(), |i: int| videos[i]@)
}

impl FolderInfo {
    /// The value of a folder.
    pub closed spec fn model(self) -> FolderView
        decreases self,
    {
        FolderView {
            id: self.id@,
            path: self.path@,
            folders: folder_views(self.folders@),
            videos: video_views(self.videos@),
            name: self.name@,
            empty: self.empty,
            depth: self.depth as nat,
            watched: self.watched,
        }
    }
}

impl View for FolderInfo {
    type V = FolderView;

    open spec fn view(&self) -> FolderView {
        self.model()
    }
}

/// The values of a sequence of folders, one by one.
pub proof fn lemma_folder_views(folders: Seq<FolderInfo>)
    ensures
        folder_views(folders).len() == folders.len(),
        forall|i: int| 0 <= i < folders.len() ==> folder_views(folders)[i] == (#[trigger] folders[i])@,
    decreases folders.len(),
{
    if folders.len() > 0 {
        lemma_folder_views(folders.drop_last());
        assert forall|i: int| 0 <= i < folders.len() implies folder_views(folders)[i] == (
        #[trigger] folders[i])@ by {
            if i < folders.len() - 1 {
                assert(folders.drop_last()[i] == folders[i]);
            }
        }
    }
}

/// The identifier of a folder: the lower-case hexadecimal text of the
/// default hasher's digest of the path's bytes.
pub open spec fn folder_id_of(path: Seq<char>) -> Seq<char> {
    lower_hex(DefaultHasher::spec_finish(seq![vstd::utf8::encode_utf8(path)]) as nat)
}

/// The name of the folder at a path: the last component of the path, or the
/// whole path where it has none (as the path of a file system's root).
pub open spec fn folder_name_of(path: Seq<char>, file_name: Option<String>) -> Seq<char> {
    match file_name {
        Some(name) => name@,
        None => path,
    }
}

/// The name of the folder at a path, from the path and its last component.
pub fn folder_name(path: &str, file_name: Option<String>) -> (name: String)
    ensures
        name@ == folder_name_of(path@, file_name),
{
    match file_name {
        Some(name) => name,
        None => path.to_owned(),
    }
}

/// A copy of an optional string.
pub fn copy_name(name: &Option<String>) -> (copy: Option<String>)
    ensures
        copy == *name,
{
    match name {
        Some(name) => Some(name.clone()),
        None => None,
    }
}

impl FolderView {
    /// A folder as `FolderInfo::new` makes it.
    pub open spec fn fresh(path: Seq<char>, name: Seq<char>, depth: nat) -> FolderView {
        FolderView {
            id: folder_id_of(path),
            path,
            folders: Seq::empty(),
            videos: Seq::empty(),
            name,
            empty: true,
            depth,
            watched: false,
        }
    }

    /// The folder with one more child folder.
    pub open spec fn push_folder(self, folder: FolderView) -> FolderView {
        FolderView { folders: self.folders.push(folder), empty: false, ..self }
    }

    /// The folder with one more video.
    pub open spec fn push_video(self, video: VideoFileView) -> FolderView {
        FolderView { videos: self.videos.push(video), empty: false, ..self }
    }

    /// The invariant of a tree: in every folder `empty` says that there are
    /// neither child folders nor videos, every child folder is one level
    /// deeper than its parent, and every video is at its folder's level.
    pub open spec fn wf(self) -> bool
        decreases self,
    {
        &&& self.empty == (self.folders.len() == 0 && self.videos.len() == 0)
        &&& forall|i: int| 0 <= i < self.videos.len() ==> (#[trigger] self.videos[i]).depth == self.depth
        &&& forall|i: int|
            0 <= i < self.folders.len() ==> {
                &&& (#[trigger] self.folders[i]).depth == self.depth + 1
                &&& self.folders[i].wf()
            }
    }
}

/// The identifier of a folder.
pub fn folder_id(path: &str) -> (id: String)
    ensures
        id@ == folder_id_of(path@),
{
    let mut hasher = DefaultHasher::new();
    hasher.write(path.as_bytes());
    assert(hasher@ =~= seq![vstd::utf8::encode_utf8(path@)]);
    to_lower_hex(hasher.finish())
}

impl VideoFile {
    /// A video file of the given parts.
    pub fn from_parts(
        id: String,
        path: String,
        name: String,
        depth: usize,
        video: Option<VideoEntry>,
        watched: bool,
    ) -> (file: Self)
        ensures
            file@ == (VideoFileView {
                id: id@,
                path: path@,
                name: name@,
                depth: depth as nat,
                video: match video {
                    Some(entry) => Some(entry@),
                    None => None,
                },
                watched,
            }),
    {
        VideoFile { id, path, name, depth, video, watched }
    }

    /// The fingerprint identifier of the file.
    pub fn id(&self) -> (id: &str)
        ensures
            id@ == self@.id,
    {
        self.id.as_str()
    }

    pub fn name(&self) -> (name: &str)
        ensures
            name@ == self@.name,
    {
        self.name.as_str()
    }

    pub fn path(&self) -> (path: &str)
        ensures
            path@ == self@.path,
    {
        self.path.as_str()
    }

    /// The level of the folder that holds the file.
    pub fn depth(&self) -> (depth: usize)
        ensures
            depth == self@.depth,
    {
        self.depth
    }

    pub fn watched(&self) -> (watched: bool)
        ensures
            watched == self@.watched,
    {
        self.watched
    }

    /// The entry attached to the file.
    pub fn video(&self) -> (video: Option<&VideoEntry>)
        ensures
            match video {
                Some(entry) => self@.video == Some(entry@),
                None => self@.video is None,
            },
    {
        match &self.video {
            Some(entry) => Some(entry),
            None => None,
        }
    }

    pub fn set_video(&mut self, video: Option<VideoEntry>)
        ensures
            final(self)@ == (VideoFileView {
                video: match video {
                    Some(entry) => Some(entry@),
                    None => None,
                },
                ..old(self)@
            }),
    {
        self.video = video;
    }

    pub fn set_watched(&mut self, watched: bool)
        ensures
            final(self)@ == (VideoFileView { watched: watched, ..old(self)@ }),
    {
        self.watched = watched;
    }

    /// Takes the watched flag of the entry known of the video, where one is
    /// known.
    pub fn update_meta(&mut self, known: Option<&VideoEntry>)
        ensures
            final(self)@ == (VideoFileView {
                watched: match known {
                    Some(entry) => entry@.watched,
                    None => old(self)@.watched,
                },
                ..old(self)@
            }),
    {
        if let Some(e) = known {
            self.set_watched(e.watched());
        }
    }
}

impl Clone for VideoFile {
    fn clone(&self) -> (copy: Self)
        ensures
            copy == *self,
    {
        VideoFile {
            id: self.id.clone(),
            path: self.path.clone(),
            name: self.name.clone(),
            depth: self.depth,
            video: match &self.video {
                Some(entry) => Some(entry.clone()),
                None => None,
            },
            watched: self.watched,
        }
    }
}

impl FolderInfo {
    /// A folder without content at `depth`, under the path's last
    /// component as its name, or under the whole path where it has none.
    pub fn new(path: String, file_name: Option<String>, depth: usize) -> (folder: Self)
        ensures
            folder@ == FolderView::fresh(
                path@,
                folder_name_of(path@, file_name),
                depth as nat,
            ),
    {
        let id = folder_id(path.as_str());
        let name = folder_name(path.as_str(), file_name);
        let folder = Self {
            id,
            path,
            folders: Vec::new(),
            videos: Vec::new(),
            name,
            empty: true,
            depth,
            watched: false,
        };
        assert(folder.model().folders =~= Seq::empty());
        assert(folder.model().videos =~= Seq::empty());
        folder
    }

    /// Adds a child folder.
    pub fn push_folder(&mut self, folder: FolderInfo)
        ensures
            final(self)@ == old(self)@.push_folder(folder@),
    {
        self.folders.push(folder);
        self.empty = false;
        proof {
            assert(self.folders@.drop_last() =~= old(self).folders@);
            assert(self.model().videos =~= old(self).model().videos);
        }
    }

    /// Adds a video.
    pub fn push_video(&mut self, video: VideoFile)
        ensures
            final(self)@ == old(self)@.push_video(video@),
    {
        self.videos.push(video);
        self.empty = false;
        assert(self.model().videos =~= old(self).model().videos.push(video@));
    }

    pub fn id(&self) -> (id: &str)
        ensures
            id@ == self@.id,
    {
        self.id.as_str()
    }

    pub fn path(&self) -> (path: &str)
        ensures
            path@ == self@.path,
    {
        self.path.as_str()
    }

    pub fn name(&self) -> (name: &str)
        ensures
            name@ == self@.name,
    {
        self.name.as_str()
    }

    pub fn depth(&self) -> (depth: usize)
        ensures
            depth == self@.depth,
    {
        self.depth
    }

    /// Whether the folder holds neither folders nor videos.
    pub fn empty(&self) -> (empty: bool)
        ensures
            empty == self@.empty,
    {
        self.empty
    }

    pub fn watched(&self) -> (watched: bool)
        ensures
            watched == self@.watched,
    {
        self.watched
    }

    /// The child folders.
    pub fn folders(&self) -> (folders: &Vec<FolderInfo>)
        ensures
            folders@.len() == self@.folders.len(),
            forall|i: int| 0 <= i < folders@.len() ==> (#[trigger] folders@[i])@ == self@.folders[i],
    {
        proof {
            lemma_folder_views(self.folders@);
        }
        &self.folders
    }

    /// The videos that lie in the folder itself.
    pub fn videos(&self) -> (videos: &Vec<VideoFile>)
        ensures
            video_views(videos@) == self@.videos,
    {
        &self.videos
    }
}

/// What a listing says of one file.
pub struct FileListing {
    pub path: String,
    pub name: String,
    /// Whether the file could be opened for reading.
    pub openable: bool,
    /// Whether a probe found a video stream in the file. It is read only of
    /// a file that can be opened and whose name has a video extension.
    pub has_video_stream: bool,
    /// The size of the file in bytes.
    pub size: u64,
    /// The digest of the file's sampled bytes, where they were read. It is
    /// read only where the cache has no row of the file's path and size.
    pub digest: Option<u64>,
}

/// What a listing says of one directory.
pub struct DirListing {
    pub path: String,
    /// The last component of the path, or none where the path has none.
    pub name: Option<String>,
    /// Whether the directory is hidden. A hidden directory below the root is
    /// not descended into.
    pub hidden: bool,
    /// The entries of the directory, or none where it could not be read.
    pub entries: Option<Vec<EntryListing>>,
}

/// One entry of a directory.
pub enum EntryListing {
    File(FileListing),
    Dir(DirListing),
}

/// The cache and the log as a scan carries them along.
pub struct Walk {
    pub cache: CacheView,
    pub log: LogView,
}

impl Walk {
    pub open spec fn of(cache: CacheView, log: LogView) -> Walk {
        Walk { cache, log }
    }
}

/// The identifier given to a video file, and the cache and log after it. A
/// row of the file's path and size gives its identifier, and nothing
/// changes. Else a row of another size is staged for deletion, and the
/// identifier is made from the file's digest, staged for insertion and
/// noted in the log; without a digest the file gets no identifier.
pub open spec fn fingerprint_step(file: FileListing, walk: Walk) -> (Option<Seq<char>>, Walk) {
    let path = file.path@;
    let found = walk.cache.lookup(path);
    if found is Some && found->0.size == file.size {
        (Some(found->0.id), walk)
    } else {
        let cache = if found is Some {
            walk.cache.stage_delete(path)
        } else {
            walk.cache
        };
        match file.digest {
            Some(digest) => (
                Some(id_of_digest(digest)),
                Walk {
                    cache: cache.stage_add(
                        path,
                        CacheRow { size: file.size, id: id_of_digest(digest) },
                    ),
                    log: walk.log.note(path),
                },
            ),
            None => (None, Walk { cache, log: walk.log }),
        }
    }
}

/// The value of an optional video file.
pub open spec fn file_view(video: Option<VideoFile>) -> Option<VideoFileView> {
    match video {
        Some(video) => Some(video@),
        None => None,
    }
}

/// The video file made of a listed file at `depth`, where it has an
/// identifier.
pub open spec fn listed_video(file: FileListing, depth: nat, id: Option<Seq<char>>) -> Option<
    VideoFileView,
> {
    match id {
        Some(id) => Some(VideoFileView::fresh(file.path@, file.name@, depth, id)),
        None => None,
    }
}

/// Whether an entry is a file that counts as a video.
pub open spec fn is_video_entry(entry: EntryListing) -> bool {
    entry matches EntryListing::File(file) && is_video_file(
        file.name@,
        file.openable,
        file.has_video_stream,
    )
}

/// How many entries are files that count as videos.
pub open spec fn video_count(entries: Seq<EntryListing>) -> nat
    decreases entries.len(),
{
    if entries.len() == 0 {
        0
    } else {
        video_count(entries.drop_last()) + if is_video_entry(entries.last()) {
            1nat
        } else {
            0nat
        }
    }
}

/// A folder with the cache and log, after one entry is scanned into it. A
/// video file that gets an identifier is added to the folder at the
/// folder's level, and its event is logged. A directory that is not hidden
/// is scanned one level deeper and added. Every other entry is passed over.
pub open spec fn scan_entry(entry: EntryListing, at: (FolderView, Walk)) -> (FolderView, Walk)
    decreases entry, 0nat,
{
    match entry {
        EntryListing::File(file) => {
            if is_video_file(file.name@, file.openable, file.has_video_stream) {
                let step = fingerprint_step(file, at.1);
                match step.0 {
                    Some(id) => (
                        at.0.push_video(
                            VideoFileView::fresh(file.path@, file.name@, at.0.depth, id),
                        ),
                        Walk {
                            cache: step.1.cache,
                            log: step.1.log.emit(ProgressView::file_done(file.name@)),
                        },
                    ),
                    None => (at.0, step.1),
                }
            } else {
                at
            }
        },
        EntryListing::Dir(dir) => {
            if dir.hidden {
                at
            } else {
                let sub = scan_dir(dir, at.0.depth + 1, at.1);
                (at.0.push_folder(sub.0), sub.1)
            }
        },
    }
}

/// A folder with the cache and log, after entries are scanned into it, first
/// to last.
pub open spec fn scan_entries(entries: Seq<EntryListing>, at: (FolderView, Walk)) -> (
    FolderView,
    Walk,
)
    decreases entries, 0nat,
{
    if entries.len() == 0 {
        at
    } else {
        scan_entry(entries.last(), scan_entries(entries.drop_last(), at))
    }
}

/// A folder with the cache and log, after a directory is read into it: the
/// folder's marker is logged with the number of video files among the
/// entries, then the entries are scanned. A directory that could not be read
/// has no entries.
pub open spec fn read_dir(dir: DirListing, at: (FolderView, Walk)) -> (FolderView, Walk)
    decreases dir, 0nat,
{
    match dir.entries {
        Some(entries) => scan_entries(
            entries@,
            (
                at.0,
                Walk {
                    cache: at.1.cache,
                    log: at.1.log.emit(
                        ProgressView::folder_marker(at.0.path, video_count(entries@) as usize),
                    ),
                },
            ),
        ),
        None => (
            at.0,
            Walk {
                cache: at.1.cache,
                log: at.1.log.emit(ProgressView::folder_marker(at.0.path, 0)),
            },
        ),
    }
}

/// The folder of a directory at `depth`, with the cache and log after its
/// scan.
pub open spec fn scan_dir(dir: DirListing, depth: nat, walk: Walk) -> (FolderView, Walk)
    decreases dir, 1nat,
{
    read_dir(dir, (FolderView::fresh(dir.path@, folder_name_of(dir.path@, dir.name), depth), walk))
}

/// Whether the levels of a directory at `depth` and of all that is scanned
/// below it fit a `usize`.
pub open spec fn depth_fits(dir: DirListing, depth: nat) -> bool
    decreases dir,
{
    &&& depth <= usize::MAX
    &&& match dir.entries {
        Some(entries) => forall|i: int|
            0 <= i < entries@.len() ==> (#[trigger] entries@[i] matches EntryListing::Dir(sub)
                ==> sub.hidden || depth_fits(sub, depth + 1)),
        None => true,
    }
}

impl VideoFile {
    /// The identifier of a video file: from the cache where it has a row of
    /// the file's path and size, else from the file's digest.
    pub fn hash_file(
        file: &FileListing,
        c: &mut VideoCache,
        log: &mut ScanLog,
    ) -> (id: Option<String>)
        requires
            old(c).wf(),
        ensures
            final(c).wf(),
            text_of_option(id) == fingerprint_step(*file, Walk::of(old(c)@, old(log)@)).0,
            Walk::of(final(c)@, final(log)@) == fingerprint_step(
                *file,
                Walk::of(old(c)@, old(log)@),
            ).1,
    {
        let mut stale: bool = false;
        match c.get_video(file.path.as_str()) {
            Some(v) => {
                if file.size == v.filesize() {
                    return Some(v.id().to_owned());
                }
                stale = true;
            },
            None => {},
        }
        if stale {
            c.delete_video(file.path.as_str());
        }
        match file.digest {
            Some(digest) => {
                let id: String = digest_id(digest);
                c.add_video(file.path.as_str(), VideoCacheItem::new(file.size, id.clone()));
                log.note_fingerprinted(file.path.clone());
                Some(id)
            },
            None => None,
        }
    }

    /// The video file of a listed file at `depth`, where it gets an
    /// identifier.
    pub fn new(
        file: &FileListing,
        depth: usize,
        c: &mut VideoCache,
        log: &mut ScanLog,
    ) -> (video: Option<VideoFile>)
        requires
            old(c).wf(),
        ensures
            final(c).wf(),
            Walk::of(final(c)@, final(log)@) == fingerprint_step(
                *file,
                Walk::of(old(c)@, old(log)@),
            ).1,
            file_view(video) == listed_video(
                *file,
                depth as nat,
                fingerprint_step(*file, Walk::of(old(c)@, old(log)@)).0,
            ),
    {
        match VideoFile::hash_file(file, c, log) {
            Some(hash) => Some(
                VideoFile {
                    id: hash,
                    path: file.path.clone(),
                    name: file.name.clone(),
                    depth,
                    video: None,
                    watched: false,
                },
            ),
            None => None,
        }
    }
}

/// The number of video files that the marker of a folder states: those among
/// the entries of its directory, or none where the directory could not be
/// read.
pub open spec fn marker_count(entries: Option<Vec<EntryListing>>) -> usize {
    match entries {
        Some(entries) => video_count(entries@) as usize,
        None => 0,
    }
}

/// Whether a scan shows a listed file as done: it counts as a video and gets
/// an identifier, from the cache or from its digest.
pub open spec fn shows_file(file: FileListing, cache: CacheView) -> bool {
    &&& is_video_file(file.name@, file.openable, file.has_video_stream)
    &&& fingerprint_step(file, Walk::of(cache, LogView::empty())).0 is Some
}

/// How many of the entries are files that count as videos.
pub fn count_videos(entries: &Vec<EntryListing>) -> (count: usize)
    ensures
        count == video_count(entries@),
{
    let mut count: usize = 0;
    let mut i: usize = 0;
    while i < entries.len()
        invariant
            i <= entries.len(),
            count <= i,
            count == video_count(entries@.take(i as int)),
        decreases entries.len() - i,
    {
        proof {
            assert(entries@.take(i + 1).drop_last() =~= entries@.take(i as int));
        }
        match &entries[i] {
            EntryListing::File(file) => {
                if is_video(file.name.as_str(), file.openable, file.has_video_stream) {
                    count = count + 1;
                }
            },
            EntryListing::Dir(_) => {},
        }
        i = i + 1;
    }
    assert(entries@.take(i as int) =~= entries@);
    count
}

/// The marker that opens the folder at `path`: it states how many video
/// files are about to be scanned in it.
pub fn folder_marker(path: &str, entries: &Option<Vec<EntryListing>>) -> (marker: EmitProgress)
    ensures
        marker@ == ProgressView::folder_marker(path@, marker_count(*entries)),
{
    let count: usize = match entries {
        Some(entries) => count_videos(entries),
        None => 0,
    };
    EmitProgress { total: Some(count), name: Some(path.to_owned()), folder: true }
}

/// The event of a video file that was fingerprinted.
pub fn file_done(name: &str) -> (event: EmitProgress)
    ensures
        event@ == ProgressView::file_done(name@),
{
    EmitProgress { name: Some(name.to_owned()), total: None, folder: false }
}

/// The event that a scan logs for a listed file once it is done with it, or
/// none for a file that the scan passes over. It can be shown as soon as the
/// file's digest was read.
pub fn file_event(file: &FileListing, c: &VideoCache) -> (event: Option<EmitProgress>)
    ensures
        event is Some <==> shows_file(*file, c@),
        event is Some ==> event->0@ == ProgressView::file_done(file.name@),
{
    if is_video(file.name.as_str(), file.openable, file.has_video_stream) && (file.digest.is_some()
        || !c.needs_digest(file.path.as_str(), file.size)) {
        Some(file_done(file.name.as_str()))
    } else {
        None
    }
}

/// The events of a scan are those that `folder_marker` and `file_event`
/// make: reading a directory logs the folder's marker first, and scanning a
/// listed file logs its event exactly where `file_event` gives one for the
/// cache as it stands then.
pub proof fn lemma_scan_logs_the_shown_events(
    dir: DirListing,
    file: FileListing,
    at: (FolderView, Walk),
)
    ensures
        dir.entries is None ==> read_dir(dir, at).1.log.events == at.1.log.events.push(
            ProgressView::folder_marker(at.0.path, marker_count(dir.entries)),
        ),
        scan_entry(EntryListing::File(file), at).1.log.events == if shows_file(
            file,
            at.1.cache,
        ) {
            at.1.log.events.push(ProgressView::file_done(file.name@))
        } else {
            at.1.log.events
        },
{
}

impl FolderInfo {
    /// Counts the video files among the entries and logs the folder's
    /// marker with the count.
    fn count_files_in_folder(
        &self,
        entries: &Option<Vec<EntryListing>>,
        emitter: &mut ScanLog,
    )
        ensures
            final(emitter)@ == old(emitter)@.emit(
                ProgressView::folder_marker(self@.path, marker_count(*entries)),
            ),
    {
        emitter.emit(folder_marker(self.path.as_str(), entries));
    }

    /// Reads a listed directory into the folder: logs the folder's marker,
    /// adds the video files that get an identifier, and scans and adds the
    /// directories that are not hidden.
    pub fn read_folder(&mut self, listing: &DirListing, c: &mut VideoCache, emitter: &mut ScanLog)
        requires
            old(c).wf(),
            depth_fits(*listing, old(self)@.depth),
        ensures
            final(c).wf(),
            (final(self)@, Walk::of(final(c)@, final(emitter)@)) == read_dir(
                *listing,
                (old(self)@, Walk::of(old(c)@, old(emitter)@)),
            ),
            final(self)@.depth == old(self)@.depth,
            final(self)@.path == old(self)@.path,
            old(self)@.wf() ==> final(self)@.wf(),
        decreases listing,
    {
        proof {
            lemma_read_dir_wf(*listing, (old(self)@, Walk::of(old(c)@, old(emitter)@)));
        }
        match &listing.entries {
            Some(entries) => {
                self.count_files_in_folder(&listing.entries, emitter);
                let ghost start = (self@, Walk { cache: c@, log: emitter@ });
                let mut i: usize = 0;
                while i < entries.len()
                    invariant
                        i <= entries.len(),
                        c.wf(),
                        listing.entries == Some(*entries),
                        depth_fits(*listing, start.0.depth),
                        self@.depth == start.0.depth,
                        (self@, Walk::of(c@, emitter@)) == scan_entries(
                            entries@.take(i as int),
                            start,
                        ),
                    decreases entries.len() - i,
                {
                    let ghost before = (self@, Walk { cache: c@, log: emitter@ });
                    proof {
                        assert(entries@.take(i + 1).drop_last() =~= entries@.take(i as int));
                        assert(entries@.take(i + 1).last() == entries@[i as int]);
                    }
                    match &entries[i] {
                        EntryListing::File(file) => {
                            if is_video(file.name.as_str(), file.openable, file.has_video_stream) {
                                match VideoFile::new(file, self.depth, c, emitter) {
                                    Some(video_file) => {
                                        emitter.emit(file_done(video_file.name()));
                                        self.push_video(video_file);
                                    },
                                    None => {},
                                }
                            }
                        },
                        EntryListing::Dir(sub) => {
                            if !sub.hidden {
                                assert(entries@[i as int] matches EntryListing::Dir(d) && d
                                    == *sub);
                                assert(depth_fits(*sub, self@.depth + 1));
                                let mut folder = FolderInfo::new(
                                    sub.path.clone(),
                                    copy_name(&sub.name),
                                    self.depth + 1,
                                );
                                folder.read_folder(sub, c, emitter);
                                self.push_folder(folder);
                            }
                        },
                    }
                    assert((self@, Walk { cache: c@, log: emitter@ }) == scan_entry(
                        entries@[i as int],
                        before,
                    ));
                    i = i + 1;
                }
                assert(entries@.take(i as int) =~= entries@);
            },
            None => {
                self.count_files_in_folder(&listing.entries, emitter);
            },
        }
    }
}

impl VideoFileView {
    /// The file with the watched flag of the entry known of its identifier,
    /// where one is known.
    pub open spec fn merged(self, known: Entries) -> VideoFileView {
        if known.contains_key(self.id) {
            VideoFileView { watched: known[self.id].watched, ..self }
        } else {
            self
        }
    }
}

/// Whether there is at least one video and every one is watched.
pub open spec fn all_watched(videos: Seq<VideoFileView>) -> bool {
    videos.len() > 0 && forall|i: int| 0 <= i < videos.len() ==> (#[trigger] videos[i]).watched
}

impl FolderView {
    /// The tree with what is known of its videos laid over it: every video
    /// takes the watched flag of its entry, and every folder is watched
    /// where it holds videos of its own and each of them is watched. A
    /// folder without videos of its own is not watched, whatever the
    /// folders below it hold.
    pub open spec fn merged(self, known: Entries) -> FolderView
        decreases self,
    {
        let videos = Seq::new(self.videos.len(), |i: int| self.videos[i].merged(known));
        FolderView {
            folders: Seq::new(
                self.folders.len(),
                |i: int|
                    if 0 <= i < self.folders.len() {
                        self.folders[i].merged(known)
                    } else {
                        self
                    },
            ),
            videos,
            watched: all_watched(videos),
            ..self
        }
    }
}

impl FolderInfo {
    /// Lays what is known of the videos over the tree.
    pub fn add_meta(&mut self, known: &VideoTable)
        ensures
            final(self)@ == old(self)@.merged(known@),
        decreases *old(self),
    {
        let ghost before = self@;
        let mut watched: bool = self.videos.len() > 0;
        let mut i: usize = 0;
        while i < self.videos.len()
            invariant
                i <= self.videos.len(),
                self.videos.len() == before.videos.len(),
                self.folders == old(self).folders,
                self.id == old(self).id,
                self.path == old(self).path,
                self.name == old(self).name,
                self.empty == old(self).empty,
                self.depth == old(self).depth,
                forall|k: int|
                    0 <= k < i ==> (#[trigger] self.videos@[k])@ == before.videos[k].merged(known@),
                forall|k: int|
                    i <= k < self.videos.len() ==> (#[trigger] self.videos@[k])@ == before.videos[k],
                watched == (self.videos.len() > 0 && forall|k: int|
                    0 <= k < i ==> (#[trigger] before.videos[k]).merged(known@).watched),
            decreases self.videos.len() - i,
        {
            let entry = known.get(self.videos[i].id.as_str());
            let video = &mut self.videos[i];
            video.update_meta(entry);
            watched = watched && self.videos[i].watched;
            i = i + 1;
        }
        let mut j: usize = 0;
        proof {
            lemma_folder_views(old(self).folders@);
            let merged = before.merged(known@).videos;
            if watched {
                assert forall|k: int| 0 <= k < merged.len() implies (#[trigger] merged[k]).watched by {
                    assert(before.videos[k].merged(known@).watched);
                }
            } else if self.videos.len() > 0 {
                let k = choose|k: int|
                    0 <= k < i && !(#[trigger] before.videos[k]).merged(known@).watched;
                assert(!merged[k].watched);
            }
        }
        while j < self.folders.len()
            invariant
                j <= self.folders.len(),
                watched == all_watched(before.merged(known@).videos),
                self.folders.len() == old(self).folders.len(),
                before == old(self)@,
                before.folders.len() == old(self).folders.len(),
                forall|k: int|
                    0 <= k < before.folders.len() ==> before.folders[k] == (#[trigger] old(
                        self,
                    ).folders@[k])@,
                self.videos.len() == before.videos.len(),
                self.id == old(self).id,
                self.path == old(self).path,
                self.name == old(self).name,
                self.empty == old(self).empty,
                self.depth == old(self).depth,
                forall|k: int|
                    0 <= k < self.videos.len() ==> (#[trigger] self.videos@[k])@
                        == before.videos[k].merged(known@),
                forall|k: int|
                    0 <= k < j ==> (#[trigger] self.folders@[k])@ == before.folders[k].merged(known@),
                forall|k: int|
                    j <= k < self.folders.len() ==> (#[trigger] self.folders@[k]) == old(
                        self,
                    ).folders@[k],
            decreases self.folders.len() - j,
        {
            proof {
                assert(self.folders@[j as int] == old(self).folders@[j as int]);
                assert(decreases_to!(*old(self) => old(self).folders));
                assert(decreases_to!(old(self).folders => old(self).folders@));
                assert(decreases_to!(old(self).folders@ => old(self).folders@[j as int]));
            }
            let folder = &mut self.folders[j];
            folder.add_meta(known);
            j = j + 1;
        }
        self.watched = watched;
        proof {
            lemma_folder_views(self.folders@);
            lemma_folder_views(old(self).folders@);
            let after = before.merged(known@);
            assert(self@.videos =~= after.videos);
            assert(self@.folders.len() == after.folders.len());
            assert forall|k: int| 0 <= k < after.folders.len() implies self@.folders[k]
                == after.folders[k] by {
                assert(self.folders@[k]@ == before.folders[k].merged(known@));
            }
            assert(self@.folders =~= after.folders);
            assert(watched == all_watched(after.videos));
        }
    }
}

/// Why a scan could not be made.
#[derive(Clone, Copy, Debug, PartialEq, Eq, Structural)]
pub enum ScanError {
    /// The path to scan is not a directory.
    NotADirectory,
}

impl ScanError {
    /// The message of the error.
    pub fn message(&self) -> (message: String)
        ensures
            message@ == "Invalid path"@,
    {
        "Invalid path".to_owned()
    }
}

/// The folder of a root directory, with the cache and log after its scan:
/// the root is at level zero, under the path that the scan was asked for,
/// and is read whether it is hidden or not.
pub open spec fn scan_root(path: Seq<char>, dir: DirListing, walk: Walk) -> (FolderView, Walk) {
    read_dir(dir, (FolderView::fresh(path, folder_name_of(path, dir.name), 0), walk))
}

/// A scan of one root path.
pub struct FileScan {
    pub path: String,
}

impl FileScan {
    pub fn new(path: String) -> (scan: Self)
        ensures
            scan.path == path,
    {
        Self { path }
    }

    /// Scans the listing of the root path into a tree. Without a listing the
    /// path is no directory: that is an error, and cache and log stay as
    /// they are.
    pub fn run(
        &mut self,
        listing: Option<&DirListing>,
        cache: &mut VideoCache,
        emitter: &mut ScanLog,
    ) -> (scanned: Result<FolderInfo, ScanError>)
        requires
            old(cache).wf(),
            listing is Some ==> depth_fits(*listing->0, 0),
        ensures
            final(cache).wf(),
            final(self).path == old(self).path,
            listing is None ==> scanned == Err::<FolderInfo, ScanError>(ScanError::NotADirectory),
            listing is None ==> final(cache)@ == old(cache)@ && final(emitter)@ == old(emitter)@,
            listing is Some ==> scanned is Ok,
            listing is Some ==> (scanned->Ok_0@, Walk::of(final(cache)@, final(emitter)@))
                == scan_root(old(self).path@, *listing->0, Walk::of(old(cache)@, old(emitter)@)),
            listing is Some ==> scanned->Ok_0@.wf(),
            listing is Some ==> scanned->Ok_0@.depth == 0,
            listing is Some ==> scanned->Ok_0@.path == old(self).path@,
    {
        proof {
            if listing is Some {
                lemma_scan_root_wf(
                    old(self).path@,
                    *listing->0,
                    Walk::of(old(cache)@, old(emitter)@),
                );
            }
        }
        match listing {
            None => Err(ScanError::NotADirectory),
            Some(listing) => {
                let mut root = FolderInfo::new(self.path.clone(), copy_name(&listing.name), 0);
                root.read_folder(listing, cache, emitter);
                Ok(root)
            },
        }
    }
}

/// Reading a directory into a folder leaves the folder at its level, under
/// its path, name and identifier; a well-formed folder stays well formed.
pub proof fn lemma_read_dir_wf(dir: DirListing, at: (FolderView, Walk))
    ensures
        at.0.wf() ==> read_dir(dir, at).0.wf(),
        read_dir(dir, at).0.depth == at.0.depth,
        read_dir(dir, at).0.path == at.0.path,
        read_dir(dir, at).0.name == at.0.name,
        read_dir(dir, at).0.id == at.0.id,
    decreases dir, 0nat,
{
    match dir.entries {
        Some(entries) => {
            let start = (
                at.0,
                Walk {
                    cache: at.1.cache,
                    log: at.1.log.emit(
                        ProgressView::folder_marker(at.0.path, video_count(entries@) as usize),
                    ),
                },
            );
            lemma_scan_entries_wf(entries@, start);
        },
        None => {},
    }
}

/// Scanning entries into a folder leaves the folder at its level, under its
/// path, name and identifier; a well-formed folder stays well formed.
pub proof fn lemma_scan_entries_wf(entries: Seq<EntryListing>, at: (FolderView, Walk))
    ensures
        at.0.wf() ==> scan_entries(entries, at).0.wf(),
        scan_entries(entries, at).0.depth == at.0.depth,
        scan_entries(entries, at).0.path == at.0.path,
        scan_entries(entries, at).0.name == at.0.name,
        scan_entries(entries, at).0.id == at.0.id,
    decreases entries, 0nat,
{
    if entries.len() > 0 {
        lemma_scan_entries_wf(entries.drop_last(), at);
        lemma_scan_entry_wf(entries.last(), scan_entries(entries.drop_last(), at));
    }
}

/// Scanning one entry into a folder leaves the folder at its level, under
/// its path, name and identifier; a well-formed folder stays well formed.
pub proof fn lemma_scan_entry_wf(entry: EntryListing, at: (FolderView, Walk))
    ensures
        at.0.wf() ==> scan_entry(entry, at).0.wf(),
        scan_entry(entry, at).0.depth == at.0.depth,
        scan_entry(entry, at).0.path == at.0.path,
        scan_entry(entry, at).0.name == at.0.name,
        scan_entry(entry, at).0.id == at.0.id,
    decreases entry, 0nat,
{
    match entry {
        EntryListing::File(file) => {},
        EntryListing::Dir(dir) => {
            if !dir.hidden {
                lemma_scan_dir_wf(dir, at.0.depth + 1, at.1);
            }
        },
    }
}

/// Tree invariants: every folder of a scanned tree is empty exactly where it
/// has neither child folders nor videos, and lies one level below its
/// parent; the scanned directory itself lies at the level it was scanned at.
pub proof fn lemma_scan_dir_wf(dir: DirListing, depth: nat, walk: Walk)
    ensures
        scan_dir(dir, depth, walk).0.wf(),
        scan_dir(dir, depth, walk).0.depth == depth,
    decreases dir, 1nat,
{
    lemma_read_dir_wf(
        dir,
        (FolderView::fresh(dir.path@, folder_name_of(dir.path@, dir.name), depth), walk),
    );
}

/// Tree invariants of a root scan: the tree is well formed, and its root
/// lies at level zero under the path that was asked for.
pub proof fn lemma_scan_root_wf(path: Seq<char>, dir: DirListing, walk: Walk)
    ensures
        scan_root(path, dir, walk).0.wf(),
        scan_root(path, dir, walk).0.depth == 0,
        scan_root(path, dir, walk).0.path == path,
        scan_root(path, dir, walk).0.name == folder_name_of(path, dir.name),
{
    lemma_read_dir_wf(dir, (FolderView::fresh(path, folder_name_of(path, dir.name), 0), walk));
}

/// Laying known entries over a tree keeps it well formed.
pub proof fn lemma_merged_wf(folder: FolderView, known: Entries)
    requires
        folder.wf(),
    ensures
        folder.merged(known).wf(),
        folder.merged(known).depth == folder.depth,
    decreases folder,
{
    let after = folder.merged(known);
    assert forall|i: int| 0 <= i < after.folders.len() implies {
        &&& (#[trigger] after.folders[i]).depth == after.depth + 1
        &&& after.folders[i].wf()
    } by {
        assert(folder.folders[i].wf());
        lemma_merged_wf(folder.folders[i], known);
    }
    assert forall|i: int| 0 <= i < after.videos.len() implies (#[trigger] after.videos[i]).depth
        == after.depth by {
        assert(folder.videos[i].depth == folder.depth);
    }
}

/// Watched aggregation: after known entries are laid over a folder, the
/// folder is watched where it holds videos of its own and each is watched;
/// it is not watched where one of its own videos is not, nor where it holds
/// no videos of its own.
pub proof fn lemma_watched_aggregation(folder: FolderView, known: Entries)
    ensures
        folder.merged(known).videos.len() == folder.videos.len(),
        folder.merged(known).watched <==> (folder.videos.len() > 0 && forall|i: int|
            0 <= i < folder.videos.len() ==> (#[trigger] folder.merged(known).videos[i]).watched),
        folder.videos.len() == 0 ==> !folder.merged(known).watched,
        forall|i: int|
            0 <= i < folder.videos.len() ==> (#[trigger] folder.merged(known).videos[i])
                == folder.videos[i].merged(known),
{
}

} // verus!
