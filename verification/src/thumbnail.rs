//! The thumbnail cache and the decisions of the thumbnail pipeline: what a
//! request leads to, and what the end of a job changes.

use vstd::prelude::*;
use vstd::hash_map::StringHashMap;
use crate::job::JobState;
use crate::service::{wrap_failure, wrap_success, Response};
use crate::text::{
    chars_of,
    find_first,
    index_of,
    lemma_index_of_bounds,
    slice_text,
    text_of_option,
    texts_of,
};

verus! {

/// The artifacts known of one fingerprint.
pub struct ThumbnailEntry {
    paths: Vec<String>,
}

impl View for ThumbnailEntry {
    type V = Seq<Seq<char>>;

    closed spec fn view(&self) -> Seq<Seq<char>> {
        texts_of(self.paths@)
    }
}

impl Clone for ThumbnailEntry {
    fn clone(&self) -> (copy: Self)
        ensures
            copy@ == self@,
    {
        ThumbnailEntry { paths: copy_paths(&self.paths) }
    }
}

impl ThumbnailEntry {
    pub fn new() -> (entry: Self)
        ensures
            entry@ == Seq::<Seq<char>>::empty(),
    {
        let entry = Self { paths: Vec::new() };
        assert(entry@ =~= Seq::<Seq<char>>::empty());
        entry
    }

    /// Adds the path of one artifact.
    pub fn add_thumbnail(&mut self, path: &str)
        ensures
            final(self)@ == old(self)@.push(path@),
    {
        self.paths.push(path.to_owned());
        assert(self@ =~= old(self)@.push(path@));
    }

    pub fn paths(&self) -> (paths: &Vec<String>)
        ensures
            texts_of(paths@) == self@,
    {
        &self.paths
    }
}

/// The artifacts of a cache as values: the paths known of each identifier.
pub type Thumbnails = Map<Seq<char>, Seq<Seq<char>>>;

/// The artifacts after one more path is known of an identifier.
pub open spec fn with_artifact(known: Thumbnails, id: Seq<char>, path: Seq<char>) -> Thumbnails {
    if known.contains_key(id) {
        known.insert(id, known[id].push(path))
    } else {
        known.insert(id, seq![path])
    }
}

/// The thumbnail cache: the artifacts known of each fingerprint.
pub struct ThumbnailCache {
    thumbnails: StringHashMap<ThumbnailEntry>,
}

impl View for ThumbnailCache {
    type V = Thumbnails;

    closed spec fn view(&self) -> Thumbnails {
        self.thumbnails@.map_values(|entry: ThumbnailEntry| entry@)
    }
}

impl ThumbnailCache {
    pub fn new() -> (cache: Self)
        ensures
            cache@ == Thumbnails::empty(),
    {
        let cache = Self { thumbnails: StringHashMap::new() };
        assert(cache@ =~= Thumbnails::empty());
        cache
    }

    /// Adds the path of an artifact to those of an identifier.
    pub fn add_thumbnail_entry(&mut self, id: &str, path: &str)
        ensures
            final(self)@ == with_artifact(old(self)@, id@, path@),
    {
        let mut entry = match self.thumbnails.get(id) {
            Some(known) => known.clone(),
            None => ThumbnailEntry::new(),
        };
        entry.add_thumbnail(path);
        self.thumbnails.insert(id.to_owned(), entry);
        assert(self@ =~= with_artifact(old(self)@, id@, path@));
    }

    /// The paths known of an identifier.
    pub fn get_paths(&self, id: &str) -> (paths: Option<&Vec<String>>)
        ensures
            match paths {
                Some(paths) => self@.contains_key(id@) && self@[id@] == texts_of(paths@),
                None => !self@.contains_key(id@),
            },
    {
        match self.thumbnails.get(id) {
            Some(entry) => Some(entry.paths()),
            None => None,
        }
    }

    /// Forgets an identifier; returns what was known of it.
    pub fn remove_path(&mut self, id: &str) -> (removed: Option<ThumbnailEntry>)
        ensures
            final(self)@ == old(self)@.remove(id@),
            match removed {
                Some(entry) => old(self)@.contains_key(id@) && old(self)@[id@] == entry@,
                None => !old(self)@.contains_key(id@),
            },
    {
        let removed = match self.thumbnails.get(id) {
            Some(entry) => Some(entry.clone()),
            None => None,
        };
        self.thumbnails.remove(id);
        assert(self@ =~= old(self)@.remove(id@));
        removed
    }
}

/// The identifier that the name of an artifact file states: what stands
/// before its first `_`, where it has one.
pub open spec fn artifact_id(name: Seq<char>) -> Option<Seq<char>> {
    if name.contains('_') {
        Some(name.subrange(0, index_of(name, '_')))
    } else {
        None
    }
}

/// The artifacts that a list of files, each with name and path, makes
/// known, first to last. A file whose name states no identifier is passed
/// over.
pub open spec fn artifacts_of(files: Seq<(String, String)>) -> Thumbnails
    decreases files.len(),
{
    if files.len() == 0 {
        Map::empty()
    } else {
        let known = artifacts_of(files.drop_last());
        match artifact_id(files.last().0@) {
            Some(id) => with_artifact(known, id, files.last().1@),
            None => known,
        }
    }
}

/// The identifier that the name of an artifact file states.
pub fn artifact_file_id(name: &str) -> (id: Option<String>)
    ensures
        text_of_option(id) == artifact_id(name@),
{
    let chars = chars_of(name);
    let cut: usize = find_first(&chars, '_');
    proof {
        lemma_index_of_bounds(chars@, '_');
    }
    if cut < chars.len() {
        Some(slice_text(name, 0, cut))
    } else {
        None
    }
}

/// The cache of the artifacts found in the thumbnail directory: `files`
/// holds the name and the path of each regular file there.
pub fn create_thumbnail_cache(files: &Vec<(String, String)>) -> (cache: ThumbnailCache)
    ensures
        cache@ == artifacts_of(files@),
{
    let mut thumbnail_cache = ThumbnailCache::new();
    let mut i: usize = 0;
    while i < files.len()
        invariant
            i <= files.len(),
            thumbnail_cache@ == artifacts_of(files@.take(i as int)),
        decreases files.len() - i,
    {
        proof {
            assert(files@.take(i + 1).drop_last() =~= files@.take(i as int));
        }
        match artifact_file_id(files[i].0.as_str()) {
            Some(id) => {
                thumbnail_cache.add_thumbnail_entry(id.as_str(), files[i].1.as_str());
            },
            None => {},
        }
        i = i + 1;
    }
    assert(files@.take(i as int) =~= files@);
    thumbnail_cache
}

/// The file name of the thumbnail made for an identifier.
pub open spec fn thumbnail_name(id: Seq<char>) -> Seq<char> {
    id + seq!['_', '0', '1', '.', 'p', 'n', 'g']
}

/// The file name of the thumbnail made for an identifier.
pub fn thumbnail_file_name(id: &str) -> (name: String)
    ensures
        name@ == thumbnail_name(id@),
{
    let mut name: String = id.to_owned();
    proof {
        reveal_strlit("_01.png");
    }
    name.append("_01.png");
    assert(name@ =~= thumbnail_name(id@));
    name
}

/// Whether every path of a list was found to be a regular file: `found`
/// holds the finding for each path, in order.
pub open spec fn all_found(count: nat, found: Seq<bool>) -> bool {
    found.len() >= count && forall|i: int| 0 <= i < count ==> #[trigger] found[i]
}

/// Whether every one of `count` paths was found to be a regular file.
pub fn validate_thumbnail(count: usize, found: &Vec<bool>) -> (valid: bool)
    ensures
        valid == all_found(count as nat, found@),
{
    if found.len() < count {
        return false;
    }
    let mut i: usize = 0;
    while i < count
        invariant
            i <= count <= found.len(),
            forall|k: int| 0 <= k < i ==> #[trigger] found@[k],
        decreases count - i,
    {
        if !found[i] {
            return false;
        }
        i = i + 1;
    }
    true
}

/// What a lookup finds of an identifier: its paths where it is known and
/// every path was found to be a regular file.
pub open spec fn valid_paths(known: Thumbnails, id: Seq<char>, found: Seq<bool>) -> Option<
    Seq<Seq<char>>,
> {
    if known.contains_key(id) && all_found(known[id].len(), found) {
        Some(known[id])
    } else {
        None
    }
}

/// The artifacts after a lookup: an identifier that is known but has a path
/// that is no regular file any more is forgotten.
pub open spec fn after_lookup(known: Thumbnails, id: Seq<char>, found: Seq<bool>) -> Thumbnails {
    if known.contains_key(id) && !all_found(known[id].len(), found) {
        known.remove(id)
    } else {
        known
    }
}

/// The texts of an optional list of strings.
pub open spec fn texts_of_option(paths: Option<Vec<String>>) -> Option<Seq<Seq<char>>> {
    match paths {
        Some(paths) => Some(texts_of(paths@)),
        None => None,
    }
}

/// Copies a list of strings.
pub fn copy_paths(paths: &Vec<String>) -> (copy: Vec<String>)
    ensures
        texts_of(copy@) == texts_of(paths@),
{
    let mut copy: Vec<String> = Vec::new();
    let mut i: usize = 0;
    while i < paths.len()
        invariant
            i <= paths.len(),
            copy@.len() == i,
            forall|k: int| 0 <= k < i ==> (#[trigger] copy@[k])@ == paths@[k]@,
        decreases paths.len() - i,
    {
        let path: String = paths[i].clone();
        copy.push(path);
        i = i + 1;
    }
    assert(texts_of(copy@) =~= texts_of(paths@));
    copy
}

/// Looks the thumbnails of an identifier up. `found` says of each path
/// known of the identifier, in order, whether it is a regular file. Valid
/// paths are returned; an identifier with a path that is gone is forgotten,
/// so that its thumbnail is made anew.
pub fn find_thumbnail_path_in_cache(
    cache: &mut ThumbnailCache,
    id: &str,
    found: &Vec<bool>,
) -> (paths: Option<Vec<String>>)
    ensures
        texts_of_option(paths) == valid_paths(old(cache)@, id@, found@),
        final(cache)@ == after_lookup(old(cache)@, id@, found@),
{
    let mut stale: bool = false;
    match cache.get_paths(id) {
        Some(path) => {
            if validate_thumbnail(path.len(), found) {
                return Some(copy_paths(path));
            }
            stale = true;
        },
        None => {},
    }
    if stale {
        let _ = cache.remove_path(id);
    }
    None
}

/// A job of the thumbnail pipeline, or its result: an identifier with the
/// path of the video to decode, or with the path of the artifact made.
pub struct ThumbnailChannelMessage {
    pub path: String,
    pub id: String,
}

impl ThumbnailChannelMessage {
    pub fn new(path: String, id: String) -> (message: Self)
        ensures
            message.path == path,
            message.id == id,
    {
        Self { path, id }
    }

    /// The text of the message.
    pub open spec fn text(self) -> Seq<char> {
        seq!['i', 'd', ':', ' '] + self.id@ + seq![',', ' ', 'p', 'a', 't', 'h', ':', ' ']
            + self.path@
    }

    /// The text of the message, for a log.
    pub fn describe(&self) -> (text: String)
        ensures
            text@ == self.text(),
    {
        proof {
            reveal_strlit("id: ");
            reveal_strlit(", path: ");
        }
        let mut text: String = "id: ".to_owned();
        text.append(self.id.as_str());
        text.append(", path: ");
        text.append(self.path.as_str());
        assert(text@ =~= self.text());
        text
    }
}

impl Clone for ThumbnailChannelMessage {
    fn clone(&self) -> (copy: Self)
        ensures
            copy == *self,
    {
        ThumbnailChannelMessage { path: self.path.clone(), id: self.id.clone() }
    }
}

/// The event that tells a user interface of a thumbnail.
pub struct ThumbnailEmitEvent {
    pub path: String,
}

impl ThumbnailEmitEvent {
    pub fn new(path: String) -> (event: Self)
        ensures
            event.path == path,
    {
        Self { path }
    }
}

/// What a request for a thumbnail leads to.
pub enum ThumbnailStep {
    /// The cache knows valid artifacts: these are their paths.
    Found(Vec<String>),
    /// No valid artifact is known: this job goes onto the channel.
    Enqueue(ThumbnailChannelMessage),
    /// No valid artifact is known, and the video's path is no regular file.
    NotAFile,
}

/// The mathematical value of a step.
pub enum StepView {
    Found(Seq<Seq<char>>),
    Enqueue { id: Seq<char>, path: Seq<char> },
    NotAFile,
}

impl View for ThumbnailStep {
    type V = StepView;

    open spec fn view(&self) -> StepView {
        match self {
            ThumbnailStep::Found(paths) => StepView::Found(texts_of(paths@)),
            ThumbnailStep::Enqueue(message) => StepView::Enqueue {
                id: message.id@,
                path: message.path@,
            },
            ThumbnailStep::NotAFile => StepView::NotAFile,
        }
    }
}

impl StepView {
    /// Where the request stands after the step: valid artifacts mean a
    /// completed job, a job on the channel is enqueued, and a video that is
    /// no file leaves the request unrequested.
    pub open spec fn state(self) -> JobState {
        match self {
            StepView::Found(_) => JobState::Completed,
            StepView::Enqueue { .. } => JobState::Enqueued,
            StepView::NotAFile => JobState::Unrequested,
        }
    }
}

impl ThumbnailStep {
    /// Where the request stands after the step.
    pub fn state(&self) -> (state: JobState)
        ensures
            state == self@.state(),
    {
        match self {
            ThumbnailStep::Found(_) => JobState::Completed,
            ThumbnailStep::Enqueue(_) => JobState::Enqueued,
            ThumbnailStep::NotAFile => JobState::Unrequested,
        }
    }
}

/// The step that a request leads to.
pub open spec fn step_of(
    known: Thumbnails,
    id: Seq<char>,
    path: Seq<char>,
    found: Seq<bool>,
    is_file: bool,
) -> StepView {
    match valid_paths(known, id, found) {
        Some(paths) => StepView::Found(paths),
        None => if is_file {
            StepView::Enqueue { id, path }
        } else {
            StepView::NotAFile
        },
    }
}

/// Decides a request for the thumbnail of the video `id` at `path`. The
/// cache is asked first; only on a miss does the request lead to a job, and
/// only where the video's path is a regular file (`is_file`).
pub fn get_thumbnail(
    cache: &mut ThumbnailCache,
    id: String,
    path: &str,
    found: &Vec<bool>,
    is_file: bool,
) -> (step: ThumbnailStep)
    ensures
        step@ == step_of(old(cache)@, id@, path@, found@, is_file),
        final(cache)@ == after_lookup(old(cache)@, id@, found@),
{
    match find_thumbnail_path_in_cache(cache, id.as_str(), found) {
        Some(t) => ThumbnailStep::Found(t),
        None => {
            if is_file {
                ThumbnailStep::Enqueue(ThumbnailChannelMessage::new(path.to_owned(), id))
            } else {
                ThumbnailStep::NotAFile
            }
        },
    }
}

/// The answer to a request whose step was `Found`.
pub fn thumbnail_found(paths: Vec<String>) -> (answer: Response<Option<Vec<String>>>)
    ensures
        answer.is_success_of(Some(paths)),
{
    wrap_success(Some(paths))
}

/// The answer to a request whose job was handed to the channel: a success
/// without paths where the channel took it, else a failure with the
/// channel's message.
pub fn thumbnail_enqueued(sent: Result<(), String>) -> (answer: Response<Option<Vec<String>>>)
    ensures
        sent is Ok ==> answer.is_success_of(None),
        sent is Err ==> answer.is_failure_of(sent->Err_0@),
{
    match sent {
        Ok(_) => wrap_success(None),
        Err(e) => wrap_failure(e),
    }
}

/// The answer to a request for a video whose path is no regular file.
pub fn thumbnail_not_a_file() -> (answer: Response<Option<Vec<String>>>)
    ensures
        answer.is_failure_of("Given path is not a file."@),
{
    wrap_failure("Given path is not a file.".to_owned())
}

/// The path reported for a job that made no artifact.
pub open spec fn not_found_image() -> Seq<char> {
    "./images/image_not_found.webp"@
}

/// The artifacts after a job ended: a made artifact is known of the job's
/// identifier; a failed job changes nothing.
pub open spec fn after_job(known: Thumbnails, id: Seq<char>, made: Option<Seq<char>>) -> Thumbnails {
    match made {
        Some(path) => with_artifact(known, id, path),
        None => known,
    }
}

/// Ends a job. `made` is the path of the artifact, or none where the decode
/// failed. Returns the message for the output channel: the job's identifier
/// with the artifact's path, or with the path of the stand-in image. A made
/// artifact is added to the cache. A failed job is not tried again.
pub fn complete_thumbnail(
    cache: &mut ThumbnailCache,
    input: &ThumbnailChannelMessage,
    made: Option<String>,
) -> (output: ThumbnailChannelMessage)
    ensures
        output.id@ == input.id@,
        output.path@ == match made {
            Some(path) => path@,
            None => not_found_image(),
        },
        final(cache)@ == after_job(old(cache)@, input.id@, text_of_option(made)),
{
    match made {
        Some(path) => {
            cache.add_thumbnail_entry(input.id.as_str(), path.as_str());
            ThumbnailChannelMessage::new(path, input.id.clone())
        },
        None => ThumbnailChannelMessage::new(
            "./images/image_not_found.webp".to_owned(),
            input.id.clone(),
        ),
    }
}

/// The name of the event that tells of the thumbnail of an identifier.
pub open spec fn thumbnail_event_name(id: Seq<char>) -> Seq<char> {
    "update_thumbnail_"@ + id
}

/// The event for a message of the output channel, with its name.
pub fn thumbnail_event(output: ThumbnailChannelMessage) -> (event: (String, ThumbnailEmitEvent))
    ensures
        event.0@ == thumbnail_event_name(output.id@),
        event.1.path == output.path,
{
    let mut name: String = "update_thumbnail_".to_owned();
    name.append(output.id.as_str());
    (name, ThumbnailEmitEvent::new(output.path))
}

/// Miss, enqueue, complete: a request for an identifier that the cache does
/// not know, for a video that is a regular file, leads to one job for that
/// identifier and path. Once the job has made an artifact, a request for the
/// same identifier finds the artifact's path, as long as it is a regular
/// file, and leads to no job.
pub proof fn lemma_miss_enqueue_complete(
    known: Thumbnails,
    id: Seq<char>,
    path: Seq<char>,
    made: Seq<char>,
    found: Seq<bool>,
    later: Seq<bool>,
)
    requires
        !known.contains_key(id),
        later.len() >= 1,
        later[0],
    ensures
        step_of(known, id, path, found, true) == (StepView::Enqueue { id, path }),
        after_lookup(known, id, found) == known,
        step_of(after_job(known, id, Some(made)), id, path, later, true) == StepView::Found(
            seq![made],
        ),
        step_of(after_job(known, id, Some(made)), id, path, later, false) == StepView::Found(
            seq![made],
        ),
        after_lookup(after_job(known, id, Some(made)), id, later) == after_job(
            known,
            id,
            Some(made),
        ),
{
}

/// A failed job leaves the cache as it was: a later request for the
/// identifier leads to a job again.
pub proof fn lemma_failed_job_is_not_cached(
    known: Thumbnails,
    id: Seq<char>,
    path: Seq<char>,
    found: Seq<bool>,
)
    requires
        !known.contains_key(id),
    ensures
        step_of(after_job(known, id, None), id, path, found, true) == (StepView::Enqueue {
            id,
            path,
        }),
{
}

} // verus!
