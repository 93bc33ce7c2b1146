//! What is known of a video beyond its file, and the test of what counts as
//! a video file.

use vstd::prelude::*;
use vstd::hash_map::StringHashMap;
use crate::text::{chars_of, find_last, last_index_of, same_text, slice_text, text_of_option};

verus! {

/// A category that a video can be filed under.
pub struct VideoCategory {
    pub id: usize,
    pub name: String,
    pub icon: String,
}

/// The mathematical value of a category.
pub struct CategoryView {
    pub id: usize,
    pub name: Seq<char>,
    pub icon: Seq<char>,
}

impl View for VideoCategory {
    type V = CategoryView;

    open spec fn view(&self) -> CategoryView {
        CategoryView { id: self.id, name: self.name@, icon: self.icon@ }
    }
}

impl Clone for VideoCategory {
    fn clone(&self) -> (copy: Self)
        ensures
            copy == *self,
    {
        VideoCategory { id: self.id, name: self.name.clone(), icon: self.icon.clone() }
    }
}

/// What the user has recorded of one video, by its fingerprint.
pub struct VideoEntry {
    name: String,
    rating: usize,
    notes: String,
    watched: bool,
    category: Option<VideoCategory>,
}

/// The mathematical value of an entry.
pub struct EntryView {
    pub name: Seq<char>,
    pub rating: usize,
    pub notes: Seq<char>,
    pub watched: bool,
    pub category: Option<CategoryView>,
}

impl View for VideoEntry {
    type V = EntryView;

    closed spec fn view(&self) -> EntryView {
        EntryView {
            name: self.name@,
            rating: self.rating,
            notes: self.notes@,
            watched: self.watched,
            category: match self.category {
                Some(category) => Some(category@),
                None => None,
            },
        }
    }
}

impl Clone for VideoEntry {
    fn clone(&self) -> (copy: Self)
        ensures
            copy == *self,
    {
        VideoEntry {
            name: self.name.clone(),
            rating: self.rating,
            notes: self.notes.clone(),
            watched: self.watched,
            category: match &self.category {
                Some(category) => Some(category.clone()),
                None => None,
            },
        }
    }
}

impl VideoEntry {
    pub fn new(name: String, rating: usize, notes: String, watched: bool) -> (entry: Self)
        ensures
            entry@ == (EntryView {
                name: name@,
                rating: rating,
                notes: notes@,
                watched: watched,
                category: None,
            }),
    {
        Self { name, rating, notes, watched, category: None }
    }

    pub fn name(&self) -> (name: &str)
        ensures
            name@ == self@.name,
    {
        self.name.as_str()
    }

    pub fn rating(&self) -> (rating: usize)
        ensures
            rating == self@.rating,
    {
        self.rating
    }

    pub fn notes(&self) -> (notes: &str)
        ensures
            notes@ == self@.notes,
    {
        self.notes.as_str()
    }

    pub fn watched(&self) -> (watched: bool)
        ensures
            watched == self@.watched,
    {
        self.watched
    }

    /// The category that the video is filed under.
    pub fn category(&self) -> (category: Option<&VideoCategory>)
        ensures
            match category {
                Some(category) => self@.category == Some(category@),
                None => self@.category is None,
            },
    {
        match &self.category {
            Some(category) => Some(category),
            None => None,
        }
    }

    pub fn set_category(&mut self, category: Option<VideoCategory>)
        ensures
            final(self)@ == (EntryView {
                category: match category {
                    Some(category) => Some(category@),
                    None => None,
                },
                ..old(self)@
            }),
    {
        self.category = category;
    }

    pub fn set_rating(&mut self, rating: usize)
        ensures
            final(self)@ == (EntryView { rating: rating, ..old(self)@ }),
    {
        self.rating = rating;
    }

    pub fn set_watched(&mut self, watched: bool)
        ensures
            final(self)@ == (EntryView { watched: watched, ..old(self)@ }),
    {
        self.watched = watched;
    }

    pub fn set_name(&mut self, name: String)
        ensures
            final(self)@ == (EntryView { name: name@, ..old(self)@ }),
    {
        self.name = name;
    }

    pub fn set_notes(&mut self, notes: String)
        ensures
            final(self)@ == (EntryView { notes: notes@, ..old(self)@ }),
    {
        self.notes = notes;
    }
}

/// The entries known of videos, by fingerprint identifier.
pub struct VideoTable {
    entries: StringHashMap<VideoEntry>,
}

/// The entries of a table as values.
pub type Entries = Map<Seq<char>, EntryView>;

impl View for VideoTable {
    type V = Entries;

    closed spec fn view(&self) -> Entries {
        self.entries@.map_values(|entry: VideoEntry| entry@)
    }
}

impl VideoTable {
    pub fn new() -> (table: Self)
        ensures
            table@ == Entries::empty(),
    {
        let table = VideoTable { entries: StringHashMap::new() };
        assert(table@ =~= Entries::empty());
        table
    }

    /// Puts an entry at an identifier, in place of the one it may have.
    pub fn insert(&mut self, id: String, entry: VideoEntry)
        ensures
            final(self)@ == old(self)@.insert(id@, entry@),
    {
        self.entries.insert(id, entry);
        assert(self@ =~= old(self)@.insert(id@, entry@));
    }

    /// The entry of an identifier.
    pub fn get(&self, id: &str) -> (entry: Option<&VideoEntry>)
        ensures
            match entry {
                Some(entry) => self@.contains_key(id@) && self@[id@] == entry@,
                None => !self@.contains_key(id@),
            },
    {
        self.entries.get(id)
    }

    /// Whether an identifier has an entry.
    pub fn contains(&self, id: &str) -> (known: bool)
        ensures
            known == self@.contains_key(id@),
    {
        self.entries.contains_key(id)
    }
}

/// The extensions of video files, in lower case.
pub open spec fn video_extensions() -> Seq<Seq<char>> {
    seq![
        "3g2"@,
        "3gp"@,
        "3gp2"@,
        "3gpp"@,
        "amv"@,
        "asf"@,
        "avi"@,
        "bik"@,
        "dds"@,
        "divx"@,
        "dpg"@,
        "dv"@,
        "dvr-ms"@,
        "evo"@,
        "f4v"@,
        "flv"@,
        "hdmov"@,
        "k3g"@,
        "m1v"@,
        "m2t"@,
        "m2ts"@,
        "m2v"@,
        "m4b"@,
        "m4p"@,
        "m4v"@,
        "mk3d"@,
        "mkv"@,
        "mov"@,
        "mp2v"@,
        "mp4"@,
        "mp4v"@,
        "mpe"@,
        "mpeg"@,
        "mpg"@,
        "mpv2"@,
        "mpv4"@,
        "mqv"@,
        "mts"@,
        "mxf"@,
        "nsv"@,
        "ogm"@,
        "ogv"@,
        "qt"@,
        "ram"@,
        "rm"@,
        "rmvb"@,
        "skm"@,
        "swf"@,
        "tp"@,
        "tpr"@,
        "trp"@,
        "ts"@,
        "vob"@,
        "webm"@,
        "wm"@,
        "wmv"@,
        "xvid"@,
    ]
}

/// The extensions of video files.
pub fn video_file_extensions() -> (list: Vec<&'static str>)
    ensures
        list@.len() == video_extensions().len(),
        forall|i: int| 0 <= i < list@.len() ==> (#[trigger] list@[i])@ == video_extensions()[i],
{
    vec![
        "3g2",
        "3gp",
        "3gp2",
        "3gpp",
        "amv",
        "asf",
        "avi",
        "bik",
        "dds",
        "divx",
        "dpg",
        "dv",
        "dvr-ms",
        "evo",
        "f4v",
        "flv",
        "hdmov",
        "k3g",
        "m1v",
        "m2t",
        "m2ts",
        "m2v",
        "m4b",
        "m4p",
        "m4v",
        "mk3d",
        "mkv",
        "mov",
        "mp2v",
        "mp4",
        "mp4v",
        "mpe",
        "mpeg",
        "mpg",
        "mpv2",
        "mpv4",
        "mqv",
        "mts",
        "mxf",
        "nsv",
        "ogm",
        "ogv",
        "qt",
        "ram",
        "rm",
        "rmvb",
        "skm",
        "swf",
        "tp",
        "tpr",
        "trp",
        "ts",
        "vob",
        "webm",
        "wm",
        "wmv",
        "xvid",
    ]
}

/// The extension of a file name: what follows its last dot, where it has a
/// dot that is not its first character and the name is not `..`.
pub open spec fn extension_of(name: Seq<char>) -> Option<Seq<char>> {
    let dot = last_index_of(name, '.');
    if name == seq!['.', '.'] || dot <= 0 {
        None
    } else {
        Some(name.subrange(dot + 1, name.len() as int))
    }
}

/// Whether a file name has the extension of a video file. Letter case
/// counts.
pub open spec fn is_video_name(name: Seq<char>) -> bool {
    extension_of(name) is Some && video_extensions().contains(extension_of(name)->0)
}

/// Whether a file counts as a video: it can be opened, its name has a video
/// extension, and it holds a video stream. Whether it holds one is asked
/// only of a file that passed the first two tests.
pub open spec fn is_video_file(name: Seq<char>, openable: bool, has_video_stream: bool) -> bool {
    openable && is_video_name(name) && has_video_stream
}

/// The extension of a file name.
pub fn file_extension(name: &str) -> (ext: Option<String>)
    ensures
        text_of_option(ext) == extension_of(name@),
{
    let chars = chars_of(name);
    if chars.len() == 2 && chars[0] == '.' && chars[1] == '.' {
        assert(chars@ =~= seq!['.', '.']);
        return None;
    }
    match find_last(&chars, '.') {
        Some(dot) => {
            if dot == 0 {
                None
            } else {
                Some(slice_text(name, dot + 1, chars.len()))
            }
        },
        None => None,
    }
}

/// Whether a file name has the extension of a video file.
pub fn has_video_extension(name: &str) -> (video: bool)
    ensures
        video == is_video_name(name@),
{
    match file_extension(name) {
        Some(ext) => {
            let list = video_file_extensions();
            let mut i: usize = 0;
            while i < list.len()
                invariant
                    i <= list.len(),
                    extension_of(name@) == Some(ext@),
                    list@.len() == video_extensions().len(),
                    forall|k: int|
                        0 <= k < list@.len() ==> (#[trigger] list@[k])@ == video_extensions()[k],
                    forall|k: int| 0 <= k < i ==> video_extensions()[k] != ext@,
                decreases list.len() - i,
            {
                if same_text(list[i], ext.as_str()) {
                    assert(video_extensions()[i as int] == ext@);
                    assert(video_extensions().contains(ext@));
                    return true;
                }
                i = i + 1;
            }
            false
        },
        None => false,
    }
}

/// Whether a file counts as a video.
pub fn is_video(name: &str, openable: bool, has_video_stream: bool) -> (video: bool)
    ensures
        video == is_video_file(name@, openable, has_video_stream),
{
    if openable && has_video_extension(name) {
        has_video_stream
    } else {
        false
    }
}

} // verus!
