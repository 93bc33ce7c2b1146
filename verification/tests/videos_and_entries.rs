use vidlib::filescan::{FileListing, VideoFile};
use vidlib::gui::{
    delete_path, get_video, open_video, select_folder, update_name, update_notes, update_rating,
    update_watched, validate_path, video_opened, watch_event,
};
use vidlib::progress::{EmitProgress, EmitTotalProgress, ScanLog};
use vidlib::service::{wrap_canceled, wrap_failure, wrap_success, Response, ResponseType};
use vidlib::state::{get_video_cache, StoreWrite, VideoCache, VideoCacheItem};
use vidlib::video::{
    file_extension, has_video_extension, is_video, video_file_extensions, VideoEntry, VideoTable,
};

#[test]
fn extension_follows_the_last_dot() {
    assert_eq!(file_extension("a.mp4"), Some("mp4".to_string()));
    assert_eq!(file_extension("archive.tar.gz"), Some("gz".to_string()));
    assert_eq!(file_extension("noext"), None);
    assert_eq!(file_extension(".hidden"), None);
    assert_eq!(file_extension(".hidden.mkv"), Some("mkv".to_string()));
    assert_eq!(file_extension("trailing."), Some(String::new()));
    assert_eq!(file_extension(".."), None);
    assert_eq!(file_extension("..."), Some(String::new()));
    assert_eq!(file_extension(""), None);
    for name in ["a.mp4", "archive.tar.gz", "noext", ".hidden", ".hidden.mkv", "trailing.", "..", "...", "", "."] {
        let expected = std::path::Path::new(name).extension().map(|e| e.to_string_lossy().to_string());
        assert_eq!(file_extension(name), expected, "name {:?}", name);
    }
}

#[test]
fn video_extensions_are_recognised_with_their_case() {
    assert_eq!(video_file_extensions().len(), 57);
    for ext in video_file_extensions() {
        assert!(has_video_extension(&format!("clip.{}", ext)), "extension {}", ext);
    }
    assert!(has_video_extension("dvr.dvr-ms"));
    assert!(has_video_extension(".name.ts"));
    assert!(!has_video_extension("clip.MP4"));
    assert!(!has_video_extension("clip.txt"));
    assert!(!has_video_extension("mp4"));
    assert!(!has_video_extension(".mp4"));
    assert!(!has_video_extension("clip.mp4."));
    assert!(!has_video_extension("clip.mp"));
}

#[test]
fn a_video_must_open_have_the_extension_and_a_stream() {
    assert!(is_video("a.mp4", true, true));
    assert!(!is_video("a.mp4", false, true));
    assert!(!is_video("a.mp4", true, false));
    assert!(!is_video("a.txt", true, true));
}

#[test]
fn entry_getters_and_setters() {
    let mut e = VideoEntry::new("Film".to_string(), 3, "good".to_string(), false);
    assert_eq!((e.name(), e.rating(), e.notes(), e.watched()), ("Film", 3, "good", false));
    e.set_rating(5);
    e.set_watched(true);
    e.set_name("Movie".to_string());
    e.set_notes("great".to_string());
    assert_eq!((e.name(), e.rating(), e.notes(), e.watched()), ("Movie", 5, "great", true));
    let copy = e.clone();
    assert_eq!((copy.name(), copy.rating(), copy.notes(), copy.watched()), ("Movie", 5, "great", true));
}

fn video(id_digest: u64, path: &str, name: &str) -> VideoFile {
    let listed = FileListing {
        path: path.to_string(),
        name: name.to_string(),
        openable: true,
        has_video_stream: true,
        size: 1,
        digest: Some(id_digest),
    };
    VideoFile::new(&listed, 0, &mut VideoCache::new(), &mut ScanLog::new()).unwrap()
}

#[test]
fn video_file_setters() {
    let mut v = video(0xab, "/lib/a.mp4", "a.mp4");
    assert_eq!(v.id(), "ab");
    v.set_watched(true);
    assert!(v.watched());
    v.update_meta(None);
    assert!(v.watched());
    let entry = VideoEntry::new("n".to_string(), 1, String::new(), false);
    v.update_meta(Some(&entry));
    assert!(!v.watched());
    v.set_video(Some(entry));
    assert_eq!(v.video().unwrap().rating(), 1);
    v.set_video(None);
    assert!(v.video().is_none());
}

#[test]
fn first_lookup_of_a_video_makes_its_entry() {
    let mut videos = VideoTable::new();
    let mut v = video(0xab, "/lib/a.mp4", "a.mp4");
    let found = get_video(&mut v, &mut videos);
    assert!(found.response.result == ResponseType::Success);
    let created = found.created.unwrap();
    assert_eq!((created.name(), created.rating(), created.notes(), created.watched()), ("a.mp4", 0, "", false));
    assert!(videos.contains("ab"));
    assert_eq!(videos.get("ab").unwrap().name(), "a.mp4");
    let answered = found.response.response.unwrap();
    assert_eq!(answered.video().unwrap().name(), "a.mp4");
    assert_eq!(v.video().unwrap().name(), "a.mp4");

    let mut again = video(0xab, "/elsewhere/renamed.mp4", "renamed.mp4");
    let found = get_video(&mut again, &mut videos);
    assert!(found.created.is_none());
    assert_eq!(again.video().unwrap().name(), "a.mp4");
}

#[test]
fn updates_change_known_entries_only() {
    let mut videos = VideoTable::new();
    let v = video(0xab, "/lib/a.mp4", "a.mp4");
    let missing = update_rating(&mut videos, &v, 4);
    assert!(!missing.stored);
    assert_eq!(missing.response.response, Some(4));
    assert!(!videos.contains("ab"));

    videos.insert("ab".to_string(), VideoEntry::new("a".to_string(), 0, String::new(), false));
    let done = update_rating(&mut videos, &v, 4);
    assert!(done.stored);
    assert!(done.response.result == ResponseType::Success);
    assert_eq!(videos.get("ab").unwrap().rating(), 4);
    let done = update_watched(&mut videos, &v, true);
    assert!(done.stored);
    assert_eq!(done.response.response, Some(true));
    assert!(videos.get("ab").unwrap().watched());
    let done = update_name(&mut videos, &v, "Film");
    assert!(done.stored);
    assert_eq!(done.response.response, Some("Film".to_string()));
    let done = update_notes(&mut videos, &v, "note");
    assert!(done.stored);
    let e = videos.get("ab").unwrap();
    assert_eq!((e.name(), e.rating(), e.notes(), e.watched()), ("Film", 4, "note", true));
    let other = video(0xcd, "/lib/b.mp4", "b.mp4");
    assert!(!update_name(&mut videos, &other, "x").stored);
    assert!(!update_notes(&mut videos, &other, "x").stored);
    assert!(!update_watched(&mut videos, &other, true).stored);
}

#[test]
fn managed_paths_are_validated() {
    let paths = vec!["/lib".to_string(), "/more".to_string()];
    assert!(matches!(validate_path(Ok(paths.clone()), "/more"), Ok(true)));
    assert!(matches!(validate_path(Ok(paths.clone()), "/mor"), Ok(false)));
    assert!(matches!(validate_path(Ok(vec![]), "/lib"), Ok(false)));
    match validate_path(Err("no such table".to_string()), "/lib") {
        Err(r) => {
            assert!(r.result == ResponseType::Failure);
            assert_eq!(r.error.unwrap(), "no such table");
        }
        Ok(_) => panic!("a failure was expected"),
    }
}

#[test]
fn removing_a_path_deletes_its_fingerprints() {
    let mut cache = get_video_cache(vec![
        ("/lib/a.mp4".to_string(), VideoCacheItem::new(1, "a".to_string())),
        ("/lib/sub/b.mp4".to_string(), VideoCacheItem::new(2, "b".to_string())),
        ("/other/c.mp4".to_string(), VideoCacheItem::new(3, "c".to_string())),
    ]);
    let removed = delete_path(&mut cache, Ok(vec!["/lib/a.mp4".to_string(), "/lib/sub/b.mp4".to_string()]));
    assert!(removed.response.result == ResponseType::Success);
    assert_eq!(removed.response.response, Some(true));
    assert_eq!(removed.writes.len(), 2);
    assert!(matches!(&removed.writes[0], StoreWrite::Delete { path } if path == "/lib/a.mp4"));
    assert!(matches!(&removed.writes[1], StoreWrite::Delete { path } if path == "/lib/sub/b.mp4"));
    assert!(cache.get_video("/lib/a.mp4").is_none());
    assert!(cache.get_video("/lib/sub/b.mp4").is_none());
    assert!(cache.get_video("/other/c.mp4").is_some());
    let failed = delete_path(&mut cache, Err("locked".to_string()));
    assert!(failed.response.result == ResponseType::Failure);
    assert_eq!(failed.response.error.unwrap(), "locked");
    assert!(failed.writes.is_empty());
    assert!(cache.get_video("/other/c.mp4").is_some());
}

#[test]
fn folder_choice_and_video_opening() {
    let chosen = select_folder(Some("/lib".to_string())).unwrap();
    assert!(chosen.result == ResponseType::Success);
    assert_eq!(chosen.response.unwrap(), "/lib");
    let none = select_folder(None).unwrap();
    assert!(none.result == ResponseType::Canceled);
    assert!(none.response.is_none() && none.error.is_none());

    let v = video(1, "/lib/a.mp4", "a.mp4");
    assert_eq!(open_video(&v, true).ok().unwrap(), "/lib/a.mp4");
    let missing = open_video(&v, false).err().unwrap();
    assert!(missing.result == ResponseType::Failure);
    assert_eq!(missing.error.unwrap(), "File not found");
    assert!(video_opened(Ok(())).unwrap().result == ResponseType::Success);
    let failed = video_opened(Err("no handler".to_string())).unwrap();
    assert_eq!(failed.error.unwrap(), "no handler");
    assert_eq!(watch_event("ab12"), "update_watch_ab12");
}

#[test]
fn responses_are_wrapped() {
    let ok: Response<u8> = wrap_success(7);
    assert!(ok.result == ResponseType::Success);
    assert_eq!(ok.response, Some(7));
    assert!(ok.error.is_none());
    let failed: Response<u8> = wrap_failure("bad".to_string());
    assert!(failed.result == ResponseType::Failure);
    assert!(failed.response.is_none());
    assert_eq!(failed.error.unwrap(), "bad");
    let canceled: Response<u8> = wrap_canceled();
    assert!(canceled.result == ResponseType::Canceled);
    assert!(canceled.response.is_none() && canceled.error.is_none());
}

#[test]
fn running_total_counts_files_and_sums_folders() {
    let mut total = EmitTotalProgress::new();
    assert_eq!((total.current, total.total, total.progress_parts()), (0, 0, (0, 1)));
    total.process(EmitProgress { total: Some(3), name: Some("/lib".to_string()), folder: true });
    assert_eq!((total.current, total.total), (0, 3));
    assert_eq!(total.name.as_deref(), Some("/lib"));
    total.process(EmitProgress { total: None, name: Some("a.mp4".to_string()), folder: false });
    assert_eq!((total.current, total.total), (1, 3));
    assert_eq!(total.name.as_deref(), Some("a.mp4"));
    total.process(EmitProgress { total: Some(2), name: None, folder: true });
    assert_eq!((total.current, total.total), (1, 5));
    assert_eq!(total.name.as_deref(), Some("a.mp4"));
    total.process(EmitProgress { total: None, name: None, folder: false });
    assert_eq!(total.progress_parts(), (2, 5));
    let share = total.progress_parts().0 as f64 / total.progress_parts().1 as f64 * 100.0;
    assert_eq!(share, 40.0);
}

#[test]
fn scan_log_keeps_events_and_paths() {
    let mut log = ScanLog::new();
    assert_eq!((log.event_count(), log.fingerprinted_count()), (0, 0));
    log.emit(EmitProgress { total: Some(1), name: None, folder: true });
    log.note_fingerprinted("/lib/a.mp4".to_string());
    log.emit(EmitProgress { total: None, name: Some("a.mp4".to_string()), folder: false });
    assert_eq!((log.event_count(), log.fingerprinted_count()), (2, 1));
    assert_eq!(log.event(0).total, Some(1));
    assert!(log.event(0).folder);
    assert_eq!(log.event(1).name.as_deref(), Some("a.mp4"));
    assert_eq!(log.fingerprinted_path(0), "/lib/a.mp4");
}
