use vidlib::folderscan::{
    find_tree_node, get_tree_node, scan_folder, Folder, FolderInfoEmitEvent, FolderTree,
};
use vidlib::text::split_text;
use vidlib::job::{decode_event, next_job_state, JobEvent, JobState};
use vidlib::service::ResponseType;
use vidlib::thumbnail::{
    artifact_file_id, complete_thumbnail, create_thumbnail_cache, find_thumbnail_path_in_cache,
    get_thumbnail, thumbnail_enqueued, thumbnail_event, thumbnail_file_name, thumbnail_found,
    thumbnail_not_a_file, validate_thumbnail, ThumbnailCache, ThumbnailChannelMessage,
    ThumbnailEmitEvent, ThumbnailEntry, ThumbnailStep,
};

#[test]
fn entry_collects_paths() {
    let mut entry = ThumbnailEntry::new();
    assert!(entry.paths().is_empty());
    entry.add_thumbnail("/t/ab_01.png");
    entry.add_thumbnail("/t/ab_02.png");
    assert_eq!(entry.paths(), &vec!["/t/ab_01.png".to_string(), "/t/ab_02.png".to_string()]);
    assert_eq!(entry.clone().paths(), entry.paths());
}

#[test]
fn cache_adds_gets_and_removes() {
    let mut cache = ThumbnailCache::new();
    assert!(cache.get_paths("ab").is_none());
    cache.add_thumbnail_entry("ab", "/t/ab_01.png");
    cache.add_thumbnail_entry("cd", "/t/cd_01.png");
    cache.add_thumbnail_entry("ab", "/t/ab_02.png");
    assert_eq!(cache.get_paths("ab").unwrap(), &vec!["/t/ab_01.png".to_string(), "/t/ab_02.png".to_string()]);
    assert_eq!(cache.get_paths("cd").unwrap(), &vec!["/t/cd_01.png".to_string()]);
    let removed = cache.remove_path("ab").unwrap();
    assert_eq!(removed.paths().len(), 2);
    assert!(cache.get_paths("ab").is_none());
    assert!(cache.remove_path("ab").is_none());
    assert!(cache.get_paths("cd").is_some());
}

#[test]
fn artifact_names_state_their_identifier() {
    assert_eq!(artifact_file_id("abc123_01.png"), Some("abc123".to_string()));
    assert_eq!(artifact_file_id("abc_def_02.png"), Some("abc".to_string()));
    assert_eq!(artifact_file_id("_01.png"), Some(String::new()));
    assert_eq!(artifact_file_id("plain.png"), None);
    assert_eq!(artifact_file_id(""), None);
    assert_eq!(thumbnail_file_name("abc123"), "abc123_01.png");
    assert_eq!(artifact_file_id(&thumbnail_file_name("9f")), Some("9f".to_string()));
}

#[test]
fn cache_is_rebuilt_from_file_names() {
    let files = vec![
        ("ab_01.png".to_string(), "/t/ab_01.png".to_string()),
        ("readme.txt".to_string(), "/t/readme.txt".to_string()),
        ("cd_01.png".to_string(), "/t/cd_01.png".to_string()),
        ("ab_02.png".to_string(), "/t/ab_02.png".to_string()),
    ];
    let cache = create_thumbnail_cache(&files);
    assert_eq!(cache.get_paths("ab").unwrap(), &vec!["/t/ab_01.png".to_string(), "/t/ab_02.png".to_string()]);
    assert_eq!(cache.get_paths("cd").unwrap().len(), 1);
    assert!(cache.get_paths("readme.txt").is_none());
    assert!(cache.get_paths("readme").is_none());
    assert!(create_thumbnail_cache(&vec![]).get_paths("ab").is_none());
}

#[test]
fn validation_needs_every_path_found() {
    assert!(validate_thumbnail(0, &vec![]));
    assert!(validate_thumbnail(2, &vec![true, true]));
    assert!(validate_thumbnail(1, &vec![true, false]));
    assert!(!validate_thumbnail(2, &vec![true, false]));
    assert!(!validate_thumbnail(2, &vec![true]));
}

#[test]
fn lookup_forgets_an_identifier_whose_artifact_is_gone() {
    let mut cache = ThumbnailCache::new();
    cache.add_thumbnail_entry("ab", "/t/ab_01.png");
    assert_eq!(
        find_thumbnail_path_in_cache(&mut cache, "ab", &vec![true]),
        Some(vec!["/t/ab_01.png".to_string()])
    );
    assert!(cache.get_paths("ab").is_some());
    assert_eq!(find_thumbnail_path_in_cache(&mut cache, "zz", &vec![]), None);
    assert_eq!(find_thumbnail_path_in_cache(&mut cache, "ab", &vec![false]), None);
    assert!(cache.get_paths("ab").is_none());
}

#[test]
fn miss_enqueue_complete_then_hit() {
    let mut cache = ThumbnailCache::new();
    let first = get_thumbnail(&mut cache, "ab".to_string(), "/lib/a.mp4", &vec![], true);
    let job = match first {
        ThumbnailStep::Enqueue(job) => job,
        _ => panic!("one job was expected"),
    };
    assert_eq!((job.id.as_str(), job.path.as_str()), ("ab", "/lib/a.mp4"));
    assert_eq!(job.describe(), "id: ab, path: /lib/a.mp4");
    let sent = thumbnail_enqueued(Ok(()));
    assert!(sent.result == ResponseType::Success);
    assert_eq!(sent.response, Some(None));

    let output = complete_thumbnail(&mut cache, &job, Some("/t/ab_01.png".to_string()));
    assert_eq!((output.id.as_str(), output.path.as_str()), ("ab", "/t/ab_01.png"));
    let (name, event) = thumbnail_event(output);
    assert_eq!(name, "update_thumbnail_ab");
    assert_eq!(event.path, "/t/ab_01.png");

    let second = get_thumbnail(&mut cache, "ab".to_string(), "/lib/a.mp4", &vec![true], true);
    match second {
        ThumbnailStep::Found(paths) => {
            assert_eq!(paths, vec!["/t/ab_01.png".to_string()]);
            let answer = thumbnail_found(paths);
            assert!(answer.result == ResponseType::Success);
            assert_eq!(answer.response, Some(Some(vec!["/t/ab_01.png".to_string()])));
        }
        _ => panic!("a hit was expected"),
    }
}

#[test]
fn failed_job_reports_the_stand_in_and_is_not_cached() {
    let mut cache = ThumbnailCache::new();
    let job = ThumbnailChannelMessage::new("/lib/a.mp4".to_string(), "ab".to_string());
    let output = complete_thumbnail(&mut cache, &job.clone(), None);
    assert_eq!(output.id, "ab");
    assert_eq!(output.path, "./images/image_not_found.webp");
    assert!(cache.get_paths("ab").is_none());
    assert!(matches!(
        get_thumbnail(&mut cache, "ab".to_string(), "/lib/a.mp4", &vec![], true),
        ThumbnailStep::Enqueue(_)
    ));
}

#[test]
fn request_for_a_missing_video_fails() {
    let mut cache = ThumbnailCache::new();
    assert!(matches!(
        get_thumbnail(&mut cache, "ab".to_string(), "/lib/gone.mp4", &vec![], false),
        ThumbnailStep::NotAFile
    ));
    let answer = thumbnail_not_a_file();
    assert!(answer.result == ResponseType::Failure);
    assert_eq!(answer.error.unwrap(), "Given path is not a file.");
    let refused = thumbnail_enqueued(Err("channel closed".to_string()));
    assert!(refused.result == ResponseType::Failure);
    assert_eq!(refused.error.unwrap(), "channel closed");
    assert_eq!(ThumbnailEmitEvent::new("/t/x.png".to_string()).path, "/t/x.png");
}

#[test]
fn folders_are_told_by_path() {
    let folder = Folder::new("/lib/sub".to_string());
    assert_eq!(folder.path(), "/lib/sub");
    assert_eq!(folder.clone().path(), "/lib/sub");
    let event = FolderInfoEmitEvent::new(folder);
    assert_eq!(event.media_info.path(), "/lib/sub");
    scan_folder("/lib");
}

fn child_paths(tree: &FolderTree, id: slab_tree::NodeId) -> Vec<String> {
    tree.tree().get(id).unwrap().children().map(|n| n.data().path().to_string()).collect()
}

#[test]
fn tree_walk_adds_missing_folders_once() {
    let mut tree = FolderTree::new(Folder::new("root".to_string()));
    let root = tree.tree().root_id().unwrap();
    assert_eq!(tree.tree().get(root).unwrap().data().path(), "root");
    assert!(child_paths(&tree, root).is_empty());
    let c = get_tree_node(&mut tree, "a\\b\\c");
    assert_eq!(tree.tree().get(c).unwrap().data().path(), "c");
    assert_eq!(child_paths(&tree, root), vec!["a"]);
    let a = tree.tree().get(root).unwrap().first_child().unwrap().node_id();
    assert_eq!(child_paths(&tree, a), vec!["b"]);
    let again = get_tree_node(&mut tree, "a\\b\\c");
    assert_eq!(again, c);
    let d = get_tree_node(&mut tree, "a\\d");
    assert_ne!(d, c);
    assert_eq!(child_paths(&tree, a), vec!["b", "d"]);
    assert_eq!(get_tree_node(&mut tree, "a"), a);
    let x = get_tree_node(&mut tree, "x");
    assert_eq!(child_paths(&tree, root), vec!["a", "x"]);
    assert_eq!(tree.tree().get(x).unwrap().parent().unwrap().node_id(), root);
    // Two backslashes in a row hold an empty part between them.
    let e = get_tree_node(&mut tree, "x\\\\y");
    assert_eq!(tree.tree().get(e).unwrap().data().path(), "y");
    assert_eq!(child_paths(&tree, x), vec![""]);
    let b = tree.tree().get(c).unwrap().parent().unwrap().node_id();
    assert_eq!(find_tree_node(&mut tree, "a\\b"), Some(b));
}

#[test]
fn a_folder_is_found_again_however_often_it_is_asked_for() {
    let mut tree = FolderTree::new(Folder::new("root".to_string()));
    let root = tree.tree().root_id().unwrap();
    let first = get_tree_node(&mut tree, "lib");
    for _ in 0..3 {
        assert_eq!(get_tree_node(&mut tree, "lib"), first);
        assert_eq!(find_tree_node(&mut tree, "lib"), Some(first));
    }
    assert_eq!(child_paths(&tree, root), vec!["lib"]);
    let below = get_tree_node(&mut tree, "lib\\sub");
    assert_eq!(get_tree_node(&mut tree, "lib\\sub"), below);
    assert_eq!(child_paths(&tree, first), vec!["sub"]);
    assert_eq!(tree.tree().get(root).unwrap().traverse_pre_order().count(), 3);
}

#[test]
fn text_is_split_at_every_separator() {
    for text in ["a\\b\\c", "", "\\", "a\\", "\\a", "a\\\\b", "no separator", "é\\ü"] {
        let expected: Vec<String> = text.split('\\').map(|p| p.to_string()).collect();
        assert_eq!(split_text(text, '\\'), expected, "text {:?}", text);
    }
    assert_eq!(split_text("a/b", '/'), vec!["a".to_string(), "b".to_string()]);
}

#[test]
fn a_request_runs_from_miss_to_an_end_state() {
    let mut state = JobState::Unrequested;
    state = next_job_state(state, JobEvent::Taken);
    assert_eq!(state, JobState::Unrequested);
    state = next_job_state(state, JobEvent::Missed);
    assert_eq!(state, JobState::Enqueued);
    assert_eq!(next_job_state(state, JobEvent::Made), JobState::Enqueued);
    state = next_job_state(state, JobEvent::Taken);
    assert_eq!(state, JobState::Processing);
    assert_eq!(next_job_state(state, decode_event(true)), JobState::Completed);
    assert_eq!(next_job_state(state, decode_event(false)), JobState::Degraded);
    for end in [JobState::Completed, JobState::Degraded] {
        for event in [JobEvent::Missed, JobEvent::Taken, JobEvent::Made, JobEvent::Failed] {
            assert_eq!(next_job_state(end, event), end);
        }
    }
    let mut cache = ThumbnailCache::new();
    let step = get_thumbnail(&mut cache, "ab".to_string(), "/lib/a.mp4", &vec![], true);
    assert_eq!(step.state(), JobState::Enqueued);
    let step = get_thumbnail(&mut cache, "ab".to_string(), "/lib/a.mp4", &vec![], false);
    assert_eq!(step.state(), JobState::Unrequested);
    cache.add_thumbnail_entry("ab", "/t/ab_01.png");
    let step = get_thumbnail(&mut cache, "ab".to_string(), "/lib/a.mp4", &vec![true], false);
    assert_eq!(step.state(), JobState::Completed);
}

#[test]
fn duplicate_requests_each_lead_to_a_job() {
    // Requests for one identifier are not merged while its job is under
    // way: the cache knows of finished jobs only.
    let mut cache = ThumbnailCache::new();
    let first = get_thumbnail(&mut cache, "ab".to_string(), "/lib/a.mp4", &vec![], true);
    let second = get_thumbnail(&mut cache, "ab".to_string(), "/lib/a.mp4", &vec![], true);
    assert!(matches!(first, ThumbnailStep::Enqueue(_)));
    assert!(matches!(second, ThumbnailStep::Enqueue(_)));
}
