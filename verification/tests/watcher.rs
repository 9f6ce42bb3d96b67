use appimage_auto::watcher::{EventNormalizer, FileEvent, RawKind, RawNotification};

fn raw(kind: RawKind, paths: Vec<&str>, tracker: Option<u64>, is_file: bool) -> RawNotification {
    RawNotification {
        kind,
        paths: paths.into_iter().map(|p| p.to_string()).collect(),
        tracker,
        is_file,
    }
}

#[test]
fn test_is_in_watched_dir() {
    let temp_dir = tempfile::TempDir::new().unwrap();
    let dir = temp_dir.path().to_str().unwrap().to_string();
    let mut watcher = EventNormalizer::new();
    watcher.watch(dir.clone());

    // File directly in watched dir should return true
    let file_in_dir = format!("{}/test.AppImage", dir);
    assert!(watcher.is_in_watched_dir(&file_in_dir));

    // File in subdirectory should return false (we watch non-recursively)
    let file_in_subdir = format!("{}/subdir/test.AppImage", dir);
    assert!(!watcher.is_in_watched_dir(&file_in_subdir));

    // File in different directory should return false
    assert!(!watcher.is_in_watched_dir("/tmp/other/test.AppImage"));
}

#[test]
fn test_watch_unwatch() {
    let mut n = EventNormalizer::new();
    n.watch("/w1".to_string());
    n.watch("/w2".to_string());
    assert_eq!(n.watched_directories(), vec!["/w1".to_string(), "/w2".to_string()]);
    n.unwatch("/w1");
    assert_eq!(n.watched_directories(), vec!["/w2".to_string()]);
    assert!(!n.is_in_watched_dir("/w1/a.AppImage"));
    assert!(n.is_in_watched_dir("/w2/a.AppImage"));
}

#[test]
fn test_plain_create_delete_modify() {
    let mut n = EventNormalizer::new();
    n.watch("/w".to_string());

    let r = n.process_event(raw(RawKind::CreateFile, vec!["/w/a.AppImage"], None, true), 0);
    assert_eq!(r, Some(FileEvent::Created("/w/a.AppImage".to_string())));

    let r = n.process_event(raw(RawKind::RemoveFile, vec!["/w/a.AppImage"], None, true), 1);
    assert_eq!(r, Some(FileEvent::Deleted("/w/a.AppImage".to_string())));

    let r = n.process_event(raw(RawKind::DataModified, vec!["/w/a.AppImage"], None, true), 2);
    assert_eq!(r, Some(FileEvent::Modified("/w/a.AppImage".to_string())));

    // events outside the watched directory are dropped
    let r = n.process_event(raw(RawKind::CreateFile, vec!["/x/a.AppImage"], None, true), 3);
    assert_eq!(r, None);

    // the catch-all creation consults the is-a-file probe
    let r = n.process_event(raw(RawKind::CreateOther, vec!["/w/d"], None, false), 4);
    assert_eq!(r, None);
    let r = n.process_event(raw(RawKind::CreateOther, vec!["/w/f"], None, true), 5);
    assert_eq!(r, Some(FileEvent::Created("/w/f".to_string())));
}

#[test]
fn test_split_rename_pairs_to_move() {
    let mut n = EventNormalizer::new();
    n.watch("/w".to_string());

    let r = n.process_event(raw(RawKind::RenameFrom, vec!["/w/a.AppImage"], Some(7), true), 100);
    assert_eq!(r, None);

    let r = n.process_event(raw(RawKind::RenameTo, vec!["/w/b.AppImage"], Some(7), true), 200);
    assert_eq!(
        r,
        Some(FileEvent::Moved {
            from: "/w/a.AppImage".to_string(),
            to: "/w/b.AppImage".to_string(),
        })
    );
}

#[test]
fn test_split_rename_one_sided() {
    let mut n = EventNormalizer::new();
    n.watch("/w".to_string());

    // source watched, destination not: a deletion
    n.process_event(raw(RawKind::RenameFrom, vec!["/w/a"], Some(1), true), 0);
    let r = n.process_event(raw(RawKind::RenameTo, vec!["/elsewhere/a"], Some(1), true), 1);
    assert_eq!(r, Some(FileEvent::Deleted("/w/a".to_string())));

    // source not watched, destination watched: a creation
    n.process_event(raw(RawKind::RenameFrom, vec!["/elsewhere/b"], Some(2), true), 2);
    let r = n.process_event(raw(RawKind::RenameTo, vec!["/w/b"], Some(2), true), 3);
    assert_eq!(r, Some(FileEvent::Created("/w/b".to_string())));

    // neither side watched: dropped
    n.process_event(raw(RawKind::RenameFrom, vec!["/x/c"], Some(3), true), 4);
    let r = n.process_event(raw(RawKind::RenameTo, vec!["/y/c"], Some(3), true), 5);
    assert_eq!(r, None);
}

#[test]
fn test_rename_from_without_token_is_deletion() {
    let mut n = EventNormalizer::new();
    n.watch("/w".to_string());
    let r = n.process_event(raw(RawKind::RenameFrom, vec!["/w/a"], None, true), 0);
    assert_eq!(r, Some(FileEvent::Deleted("/w/a".to_string())));
}

#[test]
fn test_rename_to_with_expired_token_is_creation() {
    let mut n = EventNormalizer::new();
    n.watch("/w".to_string());
    n.process_event(raw(RawKind::RenameFrom, vec!["/w/a"], Some(9), true), 0);
    // 1000 ms later the buffered source has expired; the destination half
    // degrades to a creation
    let r = n.process_event(raw(RawKind::RenameTo, vec!["/w/b"], Some(9), true), 1000);
    assert_eq!(r, Some(FileEvent::Created("/w/b".to_string())));
}

#[test]
fn test_rename_to_with_unknown_token_is_creation() {
    let mut n = EventNormalizer::new();
    n.watch("/w".to_string());
    let r = n.process_event(raw(RawKind::RenameTo, vec!["/w/b"], Some(42), true), 0);
    assert_eq!(r, Some(FileEvent::Created("/w/b".to_string())));
}

#[test]
fn test_every_call_evicts_expired_sources() {
    let mut n = EventNormalizer::new();
    n.watch("/w".to_string());
    n.process_event(raw(RawKind::RenameFrom, vec!["/w/a"], Some(5), true), 0);
    // an unrelated notification, two seconds later, evicts the buffered
    // source even though it produces its own event
    let r = n.process_event(raw(RawKind::CreateFile, vec!["/w/other"], None, true), 2000);
    assert_eq!(r, Some(FileEvent::Created("/w/other".to_string())));
    // the destination half no longer finds its counterpart
    let r = n.process_event(raw(RawKind::RenameTo, vec!["/w/b"], Some(5), true), 2001);
    assert_eq!(r, Some(FileEvent::Created("/w/b".to_string())));
}

#[test]
fn test_unexpired_source_survives_other_calls() {
    let mut n = EventNormalizer::new();
    n.watch("/w".to_string());
    n.process_event(raw(RawKind::RenameFrom, vec!["/w/a"], Some(5), true), 0);
    n.process_event(raw(RawKind::CreateFile, vec!["/w/other"], None, true), 500);
    let r = n.process_event(raw(RawKind::RenameTo, vec!["/w/b"], Some(5), true), 900);
    assert_eq!(
        r,
        Some(FileEvent::Moved { from: "/w/a".to_string(), to: "/w/b".to_string() })
    );
}

#[test]
fn test_single_notification_rename() {
    let mut n = EventNormalizer::new();
    n.watch("/w".to_string());
    let r = n.process_event(raw(RawKind::RenameBoth, vec!["/w/a", "/w/b"], None, true), 0);
    assert_eq!(
        r,
        Some(FileEvent::Moved { from: "/w/a".to_string(), to: "/w/b".to_string() })
    );
    let r = n.process_event(raw(RawKind::RenameBoth, vec!["/w/a", "/x/b"], None, true), 1);
    assert_eq!(r, Some(FileEvent::Deleted("/w/a".to_string())));
    let r = n.process_event(raw(RawKind::RenameBoth, vec!["/x/a", "/w/b"], None, true), 2);
    assert_eq!(r, Some(FileEvent::Created("/w/b".to_string())));
    let r = n.process_event(raw(RawKind::RenameBoth, vec!["/x/a", "/y/b"], None, true), 3);
    assert_eq!(r, None);
}
