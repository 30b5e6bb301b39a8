use librustbelt::error::QueryError;
use librustbelt::tracker::{FileHandle, FileWatcher};

#[test]
fn handles_are_given_in_order_of_first_sight() {
    let mut watcher = FileWatcher::new();
    assert_eq!(watcher.file_count(), 0);
    assert_eq!(watcher.get_or_create_handle("/w/a.rs"), FileHandle(0));
    assert_eq!(watcher.get_or_create_handle("/w/b.rs"), FileHandle(1));
    assert_eq!(watcher.get_or_create_handle("/w/a.rs"), FileHandle(0));
    assert_eq!(watcher.get_or_create_handle("/w/c.rs"), FileHandle(2));
    assert_eq!(watcher.file_count(), 3);
}

#[test]
fn path_and_handle_are_bound_one_to_one() {
    let mut watcher = FileWatcher::new();
    for path in ["/w/a.rs", "/w/b.rs", "/w/dir/a.rs"] {
        let handle = watcher.get_or_create_handle(path);
        assert_eq!(watcher.file_path(handle).as_deref(), Some(path));
        assert!(matches!(watcher.get_file_id(path), Ok(h) if h == handle));
    }
    assert_eq!(watcher.file_path(FileHandle(3)), None);
    assert_eq!(watcher.file_path(FileHandle(u32::MAX)), None);
}

#[test]
fn unknown_path_is_unknown_file() {
    let mut watcher = FileWatcher::new();
    assert!(matches!(watcher.get_file_id("/w/a.rs"), Err(QueryError::UnknownFile)));
    watcher.get_or_create_handle("/w/a.rs");
    assert!(matches!(watcher.get_file_id("/w/A.rs"), Err(QueryError::UnknownFile)));
    assert!(matches!(watcher.get_file_id(""), Err(QueryError::UnknownFile)));
}

#[test]
fn drain_gives_the_queue_in_order_and_empties_it() {
    let mut watcher = FileWatcher::new();
    watcher.get_or_create_handle("/w/a.rs");
    watcher.get_or_create_handle("/w/b.rs");
    watcher.queue_change("/w/b.rs", Some("one".to_string()));
    watcher.queue_change("/w/a.rs", None);
    watcher.queue_change("/w/b.rs", Some("two".to_string()));
    assert_eq!(watcher.pending_count(), 3);
    let batch = watcher.drain().unwrap();
    assert_eq!(watcher.pending_count(), 0);
    let seen: Vec<(u32, Option<&str>)> =
        batch.iter().map(|u| (u.handle.0, u.content.as_deref())).collect();
    assert_eq!(seen, vec![(1, Some("one")), (0, None), (1, Some("two"))]);
    assert!(watcher.drain().unwrap().is_empty());
    assert_eq!(watcher.file_count(), 2);
}

#[test]
fn drain_with_unknown_path_is_unknown_file_and_empties_the_queue() {
    let mut watcher = FileWatcher::new();
    watcher.get_or_create_handle("/w/a.rs");
    watcher.queue_change("/w/a.rs", Some("x".to_string()));
    watcher.queue_change("/elsewhere/b.rs", Some("y".to_string()));
    assert!(matches!(watcher.drain(), Err(QueryError::UnknownFile)));
    assert_eq!(watcher.pending_count(), 0);
    assert!(watcher.drain().unwrap().is_empty());
}
