use appimage_auto::state::{create_entry, State};

#[test]
fn test_state_add_remove() {
    let mut state = State::new();

    let entry = create_entry(
        "test123".to_string(),
        "/home/user/test.AppImage".to_string(),
        "/home/user/.local/share/applications/appimage-test123.desktop".to_string(),
        vec![],
        Some("Test App".to_string()),
        1000,
    );

    state.add(entry);
    assert_eq!(state.count(), 1);
    assert!(state.is_integrated("/home/user/test.AppImage"));

    let removed = state.remove("test123");
    assert!(removed.is_some());
    assert_eq!(state.count(), 0);
}

#[test]
fn test_state_update_path() {
    let mut state = State::new();

    let entry = create_entry(
        "test123".to_string(),
        "/home/user/Downloads/test.AppImage".to_string(),
        "/home/user/.local/share/applications/appimage-test123.desktop".to_string(),
        vec![],
        None,
        1000,
    );

    state.add(entry);

    state.update_path(
        "/home/user/Downloads/test.AppImage",
        "/home/user/Applications/test.AppImage",
        1000,
    );

    assert!(!state.is_integrated("/home/user/Downloads/test.AppImage"));
    assert!(state.is_integrated("/home/user/Applications/test.AppImage"));
}

#[test]
fn test_update_path_keeps_identifier() {
    let mut state = State::new();
    state.add(create_entry(
        "id-a".to_string(),
        "/w/a.AppImage".to_string(),
        "/apps/appimage-id-a.desktop".to_string(),
        vec!["/icons/appimage-id-a.png".to_string()],
        Some("A".to_string()),
        11,
    ));
    let updated = state.update_path("/w/a.AppImage", "/w2/a.AppImage", 42).unwrap();
    assert_eq!(updated.identifier, "id-a");
    assert_eq!(updated.appimage_path, "/w2/a.AppImage");
    assert_eq!(updated.desktop_path, "/apps/appimage-id-a.desktop");
    assert_eq!(updated.icon_paths, vec!["/icons/appimage-id-a.png".to_string()]);
    assert_eq!(updated.integrated_at, 11);
    assert_eq!(updated.updated_at, 42);
    // still exactly one record, reachable by its identifier
    assert_eq!(state.count(), 1);
    assert!(state.get("id-a").is_some());
}

#[test]
fn test_round_trip_rebuilds_index() {
    // persist as a plain record list, reload, and check that the derived
    // index answers exactly as the records do
    let mut state = State::new();
    state.add(create_entry(
        "id-a".to_string(),
        "/w/a.AppImage".to_string(),
        "/apps/appimage-id-a.desktop".to_string(),
        vec![],
        None,
        1,
    ));
    state.add(create_entry(
        "id-b".to_string(),
        "/w/b.AppImage".to_string(),
        "/apps/appimage-id-b.desktop".to_string(),
        vec![],
        Some("B".to_string()),
        2,
    ));

    let persisted = state.all();
    let loaded = State::load_from_records(persisted).unwrap();

    assert_eq!(loaded.count(), 2);
    assert!(loaded.is_integrated("/w/a.AppImage"));
    assert!(loaded.is_integrated("/w/b.AppImage"));
    assert_eq!(loaded.get_by_path("/w/a.AppImage").unwrap().identifier, "id-a");
    assert_eq!(loaded.get_by_path("/w/b.AppImage").unwrap().identifier, "id-b");
    assert!(loaded.get_by_path("/w/c.AppImage").is_none());
    assert_eq!(loaded.get("id-b").unwrap().appimage_path, "/w/b.AppImage");
}

#[test]
fn test_load_from_records_refuses_duplicates() {
    let a = create_entry(
        "same-id".to_string(),
        "/w/a.AppImage".to_string(),
        "/apps/a.desktop".to_string(),
        vec![],
        None,
        1,
    );
    let b = create_entry(
        "same-id".to_string(),
        "/w/b.AppImage".to_string(),
        "/apps/b.desktop".to_string(),
        vec![],
        None,
        2,
    );
    assert!(State::load_from_records(vec![a, b]).is_none());
}

#[test]
fn test_find_orphaned() {
    let mut state = State::new();
    state.add(create_entry(
        "id-a".to_string(),
        "/w/a.AppImage".to_string(),
        "/apps/appimage-id-a.desktop".to_string(),
        vec![],
        None,
        1,
    ));
    state.add(create_entry(
        "id-b".to_string(),
        "/w/b.AppImage".to_string(),
        "/apps/appimage-id-b.desktop".to_string(),
        vec![],
        None,
        2,
    ));
    let present = vec!["/w/b.AppImage".to_string()];
    let orphans = state.find_orphaned(&present);
    assert_eq!(orphans.len(), 1);
    assert_eq!(orphans[0].identifier, "id-a");
    // finding orphans does not mutate the store
    assert_eq!(state.count(), 2);
}

#[test]
fn test_find_in_directory() {
    let mut state = State::new();
    state.add(create_entry(
        "id-a".to_string(),
        "/watched/a.AppImage".to_string(),
        "/apps/a.desktop".to_string(),
        vec![],
        None,
        1,
    ));
    state.add(create_entry(
        "id-b".to_string(),
        "/elsewhere/b.AppImage".to_string(),
        "/apps/b.desktop".to_string(),
        vec![],
        None,
        2,
    ));
    let found = state.find_in_directory("/watched");
    assert_eq!(found.len(), 1);
    assert_eq!(found[0].identifier, "id-a");
}

#[test]
fn test_get_returns_record_data() {
    let mut state = State::new();
    state.add(create_entry(
        "id-a".to_string(),
        "/w/a.AppImage".to_string(),
        "/apps/a.desktop".to_string(),
        vec!["/icons/a.png".to_string()],
        Some("A".to_string()),
        7,
    ));
    let rec = state.get("id-a").unwrap();
    assert_eq!(rec.appimage_path, "/w/a.AppImage");
    assert_eq!(rec.desktop_path, "/apps/a.desktop");
    assert_eq!(rec.icon_paths, vec!["/icons/a.png".to_string()]);
    assert_eq!(rec.name, Some("A".to_string()));
    assert_eq!(rec.integrated_at, 7);
    assert_eq!(rec.updated_at, 7);
    assert!(state.get("id-missing").is_none());
}
