use appimage_auto::config::Config;
use appimage_auto::daemon::{
    decide_moved, determine_icon_info, needs_integration, plan_icon_install, Completeness,
    Daemon, MoveDecision,
};
use appimage_auto::desktop::DesktopEntry;
use appimage_auto::state::{create_entry, State};
use appimage_auto::watcher::FileEvent;

fn daemon_with_debounce(debounce_ms: u64) -> Daemon {
    let mut config = Config::default();
    config.watch.debounce_ms = debounce_ms;
    Daemon::with_config(config, State::new())
}

#[test]
fn test_determine_icon_info_png() {
    let path = "/some/path/256x256/apps/icon.png";
    let (size, ext) = determine_icon_info(path);
    assert_eq!(ext, "png");
    // Size detection might vary, just check it's reasonable
    assert!(size >= 16 && size <= 512);
}

#[test]
fn test_determine_icon_info_svg() {
    let path = "/some/path/icon.svg";
    let (_, ext) = determine_icon_info(path);
    assert_eq!(ext, "svg");
}

#[test]
fn test_integration_is_idempotent() {
    // integrating the same not-yet-removed path twice leaves exactly one
    // record and plans exactly one menu-entry file name
    let mut state = State::new();
    let path = "/w/demo.AppImage".to_string();

    let id = needs_integration(&state, &path).expect("first integration proceeds");
    state.add(create_entry(
        id.clone(),
        path.clone(),
        format!("/apps/appimage-{}.desktop", id),
        vec![],
        None,
        1,
    ));
    assert_eq!(state.count(), 1);

    // the second attempt is refused before it begins
    assert_eq!(needs_integration(&state, &path), None);
    assert_eq!(state.count(), 1);

    // and even a forced re-add under the same identifier replaces rather
    // than duplicates, targeting the same menu-entry file
    state.add(create_entry(
        id.clone(),
        path.clone(),
        format!("/apps/appimage-{}.desktop", id),
        vec![],
        None,
        2,
    ));
    assert_eq!(state.count(), 1);
}

#[test]
fn test_incomplete_bundle_requeues_then_integrates() {
    // a Created event for an incomplete file is re-queued rather than
    // dropped, and integrates once later detected complete
    let mut d = daemon_with_debounce(10);
    let path = "/w/demo.AppImage".to_string();

    // the creation arrives and waits out its debounce window
    let direct = d.queue_event(FileEvent::Created(path.clone()), 0);
    assert_eq!(direct, None);
    assert_eq!(d.take_ready(5), vec![]);
    let ready = d.take_ready(10);
    assert_eq!(ready, vec![FileEvent::Created(path.clone())]);

    // dispatched while incomplete: re-queued with a fresh timer
    let integrate_now = d.handle_created(&path, true, Completeness::Incomplete, 10);
    assert!(!integrate_now);
    assert_eq!(d.take_ready(15), vec![]);
    let ready = d.take_ready(20);
    assert_eq!(ready, vec![FileEvent::Created(path.clone())]);

    // complete now: integrate
    let integrate_now = d.handle_created(&path, true, Completeness::Complete, 20);
    assert!(integrate_now);
    assert_eq!(d.take_ready(1000), vec![]);

    // an unreadable completeness probe still integrates, best effort
    assert!(d.handle_created(&path, true, Completeness::Unknown, 30));
    // a non-bundle never integrates
    assert!(!d.handle_created(&path, false, Completeness::Complete, 40));
}

#[test]
fn test_newer_event_replaces_older_and_resets_timer() {
    let mut d = daemon_with_debounce(10);
    let path = "/w/demo.AppImage".to_string();
    d.queue_event(FileEvent::Created(path.clone()), 0);
    d.queue_event(FileEvent::Modified(path.clone()), 8);
    // at 10 the original timer would have fired, but it was reset at 8
    assert_eq!(d.take_ready(10), vec![]);
    assert_eq!(d.take_ready(18), vec![FileEvent::Modified(path.clone())]);
    // at most one pending event per path: nothing is left
    assert_eq!(d.take_ready(1000), vec![]);
}

#[test]
fn test_deletes_and_moves_bypass_debounce() {
    let mut d = daemon_with_debounce(1000);
    let del = FileEvent::Deleted("/w/a".to_string());
    assert_eq!(d.queue_event(del.clone(), 0), Some(del));
    let mv = FileEvent::Moved { from: "/w/a".to_string(), to: "/w/b".to_string() };
    assert_eq!(d.queue_event(mv.clone(), 0), Some(mv));
    assert_eq!(d.take_ready(0), vec![]);
}

#[test]
fn test_decide_moved() {
    assert_eq!(decide_moved(true, true), MoveDecision::UpdateExisting);
    assert_eq!(decide_moved(true, false), MoveDecision::UpdateExisting);
    assert_eq!(decide_moved(false, true), MoveDecision::IntegrateNew);
    assert_eq!(decide_moved(false, false), MoveDecision::Ignore);
}

#[test]
fn test_move_updates_record_and_menu_entry() {
    // a move of an integrated bundle re-keys the record and rewrites the
    // menu entry's launch commands, without a new identifier
    let mut state = State::new();
    state.add(create_entry(
        "id-demo".to_string(),
        "/w/old.AppImage".to_string(),
        "/apps/appimage-id-demo.desktop".to_string(),
        vec![],
        Some("Demo".to_string()),
        1,
    ));

    assert_eq!(decide_moved(state.is_integrated("/w/old.AppImage"), false),
        MoveDecision::UpdateExisting);

    let updated = state.update_path("/w/old.AppImage", "/w2/new.AppImage", 99).unwrap();
    assert_eq!(updated.identifier, "id-demo");
    assert_eq!(updated.appimage_path, "/w2/new.AppImage");
    assert_eq!(state.count(), 1);

    // the installed entry is rewritten in place
    let installed = "[Desktop Entry]\nType=Application\nName=Demo\n\
Exec=\"/w/old.AppImage\" %F\nTryExec=/w/old.AppImage\n";
    let mut entry = DesktopEntry::parse(installed).unwrap();
    entry.set_exec("/w2/new.AppImage");
    entry.set_try_exec("/w2/new.AppImage");
    assert_eq!(entry.exec(), Some("\"/w2/new.AppImage\" %F"));
    let out = entry.write();
    assert!(out.contains("TryExec=/w2/new.AppImage\n"));
}

#[test]
fn test_orphan_cleanup_removes_record_and_names_files() {
    // startup cleanup drops the record whose bundle is gone and hands
    // back its menu-entry and icon paths for deletion
    let mut state = State::new();
    state.add(create_entry(
        "id-gone".to_string(),
        "/w/gone.AppImage".to_string(),
        "/apps/appimage-id-gone.desktop".to_string(),
        vec!["/icons/128x128/apps/appimage-id-gone.png".to_string()],
        None,
        1,
    ));
    state.add(create_entry(
        "id-here".to_string(),
        "/w/here.AppImage".to_string(),
        "/apps/appimage-id-here.desktop".to_string(),
        vec![],
        None,
        2,
    ));

    let present = vec!["/w/here.AppImage".to_string()];
    let removed = state.remove_orphaned(&present);

    assert_eq!(removed.len(), 1);
    assert_eq!(removed[0].identifier, "id-gone");
    assert_eq!(removed[0].desktop_path, "/apps/appimage-id-gone.desktop");
    assert_eq!(
        removed[0].icon_paths,
        vec!["/icons/128x128/apps/appimage-id-gone.png".to_string()]
    );
    assert_eq!(state.count(), 1);
    assert!(!state.is_integrated("/w/gone.AppImage"));
    assert!(state.is_integrated("/w/here.AppImage"));
}

#[test]
fn test_plan_icon_install() {
    let base = String::from("/home/u/.local/share/icons/hicolor");
    let plan = plan_icon_install(&base, &String::from("/xt/256x256/app.png"), "id9");
    assert_eq!(plan.size, 256);
    assert_eq!(plan.ext, "png");
    assert_eq!(plan.dest_dir, "/home/u/.local/share/icons/hicolor/256x256/apps");
    assert_eq!(
        plan.dest_path,
        "/home/u/.local/share/icons/hicolor/256x256/apps/appimage-id9.png"
    );

    let plan = plan_icon_install(&base, &String::from("/xt/app.svg"), "id9");
    assert_eq!(plan.ext, "svg");
    assert_eq!(plan.dest_dir, "/home/u/.local/share/icons/hicolor/scalable/apps");
    assert_eq!(
        plan.dest_path,
        "/home/u/.local/share/icons/hicolor/scalable/apps/appimage-id9.svg"
    );

    // an untagged raster icon lands in the default size directory
    let plan = plan_icon_install(&base, &String::from("/xt/app.png"), "id9");
    assert_eq!(plan.size, 128);
    assert_eq!(plan.dest_dir, "/home/u/.local/share/icons/hicolor/128x128/apps");
}

#[test]
fn test_phase_lifecycle() {
    let mut d = daemon_with_debounce(0);
    assert!(!d.is_running());
    d.begin_init();
    d.begin_running();
    assert!(d.is_running());
    d.stop();
    assert!(!d.is_running());
}
