use appimage_auto::desktop::{
    desktop_install_path, extract_exec_args, generate_desktop_filename, icon_entry_value,
    prepare_desktop_entry, DesktopEntry, DesktopError,
};

#[test]
fn test_extract_exec_args() {
    assert_eq!(extract_exec_args("app"), "");
    assert_eq!(extract_exec_args("app %F"), "%F");
    assert_eq!(extract_exec_args("./app --flag %u"), "--flag %u");
    assert_eq!(extract_exec_args("/path/to/app arg1 arg2"), "arg1 arg2");
}

#[test]
fn test_generate_desktop_filename() {
    let id = "abc123def456";
    let filename = generate_desktop_filename(id);
    assert_eq!(filename, "appimage-abc123def456.desktop");
}

#[test]
fn test_parse_basic() {
    let content = "[Desktop Entry]\nType=Application\nName=Demo\nExec=demo %U\nIcon=demo\n";
    let entry = DesktopEntry::parse(content).unwrap();
    assert_eq!(entry.entry_type(), Some("Application"));
    assert_eq!(entry.name(), Some("Demo"));
    assert_eq!(entry.exec(), Some("demo %U"));
    assert_eq!(entry.icon(), Some("demo"));
}

#[test]
fn test_parse_skips_comments_and_unknown_sections() {
    let content = "# a comment\n\n[Desktop Entry]\nType=Application\nName=Demo\n\
[Some Other Section]\nExec=not-this-one\n";
    let entry = DesktopEntry::parse(content).unwrap();
    assert_eq!(entry.exec(), None);
    assert_eq!(entry.name(), Some("Demo"));
}

#[test]
fn test_parse_trims_keys_and_values() {
    let content = "[Desktop Entry]\n  Type = Application  \nName=  Spaced Out \n";
    let entry = DesktopEntry::parse(content).unwrap();
    assert_eq!(entry.entry_type(), Some("Application"));
    assert_eq!(entry.name(), Some("Spaced Out"));
}

#[test]
fn test_parse_missing_type() {
    let content = "[Desktop Entry]\nName=Demo\n";
    match DesktopEntry::parse(content) {
        Err(DesktopError::MissingField(f)) => assert_eq!(f, "Type"),
        other => panic!("expected MissingField(Type), got {:?}", other),
    }
}

#[test]
fn test_parse_missing_name() {
    let content = "[Desktop Entry]\nType=Application\n";
    match DesktopEntry::parse(content) {
        Err(DesktopError::MissingField(f)) => assert_eq!(f, "Name"),
        other => panic!("expected MissingField(Name), got {:?}", other),
    }
}

#[test]
fn test_set_exec_preserves_arguments() {
    let content = "[Desktop Entry]\nType=Application\nName=Old\nExec=oldapp %F\n";
    let mut entry = DesktopEntry::parse(content).unwrap();
    entry.set_exec("/new/bundle.bin");
    assert_eq!(entry.exec(), Some("\"/new/bundle.bin\" %F"));
}

#[test]
fn test_set_exec_without_arguments() {
    let content = "[Desktop Entry]\nType=Application\nName=Old\nExec=oldapp\n";
    let mut entry = DesktopEntry::parse(content).unwrap();
    entry.set_exec("/opt/tool.AppImage");
    assert_eq!(entry.exec(), Some("\"/opt/tool.AppImage\""));
}

#[test]
fn test_set_try_exec_and_identifier() {
    let content = "[Desktop Entry]\nType=Application\nName=Old\n";
    let mut entry = DesktopEntry::parse(content).unwrap();
    entry.set_try_exec("/opt/tool.AppImage");
    entry.set_appimage_identifier("cafe1234");
    entry.set_icon("tool-icon");
    let out = entry.write();
    assert!(out.contains("TryExec=/opt/tool.AppImage\n"));
    assert!(out.contains("X-AppImage-Identifier=cafe1234\n"));
    assert!(out.contains("Icon=tool-icon\n"));
    assert_eq!(entry.appimage_identifier(), Some("cafe1234"));
}

#[test]
fn test_ensure_startup_wm_class() {
    let content = "[Desktop Entry]\nType=Application\nName=My App 2.0!\n";
    let mut entry = DesktopEntry::parse(content).unwrap();
    entry.ensure_startup_wm_class();
    let out = entry.write();
    assert!(out.contains("StartupWMClass=MyApp20\n"));

    // an existing hint is never overwritten
    let content = "[Desktop Entry]\nType=Application\nName=My App\nStartupWMClass=kept\n";
    let mut entry = DesktopEntry::parse(content).unwrap();
    entry.ensure_startup_wm_class();
    assert!(entry.write().contains("StartupWMClass=kept\n"));
}

#[test]
fn test_update_action_exec() {
    let content = "[Desktop Entry]\nType=Application\nName=Demo\nExec=demo\n\
[Desktop Action new-window]\nName=New Window\nExec=demo --new-window %u\n";
    let mut entry = DesktopEntry::parse(content).unwrap();
    entry.update_action_exec("/apps/demo.AppImage");
    let out = entry.write();
    assert!(out.contains("[Desktop Action new-window]\n"));
    assert!(out.contains("Exec=\"/apps/demo.AppImage\" --new-window %u\n"));
}

#[test]
fn test_write_serializes_priority_keys_first() {
    let content = "[Desktop Entry]\nZZZ-Custom=1\nName=Demo\nType=Application\n";
    let entry = DesktopEntry::parse(content).unwrap();
    let out = entry.write();
    assert!(out.starts_with("[Desktop Entry]\nType=Application\nName=Demo\n"));
    assert!(out.contains("ZZZ-Custom=1\n"));
}

#[test]
fn test_write_parse_round_trip() {
    let content = "[Desktop Entry]\nType=Application\nName=Demo\nExec=demo %F\n\
[Desktop Action open]\nName=Open\nExec=demo --open\n";
    let entry = DesktopEntry::parse(content).unwrap();
    let again = DesktopEntry::parse(&entry.write()).unwrap();
    assert_eq!(again.name(), Some("Demo"));
    assert_eq!(again.exec(), Some("demo %F"));
    let out = again.write();
    assert!(out.contains("[Desktop Action open]\n"));
    assert!(out.contains("Exec=demo --open\n"));
}

#[test]
fn test_icon_entry_value() {
    // theme-root icons are referred to by bare name
    assert_eq!(
        icon_entry_value(&String::from("/usr/share/icons/hicolor/128x128/apps/tool.png")),
        "tool"
    );
    assert_eq!(
        icon_entry_value(&String::from("/home/u/.local/share/icons/hicolor/apps/tool.png")),
        "tool"
    );
    // anything else keeps its full path
    assert_eq!(icon_entry_value(&String::from("/opt/data/tool.png")), "/opt/data/tool.png");
}

#[test]
fn test_desktop_install_path() {
    assert_eq!(
        desktop_install_path(&String::from("/home/u/.local/share/applications"), "cafe12"),
        "/home/u/.local/share/applications/appimage-cafe12.desktop"
    );
}

#[test]
fn test_prepare_desktop_entry() {
    let content = "[Desktop Entry]\nType=Application\nName=Demo App\nExec=demo %F\n\
Comment=A demo\n[Desktop Action open]\nExec=demo --open %u\n";
    let mut entry = DesktopEntry::parse(content).unwrap();
    let icon = String::from("/home/u/.local/share/icons/hicolor/128x128/apps/appimage-id1.png");
    prepare_desktop_entry(&mut entry, "/apps/demo.AppImage", Some(&icon), "id1");
    let out = entry.write();
    assert!(out.contains("Exec=\"/apps/demo.AppImage\" %F\n"));
    assert!(out.contains("TryExec=/apps/demo.AppImage\n"));
    assert!(out.contains("X-AppImage-Identifier=id1\n"));
    assert!(out.contains("StartupWMClass=DemoApp\n"));
    assert!(out.contains("Icon=appimage-id1\n"));
    assert!(out.contains("Comment=A demo\n"));
    assert!(out.contains("Exec=\"/apps/demo.AppImage\" --open %u\n"));
}
