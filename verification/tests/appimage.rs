use appimage_auto::appimage::{
    check_magic_bytes, find_extracted_files, generate_identifier, get_appimage_type, is_appimage,
    select_best_icon, extract_icon_size, AppImageError, AppImageType,
};

fn header(sig: &[u8; 4], tag: &[u8; 3]) -> Vec<u8> {
    let mut h = vec![0u8; 16];
    h[0..4].copy_from_slice(sig);
    h[8..11].copy_from_slice(tag);
    h
}

#[test]
fn test_generate_identifier() {
    let path = "/home/user/Downloads/test.AppImage";
    let id = generate_identifier(path);
    assert!(!id.is_empty());
    assert_eq!(id.len(), 32);
}

#[test]
fn test_identifier_is_path_digest() {
    // the exact digest of this path string, computed independently
    let id = generate_identifier("/home/user/Downloads/test.AppImage");
    assert_eq!(id, "ff2dd395c34bc0174b39bc7ac3987049");
    // deterministic across calls; different path, different digest
    assert_eq!(id, generate_identifier("/home/user/Downloads/test.AppImage"));
    assert_eq!(
        generate_identifier("/tmp/a.AppImage"),
        "20c96f8fe81ccc7da8f96d0fa4daffe9"
    );
}

#[test]
fn test_extract_icon_size() {
    let path = "/usr/share/icons/hicolor/256x256/apps/test.png";
    assert_eq!(extract_icon_size(path), Some(256));

    let path = "/some/path/icon.png";
    assert_eq!(extract_icon_size(path), None);
}

#[test]
fn test_extract_icon_size_edges() {
    // zero is a size; the first component that parses decides
    assert_eq!(extract_icon_size("/a/0x0/icon.png"), Some(0));
    assert_eq!(extract_icon_size("/a/48x48/64x64/icon.png"), Some(48));
    // an oversized number does not parse, and the search continues
    assert_eq!(extract_icon_size("/a/99999999999x2/32x32/icon.png"), Some(32));
}

#[test]
fn test_is_appimage_signature_only() {
    // a correct native-executable magic with either sub-format tag passes
    let good1 = header(&[0x7f, b'E', b'L', b'F'], &[0x41, 0x49, 0x01]);
    let good2 = header(&[0x7f, b'E', b'L', b'F'], &[0x41, 0x49, 0x02]);
    assert!(is_appimage(&Some(good1)));
    assert!(is_appimage(&Some(good2)));

    // a wrong first-four-byte signature fails whatever the name suggested
    let bad = header(&[0x7f, b'E', b'L', b'G'], &[0x41, 0x49, 0x02]);
    assert!(!is_appimage(&Some(bad)));

    // a wrong sub-format tag fails too
    let bad_tag = header(&[0x7f, b'E', b'L', b'F'], &[0x41, 0x49, 0x03]);
    assert!(!is_appimage(&Some(bad_tag)));

    // short reads and unreadable files fail
    assert!(!is_appimage(&Some(vec![0x7f, b'E', b'L', b'F'])));
    assert!(!is_appimage(&None));
}

#[test]
fn test_check_magic_bytes_type() {
    let h1 = header(&[0x7f, b'E', b'L', b'F'], &[0x41, 0x49, 0x01]);
    assert_eq!(check_magic_bytes(&h1), Some(AppImageType::Type1));
    let h2 = header(&[0x7f, b'E', b'L', b'F'], &[0x41, 0x49, 0x02]);
    assert_eq!(check_magic_bytes(&h2), Some(AppImageType::Type2));
}

#[test]
fn test_get_appimage_type_errors() {
    let path = String::from("/tmp/x.AppImage");
    let bad = header(&[0x00, 0x00, 0x00, 0x00], &[0x41, 0x49, 0x01]);
    match get_appimage_type(&path, &Some(bad)) {
        Err(AppImageError::NotAppImage(p)) => assert_eq!(p, "/tmp/x.AppImage"),
        other => panic!("expected NotAppImage, got {:?}", other),
    }
    match get_appimage_type(&path, &None) {
        Err(AppImageError::Io(_)) => {}
        other => panic!("expected Io, got {:?}", other),
    }
    let good = header(&[0x7f, b'E', b'L', b'F'], &[0x41, 0x49, 0x02]);
    assert_eq!(get_appimage_type(&path, &Some(good)).unwrap(), AppImageType::Type2);
}

#[test]
fn test_select_best_icon_prefers_largest_png() {
    let icons = vec![
        String::from("icon.svg"),
        String::from("48x48/icon.png"),
        String::from("128x128/icon.png"),
    ];
    assert_eq!(select_best_icon(&icons), Some(String::from("128x128/icon.png")));
}

#[test]
fn test_select_best_icon_falls_back_to_svg() {
    let icons = vec![String::from("icon.svg")];
    assert_eq!(select_best_icon(&icons), Some(String::from("icon.svg")));
}

#[test]
fn test_select_best_icon_empty() {
    let icons: Vec<String> = vec![];
    assert_eq!(select_best_icon(&icons), None);
}

#[test]
fn test_select_best_icon_first_of_any_kind() {
    let icons = vec![String::from("a.xpm"), String::from("b.xpm")];
    assert_eq!(select_best_icon(&icons), Some(String::from("a.xpm")));
}

#[test]
fn test_find_extracted_files_prefers_root_desktop() {
    let root = String::from("/tmp/xt/squashfs-root");
    let files = vec![
        String::from("/tmp/xt/squashfs-root/usr/share/applications/nested.desktop"),
        String::from("/tmp/xt/squashfs-root/app.desktop"),
        String::from("/tmp/xt/squashfs-root/usr/share/icons/256x256/app.png"),
        String::from("/tmp/xt/squashfs-root/.DirIcon"),
        String::from("/tmp/xt/squashfs-root/README"),
    ];
    let (desktop, icons) = find_extracted_files(&root, &files);
    assert_eq!(desktop, Some(String::from("/tmp/xt/squashfs-root/app.desktop")));
    assert_eq!(
        icons,
        vec![
            String::from("/tmp/xt/squashfs-root/usr/share/icons/256x256/app.png"),
            String::from("/tmp/xt/squashfs-root/.DirIcon"),
        ]
    );
}
