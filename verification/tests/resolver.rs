use binpatch::errors::PatcherError;
use binpatch::manifest::{extract_install_dir, manifest_file_name, parse_installdir_line};
use binpatch::numbers::{parse_u32, to_decimal};
use binpatch::steam::{
    install_path, library_roots, load_libraries_vdf, manifest_path, resolve_install_path,
    LibraryCandidate, VdfItem,
};

#[test]
fn decimal_rendering() {
    assert_eq!(to_decimal(0), b"0".to_vec());
    assert_eq!(to_decimal(49520), b"49520".to_vec());
    assert_eq!(to_decimal(u64::MAX), b"18446744073709551615".to_vec());
}

#[test]
fn decimal_parsing() {
    assert_eq!(parse_u32(b"0"), Some(0));
    assert_eq!(parse_u32(b"49520"), Some(49520));
    assert_eq!(parse_u32(b"4294967295"), Some(u32::MAX));
    assert_eq!(parse_u32(b"4294967296"), None);
    assert_eq!(parse_u32(b""), None);
    assert_eq!(parse_u32(b"12a"), None);
    assert_eq!(parse_u32(b"-3"), None);
}

#[test]
fn installdir_line_layouts() {
    assert_eq!(
        parse_installdir_line(b"\t\"installdir\"\t\t\"Borderlands2\""),
        Some(b"Borderlands2".to_vec())
    );
    assert_eq!(
        parse_installdir_line(b"  \"installdir\"   \"Some Game\"  \r"),
        Some(b"Some Game".to_vec())
    );
    assert_eq!(parse_installdir_line(b"\"installdir\" \"x\""), Some(b"x".to_vec()));
    assert_eq!(parse_installdir_line(b"\"installdir\"\"x\""), None);
    assert_eq!(parse_installdir_line(b"\"installdir\" \"\""), None);
    assert_eq!(parse_installdir_line(b"\"installdir\" \"x"), None);
    assert_eq!(parse_installdir_line(b"\"installdir\" \"x\" junk"), None);
    assert_eq!(parse_installdir_line(b"\"appid\" \"49520\""), None);
    assert_eq!(parse_installdir_line(b""), None);
}

#[test]
fn extract_from_whole_manifest() {
    let manifest = b"\"AppState\"\n{\n\t\"appid\"\t\t\"49520\"\n\t\"installdir\"\t\t\"Borderlands2\"\n\t\"LauncherPath\"\t\t\"x\"\n}\n";
    assert_eq!(extract_install_dir(&manifest.to_vec()), Some(b"Borderlands2".to_vec()));
    let manifest = b"\"AppState\"\n{\n\t\"appid\"\t\t\"49520\"\n}\n";
    assert_eq!(extract_install_dir(&manifest.to_vec()), None);
    let two = b"\"installdir\" \"first\"\n\"installdir\" \"second\"\n";
    assert_eq!(extract_install_dir(&two.to_vec()), Some(b"first".to_vec()));
}

#[test]
fn manifest_names_and_paths() {
    assert_eq!(manifest_file_name(49520), b"appmanifest_49520.acf".to_vec());
    assert_eq!(
        manifest_path(&b"/data/steam".to_vec(), 49520),
        b"/data/steam/steamapps/appmanifest_49520.acf".to_vec()
    );
    assert_eq!(
        install_path(&b"/data/steam".to_vec(), &b"Borderlands2".to_vec()),
        b"/data/steam/steamapps/common/Borderlands2".to_vec()
    );
}

#[test]
fn library_roots_filters_decimal_keys() {
    let items = vec![
        VdfItem { key: b"TimeUpdated".to_vec(), value: Some(b"123".to_vec()) },
        VdfItem { key: b"1".to_vec(), value: Some(b"/data/steam1".to_vec()) },
        VdfItem { key: b"2".to_vec(), value: None },
        VdfItem { key: b"3".to_vec(), value: Some(b"/data/steam3".to_vec()) },
        VdfItem { key: b"99999999999".to_vec(), value: Some(b"/nope".to_vec()) },
    ];
    let roots = library_roots(&items);
    assert_eq!(roots, vec![b"/data/steam1".to_vec(), b"/data/steam3".to_vec()]);
}

#[test]
fn load_index_through_vdf_parser() {
    let index = b"\"LibraryFolders\"\n{\n\t\"TimeUpdated\"\t\t\"1561000000\"\n\t\"1\"\t\t\"/data/steam1\"\n\t\"2\"\t\t\"/data/steam2\"\n}\n";
    let mut roots = load_libraries_vdf(&b"/tmp/libraryfolders.vdf".to_vec(), &index.to_vec())
        .unwrap();
    roots.sort();
    assert_eq!(roots, vec![b"/data/steam1".to_vec(), b"/data/steam2".to_vec()]);
}

#[test]
fn load_index_rejects_garbage() {
    match load_libraries_vdf(&b"/tmp/x.vdf".to_vec(), &b"\"NotTheTable\"\n{\n}\n".to_vec()) {
        Err(PatcherError::BadVDF { path }) => assert_eq!(path, b"/tmp/x.vdf".to_vec()),
        other => panic!("expected a bad-VDF error, got {:?}", other),
    }
}

#[test]
fn resolution_skips_failing_roots() {
    let manifest = b"\"AppState\"\n{\n\t\"installdir\"\t\t\"Borderlands2\"\n}\n".to_vec();
    let candidates = vec![
        LibraryCandidate { root: b"/data/steam1".to_vec(), manifest: None },
        LibraryCandidate { root: b"/data/steam2".to_vec(), manifest: Some(manifest) },
    ];
    let path = resolve_install_path(49520, &candidates).unwrap();
    assert_eq!(path, b"/data/steam2/steamapps/common/Borderlands2".to_vec());
}

#[test]
fn resolution_skips_malformed_manifests() {
    let good = b"\"installdir\" \"Borderlands2\"\n".to_vec();
    let candidates = vec![
        LibraryCandidate {
            root: b"/a".to_vec(),
            manifest: Some(b"\"appid\" \"49520\"\n".to_vec()),
        },
        LibraryCandidate { root: b"/b".to_vec(), manifest: Some(good) },
    ];
    let path = resolve_install_path(49520, &candidates).unwrap();
    assert_eq!(path, b"/b/steamapps/common/Borderlands2".to_vec());
}

#[test]
fn resolution_reports_missing_manifest() {
    let candidates = vec![
        LibraryCandidate { root: b"/a".to_vec(), manifest: None },
        LibraryCandidate { root: b"/b".to_vec(), manifest: Some(b"nothing here\n".to_vec()) },
    ];
    match resolve_install_path(49520, &candidates) {
        Err(PatcherError::CantFindManifest { appid }) => assert_eq!(appid, 49520),
        other => panic!("expected a missing-manifest error, got {:?}", other),
    }
}
