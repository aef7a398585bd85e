use binpatch::digest::{fingerprint, Digest, Fingerprinter};
use binpatch::engine::apply_changes;
use binpatch::errors::PatcherError;
use binpatch::registry::{builtin_versions, Action, Change, Version};
use binpatch::state::{classify, get_exe_state, toggle_buffer};

fn version_for(unpatched: &Vec<u8>, changes: Vec<Change>) -> Version {
    let mut patched = unpatched.clone();
    let mut list: Vec<Change> = Vec::new();
    for c in changes {
        for (n, b) in c.patch.iter().enumerate() {
            patched[c.offset as usize + n] = *b;
        }
        list.push(c);
    }
    Version {
        unpatched_hash: fingerprint(unpatched),
        patched_hash: fingerprint(&patched),
        changes: list,
    }
}

#[test]
fn digest_of_known_text() {
    let d = fingerprint(&b"Hello World!".to_vec());
    assert_eq!(d.to_hex(), b"2ef7bde608ce5404e97d5f042f95f89f1c232871".to_vec());
}

#[test]
fn digest_determinism_and_difference() {
    let a = b"some executable content".to_vec();
    let mut b = a.clone();
    assert_eq!(fingerprint(&a), fingerprint(&a));
    b[3] ^= 0x01;
    assert_ne!(fingerprint(&a), fingerprint(&b));
}

#[test]
fn streaming_fingerprint_matches_one_shot() {
    let data = (0u32..1000).map(|n| (n % 251) as u8).collect::<Vec<u8>>();
    let mut h = Fingerprinter::new();
    for chunk in data.chunks(64) {
        h.update(chunk);
    }
    assert_eq!(h.digest(), fingerprint(&data));
}

#[test]
fn digest_hex_round_trip() {
    let hex = b"bc1d695c6fdb3dea491b367f73bbb045c316b32e".to_vec();
    let d = Digest::from_hex(&hex).unwrap();
    assert_eq!(d.to_hex(), hex);
    assert!(Digest::from_hex(&b"bc1d".to_vec()).is_none());
    assert!(Digest::from_hex(&b"zc1d695c6fdb3dea491b367f73bbb045c316b32e".to_vec()).is_none());
}

#[test]
fn builtin_registry_data() {
    let versions = builtin_versions();
    assert_eq!(versions.len(), 1);
    let v = &versions[0];
    assert_eq!(
        v.unpatched_hash.to_hex(),
        b"bc1d695c6fdb3dea491b367f73bbb045c316b32e".to_vec()
    );
    assert_eq!(
        v.patched_hash.to_hex(),
        b"fc8afce04782532b0fe7a70a80ee1070da858e32".to_vec()
    );
    assert_eq!(v.changes.len(), 3);
    assert_eq!(v.changes[0].offset, 0x012f_8b90);
    assert_eq!(v.changes[0].original, vec![0x73]);
    assert_eq!(v.changes[0].patch, vec![0x00]);
    assert_eq!(v.changes[1].offset, 0x0169_9cb2);
    assert_eq!(v.changes[2].offset, 0x0042_d740);
}

#[test]
fn builtin_changes_are_disjoint() {
    let versions = builtin_versions();
    for v in &versions {
        for a in 0..v.changes.len() {
            for b in 0..v.changes.len() {
                if a != b {
                    let ca = &v.changes[a];
                    let cb = &v.changes[b];
                    let a_end = ca.offset + ca.patch.len() as u64;
                    let b_end = cb.offset + cb.patch.len() as u64;
                    assert!(a_end <= cb.offset || b_end <= ca.offset);
                }
            }
        }
    }
}

#[test]
fn round_trip_restores_content() {
    let mut data = (0u32..200).map(|n| (n * 7 % 256) as u8).collect::<Vec<u8>>();
    let original = data.clone();
    let changes = vec![
        Change { offset: 10, original: vec![data[10], data[11]], patch: vec![0xaa, 0xbb] },
        Change { offset: 150, original: vec![data[150]], patch: vec![0xcc] },
    ];
    let h0 = fingerprint(&data);
    apply_changes(&mut data, &changes, Action::Apply).unwrap();
    assert_ne!(fingerprint(&data), h0);
    apply_changes(&mut data, &changes, Action::Undo).unwrap();
    assert_eq!(data, original);
    assert_eq!(fingerprint(&data), h0);
}

#[test]
fn scenario_single_change_toggle() {
    let mut data = vec![0u8; 100];
    data[50] = 0x73;
    let versions = vec![version_for(
        &data,
        vec![Change { offset: 50, original: vec![0x73], patch: vec![0x00] }],
    )];
    let h1 = fingerprint(&data);
    let h2 = &versions[0].patched_hash;
    assert_eq!(&h1, &versions[0].unpatched_hash);

    let st = get_exe_state(&data, &versions).unwrap();
    assert!(!st.patched);

    let now_patched = toggle_buffer(&mut data, &versions).unwrap();
    assert!(now_patched);
    assert_eq!(data[50], 0x00);
    assert_eq!(&fingerprint(&data), h2);
    let st = get_exe_state(&data, &versions).unwrap();
    assert!(st.patched);

    let now_patched = toggle_buffer(&mut data, &versions).unwrap();
    assert!(!now_patched);
    assert_eq!(data[50], 0x73);
    assert_eq!(fingerprint(&data), h1);
}

#[test]
fn unknown_content_is_rejected_and_untouched() {
    let data = vec![0x42u8; 64];
    let versions = builtin_versions();
    match get_exe_state(&data, &versions) {
        Err(PatcherError::UnknownVersion { hash }) => {
            assert_eq!(hash, fingerprint(&data));
        },
        other => panic!("expected an unknown version, got {:?}", other.map(|st| st.patched)),
    }
    let mut buffer = data.clone();
    assert!(toggle_buffer(&mut buffer, &versions).is_err());
    assert_eq!(buffer, data);
}

#[test]
fn classify_prefers_unpatched_and_reports_patched() {
    let base = vec![7u8; 32];
    let versions = vec![version_for(
        &base,
        vec![Change { offset: 0, original: vec![7], patch: vec![9] }],
    )];
    let unp = classify(&fingerprint(&base), &versions).unwrap();
    assert!(!unp.patched);
    let mut patched = base.clone();
    patched[0] = 9;
    let pat = classify(&fingerprint(&patched), &versions).unwrap();
    assert!(pat.patched);
}

#[test]
fn write_failure_reports_offset_and_leaves_mixed_state() {
    let mut data = vec![1u8; 16];
    let changes = vec![
        Change { offset: 0, original: vec![1], patch: vec![2] },
        Change { offset: 100, original: vec![1], patch: vec![3] },
    ];
    match apply_changes(&mut data, &changes, Action::Apply) {
        Err(PatcherError::WriteFailed { offset }) => assert_eq!(offset, 100),
        other => panic!("expected a write failure, got {:?}", other),
    }
    assert_eq!(data[0], 2);
}

#[test]
fn error_messages() {
    let e = PatcherError::UnknownVersion {
        hash: Digest::from_hex(&b"bc1d695c6fdb3dea491b367f73bbb045c316b32e".to_vec()).unwrap(),
    };
    assert_eq!(
        e.message(),
        b"Unknown executable version: SHA1: bc1d695c6fdb3dea491b367f73bbb045c316b32e".to_vec()
    );
    let e = PatcherError::BadVDF { path: b"/tmp/libraryfolders.vdf".to_vec() };
    assert_eq!(e.message(), b"Invalid VDF file: /tmp/libraryfolders.vdf".to_vec());
    let e = PatcherError::CantFindManifest { appid: 49520 };
    assert_eq!(e.message(), b"Cannot find manifest for appid 49520".to_vec());
}

#[test]
fn err_box_wraps_errors() {
    let r: Result<u32, PatcherError> = binpatch::errors::err_box(PatcherError::CantFindManifest {
        appid: 3,
    });
    match r {
        Err(PatcherError::CantFindManifest { appid }) => assert_eq!(appid, 3),
        other => panic!("expected the wrapped error, got {:?}", other),
    }
}
