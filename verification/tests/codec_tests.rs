use archivist_core::{
    decode_manifest, encode_manifest, FileEntry, Manifest, ManifestStats, TombstoneEntry,
};

fn sample_manifest() -> Manifest {
    Manifest {
        version: String::from("1.0"),
        folder_id: String::from("F1"),
        folder_path: String::from("/tmp/src"),
        source_peer_id: String::from("PA"),
        sequence_number: 2,
        last_updated: String::from("2024-01-02T03:04:05+00:00"),
        manifest_cid: None,
        files: vec![FileEntry {
            path: String::from("b.txt"),
            cid: String::from("Cb"),
            size_bytes: 5,
            mime_type: Some(String::from("text/plain")),
            uploaded_at: String::from("2024-01-02T03:00:00+00:00"),
        }],
        deleted_files: vec![TombstoneEntry {
            path: String::from("a.txt"),
            cid: String::from("Ca"),
            deleted_at: String::from("2024-01-02T03:01:00+00:00"),
        }],
        stats: ManifestStats { total_files: 1, total_size_bytes: 5 },
    }
}

fn assert_same(a: &Manifest, b: &Manifest) {
    assert_eq!(a.version, b.version);
    assert_eq!(a.folder_id, b.folder_id);
    assert_eq!(a.folder_path, b.folder_path);
    assert_eq!(a.source_peer_id, b.source_peer_id);
    assert_eq!(a.sequence_number, b.sequence_number);
    assert_eq!(a.last_updated, b.last_updated);
    assert_eq!(a.manifest_cid, b.manifest_cid);
    assert_eq!(a.files.len(), b.files.len());
    for (x, y) in a.files.iter().zip(b.files.iter()) {
        assert_eq!(x.path, y.path);
        assert_eq!(x.cid, y.cid);
        assert_eq!(x.size_bytes, y.size_bytes);
        assert_eq!(x.mime_type, y.mime_type);
        assert_eq!(x.uploaded_at, y.uploaded_at);
    }
    assert_eq!(a.deleted_files.len(), b.deleted_files.len());
    for (x, y) in a.deleted_files.iter().zip(b.deleted_files.iter()) {
        assert_eq!(x.path, y.path);
        assert_eq!(x.cid, y.cid);
        assert_eq!(x.deleted_at, y.deleted_at);
    }
    assert_eq!(a.stats, b.stats);
}

#[test]
fn test_manifest_round_trip() {
    let m = sample_manifest();
    let text = encode_manifest(&m);
    let back = decode_manifest(&text).expect("decoding an encoded manifest succeeds");
    assert_same(&m, &back);
}

#[test]
fn test_manifest_round_trip_empty_lists() {
    let mut m = sample_manifest();
    m.files = vec![];
    m.deleted_files = vec![];
    m.manifest_cid = Some(String::from("Cm"));
    m.stats = ManifestStats { total_files: 0, total_size_bytes: 0 };
    let text = encode_manifest(&m);
    let back = decode_manifest(&text).expect("decoding an encoded manifest succeeds");
    assert_same(&m, &back);
}

#[test]
fn test_manifest_round_trip_escapes() {
    let mut m = sample_manifest();
    m.folder_path = String::from("/tmp/\"quoted\\dir\"");
    m.files[0].path = String::from("odd \"name\".txt");
    m.files[0].mime_type = None;
    let text = encode_manifest(&m);
    let back = decode_manifest(&text).expect("decoding an encoded manifest succeeds");
    assert_same(&m, &back);
}

#[test]
fn test_encode_exact_form() {
    let mut m = sample_manifest();
    m.files = vec![];
    m.deleted_files = vec![];
    m.stats = ManifestStats { total_files: 0, total_size_bytes: 0 };
    let text = encode_manifest(&m);
    let expected = "{\"version\":\"1.0\",\"folder_id\":\"F1\",\"folder_path\":\"/tmp/src\",\"source_peer_id\":\"PA\",\"sequence_number\":2,\"last_updated\":\"2024-01-02T03:04:05+00:00\",\"manifest_cid\":null,\"files\":[],\"deleted_files\":[],\"stats\":{\"total_files\":0,\"total_size_bytes\":0}}";
    assert_eq!(text, expected);
}

#[test]
fn test_decode_rejects_garbage() {
    assert!(decode_manifest("").is_none());
    assert!(decode_manifest("{}").is_none());
    let m = sample_manifest();
    let mut text = encode_manifest(&m);
    text.push('x');
    assert!(decode_manifest(&text).is_none(), "leftover input is rejected");
}
