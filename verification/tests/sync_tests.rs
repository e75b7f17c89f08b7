use archivist_core::{ArchivistError, SyncEngine, TombstoneOutcome, FolderStatus};

fn engine_with_folder() -> SyncEngine {
    let mut e = SyncEngine::new(2);
    e.add_folder(String::from("F1"), String::from("/tmp/src"), 0, 0)
        .expect("fresh folder is accepted");
    e
}

#[test]
fn test_single_file_round_trip() {
    // Source peer PA watches /tmp/src as folder F1 with a threshold of
    // two changes. The first upload leaves the counter below the
    // threshold; the second triggers a manifest with both files and no
    // tombstones.
    let mut e = engine_with_folder();
    let f1 = String::from("F1");
    assert!(e.record_upload(
        &f1,
        String::from("a.txt"),
        &String::from("/tmp/src/a.txt"),
        String::from("Ca"),
        5,
        Some(String::from("text/plain")),
        String::from("t1"),
    ));
    assert_eq!(e.folders[0].files.len(), 1);
    assert_eq!(e.folders[0].files[0].path, "a.txt");
    assert_eq!(e.folders[0].files[0].cid, "Ca");
    assert_eq!(e.folders[0].files[0].size_bytes, 5);
    assert_eq!(e.folders[0].changes_since_manifest, 1);
    assert!(!e.should_author(&f1), "one change stays below the threshold");

    assert!(e.record_upload(
        &f1,
        String::from("b.txt"),
        &String::from("/tmp/src/b.txt"),
        String::from("Cb"),
        5,
        Some(String::from("text/plain")),
        String::from("t2"),
    ));
    assert_eq!(e.folders[0].files.len(), 2);
    assert_eq!(e.folders[0].changes_since_manifest, 2);
    assert!(e.should_author(&f1));

    let m = e
        .author_manifest(&f1, &String::from("PA"), String::from("t3"))
        .expect("authoring succeeds");
    assert_eq!(m.sequence_number, 1);
    assert_eq!(m.source_peer_id, "PA");
    assert_eq!(m.files.len(), 2);
    assert_eq!(m.deleted_files.len(), 0);
    assert_eq!(m.stats.total_files, 2);
    assert_eq!(m.stats.total_size_bytes, 10);
    assert!(e.folders[0].pending_retry);
    assert_eq!(e.folders[0].manifest_sequence, 1);
    assert_eq!(e.folders[0].tombstones.len(), 0);
    assert_eq!(e.folders[0].changes_since_manifest, 0);
}

#[test]
fn test_deletion_becomes_tombstone() {
    // After manifest v1, deleting a.txt leaves a tombstone carrying its
    // last content address; manifest v2 lists only b.txt and carries the
    // tombstone, and authoring drains the tombstone list.
    let mut e = engine_with_folder();
    let f1 = String::from("F1");
    for (p, c) in [("a.txt", "Ca"), ("b.txt", "Cb")] {
        let abs = format!("/tmp/src/{}", p);
        e.record_upload(
            &f1,
            String::from(p),
            &abs,
            String::from(c),
            5,
            None,
            String::from("t"),
        );
    }
    e.author_manifest(&f1, &String::from("PA"), String::from("t3"))
        .unwrap();

    let r = e.record_delete(&f1, &String::from("a.txt"), String::from("t4"));
    assert_eq!(r, TombstoneOutcome::Tombstoned);
    assert_eq!(e.folders[0].files.len(), 1);
    assert_eq!(e.folders[0].files[0].path, "b.txt");
    assert_eq!(e.folders[0].tombstones.len(), 1);
    assert_eq!(e.folders[0].tombstones[0].path, "a.txt");
    assert_eq!(e.folders[0].tombstones[0].cid, "Ca");
    assert_eq!(e.folders[0].changes_since_manifest, 1);

    let v2 = e
        .author_manifest(&f1, &String::from("PA"), String::from("t5"))
        .unwrap();
    assert_eq!(v2.sequence_number, 2);
    assert_eq!(v2.files.len(), 1);
    assert_eq!(v2.files[0].path, "b.txt");
    assert_eq!(v2.deleted_files.len(), 1);
    assert_eq!(v2.deleted_files[0].path, "a.txt");
    assert_eq!(e.folders[0].tombstones.len(), 0);
}

#[test]
fn test_delete_never_uploaded_is_noop() {
    // Deleting a path that was never uploaded leaves no tombstone.
    let mut e = engine_with_folder();
    let r = e.record_delete(
        &String::from("F1"),
        &String::from("ghost.txt"),
        String::from("t"),
    );
    assert_eq!(r, TombstoneOutcome::NotTracked);
    assert_eq!(e.folders[0].tombstones.len(), 0);
    assert_eq!(e.folders[0].changes_since_manifest, 0);
}

#[test]
fn test_replace_in_place() {
    // A file replaced under the same path gives exactly one mapping
    // replacement and one change-counter increment.
    let mut e = engine_with_folder();
    let f1 = String::from("F1");
    e.record_upload(
        &f1,
        String::from("a.txt"),
        &String::from("/tmp/src/a.txt"),
        String::from("Ca"),
        5,
        None,
        String::from("t1"),
    );
    e.record_upload(
        &f1,
        String::from("a.txt"),
        &String::from("/tmp/src/a.txt"),
        String::from("Ca2"),
        7,
        None,
        String::from("t2"),
    );
    assert_eq!(e.folders[0].files.len(), 1);
    assert_eq!(e.folders[0].files[0].cid, "Ca2");
    assert_eq!(e.folders[0].files[0].size_bytes, 7);
    assert_eq!(e.folders[0].changes_since_manifest, 2);
}

#[test]
fn test_folder_owner_longest_prefix() {
    let mut e = SyncEngine::new(2);
    e.add_folder(String::from("Fa"), String::from("/tmp/src"), 0, 0).unwrap();
    e.add_folder(String::from("Fb"), String::from("/tmp/src2"), 0, 0).unwrap();
    assert_eq!(
        e.find_folder_for_path(&String::from("/tmp/src/a.txt")),
        Some(String::from("Fa"))
    );
    assert_eq!(
        e.find_folder_for_path(&String::from("/tmp/src2/b.txt")),
        Some(String::from("Fb"))
    );
    assert_eq!(e.find_folder_for_path(&String::from("/var/other")), None);
}

#[test]
fn test_queue_rules() {
    let mut e = engine_with_folder();
    // hidden and temporary names never enter the queue
    assert!(!e.queue_file(
        String::from("/tmp/src/.hidden"),
        String::from("F1"),
        String::from("t"),
    ));
    assert!(!e.queue_file(
        String::from("/tmp/src/x.tmp"),
        String::from("F1"),
        String::from("t"),
    ));
    assert!(!e.queue_file(
        String::from("/tmp/src/x~"),
        String::from("F1"),
        String::from("t"),
    ));
    // the manifest file itself is hidden, so it never re-enters the queue
    assert!(!e.queue_file(
        String::from("/tmp/src/.archivist-manifest-PA.json"),
        String::from("F1"),
        String::from("t"),
    ));
    // a plain file enters once
    assert!(e.queue_file(
        String::from("/tmp/src/a.txt"),
        String::from("F1"),
        String::from("t"),
    ));
    assert!(!e.queue_file(
        String::from("/tmp/src/a.txt"),
        String::from("F1"),
        String::from("t"),
    ));
    assert_eq!(e.upload_queue.len(), 1);
    assert_eq!(e.folders[0].status, FolderStatus::Syncing);

    let batch = e.take_upload_batch(5);
    assert_eq!(batch.len(), 1);
    assert_eq!(batch[0].path, "/tmp/src/a.txt");
    assert_eq!(e.upload_queue.len(), 0);
}

#[test]
fn test_recent_uploads_ring_capacity() {
    let mut e = engine_with_folder();
    let f1 = String::from("F1");
    for i in 0..12 {
        let name = format!("f{}.txt", i);
        let abs = format!("/tmp/src/{}", name);
        e.record_upload(
            &f1,
            name,
            &abs,
            format!("C{}", i),
            1,
            None,
            String::from("t"),
        );
    }
    assert_eq!(e.recent_uploads.len(), 10);
    assert_eq!(e.recent_uploads[0], "f11.txt");
    assert_eq!(e.recent_uploads[9], "f2.txt");
}

#[test]
fn test_sequence_strictly_increasing() {
    let mut e = engine_with_folder();
    let f1 = String::from("F1");
    let pa = String::from("PA");
    let m1 = e.author_manifest(&f1, &pa, String::from("t1")).unwrap();
    let m2 = e.author_manifest(&f1, &pa, String::from("t2")).unwrap();
    let m3 = e.author_manifest(&f1, &pa, String::from("t3")).unwrap();
    assert_eq!(m1.sequence_number, 1);
    assert_eq!(m2.sequence_number, 2);
    assert_eq!(m3.sequence_number, 3);
}

#[test]
fn test_engine_state_view() {
    let mut e = engine_with_folder();
    e.set_folder_stats(&String::from("F1"), 4, 1000);
    let st = e.get_state();
    assert_eq!(st.folders.len(), 1);
    assert_eq!(st.total_files, 4);
    assert_eq!(st.queue_size, 0);
    assert!(!st.is_syncing);
}

#[test]
fn test_folder_errors() {
    let mut e = engine_with_folder();
    // a second folder on the same path is refused
    let r = e.add_folder(String::from("F2"), String::from("/tmp/src"), 0, 0);
    assert!(matches!(r, Err(ArchivistError::SyncError(_))));
    // authoring for an unknown folder names the missing id
    let r = e.author_manifest(&String::from("nope"), &String::from("PA"), String::from("t"));
    assert!(matches!(r, Err(ArchivistError::FileNotFound(_))));
    // removing an unknown folder fails the same way
    let r = e.remove_folder(&String::from("nope"));
    assert!(matches!(r, Err(ArchivistError::FileNotFound(_))));
}
