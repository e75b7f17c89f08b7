use archivist_core::node_client::PeerInfo as NodePeerInfo;
use archivist_core::{
    flatten_discovery, ManifestDiscoveryResponse, SourcePeerConfig, build_peer_list, PeerDirectory,
    classify_sequence, count_delete_outcomes, count_fetch_outcomes, discovery_status,
    is_ip_allowed, ArchivistError, DaemonState, DeleteOutcome, DeletionTally, DiscoveredManifest,
    DownloadTally, FetchOutcome, InProgressManifest, ManifestInfo, ManifestRegistry,
    ManifestServerConfig, ProcessedManifest, SequenceCheck,
};

fn discovered(cid: &str, folder: &str, seq: u64) -> DiscoveredManifest {
    DiscoveredManifest {
        cid: String::from(cid),
        folder_id: String::from(folder),
        sequence_number: seq,
        source_peer_id: String::from("PA"),
        source_host: String::from("127.0.0.1"),
        multiaddr: None,
    }
}

fn in_progress(cid: &str, seq: u64, total: u32) -> InProgressManifest {
    InProgressManifest {
        manifest_cid: String::from(cid),
        source_peer_id: String::from("PA"),
        sequence_number: seq,
        started_at: String::from("t0"),
        total_files: total,
        files_downloaded: 0,
        files_failed: 0,
        current_status: String::from("Downloading files"),
    }
}

#[test]
fn test_backup_ingests_manifest() {
    // Backup peer PB processes the manifest for folder F1 at sequence
    // two: one file fetched, the tombstoned file not present locally.
    // Afterwards the manifest is processed, nothing is in flight and
    // nothing failed.
    let mut st = DaemonState::initial(String::from("t0"));
    let work = st.filter_unprocessed(vec![discovered("Cm2", "F1", 2)]);
    assert_eq!(work.len(), 1);
    assert!(st.begin_processing(in_progress("Cm2", 2, 1)));

    let dl = count_fetch_outcomes(&vec![FetchOutcome::Downloaded]);
    assert_eq!(dl.downloaded, 1);
    let del = count_delete_outcomes(&vec![DeleteOutcome::NotFound]);
    assert_eq!(del.not_found, 1);
    assert_eq!(del.deleted, 0);

    assert!(st.update_progress(&String::from("Cm2"), 1, 0, String::from("Enforcing deletions")));
    assert!(st.finalize(
        &String::from("Cm2"),
        &String::from("PA"),
        &String::from("F1"),
        2,
        5,
        Ok(dl),
        Ok(del),
        String::from("t1"),
    ));
    assert_eq!(st.processed_manifests.len(), 1);
    assert_eq!(st.processed_manifests[0].manifest_cid, "Cm2");
    assert_eq!(st.processed_manifests[0].file_count, 1);
    assert_eq!(st.processed_manifests[0].deleted_count, 0);
    assert!(st.in_progress_manifests.is_empty());
    assert!(st.failed_manifests.is_empty());
    assert_eq!(st.stats.total_manifests_processed, 1);
    assert_eq!(st.stats.total_files_downloaded, 1);
}

#[test]
fn test_processed_excluded_from_next_cycle() {
    // A processed manifest is processed at most once: later discovery
    // rounds filter it out.
    let mut st = DaemonState::initial(String::from("t0"));
    assert!(st.begin_processing(in_progress("Cm1", 1, 0)));
    assert!(st.finalize(
        &String::from("Cm1"),
        &String::from("PA"),
        &String::from("F1"),
        1,
        0,
        Ok(DownloadTally { downloaded: 0, failed: 0, skipped_existing: 0 }),
        Ok(DeletionTally { deleted: 0, failed: 0, not_found: 0 }),
        String::from("t1"),
    ));
    let work = st.filter_unprocessed(vec![
        discovered("Cm1", "F1", 1),
        discovered("Cm2", "F1", 2),
    ]);
    assert_eq!(work.len(), 1);
    assert_eq!(work[0].cid, "Cm2");
    // a second begin for the processed CID is refused
    assert!(!st.begin_processing(in_progress("Cm1", 1, 0)));
}

#[test]
fn test_stale_manifest_marked_processed_without_work() {
    // A manifest at or below the highest processed sequence for its peer
    // and folder is marked processed without fetching anything.
    let mut st = DaemonState::initial(String::from("t0"));
    assert!(st.begin_processing(in_progress("Cm3", 3, 0)));
    assert!(st.finalize(
        &String::from("Cm3"),
        &String::from("PA"),
        &String::from("F1"),
        3,
        0,
        Ok(DownloadTally { downloaded: 0, failed: 0, skipped_existing: 0 }),
        Ok(DeletionTally { deleted: 0, failed: 0, not_found: 0 }),
        String::from("t1"),
    ));
    let highest = st.highest_processed_seq(&String::from("PA"), &String::from("F1"));
    assert_eq!(highest, Some(3));
    assert_eq!(classify_sequence(highest, 2), SequenceCheck::Stale);
    assert!(st.mark_stale_processed(ProcessedManifest {
        manifest_cid: String::from("Cm2"),
        source_peer_id: String::from("PA"),
        sequence_number: 2,
        folder_id: String::from("F1"),
        processed_at: String::from("t2"),
        file_count: 0,
        total_size_bytes: 0,
        deleted_count: 0,
    }));
    assert_eq!(st.processed_manifests.len(), 2);
    assert!(st.in_progress_manifests.is_empty());
}

#[test]
fn test_sequence_gap_tolerated() {
    // The source emitted v1, v2, v3 and the backup missed v2: v3 shows a
    // gap of one, is processed anyway, and both end up processed.
    let mut st = DaemonState::initial(String::from("t0"));
    assert!(st.begin_processing(in_progress("Cm1", 1, 0)));
    assert!(st.finalize(
        &String::from("Cm1"),
        &String::from("PA"),
        &String::from("F1"),
        1,
        0,
        Ok(DownloadTally { downloaded: 0, failed: 0, skipped_existing: 0 }),
        Ok(DeletionTally { deleted: 0, failed: 0, not_found: 0 }),
        String::from("t1"),
    ));
    let highest = st.highest_processed_seq(&String::from("PA"), &String::from("F1"));
    assert_eq!(classify_sequence(highest, 3), SequenceCheck::Gap(1));
    assert!(st.begin_processing(in_progress("Cm3", 3, 0)));
    assert!(st.finalize(
        &String::from("Cm3"),
        &String::from("PA"),
        &String::from("F1"),
        3,
        0,
        Ok(DownloadTally { downloaded: 0, failed: 0, skipped_existing: 0 }),
        Ok(DeletionTally { deleted: 0, failed: 0, not_found: 0 }),
        String::from("t2"),
    ));
    assert_eq!(st.processed_manifests.len(), 2);
    assert!(st.failed_manifests.is_empty());
}

#[test]
fn test_sequence_classes() {
    assert_eq!(classify_sequence(None, 1), SequenceCheck::FirstSeen);
    assert_eq!(classify_sequence(Some(1), 2), SequenceCheck::InOrder);
    assert_eq!(classify_sequence(Some(1), 1), SequenceCheck::Stale);
    assert_eq!(classify_sequence(Some(1), 4), SequenceCheck::Gap(2));
}

#[test]
fn test_failed_manifest_retry_cycle() {
    // A failed manifest is retried while under the retry budget and kept
    // as a permanent failure once the budget is spent.
    let mut st = DaemonState::initial(String::from("t0"));
    assert!(st.begin_processing(in_progress("Cm1", 1, 2)));
    assert!(st.finalize(
        &String::from("Cm1"),
        &String::from("PA"),
        &String::from("F1"),
        1,
        0,
        Err(ArchivistError::NodeUnavailable),
        Ok(DeletionTally { deleted: 0, failed: 0, not_found: 0 }),
        String::from("t1"),
    ));
    assert_eq!(st.failed_manifests.len(), 1);
    assert_eq!(st.failed_manifests[0].retry_count, 0);
    assert_eq!(st.failed_manifests[0].error_message, "node unavailable");

    let due = st.reap_retries(3);
    assert_eq!(due.len(), 1);
    assert!(st.failed_manifests.is_empty());

    // the retry fails again: the record returns with the count advanced
    let entry = due.into_iter().next().unwrap();
    assert!(st.record_retry_failure(
        entry,
        &ArchivistError::NodeUnavailable,
        String::from("t2")
    ));
    assert_eq!(st.failed_manifests.len(), 1);
    assert_eq!(st.failed_manifests[0].retry_count, 1);

    // at the budget the record stays behind as a permanent failure
    let none_due = st.reap_retries(1);
    assert!(none_due.is_empty());
    assert_eq!(st.failed_manifests.len(), 1);
}

#[test]
fn test_registry_last_writer_wins_by_sequence() {
    fn info(folder: &str, cid: &str, seq: u64) -> ManifestInfo {
        ManifestInfo {
            folder_id: String::from(folder),
            folder_path: String::from("/tmp/src"),
            manifest_cid: String::from(cid),
            sequence_number: seq,
            updated_at: String::from("t"),
            file_count: 1,
            total_size_bytes: 5,
        }
    }
    let mut reg = ManifestRegistry::new();
    reg.register_manifest(info("F1", "Cm2", 2));
    // an older descriptor never overwrites a newer one
    reg.register_manifest(info("F1", "Cm1", 1));
    let got = reg.get_manifest("F1").unwrap();
    assert_eq!(got.manifest_cid, "Cm2");
    assert_eq!(got.sequence_number, 2);
    // a newer one replaces
    reg.register_manifest(info("F1", "Cm3", 3));
    assert_eq!(reg.get_manifest("F1").unwrap().manifest_cid, "Cm3");
    // a second folder gets its own entry
    reg.register_manifest(info("F2", "Cx1", 1));
    assert_eq!(reg.get_all_manifests().len(), 2);
    assert!(reg.get_manifest("F3").is_none());
}

#[test]
fn test_discovery_access_denied_by_default() {
    // An empty allow-list denies everyone; a listed address is let in
    // with the manifest list, everyone else sees unauthorized.
    let mut cfg = ManifestServerConfig::default();
    assert_eq!(discovery_status(&cfg, &String::from("203.0.113.50")), 401);
    cfg.allowed_ips.push(String::from("203.0.113.50"));
    assert!(is_ip_allowed(&cfg, &String::from("203.0.113.50")));
    assert_eq!(discovery_status(&cfg, &String::from("203.0.113.50")), 200);
    assert_eq!(discovery_status(&cfg, &String::from("203.0.113.51")), 401);
}

#[test]
fn test_outcome_counting() {
    let dl = count_fetch_outcomes(&vec![
        FetchOutcome::Downloaded,
        FetchOutcome::SkippedExisting,
        FetchOutcome::Failed,
        FetchOutcome::Downloaded,
    ]);
    assert_eq!(dl.downloaded, 2);
    assert_eq!(dl.skipped_existing, 1);
    assert_eq!(dl.failed, 1);
    let del = count_delete_outcomes(&vec![
        DeleteOutcome::Deleted,
        DeleteOutcome::NotFound,
        DeleteOutcome::Failed,
    ]);
    assert_eq!(del.deleted, 1);
    assert_eq!(del.not_found, 1);
    assert_eq!(del.failed, 1);
}

#[test]
fn test_flatten_discovery_records() {
    let peer = SourcePeerConfig {
        nickname: String::from("primary"),
        host: String::from("127.0.0.1"),
        manifest_port: 8085,
        peer_id: None,
        multiaddr: Some(String::from("/ip4/127.0.0.1/tcp/8070")),
        enabled: true,
    };
    let resp = ManifestDiscoveryResponse {
        peer_id: String::from("PA"),
        manifests: vec![ManifestInfo {
            folder_id: String::from("F1"),
            folder_path: String::from("/tmp/src"),
            manifest_cid: String::from("Cm2"),
            sequence_number: 2,
            updated_at: String::from("t"),
            file_count: 1,
            total_size_bytes: 5,
        }],
        timestamp: String::from("t"),
    };
    let found = flatten_discovery(&peer, &resp);
    assert_eq!(found.len(), 1);
    assert_eq!(found[0].cid, "Cm2");
    assert_eq!(found[0].folder_id, "F1");
    assert_eq!(found[0].sequence_number, 2);
    assert_eq!(found[0].source_peer_id, "PA");
    assert_eq!(found[0].source_host, "127.0.0.1");
    assert_eq!(found[0].multiaddr.as_deref(), Some("/ip4/127.0.0.1/tcp/8070"));
}

#[test]
fn test_build_peer_list_merge() {
    let mut dir = PeerDirectory::new();
    dir.record_connected(
        String::from("A"),
        String::from("/ip4/1.1.1.1/tcp/1/p2p/A"),
        String::from("t"),
    );
    dir.record_connected(
        String::from("B"),
        String::from("/ip4/2.2.2.2/tcp/2/p2p/B"),
        String::from("t"),
    );
    let connected = vec![NodePeerInfo {
        peer_id: String::from("A"),
        addresses: vec![String::from("/ip4/1.1.1.1/tcp/1")],
    }];
    let list = build_peer_list(
        &dir,
        connected,
        Some(String::from("PB")),
        vec![],
        None,
        &String::from("now"),
    );
    assert_eq!(list.peers.len(), 2);
    assert_eq!(list.peers[0].id, "A");
    assert!(list.peers[0].connected);
    assert_eq!(list.peers[1].id, "B");
    assert!(!list.peers[1].connected);
    assert_eq!(list.stats.total_peers, 2);
    assert_eq!(list.stats.connected_peers, 1);
}

#[test]
fn test_discovery_response_shape() {
    let mut reg = ManifestRegistry::new();
    let resp = reg.get_discovery_response();
    assert_eq!(resp.peer_id, "unknown");
    assert!(resp.manifests.is_empty());
    assert!(!resp.timestamp.is_empty());
    reg.set_peer_id(String::from("PA"));
    let resp = reg.get_discovery_response();
    assert_eq!(resp.peer_id, "PA");
}
