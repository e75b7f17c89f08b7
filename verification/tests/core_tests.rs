use archivist_core::{extract_ip_from_multiaddr, extract_peer_id, trigger_url, ArchivistError, is_retryable_status};
use archivist_core::{
    start_plan, StartAction, monitor_decision, MonitorDecision, NodeConfig, NodeState, NodeStatus,
    classify_log_line, LogFault, PeerDirectory, Features,
};

#[test]
fn test_basic_functionality() {
    // Basic smoke test
    assert_eq!(2 + 2, 4);
}

#[test]
fn test_extract_ip_from_multiaddr() {
    // Test ip4 format
    let result = extract_ip_from_multiaddr(&String::from(
        "/ip4/192.168.1.100/tcp/8070/p2p/16Uiu2HAmXYZ",
    ));
    assert!(result.is_ok());
    assert_eq!(result.unwrap(), "192.168.1.100");

    // Test with public IP
    let result =
        extract_ip_from_multiaddr(&String::from("/ip4/203.0.113.50/tcp/8070/p2p/16Uiu2HAmABC"));
    assert!(result.is_ok());
    assert_eq!(result.unwrap(), "203.0.113.50");

    // Test dns4 format
    let result = extract_ip_from_multiaddr(&String::from(
        "/dns4/backup.example.com/tcp/8070/p2p/16Uiu2HAmXYZ",
    ));
    assert!(result.is_ok());
    assert_eq!(result.unwrap(), "backup.example.com");

    // Test invalid format
    let result = extract_ip_from_multiaddr(&String::from("invalid-multiaddr"));
    assert!(result.is_err());
}

#[test]
fn test_extract_peer_id_forms() {
    let r = extract_peer_id(&String::from("/ip4/1.2.3.4/tcp/8070/p2p/16Uiu2HAmXYZ"));
    assert_eq!(r.unwrap(), "16Uiu2HAmXYZ");
    let r = extract_peer_id(&String::from("spr:abcdef"));
    assert_eq!(r.unwrap(), "spr:abcdef");
    let r = extract_peer_id(&String::from("QmPeer"));
    assert_eq!(r.unwrap(), "QmPeer");
    let r = extract_peer_id(&String::from("12D3KooW"));
    assert_eq!(r.unwrap(), "12D3KooW");
    let r = extract_peer_id(&String::from("no-marker-here"));
    assert!(matches!(r, Err(ArchivistError::PeerConnectionFailed(_))));
}

#[test]
fn test_trigger_url_shape() {
    let u = trigger_url(&String::from("203.0.113.50"), 8086);
    assert_eq!(u, "http://203.0.113.50:8086/trigger");
}

#[test]
fn test_connect_url_percent_encodes() {
    // The multi-address goes percent-encoded into the query; a wrapper
    // that handed its argument back unchanged would keep the slashes.
    let base = String::from("http://127.0.0.1:8080");
    let u = archivist_core::node_client::connect_url(
        &base,
        &String::from("16Uiu2"),
        &String::from("/ip4/1.2.3.4/tcp/8070"),
    );
    assert_eq!(
        u,
        "http://127.0.0.1:8080/api/archivist/v1/connect/16Uiu2?addrs=%2Fip4%2F1.2.3.4%2Ftcp%2F8070"
    );
}

#[test]
fn test_error_messages() {
    assert_eq!(ArchivistError::NodeNotRunning.message(), "node not running");
    assert_eq!(
        ArchivistError::FileNotFound(String::from("x")).message(),
        "file not found: x"
    );
    assert_eq!(
        ArchivistError::SyncError(String::from("boom")).message(),
        "sync error: boom"
    );
    assert_eq!(
        ArchivistError::ConfigError(String::from("bad")).message(),
        "configuration error: bad"
    );
}

#[test]
fn test_start_plan_orphan_cleanup() {
    // A leftover process on the API port is terminated before the spawn.
    let plan = start_plan(Some(4242));
    assert_eq!(
        plan,
        vec![
            StartAction::KillOrphan(4242),
            StartAction::EnsureDataDir,
            StartAction::SpawnNode,
            StartAction::AwaitHealthy
        ]
    );
    let plan = start_plan(None);
    assert_eq!(
        plan,
        vec![StartAction::EnsureDataDir, StartAction::SpawnNode, StartAction::AwaitHealthy]
    );
}

#[test]
fn test_monitor_decision_policy() {
    let cfg = NodeConfig::default();
    assert_eq!(
        monitor_decision(NodeState::Stopped, false, false, 0, &cfg),
        MonitorDecision::Ignore
    );
    assert_eq!(
        monitor_decision(NodeState::Running, true, true, 0, &cfg),
        MonitorDecision::NoteHealthy
    );
    assert_eq!(
        monitor_decision(NodeState::Running, false, true, 0, &cfg),
        MonitorDecision::Wait
    );
    assert_eq!(
        monitor_decision(NodeState::Running, false, false, 0, &cfg),
        MonitorDecision::Restart
    );
    assert_eq!(
        monitor_decision(NodeState::Running, false, false, 3, &cfg),
        MonitorDecision::GiveUp
    );
}

#[test]
fn test_supervisor_transitions() {
    let mut st = NodeStatus::initial();
    assert!(matches!(st.begin_stop(), Err(ArchivistError::NodeNotRunning)));
    assert!(st.begin_start().is_ok());
    assert!(matches!(st.begin_start(), Err(ArchivistError::NodeAlreadyRunning)));
    st.mark_running(77, String::from("http://127.0.0.1:5001"));
    assert!(st.begin_start().is_err());
    assert!(st.begin_stop().is_ok());
    st.mark_stopped();
    assert_eq!(st.pid, None);
}

#[test]
fn test_classify_log_line() {
    assert_eq!(
        classify_log_line(&String::from("ERR Should create discovery datastore!")),
        LogFault::CorruptDatastore
    );
    assert_eq!(
        classify_log_line(&String::from("bind: Address already in use")),
        LogFault::PortConflict
    );
    assert_eq!(classify_log_line(&String::from("all fine")), LogFault::Benign);
}

#[test]
fn test_peer_directory_idempotent_connect() {
    // Connecting twice to the same peer records it once.
    let mut d = PeerDirectory::new();
    assert!(d.record_connected(
        String::from("16Uiu2"),
        String::from("/ip4/1.2.3.4/tcp/8070/p2p/16Uiu2"),
        String::from("t1")
    ));
    assert!(!d.record_connected(
        String::from("16Uiu2"),
        String::from("/ip4/1.2.3.4/tcp/8070/p2p/16Uiu2"),
        String::from("t2")
    ));
    assert_eq!(d.saved_peers.len(), 1);
    d.remove_peer(&String::from("16Uiu2"));
    assert_eq!(d.saved_peers.len(), 0);
}

#[test]
fn test_features_flags() {
    let f = Features::new();
    assert!(!f.marketplace);
    assert!(!f.zk_proofs);
    assert!(!f.analytics);
    assert!(!f.has_v2_features());
}

#[test]
fn test_retryable_statuses() {
    assert!(is_retryable_status(500));
    assert!(is_retryable_status(503));
    assert!(!is_retryable_status(404));
    assert!(!is_retryable_status(200));
}
