//! Core logic of a desktop companion for a content-addressed storage node.
//!
//! A source peer watches folders, uploads changed files to its local node,
//! and periodically authors sequence-numbered manifests describing current
//! contents and deletions. A backup peer discovers those manifests, fetches
//! the referenced content over the peer network, and enforces deletions.
//!
//! This crate holds the verified core: the data model, the manifest codec,
//! the sync-engine state, the backup daemon's state machine, the manifest
//! registry, and the pure decision logic of the node supervisor. All I/O
//! (HTTP, filesystem, process management) lives outside, in thin callers
//! that hand plain values in and take plain values back.

use vstd::prelude::*;

pub mod backup_notify;
mod binaries;
mod codec;
pub mod config;
mod daemon;
mod errors;
mod ext;
mod features;
mod manifest;
pub mod node_client;
pub mod peers;
mod registry;
mod streaming;
pub mod supervisor;
mod sync_engine;
mod text;

pub use backup_notify::{
    extract_ip_from_multiaddr, multiaddr_host, split_string, trigger_url, trigger_acknowledged,
};
pub use binaries::{BinaryManager, BinaryStatus};
pub use codec::{
    FileEntryView, TombstoneView, ManifestView, encode_spec, scan_manifest, encode_manifest,
    decode_manifest, lemma_manifest_round_trip,
};
pub use config::{
    Theme, NodeSettings, SyncSettings, BlockchainSettings, SourcePeerConfig, AppConfig,
};
pub use daemon::{
    DaemonState, DaemonStats, ProcessedManifest, InProgressManifest, FailedManifest,
    DiscoveredManifest, DownloadTally, DeletionTally, FetchOutcome, DeleteOutcome, SequenceCheck,
    classify_sequence, count_fetch_outcomes, count_delete_outcomes, lemma_processed_excluded,
    unprocessed_view, flatten_discovery, sat32, sat64,
};
pub use errors::ArchivistError;
pub use features::Features;
pub use manifest::{FileEntry, TombstoneEntry, Manifest, ManifestStats, total_size_of, size_sum};
pub use node_client::{
    NodeInfo, ArchivistInfo, SpaceInfo, UploadResponse, UploadResult, DataListResponse, DataItem,
    contains_cid,
};
pub use peers::{
    PeerStats, PeerList, SavedPeer, PeerDirectory, extract_peer_id, peer_id_of, record_effect,
    lemma_connect_idempotent, build_peer_list, shows_connected, shows_saved, unlisted_saved,
};
pub use registry::{
    ManifestInfo, ManifestDiscoveryResponse, ManifestRegistry, ManifestServerConfig,
    is_ip_allowed, discovery_status, ip_allowed_spec,
};
pub use streaming::{MediaStreamingConfig, MediaLibraryItem, LibraryResponse, parse_range};
pub use supervisor::{
    NodeState, NodeStatus, NodeConfig, NodeEvent, StartAction, start_plan, MonitorDecision,
    monitor_decision, LogFault, classify_log_line,
};
pub use sync_engine::{
    FolderStatus, SyncEvent, WatchedFolder, PendingFile, SyncState, SyncEngine, TombstoneOutcome,
    path_under, file_name, ignored_name, is_path_under, file_name_of, is_ignored_name,
    non_overlapping, lemma_unique_owner, author_step, lemma_sequence_monotonic, enabled_ids,
    folder_like, folder_files_wf,
};

verus! {

/// HTTP status classification used by callers of the node API: transport
/// errors and 5xx responses are worth retrying, 4xx responses are not.
pub fn is_retryable_status(status: u16) -> (r: bool)
    ensures
        r == (500 <= status && status <= 599),
{
    500 <= status && status <= 599
}

} // verus!
