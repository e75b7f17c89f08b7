//! Application configuration shapes and their defaults. Reading and
//! writing the configuration file happens outside the library.

use vstd::prelude::*;

verus! {

/// Interface color theme.
#[derive(Debug, Clone, Copy, PartialEq, Eq, Structural)]
pub enum Theme {
    Light,
    Dark,
    System,
}

/// Settings of the node child process.
#[derive(Debug)]
pub struct NodeSettings {
    pub data_directory: String,
    pub api_port: u16,
    pub p2p_port: u16,
    pub max_storage_gb: u32,
    pub auto_start: bool,
}

/// Settings of the sync engine.
#[derive(Debug)]
pub struct SyncSettings {
    pub auto_sync: bool,
    pub sync_interval_seconds: u32,
    pub bandwidth_limit_mbps: Option<u32>,
    pub exclude_patterns: Vec<String>,
}

/// Settings of the optional blockchain integration.
#[derive(Debug)]
pub struct BlockchainSettings {
    pub network: String,
    pub rpc_url: String,
    pub wallet_address: Option<String>,
}

/// One source peer a backup daemon polls for manifests.
#[derive(Debug)]
pub struct SourcePeerConfig {
    pub nickname: String,
    pub host: String,
    pub manifest_port: u16,
    pub peer_id: Option<String>,
    pub multiaddr: Option<String>,
    pub enabled: bool,
}

impl Clone for SourcePeerConfig {
    fn clone(&self) -> (r: Self)
        ensures
            r == *self,
    {
        SourcePeerConfig {
            nickname: self.nickname.clone(),
            host: self.host.clone(),
            manifest_port: self.manifest_port,
            peer_id: crate::daemon::clone_opt_string(&self.peer_id),
            multiaddr: crate::daemon::clone_opt_string(&self.multiaddr),
            enabled: self.enabled,
        }
    }
}

/// The whole application configuration.
#[derive(Debug)]
pub struct AppConfig {
    pub theme: Theme,
    pub language: String,
    pub start_minimized: bool,
    pub start_on_boot: bool,
    pub node: NodeSettings,
    pub sync: SyncSettings,
}

impl Default for AppConfig {
    /// Defaults: system theme, English, auto-started node on the default
    /// ports, five-minute sync interval and the usual temporary-file
    /// exclusions.
    fn default() -> (r: Self)
        ensures
            r.theme is System,
            r.language@ == "en"@,
            !r.start_minimized,
            !r.start_on_boot,
            r.node.api_port == 5001,
            r.node.p2p_port == 4001,
            r.node.max_storage_gb == 10,
            r.node.auto_start,
            r.sync.auto_sync,
            r.sync.sync_interval_seconds == 300,
            r.sync.bandwidth_limit_mbps is None,
            r.sync.exclude_patterns@.len() == 4,
    {
        let data_directory = match crate::ext::data_dir_string() {
            Some(mut base) => {
                base.append("/archivist");
                base
            }
            None => String::from_str(".archivist"),
        };
        let mut exclude_patterns: Vec<String> = Vec::new();
        exclude_patterns.push(String::from_str("*.tmp"));
        exclude_patterns.push(String::from_str("*.temp"));
        exclude_patterns.push(String::from_str(".DS_Store"));
        exclude_patterns.push(String::from_str("Thumbs.db"));
        AppConfig {
            theme: Theme::System,
            language: String::from_str("en"),
            start_minimized: false,
            start_on_boot: false,
            node: NodeSettings {
                data_directory,
                api_port: 5001,
                p2p_port: 4001,
                max_storage_gb: 10,
                auto_start: true,
            },
            sync: SyncSettings {
                auto_sync: true,
                sync_interval_seconds: 300,
                bandwidth_limit_mbps: None,
                exclude_patterns,
            },
        }
    }
}

} // verus!
