//! The manifest registry and the access rule of the discovery server.
//!
//! The registry maps each watched folder to the latest manifest descriptor
//! the sync engine produced for it. The discovery HTTP server (outside the
//! library) serves the registry's response to peers whose address passes
//! the allow-list rule below.

use vstd::prelude::*;
use crate::ext::{str_eq, now_rfc3339};

verus! {

/// Descriptor of the latest manifest of one folder, as served to peers.
#[derive(Debug)]
pub struct ManifestInfo {
    pub folder_id: String,
    pub folder_path: String,
    pub manifest_cid: String,
    pub sequence_number: u64,
    pub updated_at: String,
    pub file_count: u32,
    pub total_size_bytes: u64,
}

impl Clone for ManifestInfo {
    fn clone(&self) -> (r: Self)
        ensures
            r == *self,
    {
        ManifestInfo {
            folder_id: self.folder_id.clone(),
            folder_path: self.folder_path.clone(),
            manifest_cid: self.manifest_cid.clone(),
            sequence_number: self.sequence_number,
            updated_at: self.updated_at.clone(),
            file_count: self.file_count,
            total_size_bytes: self.total_size_bytes,
        }
    }
}

/// What the discovery endpoint answers: this peer's id and the latest
/// descriptor of every folder.
#[derive(Debug)]
pub struct ManifestDiscoveryResponse {
    pub peer_id: String,
    pub manifests: Vec<ManifestInfo>,
    pub timestamp: String,
}

/// Registry of the latest manifest descriptor per folder. Insertion is
/// last-writer-wins by sequence number: an older descriptor never
/// overwrites a newer one.
#[derive(Debug)]
pub struct ManifestRegistry {
    manifests: Vec<ManifestInfo>,
    peer_id: Option<String>,
}

impl ManifestRegistry {
    /// The registered descriptors, one per folder.
    pub closed spec fn entries(self) -> Seq<ManifestInfo> {
        self.manifests@
    }

    /// The local peer id, once the node reported it.
    pub closed spec fn peer(self) -> Option<String> {
        self.peer_id
    }

    /// Each folder id occurs at most once.
    pub open spec fn wf(self) -> bool {
        forall|i: int, j: int|
            0 <= i < j < self.entries().len() ==> (#[trigger] self.entries()[i]).folder_id@ != (
            #[trigger] self.entries()[j]).folder_id@
    }

    /// Some registered descriptor is for this folder.
    pub open spec fn has_folder(self, folder_id: Seq<char>) -> bool {
        exists|i: int|
            0 <= i < self.entries().len() && (#[trigger] self.entries()[i]).folder_id@ == folder_id
    }

    /// An empty registry with no peer id yet.
    pub fn new() -> (r: Self)
        ensures
            r.entries().len() == 0,
            r.peer() is None,
            r.wf(),
    {
        ManifestRegistry { manifests: Vec::new(), peer_id: None }
    }

    /// Sets the local peer id, reported by the node's info call.
    pub fn set_peer_id(&mut self, peer_id: String)
        ensures
            final(self).peer() == Some(peer_id),
            final(self).entries() == old(self).entries(),
            old(self).wf() ==> final(self).wf(),
    {
        self.peer_id = Some(peer_id);
    }

    /// Registers a manifest descriptor for its folder. A folder not yet
    /// registered gets a new entry; an existing entry is replaced only when
    /// the new sequence number is at least as high, so older descriptors
    /// never overwrite newer ones.
    pub fn register_manifest(&mut self, info: ManifestInfo)
        requires
            old(self).wf(),
        ensures
            final(self).wf(),
            final(self).peer() == old(self).peer(),
            !old(self).has_folder(info.folder_id@) ==> final(self).entries()
                == old(self).entries().push(info),
            old(self).has_folder(info.folder_id@) ==> exists|i: int|
                {
                    &&& 0 <= i < old(self).entries().len()
                    &&& (#[trigger] old(self).entries()[i]).folder_id@ == info.folder_id@
                    &&& old(self).entries()[i].sequence_number <= info.sequence_number
                        ==> final(self).entries() == old(self).entries().update(i, info)
                    &&& old(self).entries()[i].sequence_number > info.sequence_number
                        ==> final(self).entries() == old(self).entries()
                },
    {
        let n = self.manifests.len();
        let mut i: usize = 0;
        while i < n
            invariant
                n == self.manifests@.len(),
                i <= n,
                *self == *old(self),
                old(self).wf(),
                forall|j: int|
                    0 <= j < i ==> (#[trigger] self.manifests@[j]).folder_id@ != info.folder_id@,
            decreases n - i,
        {
            if str_eq(self.manifests[i].folder_id.as_str(), info.folder_id.as_str()) {
                if self.manifests[i].sequence_number <= info.sequence_number {
                    let ghost m0 = self.manifests@;
                    let ghost e = info;
                    self.manifests.remove(i);
                    self.manifests.insert(i, info);
                    proof {
                        assert(self.manifests@ =~= m0.update(i as int, e));
                        assert(old(self).entries() == m0);
                        assert forall|a: int, b: int|
                            0 <= a < b < self.entries().len() implies (
                        #[trigger] self.entries()[a]).folder_id@ != (
                        #[trigger] self.entries()[b]).folder_id@ by {
                            assert((old(self).entries()[a]).folder_id@ != (old(
                                self,
                            ).entries()[b]).folder_id@);
                            assert((old(self).entries()[i as int]).folder_id@ == info.folder_id@);
                            assert(self.entries()[a] == m0.update(i as int, e)[a]);
                            assert(self.entries()[b] == m0.update(i as int, e)[b]);
                        }
                    }
                }
                proof {
                    assert(old(self).entries()[i as int].folder_id@ == info.folder_id@);
                }
                return ;
            }
            i = i + 1;
        }
        let ghost m0 = self.manifests@;
        self.manifests.push(info);
        proof {
            assert(old(self).entries() == m0);
            assert forall|a: int, b: int| 0 <= a < b < self.entries().len() implies (
            #[trigger] self.entries()[a]).folder_id@ != (
            #[trigger] self.entries()[b]).folder_id@ by {
                assert(self.entries()[a] == m0[a]);
                if b == self.entries().len() - 1 {
                    assert((old(self).entries()[a]).folder_id@ != info.folder_id@);
                } else {
                    assert(self.entries()[b] == m0[b]);
                    assert((old(self).entries()[a]).folder_id@ != (old(
                        self,
                    ).entries()[b]).folder_id@);
                }
            }
        }
    }

    /// All registered descriptors, in registration order.
    pub fn get_all_manifests(&self) -> (r: Vec<ManifestInfo>)
        ensures
            r@ == self.entries(),
    {
        let mut out: Vec<ManifestInfo> = Vec::new();
        let mut i: usize = 0;
        while i < self.manifests.len()
            invariant
                i <= self.manifests@.len(),
                out@ == self.manifests@.subrange(0, i as int),
            decreases self.manifests@.len() - i,
        {
            let ghost pre = self.manifests@.subrange(0, i as int);
            out.push(self.manifests[i].clone());
            proof {
                assert(self.manifests@.subrange(0, i as int + 1) =~= pre.push(
                    self.manifests@[i as int],
                ));
            }
            i = i + 1;
        }
        proof {
            assert(self.manifests@.subrange(0, self.manifests@.len() as int) =~= self.manifests@);
        }
        out
    }

    /// The registered descriptor of one folder, if any.
    pub fn get_manifest(&self, folder_id: &str) -> (r: Option<ManifestInfo>)
        ensures
            match r {
                Some(m) => exists|i: int|
                    0 <= i < self.entries().len() && (#[trigger] self.entries()[i]) == m
                        && m.folder_id@ == folder_id@,
                None => !self.has_folder(folder_id@),
            },
    {
        let mut i: usize = 0;
        while i < self.manifests.len()
            invariant
                i <= self.manifests@.len(),
                forall|j: int|
                    0 <= j < i ==> (#[trigger] self.manifests@[j]).folder_id@ != folder_id@,
            decreases self.manifests@.len() - i,
        {
            if str_eq(self.manifests[i].folder_id.as_str(), folder_id) {
                let m = self.manifests[i].clone();
                proof {
                    assert(self.entries()[i as int] == m);
                }
                return Some(m);
            }
            i = i + 1;
        }
        None
    }

    /// The response the discovery endpoint serves: the local peer id (or
    /// `unknown` before the node reported one), every descriptor, and a
    /// timestamp from the clock.
    pub fn get_discovery_response(&self) -> (r: ManifestDiscoveryResponse)
        ensures
            r.manifests@ == self.entries(),
            match self.peer() {
                Some(p) => r.peer_id == p,
                None => r.peer_id@ == "unknown"@,
            },
    {
        let peer_id = match &self.peer_id {
            Some(p) => p.clone(),
            None => String::from_str("unknown"),
        };
        ManifestDiscoveryResponse {
            peer_id,
            manifests: self.get_all_manifests(),
            timestamp: now_rfc3339(),
        }
    }
}

/// Configuration of the manifest discovery server.
#[derive(Debug)]
pub struct ManifestServerConfig {
    /// Port the discovery server listens on.
    pub port: u16,
    /// Whether the server runs at all.
    pub enabled: bool,
    /// Remote addresses allowed to read the manifest list. An empty list
    /// denies everyone: secure by default.
    pub allowed_ips: Vec<String>,
}

impl Default for ManifestServerConfig {
    /// Disabled, on the default discovery port, with nobody allowed.
    fn default() -> (r: Self)
        ensures
            r.port == 8085,
            !r.enabled,
            r.allowed_ips@.len() == 0,
    {
        ManifestServerConfig { port: 8085, enabled: false, allowed_ips: Vec::new() }
    }
}

/// A remote address may read the manifest list exactly when the allow-list
/// is non-empty and names it.
pub open spec fn ip_allowed_spec(allowed: Seq<String>, ip: Seq<char>) -> bool {
    exists|i: int| 0 <= i < allowed.len() && (#[trigger] allowed[i])@ == ip
}

/// Whether this remote address passes the allow-list. An empty list denies
/// every address.
pub fn is_ip_allowed(config: &ManifestServerConfig, ip: &String) -> (r: bool)
    ensures
        r == ip_allowed_spec(config.allowed_ips@, ip@),
{
    let mut i: usize = 0;
    while i < config.allowed_ips.len()
        invariant
            i <= config.allowed_ips@.len(),
            forall|j: int| 0 <= j < i ==> (#[trigger] config.allowed_ips@[j])@ != ip@,
        decreases config.allowed_ips@.len() - i,
    {
        if config.allowed_ips[i].eq(ip) {
            return true;
        }
        i = i + 1;
    }
    false
}

/// The HTTP status the discovery route answers a remote address with: the
/// manifest list for allowed addresses, unauthorized for all others,
/// including everyone while the allow-list is empty.
pub fn discovery_status(config: &ManifestServerConfig, remote_ip: &String) -> (r: u16)
    ensures
        ip_allowed_spec(config.allowed_ips@, remote_ip@) ==> r == 200,
        !ip_allowed_spec(config.allowed_ips@, remote_ip@) ==> r == 401,
{
    if is_ip_allowed(config, remote_ip) {
        200
    } else {
        401
    }
}

} // verus!
