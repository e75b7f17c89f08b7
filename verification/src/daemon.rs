//! The backup daemon's manifest-processing state machine.
//!
//! The daemon's durable state partitions manifest CIDs into three disjoint
//! collections: processed, in-progress and failed. Every transition here is
//! a total function on that state; the surrounding loop (outside the
//! library) performs discovery, downloads and deletions, and feeds their
//! outcomes back in as plain values.

use vstd::prelude::*;
use crate::errors::{ArchivistError, message_of};

verus! {

/// A manifest fully applied on the backup side.
#[derive(Debug)]
pub struct ProcessedManifest {
    pub manifest_cid: String,
    pub source_peer_id: String,
    pub sequence_number: u64,
    pub folder_id: String,
    pub processed_at: String,
    pub file_count: u32,
    pub total_size_bytes: u64,
    pub deleted_count: u32,
}

/// A manifest currently being applied.
#[derive(Debug)]
pub struct InProgressManifest {
    pub manifest_cid: String,
    pub source_peer_id: String,
    pub sequence_number: u64,
    pub started_at: String,
    pub total_files: u32,
    pub files_downloaded: u32,
    pub files_failed: u32,
    pub current_status: String,
}

/// A manifest whose processing failed and may be retried.
#[derive(Debug)]
pub struct FailedManifest {
    pub manifest_cid: String,
    pub source_peer_id: String,
    pub failed_at: String,
    pub error_message: String,
    pub retry_count: u32,
}

/// Lifetime counters of the daemon.
#[derive(Debug)]
pub struct DaemonStats {
    pub total_manifests_processed: u64,
    pub total_files_downloaded: u64,
    pub total_bytes_downloaded: u64,
    pub total_files_deleted: u64,
    pub last_activity_at: Option<String>,
}

/// Durable state of the backup daemon.
#[derive(Debug)]
pub struct DaemonState {
    pub processed_manifests: Vec<ProcessedManifest>,
    pub in_progress_manifests: Vec<InProgressManifest>,
    pub failed_manifests: Vec<FailedManifest>,
    pub last_poll_time: String,
    pub stats: DaemonStats,
}

/// A manifest descriptor found by polling a source peer.
#[derive(Debug)]
pub struct DiscoveredManifest {
    pub cid: String,
    pub folder_id: String,
    pub sequence_number: u64,
    pub source_peer_id: String,
    pub source_host: String,
    pub multiaddr: Option<String>,
}

/// Tally of one manifest's file-fetch phase.
#[derive(Debug, Clone, Copy)]
pub struct DownloadTally {
    pub downloaded: u32,
    pub failed: u32,
    pub skipped_existing: u32,
}

/// Tally of one manifest's deletion-enforcement phase.
#[derive(Debug, Clone, Copy)]
pub struct DeletionTally {
    pub deleted: u32,
    pub failed: u32,
    pub not_found: u32,
}

/// Outcome of fetching one file named by a manifest.
#[derive(Debug, Clone, Copy, PartialEq, Eq)]
pub enum FetchOutcome {
    /// The CID was already in local storage.
    SkippedExisting,
    /// The node accepted the network-fetch request.
    Downloaded,
    /// The fetch request failed.
    Failed,
}

/// Outcome of enforcing one tombstone of a manifest.
#[derive(Debug, Clone, Copy, PartialEq, Eq)]
pub enum DeleteOutcome {
    /// The CID was not present locally; nothing to delete.
    NotFound,
    /// The CID was deleted.
    Deleted,
    /// The delete call failed.
    Failed,
}

impl Clone for ProcessedManifest {
    fn clone(&self) -> (r: Self)
        ensures
            r == *self,
    {
        ProcessedManifest {
            manifest_cid: self.manifest_cid.clone(),
            source_peer_id: self.source_peer_id.clone(),
            sequence_number: self.sequence_number,
            folder_id: self.folder_id.clone(),
            processed_at: self.processed_at.clone(),
            file_count: self.file_count,
            total_size_bytes: self.total_size_bytes,
            deleted_count: self.deleted_count,
        }
    }
}

impl Clone for InProgressManifest {
    fn clone(&self) -> (r: Self)
        ensures
            r == *self,
    {
        InProgressManifest {
            manifest_cid: self.manifest_cid.clone(),
            source_peer_id: self.source_peer_id.clone(),
            sequence_number: self.sequence_number,
            started_at: self.started_at.clone(),
            total_files: self.total_files,
            files_downloaded: self.files_downloaded,
            files_failed: self.files_failed,
            current_status: self.current_status.clone(),
        }
    }
}

impl Clone for FailedManifest {
    fn clone(&self) -> (r: Self)
        ensures
            r == *self,
    {
        FailedManifest {
            manifest_cid: self.manifest_cid.clone(),
            source_peer_id: self.source_peer_id.clone(),
            failed_at: self.failed_at.clone(),
            error_message: self.error_message.clone(),
            retry_count: self.retry_count,
        }
    }
}

impl Clone for DaemonStats {
    fn clone(&self) -> (r: Self)
        ensures
            r == *self,
    {
        DaemonStats {
            total_manifests_processed: self.total_manifests_processed,
            total_files_downloaded: self.total_files_downloaded,
            total_bytes_downloaded: self.total_bytes_downloaded,
            total_files_deleted: self.total_files_deleted,
            last_activity_at: clone_opt_string(&self.last_activity_at),
        }
    }
}

impl Clone for DiscoveredManifest {
    fn clone(&self) -> (r: Self)
        ensures
            r == *self,
    {
        DiscoveredManifest {
            cid: self.cid.clone(),
            folder_id: self.folder_id.clone(),
            sequence_number: self.sequence_number,
            source_peer_id: self.source_peer_id.clone(),
            source_host: self.source_host.clone(),
            multiaddr: clone_opt_string(&self.multiaddr),
        }
    }
}

/// Clones an optional string, keeping its value.
pub(crate) fn clone_opt_string(o: &Option<String>) -> (r: Option<String>)
    ensures
        r == *o,
{
    match o {
        Some(s) => Some(s.clone()),
        None => None,
    }
}

/// Adds with saturation at the top of `u64`, for lifetime counters.
pub(crate) fn sat_add_u64(a: u64, b: u64) -> (r: u64)
    ensures
        r == if a + b <= u64::MAX { a + b } else { u64::MAX as int },
{
    if a > u64::MAX - b {
        u64::MAX
    } else {
        a + b
    }
}

/// Adds with saturation at the top of `u32`, for per-manifest counters.
pub(crate) fn sat_add_u32(a: u32, b: u32) -> (r: u32)
    ensures
        r == if a + b <= u32::MAX { a + b } else { u32::MAX as int },
{
    if a > u32::MAX - b {
        u32::MAX
    } else {
        a + b
    }
}

impl DaemonState {
    /// Some processed record carries this manifest CID.
    pub open spec fn processed_has(self, cid: Seq<char>) -> bool {
        exists|i: int|
            0 <= i < self.processed_manifests@.len()
                && (#[trigger] self.processed_manifests@[i]).manifest_cid@ == cid
    }

    /// Some in-progress record carries this manifest CID.
    pub open spec fn in_progress_has(self, cid: Seq<char>) -> bool {
        exists|i: int|
            0 <= i < self.in_progress_manifests@.len()
                && (#[trigger] self.in_progress_manifests@[i]).manifest_cid@ == cid
    }

    /// Some failed record carries this manifest CID.
    pub open spec fn failed_has(self, cid: Seq<char>) -> bool {
        exists|i: int|
            0 <= i < self.failed_manifests@.len()
                && (#[trigger] self.failed_manifests@[i]).manifest_cid@ == cid
    }

    /// No manifest CID appears in more than one of processed, in-progress
    /// and failed, and the processed and in-progress collections hold each
    /// CID at most once.
    pub open spec fn disjoint_state(self) -> bool {
        let p = self.processed_manifests@;
        let q = self.in_progress_manifests@;
        let f = self.failed_manifests@;
        &&& forall|i: int, j: int|
            0 <= i < j < p.len() ==> (#[trigger] p[i]).manifest_cid@ != (#[trigger] p[j]).manifest_cid@
        &&& forall|i: int, j: int|
            0 <= i < j < q.len() ==> (#[trigger] q[i]).manifest_cid@ != (#[trigger] q[j]).manifest_cid@
        &&& forall|i: int, j: int|
            0 <= i < p.len() && 0 <= j < q.len()
                ==> (#[trigger] p[i]).manifest_cid@ != (#[trigger] q[j]).manifest_cid@
        &&& forall|i: int, j: int|
            0 <= i < p.len() && 0 <= j < f.len()
                ==> (#[trigger] p[i]).manifest_cid@ != (#[trigger] f[j]).manifest_cid@
        &&& forall|i: int, j: int|
            0 <= i < q.len() && 0 <= j < f.len()
                ==> (#[trigger] q[i]).manifest_cid@ != (#[trigger] f[j]).manifest_cid@
    }

    /// A fresh daemon state: nothing processed, nothing pending.
    pub fn initial(now: String) -> (r: DaemonState)
        ensures
            r.processed_manifests@.len() == 0,
            r.in_progress_manifests@.len() == 0,
            r.failed_manifests@.len() == 0,
            r.last_poll_time == now,
            r.stats.total_manifests_processed == 0,
            r.stats.total_files_downloaded == 0,
            r.stats.total_bytes_downloaded == 0,
            r.stats.total_files_deleted == 0,
            r.stats.last_activity_at is None,
            r.disjoint_state(),
    {
        DaemonState {
            processed_manifests: Vec::new(),
            in_progress_manifests: Vec::new(),
            failed_manifests: Vec::new(),
            last_poll_time: now,
            stats: DaemonStats {
                total_manifests_processed: 0,
                total_files_downloaded: 0,
                total_bytes_downloaded: 0,
                total_files_deleted: 0,
                last_activity_at: None,
            },
        }
    }

    /// Whether this manifest CID has already been fully processed.
    pub fn is_processed(&self, cid: &String) -> (r: bool)
        ensures
            r == self.processed_has(cid@),
    {
        let mut i: usize = 0;
        while i < self.processed_manifests.len()
            invariant
                i <= self.processed_manifests@.len(),
                forall|j: int|
                    0 <= j < i ==> (#[trigger] self.processed_manifests@[j]).manifest_cid@ != cid@,
            decreases self.processed_manifests@.len() - i,
        {
            if self.processed_manifests[i].manifest_cid.eq(cid) {
                return true;
            }
            i = i + 1;
        }
        false
    }

    /// Whether this manifest CID is currently being processed.
    pub fn is_in_progress(&self, cid: &String) -> (r: bool)
        ensures
            r == self.in_progress_has(cid@),
    {
        let mut i: usize = 0;
        while i < self.in_progress_manifests.len()
            invariant
                i <= self.in_progress_manifests@.len(),
                forall|j: int|
                    0 <= j < i
                        ==> (#[trigger] self.in_progress_manifests@[j]).manifest_cid@ != cid@,
            decreases self.in_progress_manifests@.len() - i,
        {
            if self.in_progress_manifests[i].manifest_cid.eq(cid) {
                return true;
            }
            i = i + 1;
        }
        false
    }

    /// Keeps exactly the discovered manifests whose CID is in neither the
    /// processed nor the in-progress collection, in discovery order.
    pub fn filter_unprocessed(&self, discovered: Vec<DiscoveredManifest>) -> (r: Vec<
        DiscoveredManifest,
    >)
        ensures
            r@ == unprocessed_view(*self, discovered@),
    {
        let mut out: Vec<DiscoveredManifest> = Vec::new();
        let mut i: usize = 0;
        proof {
            assert(discovered@.subrange(0, 0) =~= Seq::<DiscoveredManifest>::empty());
            reveal(Seq::filter);
        }
        while i < discovered.len()
            invariant
                i <= discovered@.len(),
                out@ == unprocessed_view(*self, discovered@.subrange(0, i as int)),
            decreases discovered@.len() - i,
        {
            let ghost pre = discovered@.subrange(0, i as int);
            let m = discovered[i].clone();
            assert(m == discovered@[i as int]);
            let keep = !self.is_processed(&m.cid) && !self.is_in_progress(&m.cid);
            if keep {
                out.push(m);
            }
            proof {
                reveal(Seq::filter);
                let ext = discovered@.subrange(0, i as int + 1);
                assert(ext =~= pre.push(discovered@[i as int]));
                assert(ext.drop_last() =~= pre);
            }
            i = i + 1;
        }
        proof {
            assert(discovered@.subrange(0, discovered@.len() as int) =~= discovered@);
        }
        out
    }

    /// Removes every failed record carrying this CID. Used when a manifest
    /// re-enters the state machine (automatic or manual retry).
    pub fn remove_failed(&mut self, cid: &String)
        ensures
            final(self).failed_manifests@ == without_failed_cid(old(self).failed_manifests@, cid@),
            final(self).processed_manifests == old(self).processed_manifests,
            final(self).in_progress_manifests == old(self).in_progress_manifests,
            final(self).last_poll_time == old(self).last_poll_time,
            final(self).stats == old(self).stats,
            old(self).disjoint_state() ==> final(self).disjoint_state(),
    {
        let ghost orig = self.failed_manifests@;
        let mut kept: Vec<FailedManifest> = Vec::new();
        let mut i: usize = 0;
        proof {
            assert(orig.subrange(0, 0) =~= Seq::<FailedManifest>::empty());
            reveal(Seq::filter);
        }
        while i < self.failed_manifests.len()
            invariant
                i <= self.failed_manifests@.len(),
                *self == *old(self),
                self.failed_manifests@ == orig,
                kept@ == without_failed_cid(orig.subrange(0, i as int), cid@),
            decreases self.failed_manifests@.len() - i,
        {
            let ghost pre = orig.subrange(0, i as int);
            let keep = !self.failed_manifests[i].manifest_cid.eq(cid);
            if keep {
                let f = self.failed_manifests[i].clone();
                kept.push(f);
            }
            proof {
                reveal(Seq::filter);
                let ext = orig.subrange(0, i as int + 1);
                assert(ext =~= pre.push(orig[i as int]));
                assert(ext.drop_last() =~= pre);
            }
            i = i + 1;
        }
        proof {
            assert(orig.subrange(0, orig.len() as int) =~= orig);
        }
        self.failed_manifests = kept;
        proof {
            if old(self).disjoint_state() {
                lemma_drop_failed_keeps_disjoint(*old(self), *self, cid@);
            }
        }
    }

    /// Removes the in-progress record carrying this CID, if any.
    fn remove_in_progress(&mut self, cid: &String)
        ensures
            final(self).in_progress_manifests@ == without_in_progress_cid(
                old(self).in_progress_manifests@,
                cid@,
            ),
            final(self).processed_manifests == old(self).processed_manifests,
            final(self).failed_manifests == old(self).failed_manifests,
            final(self).last_poll_time == old(self).last_poll_time,
            final(self).stats == old(self).stats,
    {
        let ghost orig = self.in_progress_manifests@;
        let mut kept: Vec<InProgressManifest> = Vec::new();
        let mut i: usize = 0;
        proof {
            assert(orig.subrange(0, 0) =~= Seq::<InProgressManifest>::empty());
            reveal(Seq::filter);
        }
        while i < self.in_progress_manifests.len()
            invariant
                i <= self.in_progress_manifests@.len(),
                *self == *old(self),
                self.in_progress_manifests@ == orig,
                kept@ == without_in_progress_cid(orig.subrange(0, i as int), cid@),
            decreases self.in_progress_manifests@.len() - i,
        {
            let ghost pre = orig.subrange(0, i as int);
            let keep = !self.in_progress_manifests[i].manifest_cid.eq(cid);
            if keep {
                let f = self.in_progress_manifests[i].clone();
                kept.push(f);
            }
            proof {
                reveal(Seq::filter);
                let ext = orig.subrange(0, i as int + 1);
                assert(ext =~= pre.push(orig[i as int]));
                assert(ext.drop_last() =~= pre);
            }
            i = i + 1;
        }
        proof {
            assert(orig.subrange(0, orig.len() as int) =~= orig);
        }
        self.in_progress_manifests = kept;
    }

    /// Moves a discovered manifest into the in-progress collection, also
    /// dropping any failed record it had from an earlier attempt. Refused
    /// (state unchanged) when the CID is already processed or in progress.
    pub fn begin_processing(&mut self, entry: InProgressManifest) -> (r: bool)
        requires
            old(self).disjoint_state(),
        ensures
            final(self).disjoint_state(),
            r == (!old(self).processed_has(entry.manifest_cid@) && !old(self).in_progress_has(
                entry.manifest_cid@,
            )),
            r ==> final(self).in_progress_manifests@ == old(self).in_progress_manifests@.push(
                entry,
            ),
            r ==> final(self).failed_manifests@ == without_failed_cid(
                old(self).failed_manifests@,
                entry.manifest_cid@,
            ),
            r ==> final(self).processed_manifests == old(self).processed_manifests,
            r ==> final(self).last_poll_time == old(self).last_poll_time,
            r ==> final(self).stats == old(self).stats,
            !r ==> *final(self) == *old(self),
    {
        if self.is_processed(&entry.manifest_cid) || self.is_in_progress(&entry.manifest_cid) {
            return false;
        }
        self.remove_failed(&entry.manifest_cid);
        let ghost mid = *self;
        let ghost cid = entry.manifest_cid@;
        self.in_progress_manifests.push(entry);
        proof {
            let p = self.processed_manifests@;
            let q0 = mid.in_progress_manifests@;
            let q1 = self.in_progress_manifests@;
            let f0 = old(self).failed_manifests@;
            let f1 = self.failed_manifests@;
            assert forall|i: int, j: int| 0 <= i < j < q1.len() implies (#[trigger] q1[i]).manifest_cid@
                != (#[trigger] q1[j]).manifest_cid@ by {
                if j == q1.len() - 1 {
                    assert(q1[i] == q0[i]);
                }
            }
            assert forall|i: int, j: int|
                0 <= i < q1.len() && 0 <= j < f1.len() implies (#[trigger] q1[i]).manifest_cid@
                != (#[trigger] f1[j]).manifest_cid@ by {
                lemma_without_failed_elem(f0, cid, j);
                if i < q1.len() - 1 {
                    let m = choose|m: int| 0 <= m < f0.len() && f0[m] == without_failed_cid(f0, cid)[j];
                    assert(q1[i] == q0[i]);
                }
            }
            assert forall|i: int, j: int|
                0 <= i < p.len() && 0 <= j < q1.len() implies (#[trigger] p[i]).manifest_cid@
                != (#[trigger] q1[j]).manifest_cid@ by {
                if j == q1.len() - 1 {
                }
            }
        }
        true
    }

    /// Records per-batch download progress on the in-progress entry for
    /// this CID, if one exists.
    pub fn update_progress(
        &mut self,
        cid: &String,
        files_downloaded: u32,
        files_failed: u32,
        status: String,
    ) -> (r: bool)
        requires
            old(self).disjoint_state(),
        ensures
            final(self).disjoint_state(),
            r == old(self).in_progress_has(cid@),
            r ==> exists|i: int|
                {
                    &&& 0 <= i < old(self).in_progress_manifests@.len()
                    &&& (#[trigger] old(self).in_progress_manifests@[i]).manifest_cid@ == cid@
                    &&& final(self).in_progress_manifests@ == old(
                        self,
                    ).in_progress_manifests@.update(
                        i,
                        InProgressManifest {
                            files_downloaded,
                            files_failed,
                            current_status: status,
                            ..old(self).in_progress_manifests@[i]
                        },
                    )
                },
            final(self).processed_manifests == old(self).processed_manifests,
            final(self).failed_manifests == old(self).failed_manifests,
            final(self).last_poll_time == old(self).last_poll_time,
            final(self).stats == old(self).stats,
            !r ==> *final(self) == *old(self),
    {
        let idx = find_in_progress_index(&self.in_progress_manifests, cid);
        match idx {
            None => false,
            Some(i) => {
                let ghost q0 = self.in_progress_manifests@;
                let mut entry = self.in_progress_manifests[i].clone();
                entry.files_downloaded = files_downloaded;
                entry.files_failed = files_failed;
                entry.current_status = status;
                let ghost e = entry;
                self.in_progress_manifests.remove(i);
                self.in_progress_manifests.insert(i, entry);
                proof {
                    assert(self.in_progress_manifests@ =~= q0.update(i as int, e));
                    let q1 = self.in_progress_manifests@;
                    assert(e == InProgressManifest {
                        files_downloaded,
                        files_failed,
                        current_status: status,
                        ..q0[i as int]
                    });
                    assert(q0[i as int].manifest_cid@ == cid@);
                    assert forall|a: int, b: int| 0 <= a < b < q1.len() implies (
                    #[trigger] q1[a]).manifest_cid@ != (#[trigger] q1[b]).manifest_cid@ by {
                        assert(q1[a].manifest_cid@ == q0[a].manifest_cid@);
                        assert(q1[b].manifest_cid@ == q0[b].manifest_cid@);
                    }
                    assert forall|a: int, b: int|
                        0 <= a < self.processed_manifests@.len() && 0 <= b < q1.len() implies (
                    #[trigger] self.processed_manifests@[a]).manifest_cid@ != (
                    #[trigger] q1[b]).manifest_cid@ by {
                        assert(q1[b].manifest_cid@ == q0[b].manifest_cid@);
                    }
                    assert forall|a: int, b: int|
                        0 <= a < q1.len() && 0 <= b < self.failed_manifests@.len() implies (
                    #[trigger] q1[a]).manifest_cid@ != (
                    #[trigger] self.failed_manifests@[b]).manifest_cid@ by {
                        assert(q1[a].manifest_cid@ == q0[a].manifest_cid@);
                    }
                }
                true
            }
        }
    }

    /// Settles one manifest after its download and deletion phases: on
    /// success the manifest moves to the processed collection and the
    /// lifetime counters grow; on any phase error it moves to the failed
    /// collection with a retry count of zero. Refused (state unchanged)
    /// when the CID is not in progress.
    pub fn finalize(
        &mut self,
        cid: &String,
        source_peer_id: &String,
        folder_id: &String,
        sequence_number: u64,
        total_size_bytes: u64,
        download_result: Result<DownloadTally, ArchivistError>,
        deletion_result: Result<DeletionTally, ArchivistError>,
        now: String,
    ) -> (r: bool)
        requires
            old(self).disjoint_state(),
        ensures
            final(self).disjoint_state(),
            r == old(self).in_progress_has(cid@),
            !r ==> *final(self) == *old(self),
            r ==> final(self).in_progress_manifests@ == without_in_progress_cid(
                old(self).in_progress_manifests@,
                cid@,
            ),
            r ==> final(self).last_poll_time == old(self).last_poll_time,
            (r && download_result is Ok && deletion_result is Ok) ==> {
                let dl = download_result->Ok_0;
                let del = deletion_result->Ok_0;
                &&& final(self).processed_manifests@ == old(self).processed_manifests@.push(
                    ProcessedManifest {
                        manifest_cid: *cid,
                        source_peer_id: *source_peer_id,
                        sequence_number,
                        folder_id: *folder_id,
                        processed_at: now,
                        file_count: sat32(dl.downloaded, dl.skipped_existing),
                        total_size_bytes,
                        deleted_count: del.deleted,
                    },
                )
                &&& final(self).failed_manifests == old(self).failed_manifests
                &&& final(self).stats.total_manifests_processed == sat64(
                    old(self).stats.total_manifests_processed,
                    1,
                )
                &&& final(self).stats.total_files_downloaded == sat64(
                    old(self).stats.total_files_downloaded,
                    dl.downloaded as u64,
                )
                &&& final(self).stats.total_files_deleted == sat64(
                    old(self).stats.total_files_deleted,
                    del.deleted as u64,
                )
                &&& final(self).stats.total_bytes_downloaded == old(
                    self,
                ).stats.total_bytes_downloaded
                &&& final(self).stats.last_activity_at == Some(now)
            },
            (r && !(download_result is Ok && deletion_result is Ok)) ==> {
                let e = if download_result is Err {
                    download_result->Err_0
                } else {
                    deletion_result->Err_0
                };
                let f0 = old(self).failed_manifests@;
                let f1 = final(self).failed_manifests@;
                &&& final(self).processed_manifests == old(self).processed_manifests
                &&& final(self).stats == old(self).stats
                &&& f1.len() == f0.len() + 1
                &&& f1.subrange(0, f0.len() as int) == f0
                &&& f1.last().manifest_cid == *cid
                &&& f1.last().source_peer_id == *source_peer_id
                &&& f1.last().failed_at == now
                &&& f1.last().error_message@ == message_of(e)
                &&& f1.last().retry_count == 0
            },
    {
        if !self.is_in_progress(cid) {
            return false;
        }
        self.remove_in_progress(cid);
        let ghost mid = *self;
        match (download_result, deletion_result) {
            (Ok(dl), Ok(del)) => {
                let record = ProcessedManifest {
                    manifest_cid: cid.clone(),
                    source_peer_id: source_peer_id.clone(),
                    sequence_number,
                    folder_id: folder_id.clone(),
                    processed_at: now.clone(),
                    file_count: sat_add_u32(dl.downloaded, dl.skipped_existing),
                    total_size_bytes,
                    deleted_count: del.deleted,
                };
                self.processed_manifests.push(record);
                self.stats.total_manifests_processed = sat_add_u64(
                    self.stats.total_manifests_processed,
                    1,
                );
                self.stats.total_files_downloaded = sat_add_u64(
                    self.stats.total_files_downloaded,
                    dl.downloaded as u64,
                );
                self.stats.total_files_deleted = sat_add_u64(
                    self.stats.total_files_deleted,
                    del.deleted as u64,
                );
                self.stats.last_activity_at = Some(now);
                proof {
                    assert(self.processed_manifests@.subrange(
                        0,
                        mid.processed_manifests@.len() as int,
                    ) =~= mid.processed_manifests@);
                    lemma_settle_keeps_disjoint_success(*old(self), mid, *self, cid@);
                }
                true
            }
            (Err(e), _) | (_, Err(e)) => {
                let msg = e.message();
                let record = FailedManifest {
                    manifest_cid: cid.clone(),
                    source_peer_id: source_peer_id.clone(),
                    failed_at: now,
                    error_message: msg,
                    retry_count: 0,
                };
                self.failed_manifests.push(record);
                proof {
                    assert(self.failed_manifests@.subrange(
                        0,
                        mid.failed_manifests@.len() as int,
                    ) =~= mid.failed_manifests@);
                    lemma_settle_keeps_disjoint_failure(*old(self), mid, *self, cid@);
                }
                true
            }
        }
    }

    /// Takes out every failed record still within its retry budget and
    /// returns them, oldest first; records at the budget stay behind as
    /// permanent failures.
    pub fn reap_retries(&mut self, max_retries: u32) -> (r: Vec<FailedManifest>)
        requires
            old(self).disjoint_state(),
        ensures
            final(self).disjoint_state(),
            r@ == retry_due(old(self).failed_manifests@, max_retries),
            final(self).failed_manifests@ == retry_exhausted(
                old(self).failed_manifests@,
                max_retries,
            ),
            final(self).processed_manifests == old(self).processed_manifests,
            final(self).in_progress_manifests == old(self).in_progress_manifests,
            final(self).last_poll_time == old(self).last_poll_time,
            final(self).stats == old(self).stats,
    {
        let ghost orig = self.failed_manifests@;
        let mut due: Vec<FailedManifest> = Vec::new();
        let mut kept: Vec<FailedManifest> = Vec::new();
        let mut i: usize = 0;
        proof {
            assert(orig.subrange(0, 0) =~= Seq::<FailedManifest>::empty());
            reveal(Seq::filter);
        }
        while i < self.failed_manifests.len()
            invariant
                i <= self.failed_manifests@.len(),
                *self == *old(self),
                self.failed_manifests@ == orig,
                due@ == retry_due(orig.subrange(0, i as int), max_retries),
                kept@ == retry_exhausted(orig.subrange(0, i as int), max_retries),
            decreases self.failed_manifests@.len() - i,
        {
            let ghost pre = orig.subrange(0, i as int);
            let f = self.failed_manifests[i].clone();
            if f.retry_count < max_retries {
                due.push(f);
            } else {
                kept.push(f);
            }
            proof {
                reveal(Seq::filter);
                let ext = orig.subrange(0, i as int + 1);
                assert(ext =~= pre.push(orig[i as int]));
                assert(ext.drop_last() =~= pre);
            }
            i = i + 1;
        }
        proof {
            assert(orig.subrange(0, orig.len() as int) =~= orig);
        }
        self.failed_manifests = kept;
        proof {
            let f1 = self.failed_manifests@;
            assert forall|a: int, b: int|
                0 <= a < self.processed_manifests@.len() && 0 <= b < f1.len() implies (
            #[trigger] self.processed_manifests@[a]).manifest_cid@ != (
            #[trigger] f1[b]).manifest_cid@ by {
                lemma_retry_exhausted_elem(orig, max_retries, b);
            }
            assert forall|a: int, b: int|
                0 <= a < self.in_progress_manifests@.len() && 0 <= b < f1.len() implies (
            #[trigger] self.in_progress_manifests@[a]).manifest_cid@ != (
            #[trigger] f1[b]).manifest_cid@ by {
                lemma_retry_exhausted_elem(orig, max_retries, b);
            }
        }
        due
    }

    /// Puts a retried manifest back into the failed collection with its
    /// retry count advanced and a fresh error message. Refused (state
    /// unchanged) when the CID is meanwhile processed or in progress.
    pub fn record_retry_failure(
        &mut self,
        entry: FailedManifest,
        error: &ArchivistError,
        now: String,
    ) -> (r: bool)
        requires
            old(self).disjoint_state(),
        ensures
            final(self).disjoint_state(),
            r == (!old(self).processed_has(entry.manifest_cid@) && !old(self).in_progress_has(
                entry.manifest_cid@,
            )),
            r ==> {
                let f0 = old(self).failed_manifests@;
                let f1 = final(self).failed_manifests@;
                &&& f1.len() == f0.len() + 1
                &&& f1.subrange(0, f0.len() as int) == f0
                &&& f1.last().manifest_cid == entry.manifest_cid
                &&& f1.last().source_peer_id == entry.source_peer_id
                &&& f1.last().failed_at == now
                &&& f1.last().error_message@ == message_of(*error)
                &&& f1.last().retry_count == sat32(entry.retry_count, 1)
            },
            r ==> final(self).processed_manifests == old(self).processed_manifests,
            r ==> final(self).in_progress_manifests == old(self).in_progress_manifests,
            r ==> final(self).last_poll_time == old(self).last_poll_time,
            r ==> final(self).stats == old(self).stats,
            !r ==> *final(self) == *old(self),
    {
        if self.is_processed(&entry.manifest_cid) || self.is_in_progress(&entry.manifest_cid) {
            return false;
        }
        let msg = error.message();
        let record = FailedManifest {
            manifest_cid: entry.manifest_cid,
            source_peer_id: entry.source_peer_id,
            failed_at: now,
            error_message: msg,
            retry_count: sat_add_u32(entry.retry_count, 1),
        };
        let ghost cid = record.manifest_cid@;
        self.failed_manifests.push(record);
        proof {
            let f1 = self.failed_manifests@;
            assert forall|a: int, b: int|
                0 <= a < self.processed_manifests@.len() && 0 <= b < f1.len() implies (
            #[trigger] self.processed_manifests@[a]).manifest_cid@ != (
            #[trigger] f1[b]).manifest_cid@ by {
                if b < f1.len() - 1 {
                    assert(f1[b] == old(self).failed_manifests@[b]);
                }
            }
            assert forall|a: int, b: int|
                0 <= a < self.in_progress_manifests@.len() && 0 <= b < f1.len() implies (
            #[trigger] self.in_progress_manifests@[a]).manifest_cid@ != (
            #[trigger] f1[b]).manifest_cid@ by {
                if b < f1.len() - 1 {
                    assert(f1[b] == old(self).failed_manifests@[b]);
                }
            }
        }
        true
    }

    /// Marks a stale manifest processed without doing any work: its
    /// sequence number is at or below the highest already processed for
    /// its source peer and folder, so the files it names are superseded.
    /// Refused (state unchanged) when the CID is already processed or in
    /// progress.
    pub fn mark_stale_processed(&mut self, record: ProcessedManifest) -> (r: bool)
        requires
            old(self).disjoint_state(),
        ensures
            final(self).disjoint_state(),
            r == (!old(self).processed_has(record.manifest_cid@) && !old(self).in_progress_has(
                record.manifest_cid@,
            )),
            r ==> final(self).processed_manifests@ == old(self).processed_manifests@.push(record),
            r ==> final(self).failed_manifests@ == without_failed_cid(
                old(self).failed_manifests@,
                record.manifest_cid@,
            ),
            r ==> final(self).in_progress_manifests == old(self).in_progress_manifests,
            r ==> final(self).last_poll_time == old(self).last_poll_time,
            r ==> final(self).stats == old(self).stats,
            !r ==> *final(self) == *old(self),
    {
        if self.is_processed(&record.manifest_cid) || self.is_in_progress(&record.manifest_cid) {
            return false;
        }
        self.remove_failed(&record.manifest_cid);
        let ghost mid = *self;
        let ghost cid = record.manifest_cid@;
        self.processed_manifests.push(record);
        proof {
            let p0 = mid.processed_manifests@;
            let p1 = self.processed_manifests@;
            let q = self.in_progress_manifests@;
            let f0 = old(self).failed_manifests@;
            let f1 = self.failed_manifests@;
            assert forall|i: int, j: int| 0 <= i < j < p1.len() implies (#[trigger] p1[i]).manifest_cid@
                != (#[trigger] p1[j]).manifest_cid@ by {
                if j == p1.len() - 1 {
                    assert(p1[i] == p0[i]);
                }
            }
            assert forall|i: int, j: int|
                0 <= i < p1.len() && 0 <= j < q.len() implies (#[trigger] p1[i]).manifest_cid@
                != (#[trigger] q[j]).manifest_cid@ by {
                if i < p1.len() - 1 {
                    assert(p1[i] == p0[i]);
                }
            }
            assert forall|i: int, j: int|
                0 <= i < p1.len() && 0 <= j < f1.len() implies (#[trigger] p1[i]).manifest_cid@
                != (#[trigger] f1[j]).manifest_cid@ by {
                lemma_without_failed_elem(f0, cid, j);
                if i < p1.len() - 1 {
                    assert(p1[i] == p0[i]);
                }
            }
        }
        true
    }

    /// The highest sequence number already processed for this source peer
    /// and folder, if any manifest of theirs was processed at all.
    pub fn highest_processed_seq(&self, peer: &String, folder: &String) -> (r: Option<u64>)
        ensures
            match r {
                Some(m) => {
                    &&& exists|i: int|
                        0 <= i < self.processed_manifests@.len() && {
                            let e = #[trigger] self.processed_manifests@[i];
                            e.source_peer_id@ == peer@ && e.folder_id@ == folder@
                                && e.sequence_number == m
                        }
                    &&& forall|i: int|
                        0 <= i < self.processed_manifests@.len() ==> {
                            let e = #[trigger] self.processed_manifests@[i];
                            (e.source_peer_id@ == peer@ && e.folder_id@ == folder@)
                                ==> e.sequence_number <= m
                        }
                },
                None => forall|i: int|
                    0 <= i < self.processed_manifests@.len() ==> {
                        let e = #[trigger] self.processed_manifests@[i];
                        !(e.source_peer_id@ == peer@ && e.folder_id@ == folder@)
                    },
            },
    {
        let mut best: Option<u64> = None;
        let mut i: usize = 0;
        while i < self.processed_manifests.len()
            invariant
                i <= self.processed_manifests@.len(),
                match best {
                    Some(m) => {
                        &&& exists|j: int|
                            0 <= j < i && {
                                let e = #[trigger] self.processed_manifests@[j];
                                e.source_peer_id@ == peer@ && e.folder_id@ == folder@
                                    && e.sequence_number == m
                            }
                        &&& forall|j: int|
                            0 <= j < i ==> {
                                let e = #[trigger] self.processed_manifests@[j];
                                (e.source_peer_id@ == peer@ && e.folder_id@ == folder@)
                                    ==> e.sequence_number <= m
                            }
                    },
                    None => forall|j: int|
                        0 <= j < i ==> {
                            let e = #[trigger] self.processed_manifests@[j];
                            !(e.source_peer_id@ == peer@ && e.folder_id@ == folder@)
                        },
                },
            decreases self.processed_manifests@.len() - i,
        {
            let e = &self.processed_manifests[i];
            if e.source_peer_id.eq(peer) && e.folder_id.eq(folder) {
                match best {
                    Some(m) => {
                        if e.sequence_number > m {
                            best = Some(e.sequence_number);
                        }
                    }
                    None => {
                        best = Some(e.sequence_number);
                    }
                }
            }
            i = i + 1;
        }
        best
    }

    /// Stamps the time of the cycle that just finished.
    pub fn set_last_poll(&mut self, now: String)
        ensures
            final(self).last_poll_time == now,
            final(self).processed_manifests == old(self).processed_manifests,
            final(self).in_progress_manifests == old(self).in_progress_manifests,
            final(self).failed_manifests == old(self).failed_manifests,
            final(self).stats == old(self).stats,
            old(self).disjoint_state() ==> final(self).disjoint_state(),
    {
        self.last_poll_time = now;
    }
}

impl Clone for DaemonState {
    fn clone(&self) -> (r: Self)
        ensures
            r.processed_manifests@ == self.processed_manifests@,
            r.in_progress_manifests@ == self.in_progress_manifests@,
            r.failed_manifests@ == self.failed_manifests@,
            r.last_poll_time == self.last_poll_time,
            r.stats == self.stats,
    {
        let r = DaemonState {
            processed_manifests: self.processed_manifests.clone(),
            in_progress_manifests: self.in_progress_manifests.clone(),
            failed_manifests: self.failed_manifests.clone(),
            last_poll_time: self.last_poll_time.clone(),
            stats: self.stats.clone(),
        };
        proof {
            assert forall|i: int| 0 <= i < self.processed_manifests@.len() implies r.processed_manifests@[i]
                == self.processed_manifests@[i] by {
                assert(cloned(self.processed_manifests[i], r.processed_manifests[i]));
            }
            assert(r.processed_manifests@ =~= self.processed_manifests@);
            assert forall|i: int|
                0 <= i < self.in_progress_manifests@.len() implies r.in_progress_manifests@[i]
                == self.in_progress_manifests@[i] by {
                assert(cloned(self.in_progress_manifests[i], r.in_progress_manifests[i]));
            }
            assert(r.in_progress_manifests@ =~= self.in_progress_manifests@);
            assert forall|i: int| 0 <= i < self.failed_manifests@.len() implies r.failed_manifests@[i]
                == self.failed_manifests@[i] by {
                assert(cloned(self.failed_manifests[i], r.failed_manifests[i]));
            }
            assert(r.failed_manifests@ =~= self.failed_manifests@);
        }
        r
    }
}

/// Position of the in-progress record carrying this CID, if any.
fn find_in_progress_index(q: &Vec<InProgressManifest>, cid: &String) -> (r: Option<usize>)
    ensures
        match r {
            Some(i) => 0 <= i < q@.len() && q@[i as int].manifest_cid@ == cid@,
            None => forall|j: int| 0 <= j < q@.len() ==> (#[trigger] q@[j]).manifest_cid@ != cid@,
        },
{
    let mut i: usize = 0;
    while i < q.len()
        invariant
            i <= q@.len(),
            forall|j: int| 0 <= j < i ==> (#[trigger] q@[j]).manifest_cid@ != cid@,
        decreases q@.len() - i,
    {
        if q[i].manifest_cid.eq(cid) {
            return Some(i);
        }
        i = i + 1;
    }
    None
}

/// The failed records that do not carry this CID, in order.
pub open spec fn without_failed_cid(f: Seq<FailedManifest>, cid: Seq<char>) -> Seq<FailedManifest> {
    f.filter(|x: FailedManifest| x.manifest_cid@ != cid)
}

/// The in-progress records that do not carry this CID, in order.
pub open spec fn without_in_progress_cid(q: Seq<InProgressManifest>, cid: Seq<char>) -> Seq<
    InProgressManifest,
> {
    q.filter(|x: InProgressManifest| x.manifest_cid@ != cid)
}

/// The discovered manifests that the state has neither processed nor begun
/// to process, in discovery order.
pub open spec fn unprocessed_view(s: DaemonState, d: Seq<DiscoveredManifest>) -> Seq<
    DiscoveredManifest,
> {
    d.filter(|m: DiscoveredManifest| !s.processed_has(m.cid@) && !s.in_progress_has(m.cid@))
}

/// The failed records still within the retry budget, in order.
pub open spec fn retry_due(f: Seq<FailedManifest>, max_retries: u32) -> Seq<FailedManifest> {
    f.filter(|x: FailedManifest| x.retry_count < max_retries)
}

/// The failed records at or over the retry budget, in order.
pub open spec fn retry_exhausted(f: Seq<FailedManifest>, max_retries: u32) -> Seq<FailedManifest> {
    f.filter(|x: FailedManifest| x.retry_count >= max_retries)
}

/// Saturating addition on `u32`, as used by the per-manifest counters.
pub open spec fn sat32(a: u32, b: u32) -> u32 {
    if a + b <= u32::MAX {
        (a + b) as u32
    } else {
        u32::MAX
    }
}

/// Saturating addition on `u64`, as used by the lifetime counters.
pub open spec fn sat64(a: u64, b: u64) -> u64 {
    if a + b <= u64::MAX {
        (a + b) as u64
    } else {
        u64::MAX
    }
}

/// Every record kept by `without_failed_cid` comes from the original
/// collection and does not carry the dropped CID.
proof fn lemma_without_failed_elem(f: Seq<FailedManifest>, cid: Seq<char>, k: int)
    requires
        0 <= k < without_failed_cid(f, cid).len(),
    ensures
        exists|m: int| 0 <= m < f.len() && f[m] == without_failed_cid(f, cid)[k],
        without_failed_cid(f, cid)[k].manifest_cid@ != cid,
    decreases f.len(),
{
    reveal(Seq::filter);
    if f.len() > 0 {
        let sub = f.drop_last();
        if f.last().manifest_cid@ != cid && k == without_failed_cid(f, cid).len() - 1
            && without_failed_cid(f, cid)[k] == f.last() {
            assert(f[f.len() - 1] == without_failed_cid(f, cid)[k]);
        } else {
            lemma_without_failed_elem(sub, cid, k);
            let m = choose|m: int| 0 <= m < sub.len() && sub[m] == without_failed_cid(sub, cid)[k];
            assert(f[m] == without_failed_cid(f, cid)[k]);
        }
    }
}

/// Every record kept by `without_in_progress_cid` comes from the original
/// collection and does not carry the dropped CID.
proof fn lemma_without_in_progress_elem(q: Seq<InProgressManifest>, cid: Seq<char>, k: int)
    requires
        0 <= k < without_in_progress_cid(q, cid).len(),
    ensures
        exists|m: int| 0 <= m < q.len() && q[m] == without_in_progress_cid(q, cid)[k],
        without_in_progress_cid(q, cid)[k].manifest_cid@ != cid,
    decreases q.len(),
{
    reveal(Seq::filter);
    if q.len() > 0 {
        let sub = q.drop_last();
        if q.last().manifest_cid@ != cid && k == without_in_progress_cid(q, cid).len() - 1
            && without_in_progress_cid(q, cid)[k] == q.last() {
            assert(q[q.len() - 1] == without_in_progress_cid(q, cid)[k]);
        } else {
            lemma_without_in_progress_elem(sub, cid, k);
            let m = choose|m: int|
                0 <= m < sub.len() && sub[m] == without_in_progress_cid(sub, cid)[k];
            assert(q[m] == without_in_progress_cid(q, cid)[k]);
        }
    }
}

/// Every record kept by `retry_exhausted` comes from the original
/// collection.
proof fn lemma_retry_exhausted_elem(f: Seq<FailedManifest>, max_retries: u32, k: int)
    requires
        0 <= k < retry_exhausted(f, max_retries).len(),
    ensures
        exists|m: int| 0 <= m < f.len() && f[m] == retry_exhausted(f, max_retries)[k],
    decreases f.len(),
{
    reveal(Seq::filter);
    if f.len() > 0 {
        let sub = f.drop_last();
        if f.last().retry_count >= max_retries && k == retry_exhausted(f, max_retries).len() - 1
            && retry_exhausted(f, max_retries)[k] == f.last() {
            assert(f[f.len() - 1] == retry_exhausted(f, max_retries)[k]);
        } else {
            lemma_retry_exhausted_elem(sub, max_retries, k);
            let m = choose|m: int|
                0 <= m < sub.len() && sub[m] == retry_exhausted(sub, max_retries)[k];
            assert(f[m] == retry_exhausted(f, max_retries)[k]);
        }
    }
}

/// Every manifest kept by `unprocessed_view` is neither processed nor in
/// progress in the state it was filtered against.
pub proof fn lemma_unprocessed_pred(s: DaemonState, d: Seq<DiscoveredManifest>, k: int)
    requires
        0 <= k < unprocessed_view(s, d).len(),
    ensures
        !s.processed_has(unprocessed_view(s, d)[k].cid@),
        !s.in_progress_has(unprocessed_view(s, d)[k].cid@),
    decreases d.len(),
{
    reveal(Seq::filter);
    if d.len() > 0 {
        let sub = d.drop_last();
        if (!s.processed_has(d.last().cid@) && !s.in_progress_has(d.last().cid@)) && k
            == unprocessed_view(s, d).len() - 1 && unprocessed_view(s, d)[k] == d.last() {
        } else {
            lemma_unprocessed_pred(s, sub, k);
        }
    }
}

/// Dropping failed records by CID keeps the three collections disjoint.
proof fn lemma_drop_failed_keeps_disjoint(s0: DaemonState, s1: DaemonState, cid: Seq<char>)
    requires
        s0.disjoint_state(),
        s1.processed_manifests == s0.processed_manifests,
        s1.in_progress_manifests == s0.in_progress_manifests,
        s1.failed_manifests@ == without_failed_cid(s0.failed_manifests@, cid),
    ensures
        s1.disjoint_state(),
{
    let f1 = s1.failed_manifests@;
    assert forall|i: int, j: int|
        0 <= i < s1.processed_manifests@.len() && 0 <= j < f1.len() implies (
    #[trigger] s1.processed_manifests@[i]).manifest_cid@ != (#[trigger] f1[j]).manifest_cid@ by {
        lemma_without_failed_elem(s0.failed_manifests@, cid, j);
    }
    assert forall|i: int, j: int|
        0 <= i < s1.in_progress_manifests@.len() && 0 <= j < f1.len() implies (
    #[trigger] s1.in_progress_manifests@[i]).manifest_cid@ != (#[trigger] f1[j]).manifest_cid@ by {
        lemma_without_failed_elem(s0.failed_manifests@, cid, j);
    }
}

/// Settling a manifest successfully keeps the three collections disjoint.
proof fn lemma_settle_keeps_disjoint_success(
    s0: DaemonState,
    mid: DaemonState,
    s1: DaemonState,
    cid: Seq<char>,
)
    requires
        s0.disjoint_state(),
        s0.in_progress_has(cid),
        mid.processed_manifests == s0.processed_manifests,
        mid.failed_manifests == s0.failed_manifests,
        mid.in_progress_manifests@ == without_in_progress_cid(s0.in_progress_manifests@, cid),
        s1.in_progress_manifests == mid.in_progress_manifests,
        s1.failed_manifests == mid.failed_manifests,
        s1.processed_manifests@.len() == mid.processed_manifests@.len() + 1,
        s1.processed_manifests@.subrange(0, mid.processed_manifests@.len() as int)
            == mid.processed_manifests@,
        s1.processed_manifests@.last().manifest_cid@ == cid,
    ensures
        s1.disjoint_state(),
{
    let p0 = s0.processed_manifests@;
    let p1 = s1.processed_manifests@;
    let q0 = s0.in_progress_manifests@;
    let q1 = s1.in_progress_manifests@;
    let f = s0.failed_manifests@;
    assert forall|i: int| 0 <= i < p0.len() implies p1[i] == p0[i] by {
        assert(p1.subrange(0, p0.len() as int)[i] == p1[i]);
    }
    assert forall|i: int, j: int| 0 <= i < j < p1.len() implies (#[trigger] p1[i]).manifest_cid@
        != (#[trigger] p1[j]).manifest_cid@ by {
        if j == p1.len() - 1 {
            // the new record's CID was in progress, so it was not processed
            if p0[i].manifest_cid@ == cid {
                let w = choose|w: int| 0 <= w < q0.len() && q0[w].manifest_cid@ == cid;
                assert(false);
            }
        }
    }
    assert forall|i: int, j: int|
        0 <= i < p1.len() && 0 <= j < q1.len() implies (#[trigger] p1[i]).manifest_cid@
        != (#[trigger] q1[j]).manifest_cid@ by {
        lemma_without_in_progress_elem(q0, cid, j);
        if i < p1.len() - 1 {
            let m = choose|m: int| 0 <= m < q0.len() && q0[m] == without_in_progress_cid(q0, cid)[j];
        }
    }
    assert forall|i: int, j: int|
        0 <= i < p1.len() && 0 <= j < f.len() implies (#[trigger] p1[i]).manifest_cid@
        != (#[trigger] f[j]).manifest_cid@ by {
        if i == p1.len() - 1 {
            // the new record's CID was in progress, so it was not failed
            let w = choose|w: int| 0 <= w < q0.len() && q0[w].manifest_cid@ == cid;
        }
    }
    assert forall|i: int, j: int|
        0 <= i < q1.len() && 0 <= j < f.len() implies (#[trigger] q1[i]).manifest_cid@
        != (#[trigger] f[j]).manifest_cid@ by {
        lemma_without_in_progress_elem(q0, cid, i);
        let m = choose|m: int| 0 <= m < q0.len() && q0[m] == without_in_progress_cid(q0, cid)[i];
    }
    assert forall|i: int, j: int| 0 <= i < j < q1.len() implies (#[trigger] q1[i]).manifest_cid@
        != (#[trigger] q1[j]).manifest_cid@ by {
        lemma_without_in_progress_elem(q0, cid, i);
        lemma_without_in_progress_elem(q0, cid, j);
        lemma_without_in_progress_distinct(q0, cid, i, j);
    }
}

/// Settling a manifest with a failure keeps the three collections
/// disjoint.
proof fn lemma_settle_keeps_disjoint_failure(
    s0: DaemonState,
    mid: DaemonState,
    s1: DaemonState,
    cid: Seq<char>,
)
    requires
        s0.disjoint_state(),
        s0.in_progress_has(cid),
        mid.processed_manifests == s0.processed_manifests,
        mid.failed_manifests == s0.failed_manifests,
        mid.in_progress_manifests@ == without_in_progress_cid(s0.in_progress_manifests@, cid),
        s1.in_progress_manifests == mid.in_progress_manifests,
        s1.processed_manifests == mid.processed_manifests,
        s1.failed_manifests@.len() == mid.failed_manifests@.len() + 1,
        s1.failed_manifests@.subrange(0, mid.failed_manifests@.len() as int)
            == mid.failed_manifests@,
        s1.failed_manifests@.last().manifest_cid@ == cid,
    ensures
        s1.disjoint_state(),
{
    let p = s0.processed_manifests@;
    let q0 = s0.in_progress_manifests@;
    let q1 = s1.in_progress_manifests@;
    let f0 = s0.failed_manifests@;
    let f1 = s1.failed_manifests@;
    assert forall|i: int| 0 <= i < f0.len() implies f1[i] == f0[i] by {
        assert(f1.subrange(0, f0.len() as int)[i] == f1[i]);
    }
    assert forall|i: int, j: int| 0 <= i < j < q1.len() implies (#[trigger] q1[i]).manifest_cid@
        != (#[trigger] q1[j]).manifest_cid@ by {
        lemma_without_in_progress_elem(q0, cid, i);
        lemma_without_in_progress_elem(q0, cid, j);
        lemma_without_in_progress_distinct(q0, cid, i, j);
    }
    assert forall|i: int, j: int|
        0 <= i < p.len() && 0 <= j < q1.len() implies (#[trigger] p[i]).manifest_cid@
        != (#[trigger] q1[j]).manifest_cid@ by {
        lemma_without_in_progress_elem(q0, cid, j);
        let m = choose|m: int| 0 <= m < q0.len() && q0[m] == without_in_progress_cid(q0, cid)[j];
    }
    assert forall|i: int, j: int|
        0 <= i < p.len() && 0 <= j < f1.len() implies (#[trigger] p[i]).manifest_cid@
        != (#[trigger] f1[j]).manifest_cid@ by {
        if j == f1.len() - 1 {
            // the new record's CID was in progress, so it was not processed
            if p[i].manifest_cid@ == cid {
                let w = choose|w: int| 0 <= w < q0.len() && q0[w].manifest_cid@ == cid;
                assert(false);
            }
        }
    }
    assert forall|i: int, j: int|
        0 <= i < q1.len() && 0 <= j < f1.len() implies (#[trigger] q1[i]).manifest_cid@
        != (#[trigger] f1[j]).manifest_cid@ by {
        lemma_without_in_progress_elem(q0, cid, i);
        let m = choose|m: int| 0 <= m < q0.len() && q0[m] == without_in_progress_cid(q0, cid)[i];
        if j == f1.len() - 1 {
        }
    }
}

/// Two distinct positions of a CID-filtered in-progress collection come
/// from two distinct positions of the original.
proof fn lemma_without_in_progress_distinct(
    q: Seq<InProgressManifest>,
    cid: Seq<char>,
    i: int,
    j: int,
)
    requires
        0 <= i < j < without_in_progress_cid(q, cid).len(),
        forall|a: int, b: int|
            0 <= a < b < q.len() ==> (#[trigger] q[a]).manifest_cid@ != (
            #[trigger] q[b]).manifest_cid@,
    ensures
        without_in_progress_cid(q, cid)[i].manifest_cid@ != without_in_progress_cid(
            q,
            cid,
        )[j].manifest_cid@,
    decreases q.len(),
{
    reveal(Seq::filter);
    if q.len() > 0 {
        let sub = q.drop_last();
        let out = without_in_progress_cid(q, cid);
        if q.last().manifest_cid@ != cid && j == out.len() - 1 && out[j] == q.last() {
            lemma_without_in_progress_elem(sub, cid, i);
            let m = choose|m: int| 0 <= m < sub.len() && sub[m] == without_in_progress_cid(sub, cid)[i];
            assert(q[m].manifest_cid@ != q[q.len() - 1].manifest_cid@);
        } else {
            lemma_without_in_progress_distinct(sub, cid, i, j);
        }
    }
}

/// How a decoded manifest's sequence number stands against the highest one
/// already processed for the same source peer and folder.
#[derive(Debug, Clone, Copy, PartialEq, Eq)]
pub enum SequenceCheck {
    /// Nothing was processed yet for this peer and folder.
    FirstSeen,
    /// Exactly one more than the highest processed: the expected next step.
    InOrder,
    /// More than one ahead: this many intermediate manifests are missing.
    /// Logged as a warning and processed anyway; the system is eventually
    /// consistent.
    Gap(u64),
    /// At or below the highest processed: superseded, to be marked
    /// processed without work.
    Stale,
}

/// Compares a manifest's sequence number against the highest processed one
/// for its source peer and folder.
pub fn classify_sequence(highest: Option<u64>, sequence: u64) -> (r: SequenceCheck)
    ensures
        match highest {
            None => r is FirstSeen,
            Some(h) => {
                &&& sequence <= h ==> r is Stale
                &&& sequence == h + 1 ==> r is InOrder
                &&& sequence > h + 1 ==> r == SequenceCheck::Gap((sequence - h - 1) as u64)
            },
        },
{
    match highest {
        None => SequenceCheck::FirstSeen,
        Some(h) => {
            if sequence <= h {
                SequenceCheck::Stale
            } else if sequence == h + 1 {
                SequenceCheck::InOrder
            } else {
                SequenceCheck::Gap(sequence - h - 1)
            }
        }
    }
}

/// Tallies per-file fetch outcomes into the counts that progress records
/// and processed records carry.
pub fn count_fetch_outcomes(outcomes: &Vec<FetchOutcome>) -> (r: DownloadTally)
    requires
        outcomes@.len() <= u32::MAX,
    ensures
        r.downloaded == outcomes@.filter(|o: FetchOutcome| o is Downloaded).len(),
        r.failed == outcomes@.filter(|o: FetchOutcome| o is Failed).len(),
        r.skipped_existing == outcomes@.filter(|o: FetchOutcome| o is SkippedExisting).len(),
{
    let ghost dl = |o: FetchOutcome| o is Downloaded;
    let ghost fl = |o: FetchOutcome| o is Failed;
    let ghost sk = |o: FetchOutcome| o is SkippedExisting;
    let mut downloaded: u32 = 0;
    let mut failed: u32 = 0;
    let mut skipped: u32 = 0;
    let mut i: usize = 0;
    proof {
        assert(outcomes@.subrange(0, 0) =~= Seq::<FetchOutcome>::empty());
        reveal(Seq::filter);
    }
    while i < outcomes.len()
        invariant
            i <= outcomes@.len() <= u32::MAX,
            downloaded == outcomes@.subrange(0, i as int).filter(dl).len(),
            failed == outcomes@.subrange(0, i as int).filter(fl).len(),
            skipped == outcomes@.subrange(0, i as int).filter(sk).len(),
            dl == (|o: FetchOutcome| o is Downloaded),
            fl == (|o: FetchOutcome| o is Failed),
            sk == (|o: FetchOutcome| o is SkippedExisting),
        decreases outcomes@.len() - i,
    {
        let ghost pre = outcomes@.subrange(0, i as int);
        proof {
            reveal(Seq::filter);
            let ext = outcomes@.subrange(0, i as int + 1);
            assert(ext =~= pre.push(outcomes@[i as int]));
            assert(ext.drop_last() =~= pre);
            pre.lemma_filter_len(dl);
            pre.lemma_filter_len(fl);
            pre.lemma_filter_len(sk);
        }
        match outcomes[i] {
            FetchOutcome::Downloaded => {
                downloaded = downloaded + 1;
            }
            FetchOutcome::Failed => {
                failed = failed + 1;
            }
            FetchOutcome::SkippedExisting => {
                skipped = skipped + 1;
            }
        }
        i = i + 1;
    }
    proof {
        assert(outcomes@.subrange(0, outcomes@.len() as int) =~= outcomes@);
    }
    DownloadTally { downloaded, failed, skipped_existing: skipped }
}

/// Tallies per-tombstone deletion outcomes.
pub fn count_delete_outcomes(outcomes: &Vec<DeleteOutcome>) -> (r: DeletionTally)
    requires
        outcomes@.len() <= u32::MAX,
    ensures
        r.deleted == outcomes@.filter(|o: DeleteOutcome| o is Deleted).len(),
        r.failed == outcomes@.filter(|o: DeleteOutcome| o is Failed).len(),
        r.not_found == outcomes@.filter(|o: DeleteOutcome| o is NotFound).len(),
{
    let ghost dl = |o: DeleteOutcome| o is Deleted;
    let ghost fl = |o: DeleteOutcome| o is Failed;
    let ghost nf = |o: DeleteOutcome| o is NotFound;
    let mut deleted: u32 = 0;
    let mut failed: u32 = 0;
    let mut not_found: u32 = 0;
    let mut i: usize = 0;
    proof {
        assert(outcomes@.subrange(0, 0) =~= Seq::<DeleteOutcome>::empty());
        reveal(Seq::filter);
    }
    while i < outcomes.len()
        invariant
            i <= outcomes@.len() <= u32::MAX,
            deleted == outcomes@.subrange(0, i as int).filter(dl).len(),
            failed == outcomes@.subrange(0, i as int).filter(fl).len(),
            not_found == outcomes@.subrange(0, i as int).filter(nf).len(),
            dl == (|o: DeleteOutcome| o is Deleted),
            fl == (|o: DeleteOutcome| o is Failed),
            nf == (|o: DeleteOutcome| o is NotFound),
        decreases outcomes@.len() - i,
    {
        let ghost pre = outcomes@.subrange(0, i as int);
        proof {
            reveal(Seq::filter);
            let ext = outcomes@.subrange(0, i as int + 1);
            assert(ext =~= pre.push(outcomes@[i as int]));
            assert(ext.drop_last() =~= pre);
            pre.lemma_filter_len(dl);
            pre.lemma_filter_len(fl);
            pre.lemma_filter_len(nf);
        }
        match outcomes[i] {
            DeleteOutcome::Deleted => {
                deleted = deleted + 1;
            }
            DeleteOutcome::Failed => {
                failed = failed + 1;
            }
            DeleteOutcome::NotFound => {
                not_found = not_found + 1;
            }
        }
        i = i + 1;
    }
    proof {
        assert(outcomes@.subrange(0, outcomes@.len() as int) =~= outcomes@);
    }
    DeletionTally { deleted, failed, not_found }
}

/// A manifest CID is processed at most once: as soon as the state holds it
/// among the processed manifests, every later discovery set filtered
/// against that state excludes it, so the state machine is never entered
/// for it again.
pub proof fn lemma_processed_excluded(
    s: DaemonState,
    discovered: Seq<DiscoveredManifest>,
    cid: Seq<char>,
)
    requires
        s.processed_has(cid),
    ensures
        forall|k: int|
            0 <= k < unprocessed_view(s, discovered).len()
                ==> (#[trigger] unprocessed_view(s, discovered)[k]).cid@ != cid,
{
    assert forall|k: int|
        0 <= k < unprocessed_view(s, discovered).len() implies (#[trigger] unprocessed_view(
        s,
        discovered,
    )[k]).cid@ != cid by {
        lemma_unprocessed_pred(s, discovered, k);
    }
}

/// Flattens one source peer's discovery response into discovered-manifest
/// records: one per descriptor, stamped with the answering peer's id and
/// the source's host and multi-address.
pub fn flatten_discovery(
    peer: &crate::config::SourcePeerConfig,
    resp: &crate::registry::ManifestDiscoveryResponse,
) -> (r: Vec<DiscoveredManifest>)
    ensures
        r@.len() == resp.manifests@.len(),
        forall|i: int|
            0 <= i < resp.manifests@.len() ==> #[trigger] r@[i] == (DiscoveredManifest {
                cid: resp.manifests@[i].manifest_cid,
                folder_id: resp.manifests@[i].folder_id,
                sequence_number: resp.manifests@[i].sequence_number,
                source_peer_id: resp.peer_id,
                source_host: peer.host,
                multiaddr: peer.multiaddr,
            }),
{
    let mut out: Vec<DiscoveredManifest> = Vec::new();
    let mut i: usize = 0;
    while i < resp.manifests.len()
        invariant
            i <= resp.manifests@.len(),
            out@.len() == i,
            forall|j: int|
                0 <= j < i ==> #[trigger] out@[j] == (DiscoveredManifest {
                    cid: resp.manifests@[j].manifest_cid,
                    folder_id: resp.manifests@[j].folder_id,
                    sequence_number: resp.manifests@[j].sequence_number,
                    source_peer_id: resp.peer_id,
                    source_host: peer.host,
                    multiaddr: peer.multiaddr,
                }),
        decreases resp.manifests@.len() - i,
    {
        let m = &resp.manifests[i];
        out.push(
            DiscoveredManifest {
                cid: m.manifest_cid.clone(),
                folder_id: m.folder_id.clone(),
                sequence_number: m.sequence_number,
                source_peer_id: resp.peer_id.clone(),
                source_host: peer.host.clone(),
                multiaddr: clone_opt_string(&peer.multiaddr),
            },
        );
        i = i + 1;
    }
    out
}

} // verus!
