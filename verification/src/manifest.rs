//! The manifest data model: a sequence-numbered, content-addressed snapshot
//! of one folder's files and deletions.

use vstd::prelude::*;
use crate::daemon::clone_opt_string;

verus! {

/// One current file of a folder: its relative path and the content address
/// the node assigned on upload.
#[derive(Debug)]
pub struct FileEntry {
    pub path: String,
    pub cid: String,
    pub size_bytes: u64,
    pub mime_type: Option<String>,
    pub uploaded_at: String,
}

impl Clone for FileEntry {
    fn clone(&self) -> (r: Self)
        ensures
            r == *self,
    {
        FileEntry {
            path: self.path.clone(),
            cid: self.cid.clone(),
            size_bytes: self.size_bytes,
            mime_type: clone_opt_string(&self.mime_type),
            uploaded_at: self.uploaded_at.clone(),
        }
    }
}

/// A deletion observed since the previous manifest: the file's relative
/// path and the content address it last had.
#[derive(Debug)]
pub struct TombstoneEntry {
    pub path: String,
    pub cid: String,
    pub deleted_at: String,
}

impl Clone for TombstoneEntry {
    fn clone(&self) -> (r: Self)
        ensures
            r == *self,
    {
        TombstoneEntry {
            path: self.path.clone(),
            cid: self.cid.clone(),
            deleted_at: self.deleted_at.clone(),
        }
    }
}

/// Aggregate numbers of a manifest's file list.
#[derive(Debug, Clone, Copy, PartialEq, Eq, Structural)]
pub struct ManifestStats {
    pub total_files: u32,
    pub total_size_bytes: u64,
}

/// A folder snapshot: the files currently present, the deletions since the
/// previous snapshot, and a sequence number that grows by one with every
/// snapshot of the folder. Never mutated once authored; a later manifest
/// supersedes earlier ones.
#[derive(Debug)]
pub struct Manifest {
    pub version: String,
    pub folder_id: String,
    pub folder_path: String,
    pub source_peer_id: String,
    pub sequence_number: u64,
    pub last_updated: String,
    pub manifest_cid: Option<String>,
    pub files: Vec<FileEntry>,
    pub deleted_files: Vec<TombstoneEntry>,
    pub stats: ManifestStats,
}

impl Clone for Manifest {
    fn clone(&self) -> (r: Self)
        ensures
            r.version == self.version,
            r.folder_id == self.folder_id,
            r.folder_path == self.folder_path,
            r.source_peer_id == self.source_peer_id,
            r.sequence_number == self.sequence_number,
            r.last_updated == self.last_updated,
            r.manifest_cid == self.manifest_cid,
            r.files@ == self.files@,
            r.deleted_files@ == self.deleted_files@,
            r.stats == self.stats,
    {
        let r = Manifest {
            version: self.version.clone(),
            folder_id: self.folder_id.clone(),
            folder_path: self.folder_path.clone(),
            source_peer_id: self.source_peer_id.clone(),
            sequence_number: self.sequence_number,
            last_updated: self.last_updated.clone(),
            manifest_cid: clone_opt_string(&self.manifest_cid),
            files: self.files.clone(),
            deleted_files: self.deleted_files.clone(),
            stats: self.stats,
        };
        proof {
            assert forall|i: int| 0 <= i < self.files@.len() implies r.files@[i] == self.files@[i] by {
                assert(cloned(self.files[i], r.files[i]));
            }
            assert(r.files@ =~= self.files@);
            assert forall|i: int| 0 <= i < self.deleted_files@.len() implies r.deleted_files@[i]
                == self.deleted_files@[i] by {
                assert(cloned(self.deleted_files[i], r.deleted_files[i]));
            }
            assert(r.deleted_files@ =~= self.deleted_files@);
        }
        r
    }
}

/// Total size in bytes of a file list.
pub open spec fn size_sum(s: Seq<FileEntry>) -> int
    decreases s.len(),
{
    if s.len() == 0 {
        0
    } else {
        size_sum(s.drop_last()) + s.last().size_bytes
    }
}

/// Sums the sizes of a file list, saturating at the top of `u64`.
pub fn total_size_of(files: &Vec<FileEntry>) -> (r: u64)
    ensures
        r == if size_sum(files@) <= u64::MAX { size_sum(files@) } else { u64::MAX as int },
{
    let mut acc: u64 = 0;
    let mut i: usize = 0;
    proof {
        assert(files@.subrange(0, 0) =~= Seq::<FileEntry>::empty());
    }
    while i < files.len()
        invariant
            i <= files@.len(),
            acc == if size_sum(files@.subrange(0, i as int)) <= u64::MAX {
                size_sum(files@.subrange(0, i as int))
            } else {
                u64::MAX as int
            },
        decreases files@.len() - i,
    {
        let ghost pre = files@.subrange(0, i as int);
        proof {
            let ext = files@.subrange(0, i as int + 1);
            assert(ext =~= pre.push(files@[i as int]));
            assert(ext.drop_last() =~= pre);
            lemma_size_sum_nonneg(pre);
        }
        acc = crate::daemon::sat_add_u64(acc, files[i].size_bytes);
        i = i + 1;
    }
    proof {
        assert(files@.subrange(0, files@.len() as int) =~= files@);
    }
    acc
}

/// A file list's total size is never negative.
proof fn lemma_size_sum_nonneg(s: Seq<FileEntry>)
    ensures
        size_sum(s) >= 0,
    decreases s.len(),
{
    if s.len() > 0 {
        lemma_size_sum_nonneg(s.drop_last());
    }
}

} // verus!
