//! The sync engine: per-folder content state on the source peer.
//!
//! The engine owns, for every watched folder, the authoritative list of
//! uploaded files (the CID mapping), the tombstones accumulated since the
//! last manifest, the change counter and the manifest sequence number. The
//! filesystem watcher and the uploader live outside the library; they feed
//! events and upload outcomes in as plain values.

use vstd::prelude::*;
use crate::errors::ArchivistError;
use crate::manifest::{FileEntry, TombstoneEntry, Manifest, ManifestStats};
use crate::daemon::clone_opt_string;
use crate::text::{starts_with, ends_with};
use crate::ext::str_chars;

verus! {

/// Lifecycle state of one watched folder.
#[derive(Debug, Clone, Copy, PartialEq, Eq, Structural)]
pub enum FolderStatus {
    Idle,
    Scanning,
    Syncing,
    Error,
    Paused,
}

/// A filesystem observation handed to the engine by the watcher.
#[derive(Debug)]
pub enum SyncEvent {
    FileCreated(String),
    FileModified(String),
    FileDeleted(String),
    ScanFolder(String),
}

/// One watched folder and everything the engine tracks for it.
#[derive(Debug)]
pub struct WatchedFolder {
    pub id: String,
    pub path: String,
    pub enabled: bool,
    pub file_count: u32,
    pub total_size_bytes: u64,
    pub last_synced: Option<String>,
    pub status: FolderStatus,
    /// The CID mapping: current content, one entry per relative path.
    pub files: Vec<FileEntry>,
    /// Deletions observed since the last manifest was authored.
    pub tombstones: Vec<TombstoneEntry>,
    /// Changes (uploads, replacements, deletions) since the last manifest.
    pub changes_since_manifest: u32,
    /// Grows by exactly one with every authored manifest; starts at zero.
    pub manifest_sequence: u64,
    pub last_manifest_cid: Option<String>,
    pub last_manifest_at: Option<String>,
    /// A manifest has been authored and the backup was not yet notified.
    pub pending_retry: bool,
    pub backup_synced_at: Option<String>,
}

/// A file waiting to be uploaded.
#[derive(Debug)]
pub struct PendingFile {
    pub path: String,
    pub folder_id: String,
    pub added_at: String,
}

impl Clone for PendingFile {
    fn clone(&self) -> (r: Self)
        ensures
            r == *self,
    {
        PendingFile {
            path: self.path.clone(),
            folder_id: self.folder_id.clone(),
            added_at: self.added_at.clone(),
        }
    }
}

/// The aggregate view handed to observers.
#[derive(Debug)]
pub struct SyncState {
    pub folders: Vec<WatchedFolder>,
    pub is_syncing: bool,
    pub queue_size: u32,
    pub total_files: u32,
    pub synced_files: u32,
    pub recent_uploads: Vec<String>,
}

impl Clone for WatchedFolder {
    fn clone(&self) -> (r: Self)
        ensures
            r.id == self.id,
            r.path == self.path,
            r.enabled == self.enabled,
            r.file_count == self.file_count,
            r.total_size_bytes == self.total_size_bytes,
            r.last_synced == self.last_synced,
            r.status == self.status,
            r.files@ == self.files@,
            r.tombstones@ == self.tombstones@,
            r.changes_since_manifest == self.changes_since_manifest,
            r.manifest_sequence == self.manifest_sequence,
            r.last_manifest_cid == self.last_manifest_cid,
            r.last_manifest_at == self.last_manifest_at,
            r.pending_retry == self.pending_retry,
            r.backup_synced_at == self.backup_synced_at,
    {
        let r = WatchedFolder {
            id: self.id.clone(),
            path: self.path.clone(),
            enabled: self.enabled,
            file_count: self.file_count,
            total_size_bytes: self.total_size_bytes,
            last_synced: clone_opt_string(&self.last_synced),
            status: self.status,
            files: self.files.clone(),
            tombstones: self.tombstones.clone(),
            changes_since_manifest: self.changes_since_manifest,
            manifest_sequence: self.manifest_sequence,
            last_manifest_cid: clone_opt_string(&self.last_manifest_cid),
            last_manifest_at: clone_opt_string(&self.last_manifest_at),
            pending_retry: self.pending_retry,
            backup_synced_at: clone_opt_string(&self.backup_synced_at),
        };
        proof {
            assert forall|i: int| 0 <= i < self.files@.len() implies r.files@[i] == self.files@[i] by {
                assert(cloned(self.files[i], r.files[i]));
            }
            assert(r.files@ =~= self.files@);
            assert forall|i: int| 0 <= i < self.tombstones@.len() implies r.tombstones@[i]
                == self.tombstones@[i] by {
                assert(cloned(self.tombstones[i], r.tombstones[i]));
            }
            assert(r.tombstones@ =~= self.tombstones@);
        }
        r
    }
}

/// `path` lies at or under the directory `base`: `base` is a prefix and
/// ends exactly at a path-component boundary.
pub open spec fn path_under(path: Seq<char>, base: Seq<char>) -> bool {
    &&& base.len() > 0
    &&& starts_with(path, base)
    &&& (path.len() == base.len() || path[base.len() as int] == '/')
}

/// The final path component: everything after the last separator.
pub open spec fn file_name(path: Seq<char>) -> Seq<char> {
    path.subrange(last_slash(path) + 1, path.len() as int)
}

/// Index of the last separator in the path, or minus one.
pub open spec fn last_slash(path: Seq<char>) -> int
    decreases path.len(),
{
    if path.len() == 0 {
        -1
    } else if path.last() == '/' {
        path.len() - 1
    } else {
        last_slash(path.drop_last())
    }
}

/// File names the watcher must not feed into the upload queue: hidden
/// files (a leading dot, which also covers the manifest file itself),
/// editor temporaries ending in `.tmp` or `~`.
pub open spec fn ignored_name(name: Seq<char>) -> bool {
    name.len() > 0 && (name[0] == '.' || ends_with(name, ".tmp"@) || ends_with(name, "~"@))
}

/// Whether `path` lies at or under the directory `base`, in executable
/// code.
pub fn is_path_under(path: &String, base: &String) -> (r: bool)
    ensures
        r == path_under(path@, base@),
{
    let p = str_chars(path.as_str());
    let b = str_chars(base.as_str());
    if b.len() == 0 || p.len() < b.len() {
        return false;
    }
    let mut i: usize = 0;
    while i < b.len()
        invariant
            i <= b@.len() <= p@.len(),
            p@ == path@,
            b@ == base@,
            forall|j: int| 0 <= j < i ==> p@[j] == b@[j],
        decreases b@.len() - i,
    {
        if p[i] != b[i] {
            proof {
                if starts_with(path@, base@) {
                    assert(path@.subrange(0, base@.len() as int)[i as int] == path@[i as int]);
                }
            }
            return false;
        }
        i = i + 1;
    }
    proof {
        assert(path@.subrange(0, base@.len() as int) =~= base@);
    }
    if p.len() == b.len() {
        true
    } else {
        p[b.len()] == '/'
    }
}

/// The final path component, in executable code.
pub fn file_name_of(path: &String) -> (r: String)
    ensures
        r@ == file_name(path@),
{
    let p = str_chars(path.as_str());
    let mut i: usize = p.len();
    while i > 0
        invariant
            i <= p@.len(),
            p@ == path@,
            forall|j: int| i <= j < p@.len() ==> p@[j] != '/',
        decreases i,
    {
        if p[i - 1] == '/' {
            proof {
                lemma_last_slash_at(path@, i - 1);
            }
            let mut out: Vec<char> = Vec::new();
            let mut k: usize = i;
            while k < p.len()
                invariant
                    i <= k <= p@.len(),
                    p@ == path@,
                    out@ == p@.subrange(i as int, k as int),
                decreases p@.len() - k,
            {
                let ghost pre = p@.subrange(i as int, k as int);
                out.push(p[k]);
                proof {
                    assert(p@.subrange(i as int, k as int + 1) =~= pre.push(p@[k as int]));
                }
                k = k + 1;
            }
            proof {
                assert(p@.subrange(i as int, p@.len() as int) =~= file_name(path@));
            }
            return crate::ext::chars_string(&out);
        }
        i = i - 1;
    }
    proof {
        lemma_last_slash_none(path@);
        assert(path@.subrange(0, path@.len() as int) =~= file_name(path@));
    }
    path.clone()
}

/// When position `k` holds a separator and nothing after it does, `k` is
/// the last separator.
proof fn lemma_last_slash_at(path: Seq<char>, k: int)
    requires
        0 <= k < path.len(),
        path[k] == '/',
        forall|j: int| k < j < path.len() ==> path[j] != '/',
    ensures
        last_slash(path) == k,
    decreases path.len(),
{
    if k == path.len() - 1 {
    } else {
        lemma_last_slash_at(path.drop_last(), k);
    }
}

/// A path without separators has no last separator.
proof fn lemma_last_slash_none(path: Seq<char>)
    requires
        forall|j: int| 0 <= j < path.len() ==> path[j] != '/',
    ensures
        last_slash(path) == -1,
    decreases path.len(),
{
    if path.len() > 0 {
        lemma_last_slash_none(path.drop_last());
    }
}

/// Whether the watcher must ignore this file name.
pub fn is_ignored_name(name: &String) -> (r: bool)
    ensures
        r == ignored_name(name@),
{
    let v = str_chars(name.as_str());
    if v.len() == 0 {
        return false;
    }
    if v[0] == '.' {
        return true;
    }
    let n = v.len();
    if n >= 1 && v[n - 1] == '~' {
        proof {
            assert(name@.subrange(name@.len() - 1, name@.len() as int) =~= seq!['~']);
            reveal_strlit("~");
            assert("~"@ =~= seq!['~']);
        }
        return true;
    }
    if n >= 4 && v[n - 4] == '.' && v[n - 3] == 't' && v[n - 2] == 'm' && v[n - 1] == 'p' {
        proof {
            reveal_strlit(".tmp");
            assert(name@.subrange(name@.len() - 4, name@.len() as int) =~= ".tmp"@);
        }
        return true;
    }
    proof {
        reveal_strlit("~");
        reveal_strlit(".tmp");
        if ends_with(name@, "~"@) {
            assert(name@.subrange(name@.len() - 1, name@.len() as int)[0] == name@[name@.len() - 1]);
        }
        if ends_with(name@, ".tmp"@) {
            let t = name@.subrange(name@.len() - 4, name@.len() as int);
            assert(t[0] == name@[name@.len() - 4]);
            assert(t[1] == name@[name@.len() - 3]);
            assert(t[2] == name@[name@.len() - 2]);
            assert(t[3] == name@[name@.len() - 1]);
        }
    }
    false
}

/// The sync engine's whole state.
#[derive(Debug)]
pub struct SyncEngine {
    /// The watched folders, ids and paths unique.
    pub folders: Vec<WatchedFolder>,
    /// Files waiting to be uploaded, in arrival order.
    pub upload_queue: Vec<PendingFile>,
    /// Names of the most recent uploads, newest first, at most ten.
    pub recent_uploads: Vec<String>,
    /// A sync pass is running.
    pub is_syncing: bool,
    /// Absolute paths already uploaded, to avoid re-uploading.
    pub synced_files: Vec<String>,
    /// Changes per folder that trigger authoring a manifest.
    pub manifest_threshold: u32,
}

/// The CID mapping holds one entry per relative path.
pub open spec fn folder_files_wf(f: WatchedFolder) -> bool {
    forall|i: int, j: int|
        0 <= i < j < f.files@.len() ==> (#[trigger] f.files@[i]).path@ != (
        #[trigger] f.files@[j]).path@
}

impl SyncEngine {
    /// Folder ids and folder paths are unique, and every folder's CID
    /// mapping holds one entry per relative path.
    pub open spec fn wf(self) -> bool {
        &&& forall|i: int, j: int|
            0 <= i < j < self.folders@.len() ==> (#[trigger] self.folders@[i]).id@ != (
            #[trigger] self.folders@[j]).id@ && self.folders@[i].path@ != self.folders@[j].path@
        &&& forall|k: int| 0 <= k < self.folders@.len() ==> folder_files_wf(#[trigger] self.folders@[k])
    }

    /// Some folder has this id.
    pub open spec fn has_folder_id(self, id: Seq<char>) -> bool {
        exists|i: int| 0 <= i < self.folders@.len() && (#[trigger] self.folders@[i]).id@ == id
    }

    /// Some folder watches this path.
    pub open spec fn has_folder_path(self, path: Seq<char>) -> bool {
        exists|i: int| 0 <= i < self.folders@.len() && (#[trigger] self.folders@[i]).path@ == path
    }

    /// This absolute path was already uploaded.
    pub open spec fn synced_has(self, path: Seq<char>) -> bool {
        exists|i: int| 0 <= i < self.synced_files@.len() && (#[trigger] self.synced_files@[i])@ == path
    }

    /// This absolute path is waiting in the upload queue.
    pub open spec fn queue_has(self, path: Seq<char>) -> bool {
        exists|i: int|
            0 <= i < self.upload_queue@.len() && (#[trigger] self.upload_queue@[i]).path@ == path
    }

    /// An engine with no folders and nothing queued.
    pub fn new(manifest_threshold: u32) -> (r: SyncEngine)
        ensures
            r.folders@.len() == 0,
            r.upload_queue@.len() == 0,
            r.recent_uploads@.len() == 0,
            !r.is_syncing,
            r.synced_files@.len() == 0,
            r.manifest_threshold == manifest_threshold,
            r.wf(),
    {
        SyncEngine {
            folders: Vec::new(),
            upload_queue: Vec::new(),
            recent_uploads: Vec::new(),
            is_syncing: false,
            synced_files: Vec::new(),
            manifest_threshold,
        }
    }

    /// Position of the folder with this id, if any.
    pub fn find_folder_index(&self, id: &String) -> (r: Option<usize>)
        ensures
            match r {
                Some(i) => 0 <= i < self.folders@.len() && self.folders@[i as int].id@ == id@,
                None => !self.has_folder_id(id@),
            },
    {
        let mut i: usize = 0;
        while i < self.folders.len()
            invariant
                i <= self.folders@.len(),
                forall|j: int| 0 <= j < i ==> (#[trigger] self.folders@[j]).id@ != id@,
            decreases self.folders@.len() - i,
        {
            if self.folders[i].id.eq(id) {
                return Some(i);
            }
            i = i + 1;
        }
        None
    }

    /// The id of the folder that owns this path: among the folders whose
    /// directory contains the path, the one with the longest directory.
    /// With non-overlapping folders that owner is unique.
    pub fn find_folder_for_path(&self, path: &String) -> (r: Option<String>)
        ensures
            match r {
                Some(id) => exists|k: int|
                    {
                        &&& 0 <= k < self.folders@.len()
                        &&& (#[trigger] self.folders@[k]).id == id
                        &&& path_under(path@, self.folders@[k].path@)
                        &&& forall|j: int|
                            0 <= j < self.folders@.len() && path_under(
                                path@,
                                (#[trigger] self.folders@[j]).path@,
                            ) ==> self.folders@[j].path@.len() <= self.folders@[k].path@.len()
                    },
                None => forall|j: int|
                    0 <= j < self.folders@.len() ==> !path_under(
                        path@,
                        (#[trigger] self.folders@[j]).path@,
                    ),
            },
    {
        let mut best: Option<usize> = None;
        let mut best_len: usize = 0;
        let mut i: usize = 0;
        while i < self.folders.len()
            invariant
                i <= self.folders@.len(),
                match best {
                    Some(k) => {
                        &&& 0 <= k < i
                        &&& path_under(path@, self.folders@[k as int].path@)
                        &&& best_len == self.folders@[k as int].path@.len()
                        &&& forall|j: int|
                            0 <= j < i && path_under(path@, (#[trigger] self.folders@[j]).path@)
                                ==> self.folders@[j].path@.len() <= best_len
                    },
                    None => forall|j: int|
                        0 <= j < i ==> !path_under(path@, (#[trigger] self.folders@[j]).path@),
                },
            decreases self.folders@.len() - i,
        {
            if is_path_under(path, &self.folders[i].path) {
                let l = self.folders[i].path.as_str().unicode_len();
                match best {
                    Some(_) => {
                        if l > best_len {
                            best = Some(i);
                            best_len = l;
                        }
                    }
                    None => {
                        best = Some(i);
                        best_len = l;
                    }
                }
            }
            i = i + 1;
        }
        match best {
            Some(k) => Some(self.folders[k].id.clone()),
            None => None,
        }
    }
}

/// No watched folder lies inside another.
pub open spec fn non_overlapping(folders: Seq<WatchedFolder>) -> bool {
    forall|i: int, j: int|
        0 <= i < folders.len() && 0 <= j < folders.len() && i != j ==> !path_under(
            (#[trigger] folders[i]).path@,
            (#[trigger] folders[j]).path@,
        )
}

/// When a path lies under two folder directories, the longer directory
/// lies under the shorter one.
proof fn lemma_nested_bases(p: Seq<char>, a: Seq<char>, b: Seq<char>)
    requires
        path_under(p, a),
        path_under(p, b),
        a.len() <= b.len(),
    ensures
        path_under(b, a),
{
    assert forall|x: int| 0 <= x < a.len() implies b[x] == a[x] by {
        assert(p.subrange(0, a.len() as int)[x] == p[x]);
        assert(p.subrange(0, b.len() as int)[x] == p[x]);
    }
    assert(b.subrange(0, a.len() as int) =~= a);
    if b.len() > a.len() {
        assert(p.subrange(0, b.len() as int)[a.len() as int] == p[a.len() as int]);
    }
}

/// With non-overlapping folders, a path under one folder's directory lies
/// under no other folder's directory: every filesystem event belongs to at
/// most one folder.
pub proof fn lemma_unique_owner(folders: Seq<WatchedFolder>, path: Seq<char>, k: int)
    requires
        non_overlapping(folders),
        0 <= k < folders.len(),
        path_under(path, folders[k].path@),
    ensures
        forall|j: int|
            0 <= j < folders.len() && j != k ==> !path_under(path, (#[trigger] folders[j]).path@),
{
    assert forall|j: int|
        0 <= j < folders.len() && j != k implies !path_under(path, (#[trigger] folders[j]).path@) by {
        if path_under(path, folders[j].path@) {
            if folders[j].path@.len() <= folders[k].path@.len() {
                lemma_nested_bases(path, folders[j].path@, folders[k].path@);
            } else {
                lemma_nested_bases(path, folders[k].path@, folders[j].path@);
            }
        }
    }
}

/// What would be tombstoned by a delete observation.
#[derive(Debug, Clone, Copy, PartialEq, Eq, Structural)]
pub enum TombstoneOutcome {
    /// No watched folder has this id.
    NoFolder,
    /// The path was never uploaded: deleting it is a no-op, no tombstone.
    NotTracked,
    /// The path was in the CID mapping; it moved to the tombstone list.
    Tombstoned,
}

impl SyncEngine {
    /// The upload queue takes a path only when its file name is not
    /// ignored and the path is neither already uploaded nor already
    /// queued.
    pub open spec fn queue_accepts(self, path: Seq<char>) -> bool {
        &&& !ignored_name(file_name(path))
        &&& !self.synced_has(path)
        &&& !self.queue_has(path)
    }

    /// Whether this absolute path was already uploaded.
    pub fn synced_contains(&self, path: &String) -> (r: bool)
        ensures
            r == self.synced_has(path@),
    {
        let mut i: usize = 0;
        while i < self.synced_files.len()
            invariant
                i <= self.synced_files@.len(),
                forall|j: int| 0 <= j < i ==> (#[trigger] self.synced_files@[j])@ != path@,
            decreases self.synced_files@.len() - i,
        {
            if self.synced_files[i].eq(path) {
                return true;
            }
            i = i + 1;
        }
        false
    }

    /// Whether this absolute path is already waiting in the queue.
    pub fn queue_contains(&self, path: &String) -> (r: bool)
        ensures
            r == self.queue_has(path@),
    {
        let mut i: usize = 0;
        while i < self.upload_queue.len()
            invariant
                i <= self.upload_queue@.len(),
                forall|j: int| 0 <= j < i ==> (#[trigger] self.upload_queue@[j]).path@ != path@,
            decreases self.upload_queue@.len() - i,
        {
            if self.upload_queue[i].path.eq(path) {
                return true;
            }
            i = i + 1;
        }
        false
    }

    /// Appends a file to the upload queue unless its name is ignored or it
    /// is already uploaded or queued; a folder sitting idle turns to
    /// syncing.
    pub fn queue_file(&mut self, path: String, folder_id: String, now: String) -> (r: bool)
        requires
            old(self).wf(),
        ensures
            final(self).wf(),
            r == old(self).queue_accepts(path@),
            !r ==> *final(self) == *old(self),
            r ==> {
                &&& final(self).upload_queue@ == old(self).upload_queue@.push(
                    PendingFile { path, folder_id, added_at: now },
                )
                &&& final(self).synced_files == old(self).synced_files
                &&& final(self).recent_uploads == old(self).recent_uploads
                &&& final(self).is_syncing == old(self).is_syncing
                &&& final(self).manifest_threshold == old(self).manifest_threshold
                &&& if old(self).has_folder_id(folder_id@) {
                    exists|i: int|
                        {
                            &&& 0 <= i < old(self).folders@.len()
                            &&& (#[trigger] old(self).folders@[i]).id@ == folder_id@
                            &&& final(self).folders@ == old(self).folders@.update(
                                i,
                                WatchedFolder {
                                    status: if old(self).folders@[i].status is Idle {
                                        FolderStatus::Syncing
                                    } else {
                                        old(self).folders@[i].status
                                    },
                                    ..old(self).folders@[i]
                                },
                            )
                        }
                } else {
                    final(self).folders == old(self).folders
                }
            },
    {
        let name = file_name_of(&path);
        if is_ignored_name(&name) {
            return false;
        }
        if self.synced_contains(&path) {
            return false;
        }
        if self.queue_contains(&path) {
            return false;
        }
        let idx = self.find_folder_index(&folder_id);
        self.upload_queue.push(PendingFile { path, folder_id, added_at: now });
        match idx {
            Some(i) => {
                let ghost fl0 = self.folders@;
                let mut folder = self.folders.remove(i);
                if matches!(folder.status, FolderStatus::Idle) {
                    folder.status = FolderStatus::Syncing;
                }
                self.folders.insert(i, folder);
                proof {
                    assert(self.folders@ =~= fl0.update(
                        i as int,
                        WatchedFolder {
                            status: if fl0[i as int].status is Idle {
                                FolderStatus::Syncing
                            } else {
                                fl0[i as int].status
                            },
                            ..fl0[i as int]
                        },
                    ));
                    lemma_update_same_keys_wf(*old(self), *self, i as int);
                }
                true
            }
            None => true,
        }
    }

    /// Records a finished upload: the CID mapping gains or replaces the
    /// entry for the relative path, the change counter grows by exactly
    /// one, the absolute path is remembered as synced, and the file name
    /// goes onto the recent-uploads ring (newest first, at most ten kept).
    pub fn record_upload(
        &mut self,
        folder_id: &String,
        rel_path: String,
        abs_path: &String,
        cid: String,
        size_bytes: u64,
        mime_type: Option<String>,
        now: String,
    ) -> (r: bool)
        requires
            old(self).wf(),
        ensures
            final(self).wf(),
            r == old(self).has_folder_id(folder_id@),
            !r ==> *final(self) == *old(self),
            r ==> {
                &&& final(self).upload_queue == old(self).upload_queue
                &&& final(self).is_syncing == old(self).is_syncing
                &&& final(self).manifest_threshold == old(self).manifest_threshold
                &&& (if old(self).synced_has(abs_path@) {
                    final(self).synced_files == old(self).synced_files
                } else {
                    final(self).synced_files@ == old(self).synced_files@.push(*abs_path)
                })
                &&& final(self).recent_uploads@.len() == if old(self).recent_uploads@.len() < 10 {
                    old(self).recent_uploads@.len() + 1
                } else {
                    10
                }
                &&& (final(self).recent_uploads@[0])@ == file_name(abs_path@)
                &&& forall|k: int|
                    1 <= k < final(self).recent_uploads@.len()
                        ==> (#[trigger] final(self).recent_uploads@[k]) == old(
                        self,
                    ).recent_uploads@[k - 1]
                &&& exists|i: int|
                    {
                        &&& 0 <= i < old(self).folders@.len()
                        &&& (#[trigger] old(self).folders@[i]).id@ == folder_id@
                        &&& final(self).folders@.len() == old(self).folders@.len()
                        &&& (forall|j: int|
                            0 <= j < old(self).folders@.len() && j != i
                                ==> final(self).folders@[j] == old(self).folders@[j])
                        &&& {
                            let f0 = old(self).folders@[i];
                            let f1 = final(self).folders@[i];
                            let entry = FileEntry {
                                path: rel_path,
                                cid,
                                size_bytes,
                                mime_type,
                                uploaded_at: now,
                            };
                            &&& f1.id == f0.id
                            &&& f1.path == f0.path
                            &&& f1.enabled == f0.enabled
                            &&& f1.status == f0.status
                            &&& f1.tombstones == f0.tombstones
                            &&& f1.manifest_sequence == f0.manifest_sequence
                            &&& f1.pending_retry == f0.pending_retry
                            &&& f1.changes_since_manifest == crate::daemon::sat32(
                                f0.changes_since_manifest,
                                1,
                            )
                            &&& if exists|e: int|
                                0 <= e < f0.files@.len() && (#[trigger] f0.files@[e]).path@
                                    == rel_path@ {
                                exists|e: int|
                                    {
                                        &&& 0 <= e < f0.files@.len()
                                        &&& (#[trigger] f0.files@[e]).path@ == rel_path@
                                        &&& f1.files@ == f0.files@.update(e, entry)
                                    }
                            } else {
                                f1.files@ == f0.files@.push(entry)
                            }
                        }
                    }
            },
    {
        let idx = match self.find_folder_index(folder_id) {
            Some(i) => i,
            None => {
                return false;
            }
        };
        let name = file_name_of(abs_path);
        let entry = FileEntry { path: rel_path, cid, size_bytes, mime_type, uploaded_at: now };
        let ghost entry_spec = entry;
        let ghost fl0 = self.folders@;
        let mut folder = self.folders.remove(idx);
        let ghost f0 = folder;

        // Replace the mapping for this relative path, or add one.
        let mut e: usize = 0;
        let n = folder.files.len();
        let mut found: Option<usize> = None;
        while e < n
            invariant
                n == folder.files@.len(),
                e <= n,
                folder == f0,
                entry == entry_spec,
                match found {
                    Some(fe) => 0 <= fe < n && folder.files@[fe as int].path@ == entry_spec.path@,
                    None => forall|j: int|
                        0 <= j < e ==> (#[trigger] folder.files@[j]).path@ != entry_spec.path@,
                },
            decreases n - e,
        {
            if found.is_none() && folder.files[e].path.eq(&entry.path) {
                found = Some(e);
            }
            e = e + 1;
        }
        match found {
            Some(fe) => {
                let ghost files0 = folder.files@;
                folder.files.remove(fe);
                folder.files.insert(fe, entry);
                proof {
                    assert(folder.files@ =~= files0.update(fe as int, entry_spec));
                }
            }
            None => {
                folder.files.push(entry);
            }
        }
        folder.changes_since_manifest = crate::daemon::sat_add_u32(
            folder.changes_since_manifest,
            1,
        );
        self.folders.insert(idx, folder);

        // Remember the absolute path as synced.
        if !self.synced_contains(abs_path) {
            self.synced_files.push(abs_path.clone());
        }

        // Newest first on the recent-uploads ring, capacity ten.
        self.recent_uploads.insert(0, name);
        if self.recent_uploads.len() > 10 {
            self.recent_uploads.truncate(10);
        }
        proof {
            let f1 = self.folders@[idx as int];
            let fold0 = fl0[idx as int];
            assert(self.folders@ =~= fl0.update(idx as int, f1));
            if old(self).recent_uploads@.len() < 10 {
                assert(self.recent_uploads@ =~= seq![self.recent_uploads@[0]]
                    + old(self).recent_uploads@);
            } else {
                assert(self.recent_uploads@ =~= (seq![self.recent_uploads@[0]] + old(
                    self,
                ).recent_uploads@).subrange(0, 10));
            }
            lemma_files_update_wf(*old(self), *self, idx as int, entry_spec);
        }
        true
    }

    /// Records an observed deletion against a folder's CID mapping. A path
    /// that was never uploaded leaves the state untouched and produces no
    /// tombstone; a mapped path moves from the mapping to the tombstone
    /// list and counts as one change.
    pub fn record_delete(&mut self, folder_id: &String, rel_path: &String, now: String) -> (r:
        TombstoneOutcome)
        requires
            old(self).wf(),
        ensures
            final(self).wf(),
            (r is NoFolder) == !old(self).has_folder_id(folder_id@),
            (r is NoFolder || r is NotTracked) ==> *final(self) == *old(self),
            !(r is NoFolder) ==> exists|i: int|
                {
                    &&& 0 <= i < old(self).folders@.len()
                    &&& (#[trigger] old(self).folders@[i]).id@ == folder_id@
                    &&& {
                        let f0 = old(self).folders@[i];
                        &&& (r is NotTracked) == !(exists|e: int|
                            0 <= e < f0.files@.len() && (#[trigger] f0.files@[e]).path@
                                == rel_path@)
                        &&& (r is Tombstoned) ==> {
                            &&& final(self).folders@.len() == old(self).folders@.len()
                            &&& (forall|j: int|
                                0 <= j < old(self).folders@.len() && j != i
                                    ==> final(self).folders@[j] == old(self).folders@[j])
                            &&& final(self).upload_queue == old(self).upload_queue
                            &&& final(self).synced_files == old(self).synced_files
                            &&& final(self).recent_uploads == old(self).recent_uploads
                            &&& final(self).is_syncing == old(self).is_syncing
                            &&& final(self).manifest_threshold == old(self).manifest_threshold
                            &&& exists|e: int|
                                {
                                    let f1 = final(self).folders@[i];
                                    &&& 0 <= e < f0.files@.len()
                                    &&& (#[trigger] f0.files@[e]).path@ == rel_path@
                                    &&& f1.files@ == f0.files@.remove(e)
                                    &&& f1.tombstones@ == f0.tombstones@.push(
                                        TombstoneEntry {
                                            path: *rel_path,
                                            cid: f0.files@[e].cid,
                                            deleted_at: now,
                                        },
                                    )
                                    &&& f1.changes_since_manifest == crate::daemon::sat32(
                                        f0.changes_since_manifest,
                                        1,
                                    )
                                    &&& f1.id == f0.id
                                    &&& f1.path == f0.path
                                    &&& f1.enabled == f0.enabled
                                    &&& f1.status == f0.status
                                    &&& f1.manifest_sequence == f0.manifest_sequence
                                    &&& f1.pending_retry == f0.pending_retry
                                }
                        }
                    }
                },
    {
        let idx = match self.find_folder_index(folder_id) {
            Some(i) => i,
            None => {
                return TombstoneOutcome::NoFolder;
            }
        };
        let n = self.folders[idx].files.len();
        let mut e: usize = 0;
        while e < n
            invariant
                0 <= idx < self.folders@.len(),
                n == self.folders@[idx as int].files@.len(),
                e <= n,
                *self == *old(self),
                old(self).wf(),
                self.folders@[idx as int].id@ == folder_id@,
                forall|j: int|
                    0 <= j < e ==> (#[trigger] self.folders@[idx as int].files@[j]).path@
                        != rel_path@,
            decreases n - e,
        {
            if self.folders[idx].files[e].path.eq(rel_path) {
                let ghost fl0 = self.folders@;
                let ghost f0 = self.folders@[idx as int];
                let mut folder = self.folders.remove(idx);
                let victim = folder.files.remove(e);
                folder.tombstones.push(
                    TombstoneEntry { path: rel_path.clone(), cid: victim.cid, deleted_at: now },
                );
                folder.changes_since_manifest = crate::daemon::sat_add_u32(
                    folder.changes_since_manifest,
                    1,
                );
                self.folders.insert(idx, folder);
                proof {
                    let f1 = self.folders@[idx as int];
                    assert(self.folders@ =~= fl0.update(idx as int, f1));
                    assert(f1.files@ == f0.files@.remove(e as int));
                    lemma_files_remove_wf(*old(self), *self, idx as int, e as int);
                }
                return TombstoneOutcome::Tombstoned;
            }
            e = e + 1;
        }
        TombstoneOutcome::NotTracked
    }

    /// Forgets an absolute path: it leaves the synced set and the upload
    /// queue. Called when the file disappears from disk.
    pub fn forget_path(&mut self, path: &String)
        ensures
            final(self).synced_files@ == synced_without(old(self).synced_files@, path@),
            final(self).upload_queue@ == queue_without(old(self).upload_queue@, path@),
            final(self).folders == old(self).folders,
            final(self).recent_uploads == old(self).recent_uploads,
            final(self).is_syncing == old(self).is_syncing,
            final(self).manifest_threshold == old(self).manifest_threshold,
            old(self).wf() ==> final(self).wf(),
    {
        let ghost s0 = self.synced_files@;
        let mut kept: Vec<String> = Vec::new();
        let mut i: usize = 0;
        proof {
            assert(s0.subrange(0, 0) =~= Seq::<String>::empty());
            reveal(Seq::filter);
        }
        while i < self.synced_files.len()
            invariant
                i <= self.synced_files@.len(),
                *self == *old(self),
                self.synced_files@ == s0,
                kept@ == synced_without(s0.subrange(0, i as int), path@),
            decreases self.synced_files@.len() - i,
        {
            let ghost pre = s0.subrange(0, i as int);
            if !self.synced_files[i].eq(path) {
                let f = self.synced_files[i].clone();
                kept.push(f);
            }
            proof {
                reveal(Seq::filter);
                let ext = s0.subrange(0, i as int + 1);
                assert(ext =~= pre.push(s0[i as int]));
                assert(ext.drop_last() =~= pre);
            }
            i = i + 1;
        }
        proof {
            assert(s0.subrange(0, s0.len() as int) =~= s0);
        }
        self.synced_files = kept;

        let ghost q0 = self.upload_queue@;
        let mut qkept: Vec<PendingFile> = Vec::new();
        let mut i: usize = 0;
        proof {
            assert(q0.subrange(0, 0) =~= Seq::<PendingFile>::empty());
            reveal(Seq::filter);
        }
        while i < self.upload_queue.len()
            invariant
                i <= self.upload_queue@.len(),
                self.upload_queue@ == q0,
                self.folders == old(self).folders,
                self.recent_uploads == old(self).recent_uploads,
                self.is_syncing == old(self).is_syncing,
                self.manifest_threshold == old(self).manifest_threshold,
                self.synced_files@ == synced_without(old(self).synced_files@, path@),
                qkept@ == queue_without(q0.subrange(0, i as int), path@),
            decreases self.upload_queue@.len() - i,
        {
            let ghost pre = q0.subrange(0, i as int);
            if !self.upload_queue[i].path.eq(path) {
                let f = self.upload_queue[i].clone();
                qkept.push(f);
            }
            proof {
                reveal(Seq::filter);
                let ext = q0.subrange(0, i as int + 1);
                assert(ext =~= pre.push(q0[i as int]));
                assert(ext.drop_last() =~= pre);
            }
            i = i + 1;
        }
        proof {
            assert(q0.subrange(0, q0.len() as int) =~= q0);
        }
        self.upload_queue = qkept;
    }
}

/// The synced paths other than the given one, in order.
pub open spec fn synced_without(s: Seq<String>, path: Seq<char>) -> Seq<String> {
    s.filter(|x: String| x@ != path)
}

/// The queued files whose path is not the given one, in order.
pub open spec fn queue_without(q: Seq<PendingFile>, path: Seq<char>) -> Seq<PendingFile> {
    q.filter(|x: PendingFile| x.path@ != path)
}

/// An update that keeps a folder's id, path and file paths keeps the
/// engine well formed.
proof fn lemma_update_same_keys_wf(s0: SyncEngine, s1: SyncEngine, i: int)
    requires
        s0.wf(),
        0 <= i < s0.folders@.len(),
        s1.folders@.len() == s0.folders@.len(),
        forall|j: int| 0 <= j < s0.folders@.len() && j != i ==> s1.folders@[j] == s0.folders@[j],
        s1.folders@[i].id == s0.folders@[i].id,
        s1.folders@[i].path == s0.folders@[i].path,
        s1.folders@[i].files == s0.folders@[i].files,
    ensures
        forall|a: int, b: int|
            0 <= a < b < s1.folders@.len() ==> (#[trigger] s1.folders@[a]).id@ != (
            #[trigger] s1.folders@[b]).id@ && s1.folders@[a].path@ != s1.folders@[b].path@,
        forall|k: int| 0 <= k < s1.folders@.len() ==> folder_files_wf(#[trigger] s1.folders@[k]),
{
    assert forall|a: int, b: int| 0 <= a < b < s1.folders@.len() implies (
    #[trigger] s1.folders@[a]).id@ != (#[trigger] s1.folders@[b]).id@ && s1.folders@[a].path@
        != s1.folders@[b].path@ by {
        assert(s0.folders@[a].id@ != s0.folders@[b].id@);
        assert(s1.folders@[a].id@ == s0.folders@[a].id@);
        assert(s1.folders@[b].id@ == s0.folders@[b].id@);
    }
    assert forall|k: int| 0 <= k < s1.folders@.len() implies folder_files_wf(
        #[trigger] s1.folders@[k],
    ) by {
        assert(folder_files_wf(s0.folders@[k]));
        if k == i {
            assert(s1.folders@[k].files@ == s0.folders@[k].files@);
        }
    }
}

/// Replacing or adding a CID-mapping entry under its own relative path
/// keeps the engine well formed.
proof fn lemma_files_update_wf(s0: SyncEngine, s1: SyncEngine, i: int, entry: FileEntry)
    requires
        s0.wf(),
        0 <= i < s0.folders@.len(),
        s1.folders@.len() == s0.folders@.len(),
        forall|j: int| 0 <= j < s0.folders@.len() && j != i ==> s1.folders@[j] == s0.folders@[j],
        s1.folders@[i].id == s0.folders@[i].id,
        s1.folders@[i].path == s0.folders@[i].path,
        ({
            let fs0 = s0.folders@[i].files@;
            let fs1 = s1.folders@[i].files@;
            ||| (exists|e: int|
                0 <= e < fs0.len() && (#[trigger] fs0[e]).path@ == entry.path@ && fs1 == fs0.update(
                    e,
                    entry,
                ))
            ||| ((forall|e: int| 0 <= e < fs0.len() ==> (#[trigger] fs0[e]).path@ != entry.path@)
                && fs1 == fs0.push(entry))
        }),
    ensures
        s1.wf(),
{
    let fs0 = s0.folders@[i].files@;
    let fs1 = s1.folders@[i].files@;
    assert(folder_files_wf(s0.folders@[i]));
    assert forall|a: int, b: int| 0 <= a < b < fs1.len() implies (#[trigger] fs1[a]).path@ != (
    #[trigger] fs1[b]).path@ by {
        if exists|e: int|
            0 <= e < fs0.len() && (#[trigger] fs0[e]).path@ == entry.path@ && fs1 == fs0.update(
                e,
                entry,
            ) {
            let e = choose|e: int|
                0 <= e < fs0.len() && (#[trigger] fs0[e]).path@ == entry.path@ && fs1
                    == fs0.update(e, entry);
            assert(fs0[a].path@ != fs0[b].path@);
            if a == e {
                assert(fs1[b] == fs0[b]);
            } else if b == e {
                assert(fs1[a] == fs0[a]);
            }
        } else {
            if b == fs1.len() - 1 {
                assert(fs1[a] == fs0[a]);
            } else {
                assert(fs0[a].path@ != fs0[b].path@);
            }
        }
    }
    assert forall|k: int| 0 <= k < s1.folders@.len() implies folder_files_wf(
        #[trigger] s1.folders@[k],
    ) by {
        assert(folder_files_wf(s0.folders@[k]));
        if k != i {
            assert(s1.folders@[k] == s0.folders@[k]);
        }
    }
    assert forall|a: int, b: int| 0 <= a < b < s1.folders@.len() implies (
    #[trigger] s1.folders@[a]).id@ != (#[trigger] s1.folders@[b]).id@ && s1.folders@[a].path@
        != s1.folders@[b].path@ by {
        assert(s0.folders@[a].id@ != s0.folders@[b].id@);
        assert(s1.folders@[a].id@ == s0.folders@[a].id@);
        assert(s1.folders@[b].id@ == s0.folders@[b].id@);
    }
}

/// Removing a CID-mapping entry keeps the engine well formed.
proof fn lemma_files_remove_wf(s0: SyncEngine, s1: SyncEngine, i: int, e: int)
    requires
        s0.wf(),
        0 <= i < s0.folders@.len(),
        0 <= e < s0.folders@[i].files@.len(),
        s1.folders@.len() == s0.folders@.len(),
        forall|j: int| 0 <= j < s0.folders@.len() && j != i ==> s1.folders@[j] == s0.folders@[j],
        s1.folders@[i].id == s0.folders@[i].id,
        s1.folders@[i].path == s0.folders@[i].path,
        s1.folders@[i].files@ == s0.folders@[i].files@.remove(e),
    ensures
        s1.wf(),
{
    let fs0 = s0.folders@[i].files@;
    let fs1 = s1.folders@[i].files@;
    assert(folder_files_wf(s0.folders@[i]));
    assert forall|a: int, b: int| 0 <= a < b < fs1.len() implies (#[trigger] fs1[a]).path@ != (
    #[trigger] fs1[b]).path@ by {
        let a0 = if a < e { a } else { a + 1 };
        let b0 = if b < e { b } else { b + 1 };
        assert(fs1[a] == fs0[a0]);
        assert(fs1[b] == fs0[b0]);
        assert(fs0[a0].path@ != fs0[b0].path@);
    }
    assert forall|k: int| 0 <= k < s1.folders@.len() implies folder_files_wf(
        #[trigger] s1.folders@[k],
    ) by {
        assert(folder_files_wf(s0.folders@[k]));
        if k != i {
            assert(s1.folders@[k] == s0.folders@[k]);
        }
    }
    assert forall|a: int, b: int| 0 <= a < b < s1.folders@.len() implies (
    #[trigger] s1.folders@[a]).id@ != (#[trigger] s1.folders@[b]).id@ && s1.folders@[a].path@
        != s1.folders@[b].path@ by {
        assert(s0.folders@[a].id@ != s0.folders@[b].id@);
        assert(s1.folders@[a].id@ == s0.folders@[a].id@);
        assert(s1.folders@[b].id@ == s0.folders@[b].id@);
    }
}

/// Two folder values that agree on every field, with vectors compared by
/// contents.
pub open spec fn folder_like(a: WatchedFolder, b: WatchedFolder) -> bool {
    &&& a.id == b.id
    &&& a.path == b.path
    &&& a.enabled == b.enabled
    &&& a.file_count == b.file_count
    &&& a.total_size_bytes == b.total_size_bytes
    &&& a.last_synced == b.last_synced
    &&& a.status == b.status
    &&& a.files@ == b.files@
    &&& a.tombstones@ == b.tombstones@
    &&& a.changes_since_manifest == b.changes_since_manifest
    &&& a.manifest_sequence == b.manifest_sequence
    &&& a.last_manifest_cid == b.last_manifest_cid
    &&& a.last_manifest_at == b.last_manifest_at
    &&& a.pending_retry == b.pending_retry
    &&& a.backup_synced_at == b.backup_synced_at
}

/// The effect of authoring one manifest for folder `i`: the folder's
/// sequence number grows by exactly one, its tombstones and change counter
/// drain, a backup notification becomes due, and the manifest `m` is a
/// faithful snapshot of the folder's content under that new sequence
/// number. Nothing else changes.
pub open spec fn author_step(
    pre: SyncEngine,
    post: SyncEngine,
    i: int,
    m: Manifest,
    peer_id: String,
    now: String,
) -> bool {
    &&& 0 <= i < pre.folders@.len()
    &&& post.folders@.len() == pre.folders@.len()
    &&& (forall|j: int|
        0 <= j < pre.folders@.len() && j != i ==> post.folders@[j] == pre.folders@[j])
    &&& pre.folders@[i].manifest_sequence < u64::MAX
    &&& {
        let f0 = pre.folders@[i];
        let f1 = post.folders@[i];
        &&& f1.manifest_sequence == f0.manifest_sequence + 1
        &&& f1.tombstones@.len() == 0
        &&& f1.changes_since_manifest == 0
        &&& f1.pending_retry
        &&& f1.id == f0.id
        &&& f1.path == f0.path
        &&& f1.enabled == f0.enabled
        &&& f1.status == f0.status
        &&& f1.files == f0.files
        &&& f1.file_count == f0.file_count
        &&& f1.total_size_bytes == f0.total_size_bytes
        &&& f1.last_synced == f0.last_synced
        &&& f1.last_manifest_cid == f0.last_manifest_cid
        &&& f1.last_manifest_at == f0.last_manifest_at
        &&& f1.backup_synced_at == f0.backup_synced_at
        &&& m.version@ == "1.0"@
        &&& m.folder_id == f0.id
        &&& m.folder_path == f0.path
        &&& m.source_peer_id == peer_id
        &&& m.sequence_number == f0.manifest_sequence + 1
        &&& m.last_updated == now
        &&& m.manifest_cid is None
        &&& m.files@ == f0.files@
        &&& m.deleted_files@ == f0.tombstones@
        &&& m.stats.total_files == if f0.files@.len() <= u32::MAX {
            f0.files@.len() as int
        } else {
            u32::MAX as int
        }
        &&& m.stats.total_size_bytes == if crate::manifest::size_sum(f0.files@) <= u64::MAX {
            crate::manifest::size_sum(f0.files@)
        } else {
            u64::MAX as int
        }
    }
    &&& post.upload_queue == pre.upload_queue
    &&& post.recent_uploads == pre.recent_uploads
    &&& post.is_syncing == pre.is_syncing
    &&& post.synced_files == pre.synced_files
    &&& post.manifest_threshold == pre.manifest_threshold
}

impl SyncEngine {
    /// Whether this folder has accumulated enough changes to author a
    /// manifest.
    pub fn should_author(&self, folder_id: &String) -> (r: bool)
        requires
            self.wf(),
        ensures
            r == exists|i: int|
                0 <= i < self.folders@.len() && (#[trigger] self.folders@[i]).id@ == folder_id@
                    && self.folders@[i].changes_since_manifest >= self.manifest_threshold,
    {
        match self.find_folder_index(folder_id) {
            Some(i) => {
                let due = self.folders[i].changes_since_manifest >= self.manifest_threshold;
                proof {
                    if !due && exists|k: int|
                        0 <= k < self.folders@.len() && (#[trigger] self.folders@[k]).id@
                            == folder_id@ && self.folders@[k].changes_since_manifest
                            >= self.manifest_threshold {
                        let k = choose|k: int|
                            0 <= k < self.folders@.len() && (#[trigger] self.folders@[k]).id@
                                == folder_id@ && self.folders@[k].changes_since_manifest
                                >= self.manifest_threshold;
                        // folder ids are unique, so the match is this folder
                        if k != i {
                            if k < i {
                                assert(self.folders@[k].id@ != self.folders@[i as int].id@);
                            } else {
                                assert(self.folders@[i as int].id@ != self.folders@[k].id@);
                            }
                        }
                    }
                }
                due
            }
            None => false,
        }
    }

    /// Authors the next manifest of a folder: bumps the sequence number by
    /// exactly one, snapshots the CID mapping and the tombstones into the
    /// returned manifest, drains the tombstone list and the change counter,
    /// and marks a backup notification due. Fails only when the folder id
    /// is unknown or its sequence counter is exhausted.
    pub fn author_manifest(&mut self, folder_id: &String, peer_id: &String, now: String) -> (r:
        Result<Manifest, ArchivistError>)
        requires
            old(self).wf(),
        ensures
            final(self).wf(),
            match r {
                Ok(m) => exists|i: int|
                    (#[trigger] old(self).folders@[i]).id@ == folder_id@ && author_step(
                        *old(self),
                        *final(self),
                        i,
                        m,
                        *peer_id,
                        now,
                    ),
                Err(e) => {
                    &&& *final(self) == *old(self)
                    &&& (e is FileNotFound) == !old(self).has_folder_id(folder_id@)
                    &&& (e is FileNotFound || e is SyncError)
                    &&& e is SyncError ==> exists|i: int|
                        0 <= i < old(self).folders@.len() && (#[trigger] old(
                            self,
                        ).folders@[i]).id@ == folder_id@ && old(self).folders@[i].manifest_sequence
                            == u64::MAX
                },
            },
    {
        let idx = match self.find_folder_index(folder_id) {
            Some(i) => i,
            None => {
                return Err(ArchivistError::FileNotFound(folder_id.clone()));
            }
        };
        if self.folders[idx].manifest_sequence == u64::MAX {
            return Err(
                ArchivistError::SyncError(String::from_str("manifest sequence space exhausted")),
            );
        }
        let ghost fl0 = self.folders@;
        let mut folder = self.folders.remove(idx);
        let ghost f0 = folder;
        let seq = folder.manifest_sequence + 1;
        folder.manifest_sequence = seq;
        let files_copy = folder.files.clone();
        proof {
            assert forall|k: int| 0 <= k < folder.files@.len() implies files_copy@[k]
                == folder.files@[k] by {
                assert(cloned(folder.files[k], files_copy[k]));
            }
            assert(files_copy@ =~= folder.files@);
        }
        let tombs = folder.tombstones.split_off(0);
        proof {
            assert(folder.tombstones@ =~= Seq::<TombstoneEntry>::empty());
            assert(tombs@ =~= f0.tombstones@);
        }
        folder.changes_since_manifest = 0;
        folder.pending_retry = true;
        let total_size = crate::manifest::total_size_of(&files_copy);
        let count: u32 = if files_copy.len() >= 4294967295 {
            4294967295
        } else {
            files_copy.len() as u32
        };
        let m = Manifest {
            version: String::from_str("1.0"),
            folder_id: folder.id.clone(),
            folder_path: folder.path.clone(),
            source_peer_id: peer_id.clone(),
            sequence_number: seq,
            last_updated: now,
            manifest_cid: None,
            files: files_copy,
            deleted_files: tombs,
            stats: ManifestStats { total_files: count, total_size_bytes: total_size },
        };
        self.folders.insert(idx, folder);
        proof {
            let f1 = self.folders@[idx as int];
            assert(self.folders@ =~= fl0.update(idx as int, f1));
            lemma_update_same_keys_wf(*old(self), *self, idx as int);
        }
        Ok(m)
    }

    /// Records the content address the node assigned to an uploaded
    /// manifest.
    pub fn confirm_manifest_uploaded(&mut self, folder_id: &String, cid: String, now: String) -> (r:
        bool)
        requires
            old(self).wf(),
        ensures
            final(self).wf(),
            r == old(self).has_folder_id(folder_id@),
            !r ==> *final(self) == *old(self),
            r ==> exists|i: int|
                {
                    &&& 0 <= i < old(self).folders@.len()
                    &&& (#[trigger] old(self).folders@[i]).id@ == folder_id@
                    &&& final(self).folders@ == old(self).folders@.update(
                        i,
                        WatchedFolder {
                            last_manifest_cid: Some(cid),
                            last_manifest_at: Some(now),
                            ..old(self).folders@[i]
                        },
                    )
                    &&& final(self).upload_queue == old(self).upload_queue
                    &&& final(self).recent_uploads == old(self).recent_uploads
                    &&& final(self).is_syncing == old(self).is_syncing
                    &&& final(self).synced_files == old(self).synced_files
                    &&& final(self).manifest_threshold == old(self).manifest_threshold
                },
    {
        let idx = match self.find_folder_index(folder_id) {
            Some(i) => i,
            None => {
                return false;
            }
        };
        let ghost fl0 = self.folders@;
        let mut folder = self.folders.remove(idx);
        folder.last_manifest_cid = Some(cid);
        folder.last_manifest_at = Some(now);
        self.folders.insert(idx, folder);
        proof {
            let f1 = self.folders@[idx as int];
            assert(self.folders@ =~= fl0.update(idx as int, f1));
            lemma_update_same_keys_wf(*old(self), *self, idx as int);
        }
        true
    }

    /// Clears the notification debt of a folder after the backup peer
    /// acknowledged a trigger.
    pub fn clear_pending_retry(&mut self, folder_id: &String, now: String) -> (r: bool)
        requires
            old(self).wf(),
        ensures
            final(self).wf(),
            r == old(self).has_folder_id(folder_id@),
            !r ==> *final(self) == *old(self),
            r ==> exists|i: int|
                {
                    &&& 0 <= i < old(self).folders@.len()
                    &&& (#[trigger] old(self).folders@[i]).id@ == folder_id@
                    &&& final(self).folders@ == old(self).folders@.update(
                        i,
                        WatchedFolder {
                            pending_retry: false,
                            backup_synced_at: Some(now),
                            ..old(self).folders@[i]
                        },
                    )
                    &&& final(self).upload_queue == old(self).upload_queue
                    &&& final(self).recent_uploads == old(self).recent_uploads
                    &&& final(self).is_syncing == old(self).is_syncing
                    &&& final(self).synced_files == old(self).synced_files
                    &&& final(self).manifest_threshold == old(self).manifest_threshold
                },
    {
        let idx = match self.find_folder_index(folder_id) {
            Some(i) => i,
            None => {
                return false;
            }
        };
        let ghost fl0 = self.folders@;
        let mut folder = self.folders.remove(idx);
        folder.pending_retry = false;
        folder.backup_synced_at = Some(now);
        self.folders.insert(idx, folder);
        proof {
            let f1 = self.folders@[idx as int];
            assert(self.folders@ =~= fl0.update(idx as int, f1));
            lemma_update_same_keys_wf(*old(self), *self, idx as int);
        }
        true
    }

    /// Starts watching a folder. The path must not be watched already and
    /// the id must be fresh; the new folder starts enabled, idle, and with
    /// an empty CID mapping at sequence zero.
    pub fn add_folder(
        &mut self,
        id: String,
        path: String,
        file_count: u32,
        total_size_bytes: u64,
    ) -> (r: Result<WatchedFolder, ArchivistError>)
        requires
            old(self).wf(),
        ensures
            final(self).wf(),
            match r {
                Ok(f) => {
                    &&& !old(self).has_folder_path(path@)
                    &&& !old(self).has_folder_id(id@)
                    &&& final(self).folders@.len() == old(self).folders@.len() + 1
                    &&& final(self).folders@.subrange(0, old(self).folders@.len() as int) == old(
                        self,
                    ).folders@
                    &&& {
                        let nf = final(self).folders@.last();
                        &&& nf.id == id
                        &&& nf.path == path
                        &&& nf.enabled
                        &&& nf.file_count == file_count
                        &&& nf.total_size_bytes == total_size_bytes
                        &&& nf.last_synced is None
                        &&& nf.status is Idle
                        &&& nf.files@.len() == 0
                        &&& nf.tombstones@.len() == 0
                        &&& nf.changes_since_manifest == 0
                        &&& nf.manifest_sequence == 0
                        &&& nf.last_manifest_cid is None
                        &&& nf.last_manifest_at is None
                        &&& !nf.pending_retry
                        &&& nf.backup_synced_at is None
                        &&& folder_like(f, nf)
                    }
                    &&& final(self).upload_queue == old(self).upload_queue
                    &&& final(self).recent_uploads == old(self).recent_uploads
                    &&& final(self).is_syncing == old(self).is_syncing
                    &&& final(self).synced_files == old(self).synced_files
                    &&& final(self).manifest_threshold == old(self).manifest_threshold
                },
                Err(e) => {
                    &&& *final(self) == *old(self)
                    &&& e is SyncError
                    &&& (old(self).has_folder_path(path@) || old(self).has_folder_id(id@))
                },
            },
    {
        let mut i: usize = 0;
        while i < self.folders.len()
            invariant
                i <= self.folders@.len(),
                *self == *old(self),
                old(self).wf(),
                forall|j: int|
                    0 <= j < i ==> (#[trigger] self.folders@[j]).path@ != path@
                        && self.folders@[j].id@ != id@,
            decreases self.folders@.len() - i,
        {
            if self.folders[i].path.eq(&path) || self.folders[i].id.eq(&id) {
                return Err(
                    ArchivistError::SyncError(String::from_str("folder already being watched")),
                );
            }
            i = i + 1;
        }
        let folder = WatchedFolder {
            id,
            path,
            enabled: true,
            file_count,
            total_size_bytes,
            last_synced: None,
            status: FolderStatus::Idle,
            files: Vec::new(),
            tombstones: Vec::new(),
            changes_since_manifest: 0,
            manifest_sequence: 0,
            last_manifest_cid: None,
            last_manifest_at: None,
            pending_retry: false,
            backup_synced_at: None,
        };
        let out = folder.clone();
        let ghost fl0 = self.folders@;
        self.folders.push(folder);
        proof {
            assert(self.folders@.subrange(0, fl0.len() as int) =~= fl0);
            assert forall|a: int, b: int| 0 <= a < b < self.folders@.len() implies (
            #[trigger] self.folders@[a]).id@ != (#[trigger] self.folders@[b]).id@
                && self.folders@[a].path@ != self.folders@[b].path@ by {
                if b < self.folders@.len() - 1 {
                    assert(self.folders@[a] == fl0[a]);
                    assert(self.folders@[b] == fl0[b]);
                } else {
                    assert(self.folders@[a] == fl0[a]);
                }
            }
            assert forall|k: int| 0 <= k < self.folders@.len() implies folder_files_wf(
                #[trigger] self.folders@[k],
            ) by {
                if k < self.folders@.len() - 1 {
                    assert(self.folders@[k] == fl0[k]);
                    assert(folder_files_wf(fl0[k]));
                }
            }
        }
        Ok(out)
    }

    /// Stops watching a folder and forgets the synced paths under its
    /// directory.
    pub fn remove_folder(&mut self, folder_id: &String) -> (r: Result<(), ArchivistError>)
        requires
            old(self).wf(),
        ensures
            final(self).wf(),
            match r {
                Ok(_) => exists|i: int|
                    {
                        &&& 0 <= i < old(self).folders@.len()
                        &&& (#[trigger] old(self).folders@[i]).id@ == folder_id@
                        &&& final(self).folders@ == old(self).folders@.remove(i)
                        &&& final(self).synced_files@ == synced_outside(
                            old(self).synced_files@,
                            old(self).folders@[i].path@,
                        )
                        &&& final(self).upload_queue == old(self).upload_queue
                        &&& final(self).recent_uploads == old(self).recent_uploads
                        &&& final(self).is_syncing == old(self).is_syncing
                        &&& final(self).manifest_threshold == old(self).manifest_threshold
                    },
                Err(e) => {
                    &&& *final(self) == *old(self)
                    &&& e is FileNotFound
                    &&& !old(self).has_folder_id(folder_id@)
                },
            },
    {
        let idx = match self.find_folder_index(folder_id) {
            Some(i) => i,
            None => {
                return Err(ArchivistError::FileNotFound(folder_id.clone()));
            }
        };
        let folder = self.folders.remove(idx);
        proof {
            assert forall|a: int, b: int| 0 <= a < b < self.folders@.len() implies (
            #[trigger] self.folders@[a]).id@ != (#[trigger] self.folders@[b]).id@
                && self.folders@[a].path@ != self.folders@[b].path@ by {
                let a0 = if a < idx { a } else { a + 1 };
                let b0 = if b < idx { b } else { b + 1 };
                assert(self.folders@[a] == old(self).folders@[a0]);
                assert(self.folders@[b] == old(self).folders@[b0]);
                assert(old(self).folders@[a0].id@ != old(self).folders@[b0].id@);
            }
            assert forall|k: int| 0 <= k < self.folders@.len() implies folder_files_wf(
                #[trigger] self.folders@[k],
            ) by {
                let k0 = if k < idx { k } else { k + 1 };
                assert(self.folders@[k] == old(self).folders@[k0]);
                assert(folder_files_wf(old(self).folders@[k0]));
            }
        }
        let ghost s0 = self.synced_files@;
        let mut kept: Vec<String> = Vec::new();
        let mut i: usize = 0;
        proof {
            assert(s0.subrange(0, 0) =~= Seq::<String>::empty());
            reveal(Seq::filter);
        }
        while i < self.synced_files.len()
            invariant
                i <= self.synced_files@.len(),
                self.synced_files@ == s0,
                folder.path@ == old(self).folders@[idx as int].path@,
                kept@ == synced_outside(s0.subrange(0, i as int), folder.path@),
            decreases self.synced_files@.len() - i,
        {
            let ghost pre = s0.subrange(0, i as int);
            if !is_path_under(&self.synced_files[i], &folder.path) {
                let f = self.synced_files[i].clone();
                kept.push(f);
            }
            proof {
                reveal(Seq::filter);
                let ext = s0.subrange(0, i as int + 1);
                assert(ext =~= pre.push(s0[i as int]));
                assert(ext.drop_last() =~= pre);
            }
            i = i + 1;
        }
        proof {
            assert(s0.subrange(0, s0.len() as int) =~= s0);
        }
        self.synced_files = kept;
        Ok(())
    }

    /// Enables or disables a folder; a disabled folder shows as paused.
    pub fn toggle_folder(&mut self, folder_id: &String, enabled: bool) -> (r: Result<
        (),
        ArchivistError,
    >)
        requires
            old(self).wf(),
        ensures
            final(self).wf(),
            match r {
                Ok(_) => exists|i: int|
                    {
                        &&& 0 <= i < old(self).folders@.len()
                        &&& (#[trigger] old(self).folders@[i]).id@ == folder_id@
                        &&& final(self).folders@ == old(self).folders@.update(
                            i,
                            WatchedFolder {
                                enabled,
                                status: if enabled {
                                    FolderStatus::Idle
                                } else {
                                    FolderStatus::Paused
                                },
                                ..old(self).folders@[i]
                            },
                        )
                        &&& final(self).upload_queue == old(self).upload_queue
                        &&& final(self).recent_uploads == old(self).recent_uploads
                        &&& final(self).is_syncing == old(self).is_syncing
                        &&& final(self).synced_files == old(self).synced_files
                        &&& final(self).manifest_threshold == old(self).manifest_threshold
                    },
                Err(e) => {
                    &&& *final(self) == *old(self)
                    &&& e is FileNotFound
                    &&& !old(self).has_folder_id(folder_id@)
                },
            },
    {
        let idx = match self.find_folder_index(folder_id) {
            Some(i) => i,
            None => {
                return Err(ArchivistError::FileNotFound(folder_id.clone()));
            }
        };
        let ghost fl0 = self.folders@;
        let mut folder = self.folders.remove(idx);
        folder.enabled = enabled;
        folder.status = if enabled {
            FolderStatus::Idle
        } else {
            FolderStatus::Paused
        };
        self.folders.insert(idx, folder);
        proof {
            let f1 = self.folders@[idx as int];
            assert(self.folders@ =~= fl0.update(idx as int, f1));
            lemma_update_same_keys_wf(*old(self), *self, idx as int);
        }
        Ok(())
    }
}

/// The synced paths lying outside the given directory, in order.
pub open spec fn synced_outside(s: Seq<String>, base: Seq<char>) -> Seq<String> {
    s.filter(|x: String| !path_under(x@, base))
}

/// Consecutive manifests authored for one folder carry consecutive
/// sequence numbers: the authored sequence is strictly increasing with no
/// gaps.
pub proof fn lemma_sequence_monotonic(
    s0: SyncEngine,
    s1: SyncEngine,
    s2: SyncEngine,
    i: int,
    m1: Manifest,
    m2: Manifest,
    peer_id: String,
    t1: String,
    t2: String,
)
    requires
        author_step(s0, s1, i, m1, peer_id, t1),
        author_step(s1, s2, i, m2, peer_id, t2),
    ensures
        m2.sequence_number == m1.sequence_number + 1,
        m2.sequence_number > m1.sequence_number,
{
}

/// The ids of the enabled folders, in order.
pub open spec fn enabled_ids(folders: Seq<WatchedFolder>) -> Seq<String>
    decreases folders.len(),
{
    if folders.len() == 0 {
        Seq::empty()
    } else {
        let p = enabled_ids(folders.drop_last());
        if folders.last().enabled {
            p.push(folders.last().id)
        } else {
            p
        }
    }
}

/// Sum of the folders' file counts.
pub open spec fn file_count_sum(folders: Seq<WatchedFolder>) -> int
    decreases folders.len(),
{
    if folders.len() == 0 {
        0
    } else {
        file_count_sum(folders.drop_last()) + folders.last().file_count
    }
}

/// The file counts never sum to a negative number.
proof fn lemma_file_count_sum_nonneg(folders: Seq<WatchedFolder>)
    ensures
        file_count_sum(folders) >= 0,
    decreases folders.len(),
{
    if folders.len() > 0 {
        lemma_file_count_sum_nonneg(folders.drop_last());
    }
}

impl SyncEngine {
    /// The path of a file relative to its folder's directory, when the
    /// file lies strictly under the directory.
    pub fn relative_path(path: &String, base: &String) -> (r: Option<String>)
        ensures
            match r {
                Some(s) => {
                    &&& path_under(path@, base@)
                    &&& path@.len() > base@.len()
                    &&& s@ == path@.subrange(base@.len() as int + 1, path@.len() as int)
                },
                None => !(path_under(path@, base@) && path@.len() > base@.len()),
            },
    {
        if !is_path_under(path, base) {
            return None;
        }
        let p = str_chars(path.as_str());
        let b = str_chars(base.as_str());
        if p.len() <= b.len() {
            return None;
        }
        let mut out: Vec<char> = Vec::new();
        let mut k: usize = b.len() + 1;
        proof {
            assert(path@.subrange(base@.len() as int + 1, base@.len() as int + 1) =~= Seq::<char>::empty());
        }
        while k < p.len()
            invariant
                b@.len() + 1 <= k <= p@.len(),
                p@ == path@,
                b@ == base@,
                out@ == path@.subrange(base@.len() as int + 1, k as int),
            decreases p@.len() - k,
        {
            let ghost pre = out@;
            out.push(p[k]);
            proof {
                assert(path@.subrange(base@.len() as int + 1, k as int + 1) =~= pre.push(
                    path@[k as int],
                ));
            }
            k = k + 1;
        }
        Some(crate::ext::chars_string(&out))
    }

    /// Starts a manual sync pass: every enabled folder turns to scanning
    /// and its id is returned for the caller to walk. A pass already
    /// running is left alone.
    pub fn sync_now(&mut self) -> (r: Vec<String>)
        requires
            old(self).wf(),
        ensures
            final(self).wf(),
            old(self).is_syncing ==> *final(self) == *old(self) && r@.len() == 0,
            !old(self).is_syncing ==> {
                &&& final(self).is_syncing
                &&& r@ == enabled_ids(old(self).folders@)
                &&& final(self).folders@.len() == old(self).folders@.len()
                &&& forall|j: int|
                    0 <= j < old(self).folders@.len() ==> #[trigger] final(self).folders@[j]
                        == if old(self).folders@[j].enabled {
                        WatchedFolder {
                            status: FolderStatus::Scanning,
                            ..old(self).folders@[j]
                        }
                    } else {
                        old(self).folders@[j]
                    }
                &&& final(self).upload_queue == old(self).upload_queue
                &&& final(self).recent_uploads == old(self).recent_uploads
                &&& final(self).synced_files == old(self).synced_files
                &&& final(self).manifest_threshold == old(self).manifest_threshold
            },
    {
        if self.is_syncing {
            return Vec::new();
        }
        self.is_syncing = true;
        let mut ids: Vec<String> = Vec::new();
        let n = self.folders.len();
        let mut i: usize = 0;
        proof {
            assert(old(self).folders@.subrange(0, 0) =~= Seq::<WatchedFolder>::empty());
        }
        while i < n
            invariant
                n == self.folders@.len() == old(self).folders@.len(),
                i <= n,
                old(self).wf(),
                self.is_syncing,
                self.upload_queue == old(self).upload_queue,
                self.recent_uploads == old(self).recent_uploads,
                self.synced_files == old(self).synced_files,
                self.manifest_threshold == old(self).manifest_threshold,
                ids@ == enabled_ids(old(self).folders@.subrange(0, i as int)),
                forall|j: int|
                    0 <= j < i ==> #[trigger] self.folders@[j] == if old(
                        self,
                    ).folders@[j].enabled {
                        WatchedFolder { status: FolderStatus::Scanning, ..old(self).folders@[j] }
                    } else {
                        old(self).folders@[j]
                    },
                forall|j: int| i <= j < n ==> #[trigger] self.folders@[j] == old(self).folders@[j],
            decreases n - i,
        {
            let ghost pre = old(self).folders@.subrange(0, i as int);
            proof {
                let ext = old(self).folders@.subrange(0, i as int + 1);
                assert(ext.drop_last() =~= pre);
                assert(ext.last() == old(self).folders@[i as int]);
            }
            if self.folders[i].enabled {
                let id = self.folders[i].id.clone();
                ids.push(id);
                let ghost fl0 = self.folders@;
                let mut folder = self.folders.remove(i);
                folder.status = FolderStatus::Scanning;
                self.folders.insert(i, folder);
                proof {
                    assert(self.folders@ =~= fl0.update(
                        i as int,
                        WatchedFolder { status: FolderStatus::Scanning, ..fl0[i as int] },
                    ));
                }
            }
            i = i + 1;
        }
        proof {
            assert(old(self).folders@.subrange(0, n as int) =~= old(self).folders@);
            lemma_same_keys_forall_wf(*old(self), *self);
        }
        ids
    }

    /// Pauses syncing: the queue drains, and folders caught mid-scan or
    /// mid-sync show as paused.
    pub fn pause_sync(&mut self)
        requires
            old(self).wf(),
        ensures
            final(self).wf(),
            !final(self).is_syncing,
            final(self).upload_queue@.len() == 0,
            final(self).folders@.len() == old(self).folders@.len(),
            forall|j: int|
                0 <= j < old(self).folders@.len() ==> #[trigger] final(self).folders@[j] == if (
                old(self).folders@[j].status is Syncing || old(self).folders@[j].status
                    is Scanning) {
                    WatchedFolder { status: FolderStatus::Paused, ..old(self).folders@[j] }
                } else {
                    old(self).folders@[j]
                },
            final(self).recent_uploads == old(self).recent_uploads,
            final(self).synced_files == old(self).synced_files,
            final(self).manifest_threshold == old(self).manifest_threshold,
    {
        self.is_syncing = false;
        self.upload_queue.clear();
        let n = self.folders.len();
        let mut i: usize = 0;
        while i < n
            invariant
                n == self.folders@.len() == old(self).folders@.len(),
                i <= n,
                old(self).wf(),
                !self.is_syncing,
                self.upload_queue@.len() == 0,
                self.recent_uploads == old(self).recent_uploads,
                self.synced_files == old(self).synced_files,
                self.manifest_threshold == old(self).manifest_threshold,
                forall|j: int|
                    0 <= j < i ==> #[trigger] self.folders@[j] == if (old(
                        self,
                    ).folders@[j].status is Syncing || old(self).folders@[j].status is Scanning) {
                        WatchedFolder { status: FolderStatus::Paused, ..old(self).folders@[j] }
                    } else {
                        old(self).folders@[j]
                    },
                forall|j: int| i <= j < n ==> #[trigger] self.folders@[j] == old(self).folders@[j],
            decreases n - i,
        {
            let paused = matches!(self.folders[i].status, FolderStatus::Syncing)
                || matches!(self.folders[i].status, FolderStatus::Scanning);
            if paused {
                let ghost fl0 = self.folders@;
                let mut folder = self.folders.remove(i);
                folder.status = FolderStatus::Paused;
                self.folders.insert(i, folder);
                proof {
                    assert(self.folders@ =~= fl0.update(
                        i as int,
                        WatchedFolder { status: FolderStatus::Paused, ..fl0[i as int] },
                    ));
                }
            }
            i = i + 1;
        }
        proof {
            lemma_same_keys_forall_wf(*old(self), *self);
        }
    }

    /// Ends an idle tick: folders that were syncing settle back to idle
    /// with a fresh last-synced stamp, and the pass ends.
    pub fn settle_idle(&mut self, now: String)
        requires
            old(self).wf(),
        ensures
            final(self).wf(),
            !final(self).is_syncing,
            final(self).folders@.len() == old(self).folders@.len(),
            forall|j: int|
                0 <= j < old(self).folders@.len() ==> #[trigger] final(self).folders@[j] == if old(
                    self,
                ).folders@[j].status is Syncing {
                    WatchedFolder {
                        status: FolderStatus::Idle,
                        last_synced: Some(now),
                        ..old(self).folders@[j]
                    }
                } else {
                    old(self).folders@[j]
                },
            final(self).upload_queue == old(self).upload_queue,
            final(self).recent_uploads == old(self).recent_uploads,
            final(self).synced_files == old(self).synced_files,
            final(self).manifest_threshold == old(self).manifest_threshold,
    {
        self.is_syncing = false;
        let n = self.folders.len();
        let mut i: usize = 0;
        while i < n
            invariant
                n == self.folders@.len() == old(self).folders@.len(),
                i <= n,
                old(self).wf(),
                !self.is_syncing,
                self.upload_queue == old(self).upload_queue,
                self.recent_uploads == old(self).recent_uploads,
                self.synced_files == old(self).synced_files,
                self.manifest_threshold == old(self).manifest_threshold,
                forall|j: int|
                    0 <= j < i ==> #[trigger] self.folders@[j] == if old(
                        self,
                    ).folders@[j].status is Syncing {
                        WatchedFolder {
                            status: FolderStatus::Idle,
                            last_synced: Some(now),
                            ..old(self).folders@[j]
                        }
                    } else {
                        old(self).folders@[j]
                    },
                forall|j: int| i <= j < n ==> #[trigger] self.folders@[j] == old(self).folders@[j],
            decreases n - i,
        {
            if matches!(self.folders[i].status, FolderStatus::Syncing) {
                let ghost fl0 = self.folders@;
                let mut folder = self.folders.remove(i);
                folder.status = FolderStatus::Idle;
                folder.last_synced = Some(now.clone());
                self.folders.insert(i, folder);
                proof {
                    assert(self.folders@ =~= fl0.update(
                        i as int,
                        WatchedFolder {
                            status: FolderStatus::Idle,
                            last_synced: Some(now),
                            ..fl0[i as int]
                        },
                    ));
                }
            }
            i = i + 1;
        }
        proof {
            lemma_same_keys_forall_wf(*old(self), *self);
        }
    }

    /// Takes the oldest files from the upload queue, at most `max` of
    /// them, in arrival order.
    pub fn take_upload_batch(&mut self, max: usize) -> (r: Vec<PendingFile>)
        ensures
            ({
                let k = if max <= old(self).upload_queue@.len() {
                    max as int
                } else {
                    old(self).upload_queue@.len() as int
                };
                &&& r@ == old(self).upload_queue@.subrange(0, k)
                &&& final(self).upload_queue@ == old(self).upload_queue@.subrange(
                    k,
                    old(self).upload_queue@.len() as int,
                )
            }),
            final(self).folders == old(self).folders,
            final(self).recent_uploads == old(self).recent_uploads,
            final(self).is_syncing == old(self).is_syncing,
            final(self).synced_files == old(self).synced_files,
            final(self).manifest_threshold == old(self).manifest_threshold,
            old(self).wf() ==> final(self).wf(),
    {
        let mut out: Vec<PendingFile> = Vec::new();
        let mut taken: usize = 0;
        proof {
            assert(old(self).upload_queue@.subrange(0, 0) =~= Seq::<PendingFile>::empty());
            assert(old(self).upload_queue@.subrange(0, old(self).upload_queue@.len() as int)
                =~= old(self).upload_queue@);
        }
        while taken < max && self.upload_queue.len() > 0
            invariant
                taken <= max,
                taken <= old(self).upload_queue@.len(),
                out@ == old(self).upload_queue@.subrange(0, taken as int),
                self.upload_queue@ == old(self).upload_queue@.subrange(
                    taken as int,
                    old(self).upload_queue@.len() as int,
                ),
                self.folders == old(self).folders,
                self.recent_uploads == old(self).recent_uploads,
                self.is_syncing == old(self).is_syncing,
                self.synced_files == old(self).synced_files,
                self.manifest_threshold == old(self).manifest_threshold,
                taken < max ==> taken == out@.len(),
            decreases max - taken,
        {
            let f = self.upload_queue.remove(0);
            out.push(f);
            proof {
                assert(out@ =~= old(self).upload_queue@.subrange(0, taken as int + 1));
                assert(self.upload_queue@ =~= old(self).upload_queue@.subrange(
                    taken as int + 1,
                    old(self).upload_queue@.len() as int,
                ));
            }
            taken = taken + 1;
        }
        out
    }

    /// Updates one folder's scan statistics.
    pub fn set_folder_stats(&mut self, folder_id: &String, file_count: u32, total_size_bytes: u64)
        -> (r: bool)
        requires
            old(self).wf(),
        ensures
            final(self).wf(),
            r == old(self).has_folder_id(folder_id@),
            !r ==> *final(self) == *old(self),
            r ==> exists|i: int|
                {
                    &&& 0 <= i < old(self).folders@.len()
                    &&& (#[trigger] old(self).folders@[i]).id@ == folder_id@
                    &&& final(self).folders@ == old(self).folders@.update(
                        i,
                        WatchedFolder {
                            file_count,
                            total_size_bytes,
                            ..old(self).folders@[i]
                        },
                    )
                    &&& final(self).upload_queue == old(self).upload_queue
                    &&& final(self).recent_uploads == old(self).recent_uploads
                    &&& final(self).is_syncing == old(self).is_syncing
                    &&& final(self).synced_files == old(self).synced_files
                    &&& final(self).manifest_threshold == old(self).manifest_threshold
                },
    {
        let idx = match self.find_folder_index(folder_id) {
            Some(i) => i,
            None => {
                return false;
            }
        };
        let ghost fl0 = self.folders@;
        let mut folder = self.folders.remove(idx);
        folder.file_count = file_count;
        folder.total_size_bytes = total_size_bytes;
        self.folders.insert(idx, folder);
        proof {
            let f1 = self.folders@[idx as int];
            assert(self.folders@ =~= fl0.update(idx as int, f1));
            lemma_update_same_keys_wf(*old(self), *self, idx as int);
        }
        true
    }

    /// The aggregate view: every folder, the queue length, the total of
    /// the folders' file counts, how many paths were uploaded, and the
    /// recent uploads, all clamped to their field widths.
    pub fn get_state(&self) -> (r: SyncState)
        ensures
            r.is_syncing == self.is_syncing,
            r.folders@.len() == self.folders@.len(),
            forall|j: int|
                0 <= j < self.folders@.len() ==> folder_like(
                    #[trigger] r.folders@[j],
                    self.folders@[j],
                ),
            r.queue_size == if self.upload_queue@.len() <= u32::MAX {
                self.upload_queue@.len() as int
            } else {
                u32::MAX as int
            },
            r.synced_files == if self.synced_files@.len() <= u32::MAX {
                self.synced_files@.len() as int
            } else {
                u32::MAX as int
            },
            r.total_files == if file_count_sum(self.folders@) <= u32::MAX {
                file_count_sum(self.folders@)
            } else {
                u32::MAX as int
            },
            r.recent_uploads@ == self.recent_uploads@,
    {
        let mut folders: Vec<WatchedFolder> = Vec::new();
        let mut total: u32 = 0;
        let mut i: usize = 0;
        proof {
            assert(self.folders@.subrange(0, 0) =~= Seq::<WatchedFolder>::empty());
        }
        while i < self.folders.len()
            invariant
                i <= self.folders@.len(),
                folders@.len() == i,
                forall|j: int|
                    0 <= j < i ==> folder_like(#[trigger] folders@[j], self.folders@[j]),
                total == if file_count_sum(self.folders@.subrange(0, i as int)) <= u32::MAX {
                    file_count_sum(self.folders@.subrange(0, i as int))
                } else {
                    u32::MAX as int
                },
            decreases self.folders@.len() - i,
        {
            let ghost pre = self.folders@.subrange(0, i as int);
            proof {
                let ext = self.folders@.subrange(0, i as int + 1);
                assert(ext.drop_last() =~= pre);
                assert(ext.last() == self.folders@[i as int]);
                lemma_file_count_sum_nonneg(pre);
            }
            folders.push(self.folders[i].clone());
            total = crate::daemon::sat_add_u32(total, self.folders[i].file_count);
            i = i + 1;
        }
        proof {
            assert(self.folders@.subrange(0, self.folders@.len() as int) =~= self.folders@);
        }
        let queue_size: u32 = if self.upload_queue.len() >= 4294967295 {
            4294967295
        } else {
            self.upload_queue.len() as u32
        };
        let synced: u32 = if self.synced_files.len() >= 4294967295 {
            4294967295
        } else {
            self.synced_files.len() as u32
        };
        let mut recent: Vec<String> = Vec::new();
        let mut k: usize = 0;
        proof {
            assert(self.recent_uploads@.subrange(0, 0) =~= Seq::<String>::empty());
        }
        while k < self.recent_uploads.len()
            invariant
                k <= self.recent_uploads@.len(),
                recent@ == self.recent_uploads@.subrange(0, k as int),
            decreases self.recent_uploads@.len() - k,
        {
            let ghost pre = self.recent_uploads@.subrange(0, k as int);
            recent.push(self.recent_uploads[k].clone());
            proof {
                assert(self.recent_uploads@.subrange(0, k as int + 1) =~= pre.push(
                    self.recent_uploads@[k as int],
                ));
            }
            k = k + 1;
        }
        proof {
            assert(self.recent_uploads@.subrange(0, self.recent_uploads@.len() as int)
                =~= self.recent_uploads@);
        }
        SyncState {
            folders,
            is_syncing: self.is_syncing,
            queue_size,
            total_files: total,
            synced_files: synced,
            recent_uploads: recent,
        }
    }
}

/// Status-only folder rewrites keep ids, paths and file lists, so the
/// engine stays well formed.
proof fn lemma_same_keys_forall_wf(s0: SyncEngine, s1: SyncEngine)
    requires
        s0.wf(),
        s1.folders@.len() == s0.folders@.len(),
        forall|j: int|
            0 <= j < s0.folders@.len() ==> (#[trigger] s1.folders@[j]).id == s0.folders@[j].id
                && s1.folders@[j].path == s0.folders@[j].path && s1.folders@[j].files
                == s0.folders@[j].files,
    ensures
        s1.wf(),
{
    assert forall|i: int, j: int| 0 <= i < j < s1.folders@.len() implies (
    #[trigger] s1.folders@[i]).id@ != (#[trigger] s1.folders@[j]).id@ && s1.folders@[i].path@
        != s1.folders@[j].path@ by {
        assert(s0.folders@[i].id@ != s0.folders@[j].id@);
        assert(s1.folders@[i].id == s0.folders@[i].id);
        assert(s1.folders@[j].id == s0.folders@[j].id);
    }
    assert forall|k: int| 0 <= k < s1.folders@.len() implies folder_files_wf(
        #[trigger] s1.folders@[k],
    ) by {
        assert(folder_files_wf(s0.folders@[k]));
        assert(s1.folders@[k].files == s0.folders@[k].files);
    }
}

} // verus!
