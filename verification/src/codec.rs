//! The manifest wire codec: a fixed JSON shape, encoded and decoded by this
//! library itself so that the round trip is a theorem, not a convention.
//!
//! The encoder emits one canonical form: fixed key order, no whitespace,
//! strings with `"` and `\` escaped by a backslash and every other
//! character taken verbatim. The decoder accepts exactly that form. The
//! law at the end of this file states that decoding an encoded manifest
//! gives the manifest back, for every manifest value.

use vstd::prelude::*;
use crate::manifest::{FileEntry, TombstoneEntry, Manifest, ManifestStats};
use crate::text::{is_dec_digit, digits_val, dec_rep, starts_with, lemma_dec_rep_val};

verus! {

/// The mathematical content of a file entry.
pub struct FileEntryView {
    pub path: Seq<char>,
    pub cid: Seq<char>,
    pub size_bytes: u64,
    pub mime_type: Option<Seq<char>>,
    pub uploaded_at: Seq<char>,
}

/// The mathematical content of a tombstone entry.
pub struct TombstoneView {
    pub path: Seq<char>,
    pub cid: Seq<char>,
    pub deleted_at: Seq<char>,
}

/// The mathematical content of a manifest.
pub struct ManifestView {
    pub version: Seq<char>,
    pub folder_id: Seq<char>,
    pub folder_path: Seq<char>,
    pub source_peer_id: Seq<char>,
    pub sequence_number: u64,
    pub last_updated: Seq<char>,
    pub manifest_cid: Option<Seq<char>>,
    pub files: Seq<FileEntryView>,
    pub deleted_files: Seq<TombstoneView>,
    pub total_files: u32,
    pub total_size_bytes: u64,
}

/// The view of an option of a string.
pub open spec fn opt_view(o: Option<String>) -> Option<Seq<char>> {
    match o {
        Some(s) => Some(s@),
        None => None,
    }
}

impl FileEntry {
    /// The mathematical content of this entry.
    pub open spec fn view_of(self) -> FileEntryView {
        FileEntryView {
            path: self.path@,
            cid: self.cid@,
            size_bytes: self.size_bytes,
            mime_type: opt_view(self.mime_type),
            uploaded_at: self.uploaded_at@,
        }
    }
}

impl TombstoneEntry {
    /// The mathematical content of this entry.
    pub open spec fn view_of(self) -> TombstoneView {
        TombstoneView { path: self.path@, cid: self.cid@, deleted_at: self.deleted_at@ }
    }
}

impl Manifest {
    /// The mathematical content of this manifest.
    pub open spec fn view_of(self) -> ManifestView {
        ManifestView {
            version: self.version@,
            folder_id: self.folder_id@,
            folder_path: self.folder_path@,
            source_peer_id: self.source_peer_id@,
            sequence_number: self.sequence_number,
            last_updated: self.last_updated@,
            manifest_cid: opt_view(self.manifest_cid),
            files: self.files@.map_values(|e: FileEntry| e.view_of()),
            deleted_files: self.deleted_files@.map_values(|e: TombstoneEntry| e.view_of()),
            total_files: self.stats.total_files,
            total_size_bytes: self.stats.total_size_bytes,
        }
    }
}

/// A quote or backslash is escaped with a backslash; every other character
/// stands for itself.
pub open spec fn esc_char(c: char) -> Seq<char> {
    if c == '"' || c == '\\' {
        seq!['\\', c]
    } else {
        seq![c]
    }
}

/// The escaped body of a JSON string.
pub open spec fn esc(s: Seq<char>) -> Seq<char>
    decreases s.len(),
{
    if s.len() == 0 {
        Seq::empty()
    } else {
        esc(s.drop_last()) + esc_char(s.last())
    }
}

/// A JSON string: the escaped body between quotes.
pub open spec fn enc_str(s: Seq<char>) -> Seq<char> {
    seq!['"'] + esc(s) + seq!['"']
}

/// An optional JSON string: `null` or the string.
pub open spec fn enc_opt_str(o: Option<Seq<char>>) -> Seq<char> {
    match o {
        Some(s) => enc_str(s),
        None => "null"@,
    }
}

/// One file entry as JSON.
pub open spec fn enc_file(f: FileEntryView) -> Seq<char> {
    "{\"path\":"@ + enc_str(f.path) + ",\"cid\":"@ + enc_str(f.cid) + ",\"size_bytes\":"@
        + dec_rep(f.size_bytes as nat) + ",\"mime_type\":"@ + enc_opt_str(f.mime_type)
        + ",\"uploaded_at\":"@ + enc_str(f.uploaded_at) + "}"@
}

/// One tombstone as JSON.
pub open spec fn enc_tomb(t: TombstoneView) -> Seq<char> {
    "{\"path\":"@ + enc_str(t.path) + ",\"cid\":"@ + enc_str(t.cid) + ",\"deleted_at\":"@
        + enc_str(t.deleted_at) + "}"@
}

/// A comma-separated list of file entries.
pub open spec fn enc_file_list(fs: Seq<FileEntryView>) -> Seq<char>
    decreases fs.len(),
{
    if fs.len() == 0 {
        Seq::empty()
    } else if fs.len() == 1 {
        enc_file(fs[0])
    } else {
        enc_file_list(fs.drop_last()) + ","@ + enc_file(fs.last())
    }
}

/// A comma-separated list of tombstones.
pub open spec fn enc_tomb_list(ts: Seq<TombstoneView>) -> Seq<char>
    decreases ts.len(),
{
    if ts.len() == 0 {
        Seq::empty()
    } else if ts.len() == 1 {
        enc_tomb(ts[0])
    } else {
        enc_tomb_list(ts.drop_last()) + ","@ + enc_tomb(ts.last())
    }
}

/// The whole manifest as JSON, in canonical form.
pub open spec fn encode_spec(m: ManifestView) -> Seq<char> {
    "{\"version\":"@ + enc_str(m.version) + ",\"folder_id\":"@ + enc_str(m.folder_id)
        + ",\"folder_path\":"@ + enc_str(m.folder_path) + ",\"source_peer_id\":"@ + enc_str(
        m.source_peer_id,
    ) + ",\"sequence_number\":"@ + dec_rep(m.sequence_number as nat) + ",\"last_updated\":"@
        + enc_str(m.last_updated) + ",\"manifest_cid\":"@ + enc_opt_str(m.manifest_cid)
        + ",\"files\":["@ + enc_file_list(m.files) + "]"@ + ",\"deleted_files\":["@
        + enc_tomb_list(m.deleted_files) + "]"@ + ",\"stats\":{\"total_files\":"@ + dec_rep(
        m.total_files as nat,
    ) + ",\"total_size_bytes\":"@ + dec_rep(m.total_size_bytes as nat) + "}}"@
}

// ---------------------------------------------------------------------
// The decoding scanners: deterministic functions from a remaining input
// to a value and the input left over.
// ---------------------------------------------------------------------

/// Consumes a fixed literal.
pub open spec fn scan_lit(v: Seq<char>, lit: Seq<char>) -> Option<Seq<char>> {
    if starts_with(v, lit) {
        Some(v.skip(lit.len() as int))
    } else {
        None
    }
}

/// Consumes the body of a JSON string up to and including the closing
/// quote, undoing the backslash escapes.
pub open spec fn scan_str_body(v: Seq<char>) -> Option<(Seq<char>, Seq<char>)>
    decreases v.len(),
{
    if v.len() == 0 {
        None
    } else if v[0] == '"' {
        Some((Seq::empty(), v.skip(1)))
    } else if v[0] == '\\' {
        if v.len() >= 2 {
            match scan_str_body(v.skip(2)) {
                Some(p) => Some((seq![v[1]] + p.0, p.1)),
                None => None,
            }
        } else {
            None
        }
    } else {
        match scan_str_body(v.skip(1)) {
            Some(p) => Some((seq![v[0]] + p.0, p.1)),
            None => None,
        }
    }
}

/// Consumes a JSON string, quotes included.
pub open spec fn scan_string(v: Seq<char>) -> Option<(Seq<char>, Seq<char>)> {
    if v.len() > 0 && v[0] == '"' {
        scan_str_body(v.skip(1))
    } else {
        None
    }
}

/// Length of the leading digit run.
pub open spec fn digit_run(v: Seq<char>) -> int
    decreases v.len(),
{
    if v.len() > 0 && is_dec_digit(v[0]) {
        1 + digit_run(v.skip(1))
    } else {
        0
    }
}

/// Consumes a decimal number that fits in a `u64`.
pub open spec fn scan_number(v: Seq<char>) -> Option<(u64, Seq<char>)> {
    let run = digit_run(v);
    if run == 0 {
        None
    } else if digits_val(v.take(run)) > u64::MAX {
        None
    } else {
        Some((digits_val(v.take(run)) as u64, v.skip(run)))
    }
}

/// Consumes `null` or a JSON string.
pub open spec fn scan_opt_str(v: Seq<char>) -> Option<(Option<Seq<char>>, Seq<char>)> {
    if starts_with(v, "null"@) {
        Some((None, v.skip(4)))
    } else {
        match scan_string(v) {
            Some(p) => Some((Some(p.0), p.1)),
            None => None,
        }
    }
}

/// Consumes one file-entry object.
pub open spec fn scan_file(v: Seq<char>) -> Option<(FileEntryView, Seq<char>)> {
    match scan_lit(v, "{\"path\":"@) {
        None => None,
        Some(v1) => match scan_string(v1) {
            None => None,
            Some((path, v2)) => match scan_lit(v2, ",\"cid\":"@) {
                None => None,
                Some(v3) => match scan_string(v3) {
                    None => None,
                    Some((cid, v4)) => match scan_lit(v4, ",\"size_bytes\":"@) {
                        None => None,
                        Some(v5) => match scan_number(v5) {
                            None => None,
                            Some((size_bytes, v6)) => match scan_lit(v6, ",\"mime_type\":"@) {
                                None => None,
                                Some(v7) => match scan_opt_str(v7) {
                                    None => None,
                                    Some((mime_type, v8)) => match scan_lit(
                                        v8,
                                        ",\"uploaded_at\":"@,
                                    ) {
                                        None => None,
                                        Some(v9) => match scan_string(v9) {
                                            None => None,
                                            Some((uploaded_at, v10)) => match scan_lit(v10, "}"@) {
                                                None => None,
                                                Some(v11) => Some(
                                                    (
                                                        FileEntryView {
                                                            path,
                                                            cid,
                                                            size_bytes,
                                                            mime_type,
                                                            uploaded_at,
                                                        },
                                                        v11,
                                                    ),
                                                ),
                                            },
                                        },
                                    },
                                },
                            },
                        },
                    },
                },
            },
        },
    }
}

/// Consumes one tombstone object.
pub open spec fn scan_tomb(v: Seq<char>) -> Option<(TombstoneView, Seq<char>)> {
    match scan_lit(v, "{\"path\":"@) {
        None => None,
        Some(v1) => match scan_string(v1) {
            None => None,
            Some((path, v2)) => match scan_lit(v2, ",\"cid\":"@) {
                None => None,
                Some(v3) => match scan_string(v3) {
                    None => None,
                    Some((cid, v4)) => match scan_lit(v4, ",\"deleted_at\":"@) {
                        None => None,
                        Some(v5) => match scan_string(v5) {
                            None => None,
                            Some((deleted_at, v6)) => match scan_lit(v6, "}"@) {
                                None => None,
                                Some(v7) => Some((TombstoneView { path, cid, deleted_at }, v7)),
                            },
                        },
                    },
                },
            },
        },
    }
}

/// Consumes a non-empty comma-separated list of file entries.
pub open spec fn scan_file_list(v: Seq<char>) -> Option<(Seq<FileEntryView>, Seq<char>)>
    decreases v.len(),
{
    match scan_file(v) {
        None => None,
        Some((f, r)) => {
            if r.len() > 0 && r[0] == ',' && r.len() < v.len() {
                match scan_file_list(r.skip(1)) {
                    None => None,
                    Some((fs, r2)) => Some((seq![f] + fs, r2)),
                }
            } else {
                Some((seq![f], r))
            }
        }
    }
}

/// Consumes a non-empty comma-separated list of tombstones.
pub open spec fn scan_tomb_list(v: Seq<char>) -> Option<(Seq<TombstoneView>, Seq<char>)>
    decreases v.len(),
{
    match scan_tomb(v) {
        None => None,
        Some((t, r)) => {
            if r.len() > 0 && r[0] == ',' && r.len() < v.len() {
                match scan_tomb_list(r.skip(1)) {
                    None => None,
                    Some((ts, r2)) => Some((seq![t] + ts, r2)),
                }
            } else {
                Some((seq![t], r))
            }
        }
    }
}

/// Consumes a bracketed, possibly empty list of file entries.
pub open spec fn scan_files_array(v: Seq<char>) -> Option<(Seq<FileEntryView>, Seq<char>)> {
    if v.len() > 0 && v[0] == ']' {
        Some((Seq::empty(), v.skip(1)))
    } else {
        match scan_file_list(v) {
            None => None,
            Some((fs, r)) => match scan_lit(r, "]"@) {
                None => None,
                Some(r2) => Some((fs, r2)),
            },
        }
    }
}

/// Consumes a bracketed, possibly empty list of tombstones.
pub open spec fn scan_tombs_array(v: Seq<char>) -> Option<(Seq<TombstoneView>, Seq<char>)> {
    if v.len() > 0 && v[0] == ']' {
        Some((Seq::empty(), v.skip(1)))
    } else {
        match scan_tomb_list(v) {
            None => None,
            Some((ts, r)) => match scan_lit(r, "]"@) {
                None => None,
                Some(r2) => Some((ts, r2)),
            },
        }
    }
}

/// Consumes a whole manifest in canonical form.
pub open spec fn scan_manifest(v: Seq<char>) -> Option<(ManifestView, Seq<char>)> {
    match scan_lit(v, "{\"version\":"@) {
        None => None,
        Some(v1) => match scan_string(v1) {
            None => None,
            Some((version, v2)) => match scan_lit(v2, ",\"folder_id\":"@) {
                None => None,
                Some(v3) => match scan_string(v3) {
                    None => None,
                    Some((folder_id, v4)) => match scan_lit(v4, ",\"folder_path\":"@) {
                        None => None,
                        Some(v5) => match scan_string(v5) {
                            None => None,
                            Some((folder_path, v6)) => match scan_lit(v6, ",\"source_peer_id\":"@) {
                                None => None,
                                Some(v7) => match scan_string(v7) {
                                    None => None,
                                    Some((source_peer_id, v8)) => match scan_lit(
                                        v8,
                                        ",\"sequence_number\":"@,
                                    ) {
                                        None => None,
                                        Some(v9) => match scan_number(v9) {
                                            None => None,
                                            Some((sequence_number, v10)) => scan_manifest_tail(
                                                v10,
                                                version,
                                                folder_id,
                                                folder_path,
                                                source_peer_id,
                                                sequence_number,
                                            ),
                                        },
                                    },
                                },
                            },
                        },
                    },
                },
            },
        },
    }
}

/// Consumes the rest of a manifest after the sequence number.
pub open spec fn scan_manifest_tail(
    v: Seq<char>,
    version: Seq<char>,
    folder_id: Seq<char>,
    folder_path: Seq<char>,
    source_peer_id: Seq<char>,
    sequence_number: u64,
) -> Option<(ManifestView, Seq<char>)> {
    match scan_lit(v, ",\"last_updated\":"@) {
        None => None,
        Some(v1) => match scan_string(v1) {
            None => None,
            Some((last_updated, v2)) => match scan_lit(v2, ",\"manifest_cid\":"@) {
                None => None,
                Some(v3) => match scan_opt_str(v3) {
                    None => None,
                    Some((manifest_cid, v4)) => match scan_lit(v4, ",\"files\":["@) {
                        None => None,
                        Some(v5) => match scan_files_array(v5) {
                            None => None,
                            Some((files, v6)) => match scan_lit(v6, ",\"deleted_files\":["@) {
                                None => None,
                                Some(v7) => match scan_tombs_array(v7) {
                                    None => None,
                                    Some((deleted_files, v8)) => match scan_lit(
                                        v8,
                                        ",\"stats\":{\"total_files\":"@,
                                    ) {
                                        None => None,
                                        Some(v9) => match scan_number(v9) {
                                            None => None,
                                            Some((total_files, v10)) => if total_files
                                                <= u32::MAX {
                                                match scan_lit(v10, ",\"total_size_bytes\":"@) {
                                                    None => None,
                                                    Some(v11) => match scan_number(v11) {
                                                        None => None,
                                                        Some((total_size_bytes, v12)) => match scan_lit(
                                                            v12,
                                                            "}}"@,
                                                        ) {
                                                            None => None,
                                                            Some(v13) => Some(
                                                                (
                                                                    ManifestView {
                                                                        version,
                                                                        folder_id,
                                                                        folder_path,
                                                                        source_peer_id,
                                                                        sequence_number,
                                                                        last_updated,
                                                                        manifest_cid,
                                                                        files,
                                                                        deleted_files,
                                                                        total_files: total_files
                                                                            as u32,
                                                                        total_size_bytes,
                                                                    },
                                                                    v13,
                                                                ),
                                                            ),
                                                        },
                                                    },
                                                }
                                            } else {
                                                None
                                            },
                                        },
                                    },
                                },
                            },
                        },
                    },
                },
            },
        },
    }
}

// ---------------------------------------------------------------------
// Completeness: each scanner consumes exactly what the encoder produced.
// ---------------------------------------------------------------------

/// The escaped body decomposes at the front as it does at the back.
proof fn lemma_esc_first(x: Seq<char>)
    requires
        x.len() > 0,
    ensures
        esc(x) == esc_char(x[0]) + esc(x.skip(1)),
    decreases x.len(),
{
    if x.len() == 1 {
        assert(x.drop_last() =~= Seq::<char>::empty());
        assert(x.skip(1) =~= Seq::<char>::empty());
        assert(esc(x) =~= esc_char(x[0]) + esc(x.skip(1)));
    } else {
        lemma_esc_first(x.drop_last());
        assert(x.drop_last().skip(1) =~= x.skip(1).drop_last());
        assert(x.skip(1).last() == x.last());
        assert(x.drop_last()[0] == x[0]);
        assert(esc(x) == (esc_char(x[0]) + esc(x.drop_last().skip(1))) + esc_char(x.last()));
        assert(esc(x.skip(1)) == esc(x.skip(1).drop_last()) + esc_char(x.skip(1).last()));
        assert((esc_char(x[0]) + esc(x.drop_last().skip(1))) + esc_char(x.last()) =~= esc_char(x[0])
            + (esc(x.skip(1).drop_last()) + esc_char(x.skip(1).last())));
    }
}

/// Scanning the escaped body of a string recovers the string.
proof fn lemma_scan_body_esc(x: Seq<char>, rest: Seq<char>)
    ensures
        scan_str_body(esc(x) + seq!['"'] + rest) == Some((x, rest)),
    decreases x.len(),
{
    let v = esc(x) + seq!['"'] + rest;
    if x.len() == 0 {
        assert(esc(x) =~= Seq::<char>::empty());
        assert(v[0] == '"');
        assert(v.skip(1) =~= rest);
        assert(scan_str_body(v) == Some((Seq::<char>::empty(), rest)));
        assert(x =~= Seq::<char>::empty());
    } else {
        lemma_esc_first(x);
        let c = x[0];
        lemma_scan_body_esc(x.skip(1), rest);
        if c == '"' || c == '\\' {
            assert(esc_char(c) == seq!['\\', c]);
            assert(v[0] == '\\');
            assert(v.len() >= 2);
            assert(v[1] == c);
            assert(v.skip(2) =~= esc(x.skip(1)) + seq!['"'] + rest);
            assert(scan_str_body(v.skip(2)) == Some((x.skip(1), rest)));
            assert(seq![c] + x.skip(1) =~= x);
        } else {
            assert(esc_char(c) == seq![c]);
            assert(v[0] == c);
            assert(v.skip(1) =~= esc(x.skip(1)) + seq!['"'] + rest);
            assert(scan_str_body(v.skip(1)) == Some((x.skip(1), rest)));
            assert(seq![c] + x.skip(1) =~= x);
        }
    }
}

/// Scanning an encoded string recovers the string.
proof fn lemma_scan_string(x: Seq<char>, rest: Seq<char>)
    ensures
        scan_string(enc_str(x) + rest) == Some((x, rest)),
{
    let v = enc_str(x) + rest;
    assert(v[0] == '"');
    assert(v.skip(1) =~= esc(x) + seq!['"'] + rest);
    lemma_scan_body_esc(x, rest);
}

/// Scanning a fixed literal consumes exactly it.
proof fn lemma_scan_lit(lit: Seq<char>, rest: Seq<char>)
    ensures
        scan_lit(lit + rest, lit) == Some(rest),
{
    let v = lit + rest;
    assert(v.subrange(0, lit.len() as int) =~= lit);
    assert(v.skip(lit.len() as int) =~= rest);
}

/// The digit run of digits followed by a non-digit is exactly the digits.
proof fn lemma_digit_run_concat(d: Seq<char>, rest: Seq<char>)
    requires
        crate::text::all_digits(d),
        rest.len() == 0 || !is_dec_digit(rest[0]),
    ensures
        digit_run(d + rest) == d.len(),
    decreases d.len(),
{
    let v = d + rest;
    if d.len() == 0 {
        assert(v =~= rest);
    } else {
        assert(is_dec_digit(d[0]));
        assert(v[0] == d[0]);
        assert(v.skip(1) =~= d.skip(1) + rest);
        assert(crate::text::all_digits(d.skip(1)));
        lemma_digit_run_concat(d.skip(1), rest);
    }
}

/// Scanning an encoded number followed by a non-digit recovers the number.
proof fn lemma_scan_number(n: u64, rest: Seq<char>)
    requires
        rest.len() == 0 || !is_dec_digit(rest[0]),
    ensures
        scan_number(dec_rep(n as nat) + rest) == Some((n, rest)),
{
    let d = dec_rep(n as nat);
    let v = d + rest;
    lemma_dec_rep_val(n as nat);
    lemma_digit_run_concat(d, rest);
    assert(v.take(d.len() as int) =~= d);
    assert(v.skip(d.len() as int) =~= rest);
}

/// Scanning an encoded optional string recovers it.
proof fn lemma_scan_opt_str(o: Option<Seq<char>>, rest: Seq<char>)
    ensures
        scan_opt_str(enc_opt_str(o) + rest) == Some((o, rest)),
{
    reveal_strlit("null");
    match o {
        None => {
            let v = "null"@ + rest;
            assert(v.subrange(0, 4) =~= "null"@);
            assert(v.skip(4) =~= rest);
        }
        Some(x) => {
            let v = enc_str(x) + rest;
            assert(v[0] == '"');
            if starts_with(v, "null"@) {
                assert(v.subrange(0, 4)[0] == v[0]);
                assert(false);
            }
            lemma_scan_string(x, rest);
        }
    }
}

/// Scanning an encoded file entry recovers it.
proof fn lemma_scan_file(f: FileEntryView, rest: Seq<char>)
    ensures
        scan_file(enc_file(f) + rest) == Some((f, rest)),
        rest.len() < (enc_file(f) + rest).len(),
{
    let t9 = "}"@ + rest;
    let t8 = enc_str(f.uploaded_at) + t9;
    let t7 = ",\"uploaded_at\":"@ + t8;
    let t6 = enc_opt_str(f.mime_type) + t7;
    let t5 = ",\"mime_type\":"@ + t6;
    let t4 = dec_rep(f.size_bytes as nat) + t5;
    let t3 = ",\"size_bytes\":"@ + t4;
    let t2 = enc_str(f.cid) + t3;
    let t1 = ",\"cid\":"@ + t2;
    let t0 = enc_str(f.path) + t1;
    let v = enc_file(f) + rest;
    assert(v =~= "{\"path\":"@ + t0);
    lemma_scan_lit("{\"path\":"@, t0);
    lemma_scan_string(f.path, t1);
    lemma_scan_lit(",\"cid\":"@, t2);
    lemma_scan_string(f.cid, t3);
    lemma_scan_lit(",\"size_bytes\":"@, t4);
    reveal_strlit(",\"mime_type\":");
    assert(t5[0] == ',');
    assert(!is_dec_digit(','));
    lemma_scan_number(f.size_bytes, t5);
    lemma_scan_lit(",\"mime_type\":"@, t6);
    lemma_scan_opt_str(f.mime_type, t7);
    lemma_scan_lit(",\"uploaded_at\":"@, t8);
    lemma_scan_string(f.uploaded_at, t9);
    lemma_scan_lit("}"@, rest);
    reveal_strlit("{\"path\":");
    reveal_strlit("}");
}

/// Scanning an encoded tombstone recovers it.
proof fn lemma_scan_tomb(t: TombstoneView, rest: Seq<char>)
    ensures
        scan_tomb(enc_tomb(t) + rest) == Some((t, rest)),
        rest.len() < (enc_tomb(t) + rest).len(),
{
    let t5 = "}"@ + rest;
    let t4 = enc_str(t.deleted_at) + t5;
    let t3 = ",\"deleted_at\":"@ + t4;
    let t2 = enc_str(t.cid) + t3;
    let t1 = ",\"cid\":"@ + t2;
    let t0 = enc_str(t.path) + t1;
    let v = enc_tomb(t) + rest;
    assert(v =~= "{\"path\":"@ + t0);
    lemma_scan_lit("{\"path\":"@, t0);
    lemma_scan_string(t.path, t1);
    lemma_scan_lit(",\"cid\":"@, t2);
    lemma_scan_string(t.cid, t3);
    lemma_scan_lit(",\"deleted_at\":"@, t4);
    lemma_scan_string(t.deleted_at, t5);
    lemma_scan_lit("}"@, rest);
    reveal_strlit("{\"path\":");
    reveal_strlit("}");
}

/// A file list decomposes at the front.
proof fn lemma_file_list_first(fs: Seq<FileEntryView>)
    requires
        fs.len() > 1,
    ensures
        enc_file_list(fs) == enc_file(fs[0]) + ","@ + enc_file_list(fs.skip(1)),
    decreases fs.len(),
{
    if fs.len() == 2 {
        assert(fs.drop_last() =~= seq![fs[0]]);
        assert(fs.skip(1) =~= seq![fs[1]]);
        assert(enc_file_list(fs.drop_last()) == enc_file(fs[0]));
        assert(enc_file_list(fs.skip(1)) == enc_file(fs[1]));
    } else {
        lemma_file_list_first(fs.drop_last());
        assert(fs.drop_last()[0] == fs[0]);
        assert(fs.drop_last().skip(1) =~= fs.skip(1).drop_last());
        assert(fs.skip(1).last() == fs.last());
        assert(fs.skip(1).len() > 1);
        assert(enc_file_list(fs) == ((enc_file(fs[0]) + ","@) + enc_file_list(
            fs.skip(1).drop_last(),
        )) + ","@ + enc_file(fs.last()));
        assert(((enc_file(fs[0]) + ","@) + enc_file_list(fs.skip(1).drop_last())) + ","@
            + enc_file(fs.last()) =~= enc_file(fs[0]) + ","@ + (enc_file_list(
            fs.skip(1).drop_last(),
        ) + ","@ + enc_file(fs.skip(1).last())));
    }
}

/// A tombstone list decomposes at the front.
proof fn lemma_tomb_list_first(ts: Seq<TombstoneView>)
    requires
        ts.len() > 1,
    ensures
        enc_tomb_list(ts) == enc_tomb(ts[0]) + ","@ + enc_tomb_list(ts.skip(1)),
    decreases ts.len(),
{
    if ts.len() == 2 {
        assert(ts.drop_last() =~= seq![ts[0]]);
        assert(ts.skip(1) =~= seq![ts[1]]);
        assert(enc_tomb_list(ts.drop_last()) == enc_tomb(ts[0]));
        assert(enc_tomb_list(ts.skip(1)) == enc_tomb(ts[1]));
    } else {
        lemma_tomb_list_first(ts.drop_last());
        assert(ts.drop_last()[0] == ts[0]);
        assert(ts.drop_last().skip(1) =~= ts.skip(1).drop_last());
        assert(ts.skip(1).last() == ts.last());
        assert(ts.skip(1).len() > 1);
        assert(enc_tomb_list(ts) == ((enc_tomb(ts[0]) + ","@) + enc_tomb_list(
            ts.skip(1).drop_last(),
        )) + ","@ + enc_tomb(ts.last()));
        assert(((enc_tomb(ts[0]) + ","@) + enc_tomb_list(ts.skip(1).drop_last())) + ","@
            + enc_tomb(ts.last()) =~= enc_tomb(ts[0]) + ","@ + (enc_tomb_list(
            ts.skip(1).drop_last(),
        ) + ","@ + enc_tomb(ts.skip(1).last())));
    }
}

/// Scanning an encoded non-empty file list recovers it, stopping at a rest
/// that does not begin with a comma.
#[verifier::rlimit(50)]
proof fn lemma_scan_file_list(fs: Seq<FileEntryView>, rest: Seq<char>)
    requires
        fs.len() > 0,
        rest.len() > 0,
        rest[0] != ',',
    ensures
        scan_file_list(enc_file_list(fs) + rest) == Some((fs, rest)),
    decreases fs.len(),
{
    let v = enc_file_list(fs) + rest;
    if fs.len() == 1 {
        assert(enc_file_list(fs) == enc_file(fs[0]));
        lemma_scan_file(fs[0], rest);
        assert(seq![fs[0]] =~= fs);
    } else {
        lemma_file_list_first(fs);
        let tail = ","@ + (enc_file_list(fs.skip(1)) + rest);
        lemma_assoc(enc_file(fs[0]) + ","@, enc_file_list(fs.skip(1)), rest);
        lemma_assoc(enc_file(fs[0]), ","@, enc_file_list(fs.skip(1)) + rest);
        assert(v == enc_file(fs[0]) + tail);
        lemma_scan_file(fs[0], tail);
        reveal_strlit(",");
        assert(tail[0] == ',');
        assert(tail.len() > 0);
        assert(tail.len() < v.len());
        assert(tail.skip(1) =~= enc_file_list(fs.skip(1)) + rest);
        lemma_scan_file_list(fs.skip(1), rest);
        assert(seq![fs[0]] + fs.skip(1) =~= fs);
    }
}

/// Scanning an encoded non-empty tombstone list recovers it.
#[verifier::rlimit(100)]
proof fn lemma_scan_tomb_list(ts: Seq<TombstoneView>, rest: Seq<char>)
    requires
        ts.len() > 0,
        rest.len() > 0,
        rest[0] != ',',
    ensures
        scan_tomb_list(enc_tomb_list(ts) + rest) == Some((ts, rest)),
    decreases ts.len(),
{
    let v = enc_tomb_list(ts) + rest;
    if ts.len() == 1 {
        assert(enc_tomb_list(ts) == enc_tomb(ts[0]));
        lemma_scan_tomb(ts[0], rest);
        assert(seq![ts[0]] =~= ts);
    } else {
        lemma_tomb_list_first(ts);
        let tail = ","@ + (enc_tomb_list(ts.skip(1)) + rest);
        lemma_assoc(enc_tomb(ts[0]) + ","@, enc_tomb_list(ts.skip(1)), rest);
        lemma_assoc(enc_tomb(ts[0]), ","@, enc_tomb_list(ts.skip(1)) + rest);
        assert(v == enc_tomb(ts[0]) + tail);
        lemma_scan_tomb(ts[0], tail);
        reveal_strlit(",");
        assert(tail[0] == ',');
        assert(tail.len() > 0);
        assert(tail.len() < v.len());
        assert(tail.skip(1) =~= enc_tomb_list(ts.skip(1)) + rest);
        lemma_scan_tomb_list(ts.skip(1), rest);
        assert(seq![ts[0]] + ts.skip(1) =~= ts);
    }
}

/// Scanning an encoded file array recovers it.
proof fn lemma_scan_files_array(fs: Seq<FileEntryView>, rest: Seq<char>)
    ensures
        scan_files_array(enc_file_list(fs) + "]"@ + rest) == Some((fs, rest)),
{
    reveal_strlit("]");
    reveal_strlit("{\"path\":");
    let v = enc_file_list(fs) + "]"@ + rest;
    if fs.len() == 0 {
        assert(enc_file_list(fs) =~= Seq::<char>::empty());
        assert(v[0] == ']');
        assert(v.skip(1) =~= rest);
        assert(fs =~= Seq::<FileEntryView>::empty());
    } else {
        let tail = "]"@ + rest;
        assert(v =~= enc_file_list(fs) + tail);
        assert(tail[0] == ']');
        assert(tail[0] != ',') by {
            reveal_strlit("]");
        }
        lemma_scan_file_list(fs, tail);
        // the array is not empty, so the first character is an opening brace
        assert(enc_file_list(fs.take(1)) == enc_file(fs[0])) by {
            assert(fs.take(1) =~= seq![fs[0]]);
        }
        if fs.len() == 1 {
            assert(v[0] == enc_file(fs[0])[0]);
        } else {
            lemma_file_list_first(fs);
            assert(v[0] == enc_file(fs[0])[0]);
        }
        assert(enc_file(fs[0])[0] == '{');
        assert(v[0] != ']');
        lemma_scan_lit("]"@, rest);
        assert(tail =~= "]"@ + rest);
    }
}

/// Scanning an encoded tombstone array recovers it.
proof fn lemma_scan_tombs_array(ts: Seq<TombstoneView>, rest: Seq<char>)
    ensures
        scan_tombs_array(enc_tomb_list(ts) + "]"@ + rest) == Some((ts, rest)),
{
    reveal_strlit("]");
    reveal_strlit("{\"path\":");
    let v = enc_tomb_list(ts) + "]"@ + rest;
    if ts.len() == 0 {
        assert(enc_tomb_list(ts) =~= Seq::<char>::empty());
        assert(v[0] == ']');
        assert(v.skip(1) =~= rest);
        assert(ts =~= Seq::<TombstoneView>::empty());
    } else {
        let tail = "]"@ + rest;
        assert(v =~= enc_tomb_list(ts) + tail);
        assert(tail[0] == ']');
        lemma_scan_tomb_list(ts, tail);
        if ts.len() == 1 {
            assert(enc_tomb_list(ts) == enc_tomb(ts[0]));
            assert(v[0] == enc_tomb(ts[0])[0]);
        } else {
            lemma_tomb_list_first(ts);
            assert(v[0] == enc_tomb(ts[0])[0]);
        }
        assert(enc_tomb(ts[0])[0] == '{');
        assert(v[0] != ']');
        lemma_scan_lit("]"@, rest);
        assert(tail =~= "]"@ + rest);
    }
}

/// Decoding an encoded manifest gives the manifest back, with nothing left
/// over: the codec round-trips on every manifest value, empty file and
/// tombstone lists included.
/// Concatenation of character sequences is associative.
proof fn lemma_assoc(a: Seq<char>, b: Seq<char>, c: Seq<char>)
    ensures
        (a + b) + c == a + (b + c),
{
    assert((a + b) + c =~= a + (b + c));
}

#[verifier::rlimit(100)]
pub proof fn lemma_manifest_round_trip(m: ManifestView)
    ensures
        scan_manifest(encode_spec(m)) == Some((m, Seq::<char>::empty())),
{
    let a1 = "{\"version\":"@;
    let a2 = enc_str(m.version);
    let a3 = ",\"folder_id\":"@;
    let a4 = enc_str(m.folder_id);
    let a5 = ",\"folder_path\":"@;
    let a6 = enc_str(m.folder_path);
    let a7 = ",\"source_peer_id\":"@;
    let a8 = enc_str(m.source_peer_id);
    let a9 = ",\"sequence_number\":"@;
    let a10 = dec_rep(m.sequence_number as nat);
    let a11 = ",\"last_updated\":"@;
    let a12 = enc_str(m.last_updated);
    let a13 = ",\"manifest_cid\":"@;
    let a14 = enc_opt_str(m.manifest_cid);
    let a15 = ",\"files\":["@;
    let a16 = enc_file_list(m.files);
    let a17 = "]"@;
    let a18 = ",\"deleted_files\":["@;
    let a19 = enc_tomb_list(m.deleted_files);
    let a20 = "]"@;
    let a21 = ",\"stats\":{\"total_files\":"@;
    let a22 = dec_rep(m.total_files as nat);
    let a23 = ",\"total_size_bytes\":"@;
    let a24 = dec_rep(m.total_size_bytes as nat);
    let a25 = "}}"@;
    let s25 = a25;
    let s24 = a24 + s25;
    let s23 = a23 + s24;
    let s22 = a22 + s23;
    let s21 = a21 + s22;
    let s20 = a20 + s21;
    let s19 = a19 + s20;
    let s18 = a18 + s19;
    let s17 = a17 + s18;
    let s16 = a16 + s17;
    let s15 = a15 + s16;
    let s14 = a14 + s15;
    let s13 = a13 + s14;
    let s12 = a12 + s13;
    let s11 = a11 + s12;
    let s10 = a10 + s11;
    let s9 = a9 + s10;
    let s8 = a8 + s9;
    let s7 = a7 + s8;
    let s6 = a6 + s7;
    let s5 = a5 + s6;
    let s4 = a4 + s5;
    let s3 = a3 + s4;
    let s2 = a2 + s3;
    let p1 = a1;
    let p2 = p1 + a2;
    let p3 = p2 + a3;
    let p4 = p3 + a4;
    let p5 = p4 + a5;
    let p6 = p5 + a6;
    let p7 = p6 + a7;
    let p8 = p7 + a8;
    let p9 = p8 + a9;
    let p10 = p9 + a10;
    let p11 = p10 + a11;
    let p12 = p11 + a12;
    let p13 = p12 + a13;
    let p14 = p13 + a14;
    let p15 = p14 + a15;
    let p16 = p15 + a16;
    let p17 = p16 + a17;
    let p18 = p17 + a18;
    let p19 = p18 + a19;
    let p20 = p19 + a20;
    let p21 = p20 + a21;
    let p22 = p21 + a22;
    let p23 = p22 + a23;
    let p24 = p23 + a24;
    let v = encode_spec(m);
    assert(v == p24 + a25);
    lemma_assoc(p23, a24, s25);
    lemma_assoc(p22, a23, s24);
    lemma_assoc(p21, a22, s23);
    lemma_assoc(p20, a21, s22);
    lemma_assoc(p19, a20, s21);
    lemma_assoc(p18, a19, s20);
    lemma_assoc(p17, a18, s19);
    lemma_assoc(p16, a17, s18);
    lemma_assoc(p15, a16, s17);
    lemma_assoc(p14, a15, s16);
    lemma_assoc(p13, a14, s15);
    lemma_assoc(p12, a13, s14);
    lemma_assoc(p11, a12, s13);
    lemma_assoc(p10, a11, s12);
    lemma_assoc(p9, a10, s11);
    lemma_assoc(p8, a9, s10);
    lemma_assoc(p7, a8, s9);
    lemma_assoc(p6, a7, s8);
    lemma_assoc(p5, a6, s7);
    lemma_assoc(p4, a5, s6);
    lemma_assoc(p3, a4, s5);
    lemma_assoc(p2, a3, s4);
    lemma_assoc(p1, a2, s3);
    assert(v == a1 + s2);
    lemma_scan_lit(a1, s2);
    lemma_scan_string(m.version, s3);
    lemma_scan_lit(a3, s4);
    lemma_scan_string(m.folder_id, s5);
    lemma_scan_lit(a5, s6);
    lemma_scan_string(m.folder_path, s7);
    lemma_scan_lit(a7, s8);
    lemma_scan_string(m.source_peer_id, s9);
    lemma_scan_lit(a9, s10);
    reveal_strlit(",\"last_updated\":");
    assert(s11[0] == ',');
    assert(!is_dec_digit(','));
    lemma_scan_number(m.sequence_number, s11);
    lemma_scan_lit(a11, s12);
    lemma_scan_string(m.last_updated, s13);
    lemma_scan_lit(a13, s14);
    lemma_scan_opt_str(m.manifest_cid, s15);
    lemma_scan_lit(a15, s16);
    lemma_assoc(a16, a17, s18);
    assert(s16 == a16 + a17 + s18);
    lemma_scan_files_array(m.files, s18);
    lemma_scan_lit(a18, s19);
    lemma_assoc(a19, a20, s21);
    assert(s19 == a19 + a20 + s21);
    lemma_scan_tombs_array(m.deleted_files, s21);
    lemma_scan_lit(a21, s22);
    reveal_strlit(",\"total_size_bytes\":");
    assert(s23[0] == ',');
    assert(!is_dec_digit(','));
    assert(dec_rep(m.total_files as nat) == dec_rep((m.total_files as u64) as nat));
    lemma_scan_number(m.total_files as u64, s23);
    reveal_strlit("}}");
    assert(s25[0] == '}');
    assert(!is_dec_digit('}'));
    lemma_scan_lit(a23, s24);
    lemma_scan_number(m.total_size_bytes, s25);
    lemma_scan_lit(a25, Seq::<char>::empty());
    assert(a25 + Seq::<char>::empty() =~= s25);
    assert(m.total_files as u64 <= u32::MAX);
}

// ---------------------------------------------------------------------
// The executable encoder.
// ---------------------------------------------------------------------

/// The escaped body grows character by character.
proof fn lemma_esc_push(s: Seq<char>, c: char)
    ensures
        esc(s.push(c)) == esc(s) + esc_char(c),
{
    assert(s.push(c).drop_last() =~= s);
    assert(s.push(c).last() == c);
}

/// Writes the characters of a literal onto the output.
pub(crate) fn push_str_chars(out: &mut Vec<char>, s: &str)
    ensures
        final(out)@ == old(out)@ + s@,
{
    let v = crate::ext::str_chars(s);
    let mut i: usize = 0;
    proof {
        assert(old(out)@ + s@.subrange(0, 0) =~= old(out)@);
    }
    while i < v.len()
        invariant
            i <= v@.len(),
            v@ == s@,
            out@ == old(out)@ + s@.subrange(0, i as int),
        decreases v@.len() - i,
    {
        out.push(v[i]);
        proof {
            assert(old(out)@ + s@.subrange(0, i as int + 1) =~= (old(out)@ + s@.subrange(
                0,
                i as int,
            )).push(s@[i as int]));
        }
        i = i + 1;
    }
    proof {
        assert(s@.subrange(0, s@.len() as int) =~= s@);
    }
}

/// Writes a JSON string, quotes and escapes included.
fn push_json_string(out: &mut Vec<char>, s: &String)
    ensures
        final(out)@ == old(out)@ + enc_str(s@),
{
    let v = crate::ext::str_chars(s.as_str());
    out.push('"');
    let ghost base = out@;
    let mut i: usize = 0;
    proof {
        assert(esc(s@.subrange(0, 0)) =~= Seq::<char>::empty());
        assert(base + esc(s@.subrange(0, 0)) =~= base);
    }
    while i < v.len()
        invariant
            i <= v@.len(),
            v@ == s@,
            out@ == base + esc(s@.subrange(0, i as int)),
        decreases v@.len() - i,
    {
        let c = v[i];
        proof {
            let pre = s@.subrange(0, i as int);
            assert(s@.subrange(0, i as int + 1) =~= pre.push(s@[i as int]));
            lemma_esc_push(pre, s@[i as int]);
        }
        if c == '"' || c == '\\' {
            out.push('\\');
            out.push(c);
            proof {
                assert(out@ =~= base + esc(s@.subrange(0, i as int + 1)));
            }
        } else {
            out.push(c);
            proof {
                assert(out@ =~= base + esc(s@.subrange(0, i as int + 1)));
            }
        }
        i = i + 1;
    }
    out.push('"');
    proof {
        assert(s@.subrange(0, s@.len() as int) =~= s@);
        assert(out@ =~= old(out)@ + enc_str(s@));
    }
}

/// Writes `null` or a JSON string.
fn push_opt_string(out: &mut Vec<char>, o: &Option<String>)
    ensures
        final(out)@ == old(out)@ + enc_opt_str(opt_view(*o)),
{
    match o {
        Some(s) => push_json_string(out, s),
        None => push_str_chars(out, "null"),
    }
}

/// Writes one file entry as JSON.
fn push_file(out: &mut Vec<char>, f: &FileEntry)
    ensures
        final(out)@ == old(out)@ + enc_file(f.view_of()),
{
    push_str_chars(out, "{\"path\":");
    push_json_string(out, &f.path);
    push_str_chars(out, ",\"cid\":");
    push_json_string(out, &f.cid);
    push_str_chars(out, ",\"size_bytes\":");
    crate::text::push_u64_dec(out, f.size_bytes);
    push_str_chars(out, ",\"mime_type\":");
    push_opt_string(out, &f.mime_type);
    push_str_chars(out, ",\"uploaded_at\":");
    push_json_string(out, &f.uploaded_at);
    push_str_chars(out, "}");
}

/// Writes one tombstone as JSON.
fn push_tomb(out: &mut Vec<char>, t: &TombstoneEntry)
    ensures
        final(out)@ == old(out)@ + enc_tomb(t.view_of()),
{
    push_str_chars(out, "{\"path\":");
    push_json_string(out, &t.path);
    push_str_chars(out, ",\"cid\":");
    push_json_string(out, &t.cid);
    push_str_chars(out, ",\"deleted_at\":");
    push_json_string(out, &t.deleted_at);
    push_str_chars(out, "}");
}

/// Writes a comma-separated file list.
fn push_file_list(out: &mut Vec<char>, fs: &Vec<FileEntry>)
    ensures
        final(out)@ == old(out)@ + enc_file_list(
            fs@.map_values(|e: FileEntry| e.view_of()),
        ),
{
    let ghost views = fs@.map_values(|e: FileEntry| e.view_of());
    let mut i: usize = 0;
    proof {
        assert(enc_file_list(views.take(0)) =~= Seq::<char>::empty());
        assert(old(out)@ + enc_file_list(views.take(0)) =~= old(out)@);
    }
    while i < fs.len()
        invariant
            i <= fs@.len(),
            views == fs@.map_values(|e: FileEntry| e.view_of()),
            out@ == old(out)@ + enc_file_list(views.take(i as int)),
        decreases fs@.len() - i,
    {
        if i > 0 {
            push_str_chars(out, ",");
        }
        push_file(out, &fs[i]);
        proof {
            let pre = views.take(i as int);
            let ext = views.take(i as int + 1);
            assert(ext.drop_last() =~= pre);
            assert(ext.last() == views[i as int]);
            assert(views[i as int] == fs@[i as int].view_of());
            if i == 0 {
                assert(enc_file_list(ext) == enc_file(views[0])) by {
                    assert(ext.len() == 1);
                    assert(ext[0] == views[0]);
                }
                assert(out@ =~= old(out)@ + enc_file_list(ext));
            } else {
                assert(enc_file_list(ext) == enc_file_list(pre) + ","@ + enc_file(
                    views[i as int],
                ));
                reveal_strlit(",");
                assert(out@ =~= old(out)@ + enc_file_list(ext));
            }
        }
        i = i + 1;
    }
    proof {
        assert(views.take(views.len() as int) =~= views);
    }
}

/// Writes a comma-separated tombstone list.
fn push_tomb_list(out: &mut Vec<char>, ts: &Vec<TombstoneEntry>)
    ensures
        final(out)@ == old(out)@ + enc_tomb_list(
            ts@.map_values(|e: TombstoneEntry| e.view_of()),
        ),
{
    let ghost views = ts@.map_values(|e: TombstoneEntry| e.view_of());
    let mut i: usize = 0;
    proof {
        assert(enc_tomb_list(views.take(0)) =~= Seq::<char>::empty());
        assert(old(out)@ + enc_tomb_list(views.take(0)) =~= old(out)@);
    }
    while i < ts.len()
        invariant
            i <= ts@.len(),
            views == ts@.map_values(|e: TombstoneEntry| e.view_of()),
            out@ == old(out)@ + enc_tomb_list(views.take(i as int)),
        decreases ts@.len() - i,
    {
        if i > 0 {
            push_str_chars(out, ",");
        }
        push_tomb(out, &ts[i]);
        proof {
            let pre = views.take(i as int);
            let ext = views.take(i as int + 1);
            assert(ext.drop_last() =~= pre);
            assert(ext.last() == views[i as int]);
            assert(views[i as int] == ts@[i as int].view_of());
            if i == 0 {
                assert(enc_tomb_list(ext) == enc_tomb(views[0])) by {
                    assert(ext.len() == 1);
                    assert(ext[0] == views[0]);
                }
                assert(out@ =~= old(out)@ + enc_tomb_list(ext));
            } else {
                assert(enc_tomb_list(ext) == enc_tomb_list(pre) + ","@ + enc_tomb(
                    views[i as int],
                ));
                reveal_strlit(",");
                assert(out@ =~= old(out)@ + enc_tomb_list(ext));
            }
        }
        i = i + 1;
    }
    proof {
        assert(views.take(views.len() as int) =~= views);
    }
}

/// Serializes a manifest into its canonical JSON form.
pub fn encode_manifest(m: &Manifest) -> (r: String)
    ensures
        r@ == encode_spec(m.view_of()),
{
    let mut out: Vec<char> = Vec::new();
    proof {
        assert(out@ =~= Seq::<char>::empty());
    }
    push_str_chars(&mut out, "{\"version\":");
    push_json_string(&mut out, &m.version);
    push_str_chars(&mut out, ",\"folder_id\":");
    push_json_string(&mut out, &m.folder_id);
    push_str_chars(&mut out, ",\"folder_path\":");
    push_json_string(&mut out, &m.folder_path);
    push_str_chars(&mut out, ",\"source_peer_id\":");
    push_json_string(&mut out, &m.source_peer_id);
    push_str_chars(&mut out, ",\"sequence_number\":");
    crate::text::push_u64_dec(&mut out, m.sequence_number);
    push_str_chars(&mut out, ",\"last_updated\":");
    push_json_string(&mut out, &m.last_updated);
    push_str_chars(&mut out, ",\"manifest_cid\":");
    push_opt_string(&mut out, &m.manifest_cid);
    push_str_chars(&mut out, ",\"files\":[");
    push_file_list(&mut out, &m.files);
    push_str_chars(&mut out, "]");
    push_str_chars(&mut out, ",\"deleted_files\":[");
    push_tomb_list(&mut out, &m.deleted_files);
    push_str_chars(&mut out, "]");
    push_str_chars(&mut out, ",\"stats\":{\"total_files\":");
    crate::text::push_u64_dec(&mut out, m.stats.total_files as u64);
    push_str_chars(&mut out, ",\"total_size_bytes\":");
    crate::text::push_u64_dec(&mut out, m.stats.total_size_bytes);
    push_str_chars(&mut out, "}}");
    proof {
        assert(dec_rep((m.stats.total_files as u64) as nat) == dec_rep(
            m.view_of().total_files as nat,
        ));
        assert(out@ =~= encode_spec(m.view_of()));
    }
    crate::ext::chars_string(&out)
}

// ---------------------------------------------------------------------
// The executable decoder: each parser computes exactly what the
// corresponding scanner denotes on the remaining input.
// ---------------------------------------------------------------------

/// The input left from position `i` on.
pub open spec fn suf(v: Seq<char>, i: int) -> Seq<char> {
    v.subrange(i, v.len() as int)
}

/// Consumes a fixed literal at position `i`.
fn parse_lit(v: &Vec<char>, i: usize, lit: &str) -> (r: Option<usize>)
    requires
        i <= v@.len(),
    ensures
        match r {
            Some(j) => {
                &&& i <= j <= v@.len()
                &&& j == i + lit@.len()
                &&& scan_lit(suf(v@, i as int), lit@) == Some(suf(v@, j as int))
            },
            None => scan_lit(suf(v@, i as int), lit@) is None,
        },
{
    let l = crate::ext::str_chars(lit);
    let n = v.len();
    if n - i < l.len() {
        proof {
            assert(suf(v@, i as int).len() < lit@.len());
        }
        return None;
    }
    let mut k: usize = 0;
    while k < l.len()
        invariant
            k <= l@.len(),
            l@ == lit@,
            n == v@.len(),
            i + l@.len() <= n,
            forall|x: int| 0 <= x < k ==> v@[i + x] == lit@[x],
        decreases l@.len() - k,
    {
        if v[i + k] != l[k] {
            proof {
                let s = suf(v@, i as int);
                if starts_with(s, lit@) {
                    assert(s.subrange(0, lit@.len() as int)[k as int] == s[k as int]);
                }
            }
            return None;
        }
        k = k + 1;
    }
    proof {
        let s = suf(v@, i as int);
        assert(s.subrange(0, lit@.len() as int) =~= lit@);
        assert(s.skip(lit@.len() as int) =~= suf(v@, i + lit@.len()));
    }
    Some(i + l.len())
}

/// Consumes a JSON string at position `i`, undoing the escapes.
fn parse_string(v: &Vec<char>, i: usize) -> (r: Option<(String, usize)>)
    requires
        i <= v@.len(),
    ensures
        match r {
            Some((s, j)) => {
                &&& i < j <= v@.len()
                &&& scan_string(suf(v@, i as int)) == Some((s@, suf(v@, j as int)))
            },
            None => scan_string(suf(v@, i as int)) is None,
        },
{
    if i == v.len() || v[i] != '"' {
        proof {
            if i < v@.len() {
                assert(suf(v@, i as int)[0] == v@[i as int]);
            }
        }
        return None;
    }
    proof {
        assert(suf(v@, i as int)[0] == '"');
        assert(suf(v@, i as int).skip(1) =~= suf(v@, i + 1));
    }
    let ghost start = i + 1;
    let mut k: usize = i + 1;
    let mut acc: Vec<char> = Vec::new();
    while k < v.len()
        invariant
            start <= k <= v@.len(),
            start == i + 1,
            i < v@.len(),
            v@[i as int] == '"',
            scan_string(suf(v@, i as int)) == scan_str_body(suf(v@, start as int)),
            match scan_str_body(suf(v@, k as int)) {
                Some(p) => scan_str_body(suf(v@, start as int)) == Some((acc@ + p.0, p.1)),
                None => scan_str_body(suf(v@, start as int)) is None,
            },
        decreases v@.len() - k,
    {
        let c = v[k];
        proof {
            let cur = suf(v@, k as int);
            assert(cur.len() > 0);
            assert(cur[0] == v@[k as int]);
        }
        if c == '"' {
            proof {
                let cur = suf(v@, k as int);
                assert(cur.skip(1) =~= suf(v@, k + 1));
                assert(scan_str_body(cur) == Some(
                    (Seq::<char>::empty(), suf(v@, k + 1)),
                ));
                assert(acc@ + Seq::<char>::empty() =~= acc@);
            }
            let out = crate::ext::chars_string(&acc);
            return Some((out, k + 1));
        } else if c == '\\' {
            if k + 1 >= v.len() {
                proof {
                    let cur = suf(v@, k as int);
                    assert(cur.len() == 1);
                    assert(scan_str_body(cur) is None);
                }
                return None;
            }
            let d = v[k + 1];
            let ghost acc0 = acc@;
            acc.push(d);
            proof {
                let cur = suf(v@, k as int);
                assert(cur.len() >= 2);
                assert(cur[1] == v@[k + 1]);
                assert(cur.skip(2) =~= suf(v@, k + 2));
                match scan_str_body(suf(v@, k + 2)) {
                    Some(p) => {
                        assert(scan_str_body(cur) == Some((seq![v@[k + 1]] + p.0, p.1)));
                        assert(acc@ + p.0 =~= acc0 + (seq![v@[k + 1]] + p.0));
                    }
                    None => {
                        assert(scan_str_body(cur) is None);
                    }
                }
            }
            k = k + 2;
        } else {
            let ghost acc0 = acc@;
            acc.push(c);
            proof {
                let cur = suf(v@, k as int);
                assert(cur.skip(1) =~= suf(v@, k + 1));
                match scan_str_body(suf(v@, k + 1)) {
                    Some(p) => {
                        assert(scan_str_body(cur) == Some((seq![v@[k as int]] + p.0, p.1)));
                        assert(acc@ + p.0 =~= acc0 + (seq![v@[k as int]] + p.0));
                    }
                    None => {
                        assert(scan_str_body(cur) is None);
                    }
                }
            }
            k = k + 1;
        }
    }
    proof {
        assert(suf(v@, k as int).len() == 0);
        assert(scan_str_body(suf(v@, k as int)) is None);
    }
    None
}

/// Consumes a decimal number at position `i`.
fn parse_number(v: &Vec<char>, i: usize) -> (r: Option<(u64, usize)>)
    requires
        i <= v@.len(),
    ensures
        match r {
            Some((n, j)) => {
                &&& i < j <= v@.len()
                &&& scan_number(suf(v@, i as int)) == Some((n, suf(v@, j as int)))
            },
            None => scan_number(suf(v@, i as int)) is None,
        },
{
    let mut j: usize = i;
    while j < v.len() && '0' <= v[j] && v[j] <= '9'
        invariant
            i <= j <= v@.len(),
            forall|x: int| i <= x < j ==> is_dec_digit(#[trigger] v@[x]),
        decreases v@.len() - j,
    {
        j = j + 1;
    }
    proof {
        lemma_digit_run_position(v@, i as int, j as int);
    }
    if j == i {
        return None;
    }
    match crate::text::parse_u64_digits(v, i, j) {
        Some(n) => {
            proof {
                let s = suf(v@, i as int);
                assert(s.take(j - i) =~= v@.subrange(i as int, j as int));
                assert(s.skip(j - i) =~= suf(v@, j as int));
            }
            Some((n, j))
        }
        None => {
            proof {
                let s = suf(v@, i as int);
                assert(s.take(j - i) =~= v@.subrange(i as int, j as int));
            }
            None
        }
    }
}

/// The digit run of the remaining input ends where the digits end.
proof fn lemma_digit_run_position(v: Seq<char>, i: int, j: int)
    requires
        0 <= i <= j <= v.len(),
        forall|x: int| i <= x < j ==> is_dec_digit(#[trigger] v[x]),
        j == v.len() || !is_dec_digit(v[j]),
    ensures
        digit_run(suf(v, i)) == j - i,
    decreases j - i,
{
    let s = suf(v, i);
    if i == j {
        if s.len() > 0 {
            assert(s[0] == v[i]);
        }
    } else {
        assert(s[0] == v[i]);
        assert(s.skip(1) =~= suf(v, i + 1));
        lemma_digit_run_position(v, i + 1, j);
    }
}

/// Consumes `null` or a JSON string at position `i`.
fn parse_opt_string(v: &Vec<char>, i: usize) -> (r: Option<(Option<String>, usize)>)
    requires
        i <= v@.len(),
    ensures
        match r {
            Some((o, j)) => {
                &&& i < j <= v@.len()
                &&& scan_opt_str(suf(v@, i as int)) == Some((opt_view(o), suf(v@, j as int)))
            },
            None => scan_opt_str(suf(v@, i as int)) is None,
        },
{
    match parse_lit(v, i, "null") {
        Some(j) => {
            proof {
                reveal_strlit("null");
                assert(suf(v@, i as int).skip(4) =~= suf(v@, j as int));
            }
            Some((None, j))
        }
        None => {
            proof {
                reveal_strlit("null");
            }
            match parse_string(v, i) {
                Some((s, j)) => Some((Some(s), j)),
                None => None,
            }
        }
    }
}

/// Consumes one file-entry object at position `i`.
fn parse_file(v: &Vec<char>, i: usize) -> (r: Option<(FileEntry, usize)>)
    requires
        i <= v@.len(),
    ensures
        match r {
            Some((f, j)) => {
                &&& i < j <= v@.len()
                &&& scan_file(suf(v@, i as int)) == Some((f.view_of(), suf(v@, j as int)))
            },
            None => scan_file(suf(v@, i as int)) is None,
        },
{
    let i1 = match parse_lit(v, i, "{\"path\":") {
        Some(j) => j,
        None => {
            return None;
        }
    };
    let (path, i2) = match parse_string(v, i1) {
        Some(p) => p,
        None => {
            return None;
        }
    };
    let i3 = match parse_lit(v, i2, ",\"cid\":") {
        Some(j) => j,
        None => {
            return None;
        }
    };
    let (cid, i4) = match parse_string(v, i3) {
        Some(p) => p,
        None => {
            return None;
        }
    };
    let i5 = match parse_lit(v, i4, ",\"size_bytes\":") {
        Some(j) => j,
        None => {
            return None;
        }
    };
    let (size_bytes, i6) = match parse_number(v, i5) {
        Some(p) => p,
        None => {
            return None;
        }
    };
    let i7 = match parse_lit(v, i6, ",\"mime_type\":") {
        Some(j) => j,
        None => {
            return None;
        }
    };
    let (mime_type, i8) = match parse_opt_string(v, i7) {
        Some(p) => p,
        None => {
            return None;
        }
    };
    let i9 = match parse_lit(v, i8, ",\"uploaded_at\":") {
        Some(j) => j,
        None => {
            return None;
        }
    };
    let (uploaded_at, i10) = match parse_string(v, i9) {
        Some(p) => p,
        None => {
            return None;
        }
    };
    let i11 = match parse_lit(v, i10, "}") {
        Some(j) => j,
        None => {
            return None;
        }
    };
    Some((FileEntry { path, cid, size_bytes, mime_type, uploaded_at }, i11))
}

/// Consumes one tombstone object at position `i`.
fn parse_tomb(v: &Vec<char>, i: usize) -> (r: Option<(TombstoneEntry, usize)>)
    requires
        i <= v@.len(),
    ensures
        match r {
            Some((t, j)) => {
                &&& i < j <= v@.len()
                &&& scan_tomb(suf(v@, i as int)) == Some((t.view_of(), suf(v@, j as int)))
            },
            None => scan_tomb(suf(v@, i as int)) is None,
        },
{
    let i1 = match parse_lit(v, i, "{\"path\":") {
        Some(j) => j,
        None => {
            return None;
        }
    };
    let (path, i2) = match parse_string(v, i1) {
        Some(p) => p,
        None => {
            return None;
        }
    };
    let i3 = match parse_lit(v, i2, ",\"cid\":") {
        Some(j) => j,
        None => {
            return None;
        }
    };
    let (cid, i4) = match parse_string(v, i3) {
        Some(p) => p,
        None => {
            return None;
        }
    };
    let i5 = match parse_lit(v, i4, ",\"deleted_at\":") {
        Some(j) => j,
        None => {
            return None;
        }
    };
    let (deleted_at, i6) = match parse_string(v, i5) {
        Some(p) => p,
        None => {
            return None;
        }
    };
    let i7 = match parse_lit(v, i6, "}") {
        Some(j) => j,
        None => {
            return None;
        }
    };
    Some((TombstoneEntry { path, cid, deleted_at }, i7))
}

/// Consumes a non-empty comma-separated file list at position `i`.
fn parse_file_list(v: &Vec<char>, i: usize) -> (r: Option<(Vec<FileEntry>, usize)>)
    requires
        i <= v@.len(),
    ensures
        match r {
            Some((fs, j)) => {
                &&& i < j <= v@.len()
                &&& scan_file_list(suf(v@, i as int)) == Some(
                    (fs@.map_values(|e: FileEntry| e.view_of()), suf(v@, j as int)),
                )
            },
            None => scan_file_list(suf(v@, i as int)) is None,
        },
    decreases v@.len() - i,
{
    let (f, j) = match parse_file(v, i) {
        Some(p) => p,
        None => {
            return None;
        }
    };
    let ghost fv = f.view_of();
    if j < v.len() && v[j] == ',' {
        proof {
            let r0 = suf(v@, j as int);
            assert(r0[0] == ',');
            assert(r0.len() < suf(v@, i as int).len());
            assert(r0.skip(1) =~= suf(v@, j + 1));
        }
        match parse_file_list(v, j + 1) {
            Some((mut fs, j2)) => {
                let ghost tailviews = fs@.map_values(|e: FileEntry| e.view_of());
                fs.insert(0, f);
                proof {
                    assert(fs@.map_values(|e: FileEntry| e.view_of()) =~= seq![fv] + tailviews);
                }
                Some((fs, j2))
            }
            None => None,
        }
    } else {
        proof {
            let r0 = suf(v@, j as int);
            if r0.len() > 0 {
                assert(r0[0] == v@[j as int]);
            }
        }
        let mut out: Vec<FileEntry> = Vec::new();
        out.push(f);
        proof {
            assert(out@.map_values(|e: FileEntry| e.view_of()) =~= seq![fv]);
        }
        Some((out, j))
    }
}

/// Consumes a non-empty comma-separated tombstone list at position `i`.
fn parse_tomb_list(v: &Vec<char>, i: usize) -> (r: Option<(Vec<TombstoneEntry>, usize)>)
    requires
        i <= v@.len(),
    ensures
        match r {
            Some((ts, j)) => {
                &&& i < j <= v@.len()
                &&& scan_tomb_list(suf(v@, i as int)) == Some(
                    (ts@.map_values(|e: TombstoneEntry| e.view_of()), suf(v@, j as int)),
                )
            },
            None => scan_tomb_list(suf(v@, i as int)) is None,
        },
    decreases v@.len() - i,
{
    let (t, j) = match parse_tomb(v, i) {
        Some(p) => p,
        None => {
            return None;
        }
    };
    let ghost tv = t.view_of();
    if j < v.len() && v[j] == ',' {
        proof {
            let r0 = suf(v@, j as int);
            assert(r0[0] == ',');
            assert(r0.len() < suf(v@, i as int).len());
            assert(r0.skip(1) =~= suf(v@, j + 1));
        }
        match parse_tomb_list(v, j + 1) {
            Some((mut ts, j2)) => {
                let ghost tailviews = ts@.map_values(|e: TombstoneEntry| e.view_of());
                ts.insert(0, t);
                proof {
                    assert(ts@.map_values(|e: TombstoneEntry| e.view_of()) =~= seq![tv]
                        + tailviews);
                }
                Some((ts, j2))
            }
            None => None,
        }
    } else {
        proof {
            let r0 = suf(v@, j as int);
            if r0.len() > 0 {
                assert(r0[0] == v@[j as int]);
            }
        }
        let mut out: Vec<TombstoneEntry> = Vec::new();
        out.push(t);
        proof {
            assert(out@.map_values(|e: TombstoneEntry| e.view_of()) =~= seq![tv]);
        }
        Some((out, j))
    }
}

/// Consumes a bracketed, possibly empty file array at position `i`.
fn parse_files_array(v: &Vec<char>, i: usize) -> (r: Option<(Vec<FileEntry>, usize)>)
    requires
        i <= v@.len(),
    ensures
        match r {
            Some((fs, j)) => {
                &&& i < j <= v@.len()
                &&& scan_files_array(suf(v@, i as int)) == Some(
                    (fs@.map_values(|e: FileEntry| e.view_of()), suf(v@, j as int)),
                )
            },
            None => scan_files_array(suf(v@, i as int)) is None,
        },
{
    if i < v.len() && v[i] == ']' {
        proof {
            assert(suf(v@, i as int)[0] == ']');
            assert(suf(v@, i as int).skip(1) =~= suf(v@, i + 1));
        }
        let out: Vec<FileEntry> = Vec::new();
        proof {
            assert(out@.map_values(|e: FileEntry| e.view_of()) =~= Seq::<FileEntryView>::empty());
        }
        return Some((out, i + 1));
    }
    proof {
        if i < v@.len() {
            assert(suf(v@, i as int)[0] == v@[i as int]);
        }
    }
    let (fs, j) = match parse_file_list(v, i) {
        Some(p) => p,
        None => {
            return None;
        }
    };
    let j2 = match parse_lit(v, j, "]") {
        Some(p) => p,
        None => {
            return None;
        }
    };
    Some((fs, j2))
}

/// Consumes a bracketed, possibly empty tombstone array at position `i`.
fn parse_tombs_array(v: &Vec<char>, i: usize) -> (r: Option<(Vec<TombstoneEntry>, usize)>)
    requires
        i <= v@.len(),
    ensures
        match r {
            Some((ts, j)) => {
                &&& i < j <= v@.len()
                &&& scan_tombs_array(suf(v@, i as int)) == Some(
                    (ts@.map_values(|e: TombstoneEntry| e.view_of()), suf(v@, j as int)),
                )
            },
            None => scan_tombs_array(suf(v@, i as int)) is None,
        },
{
    if i < v.len() && v[i] == ']' {
        proof {
            assert(suf(v@, i as int)[0] == ']');
            assert(suf(v@, i as int).skip(1) =~= suf(v@, i + 1));
        }
        let out: Vec<TombstoneEntry> = Vec::new();
        proof {
            assert(out@.map_values(|e: TombstoneEntry| e.view_of())
                =~= Seq::<TombstoneView>::empty());
        }
        return Some((out, i + 1));
    }
    proof {
        if i < v@.len() {
            assert(suf(v@, i as int)[0] == v@[i as int]);
        }
    }
    let (ts, j) = match parse_tomb_list(v, i) {
        Some(p) => p,
        None => {
            return None;
        }
    };
    let j2 = match parse_lit(v, j, "]") {
        Some(p) => p,
        None => {
            return None;
        }
    };
    Some((ts, j2))
}

/// Parses a whole manifest in canonical form. Succeeds exactly when the
/// input is one canonical manifest with nothing after it.
#[verifier::rlimit(100)]
pub fn decode_manifest(s: &str) -> (r: Option<Manifest>)
    ensures
        match r {
            Some(m) => {
                &&& scan_manifest(s@) matches Some(p) && p.0 == m.view_of() && p.1.len() == 0
            },
            None => match scan_manifest(s@) {
                Some(p) => p.1.len() > 0,
                None => true,
            },
        },
{
    let v = crate::ext::str_chars(s);
    proof {
        assert(suf(v@, 0) =~= s@);
    }
    let i1 = match parse_lit(&v, 0, "{\"version\":") {
        Some(j) => j,
        None => {
            return None;
        }
    };
    let (version, i2) = match parse_string(&v, i1) {
        Some(p) => p,
        None => {
            return None;
        }
    };
    let i3 = match parse_lit(&v, i2, ",\"folder_id\":") {
        Some(j) => j,
        None => {
            return None;
        }
    };
    let (folder_id, i4) = match parse_string(&v, i3) {
        Some(p) => p,
        None => {
            return None;
        }
    };
    let i5 = match parse_lit(&v, i4, ",\"folder_path\":") {
        Some(j) => j,
        None => {
            return None;
        }
    };
    let (folder_path, i6) = match parse_string(&v, i5) {
        Some(p) => p,
        None => {
            return None;
        }
    };
    let i7 = match parse_lit(&v, i6, ",\"source_peer_id\":") {
        Some(j) => j,
        None => {
            return None;
        }
    };
    let (source_peer_id, i8) = match parse_string(&v, i7) {
        Some(p) => p,
        None => {
            return None;
        }
    };
    let i9 = match parse_lit(&v, i8, ",\"sequence_number\":") {
        Some(j) => j,
        None => {
            return None;
        }
    };
    let (sequence_number, i10) = match parse_number(&v, i9) {
        Some(p) => p,
        None => {
            return None;
        }
    };
    let i11 = match parse_lit(&v, i10, ",\"last_updated\":") {
        Some(j) => j,
        None => {
            return None;
        }
    };
    let (last_updated, i12) = match parse_string(&v, i11) {
        Some(p) => p,
        None => {
            return None;
        }
    };
    let i13 = match parse_lit(&v, i12, ",\"manifest_cid\":") {
        Some(j) => j,
        None => {
            return None;
        }
    };
    let (manifest_cid, i14) = match parse_opt_string(&v, i13) {
        Some(p) => p,
        None => {
            return None;
        }
    };
    let i15 = match parse_lit(&v, i14, ",\"files\":[") {
        Some(j) => j,
        None => {
            return None;
        }
    };
    let (files, i16) = match parse_files_array(&v, i15) {
        Some(p) => p,
        None => {
            return None;
        }
    };
    let i17 = match parse_lit(&v, i16, ",\"deleted_files\":[") {
        Some(j) => j,
        None => {
            return None;
        }
    };
    let (deleted_files, i18) = match parse_tombs_array(&v, i17) {
        Some(p) => p,
        None => {
            return None;
        }
    };
    let i19 = match parse_lit(&v, i18, ",\"stats\":{\"total_files\":") {
        Some(j) => j,
        None => {
            return None;
        }
    };
    let (total_files, i20) = match parse_number(&v, i19) {
        Some(p) => p,
        None => {
            return None;
        }
    };
    if total_files > 4294967295 {
        return None;
    }
    let i21 = match parse_lit(&v, i20, ",\"total_size_bytes\":") {
        Some(j) => j,
        None => {
            return None;
        }
    };
    let (total_size_bytes, i22) = match parse_number(&v, i21) {
        Some(p) => p,
        None => {
            return None;
        }
    };
    let i23 = match parse_lit(&v, i22, "}}") {
        Some(j) => j,
        None => {
            return None;
        }
    };
    if i23 != v.len() {
        proof {
            assert(suf(v@, i23 as int).len() > 0);
        }
        return None;
    }
    let m = Manifest {
        version,
        folder_id,
        folder_path,
        source_peer_id,
        sequence_number,
        last_updated,
        manifest_cid,
        files,
        deleted_files,
        stats: ManifestStats {
            total_files: total_files as u32,
            total_size_bytes,
        },
    };
    proof {
        assert(suf(v@, i23 as int).len() == 0);
        assert(m.view_of().files =~= m.files@.map_values(|e: FileEntry| e.view_of()));
        assert(m.view_of().deleted_files =~= m.deleted_files@.map_values(
            |e: TombstoneEntry| e.view_of(),
        ));
    }
    Some(m)
}

} // verus!
