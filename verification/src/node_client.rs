//! The computational core of the node API client: response shapes, URL
//! construction, upload preparation and local-presence checks. The HTTP
//! calls themselves live outside the library and hand these functions
//! plain values.

use vstd::prelude::*;
use crate::text::dec_rep;
use crate::ext::{url_encoded, mime_guess_of};

verus! {

/// What the node's info route reports.
#[derive(Debug)]
pub struct NodeInfo {
    pub id: String,
    pub addrs: Vec<String>,
    pub repo: Option<String>,
    pub spr: Option<String>,
    pub announce_addresses: Vec<String>,
    pub eth_address: Option<String>,
    pub archivist: Option<ArchivistInfo>,
}

/// Version block inside the node's info report.
#[derive(Debug)]
pub struct ArchivistInfo {
    pub version: String,
    pub revision: Option<String>,
    pub contracts: Option<String>,
}

/// What the node's space route reports.
#[derive(Debug, Clone, Copy, PartialEq, Eq, Structural)]
pub struct SpaceInfo {
    pub total_blocks: u64,
    pub quota_max_bytes: u64,
    pub quota_used_bytes: u64,
    pub quota_reserved_bytes: u64,
}

/// The content address an upload produced.
#[derive(Debug)]
pub struct UploadResponse {
    pub cid: String,
}

/// What one finished upload reports to observers.
#[derive(Debug)]
pub struct UploadResult {
    pub cid: String,
    pub name: String,
    pub size_bytes: u64,
}

/// The node's listing of locally stored data.
#[derive(Debug)]
pub struct DataListResponse {
    pub content: Vec<DataItem>,
}

/// One locally stored blob and its optional metadata.
#[derive(Debug)]
pub struct DataItem {
    pub cid: String,
    pub manifest: Option<ManifestInfo>,
}

/// Metadata the node keeps beside a stored blob.
#[derive(Debug)]
pub struct ManifestInfo {
    pub filename: Option<String>,
    pub mimetype: Option<String>,
    pub dataset_size: Option<u64>,
    pub protected: Option<bool>,
}

/// A connected peer as the node reports it.
#[derive(Debug)]
pub struct PeerInfo {
    pub peer_id: String,
    pub addresses: Vec<String>,
}

/// The base URL of a node API listening on this port.
pub fn base_url_for_port(api_port: u16) -> (r: String)
    ensures
        r@ == "http://127.0.0.1:"@ + dec_rep(api_port as nat),
{
    let mut out: Vec<char> = Vec::new();
    crate::codec::push_str_chars(&mut out, "http://127.0.0.1:");
    crate::text::push_u64_dec(&mut out, api_port as u64);
    proof {
        assert(out@ =~= "http://127.0.0.1:"@ + dec_rep(api_port as nat));
    }
    crate::ext::chars_string(&out)
}

/// Joins the base URL with a route suffix.
fn join_url(base: &String, suffix: &str) -> (r: String)
    ensures
        r@ == base@ + suffix@,
{
    let mut out = base.clone();
    out.append(suffix);
    out
}

/// The info route, also used as the health probe.
pub fn info_url(base: &String) -> (r: String)
    ensures
        r@ == base@ + "/api/archivist/v1/debug/info"@,
{
    join_url(base, "/api/archivist/v1/debug/info")
}

/// The data route: uploads and the local listing.
pub fn data_url(base: &String) -> (r: String)
    ensures
        r@ == base@ + "/api/archivist/v1/data"@,
{
    join_url(base, "/api/archivist/v1/data")
}

/// The route of one stored blob: local download and deletion.
pub fn data_item_url(base: &String, cid: &String) -> (r: String)
    ensures
        r@ == base@ + "/api/archivist/v1/data/"@ + cid@,
{
    let mut out = join_url(base, "/api/archivist/v1/data/");
    out.append(cid.as_str());
    out
}

/// The route that asks the node to fetch a blob from its peer network.
pub fn network_fetch_url(base: &String, cid: &String) -> (r: String)
    ensures
        r@ == base@ + "/api/archivist/v1/data/"@ + cid@ + "/network"@,
{
    let mut out = data_item_url(base, cid);
    out.append("/network");
    out
}

/// The signed-peer-record route.
pub fn spr_url(base: &String) -> (r: String)
    ensures
        r@ == base@ + "/api/archivist/v1/spr"@,
{
    join_url(base, "/api/archivist/v1/spr")
}

/// The connected-peers route.
pub fn peers_url(base: &String) -> (r: String)
    ensures
        r@ == base@ + "/api/archivist/v1/peers"@,
{
    join_url(base, "/api/archivist/v1/peers")
}

/// The storage-space route.
pub fn space_url(base: &String) -> (r: String)
    ensures
        r@ == base@ + "/api/archivist/v1/space"@,
{
    join_url(base, "/api/archivist/v1/space")
}

/// The storage-request route for one blob.
pub fn storage_request_url(base: &String, cid: &String) -> (r: String)
    ensures
        r@ == base@ + "/api/archivist/v1/storage/request/"@ + cid@,
{
    let mut out = join_url(base, "/api/archivist/v1/storage/request/");
    out.append(cid.as_str());
    out
}

/// The peer-connect route: the peer id in the path and the multi-address
/// percent-encoded in the query.
pub fn connect_url(base: &String, peer_id: &String, multiaddr: &String) -> (r: String)
    ensures
        r@ == base@ + "/api/archivist/v1/connect/"@ + peer_id@ + "?addrs="@ + url_encoded(
            multiaddr@,
        ),
{
    let mut out = join_url(base, "/api/archivist/v1/connect/");
    out.append(peer_id.as_str());
    out.append("?addrs=");
    let encoded = crate::ext::url_encode(multiaddr);
    out.append(encoded.as_str());
    out
}

/// The Content-Disposition header an upload carries: an attachment with
/// the file's name.
pub fn content_disposition_for(filename: &String) -> (r: String)
    ensures
        r@ == "attachment; filename=\""@ + filename@ + "\""@,
{
    let mut out = String::from_str("attachment; filename=\"");
    out.append(filename.as_str());
    out.append("\"");
    out
}

/// The MIME type an upload declares: the guess from the path, or the
/// generic byte stream when the path's extension is unknown.
pub fn upload_mime_type(path: &String) -> (r: String)
    ensures
        match mime_guess_of(path@) {
            Some(m) => r@ == m,
            None => r@ == "application/octet-stream"@,
        },
{
    match crate::ext::guess_mime(path) {
        Some(m) => m,
        None => String::from_str("application/octet-stream"),
    }
}

/// The upload timeout in seconds: at least five minutes, and at least one
/// second per ten mebibytes of payload.
pub fn upload_timeout_secs(file_size: u64) -> (r: u64)
    ensures
        r == if file_size as int / 10485760 > 300 {
            file_size as int / 10485760
        } else {
            300int
        },
{
    let by_size = file_size / 10485760;
    if by_size > 300 {
        by_size
    } else {
        300
    }
}

/// Upload progress in whole percent.
pub fn percent_of(sent: u64, total: u64) -> (r: u64)
    requires
        sent <= total,
    ensures
        r == if total > 0 { sent as int * 100 / total as int } else { 0int },
{
    if total > 0 {
        let p = ((sent as u128) * 100) / (total as u128);
        proof {
            assert(sent as int * 100 / total as int <= 100) by (nonlinear_arith)
                requires
                    0 < total,
                    sent <= total,
            ;
        }
        p as u64
    } else {
        0
    }
}

/// Whether an upload progress event is due: the percentage advanced, or
/// another mebibyte went out since the last report.
pub fn progress_report_due(percent: u64, last_percent: u64, sent: u64, last_sent: u64) -> (r: bool)
    ensures
        r == (percent > last_percent || (sent >= last_sent && sent - last_sent > 1048576)),
{
    percent > last_percent || (sent >= last_sent && sent - last_sent > 1048576)
}

/// Whether the node's local listing holds this content address.
pub fn contains_cid(list: &DataListResponse, cid: &String) -> (r: bool)
    ensures
        r == exists|i: int|
            0 <= i < list.content@.len() && (#[trigger] list.content@[i]).cid@ == cid@,
{
    let mut i: usize = 0;
    while i < list.content.len()
        invariant
            i <= list.content@.len(),
            forall|j: int| 0 <= j < i ==> (#[trigger] list.content@[j]).cid@ != cid@,
        decreases list.content@.len() - i,
    {
        if list.content[i].cid.eq(cid) {
            return true;
        }
        i = i + 1;
    }
    false
}

} // verus!
