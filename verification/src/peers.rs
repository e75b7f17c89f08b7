//! The peer service's logic: reading the peer id out of a multi-address,
//! remembering connected peers for reconnection, and merging the node's
//! live peer list with the saved ones. The node API calls live outside
//! the library.

use vstd::prelude::*;
use crate::errors::ArchivistError;
use crate::text::starts_with;
use crate::ext::str_chars;
use crate::daemon::clone_opt_string;

verus! {

/// A peer as shown to observers.
#[derive(Debug)]
pub struct PeerInfo {
    pub id: String,
    pub addresses: Vec<String>,
    pub connected: bool,
    pub latency_ms: Option<u32>,
    pub bytes_sent: u64,
    pub bytes_received: u64,
    pub connected_at: Option<String>,
    pub last_seen: Option<String>,
    pub agent_version: Option<String>,
}

/// Aggregated peer statistics.
#[derive(Debug, Clone, Copy, PartialEq, Eq, Structural)]
pub struct PeerStats {
    pub total_peers: u32,
    pub connected_peers: u32,
    pub bytes_sent_total: u64,
    pub bytes_received_total: u64,
}

/// The merged peer listing.
#[derive(Debug)]
pub struct PeerList {
    pub peers: Vec<PeerInfo>,
    pub stats: PeerStats,
    pub local_peer_id: Option<String>,
    pub local_addresses: Vec<String>,
    pub spr: Option<String>,
}

/// A peer remembered for reconnection.
#[derive(Debug)]
pub struct SavedPeer {
    pub peer_id: String,
    pub addresses: Vec<String>,
    pub nickname: Option<String>,
    pub added_at: String,
}

/// The saved-peer directory kept by the peer service.
#[derive(Debug)]
pub struct PeerDirectory {
    pub saved_peers: Vec<SavedPeer>,
}

/// Index of the first occurrence of the pattern, or minus one.
pub open spec fn first_sub(s: Seq<char>, pat: Seq<char>) -> int
    decreases s.len(),
{
    if starts_with(s, pat) {
        0
    } else if s.len() == 0 {
        -1
    } else {
        let r = first_sub(s.skip(1), pat);
        if r == -1 {
            -1
        } else {
            1 + r
        }
    }
}

/// The peer id a connect address denotes: the text between the first
/// peer-to-peer marker and the next (or the end); failing that, a whole
/// signed-peer-record string or a bare peer id by its well-known
/// prefixes.
pub open spec fn peer_id_of(addr: Seq<char>) -> Option<Seq<char>> {
    let k = first_sub(addr, "/p2p/"@);
    if k >= 0 {
        let rest = addr.skip(k + 5);
        let k2 = first_sub(rest, "/p2p/"@);
        if k2 >= 0 {
            Some(rest.take(k2))
        } else {
            Some(rest)
        }
    } else if starts_with(addr, "spr:"@) || starts_with(addr, "Qm"@) || starts_with(
        addr,
        "12D3"@,
    ) {
        Some(addr)
    } else {
        None
    }
}

/// Finds the first occurrence of the pattern at or after `from`.
fn find_sub(v: &Vec<char>, from: usize, pat: &str) -> (r: Option<usize>)
    requires
        from <= v@.len(),
    ensures
        match r {
            Some(j) => {
                &&& from <= j
                &&& j + pat@.len() <= v@.len()
                &&& v@.subrange(j as int, j + pat@.len()) == pat@
                &&& forall|x: int|
                    from <= x < j && x + pat@.len() <= v@.len() ==> #[trigger] v@.subrange(
                        x,
                        x + pat@.len(),
                    ) != pat@
            },
            None => forall|x: int|
                from <= x && x + pat@.len() <= v@.len() ==> #[trigger] v@.subrange(
                    x,
                    x + pat@.len(),
                ) != pat@,
        },
{
    let p = str_chars(pat);
    let n = v.len();
    let m = p.len();
    if m > n || from > n - m {
        return None;
    }
    let mut k: usize = from;
    while k <= n - m
        invariant
            from <= k <= n - m + 1,
            m <= n == v@.len(),
            m == p@.len(),
            p@ == pat@,
            forall|x: int|
                from <= x < k ==> #[trigger] v@.subrange(x, x + pat@.len()) != pat@,
        decreases n - m - k + 1,
    {
        let mut t: usize = 0;
        let mut matched = true;
        while t < m
            invariant
                k + m <= n == v@.len(),
                m == p@.len(),
                p@ == pat@,
                t <= m,
                matched == (forall|y: int| 0 <= y < t ==> #[trigger] v@[k + y] == pat@[y]),
            decreases m - t,
        {
            if v[k + t] != p[t] {
                matched = false;
                proof {
                    assert(v@[k + t] != pat@[t as int]);
                }
                t = m;
            } else {
                t = t + 1;
            }
        }
        if matched {
            proof {
                assert forall|y: int|
                    0 <= y < pat@.len() implies v@.subrange(k as int, k + pat@.len())[y]
                    == pat@[y] by {
                    assert(v@[k + y] == pat@[y]);
                    assert(v@.subrange(k as int, k + pat@.len())[y] == v@[k + y]);
                }
                assert(v@.subrange(k as int, k + pat@.len()) =~= pat@);
            }
            return Some(k);
        }
        proof {
            if v@.subrange(k as int, k + pat@.len()) == pat@ {
                assert forall|y: int| 0 <= y < m implies v@[k + y] == pat@[y] by {
                    assert(v@.subrange(k as int, k + pat@.len())[y] == v@[k + y]);
                }
                assert(false);
            }
        }
        k = k + 1;
    }
    None
}

/// A matched window at `j` with none earlier is the first occurrence in
/// the remaining input.
proof fn lemma_first_sub_at(v: Seq<char>, i: int, j: int, pat: Seq<char>)
    requires
        0 <= i <= j,
        j + pat.len() <= v.len(),
        v.subrange(j, j + pat.len()) == pat,
        forall|x: int|
            i <= x < j && x + pat.len() <= v.len() ==> #[trigger] v.subrange(x, x + pat.len())
                != pat,
    ensures
        first_sub(v.subrange(i, v.len() as int), pat) == j - i,
    decreases j - i,
{
    let s = v.subrange(i, v.len() as int);
    if i == j {
        assert(s.subrange(0, pat.len() as int) =~= v.subrange(j, j + pat.len()));
        assert(starts_with(s, pat));
    } else {
        if starts_with(s, pat) {
            assert(s.subrange(0, pat.len() as int) =~= v.subrange(i, i + pat.len()));
            assert(false);
        }
        assert(s.len() > 0);
        assert(s.skip(1) =~= v.subrange(i + 1, v.len() as int));
        lemma_first_sub_at(v, i + 1, j, pat);
    }
}

/// With no matched window in the remaining input there is no first
/// occurrence.
proof fn lemma_first_sub_none(v: Seq<char>, i: int, pat: Seq<char>)
    requires
        0 <= i <= v.len(),
        forall|x: int|
            i <= x && x + pat.len() <= v.len() ==> #[trigger] v.subrange(x, x + pat.len()) != pat,
    ensures
        first_sub(v.subrange(i, v.len() as int), pat) == -1,
    decreases v.len() - i,
{
    let s = v.subrange(i, v.len() as int);
    if starts_with(s, pat) {
        assert(s.subrange(0, pat.len() as int) =~= v.subrange(i, i + pat.len()));
        assert(false);
    }
    if s.len() > 0 {
        assert(s.skip(1) =~= v.subrange(i + 1, v.len() as int));
        lemma_first_sub_none(v, i + 1, pat);
    }
}

/// Reads the peer id out of a connect address: a multi-address with a
/// peer-to-peer marker, a signed peer record, or a bare peer id. Fails on
/// anything else.
pub fn extract_peer_id(address: &String) -> (r: Result<String, ArchivistError>)
    ensures
        match r {
            Ok(id) => peer_id_of(address@) == Some(id@),
            Err(e) => peer_id_of(address@) is None && e is PeerConnectionFailed,
        },
{
    let v = str_chars(address.as_str());
    proof {
        assert(v@.subrange(0, v@.len() as int) =~= v@);
    }
    match find_sub(&v, 0, "/p2p/") {
        Some(k) => {
            let n = v.len();
            proof {
                lemma_first_sub_at(v@, 0, k as int, "/p2p/"@);
                reveal_strlit("/p2p/");
                assert(k + 5 <= n);
            }
            let rest_start = k + 5;
            let ghost rest = address@.skip(k + 5);
            let end = match find_sub(&v, rest_start, "/p2p/") {
                Some(k2) => {
                    proof {
                        assert forall|x: int|
                            0 <= x < k2 - rest_start && x + "/p2p/"@.len() <= rest.len()
                            implies #[trigger] rest.subrange(x, x + "/p2p/"@.len()) != "/p2p/"@ by {
                            assert(rest.subrange(x, x + "/p2p/"@.len()) =~= v@.subrange(
                                rest_start + x,
                                rest_start + x + "/p2p/"@.len(),
                            ));
                        }
                        lemma_first_sub_within(v@, rest_start as int, k2 as int, "/p2p/"@);
                    }
                    k2
                }
                None => {
                    proof {
                        assert forall|x: int|
                            0 <= x && x + "/p2p/"@.len() <= rest.len() implies #[trigger]
                            rest.subrange(x, x + "/p2p/"@.len()) != "/p2p/"@ by {
                            assert(rest.subrange(x, x + "/p2p/"@.len()) =~= v@.subrange(
                                rest_start + x,
                                rest_start + x + "/p2p/"@.len(),
                            ));
                        }
                        lemma_first_sub_none_seq(rest, "/p2p/"@);
                    }
                    v.len()
                }
            };
            let mut out: Vec<char> = Vec::new();
            let mut t: usize = rest_start;
            proof {
                assert(v@.subrange(rest_start as int, rest_start as int) =~= Seq::<
                    char,
                >::empty());
            }
            while t < end
                invariant
                    rest_start <= t <= end <= v@.len(),
                    out@ == v@.subrange(rest_start as int, t as int),
                decreases end - t,
            {
                let ghost pre = out@;
                out.push(v[t]);
                proof {
                    assert(v@.subrange(rest_start as int, t as int + 1) =~= pre.push(
                        v@[t as int],
                    ));
                }
                t = t + 1;
            }
            proof {
                if end < v.len() {
                    assert(rest.take(end - rest_start) =~= v@.subrange(
                        rest_start as int,
                        end as int,
                    ));
                } else {
                    assert(rest =~= v@.subrange(rest_start as int, end as int));
                }
            }
            Ok(crate::ext::chars_string(&out))
        }
        None => {
            proof {
                lemma_first_sub_none(v@, 0, "/p2p/"@);
            }
            let spr = matches_prefix(&v, "spr:");
            let qm = matches_prefix(&v, "Qm");
            let ed = matches_prefix(&v, "12D3");
            if spr || qm || ed {
                Ok(address.clone())
            } else {
                Err(
                    ArchivistError::PeerConnectionFailed(
                        String::from_str(
                            "invalid connect address: expected a multi-address with a peer id",
                        ),
                    ),
                )
            }
        }
    }
}

/// The first occurrence within a suffix, found from absolute positions.
proof fn lemma_first_sub_within(v: Seq<char>, base: int, j: int, pat: Seq<char>)
    requires
        0 <= base <= j,
        j + pat.len() <= v.len(),
        v.subrange(j, j + pat.len()) == pat,
        forall|x: int|
            0 <= x < j - base && x + pat.len() <= v.skip(base).len() ==> #[trigger] v.skip(
                base,
            ).subrange(x, x + pat.len()) != pat,
    ensures
        first_sub(v.skip(base), pat) == j - base,
{
    let s = v.skip(base);
    assert(s =~= v.subrange(base, v.len() as int));
    assert forall|x: int|
        base <= x < j && x + pat.len() <= v.len() implies #[trigger] v.subrange(x, x + pat.len())
        != pat by {
        assert(v.subrange(x, x + pat.len()) =~= s.subrange(x - base, x - base + pat.len()));
    }
    lemma_first_sub_at(v, base, j, pat);
}

/// No occurrence in a sequence means no first occurrence.
proof fn lemma_first_sub_none_seq(s: Seq<char>, pat: Seq<char>)
    requires
        forall|x: int|
            0 <= x && x + pat.len() <= s.len() ==> #[trigger] s.subrange(x, x + pat.len()) != pat,
    ensures
        first_sub(s, pat) == -1,
    decreases s.len(),
{
    if starts_with(s, pat) {
        assert(s.subrange(0, 0 + pat.len() as int) != pat);
        assert(s.subrange(0, 0 + pat.len() as int) =~= s.subrange(0, pat.len() as int));
        assert(false);
    }
    if s.len() > 0 {
        assert forall|x: int|
            0 <= x && x + pat.len() <= s.skip(1).len() implies #[trigger] s.skip(1).subrange(
                x,
                x + pat.len(),
            ) != pat by {
            assert(s.skip(1).subrange(x, x + pat.len()) =~= s.subrange(x + 1, x + 1 + pat.len()));
        }
        lemma_first_sub_none_seq(s.skip(1), pat);
    }
}

/// Whether the characters begin with the literal.
fn matches_prefix(v: &Vec<char>, pat: &str) -> (r: bool)
    ensures
        r == starts_with(v@, pat@),
{
    let p = str_chars(pat);
    if p.len() > v.len() {
        return false;
    }
    let mut t: usize = 0;
    while t < p.len()
        invariant
            t <= p@.len() <= v@.len(),
            p@ == pat@,
            forall|y: int| 0 <= y < t ==> v@[y] == pat@[y],
        decreases p@.len() - t,
    {
        if v[t] != p[t] {
            proof {
                if starts_with(v@, pat@) {
                    assert(v@.subrange(0, pat@.len() as int)[t as int] == v@[t as int]);
                }
            }
            return false;
        }
        t = t + 1;
    }
    proof {
        assert(v@.subrange(0, pat@.len() as int) =~= pat@);
    }
    true
}

impl PeerDirectory {
    /// Some saved peer carries this id.
    pub open spec fn has_saved(self, peer_id: Seq<char>) -> bool {
        exists|i: int|
            0 <= i < self.saved_peers@.len() && (#[trigger] self.saved_peers@[i]).peer_id@
                == peer_id
    }

    /// Each peer is saved at most once.
    pub open spec fn wf(self) -> bool {
        forall|i: int, j: int|
            0 <= i < j < self.saved_peers@.len() ==> (#[trigger] self.saved_peers@[i]).peer_id@
                != (#[trigger] self.saved_peers@[j]).peer_id@
    }

    /// An empty directory.
    pub fn new() -> (r: Self)
        ensures
            r.saved_peers@.len() == 0,
            r.wf(),
    {
        PeerDirectory { saved_peers: Vec::new() }
    }

    /// Remembers a peer after a successful connect. Connecting again to a
    /// peer already on file changes nothing, so repeated connects to the
    /// same address are idempotent on the directory.
    pub fn record_connected(&mut self, peer_id: String, address: String, now: String) -> (r: bool)
        ensures
            r == !old(self).has_saved(peer_id@),
            record_effect(*old(self), *final(self), peer_id, address, now),
            final(self).has_saved(peer_id@),
            old(self).wf() ==> final(self).wf(),
    {
        let mut i: usize = 0;
        while i < self.saved_peers.len()
            invariant
                i <= self.saved_peers@.len(),
                *self == *old(self),
                forall|j: int| 0 <= j < i ==> (#[trigger] self.saved_peers@[j]).peer_id@ != peer_id@,
            decreases self.saved_peers@.len() - i,
        {
            if self.saved_peers[i].peer_id.eq(&peer_id) {
                proof {
                    assert(self.saved_peers@[i as int].peer_id@ == peer_id@);
                }
                return false;
            }
            i = i + 1;
        }
        let mut addresses: Vec<String> = Vec::new();
        addresses.push(address);
        let ghost n0 = self.saved_peers@.len();
        self.saved_peers.push(SavedPeer { peer_id, addresses, nickname: None, added_at: now });
        proof {
            assert(self.saved_peers@.subrange(0, n0 as int) =~= old(self).saved_peers@);
            assert(self.saved_peers@[n0 as int].peer_id@ == peer_id@);
            if old(self).wf() {
                assert forall|a: int, b: int| 0 <= a < b < self.saved_peers@.len() implies (
                #[trigger] self.saved_peers@[a]).peer_id@ != (
                #[trigger] self.saved_peers@[b]).peer_id@ by {
                    if b < self.saved_peers@.len() - 1 {
                        assert(self.saved_peers@[a] == old(self).saved_peers@[a]);
                        assert(self.saved_peers@[b] == old(self).saved_peers@[b]);
                    } else {
                        assert(self.saved_peers@[a] == old(self).saved_peers@[a]);
                    }
                }
            }
        }
        true
    }

    /// Forgets a saved peer; unknown ids are ignored.
    pub fn remove_peer(&mut self, peer_id: &String)
        ensures
            final(self).saved_peers@ == saved_without(old(self).saved_peers@, peer_id@),
            old(self).wf() ==> final(self).wf(),
    {
        let ghost orig = self.saved_peers@;
        let n0 = self.saved_peers.len();
        let mut kept: Vec<SavedPeer> = Vec::new();
        let mut processed: usize = 0;
        proof {
            assert(orig.subrange(0, 0) =~= Seq::<SavedPeer>::empty());
            assert(self.saved_peers@ =~= orig.subrange(0, orig.len() as int));
            reveal(Seq::filter);
        }
        while self.saved_peers.len() > 0
            invariant
                n0 == orig.len(),
                processed <= n0,
                self.saved_peers@ == orig.subrange(processed as int, orig.len() as int),
                kept@ == saved_without(orig.subrange(0, processed as int), peer_id@),
            decreases self.saved_peers@.len(),
        {
            let ghost pre = orig.subrange(0, processed as int);
            let sp = self.saved_peers.remove(0);
            proof {
                assert(sp == orig[processed as int]);
                assert(self.saved_peers@ =~= orig.subrange(
                    processed as int + 1,
                    orig.len() as int,
                ));
            }
            let keep = !sp.peer_id.eq(peer_id);
            if keep {
                kept.push(sp);
            }
            proof {
                reveal(Seq::filter);
                let ext = orig.subrange(0, processed as int + 1);
                assert(ext =~= pre.push(orig[processed as int]));
                assert(ext.drop_last() =~= pre);
            }
            processed = processed + 1;
        }
        proof {
            assert(processed == orig.len());
            assert(orig.subrange(0, orig.len() as int) =~= orig);
        }
        self.saved_peers = kept;
        proof {
            if old(self).wf() {
                let f = self.saved_peers@;
                assert forall|a: int, b: int| 0 <= a < b < f.len() implies (
                #[trigger] f[a]).peer_id@ != (#[trigger] f[b]).peer_id@ by {
                    lemma_saved_without_distinct(old(self).saved_peers@, peer_id@, a, b);
                }
            }
        }
    }
}

/// Two distinct positions of an id-filtered saved list come from two
/// distinct positions of the original.
proof fn lemma_saved_without_distinct(s: Seq<SavedPeer>, peer_id: Seq<char>, a: int, b: int)
    requires
        0 <= a < b < saved_without(s, peer_id).len(),
        forall|i: int, j: int|
            0 <= i < j < s.len() ==> (#[trigger] s[i]).peer_id@ != (#[trigger] s[j]).peer_id@,
    ensures
        saved_without(s, peer_id)[a].peer_id@ != saved_without(s, peer_id)[b].peer_id@,
    decreases s.len(),
{
    reveal(Seq::filter);
    if s.len() > 0 {
        let sub = s.drop_last();
        let out = saved_without(s, peer_id);
        if s.last().peer_id@ != peer_id && b == out.len() - 1 && out[b] == s.last() {
            lemma_saved_without_elem(sub, peer_id, a);
            let m = choose|m: int| 0 <= m < sub.len() && sub[m] == saved_without(sub, peer_id)[a];
            assert(s[m].peer_id@ != s[s.len() - 1].peer_id@);
        } else {
            lemma_saved_without_distinct(sub, peer_id, a, b);
        }
    }
}

/// Every record kept by `saved_without` comes from the original list.
proof fn lemma_saved_without_elem(s: Seq<SavedPeer>, peer_id: Seq<char>, k: int)
    requires
        0 <= k < saved_without(s, peer_id).len(),
    ensures
        exists|m: int| 0 <= m < s.len() && s[m] == saved_without(s, peer_id)[k],
    decreases s.len(),
{
    reveal(Seq::filter);
    if s.len() > 0 {
        let sub = s.drop_last();
        if s.last().peer_id@ != peer_id && k == saved_without(s, peer_id).len() - 1
            && saved_without(s, peer_id)[k] == s.last() {
            assert(s[s.len() - 1] == saved_without(s, peer_id)[k]);
        } else {
            lemma_saved_without_elem(sub, peer_id, k);
            let m = choose|m: int| 0 <= m < sub.len() && sub[m] == saved_without(sub, peer_id)[k];
            assert(s[m] == saved_without(s, peer_id)[k]);
        }
    }
}

/// The saved peers other than the given id, in order, with each kept
/// record equal to the original up to the contents of its vectors.
pub open spec fn saved_without(s: Seq<SavedPeer>, peer_id: Seq<char>) -> Seq<SavedPeer> {
    s.filter(|x: SavedPeer| x.peer_id@ != peer_id)
}

/// What one successful connect does to the directory: a new peer is
/// appended with the address it was reached at; a peer already on file
/// leaves the directory untouched.
pub open spec fn record_effect(
    pre: PeerDirectory,
    post: PeerDirectory,
    peer_id: String,
    address: String,
    now: String,
) -> bool {
    if pre.has_saved(peer_id@) {
        post == pre
    } else {
        let sp = post.saved_peers@.last();
        &&& post.saved_peers@.len() == pre.saved_peers@.len() + 1
        &&& post.saved_peers@.subrange(0, pre.saved_peers@.len() as int) == pre.saved_peers@
        &&& sp.peer_id == peer_id
        &&& sp.addresses@.len() == 1
        &&& sp.addresses@[0] == address
        &&& sp.nickname is None
        &&& sp.added_at == now
    }
}

/// Connecting twice to the same peer changes the directory only the first
/// time: the second connect succeeds and leaves the directory exactly as
/// the first left it.
pub proof fn lemma_connect_idempotent(
    s0: PeerDirectory,
    s1: PeerDirectory,
    s2: PeerDirectory,
    peer_id: String,
    a1: String,
    a2: String,
    t1: String,
    t2: String,
)
    requires
        record_effect(s0, s1, peer_id, a1, t1),
        record_effect(s1, s2, peer_id, a2, t2),
    ensures
        s2 == s1,
{
    if !s0.has_saved(peer_id@) {
        assert(s1.saved_peers@[s0.saved_peers@.len() as int].peer_id@ == peer_id@);
    }
    assert(s1.has_saved(peer_id@));
}

/// How a connected peer reported by the node shows in the merged list.
pub open spec fn shows_connected(e: PeerInfo, c: crate::node_client::PeerInfo, now: String) -> bool {
    &&& e.id == c.peer_id
    &&& e.addresses@ == c.addresses@
    &&& e.connected
    &&& e.latency_ms is None
    &&& e.bytes_sent == 0
    &&& e.bytes_received == 0
    &&& e.connected_at == Some(now)
    &&& e.last_seen == Some(now)
    &&& e.agent_version is None
}

/// How a saved but currently unconnected peer shows in the merged list.
pub open spec fn shows_saved(e: PeerInfo, sp: SavedPeer) -> bool {
    &&& e.id == sp.peer_id
    &&& e.addresses@ == sp.addresses@
    &&& !e.connected
    &&& e.latency_ms is None
    &&& e.bytes_sent == 0
    &&& e.bytes_received == 0
    &&& e.connected_at is None
    &&& e.last_seen is None
    &&& e.agent_version is None
}

/// The node's listing names this peer id.
pub open spec fn listed(conn: Seq<crate::node_client::PeerInfo>, id: Seq<char>) -> bool {
    exists|i: int| 0 <= i < conn.len() && (#[trigger] conn[i]).peer_id@ == id
}

/// The saved peers that the node's listing does not name, in order.
pub open spec fn unlisted_saved(
    saved: Seq<SavedPeer>,
    conn: Seq<crate::node_client::PeerInfo>,
) -> Seq<SavedPeer> {
    saved.filter(|sp: SavedPeer| !listed(conn, sp.peer_id@))
}

/// Merges the node's live peer listing with the saved peers: every
/// connected peer first, then every saved peer the node did not list,
/// with the aggregate counters over the result.
pub fn build_peer_list(
    directory: &PeerDirectory,
    connected: Vec<crate::node_client::PeerInfo>,
    local_peer_id: Option<String>,
    local_addresses: Vec<String>,
    spr: Option<String>,
    now: &String,
) -> (r: PeerList)
    requires
        directory.wf(),
    ensures
        r.local_peer_id == local_peer_id,
        r.local_addresses == local_addresses,
        r.spr == spr,
        r.peers@.len() == connected@.len() + unlisted_saved(
            directory.saved_peers@,
            connected@,
        ).len(),
        forall|i: int|
            0 <= i < connected@.len() ==> shows_connected(
                #[trigger] r.peers@[i],
                connected@[i],
                *now,
            ),
        forall|k: int|
            0 <= k < unlisted_saved(directory.saved_peers@, connected@).len() ==> shows_saved(
                #[trigger] r.peers@[connected@.len() + k],
                unlisted_saved(directory.saved_peers@, connected@)[k],
            ),
        r.stats.total_peers == if r.peers@.len() <= u32::MAX {
            r.peers@.len() as int
        } else {
            u32::MAX as int
        },
        r.stats.connected_peers == if connected@.len() <= u32::MAX {
            connected@.len() as int
        } else {
            u32::MAX as int
        },
        r.stats.bytes_sent_total == 0,
        r.stats.bytes_received_total == 0,
{
    let ghost conn0 = connected@;
    let ghost saved0 = directory.saved_peers@;
    let mut peers: Vec<PeerInfo> = Vec::new();
    let mut src = connected;
    let n0 = src.len();
    let mut done: usize = 0;
    while src.len() > 0
        invariant
            n0 == conn0.len(),
            done <= n0,
            src@ == conn0.subrange(done as int, conn0.len() as int),
            peers@.len() == done,
            forall|i: int| 0 <= i < done ==> shows_connected(#[trigger] peers@[i], conn0[i], *now),
        decreases src@.len(),
    {
        let c = src.remove(0);
        proof {
            assert(c == conn0[done as int]);
            assert(src@ =~= conn0.subrange(done as int + 1, conn0.len() as int));
        }
        peers.push(
            PeerInfo {
                id: c.peer_id,
                addresses: c.addresses,
                connected: true,
                latency_ms: None,
                bytes_sent: 0,
                bytes_received: 0,
                connected_at: Some(now.clone()),
                last_seen: Some(now.clone()),
                agent_version: None,
            },
        );
        done = done + 1;
    }
    proof {
        assert(conn0.subrange(0, conn0.len() as int) =~= conn0);
    }
    let mut k: usize = 0;
    let nsaved = directory.saved_peers.len();
    proof {
        assert(saved0.subrange(0, 0) =~= Seq::<SavedPeer>::empty());
        reveal(Seq::filter);
    }
    while k < nsaved
        invariant
            nsaved == saved0.len(),
            k <= nsaved,
            directory.wf(),
            saved0 == directory.saved_peers@,
            conn0.len() == n0,
            peers@.len() == n0 + unlisted_saved(saved0.subrange(0, k as int), conn0).len(),
            forall|i: int| 0 <= i < n0 ==> shows_connected(#[trigger] peers@[i], conn0[i], *now),
            forall|j: int|
                0 <= j < unlisted_saved(saved0.subrange(0, k as int), conn0).len()
                    ==> shows_saved(
                    #[trigger] peers@[n0 + j],
                    unlisted_saved(saved0.subrange(0, k as int), conn0)[j],
                ),
        decreases nsaved - k,
    {
        let ghost pre = saved0.subrange(0, k as int);
        let sp = &directory.saved_peers[k];
        let mut already = false;
        let mut t: usize = 0;
        while t < peers.len()
            invariant
                t <= peers@.len(),
                saved0 == directory.saved_peers@,
                k < saved0.len(),
                sp == saved0[k as int],
                already == exists|y: int|
                    0 <= y < t && (#[trigger] peers@[y]).id@ == sp.peer_id@,
            decreases peers@.len() - t,
        {
            if peers[t].id.eq(&sp.peer_id) {
                already = true;
                proof {
                    assert((peers@[t as int]).id@ == sp.peer_id@);
                }
                t = peers.len();
            } else {
                t = t + 1;
            }
        }
        // a saved peer already shown is exactly one the node listed: the
        // directory holds each id once, so it cannot be an earlier saved
        // entry
        proof {
            if already && !listed(conn0, sp.peer_id@) {
                let y = choose|y: int| 0 <= y < peers@.len() && (#[trigger] peers@[y]).id@ == sp.peer_id@;
                if y < n0 {
                    assert(shows_connected(peers@[y], conn0[y], *now));
                    assert(conn0[y].peer_id@ == sp.peer_id@);
                } else {
                    let j = y - n0;
                    assert(shows_saved(peers@[n0 + j], unlisted_saved(pre, conn0)[j]));
                    lemma_unlisted_member(pre, conn0, j);
                    let m = choose|m: int|
                        0 <= m < pre.len() && pre[m] == unlisted_saved(pre, conn0)[j];
                    assert(saved0[m] == pre[m]);
                    assert(saved0[m].peer_id@ != saved0[k as int].peer_id@);
                }
            }
            if !already && listed(conn0, sp.peer_id@) {
                let y = choose|y: int| 0 <= y < conn0.len() && (#[trigger] conn0[y]).peer_id@ == sp.peer_id@;
                assert(shows_connected(peers@[y], conn0[y], *now));
                assert((peers@[y]).id@ == sp.peer_id@);
            }
        }
        if !already {
            let mut addrs: Vec<String> = Vec::new();
            let mut a: usize = 0;
            while a < sp.addresses.len()
                invariant
                    a <= sp.addresses@.len(),
                    addrs@ == sp.addresses@.subrange(0, a as int),
                decreases sp.addresses@.len() - a,
            {
                let ghost apre = sp.addresses@.subrange(0, a as int);
                addrs.push(sp.addresses[a].clone());
                proof {
                    assert(sp.addresses@.subrange(0, a as int + 1) =~= apre.push(
                        sp.addresses@[a as int],
                    ));
                }
                a = a + 1;
            }
            proof {
                assert(sp.addresses@.subrange(0, sp.addresses@.len() as int) =~= sp.addresses@);
            }
            peers.push(
                PeerInfo {
                    id: sp.peer_id.clone(),
                    addresses: addrs,
                    connected: false,
                    latency_ms: None,
                    bytes_sent: 0,
                    bytes_received: 0,
                    connected_at: None,
                    last_seen: None,
                    agent_version: None,
                },
            );
        }
        proof {
            reveal(Seq::filter);
            let ext = saved0.subrange(0, k as int + 1);
            assert(ext =~= pre.push(saved0[k as int]));
            assert(ext.drop_last() =~= pre);
        }
        k = k + 1;
    }
    proof {
        assert(saved0.subrange(0, saved0.len() as int) =~= saved0);
    }
    let total: u32 = if peers.len() >= 4294967295 {
        4294967295
    } else {
        peers.len() as u32
    };
    let conn_count: u32 = if n0 >= 4294967295 {
        4294967295
    } else {
        n0 as u32
    };
    PeerList {
        peers,
        stats: PeerStats {
            total_peers: total,
            connected_peers: conn_count,
            bytes_sent_total: 0,
            bytes_received_total: 0,
        },
        local_peer_id,
        local_addresses,
        spr,
    }
}

/// Every record kept by `unlisted_saved` comes from the original saved
/// peers.
proof fn lemma_unlisted_member(
    saved: Seq<SavedPeer>,
    conn: Seq<crate::node_client::PeerInfo>,
    j: int,
)
    requires
        0 <= j < unlisted_saved(saved, conn).len(),
    ensures
        exists|m: int| 0 <= m < saved.len() && saved[m] == unlisted_saved(saved, conn)[j],
    decreases saved.len(),
{
    reveal(Seq::filter);
    if saved.len() > 0 {
        let sub = saved.drop_last();
        if !listed(conn, saved.last().peer_id@) && j == unlisted_saved(saved, conn).len() - 1
            && unlisted_saved(saved, conn)[j] == saved.last() {
            assert(saved[saved.len() - 1] == unlisted_saved(saved, conn)[j]);
        } else {
            lemma_unlisted_member(sub, conn, j);
            let m = choose|m: int| 0 <= m < sub.len() && sub[m] == unlisted_saved(sub, conn)[j];
            assert(saved[m] == unlisted_saved(saved, conn)[j]);
        }
    }
}

} // verus!
