//! The source-side backup notifier's logic: taking the host out of a
//! multi-address and building the trigger call. The notifier's HTTP POST
//! and the peer-connect call live outside the library.

use vstd::prelude::*;
use crate::errors::ArchivistError;
use crate::text::dec_rep;
use crate::ext::str_chars;

verus! {

/// Index of the first occurrence of `c`, or minus one.
pub open spec fn first_idx(s: Seq<char>, c: char) -> int
    decreases s.len(),
{
    if s.len() == 0 {
        -1
    } else if s[0] == c {
        0
    } else {
        let r = first_idx(s.skip(1), c);
        if r == -1 {
            -1
        } else {
            1 + r
        }
    }
}

/// The segments of `s` between occurrences of `c`, in order; leading,
/// trailing and doubled separators yield empty segments, as the standard
/// string split does.
pub open spec fn split_seq(s: Seq<char>, c: char) -> Seq<Seq<char>>
    decreases s.len(),
{
    let i = first_idx(s, c);
    if i < 0 || i >= s.len() {
        seq![s]
    } else {
        seq![s.take(i)] + split_seq(s.skip(i + 1), c)
    }
}

/// The element after the first segment equal to one of three keys that
/// still has a successor.
pub open spec fn first_after(
    parts: Seq<Seq<char>>,
    k1: Seq<char>,
    k2: Seq<char>,
    k3: Seq<char>,
) -> Option<Seq<char>>
    decreases parts.len(),
{
    if parts.len() == 0 {
        None
    } else if (parts[0] == k1 || parts[0] == k2 || parts[0] == k3) && parts.len() >= 2 {
        Some(parts[1])
    } else {
        first_after(parts.skip(1), k1, k2, k3)
    }
}

/// The host a multi-address names: the segment after `ip4` or `ip6`, or
/// failing that the segment after `dns4`, `dns6` or `dns`.
pub open spec fn multiaddr_host(addr: Seq<char>) -> Option<Seq<char>> {
    let parts = split_seq(addr, '/');
    match first_after(parts, "ip4"@, "ip6"@, "ip4"@) {
        Some(ip) => Some(ip),
        None => first_after(parts, "dns4"@, "dns6"@, "dns"@),
    }
}

/// Splits a string on a separator character.
pub fn split_string(s: &String, c: char) -> (r: Vec<String>)
    ensures
        r@.map_values(|x: String| x@) == split_seq(s@, c),
{
    let v = str_chars(s.as_str());
    let r = split_chars(&v, 0, c);
    proof {
        assert(v@.subrange(0, v@.len() as int) =~= s@);
    }
    r
}

/// Splits the characters from position `i` on.
fn split_chars(v: &Vec<char>, i: usize, c: char) -> (r: Vec<String>)
    requires
        i <= v@.len(),
    ensures
        r@.map_values(|x: String| x@) == split_seq(v@.subrange(i as int, v@.len() as int), c),
    decreases v@.len() - i,
{
    let ghost s = v@.subrange(i as int, v@.len() as int);
    let n = v.len();
    match crate::text::find_char(v, c, i) {
        Some(j) => {
            assert(j < n);
            proof {
                lemma_first_idx_at(v@, i as int, j as int, c);
                assert(s.skip(j - i + 1) =~= v@.subrange(j + 1, v@.len() as int));
                assert(s.take(j - i) =~= v@.subrange(i as int, j as int));
            }
            let mut seg: Vec<char> = Vec::new();
            let mut k: usize = i;
            while k < j
                invariant
                    i <= k <= j <= v@.len(),
                    seg@ == v@.subrange(i as int, k as int),
                decreases j - k,
            {
                let ghost pre = v@.subrange(i as int, k as int);
                seg.push(v[k]);
                proof {
                    assert(v@.subrange(i as int, k as int + 1) =~= pre.push(v@[k as int]));
                }
                k = k + 1;
            }
            let head = crate::ext::chars_string(&seg);
            let mut rest = split_chars(v, j + 1, c);
            let ghost restviews = rest@.map_values(|x: String| x@);
            rest.insert(0, head);
            proof {
                assert(rest@.map_values(|x: String| x@) =~= seq![v@.subrange(i as int, j as int)]
                    + restviews);
            }
            rest
        }
        None => {
            proof {
                lemma_first_idx_none(v@, i as int, c);
            }
            let mut seg: Vec<char> = Vec::new();
            let mut k: usize = i;
            while k < v.len()
                invariant
                    i <= k <= v@.len(),
                    seg@ == v@.subrange(i as int, k as int),
                decreases v@.len() - k,
            {
                let ghost pre = v@.subrange(i as int, k as int);
                seg.push(v[k]);
                proof {
                    assert(v@.subrange(i as int, k as int + 1) =~= pre.push(v@[k as int]));
                }
                k = k + 1;
            }
            let head = crate::ext::chars_string(&seg);
            let mut out: Vec<String> = Vec::new();
            out.push(head);
            proof {
                assert(out@.map_values(|x: String| x@) =~= seq![s]);
            }
            out
        }
    }
}

/// When position `j` holds the separator and nothing before it does, the
/// first occurrence in the remaining input is at `j`.
proof fn lemma_first_idx_at(v: Seq<char>, i: int, j: int, c: char)
    requires
        0 <= i <= j < v.len(),
        v[j] == c,
        forall|x: int| i <= x < j ==> v[x] != c,
    ensures
        first_idx(v.subrange(i, v.len() as int), c) == j - i,
    decreases j - i,
{
    let s = v.subrange(i, v.len() as int);
    if i == j {
        assert(s[0] == c);
    } else {
        assert(s[0] == v[i]);
        assert(s.skip(1) =~= v.subrange(i + 1, v.len() as int));
        lemma_first_idx_at(v, i + 1, j, c);
    }
}

/// With no separator in the remaining input there is no first occurrence.
proof fn lemma_first_idx_none(v: Seq<char>, i: int, c: char)
    requires
        0 <= i <= v.len(),
        forall|x: int| i <= x < v.len() ==> v[x] != c,
    ensures
        first_idx(v.subrange(i, v.len() as int), c) == -1,
    decreases v.len() - i,
{
    let s = v.subrange(i, v.len() as int);
    if s.len() > 0 {
        assert(s[0] == v[i]);
        assert(s.skip(1) =~= v.subrange(i + 1, v.len() as int));
        lemma_first_idx_none(v, i + 1, c);
    }
}

/// Finds the segment after the first of three keys that has a successor.
fn scan_after(parts: &Vec<String>, k1: &str, k2: &str, k3: &str) -> (r: Option<String>)
    ensures
        ({
            let views = parts@.map_values(|x: String| x@);
            match r {
                Some(h) => first_after(views, k1@, k2@, k3@) == Some(h@),
                None => first_after(views, k1@, k2@, k3@) is None,
            }
        }),
{
    let ghost views = parts@.map_values(|x: String| x@);
    let n = parts.len();
    let mut i: usize = 0;
    proof {
        assert(views.skip(0) =~= views);
    }
    while i < n
        invariant
            n == parts@.len(),
            i <= n,
            views == parts@.map_values(|x: String| x@),
            first_after(views, k1@, k2@, k3@) == first_after(
                views.skip(i as int),
                k1@,
                k2@,
                k3@,
            ),
        decreases n - i,
    {
        let ghost cur = views.skip(i as int);
        proof {
            assert(cur[0] == views[i as int]);
            assert(cur.skip(1) =~= views.skip(i as int + 1));
        }
        let p = &parts[i];
        if (crate::ext::str_eq(p.as_str(), k1) || crate::ext::str_eq(p.as_str(), k2)
            || crate::ext::str_eq(p.as_str(), k3)) && i + 1 < n {
            let out = parts[i + 1].clone();
            proof {
                assert(cur[1] == views[i as int + 1]);
            }
            return Some(out);
        }
        i = i + 1;
    }
    proof {
        assert(views.skip(n as int) =~= Seq::<Seq<char>>::empty());
    }
    None
}

/// Takes the host out of a multi-address such as
/// `/ip4/203.0.113.50/tcp/8070/p2p/16Uiu2...`: the segment after `ip4` or
/// `ip6`, or after `dns4`, `dns6` or `dns`. Fails when the address names
/// no host that way.
pub fn extract_ip_from_multiaddr(multiaddr: &String) -> (r: Result<String, ArchivistError>)
    ensures
        match r {
            Ok(ip) => multiaddr_host(multiaddr@) == Some(ip@),
            Err(e) => multiaddr_host(multiaddr@) is None && e is ConfigError,
        },
{
    let parts = split_string(multiaddr, '/');
    match scan_after(&parts, "ip4", "ip6", "ip4") {
        Some(ip) => Ok(ip),
        None => match scan_after(&parts, "dns4", "dns6", "dns") {
            Some(host) => Ok(host),
            None => Err(
                ArchivistError::ConfigError(
                    String::from_str("could not extract a host from the multi-address"),
                ),
            ),
        },
    }
}

/// The trigger URL of a backup daemon reachable at this host and port.
pub fn trigger_url(host: &String, trigger_port: u16) -> (r: String)
    ensures
        r@ == "http://"@ + host@ + ":"@ + dec_rep(trigger_port as nat) + "/trigger"@,
{
    let mut out: Vec<char> = Vec::new();
    crate::codec::push_str_chars(&mut out, "http://");
    let h = str_chars(host.as_str());
    let mut i: usize = 0;
    while i < h.len()
        invariant
            i <= h@.len(),
            h@ == host@,
            out@ == "http://"@ + host@.subrange(0, i as int),
        decreases h@.len() - i,
    {
        let ghost pre = out@;
        out.push(h[i]);
        proof {
            assert(host@.subrange(0, i as int + 1) =~= host@.subrange(0, i as int).push(
                host@[i as int],
            ));
            assert(out@ =~= "http://"@ + host@.subrange(0, i as int + 1));
        }
        i = i + 1;
    }
    proof {
        assert(host@.subrange(0, host@.len() as int) =~= host@);
    }
    crate::codec::push_str_chars(&mut out, ":");
    crate::text::push_u64_dec(&mut out, trigger_port as u64);
    crate::codec::push_str_chars(&mut out, "/trigger");
    proof {
        assert(out@ =~= "http://"@ + host@ + ":"@ + dec_rep(trigger_port as nat) + "/trigger"@);
    }
    crate::ext::chars_string(&out)
}

/// Whether an HTTP status acknowledges the trigger: any success status.
pub fn trigger_acknowledged(status: u16) -> (r: bool)
    ensures
        r == (200 <= status && status <= 299),
{
    200 <= status && status <= 299
}

} // verus!
