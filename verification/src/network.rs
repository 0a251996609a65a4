//! Ports of the local services and ranking of LAN interfaces.

use vstd::prelude::*;
use crate::text::{chars_of, contains, contains_seq, decimal, decimal_string, concat};

verus! {

/// Port of the HTTP server serving viewers and MJPEG streams.
pub const HTTP_PORT: u16 = 8080;
/// Port on which MediaMTX accepts RTMP publishers.
pub const MEDIAMTX_RTMP_PORT: u16 = 1935;
/// Port of MediaMTX's WebRTC player.
pub const MEDIAMTX_WEBRTC_PORT: u16 = 8889;

/// A network interface offered to players, with its rank.
#[derive(Clone, Debug)]
pub struct NetInterface {
    pub name: String,
    pub ip: String,
    pub score: i32,
}

/// Interfaces (best first) and the ports viewers connect to.
#[derive(Clone, Debug)]
pub struct ServerInfo {
    pub interfaces: Vec<NetInterface>,
    pub port: u16,
    pub webrtc_port: u16,
}

/// Unicode lowercase mapping of a text (`str::to_lowercase`).
pub uninterp spec fn lowercase(s: Seq<char>) -> Seq<char>;

/// `str::to_lowercase`.
/// Trusted: the result is the Unicode lowercase mapping of the argument,
/// a function of the argument alone; its tables are not restated here.
#[verifier::external_body]
fn to_lowercase(s: &str) -> (r: String)
    ensures
        r@ == lowercase(s@),
{
    s.to_lowercase()
}

/// Name fragments of virtual, loopback or tunnel adapters.
pub open spec fn virtual_keywords() -> Seq<Seq<char>> {
    seq![
        "vethernet"@, "vmware"@, "virtualbox"@, "wsl"@, "hyper-v"@, "loopback"@, "bluetooth"@,
        "tap"@, "tun"@, "docker"@, "tailscale"@, "zerotier"@,
    ]
}

/// Name fragments of physical LAN adapters.
pub open spec fn lan_keywords() -> Seq<Seq<char>> {
    seq!["wi-fi"@, "wifi"@, "ethernet"@, "wlan"@, "eth"@]
}

/// How many of the keywords occur in a text.
pub open spec fn hits(text: Seq<char>, kws: Seq<Seq<char>>) -> int
    decreases kws.len(),
{
    if kws.len() == 0 {
        0
    } else {
        hits(text, kws.drop_last()) + if contains_seq(text, kws.last()) { 1int } else { 0int }
    }
}

/// Bonus of a private address range: 192.168/16 beats 10/8 beats 172.16/12.
pub open spec fn range_bonus(octets: Seq<u8>) -> int {
    if octets[0] == 192 && octets[1] == 168 {
        30
    } else if octets[0] == 10 {
        20
    } else if octets[0] == 172 && 16 <= octets[1] <= 31 {
        5
    } else {
        0
    }
}

/// Rank of an interface from its lowercased name and IPv4 octets: -100 per
/// virtual-adapter keyword, +50 per LAN keyword, plus the private-range bonus.
pub open spec fn interface_score(lower_name: Seq<char>, octets: Seq<u8>) -> int {
    -100 * hits(lower_name, virtual_keywords()) + 50 * hits(lower_name, lan_keywords())
        + range_bonus(octets)
}

/// The ranking rules: every virtual, loopback or tunnel adapter keyword
/// found in the lowercased name costs 100 points, every physical LAN
/// keyword earns 50, and the address adds 30 for 192.168/16, 20 for 10/8
/// and 5 for 172.16/12. So an adapter named after a hypervisor drops below
/// a plain Wi-Fi or Ethernet one of the same range.
pub proof fn lemma_score_rules(lower_name: Seq<char>, octets: Seq<u8>)
    requires
        octets.len() == 4,
    ensures
        interface_score(lower_name, octets) == -100 * hits(
            lower_name,
            seq![
                "vethernet"@,
                "vmware"@,
                "virtualbox"@,
                "wsl"@,
                "hyper-v"@,
                "loopback"@,
                "bluetooth"@,
                "tap"@,
                "tun"@,
                "docker"@,
                "tailscale"@,
                "zerotier"@,
            ],
        ) + 50 * hits(lower_name, seq!["wi-fi"@, "wifi"@, "ethernet"@, "wlan"@, "eth"@]) + (if octets[0]
            == 192 && octets[1] == 168 {
            30int
        } else if octets[0] == 10 {
            20int
        } else if octets[0] == 172 && 16 <= octets[1] <= 31 {
            5int
        } else {
            0int
        }),
{
}

proof fn lemma_hits_bounds(text: Seq<char>, kws: Seq<Seq<char>>)
    ensures
        0 <= hits(text, kws) <= kws.len(),
    decreases kws.len(),
{
    if kws.len() > 0 {
        lemma_hits_bounds(text, kws.drop_last());
    }
}

fn count_hits(text: &[char], kws: &[&str]) -> (n: i32)
    requires
        kws@.len() <= 100,
    ensures
        n == hits(text@, kws@.map_values(|k: &str| k@)),
{
    let ghost all = kws@.map_values(|k: &str| k@);
    let mut n: i32 = 0;
    for i in 0..kws.len()
        invariant
            kws@.len() <= 100,
            all == kws@.map_values(|k: &str| k@),
            n == hits(text@, all.take(i as int)),
    {
        let kw = chars_of(kws[i]);
        proof {
            lemma_hits_bounds(text@, all.take(i as int));
            assert(all.take(i + 1).drop_last() =~= all.take(i as int));
        }
        if contains(text, kw.as_slice()) {
            n = n + 1;
        }
    }
    assert(all.take(kws@.len() as int) =~= all);
    n
}

/// Rank of an interface given its already lowercased name.
pub fn score_lowered(lower_name: &[char], octets: [u8; 4]) -> (score: i32)
    ensures
        score == interface_score(lower_name@, octets@),
{
    let bad_kws = ["vethernet", "vmware", "virtualbox", "wsl", "hyper-v", "loopback", "bluetooth",
        "tap", "tun", "docker", "tailscale", "zerotier"];
    let good_kws = ["wi-fi", "wifi", "ethernet", "wlan", "eth"];
    assert(bad_kws@.map_values(|k: &str| k@) =~= virtual_keywords());
    assert(good_kws@.map_values(|k: &str| k@) =~= lan_keywords());
    let bad = count_hits(lower_name, &bad_kws);
    let good = count_hits(lower_name, &good_kws);
    proof {
        lemma_hits_bounds(lower_name@, virtual_keywords());
        lemma_hits_bounds(lower_name@, lan_keywords());
    }
    let bonus: i32 = if octets[0] == 192 && octets[1] == 168 {
        30
    } else if octets[0] == 10 {
        20
    } else if octets[0] == 172 && 16 <= octets[1] && octets[1] <= 31 {
        5
    } else {
        0
    };
    -100 * bad + 50 * good + bonus
}

/// Ranks an interface by its name and IPv4 address: physical LAN adapters
/// and home ranges first, virtual adapters last.
pub fn score_interface(name: &str, octets: [u8; 4]) -> (score: i32)
    ensures
        score == interface_score(lowercase(name@), octets@),
{
    let lower = to_lowercase(name);
    let cs = chars_of(lower.as_str());
    score_lowered(cs.as_slice(), octets)
}

/// Address of an interface as the host reports it.
#[derive(Clone, Copy, Debug)]
pub enum IfaceAddr {
    /// An IPv4 address, by octets.
    V4([u8; 4]),
    /// Any other address family (IPv6).
    Other,
}

/// 127.0.0.0/8.
pub open spec fn is_loopback(o: Seq<u8>) -> bool {
    o[0] == 127
}

/// 169.254.0.0/16.
pub open spec fn is_link_local(o: Seq<u8>) -> bool {
    o[0] == 169 && o[1] == 254
}

/// Dotted-decimal text of an IPv4 address.
pub open spec fn ipv4_text(o: Seq<u8>) -> Seq<char> {
    decimal(o[0] as nat) + "."@ + decimal(o[1] as nat) + "."@ + decimal(o[2] as nat) + "."@
        + decimal(o[3] as nat)
}

/// Dotted-decimal text of an IPv4 address.
pub fn ipv4_string(o: [u8; 4]) -> (s: String)
    ensures
        s@ == ipv4_text(o@),
{
    let mut s = decimal_string(o[0] as u64);
    s.append(".");
    s.append(decimal_string(o[1] as u64).as_str());
    s.append(".");
    s.append(decimal_string(o[2] as u64).as_str());
    s.append(".");
    s.append(decimal_string(o[3] as u64).as_str());
    s
}

/// The interface offered for a host-reported (name, address) pair: IPv4
/// addresses other than loopback and link-local, ranked.
pub open spec fn offered(name: Seq<char>, addr: IfaceAddr, n: NetInterface) -> bool {
    match addr {
        IfaceAddr::V4(o) => n.name@ == name && n.ip@ == ipv4_text(o@) && n.score == interface_score(
            lowercase(name),
            o@,
        ),
        IfaceAddr::Other => false,
    }
}

/// The pair is kept: an IPv4 address, neither loopback nor link-local.
pub open spec fn kept(addr: IfaceAddr) -> bool {
    match addr {
        IfaceAddr::V4(o) => !is_loopback(o@) && !is_link_local(o@),
        IfaceAddr::Other => false,
    }
}

/// `out` is a permutation of `src` given by `order` (an injective map from
/// positions of `out` to positions of `src`, as many of each), best score first, and entries
/// of equal score in their order in `src`.
pub open spec fn stable_by_score_desc(src: Seq<NetInterface>, out: Seq<NetInterface>, order: Seq<int>) -> bool {
    &&& out.len() == src.len()
    &&& order.len() == out.len()
    &&& forall|k: int| 0 <= k < out.len() ==> 0 <= #[trigger] order[k] < src.len() && out[k] == src[order[k]]
    &&& forall|a: int, b: int| 0 <= a < b < out.len() ==> #[trigger] order[a] != #[trigger] order[b]
    &&& forall|a: int, b: int| 0 <= a < b < out.len() ==> #[trigger] out[a].score >= #[trigger] out[b].score
    &&& forall|a: int, b: int|
        0 <= a < b < out.len() && #[trigger] out[a].score == #[trigger] out[b].score ==> order[a] < order[b]
}

/// Sorts interfaces by descending score, keeping the input order among
/// equal scores (a stable sort).
pub fn sort_by_score_desc(v: Vec<NetInterface>) -> (out: Vec<NetInterface>)
    ensures
        out@.len() == v@.len(),
        exists|order: Seq<int>| stable_by_score_desc(v@, out@, order),
{
    let ghost src = v@;
    let n = v.len();
    let mut v = v;
    let mut out: Vec<NetInterface> = Vec::new();
    let ghost mut order: Seq<int> = Seq::empty();
    // Take the elements from the last to the first; each goes before every
    // element of lower or equal score, so equal scores keep input order.
    while v.len() > 0
        invariant
            n == src.len(),
            v@.len() <= n,
            v@ == src.take(v@.len() as int),
            out@.len() == n - v@.len(),
            order.len() == out@.len(),
            forall|k: int| 0 <= k < out@.len() ==> v@.len() <= #[trigger] order[k] < n && out@[k] == src[order[k]],
            forall|a: int, b: int| 0 <= a < b < out@.len() ==> #[trigger] order[a] != #[trigger] order[b],
            forall|a: int, b: int| 0 <= a < b < out@.len() ==> #[trigger] out@[a].score >= #[trigger] out@[b].score,
            forall|a: int, b: int|
                0 <= a < b < out@.len() && #[trigger] out@[a].score == #[trigger] out@[b].score ==> order[a] < order[b],
        decreases v@.len(),
    {
        let ghost j = v@.len() - 1;
        let x = match v.pop() {
            Some(x) => x,
            None => {
                return out;
            },
        };
        assert(x == src[j]);
        assert(v@ =~= src.take(j));
        let mut p: usize = 0;
        while p < out.len() && out[p].score > x.score
            invariant
                p <= out@.len(),
                forall|k: int| 0 <= k < p ==> out@[k].score > x.score,
            decreases out@.len() - p,
        {
            p = p + 1;
        }
        let ghost old_out = out@;
        let ghost old_order = order;
        proof {
            assert forall|k: int| p <= k < old_out.len() implies old_out[k].score <= x.score by {
                if k > p {
                    assert(old_out[p as int].score >= old_out[k].score);
                }
            }
        }
        out.insert(p, x);
        proof {
            order = order.insert(p as int, j);
        }
        assert forall|k: int| 0 <= k < out@.len() implies v@.len() <= #[trigger] order[k] < n
            && out@[k] == src[order[k]] by {
            if k < p {
                assert(order[k] == old_order[k]);
            } else if k > p {
                assert(order[k] == old_order[k - 1]);
            }
        }
        assert forall|a: int, b: int| 0 <= a < b < out@.len() implies #[trigger] order[a]
            != #[trigger] order[b] by {
            if a != p && b != p {
                let a0 = if a < p { a } else { a - 1 };
                let b0 = if b < p { b } else { b - 1 };
                assert(order[a] == old_order[a0]);
                assert(order[b] == old_order[b0]);
            } else if a == p {
                assert(order[b] == old_order[b - 1]);
            } else {
                assert(order[a] == old_order[a]);
            }
        }
        assert forall|a: int, b: int| 0 <= a < b < out@.len() implies #[trigger] out@[a].score
            >= #[trigger] out@[b].score by {
            if a != p && b != p {
                let a0 = if a < p { a } else { a - 1 };
                let b0 = if b < p { b } else { b - 1 };
                assert(out@[a] == old_out[a0]);
                assert(out@[b] == old_out[b0]);
            } else if a == p {
                assert(out@[b] == old_out[b - 1]);
            } else {
                assert(out@[a] == old_out[a]);
            }
        }
        assert forall|a: int, b: int|
            0 <= a < b < out@.len() && #[trigger] out@[a].score == #[trigger] out@[b].score implies order[a]
                < order[b] by {
            if a != p && b != p {
                let a0 = if a < p { a } else { a - 1 };
                let b0 = if b < p { b } else { b - 1 };
                assert(out@[a] == old_out[a0]);
                assert(out@[b] == old_out[b0]);
                assert(order[a] == old_order[a0]);
                assert(order[b] == old_order[b0]);
            } else if a == p {
                assert(out@[b] == old_out[b - 1]);
                assert(order[b] == old_order[b - 1]);
            } else {
                assert(out@[a] == old_out[a]);
            }
        }
    }
    assert(stable_by_score_desc(src, out@, order));
    out
}

/// The host-reported pairs that are kept, in order.
pub open spec fn kept_pairs(src: Seq<(String, IfaceAddr)>) -> Seq<(String, IfaceAddr)>
    decreases src.len(),
{
    if src.len() == 0 {
        Seq::empty()
    } else {
        let before = kept_pairs(src.drop_last());
        if kept(src.last().1) { before.push(src.last()) } else { before }
    }
}

/// Only IPv4 addresses that are neither loopback nor link-local are ever
/// offered, and every such address is.
pub proof fn lemma_only_reachable_addresses(src: Seq<(String, IfaceAddr)>)
    ensures
        forall|i: int| 0 <= i < kept_pairs(src).len() ==> kept(#[trigger] kept_pairs(src)[i].1),
        forall|i: int| 0 <= i < src.len() && kept(#[trigger] src[i].1) ==> kept_pairs(src).contains(src[i]),
    decreases src.len(),
{
    if src.len() > 0 {
        let rest = src.drop_last();
        lemma_only_reachable_addresses(rest);
        assert forall|i: int| 0 <= i < src.len() && kept(#[trigger] src[i].1) implies kept_pairs(src).contains(
            src[i],
        ) by {
            if i < src.len() - 1 {
                assert(rest[i] == src[i]);
                let j = choose|j: int| 0 <= j < kept_pairs(rest).len() && kept_pairs(rest)[j] == src[i];
                assert(kept_pairs(src)[j] == src[i]);
            } else {
                assert(kept_pairs(src).last() == src[i]);
            }
        }
    }
}

/// `mid` holds the interface offered for each kept pair, in order.
pub open spec fn offers(src: Seq<(String, IfaceAddr)>, mid: Seq<NetInterface>) -> bool {
    let k = kept_pairs(src);
    &&& mid.len() == k.len()
    &&& forall|i: int| 0 <= i < k.len() ==> offered(k[i].0@, k[i].1, #[trigger] mid[i])
}

/// Builds the server info from the host's (interface name, address) pairs:
/// IPv4 interfaces other than loopback and link-local, ranked best first
/// (equal ranks in host order), with the HTTP and WebRTC ports.
pub fn server_info_from(netifas: Vec<(String, IfaceAddr)>) -> (info: ServerInfo)
    ensures
        info.port == HTTP_PORT,
        info.webrtc_port == MEDIAMTX_WEBRTC_PORT,
        info.interfaces@.len() == kept_pairs(netifas@).len(),
        exists|mid: Seq<NetInterface>, order: Seq<int>|
            #![trigger offers(netifas@, mid), stable_by_score_desc(mid, info.interfaces@, order)]
            offers(netifas@, mid) && stable_by_score_desc(mid, info.interfaces@, order),
{
    let mut mid: Vec<NetInterface> = Vec::new();
    for i in 0..netifas.len()
        invariant
            offers(netifas@.take(i as int), mid@),
    {
        let ghost before = mid@;
        proof {
            assert(netifas@.take(i + 1).drop_last() =~= netifas@.take(i as int));
            assert(netifas@.take(i + 1).last() == netifas@[i as int]);
        }
        match netifas[i].1 {
            IfaceAddr::V4(o) => {
                if !(o[0] == 127) && !(o[0] == 169 && o[1] == 254) {
                    let name = netifas[i].0.clone();
                    let score = score_interface(name.as_str(), o);
                    mid.push(NetInterface { name, ip: ipv4_string(o), score });
                    assert(offers(netifas@.take(i + 1), mid@)) by {
                        let k = kept_pairs(netifas@.take(i + 1));
                        assert forall|j: int| 0 <= j < k.len() implies offered(k[j].0@, k[j].1, #[trigger] mid@[j]) by {
                            if j < before.len() {
                                assert(mid@[j] == before[j]);
                            }
                        }
                    }
                }
            },
            IfaceAddr::Other => {},
        }
    }
    assert(netifas@.take(netifas@.len() as int) =~= netifas@);
    let ghost m = mid@;
    let interfaces = sort_by_score_desc(mid);
    let info = ServerInfo { interfaces, port: HTTP_PORT, webrtc_port: MEDIAMTX_WEBRTC_PORT };
    proof {
        let order = choose|order: Seq<int>| stable_by_score_desc(m, info.interfaces@, order);
        assert(offers(netifas@, m));
        assert(stable_by_score_desc(m, info.interfaces@, order));
    }
    info
}

} // verus!
