//! The two steps around the checker: reading the source entries into proxies, and
//! admitting checked proxies into the cache.
use vstd::prelude::*;

use crate::cache::{added, Cache};
use crate::proxies::checker::{found_type, NetCheckType};
use crate::proxies::{has_port, host_bytes, is_fresh, parses, port_value, ProxyType, ProxyV4};

verus! {

/// The texts of the entries.
pub open spec fn texts(entries: Seq<String>) -> Seq<Seq<char>> {
    entries.map_values(|s: String| s@)
}

/// The entries that name a port, in order.
pub open spec fn with_port(entries: Seq<Seq<char>>) -> Seq<Seq<char>>
    decreases entries.len(),
{
    if entries.len() == 0 {
        entries
    } else {
        let kept = with_port(entries.drop_last());
        if has_port(entries.last()) {
            kept.push(entries.last())
        } else {
            kept
        }
    }
}

/// A checked proxy is worth keeping when its type is known and valid.
pub open spec fn usable(proxy_type: ProxyType) -> bool {
    proxy_type != ProxyType::INVALID && proxy_type != ProxyType::UNKNOWN
}

/// Reads every entry into a proxy, leaving out those without a port.
pub fn parse_all(addrs: &Vec<String>) -> (r: Vec<ProxyV4>)
    requires
        forall|i: int| 0 <= i < addrs@.len() ==> parses(#[trigger] addrs@[i]@),
    ensures
        r@.len() == with_port(texts(addrs@)).len(),
        forall|k: int|
            0 <= k < r@.len() ==> {
                let s = #[trigger] with_port(texts(addrs@))[k];
                &&& r@[k].addr@ == host_bytes(s)
                &&& r@[k].port == port_value(s)
                &&& exists|now: u128| is_fresh(r@[k], now)
            },
{
    let mut proxies: Vec<ProxyV4> = Vec::new();
    let mut i: usize = 0;
    let ghost all = texts(addrs@);
    while i < addrs.len()
        invariant
            i <= addrs@.len(),
            all == texts(addrs@),
            forall|j: int| 0 <= j < addrs@.len() ==> parses(#[trigger] addrs@[j]@),
            proxies@.len() == with_port(all.take(i as int)).len(),
            forall|k: int|
                0 <= k < proxies@.len() ==> {
                    let s = #[trigger] with_port(all.take(i as int))[k];
                    &&& proxies@[k].addr@ == host_bytes(s)
                    &&& proxies@[k].port == port_value(s)
                    &&& exists|now: u128| is_fresh(proxies@[k], now)
                },
        decreases addrs@.len() - i,
    {
        let ghost before = with_port(all.take(i as int));
        assert(all.take(i + 1).drop_last() =~= all.take(i as int));
        assert(all.take(i + 1).last() == addrs@[i as int]@);
        match ProxyV4::parse(&addrs[i]) {
            Some(p) => {
                proxies.push(p);
                assert(with_port(all.take(i + 1)) == before.push(addrs@[i as int]@));
            },
            None => {
                assert(with_port(all.take(i + 1)) == before);
            },
        }
        i = i + 1;
    }
    assert(all.take(addrs@.len() as int) =~= all);
    proxies
}

/// Takes in a checked proxy: a usable one is added to the cache and counted.
pub fn admit_checked(cache: &mut Cache, count: i32, proxy: ProxyV4) -> (r: i32)
    requires
        usable(proxy.proxy_type) ==> count < i32::MAX,
    ensures
        final(cache)@ == admitted(old(cache)@, proxy),
        usable(proxy.proxy_type) ==> final(cache)@ == added(old(cache)@, proxy) && r == count + 1,
        !usable(proxy.proxy_type) ==> final(cache)@ == old(cache)@ && r == count,
{
    if proxy.proxy_type != ProxyType::INVALID && proxy.proxy_type != ProxyType::UNKNOWN {
        cache.add(proxy);
        count + 1
    } else {
        count
    }
}

/// Every proxy held is usable.
pub open spec fn all_usable(s: Seq<ProxyV4>) -> bool {
    forall|i: int| 0 <= i < s.len() ==> usable((#[trigger] s[i]).proxy_type)
}

/// The cache after taking in one checked proxy, as `admit_checked` does.
pub open spec fn admitted(s: Seq<ProxyV4>, p: ProxyV4) -> Seq<ProxyV4> {
    if usable(p.proxy_type) {
        added(s, p)
    } else {
        s
    }
}

/// The cache after taking in the checked proxies `ps` in turn, from an empty cache.
pub open spec fn admit_all(ps: Seq<ProxyV4>) -> Seq<ProxyV4>
    decreases ps.len(),
{
    if ps.len() == 0 {
        Seq::<ProxyV4>::empty()
    } else {
        admitted(admit_all(ps.drop_last()), ps.last())
    }
}

/// Taking in one checked proxy keeps a cache of usable proxies usable.
pub proof fn lemma_admit_keeps_usable(s: Seq<ProxyV4>, p: ProxyV4)
    requires
        all_usable(s),
    ensures
        all_usable(admitted(s, p)),
{
    if usable(p.proxy_type) && !s.contains(p) {
        let t = seq![p] + s;
        assert forall|i: int| 0 <= i < t.len() implies usable((#[trigger] t[i]).proxy_type) by {
            if i > 0 {
                assert(t[i] == s[i - 1]);
            }
        }
    }
}

/// Taking in checked proxies one by one, from an empty cache, the cache only ever holds
/// usable proxies, and each usable proxy taken in is held.
pub proof fn lemma_admit_all(ps: Seq<ProxyV4>)
    ensures
        all_usable(admit_all(ps)),
        forall|i: int|
            0 <= i < ps.len() && usable((#[trigger] ps[i]).proxy_type) ==> admit_all(ps).contains(
                ps[i],
            ),
    decreases ps.len(),
{
    if ps.len() > 0 {
        let prev = ps.drop_last();
        lemma_admit_all(prev);
        lemma_admit_keeps_usable(admit_all(prev), ps.last());
        let s = admit_all(prev);
        let p = ps.last();
        assert forall|i: int|
            0 <= i < ps.len() && usable((#[trigger] ps[i]).proxy_type) implies admit_all(ps).contains(
                ps[i],
            ) by {
            if i < ps.len() - 1 {
                assert(ps[i] == prev[i]);
                assert(s.contains(ps[i]));
                if usable(p.proxy_type) && !s.contains(p) {
                    let k = choose|k: int| 0 <= k < s.len() && s[k] == ps[i];
                    assert((seq![p] + s)[k + 1] == ps[i]);
                }
            } else {
                if !s.contains(p) {
                    assert((seq![p] + s)[0] == p);
                }
            }
        }
    }
}

/// A checked proxy is taken in exactly when its type is one of the four protocols: HTTP,
/// HTTPS, SOCKS4 and SOCKS5 proxies are admitted, unknown and invalid ones are not; every
/// type a successful network check records is admitted.
pub proof fn lemma_usable_types(t: ProxyType, check_type: NetCheckType)
    ensures
        usable(t) <==> (t == ProxyType::HTTP || t == ProxyType::HTTPS || t == ProxyType::SOCKS4
            || t == ProxyType::SOCKS5),
        usable(found_type(check_type)),
{
}

/// Taking in a proxy of one of the four protocols adds it to the cache (where it was not
/// held) and raises the count by one; taking in one of unknown or invalid type changes
/// neither.
pub proof fn lemma_admit_protocol(s: Seq<ProxyV4>, p: ProxyV4)
    ensures
        (p.proxy_type == ProxyType::HTTP || p.proxy_type == ProxyType::HTTPS || p.proxy_type
            == ProxyType::SOCKS4 || p.proxy_type == ProxyType::SOCKS5) ==> admitted(s, p).contains(p)
            && (!s.contains(p) ==> admitted(s, p) == seq![p] + s),
        (p.proxy_type == ProxyType::UNKNOWN || p.proxy_type == ProxyType::INVALID) ==> admitted(
            s,
            p,
        ) == s,
{
    if usable(p.proxy_type) && !s.contains(p) {
        assert((seq![p] + s)[0] == p);
    }
}

} // verus!
