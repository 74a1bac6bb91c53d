//! The decisions of a proxy check: which protocols to try and in what order, which URI each
//! attempt goes through, and what an answer writes into the proxy.
//!
//! The requests themselves are made by the caller, which hands the outcome of each back.
use vstd::prelude::*;

use super::{ProxyAnonymity, ProxyType, ProxyV4};

verus! {

/// The body of the transparency service's answer.
pub struct NamingInProgressResponse {
    pub at: u64,
    pub level: ProxyAnonymity,
}

/// A protocol that a network check tries.
#[derive(Debug, Clone, Copy, PartialEq, Eq, Structural)]
pub enum NetCheckType {
    Socks5,
    Socks4,
    Https,
    Http,
}

/// Where a proxy's check stands.
#[derive(Debug, Clone, Copy, PartialEq, Eq, Structural)]
pub enum CheckStep {
    /// Try the proxy with this protocol.
    Net(NetCheckType),
    /// Try to reach Google through the proxy.
    Google,
    /// The check is over.
    Done,
}

/// The protocol under which the check of `check_type` builds its proxy URI.
/// HTTP and HTTPS trade places here.
pub open spec fn net_uri_type(check_type: NetCheckType) -> ProxyType {
    match check_type {
        NetCheckType::Https => ProxyType::HTTP,
        NetCheckType::Http => ProxyType::HTTPS,
        NetCheckType::Socks4 => ProxyType::SOCKS4,
        NetCheckType::Socks5 => ProxyType::SOCKS5,
    }
}

/// The type a proxy is given when the check of `check_type` succeeds.
pub open spec fn found_type(check_type: NetCheckType) -> ProxyType {
    match check_type {
        NetCheckType::Socks5 => ProxyType::SOCKS5,
        NetCheckType::Socks4 => ProxyType::SOCKS4,
        NetCheckType::Https => ProxyType::HTTPS,
        NetCheckType::Http => ProxyType::HTTP,
    }
}

/// The protocols in the order the network checks try them.
pub open spec fn net_order(i: int) -> NetCheckType {
    if i == 0 {
        NetCheckType::Http
    } else if i == 1 {
        NetCheckType::Https
    } else if i == 2 {
        NetCheckType::Socks4
    } else {
        NetCheckType::Socks5
    }
}

/// The step after `step`, given whether its request succeeded.
pub open spec fn following_step(step: CheckStep, succeeded: bool) -> CheckStep {
    match step {
        CheckStep::Net(t) => if succeeded {
            CheckStep::Google
        } else {
            match t {
                NetCheckType::Http => CheckStep::Net(NetCheckType::Https),
                NetCheckType::Https => CheckStep::Net(NetCheckType::Socks4),
                NetCheckType::Socks4 => CheckStep::Net(NetCheckType::Socks5),
                NetCheckType::Socks5 => CheckStep::Google,
            }
        },
        CheckStep::Google => CheckStep::Done,
        CheckStep::Done => CheckStep::Done,
    }
}

/// The step reached from the first one after `k` failed network checks.
pub open spec fn after_failures(k: nat) -> CheckStep
    decreases k,
{
    if k == 0 {
        CheckStep::Net(NetCheckType::Http)
    } else {
        following_step(after_failures((k - 1) as nat), false)
    }
}

/// The protocol under which Google is tried through a proxy of the given type; none for
/// a proxy whose type is not known.
pub open spec fn google_uri_type(proxy_type: ProxyType) -> Option<ProxyType> {
    match proxy_type {
        ProxyType::HTTP => Some(ProxyType::HTTP),
        ProxyType::HTTPS => Some(ProxyType::HTTPS),
        ProxyType::SOCKS4 => Some(ProxyType::SOCKS4),
        ProxyType::SOCKS5 => Some(ProxyType::SOCKS5),
        _ => None,
    }
}

/// Whether an HTTP status counts as reaching Google: a success status other than 409.
pub open spec fn google_reached(status: u16) -> bool {
    200 <= status <= 299 && status != 409
}

/// A check begins by trying HTTP.
pub fn first_step() -> (r: CheckStep)
    ensures
        r == CheckStep::Net(NetCheckType::Http),
{
    CheckStep::Net(NetCheckType::Http)
}

/// The step after `step`: a network check that succeeded leads to the Google check, one that
/// failed to the next protocol (after SOCKS5, to the Google check); the Google check ends it.
pub fn next_step(step: CheckStep, succeeded: bool) -> (r: CheckStep)
    ensures
        r == following_step(step, succeeded),
{
    match step {
        CheckStep::Net(t) => {
            if succeeded {
                CheckStep::Google
            } else {
                match t {
                    NetCheckType::Http => CheckStep::Net(NetCheckType::Https),
                    NetCheckType::Https => CheckStep::Net(NetCheckType::Socks4),
                    NetCheckType::Socks4 => CheckStep::Net(NetCheckType::Socks5),
                    NetCheckType::Socks5 => CheckStep::Google,
                }
            }
        },
        CheckStep::Google => CheckStep::Done,
        CheckStep::Done => CheckStep::Done,
    }
}

/// The URI of the proxy that the network check of `check_type` goes through.
pub fn net_proxy_uri(proxy: &ProxyV4, check_type: NetCheckType) -> (r: String)
    ensures
        r@ == proxy.uri_text(net_uri_type(check_type)),
{
    match check_type {
        NetCheckType::Https => proxy.uri(ProxyType::HTTP),
        NetCheckType::Http => proxy.uri(ProxyType::HTTPS),
        NetCheckType::Socks4 => proxy.uri(ProxyType::SOCKS4),
        NetCheckType::Socks5 => proxy.uri(ProxyType::SOCKS5),
    }
}

/// The type a proxy is given when the check of `check_type` succeeds.
pub fn checked_type(check_type: NetCheckType) -> (r: ProxyType)
    ensures
        r == found_type(check_type),
{
    match check_type {
        NetCheckType::Socks5 => ProxyType::SOCKS5,
        NetCheckType::Socks4 => ProxyType::SOCKS4,
        NetCheckType::Https => ProxyType::HTTPS,
        NetCheckType::Http => ProxyType::HTTP,
    }
}

/// Writes a successful network check into the proxy: the request went out at `then`, the
/// clock read `checked_at` when the answer `body` had been read and `answered_at` just
/// after, and `server_ping` is the service's own round trip.
pub fn record_net_check(
    proxy: &mut ProxyV4,
    check_type: NetCheckType,
    body: &NamingInProgressResponse,
    then: u128,
    checked_at: u128,
    answered_at: u128,
    server_ping: u128,
)
    requires
        then <= answered_at,
        answered_at - then >= server_ping,
    ensures
        final(proxy).last_checked == checked_at,
        final(proxy).anonymity == body.level,
        final(proxy).ping == answered_at - then - server_ping,
        final(proxy).proxy_type == found_type(check_type),
        final(proxy).addr == old(proxy).addr,
        final(proxy).port == old(proxy).port,
        final(proxy).found_at == old(proxy).found_at,
        final(proxy).google == old(proxy).google,
{
    proxy.last_checked = checked_at;
    proxy.anonymity = body.level;
    proxy.ping = answered_at - then - server_ping;
    proxy.proxy_type = checked_type(check_type);
}

/// The URI of the proxy through which Google is tried, by the proxy's type; `None` for a
/// proxy whose type is not known, which is not tried.
pub fn google_proxy_uri(proxy: &ProxyV4) -> (r: Option<String>)
    ensures
        match google_uri_type(proxy.proxy_type) {
            Some(t) => r matches Some(u) && u@ == proxy.uri_text(t),
            None => r is None,
        },
{
    match proxy.proxy_type {
        ProxyType::HTTP => Some(proxy.uri(ProxyType::HTTP)),
        ProxyType::HTTPS => Some(proxy.uri(ProxyType::HTTPS)),
        ProxyType::SOCKS4 => Some(proxy.uri(ProxyType::SOCKS4)),
        ProxyType::SOCKS5 => Some(proxy.uri(ProxyType::SOCKS5)),
        _ => None,
    }
}

/// Writes the answer of the Google check, of HTTP status `status` at `now`, into the proxy.
pub fn record_google_check(proxy: &mut ProxyV4, status: u16, now: u128)
    ensures
        google_reached(status) ==> final(proxy).google && final(proxy).last_checked == now,
        google_reached(status) ==> final(proxy).addr == old(proxy).addr && final(proxy).port
            == old(proxy).port && final(proxy).found_at == old(proxy).found_at
            && final(proxy).proxy_type == old(proxy).proxy_type && final(proxy).anonymity
            == old(proxy).anonymity && final(proxy).ping == old(proxy).ping,
        !google_reached(status) ==> *final(proxy) == *old(proxy),
{
    if status >= 200 && status <= 299 && status != 409 {
        proxy.last_checked = now;
        proxy.google = true;
    }
}

/// The round trip to the transparency service, measured from `then` to `now`, or 250 where
/// the service could not be reached.
pub fn ping_offset(reached: bool, then: u128, now: u128) -> (r: u128)
    requires
        reached ==> then <= now,
    ensures
        r == if reached {
            now - then
        } else {
            250
        },
{
    if reached {
        now - then
    } else {
        250
    }
}

/// Failed network checks try HTTP, HTTPS, SOCKS4 and SOCKS5 in this order, and after the
/// fourth failure the check goes on to Google.
pub proof fn lemma_check_order(k: nat)
    requires
        k <= 4,
    ensures
        after_failures(k) == if k < 4 {
            CheckStep::Net(net_order(k as int))
        } else {
            CheckStep::Google
        },
    decreases k,
{
    if k > 0 {
        lemma_check_order((k - 1) as nat);
    }
}

/// A network check that succeeds goes on to the Google check, whatever the protocol, and
/// the Google check ends the check whatever its outcome.
pub proof fn lemma_success_goes_to_google(t: NetCheckType, outcome: bool)
    ensures
        following_step(CheckStep::Net(t), true) == CheckStep::Google,
        following_step(CheckStep::Google, outcome) == CheckStep::Done,
        following_step(CheckStep::Done, outcome) == CheckStep::Done,
{
}

/// A successful network check records the protocol it checked: HTTP for the HTTP check,
/// HTTPS for HTTPS, SOCKS4 for SOCKS4 and SOCKS5 for SOCKS5. Different checks record
/// different types, and none records a type that is unknown or invalid.
pub proof fn lemma_found_type_names_the_check(a: NetCheckType, b: NetCheckType)
    ensures
        found_type(NetCheckType::Http) == ProxyType::HTTP,
        found_type(NetCheckType::Https) == ProxyType::HTTPS,
        found_type(NetCheckType::Socks4) == ProxyType::SOCKS4,
        found_type(NetCheckType::Socks5) == ProxyType::SOCKS5,
        a != b ==> found_type(a) != found_type(b),
        found_type(a) != ProxyType::UNKNOWN && found_type(a) != ProxyType::INVALID,
{
}

/// A proxy of a known type is tried against Google through the URI of that same type;
/// one of unknown or invalid type is not tried.
pub proof fn lemma_google_uses_own_type(t: ProxyType)
    ensures
        (t == ProxyType::HTTP || t == ProxyType::HTTPS || t == ProxyType::SOCKS4 || t
            == ProxyType::SOCKS5) ==> google_uri_type(t) == Some(t),
        (t == ProxyType::UNKNOWN || t == ProxyType::INVALID) ==> google_uri_type(t) is None,
{
}

/// After a successful network check, the Google check goes through the URI of the type the
/// network check recorded.
pub proof fn lemma_google_after_net_check(check_type: NetCheckType)
    ensures
        google_uri_type(found_type(check_type)) == Some(found_type(check_type)),
{
}

} // verus!
