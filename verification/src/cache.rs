//! The cache of working proxies: a queue that new proxies join at the front and that
//! hands proxies out from the back.
use std::collections::VecDeque;

use vstd::prelude::*;

use crate::proxies::ProxyV4;

verus! {

/// The proxies held, newest first. A proxy is held at most once.
pub struct Cache {
    pub inner: VecDeque<ProxyV4>,
}

impl View for Cache {
    type V = Seq<ProxyV4>;

    open spec fn view(&self) -> Seq<ProxyV4> {
        self.inner@
    }
}

/// No proxy is held twice.
pub open spec fn distinct(s: Seq<ProxyV4>) -> bool {
    forall|i: int, j: int| 0 <= i < j < s.len() ==> s[i] != s[j]
}

/// The contents after adding `p`: unchanged when `p` is held, else `p` in front.
pub open spec fn added(s: Seq<ProxyV4>, p: ProxyV4) -> Seq<ProxyV4> {
    if s.contains(p) {
        s
    } else {
        seq![p] + s
    }
}

/// The first `amount` proxies, or all of them where fewer are held.
pub open spec fn requested(s: Seq<ProxyV4>, amount: usize) -> Seq<ProxyV4> {
    if amount < s.len() {
        s.take(amount as int)
    } else {
        s
    }
}

/// The proxies at positions `draws[i]` modulo the number held.
pub open spec fn picked(s: Seq<ProxyV4>, draws: Seq<usize>) -> Seq<ProxyV4> {
    draws.map_values(|d: usize| s[d as int % s.len() as int])
}

/// Calls `rand::random::<usize>()`, a value drawn from the thread's random number
/// generator; any `usize` may come back, so nothing is stated of it.
#[verifier::external_body]
fn random_usize() -> usize {
    rand::random::<usize>()
}

/// Two proxies are the same value, field by field.
fn same_proxy(a: &ProxyV4, b: &ProxyV4) -> (r: bool)
    ensures
        r == (*a == *b),
{
    let same_addr = a.addr[0] == b.addr[0] && a.addr[1] == b.addr[1] && a.addr[2] == b.addr[2]
        && a.addr[3] == b.addr[3];
    if same_addr {
        assert(a.addr@ =~= b.addr@);
        proof {
            vstd::array::axiom_array_ext_equal(a.addr, b.addr);
        }
    }
    same_addr && a.port == b.port && a.found_at == b.found_at && a.last_checked == b.last_checked
        && a.proxy_type == b.proxy_type && a.anonymity == b.anonymity && a.google == b.google
        && a.ping == b.ping
}

impl Cache {
    /// An empty cache.
    pub fn new() -> (r: Self)
        ensures
            r@ == Seq::<ProxyV4>::empty(),
            distinct(r@),
    {
        Cache { inner: VecDeque::new() }
    }

    /// Whether `proxy` is held.
    fn holds(&self, proxy: &ProxyV4) -> (r: bool)
        ensures
            r == self@.contains(*proxy),
    {
        let n = self.inner.len();
        let mut i: usize = 0;
        while i < n
            invariant
                n == self@.len(),
                i <= n,
                forall|j: int| 0 <= j < i ==> self@[j] != *proxy,
            decreases n - i,
        {
            if same_proxy(&self.inner[i], proxy) {
                return true;
            }
            i = i + 1;
        }
        false
    }

    /// Puts `proxy` at the front, unless it is held already.
    pub fn add(&mut self, proxy: ProxyV4)
        ensures
            final(self)@ == added(old(self)@, proxy),
            distinct(old(self)@) ==> distinct(final(self)@),
    {
        if !self.holds(&proxy) {
            self.inner.push_front(proxy);
        }
        proof {
            if distinct(old(self)@) {
                lemma_add_keeps_distinct(old(self)@, proxy);
            }
        }
    }

    /// Takes the proxy at the back, the one that has been held longest.
    pub fn get(&mut self) -> (r: Option<ProxyV4>)
        ensures
            old(self)@.len() == 0 ==> r is None && final(self)@ == old(self)@,
            old(self)@.len() > 0 ==> r == Some(old(self)@.last()) && final(self)@ == old(
                self,
            )@.drop_last(),
    {
        self.inner.pop_back()
    }

    /// The proxy at the front, the one added last.
    pub fn first(&self) -> (r: Option<ProxyV4>)
        ensures
            r == if self@.len() == 0 {
                None
            } else {
                Some(self@[0])
            },
    {
        if self.inner.len() == 0 {
            None
        } else {
            Some(self.inner[0])
        }
    }

    /// The proxy at position `draw` modulo the number held.
    pub fn pick(&self, draw: usize) -> (r: Option<ProxyV4>)
        requires
            self@.len() > 0,
        ensures
            r == Some(self@[draw as int % self@.len() as int]),
    {
        let index = draw % self.inner.len();
        Some(self.inner[index])
    }

    /// A proxy held, chosen at random.
    pub fn random(&self) -> (r: Option<ProxyV4>)
        requires
            self@.len() > 0,
        ensures
            r matches Some(p) && self@.contains(p),
    {
        let draw = random_usize();
        let r = self.pick(draw);
        assert(self@[draw as int % self@.len() as int] == r->0);
        r
    }

    /// The first `amount` proxies from the front, or all of them where fewer are held.
    pub fn request(&self, amount: usize) -> (r: Vec<ProxyV4>)
        ensures
            r@ == requested(self@, amount),
    {
        let n = self.inner.len();
        let mut proxies: Vec<ProxyV4> = Vec::new();
        let mut i: usize = 0;
        while i < amount && i < n
            invariant
                n == self@.len(),
                i <= n,
                i <= amount,
                proxies@ =~= self@.take(i as int),
            decreases n - i,
        {
            proxies.push(self.inner[i]);
            i = i + 1;
        }
        assert(self@.take(n as int) =~= self@);
        proxies
    }

    /// The proxy at position `draws[i]` modulo the number held, for each draw in turn.
    pub fn pick_each(&self, draws: &Vec<usize>) -> (r: Vec<ProxyV4>)
        requires
            draws@.len() == 0 || self@.len() > 0,
        ensures
            r@ == picked(self@, draws@),
    {
        let mut proxies: Vec<ProxyV4> = Vec::new();
        let mut i: usize = 0;
        while i < draws.len()
            invariant
                i <= draws@.len(),
                draws@.len() == 0 || self@.len() > 0,
                proxies@ =~= picked(self@, draws@.take(i as int)),
            decreases draws@.len() - i,
        {
            let p = self.pick(draws[i]);
            proxies.push(p.unwrap());
            assert(picked(self@, draws@.take(i + 1)) =~= picked(self@, draws@.take(i as int)).push(
                self@[draws@[i as int] as int % self@.len() as int],
            ));
            i = i + 1;
        }
        assert(draws@.take(draws@.len() as int) =~= draws@);
        proxies
    }

    /// `amount` proxies, each chosen at random among those held (the same one may come
    /// more than once).
    pub fn request_random(&self, amount: usize) -> (r: Vec<ProxyV4>)
        requires
            amount == 0 || self@.len() > 0,
        ensures
            r@.len() == amount,
            exists|draws: Seq<usize>| draws.len() == amount && r@ == picked(self@, draws),
            forall|i: int| 0 <= i < r@.len() ==> self@.contains(#[trigger] r@[i]),
    {
        let mut draws: Vec<usize> = Vec::new();
        let mut i: usize = 0;
        while i < amount
            invariant
                i <= amount,
                draws@.len() == i,
            decreases amount - i,
        {
            draws.push(random_usize());
            i = i + 1;
        }
        let r = self.pick_each(&draws);
        assert forall|i: int| 0 <= i < r@.len() implies self@.contains(#[trigger] r@[i]) by {
            let k = draws@[i] as int % self@.len() as int;
            assert(r@[i] == self@[k]);
        }
        r
    }
}

/// Adding keeps every proxy held at most once.
pub proof fn lemma_add_keeps_distinct(s: Seq<ProxyV4>, p: ProxyV4)
    requires
        distinct(s),
    ensures
        distinct(added(s, p)),
{
    if !s.contains(p) {
        let t = seq![p] + s;
        assert forall|i: int, j: int| 0 <= i < j < t.len() implies t[i] != t[j] by {
            if i == 0 {
                assert(t[j] == s[j - 1]);
            } else {
                assert(t[i] == s[i - 1] && t[j] == s[j - 1]);
            }
        }
    }
}

/// After adding a proxy, it is held; adding it again changes nothing.
pub proof fn lemma_add_holds(s: Seq<ProxyV4>, p: ProxyV4)
    ensures
        added(s, p).contains(p),
        added(added(s, p), p) == added(s, p),
{
    if !s.contains(p) {
        assert((seq![p] + s)[0] == p);
    }
}

/// A proxy not yet held is added at the front, and it is what `first` gives next.
pub proof fn lemma_add_new_in_front(s: Seq<ProxyV4>, p: ProxyV4)
    requires
        !s.contains(p),
    ensures
        added(s, p)[0] == p,
        added(s, p).len() == s.len() + 1,
{
}

/// Adding a proxy does not change which proxy `get` hands out next, unless the cache was
/// empty: the cache is a queue, first in, first out.
pub proof fn lemma_add_then_get(s: Seq<ProxyV4>, p: ProxyV4)
    requires
        !s.contains(p),
    ensures
        s.len() == 0 ==> added(s, p).last() == p && added(s, p).drop_last() == s,
        s.len() > 0 ==> added(s, p).last() == s.last() && added(s, p).drop_last() == added(
            s.drop_last(),
            p,
        ),
{
    let t = seq![p] + s;
    if s.len() == 0 {
        assert(t.drop_last() =~= s);
    } else {
        assert(t.drop_last() =~= seq![p] + s.drop_last());
        assert(!s.drop_last().contains(p)) by {
            if s.drop_last().contains(p) {
                let k = choose|k: int| 0 <= k < s.drop_last().len() && s.drop_last()[k] == p;
                assert(s[k] == p);
            }
        }
    }
}

/// Requesting at least as many proxies as are held gives all of them, in order.
pub proof fn lemma_request_all(s: Seq<ProxyV4>, amount: usize)
    requires
        amount >= s.len(),
    ensures
        requested(s, amount) == s,
{
}

/// `request(amount)` hands out `min(amount, number held)` proxies, never more than
/// `amount`, and they are the ones at the front, in order.
pub proof fn lemma_request_front(s: Seq<ProxyV4>, amount: usize)
    ensures
        requested(s, amount).len() == if amount < s.len() {
            amount as int
        } else {
            s.len() as int
        },
        requested(s, amount).len() <= amount,
        forall|i: int| 0 <= i < requested(s, amount).len() ==> #[trigger] requested(s, amount)[i] == s[i],
{
}

} // verus!
