use proxy_checker::cache::Cache;
use proxy_checker::proxies::{ProxyAnonymity, ProxyType, ProxyV4};

fn proxy(last: u8) -> ProxyV4 {
    ProxyV4 {
        addr: [10, 0, 0, last],
        port: 8000,
        found_at: 1,
        last_checked: 2,
        proxy_type: ProxyType::HTTP,
        anonymity: ProxyAnonymity::Elite,
        google: true,
        ping: 30,
    }
}

fn lasts(v: &[ProxyV4]) -> Vec<u8> {
    v.iter().map(|p| p.addr[3]).collect()
}

#[test]
fn new_cache_is_empty() {
    let mut c = Cache::new();
    assert!(c.first().is_none());
    assert!(c.get().is_none());
    assert!(c.request(3).is_empty());
    assert!(c.request_random(0).is_empty());
}

#[test]
fn add_keeps_one_copy() {
    let mut c = Cache::new();
    c.add(proxy(1));
    c.add(proxy(1));
    assert_eq!(c.inner.len(), 1);
    let mut other = proxy(1);
    other.ping = 31;
    c.add(other);
    assert_eq!(c.inner.len(), 2);
}

#[test]
fn cache_is_first_in_first_out() {
    let mut c = Cache::new();
    c.add(proxy(1));
    c.add(proxy(2));
    c.add(proxy(3));
    assert_eq!(c.first().unwrap().addr[3], 3);
    assert_eq!(c.get().unwrap().addr[3], 1);
    c.add(proxy(4));
    assert_eq!(c.get().unwrap().addr[3], 2);
    assert_eq!(c.get().unwrap().addr[3], 3);
    assert_eq!(c.get().unwrap().addr[3], 4);
    assert!(c.get().is_none());
}

#[test]
fn request_gives_the_newest_first() {
    let mut c = Cache::new();
    for i in 1..=4 {
        c.add(proxy(i));
    }
    assert_eq!(lasts(&c.request(2)), vec![4, 3]);
    assert_eq!(lasts(&c.request(4)), vec![4, 3, 2, 1]);
    assert_eq!(lasts(&c.request(100)), vec![4, 3, 2, 1]);
    assert!(c.request(0).is_empty());
}

#[test]
fn pick_wraps_around() {
    let mut c = Cache::new();
    for i in 1..=3 {
        c.add(proxy(i));
    }
    assert_eq!(c.pick(0).unwrap().addr[3], 3);
    assert_eq!(c.pick(4).unwrap().addr[3], 2);
    assert_eq!(c.pick(usize::MAX).unwrap().addr[3], [3u8, 2, 1][usize::MAX % 3]);
}

#[test]
fn random_draws_from_the_cache() {
    let mut c = Cache::new();
    for i in 1..=3 {
        c.add(proxy(i));
    }
    for _ in 0..50 {
        let p = c.random().unwrap();
        assert!((1..=3).contains(&p.addr[3]));
    }
    let many = c.request_random(20);
    assert_eq!(many.len(), 20);
    assert!(many.iter().all(|p| (1..=3).contains(&p.addr[3])));
}

#[test]
fn pick_each_follows_the_draws() {
    let mut c = Cache::new();
    for i in 1..=3 {
        c.add(proxy(i));
    }
    assert_eq!(lasts(&c.pick_each(&vec![0, 1, 2, 3, 5, 7])), vec![3, 2, 1, 3, 1, 2]);
    assert!(c.pick_each(&vec![]).is_empty());
    assert!(Cache::new().pick_each(&vec![]).is_empty());
}
