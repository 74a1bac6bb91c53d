use proxy_checker::proxies::checker::{
    first_step, google_proxy_uri, net_proxy_uri, next_step, ping_offset, record_google_check,
    record_net_check, CheckStep, NamingInProgressResponse, NetCheckType,
};
use proxy_checker::proxies::{ProxyAnonymity, ProxyType, ProxyV4};

fn proxy() -> ProxyV4 {
    ProxyV4 {
        addr: [192, 168, 1, 20],
        port: 1080,
        found_at: 5,
        last_checked: 0,
        proxy_type: ProxyType::UNKNOWN,
        anonymity: ProxyAnonymity::Transparent,
        google: false,
        ping: 0,
    }
}

#[test]
fn failed_checks_try_each_protocol_in_order() {
    let mut step = first_step();
    let mut tried = Vec::new();
    while let CheckStep::Net(t) = step {
        tried.push(t);
        step = next_step(step, false);
    }
    assert_eq!(
        tried,
        vec![NetCheckType::Http, NetCheckType::Https, NetCheckType::Socks4, NetCheckType::Socks5]
    );
    assert_eq!(step, CheckStep::Google);
    assert_eq!(next_step(step, false), CheckStep::Done);
    assert_eq!(next_step(CheckStep::Done, true), CheckStep::Done);
}

#[test]
fn a_successful_check_goes_to_google() {
    assert_eq!(next_step(CheckStep::Net(NetCheckType::Https), true), CheckStep::Google);
    assert_eq!(next_step(CheckStep::Net(NetCheckType::Socks5), true), CheckStep::Google);
    assert_eq!(next_step(CheckStep::Google, true), CheckStep::Done);
}

#[test]
fn net_check_uris() {
    let p = proxy();
    assert_eq!(net_proxy_uri(&p, NetCheckType::Http), "https://192.168.1.20:1080");
    assert_eq!(net_proxy_uri(&p, NetCheckType::Https), "http://192.168.1.20:1080");
    assert_eq!(net_proxy_uri(&p, NetCheckType::Socks4), "socks4://192.168.1.20:1080:1080");
    assert_eq!(net_proxy_uri(&p, NetCheckType::Socks5), "socks5://192.168.1.20:1080:1080");
}

#[test]
fn net_check_writes_its_findings() {
    let mut p = proxy();
    let body = NamingInProgressResponse { at: 17, level: ProxyAnonymity::Elite };
    record_net_check(&mut p, NetCheckType::Socks4, &body, 1000, 1399, 1400, 250);
    assert_eq!(p.last_checked, 1399);
    assert_eq!(p.anonymity, ProxyAnonymity::Elite);
    assert_eq!(p.ping, 150);
    assert_eq!(p.proxy_type, ProxyType::SOCKS4);
    assert_eq!(p.addr, [192, 168, 1, 20]);
    assert_eq!(p.found_at, 5);
}

#[test]
fn google_uri_by_type() {
    let mut p = proxy();
    assert!(google_proxy_uri(&p).is_none());
    p.proxy_type = ProxyType::INVALID;
    assert!(google_proxy_uri(&p).is_none());
    p.proxy_type = ProxyType::HTTP;
    assert_eq!(google_proxy_uri(&p).unwrap(), "http://192.168.1.20:1080");
    p.proxy_type = ProxyType::SOCKS5;
    assert_eq!(google_proxy_uri(&p).unwrap(), "socks5://192.168.1.20:1080:1080");
}

#[test]
fn google_answer_by_status() {
    for (status, reached) in [(200u16, true), (299, true), (204, true), (409, false), (404, false), (300, false), (199, false)] {
        let mut p = proxy();
        record_google_check(&mut p, status, 77);
        assert_eq!(p.google, reached, "{}", status);
        assert_eq!(p.last_checked, if reached { 77 } else { 0 });
    }
}

#[test]
fn ping_offset_falls_back_to_250() {
    assert_eq!(ping_offset(true, 100, 160), 60);
    assert_eq!(ping_offset(false, 100, 160), 250);
    assert_eq!(ping_offset(false, 500, 100), 250);
}
