use proxy_checker::proxies::{read_endpoint, Endpoint, ProxyAnonymity, ProxyType, ProxyV4, ProxyV6};

fn proxy(addr: [u8; 4], port: u16) -> ProxyV4 {
    ProxyV4 {
        addr,
        port,
        found_at: 0,
        last_checked: 0,
        proxy_type: ProxyType::UNKNOWN,
        anonymity: ProxyAnonymity::Transparent,
        google: false,
        ping: 0,
    }
}

#[test]
fn parse_reads_address_and_port() {
    let p = ProxyV4::parse(&"1.2.3.4:8080".to_string()).unwrap();
    assert_eq!(p.addr, [1, 2, 3, 4]);
    assert_eq!(p.port, 8080);
    assert_eq!(p.last_checked, 0);
    assert_eq!(p.proxy_type, ProxyType::UNKNOWN);
    assert_eq!(p.anonymity, ProxyAnonymity::Transparent);
    assert!(!p.google);
    assert_eq!(p.ping, 0);
    assert!(p.found_at > 0);
}

#[test]
fn parse_without_port_gives_none() {
    assert!(ProxyV4::parse(&"1.2.3.4".to_string()).is_none());
    assert!(ProxyV4::parse(&"".to_string()).is_none());
    assert!(ProxyV4::parse(&"no port here".to_string()).is_none());
}

#[test]
fn parse_at_records_the_time() {
    let p = ProxyV4::parse_at(&"10.0.0.255:1".to_string(), 1234).unwrap();
    assert_eq!(p.addr, [10, 0, 0, 255]);
    assert_eq!(p.port, 1);
    assert_eq!(p.found_at, 1234);
}

#[test]
fn parse_leaves_extra_fields_aside() {
    let p = ProxyV4::parse_at(&"1.2.3.4.5:80:90".to_string(), 7).unwrap();
    assert_eq!(p.addr, [1, 2, 3, 4]);
    assert_eq!(p.port, 80);
}

#[test]
fn parse_takes_plus_signs_and_leading_zeros() {
    let p = ProxyV4::parse_at(&"+1.002.3.004:+0080".to_string(), 0).unwrap();
    assert_eq!(p.addr, [1, 2, 3, 4]);
    assert_eq!(p.port, 80);
}

#[test]
fn read_endpoint_finds_malformed_entries() {
    for entry in ["1.2.3:80", "1.2.3.256:80", "a.b.c.d:80", "1.2.3.4:70000", "1.2.3.4:", "1.2.3.4:-1", "1..2.3.4:80", "1.2.3.4:+"] {
        assert!(matches!(read_endpoint(&entry.to_string()), Endpoint::Malformed), "{}", entry);
    }
    assert!(matches!(read_endpoint(&"8.8.8.8".to_string()), Endpoint::NoPort));
    match read_endpoint(&"255.255.255.255:65535".to_string()) {
        Endpoint::Address(addr, port) => {
            assert_eq!(addr, [255, 255, 255, 255]);
            assert_eq!(port, 65535);
        }
        _ => panic!("expected an address"),
    }
}

#[test]
fn text_form_of_v4() {
    assert_eq!(proxy([1, 2, 3, 4], 8080).to_string(), "1.2.3.4:8080");
    assert_eq!(proxy([0, 10, 100, 255], 0).to_string(), "0.10.100.255:0");
}

#[test]
fn uris_by_type() {
    let p = proxy([127, 0, 0, 1], 3128);
    assert_eq!(p.uri(ProxyType::HTTP), "http://127.0.0.1:3128");
    assert_eq!(p.uri(ProxyType::HTTPS), "https://127.0.0.1:3128");
    assert_eq!(p.uri(ProxyType::SOCKS4), "socks4://127.0.0.1:3128:3128");
    assert_eq!(p.uri(ProxyType::SOCKS5), "socks5://127.0.0.1:3128:3128");
    assert_eq!(p.uri(ProxyType::UNKNOWN), "127.0.0.1:3128:3128");
    assert_eq!(p.uri(ProxyType::INVALID), "127.0.0.1:3128:3128");
    assert_eq!(p.as_http(), "http://127.0.0.1:3128");
    assert_eq!(p.as_https(), "https://127.0.0.1:3128");
}

#[test]
fn text_form_parses_back() {
    for (addr, port) in [([1, 2, 3, 4], 80), ([0, 0, 0, 0], 0), ([255, 254, 9, 10], 65535)] {
        let p = proxy(addr, port);
        let q = ProxyV4::parse_at(&p.to_string(), 99).unwrap();
        assert_eq!(q.addr, addr);
        assert_eq!(q.port, port);
    }
}

#[test]
fn text_form_of_v6() {
    let mut addr = [0u8; 16];
    for i in 0..16 {
        addr[i] = (i * 16) as u8;
    }
    let p = ProxyV6 {
        addr,
        port: 443,
        found_at: 0,
        last_checked: 0,
        proxy_type: ProxyType::HTTPS,
        anonymity: ProxyAnonymity::Elite,
        google: false,
        speed: 0,
        ping: 0,
    };
    assert_eq!(
        p.to_string(),
        "0:16:32:48:64:80:96:112:128:144:160:176:192:208:224:240:443"
    );
}

#[test]
fn anonymity_from_text_in_any_case() {
    assert_eq!("anonymous".parse::<ProxyAnonymity>(), Ok(ProxyAnonymity::Anonymous));
    assert_eq!("Transparent".parse::<ProxyAnonymity>(), Ok(ProxyAnonymity::Transparent));
    assert_eq!("ELITE".parse::<ProxyAnonymity>(), Ok(ProxyAnonymity::Elite));
    assert_eq!("eLiTe".parse::<ProxyAnonymity>(), Ok(ProxyAnonymity::Elite));
    assert_eq!("elite ".parse::<ProxyAnonymity>(), Err(()));
    assert_eq!("".parse::<ProxyAnonymity>(), Err(()));
    assert_eq!("hidden".parse::<ProxyAnonymity>(), Err(()));
}
