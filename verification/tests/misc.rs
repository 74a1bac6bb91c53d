use proxy_checker::utils::time::{now, stored_millis};
use proxy_checker::cache::Cache;
use proxy_checker::loader::is_source_file;
use proxy_checker::logger::{Logger, LoggingType};
use proxy_checker::pipeline::{admit_checked, parse_all};
use proxy_checker::proxies::ProxyType;
use proxy_checker::webserver::greeting;

#[test]
fn logger_prints_only_the_kinds_set() {
    let mut logger = Logger::default();
    assert!(!logger.logs(LoggingType::Log));
    logger.set_logging(vec![LoggingType::Warn, LoggingType::Error]);
    assert!(logger.logs(LoggingType::Warn));
    assert!(logger.logs(LoggingType::Error));
    assert!(!logger.logs(LoggingType::Log));
    logger.set_logging(vec![]);
    assert!(!logger.logs(LoggingType::Warn));
}

#[test]
fn source_files_end_in_lua() {
    assert!(is_source_file("free.lua"));
    assert!(is_source_file(".lua"));
    assert!(!is_source_file("free.luac"));
    assert!(!is_source_file("lua"));
    assert!(!is_source_file("free.LUA"));
    assert!(!is_source_file(""));
}

#[test]
fn greeting_names_the_caller() {
    assert_eq!(greeting("bob"), "Hello bob!");
    assert_eq!(greeting(""), "Hello !");
}

#[test]
fn parse_all_keeps_entries_with_a_port() {
    let entries = vec!["1.2.3.4:80".to_string(), "nothing".to_string(), "5.6.7.8:9".to_string()];
    let proxies = parse_all(&entries);
    assert_eq!(proxies.len(), 2);
    assert_eq!(proxies[0].addr, [1, 2, 3, 4]);
    assert_eq!(proxies[0].port, 80);
    assert_eq!(proxies[1].addr, [5, 6, 7, 8]);
    assert_eq!(proxies[1].port, 9);
}

#[test]
fn admit_keeps_only_usable_proxies() {
    let entries = vec!["1.2.3.4:80".to_string()];
    let mut p = parse_all(&entries)[0];
    let mut cache = Cache::new();
    assert_eq!(admit_checked(&mut cache, 0, p), 0);
    assert!(cache.first().is_none());
    p.proxy_type = ProxyType::INVALID;
    assert_eq!(admit_checked(&mut cache, 0, p), 0);
    assert!(cache.first().is_none());
    p.proxy_type = ProxyType::SOCKS5;
    assert_eq!(admit_checked(&mut cache, 0, p), 1);
    assert_eq!(admit_checked(&mut cache, 1, p), 2);
    assert_eq!(cache.inner.len(), 1);
}

#[test]
fn clock_readings_before_the_epoch_store_zero() {
    assert_eq!(stored_millis(Some(1234)), 1234);
    assert_eq!(stored_millis(None), 0);
    assert!(now() > 1_600_000_000_000);
}

#[test]
fn cache_holds_only_usable_proxies() {
    let entries = vec!["1.2.3.4:80".to_string(), "1.2.3.5:80".to_string(), "1.2.3.6:80".to_string()];
    let mut ps = parse_all(&entries);
    ps[0].proxy_type = ProxyType::HTTP;
    ps[1].proxy_type = ProxyType::UNKNOWN;
    ps[2].proxy_type = ProxyType::SOCKS4;
    let mut cache = Cache::new();
    let mut count = 0;
    for p in ps.iter() {
        count = admit_checked(&mut cache, count, *p);
    }
    assert_eq!(count, 2);
    let held = cache.request(10);
    assert_eq!(held.len(), 2);
    assert!(held.iter().all(|p| p.proxy_type != ProxyType::UNKNOWN && p.proxy_type != ProxyType::INVALID));
}
