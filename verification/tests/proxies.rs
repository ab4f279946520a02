use codemoss::proxy_guard::{
    dead_loopback_proxy_guard, is_loopback_proxy_host, is_proxy_key, parse_port,
    parse_proxy_host_port, proxy_env_keys, proxy_probes, ProxyProbe,
};

fn address(proxy: &str) -> Option<(String, u16)> {
    parse_proxy_host_port(proxy)
}

fn is(proxy: &str, host: &str, port: u16) -> bool {
    address(proxy) == Some((host.to_string(), port))
}

fn probe(key: &str, host: &str, port: u16) -> ProxyProbe {
    ProxyProbe { key: key.to_string(), host: host.to_string(), port }
}

#[test]
fn proxy_keys_in_any_case() {
    for key in proxy_env_keys() {
        assert!(is_proxy_key(&key));
    }
    assert!(is_proxy_key(" Http_Proxy "));
    assert!(!is_proxy_key("FTP_PROXY"));
    assert_eq!(proxy_env_keys().len(), 8);
    assert_eq!(proxy_env_keys()[0], "HTTP_PROXY");
    assert_eq!(proxy_env_keys()[7], "no_proxy");
}

#[test]
fn local_hosts() {
    assert!(is_loopback_proxy_host(" LocalHost "));
    assert!(is_loopback_proxy_host("127.0.0.1"));
    assert!(is_loopback_proxy_host("::1"));
    assert!(!is_loopback_proxy_host("127.0.0.2"));
}

#[test]
fn ports() {
    assert_eq!(parse_port("8080"), Some(8080));
    assert_eq!(parse_port("+1"), Some(1));
    assert_eq!(parse_port("065535"), Some(65535));
    assert_eq!(parse_port("65536"), None);
    assert_eq!(parse_port("99999999999999999999"), None);
    assert_eq!(parse_port(""), None);
    assert_eq!(parse_port("+"), None);
    assert_eq!(parse_port("-1"), None);
    assert_eq!(parse_port("8 0"), None);
}

#[test]
fn addresses() {
    assert!(is("http://127.0.0.1:7890", "127.0.0.1", 7890));
    assert!(is(" localhost:1/path?q#f ", "localhost", 1));
    assert!(is("socks5://user:pw@host:9", "host", 9));
    assert!(is("http://a@b@host:9", "host", 9));
    assert!(is("[::1]:80", "::1", 80));
    assert!(is("http://[ ::1 ] :80", "::1", 80));
    assert!(is("::1:80", "::1", 80));
    assert!(is("host: 80 ", "host", 80));
    assert!(is("a b:c:65535", "a b:c", 65535));
    assert!(is("[a:[b]:0", "a:[b", 0));
    assert_eq!(address("host"), None);
    assert_eq!(address(""), None);
    assert_eq!(address("http://"), None);
    assert_eq!(address(":80"), None);
    assert_eq!(address("[::1]"), None);
    assert_eq!(address("[]:80"), None);
    assert_eq!(address("[::1"), None);
    assert_eq!(address("host:port"), None);
}

#[test]
fn only_local_proxies_are_tried() {
    let mut values: [Option<String>; 8] = [None, None, None, None, None, None, None, None];
    values[0] = Some(" http://localhost:1 ".to_string());
    values[1] = Some("http://example.com:2".to_string());
    values[4] = Some("[::1]:3".to_string());
    values[6] = Some("localhost,127.0.0.1".to_string());
    values[7] = Some("  ".to_string());
    let none: Vec<(String, String)> = Vec::new();
    assert_eq!(
        proxy_probes(&none, &values),
        vec![probe("HTTP_PROXY", "localhost", 1), probe("https_proxy", "::1", 3)]
    );
    let vendor = vec![("NO_Proxy".to_string(), "x".to_string())];
    assert!(proxy_probes(&vendor, &values).is_empty());
}

#[test]
fn all_variables_go_where_one_proxy_is_silent() {
    let a = probe("HTTP_PROXY", "localhost", 1);
    let b = probe("https_proxy", "::1", 3);
    let guard = dead_loopback_proxy_guard(&vec![(a.clone(), true), (b.clone(), false)]);
    assert_eq!(guard.disabled, vec!["https_proxy".to_string()]);
    assert_eq!(guard.removed, proxy_env_keys());
    let guard = dead_loopback_proxy_guard(&vec![(a, true), (b, true)]);
    assert!(guard.disabled.is_empty());
    assert!(guard.removed.is_empty());
    assert!(dead_loopback_proxy_guard(&Vec::new()).removed.is_empty());
}
