use rustprox::cli::{parse_request, Request};
use rustprox::proxy::{http_proxy_url, isValidProxy};

#[test]
fn accepts_host_and_port() {
    assert!(isValidProxy("127.0.0.1:8080"));
    assert!(isValidProxy("proxy.example.com:3128"));
    assert!(isValidProxy("localhost:0"));
    assert!(isValidProxy("localhost:65535"));
}

#[test]
fn accepts_what_u16_parsing_accepts() {
    assert!(isValidProxy("host:+80"));
    assert!(isValidProxy("host:00080"));
    assert!(isValidProxy(":80"));
}

#[test]
fn rejects_bad_ports() {
    assert!(!isValidProxy("host:65536"));
    assert!(!isValidProxy("host:99999999999"));
    assert!(!isValidProxy("host:"));
    assert!(!isValidProxy("host:+"));
    assert!(!isValidProxy("host:-1"));
    assert!(!isValidProxy("host:8a"));
    assert!(!isValidProxy("host: 80"));
    assert!(!isValidProxy("host:８０"));
}

#[test]
fn rejects_wrong_number_of_colons() {
    assert!(!isValidProxy("host"));
    assert!(!isValidProxy(""));
    assert!(!isValidProxy("a:b:80"));
    assert!(!isValidProxy("http://host:80"));
}

#[test]
fn url_is_http_scheme_and_address() {
    assert_eq!(http_proxy_url("127.0.0.1:8080"), "http://127.0.0.1:8080");
    assert_eq!(http_proxy_url(":+80"), "http://:+80");
}

fn args(list: &[&str]) -> Vec<String> {
    list.iter().map(|s| s.to_string()).collect()
}

#[test]
fn request_usage_without_command() {
    assert!(matches!(parse_request(&args(&["rustprox"])), Request::Usage));
    assert!(matches!(parse_request(&args(&[])), Request::Usage));
}

#[test]
fn request_set() {
    match parse_request(&args(&["rustprox", "--set", "10.1.2.3:3128"])) {
        Request::SetProxy { proxy_url } => assert_eq!(proxy_url, "http://10.1.2.3:3128"),
        _ => panic!("expected a set request"),
    }
    match parse_request(&args(&["rustprox", "--set", "h:1", "extra"])) {
        Request::SetProxy { proxy_url } => assert_eq!(proxy_url, "http://h:1"),
        _ => panic!("expected a set request"),
    }
}

#[test]
fn request_set_errors() {
    assert!(matches!(parse_request(&args(&["rustprox", "--set"])), Request::MissingProxy));
    assert!(matches!(
        parse_request(&args(&["rustprox", "--set", "nohost"])),
        Request::InvalidProxy
    ));
}

#[test]
fn request_other_commands() {
    assert!(matches!(parse_request(&args(&["rustprox", "--unset"])), Request::Unset));
    assert!(matches!(parse_request(&args(&["rustprox", "--status"])), Request::Status));
    assert!(matches!(parse_request(&args(&["rustprox", "--help"])), Request::Help));
    match parse_request(&args(&["rustprox", "--sett"])) {
        Request::Unknown { command } => assert_eq!(command, "--sett"),
        _ => panic!("expected an unknown command"),
    }
    match parse_request(&args(&["rustprox", "set"])) {
        Request::Unknown { command } => assert_eq!(command, "set"),
        _ => panic!("expected an unknown command"),
    }
}
