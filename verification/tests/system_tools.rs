use rustprox::home::{
    choose_linux_home, getUserHome, mac_user_home, passwd_home_field, windows_user_home, UserHome,
};
use std::path::PathBuf;
use rustprox::system::{
    mac_proxy_target, network_service_names, registry_proxy_is_enabled, registry_proxy_server_of,
    web_proxy_is_enabled, windows_proxy_server,
};

#[test]
fn passwd_entry_home() {
    assert_eq!(
        passwd_home_field("alice:x:1000:1000:Alice:/home/alice:/bin/bash\n").as_deref(),
        Some("/home/alice")
    );
    assert_eq!(passwd_home_field("bob:x:1:1:: \t/srv/bob \n:/bin/sh").as_deref(), Some("/srv/bob"));
    assert_eq!(passwd_home_field("carol:x:1:1:Carol:   :/bin/sh"), None);
    assert_eq!(passwd_home_field("dave:x:1:1"), None);
    assert_eq!(passwd_home_field(""), None);
}

#[test]
fn linux_home_choice() {
    assert!(matches!(
        getUserHome(Some("alice:x:1000:1000:Alice:/home/alice:/bin/bash\n")),
        UserHome::Text(t) if t == "/home/alice"
    ));
    assert!(matches!(
        choose_linux_home(Some("/p".to_string()), Some(PathBuf::from("/d"))),
        UserHome::Text(t) if t == "/p"
    ));
    assert!(matches!(
        choose_linux_home(None, Some(PathBuf::from("/d"))),
        UserHome::Path(p) if p == PathBuf::from("/d")
    ));
    assert!(matches!(choose_linux_home(None, None), UserHome::Text(t) if t == "/home"));
}

#[test]
fn mac_and_windows_home() {
    assert_eq!(mac_user_home(Some("/Users/alice".to_string())), "/Users/alice");
    assert_eq!(mac_user_home(None), "/Users/");
    assert_eq!(
        windows_user_home(Some("C:\\Users\\alice".to_string()), None, None),
        "C:\\Users\\alice"
    );
    assert_eq!(windows_user_home(None, None, None), "C:\\Users\\Default");
    assert_eq!(
        windows_user_home(None, Some("D:".to_string()), Some("\\Home\\bob".to_string())),
        "D:\\Home\\bob"
    );
}

#[test]
fn mac_target_from_url() {
    assert_eq!(mac_proxy_target("http://10.0.0.1:3128"), ("10.0.0.1".to_string(), 3128));
    assert_eq!(mac_proxy_target("http://host:notaport"), ("host".to_string(), 8080));
    assert_eq!(mac_proxy_target("host"), ("host".to_string(), 8080));
    assert_eq!(mac_proxy_target("host:81"), ("host".to_string(), 81));
}

#[test]
fn mac_services_skip_header() {
    let listing = "An asterisk (*) denotes that a network service is disabled.\nWi-Fi\nThunderbolt Bridge\n";
    assert_eq!(network_service_names(listing), vec!["Wi-Fi".to_string(), "Thunderbolt Bridge".to_string()]);
    assert!(network_service_names("").is_empty());
    assert!(network_service_names("header only\n").is_empty());
}

#[test]
fn mac_web_proxy_state() {
    assert!(web_proxy_is_enabled("Enabled: Yes\nServer: 10.0.0.1\nPort: 8080\n"));
    assert!(!web_proxy_is_enabled("Enabled: No\nServer:\nPort: 0\n"));
}

#[test]
fn windows_server_without_scheme() {
    assert_eq!(windows_proxy_server("http://10.0.0.1:8080"), "10.0.0.1:8080");
    assert_eq!(windows_proxy_server("10.0.0.1:8080"), "10.0.0.1:8080");
}

#[test]
fn windows_registry_outputs() {
    let enable = "\r\nHKEY_CURRENT_USER\\Software\\...\\Internet Settings\r\n    ProxyEnable    REG_DWORD    0x1\r\n\r\n";
    assert!(registry_proxy_is_enabled(enable));
    assert!(!registry_proxy_is_enabled("    ProxyEnable    REG_DWORD    0x0\r\n"));
    let server = "\r\nHKEY_CURRENT_USER\\Software\\...\\Internet Settings\r\n    ProxyServer    REG_SZ    10.0.0.1:8080\r\n\r\n";
    assert_eq!(registry_proxy_server_of(server), "10.0.0.1:8080");
    assert_eq!(registry_proxy_server_of("ERROR: not found"), "Not set");
}

#[test]
fn passwd_field_trims_unicode_whitespace() {
    assert_eq!(
        passwd_home_field("u:x:1:1:U:\u{3000}\u{a0}/home/u\u{2029}\u{85}:/bin/sh").as_deref(),
        Some("/home/u")
    );
    assert_eq!(
        passwd_home_field("u:x:1:1:U:\u{180e}/home/u:/bin/sh").as_deref(),
        Some("\u{180e}/home/u")
    );
}
