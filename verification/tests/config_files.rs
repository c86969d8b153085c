use rustprox::config::{
    apt_proxy_is_set, npm_proxy_is_set, setAptProxy, setBashProxy, setNpmProxy, setZshProxy,
    shell_proxy_is_set, unsetAptProxy, unsetBashProxy, unsetNpmProxy, unsetZshProxy,
};

const URL: &str = "http://10.0.0.1:8080";

#[test]
fn npm_set_on_empty_file() {
    assert_eq!(
        setNpmProxy("", URL).as_deref(),
        Some("proxy=http://10.0.0.1:8080\nhttps-proxy=http://10.0.0.1:8080\n")
    );
}

#[test]
fn npm_set_adds_only_missing_entry() {
    let content = "registry=https://r.example\nproxy=http://10.0.0.1:8080\n";
    assert_eq!(
        setNpmProxy(content, URL).as_deref(),
        Some("https-proxy=http://10.0.0.1:8080\n")
    );
}

#[test]
fn npm_set_nothing_when_present() {
    let content = "proxy=http://10.0.0.1:8080\nhttps-proxy=http://10.0.0.1:8080\n";
    assert_eq!(setNpmProxy(content, URL), None);
    // `https-proxy=URL` holds `proxy=URL` too, so the substring test finds both.
    assert_eq!(setNpmProxy("https-proxy=http://10.0.0.1:8080", URL), None);
}

#[test]
fn npm_set_other_url_adds_both() {
    let content = "proxy=http://other:1\nhttps-proxy=http://other:1\n";
    assert_eq!(
        setNpmProxy(content, URL).as_deref(),
        Some("proxy=http://10.0.0.1:8080\nhttps-proxy=http://10.0.0.1:8080\n")
    );
}

#[test]
fn npm_unset_drops_proxy_lines() {
    let content = "registry=https://r.example\nproxy=http://a:1\nhttps-proxy=http://a:1\nsave=true\n";
    assert_eq!(unsetNpmProxy(content), "registry=https://r.example\nsave=true");
}

#[test]
fn npm_unset_line_endings() {
    assert_eq!(unsetNpmProxy(""), "");
    assert_eq!(unsetNpmProxy("\n"), "");
    assert_eq!(unsetNpmProxy("a\n\nb"), "a\n\nb");
    assert_eq!(unsetNpmProxy("a\r\nproxy=x\r\nb\r\n"), "a\nb");
    assert_eq!(unsetNpmProxy("a\r"), "a\r");
    assert_eq!(unsetNpmProxy("noproxy=1\nx"), "x");
}

#[test]
fn npm_status() {
    assert!(npm_proxy_is_set("proxy=http://a:1"));
    assert!(npm_proxy_is_set("xhttps-proxy=1"));
    assert!(!npm_proxy_is_set("registry=x\n"));
    assert!(!npm_proxy_is_set(""));
}

#[test]
fn shell_set_on_empty_file() {
    let expected = "\n# Proxy settings\n\
        export HTTP_PROXY=http://10.0.0.1:8080\n\
        export http_proxy=http://10.0.0.1:8080\n\
        export HTTPS_PROXY=http://10.0.0.1:8080\n\
        export https_proxy=http://10.0.0.1:8080\n";
    assert_eq!(setBashProxy("", URL).as_deref(), Some(expected));
    assert_eq!(setZshProxy("alias ll='ls -l'\n", URL).as_deref(), Some(expected));
}

#[test]
fn shell_set_adds_only_missing_variable() {
    let content = "export HTTP_PROXY=http://10.0.0.1:8080\n";
    assert_eq!(
        setBashProxy(content, URL).as_deref(),
        Some("\n# Proxy settings\nexport HTTPS_PROXY=http://10.0.0.1:8080\nexport https_proxy=http://10.0.0.1:8080\n")
    );
    let both = "export HTTP_PROXY=http://10.0.0.1:8080\nexport HTTPS_PROXY=http://10.0.0.1:8080\n";
    assert_eq!(setZshProxy(both, URL), None);
}

#[test]
fn shell_unset_drops_proxy_lines() {
    let content = "alias ll='ls -l'\n\n# Proxy settings\nexport HTTP_PROXY=http://a:1\nexport http_proxy=http://a:1\nexport HTTPS_PROXY=http://a:1\nexport https_proxy=http://a:1\nexport PATH=$PATH:~/bin\n";
    assert_eq!(unsetBashProxy(content), "alias ll='ls -l'\n\nexport PATH=$PATH:~/bin");
    assert_eq!(unsetZshProxy(content), "alias ll='ls -l'\n\nexport PATH=$PATH:~/bin");
}

#[test]
fn shell_status() {
    assert!(shell_proxy_is_set("export HTTP_PROXY=http://a:1\n"));
    assert!(!shell_proxy_is_set("export http_proxy=http://a:1\n"));
}

#[test]
fn apt_set_and_unset() {
    assert_eq!(
        setAptProxy("", URL).as_deref(),
        Some("Acquire::http::proxy \"http://10.0.0.1:8080\";\nAcquire::https::proxy \"http://10.0.0.1:8080\";\n")
    );
    let full = "Acquire::http::proxy \"http://10.0.0.1:8080\";\nAcquire::https::proxy \"http://10.0.0.1:8080\";\n";
    assert_eq!(setAptProxy(full, URL), None);
    let content = "APT::Get::Assume-Yes \"true\";\nAcquire::http::proxy \"http://a:1\";\nAcquire::https::proxy \"http://a:1\";\n";
    assert_eq!(unsetAptProxy(content), "APT::Get::Assume-Yes \"true\";");
}

#[test]
fn apt_status() {
    assert!(apt_proxy_is_set("Acquire::http::proxy \"http://a:1\";"));
    assert!(!apt_proxy_is_set("Acquire::https::proxy \"http://a:1\";"));
}

#[test]
fn set_then_status_reports_set() {
    for content in ["", "registry=x\n", "proxy=http://other:2\n"] {
        let updated = format!("{}{}", content, setNpmProxy(content, URL).unwrap_or_default());
        assert!(npm_proxy_is_set(&updated));
        assert_eq!(setNpmProxy(&updated, URL), None);
    }
    for content in ["", "export PATH=/bin\n", "export HTTPS_PROXY=http://10.0.0.1:8080"] {
        let updated = format!("{}{}", content, setBashProxy(content, URL).unwrap_or_default());
        assert!(shell_proxy_is_set(&updated));
        assert_eq!(setBashProxy(&updated, URL), None);
    }
    for content in ["", "Dir::Cache \"/tmp\";\n"] {
        let updated = format!("{}{}", content, setAptProxy(content, URL).unwrap_or_default());
        assert!(apt_proxy_is_set(&updated));
        assert_eq!(setAptProxy(&updated, URL), None);
    }
}

#[test]
fn unset_then_status_reports_not_set() {
    let npm = format!("a=1\n{}", setNpmProxy("", URL).unwrap());
    assert!(!npm_proxy_is_set(&unsetNpmProxy(&npm)));
    let shell = format!("x\r\n{}", setZshProxy("", URL).unwrap());
    assert!(!shell_proxy_is_set(&unsetZshProxy(&shell)));
    let apt = setAptProxy("", URL).unwrap();
    assert!(!apt_proxy_is_set(&unsetAptProxy(&apt)));
}

#[test]
fn unset_undoes_set() {
    for s in ["", "registry=https://r.example\n", "a\n\nsave=true\n"] {
        let updated = format!("{}{}", s, setNpmProxy(s, URL).unwrap());
        assert_eq!(unsetNpmProxy(&updated), s.lines().collect::<Vec<_>>().join("\n"));
    }
    for s in ["", "Dir::Cache \"/tmp\";\n"] {
        let updated = format!("{}{}", s, setAptProxy(s, URL).unwrap());
        assert_eq!(unsetAptProxy(&updated), s.lines().collect::<Vec<_>>().join("\n"));
    }
    for s in ["", "alias ll='ls -l'", "export PATH=/bin\n", "a\n\n"] {
        let updated = format!("{}{}", s, setBashProxy(s, URL).unwrap());
        assert_eq!(unsetBashProxy(&updated), s);
        let updated = format!("{}{}", s, setZshProxy(s, URL).unwrap());
        assert_eq!(unsetZshProxy(&updated), s);
    }
}
