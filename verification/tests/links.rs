use whatstauri::links::{is_browser_wall, is_internal, navigation_policy, NavigationPolicy, UrlParts};

fn u(s: &str) -> UrlParts {
    UrlParts::parse(s).unwrap()
}

#[test]
fn whatsapp_domains_stay_internal() {
    assert!(is_internal(&u("https://web.whatsapp.com/")));
    assert!(is_internal(&u("https://whatsapp.com/x")));
    assert!(is_internal(&u("https://static.whatsapp.net/rsrc.php/x.js")));
    assert!(is_internal(&u("https://whatsapp.net/")));
}

#[test]
fn lookalikes_and_other_hosts_are_external() {
    assert!(!is_internal(&u("https://evil-whatsapp.com/")));
    assert!(!is_internal(&u("https://whatsapp.com.evil.com/")));
    assert!(!is_internal(&u("https://google.com/")));
    assert!(!is_internal(&u("https://web.whatsapp.com./"))); // trailing-dot FQDN must not match the suffix check
}

#[test]
fn non_https_is_external() {
    assert!(!is_internal(&u("http://web.whatsapp.com/")));
}

#[test]
fn detects_unsupported_browser_page() {
    assert!(is_browser_wall(&u(
        "https://web.whatsapp.com/browsers.html?missing=x"
    )));
    assert!(!is_browser_wall(&u("https://web.whatsapp.com/")));
}

#[test]
fn parse_gives_scheme_host_path() {
    let p = u("HTTPS://Web.WhatsApp.com/a/b?q=1#f");
    assert_eq!(p.scheme, "https");
    assert_eq!(p.host.as_deref(), Some("web.whatsapp.com"));
    assert_eq!(p.path, "/a/b");
    assert!(UrlParts::parse("not a url").is_none());
    let m = u("mailto:someone@whatsapp.com");
    assert_eq!(m.host, None);
    assert!(!is_internal(&m));
}

#[test]
fn policy_of_navigations() {
    assert_eq!(navigation_policy(&u("https://web.whatsapp.com/browsers.html")), NavigationPolicy::BrowserWall);
    assert_eq!(navigation_policy(&u("https://faq.whatsapp.com/")), NavigationPolicy::Internal);
    assert_eq!(navigation_policy(&u("https://example.org/browsers.html")), NavigationPolicy::External);
}

#[test]
fn hand_built_parts() {
    let p = UrlParts { scheme: "https".to_string(), host: Some("a.whatsapp.net".to_string()), path: "/".to_string() };
    assert!(is_internal(&p));
    let q = UrlParts { scheme: "https".to_string(), host: Some(".whatsapp.net".to_string()), path: "/".to_string() };
    assert!(is_internal(&q));
    let r = UrlParts { scheme: "https".to_string(), host: Some("whatsapp.ne".to_string()), path: "/".to_string() };
    assert!(!is_internal(&r));
}
