use zust_core::cookies::{parse_set_cookie, CookieJar};
use zust_core::session::HttpSession;
use zust_core::error::ZustError;

fn pairs(list: &[(&str, &str)]) -> Vec<(String, String)> {
    list.iter().map(|(k, v)| (k.to_string(), v.to_string())).collect()
}

#[test]
fn test_session_creation() {
    let session = HttpSession::new();
    assert!(session.is_ok());
}

#[test]
fn test_session_from_cookies() {
    let cookies = pairs(&[("test", "value")]);
    let session = HttpSession::from_cookies(&cookies);
    assert!(session.is_ok());
    assert_eq!(session.unwrap().cookie("test"), Some("value"));
}

#[test]
fn test_cookie_header() {
    let session = HttpSession::from_cookies(&pairs(&[("a", "1"), ("b", "2")])).unwrap();
    let header = session.cookie_header().unwrap();
    assert!(header.contains("a=1"));
    assert!(header.contains("b=2"));
    assert!(header.contains("; "));
}

#[test]
fn test_has_cookie() {
    let cookies = pairs(&[("MOD_AUTH_CAS", "xxx")]);
    let session = HttpSession::from_cookies(&cookies).unwrap();
    assert!(session.has_cookie("MOD_AUTH_CAS"));
    assert!(!session.has_cookie("nonexistent"));
}

#[test]
fn test_resolve_relative_redirect() {
    let resolved = HttpSession::resolve_redirect(
        "https://authserver.zust.edu.cn/authserver/login?service=x",
        "/authserver/reAuthCheck/reAuthLoginView.do?isMultifactor=true",
    )
    .unwrap();
    assert_eq!(
        resolved,
        "https://authserver.zust.edu.cn/authserver/reAuthCheck/reAuthLoginView.do?isMultifactor=true"
    );
}

#[test]
fn resolve_absolute_redirect_and_bad_base() {
    assert_eq!(
        HttpSession::resolve_redirect("https://a.example/x", "https://b.example/y").unwrap(),
        "https://b.example/y"
    );
    match HttpSession::resolve_redirect("not a url", "/y") {
        Err(ZustError::Http(m)) => assert!(m.starts_with("Invalid redirect base URL: ")),
        _ => panic!("expected an HTTP error"),
    }
}

#[test]
fn empty_session_has_no_cookie_header() {
    let session = HttpSession::new().unwrap();
    assert_eq!(session.cookie_header(), None);
}

#[test]
fn later_pair_wins_and_set_cookie_replaces() {
    let mut session = HttpSession::from_cookies(&pairs(&[("a", "1"), ("a", "2")])).unwrap();
    assert_eq!(session.cookie("a"), Some("2"));
    session.set_cookie("a".to_string(), "3".to_string());
    assert_eq!(session.cookies_as_dict(), pairs(&[("a", "3")]));
    session.merge_cookies(&pairs(&[("b", "4"), ("a", "5")]));
    assert_eq!(session.cookies_as_dict(), pairs(&[("a", "5"), ("b", "4")]));
    assert_eq!(session.cookie_header().unwrap(), "a=5; b=4");
}

#[test]
fn saved_cookies_restore_the_session() {
    let mut s = HttpSession::new().unwrap();
    s.set_cookie("x".to_string(), "1".to_string());
    s.set_cookie("y".to_string(), "2".to_string());
    let saved = s.cookies_as_dict();
    let restored = HttpSession::from_cookies(&saved).unwrap();
    assert_eq!(restored.cookies_as_dict(), saved);
}

#[test]
fn set_cookie_headers_are_collected() {
    let mut s = HttpSession::new().unwrap();
    let n = s.collect_set_cookies(&[
        "JSESSIONID=abc; Path=/; HttpOnly".to_string(),
        "Path=/; x=1".to_string(),
        "route = r1 ; Secure".to_string(),
    ]);
    assert_eq!(n, 2);
    assert_eq!(s.cookie("JSESSIONID"), Some("abc"));
    assert_eq!(s.cookie("route"), Some("r1"));
    assert!(!s.has_cookie("x"));
}

#[test]
fn set_cookie_pair_parsing() {
    assert_eq!(parse_set_cookie("k=v; Path=/"), Some(("k".to_string(), "v".to_string())));
    assert_eq!(parse_set_cookie("Domain=x"), None);
    assert_eq!(parse_set_cookie("novalue"), None);
    assert_eq!(parse_set_cookie("=v"), None);
}

#[test]
fn cookie_jar_basics() {
    let mut j = CookieJar::new();
    assert!(j.is_empty());
    j.insert("a".to_string(), "1".to_string());
    assert_eq!(j.get("a"), Some("1"));
    assert!(!j.is_empty());
}

#[test]
fn client_settings_of_the_session() {
    let s = zust_core::session::client_settings();
    assert_eq!(s.user_agent, zust_core::session::USER_AGENT);
    assert!(s.accept_invalid_certs && s.cookie_store && s.gzip && s.brotli);
    assert!(matches!(s.redirects, zust_core::session::Redirects::Manual));
    assert_eq!((s.connect_timeout_secs, s.timeout_secs), (10, 30));
}
