use webx_metrics_pro::cookies::{
    access_cookie, csrf_cookie, expired_access_cookie, expired_refresh_cookie, extract_cookie,
    refresh_cookie, secure_cookies,
};
use webx_metrics_pro::security::generate_csrf_token;

#[test]
fn extract_cookie_finds_named_value() {
    let h = "theme=dark; access_token=abc.def.ghi; refresh_token=xyz";
    assert_eq!(extract_cookie(Some(h), "access_token"), Some("abc.def.ghi".to_string()));
    assert_eq!(extract_cookie(Some(h), "refresh_token"), Some("xyz".to_string()));
    assert_eq!(extract_cookie(Some(h), "theme"), Some("dark".to_string()));
}

#[test]
fn extract_cookie_missing() {
    assert_eq!(extract_cookie(None, "access_token"), None);
    assert_eq!(extract_cookie(Some("a=1; b=2"), "access_token"), None);
    assert_eq!(extract_cookie(Some(""), "a"), None);
}

#[test]
fn extract_cookie_needs_exact_name() {
    // `access_token_old=` does not start with `access_token=`.
    assert_eq!(extract_cookie(Some("access_token_old=1"), "access_token"), None);
    assert_eq!(extract_cookie(Some("xaccess_token=1"), "access_token"), None);
}

#[test]
fn extract_cookie_trims_and_takes_first() {
    assert_eq!(extract_cookie(Some("  a=1 ;a=2"), "a"), Some("1".to_string()));
    assert_eq!(extract_cookie(Some("a="), "a"), Some(String::new()));
    assert_eq!(extract_cookie(Some("b=1;\ta=x=y "), "a"), Some("x=y".to_string()));
}

#[test]
fn session_cookie_texts() {
    assert_eq!(access_cookie("T", false), "access_token=T; Path=/; SameSite=Strict; HttpOnly");
    assert_eq!(
        refresh_cookie("R", true),
        "refresh_token=R; Path=/api/auth/refresh; SameSite=Strict; HttpOnly; Secure"
    );
    assert_eq!(csrf_cookie("C", false), "csrf_token=C; Path=/; SameSite=Strict; HttpOnly");
    assert_eq!(expired_access_cookie(), "access_token=; Path=/; Expires=Thu, 01 Jan 1970 00:00:00 GMT");
    assert_eq!(
        expired_refresh_cookie(),
        "refresh_token=; Path=/api/auth/refresh; Expires=Thu, 01 Jan 1970 00:00:00 GMT"
    );
}

#[test]
fn set_cookie_reads_back() {
    let token = "eyJhbGciOiJIUzI1NiJ9.e30.sig";
    let set = access_cookie(token, true);
    assert_eq!(extract_cookie(Some(&set), "access_token"), Some(token.to_string()));
    let set = refresh_cookie(token, false);
    assert_eq!(extract_cookie(Some(&set), "refresh_token"), Some(token.to_string()));
}

#[test]
fn csrf_token_reads_back_from_its_cookie() {
    let token = generate_csrf_token();
    let set = csrf_cookie(&token, false);
    assert_eq!(extract_cookie(Some(&set), "csrf_token"), Some(token));
}

#[test]
fn secure_only_in_production() {
    assert!(secure_cookies(Some("production")));
    assert!(!secure_cookies(Some("development")));
    assert!(!secure_cookies(Some("Production")));
    assert!(!secure_cookies(None));
}
