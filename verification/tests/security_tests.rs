use webx_metrics_pro::security::{
    bearer_authorized, client_ip_candidates, csrf_allows, generate_csrf_token, security_headers,
};

/// A dotted IPv4 address: four decimal parts of at most three digits, each
/// at most 255.
fn is_ipv4(s: &str) -> bool {
    let parts: Vec<&str> = s.split('.').collect();
    parts.len() == 4
        && parts.iter().all(|p| {
            !p.is_empty() && p.len() <= 3 && p.chars().all(|c| c.is_ascii_digit()) && p.parse::<u32>().unwrap() <= 255
        })
}

fn first_address(candidates: Vec<String>) -> Option<String> {
    candidates.into_iter().find(|c| is_ipv4(c))
}

#[test]
fn test_client_ip_from_headers() {
    // X-Forwarded-For: the last hop is the one the trusted proxy appended.
    let ip = first_address(client_ip_candidates(
        Some("203.0.113.195, 70.41.3.18, 150.172.238.178"),
        None,
    ))
    .expect("should extract IP");
    assert_eq!(ip, "150.172.238.178");

    // X-Real-IP fallback
    let ip = first_address(client_ip_candidates(None, Some("198.51.100.1"))).expect("should extract IP");
    assert_eq!(ip, "198.51.100.1");

    // No IP headers
    assert!(first_address(client_ip_candidates(None, None)).is_none());
}

#[test]
fn ip_candidates_order_and_trim() {
    assert_eq!(
        client_ip_candidates(Some("1.1.1.1,  2.2.2.2 "), Some(" 3.3.3.3\t")),
        vec!["2.2.2.2".to_string(), "3.3.3.3".to_string()]
    );
    assert_eq!(client_ip_candidates(Some("4.4.4.4"), None), vec!["4.4.4.4".to_string()]);
    assert_eq!(client_ip_candidates(Some("1.1.1.1,"), None), vec![String::new()]);
}

#[test]
fn unparsable_forwarded_for_falls_back_to_real_ip() {
    let ip = first_address(client_ip_candidates(Some("1.1.1.1, garbage"), Some("9.9.9.9")));
    assert_eq!(ip, Some("9.9.9.9".to_string()));
}

#[test]
fn csrf_safe_methods_pass() {
    assert!(csrf_allows("GET", "/api/metrics/all", None, None));
    assert!(csrf_allows("HEAD", "/", None, None));
}

#[test]
fn csrf_login_and_refresh_exempt() {
    assert!(csrf_allows("POST", "/api/auth/login", None, None));
    assert!(csrf_allows("POST", "/api/auth/refresh", None, None));
    assert!(!csrf_allows("POST", "/api/auth/logout", None, None));
}

#[test]
fn csrf_double_submit() {
    let cookie = Some("access_token=a; csrf_token=tok123");
    assert!(csrf_allows("POST", "/api/export/pdf", cookie, Some("tok123")));
    assert!(csrf_allows("DELETE", "/x", cookie, Some("tok123")));
    assert!(!csrf_allows("POST", "/api/export/pdf", cookie, Some("tok124")));
    assert!(!csrf_allows("PUT", "/api/export/pdf", cookie, None));
    assert!(!csrf_allows("PATCH", "/api/export/pdf", Some("access_token=a"), Some("tok123")));
    assert!(!csrf_allows("POST", "/api/export/pdf", None, Some("tok123")));
}

#[test]
fn csrf_token_shape() {
    let t = generate_csrf_token();
    assert_eq!(t.len(), 43);
    assert!(t.chars().all(|c| c.is_ascii_alphanumeric() || c == '-' || c == '_'));
    assert_ne!(t, generate_csrf_token());
}

#[test]
fn metrics_bearer_check() {
    assert!(bearer_authorized(Some("Bearer test_prom_token_999"), "test_prom_token_999"));
    assert!(!bearer_authorized(Some("Bearer wrong"), "test_prom_token_999"));
    assert!(!bearer_authorized(Some("bearer test_prom_token_999"), "test_prom_token_999"));
    assert!(!bearer_authorized(None, "test_prom_token_999"));
}

#[test]
fn response_security_headers() {
    let h = security_headers();
    assert_eq!(h.len(), 7);
    assert_eq!(h[0], ("Strict-Transport-Security".to_string(), "max-age=63072000; includeSubDomains; preload".to_string()));
    assert_eq!(h[1], ("X-Content-Type-Options".to_string(), "nosniff".to_string()));
    assert_eq!(h[2], ("X-Frame-Options".to_string(), "DENY".to_string()));
    assert_eq!(h[3].0, "Content-Security-Policy");
    assert!(h[3].1.contains("frame-ancestors 'none'"));
    assert!(!h[3].1.contains("unsafe-inline"));
    assert_eq!(h[4], ("Permissions-Policy".to_string(), "geolocation=(), microphone=(), camera=()".to_string()));
    assert_eq!(h[5], ("Referrer-Policy".to_string(), "no-referrer".to_string()));
    assert_eq!(h[6], ("Cross-Origin-Opener-Policy".to_string(), "same-origin".to_string()));
}
