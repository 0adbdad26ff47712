use webx_metrics_pro::cookies::{access_cookie, extract_cookie, refresh_cookie};
use webx_metrics_pro::auth::{hash_password, refresh_claims, UserRow};
use webx_metrics_pro::config::{check_startup_config, ConfigError};
use webx_metrics_pro::session::{
    login, login_grant, logout, record_allows, refresh_step, require_admin, token_usable, ApiError,
    RefreshAction, RefreshEvent, RefreshState, TokenRecord,
};

fn admin() -> UserRow {
    UserRow {
        username: "admin".into(),
        password_hash: hash_password("admin-pass").unwrap(),
        role: "admin".into(),
    }
}

const NOW: (i64, u32) = (1_700_000_000, 0);

#[test]
fn login_with_right_password() {
    let g = login_grant(Some(admin()), "admin-pass", NOW, "a".into(), "r".into()).expect("grant");
    assert_eq!(g.access.sub, "admin");
    assert_eq!(g.access.role, "admin");
    assert_eq!(g.access.exp, 1_700_000_900);
    assert_eq!(g.refresh.role, "refresh");
    assert_eq!(g.refresh.jti, "r");
    assert_eq!(g.refresh_expires_at, "2023-11-21T22:13:20+00:00");
}

#[test]
fn login_refused() {
    assert_eq!(
        login_grant(Some(admin()), "wrong", NOW, "a".into(), "r".into()).err(),
        Some(ApiError::Unauthorized)
    );
    assert_eq!(login_grant(None, "admin-pass", NOW, "a".into(), "r".into()).err(), Some(ApiError::Unauthorized));
    assert!(login(Some(admin()), "admin-pass").is_ok());
    assert_eq!(login(Some(admin()), "nope").err(), Some(ApiError::Unauthorized));
}

#[test]
fn exports_are_admin_only() {
    assert_eq!(require_admin("admin"), Ok(()));
    assert_eq!(require_admin("viewer"), Err(ApiError::Forbidden));
    assert_eq!(require_admin("refresh"), Err(ApiError::Forbidden));
}

#[test]
fn stored_token_checks() {
    assert!(token_usable(false, Some((100, 0)), (100, 0)));
    assert!(!token_usable(false, Some((100, 0)), (100, 1)));
    assert!(!token_usable(true, Some((100, 0)), (50, 0)));
    assert!(!token_usable(false, None, (50, 0)));
    let rec = |revoked: bool, at: &str| TokenRecord { revoked, expires_at: at.to_string() };
    assert!(record_allows(&rec(false, "2023-11-21T22:13:20+00:00"), NOW));
    assert!(!record_allows(&rec(false, "2000-01-01T00:00:00Z"), NOW));
    assert!(!record_allows(&rec(false, "not a date"), NOW));
    assert!(!record_allows(&rec(true, "2999-01-01T00:00:00Z"), NOW));
}

fn drive(events: Vec<RefreshEvent>) -> Vec<RefreshAction> {
    let mut state = RefreshState::AwaitClaims;
    let mut out = Vec::new();
    for ev in events {
        let (s, a) = refresh_step(state, ev, NOW, "na".into(), "nr".into());
        state = s;
        out.push(a);
    }
    out
}

#[test]
fn refresh_api_returns_new_access_token() {
    let claims = refresh_claims("admin", NOW.0 - 10, "old-id".into());
    let record = TokenRecord { revoked: false, expires_at: "2023-11-21T22:13:20+00:00".into() };
    let actions = drive(vec![
        RefreshEvent::Token(Some(claims)),
        RefreshEvent::Record(Some(record)),
        RefreshEvent::User(Some(admin())),
    ]);
    assert!(matches!(&actions[0], RefreshAction::LoadRecord(j) if j == "old-id"));
    assert!(matches!(&actions[1], RefreshAction::LoadUser(u) if u == "admin"));
    match &actions[2] {
        RefreshAction::Rotate(rot) => {
            assert_eq!(rot.revoke_jti, "old-id");
            assert_eq!(rot.grant.access.sub, "admin");
            assert_eq!(rot.grant.access.jti, "na");
            assert_eq!(rot.grant.refresh.jti, "nr");
            assert_eq!(rot.grant.refresh.role, "refresh");
        }
        other => panic!("expected rotation, got {:?}", other),
    }
}

#[test]
fn test_revoked_refresh_token_fails() {
    let claims = refresh_claims("admin", NOW.0, "old-id".into());
    let record = TokenRecord { revoked: true, expires_at: "2999-01-01T00:00:00Z".into() };
    let actions = drive(vec![RefreshEvent::Token(Some(claims)), RefreshEvent::Record(Some(record))]);
    assert!(matches!(actions[1], RefreshAction::Reject(ApiError::Unauthorized)));
}

#[test]
fn refresh_refusals() {
    // No token, or one that did not verify.
    assert!(matches!(drive(vec![RefreshEvent::Token(None)])[0], RefreshAction::Reject(ApiError::Unauthorized)));
    // An access token is not a refresh token.
    let access = webx_metrics_pro::auth::access_claims("admin", "admin", NOW.0, "x".into());
    assert!(matches!(
        drive(vec![RefreshEvent::Token(Some(access))])[0],
        RefreshAction::Reject(ApiError::Unauthorized)
    ));
    // Unknown identifier, expired record, vanished user, storage failure.
    let c = || refresh_claims("admin", NOW.0, "id".into());
    assert!(matches!(
        drive(vec![RefreshEvent::Token(Some(c())), RefreshEvent::Record(None)])[1],
        RefreshAction::Reject(ApiError::Unauthorized)
    ));
    let expired = TokenRecord { revoked: false, expires_at: "2023-11-14T22:13:19Z".into() };
    assert!(matches!(
        drive(vec![RefreshEvent::Token(Some(c())), RefreshEvent::Record(Some(expired))])[1],
        RefreshAction::Reject(ApiError::Unauthorized)
    ));
    let ok = TokenRecord { revoked: false, expires_at: "2023-11-14T22:13:20Z".into() };
    assert!(matches!(
        drive(vec![RefreshEvent::Token(Some(c())), RefreshEvent::Record(Some(ok)), RefreshEvent::User(None)])[2],
        RefreshAction::Reject(ApiError::Unauthorized)
    ));
    assert!(matches!(
        drive(vec![RefreshEvent::Token(Some(c())), RefreshEvent::StorageFailed])[1],
        RefreshAction::Reject(ApiError::Internal)
    ));
}

#[test]
fn startup_config_checks() {
    let jwt = "abcdefghijklmnopqrstuvwxyz012345";
    let ok = |j: Option<&str>, a: Option<&str>, v: Option<&str>, p: Option<&str>| check_startup_config(j, a, v, p);
    assert_eq!(ok(Some(jwt), Some("admin-pass"), Some("viewer-pass"), Some("p")), Ok(()));
    assert_eq!(ok(None, Some("admin-pass"), Some("viewer-pass"), Some("p")), Err(ConfigError::MissingJwtSecret));
    assert_eq!(
        ok(Some("  short secret padded with spaces      "), Some("admin-pass"), Some("viewer-pass"), Some("p")),
        Err(ConfigError::ShortJwtSecret)
    );
    assert_eq!(ok(Some(jwt), None, Some("viewer-pass"), Some("p")), Err(ConfigError::MissingAdminPass));
    assert_eq!(ok(Some(jwt), Some(" 1234567 "), Some("viewer-pass"), Some("p")), Err(ConfigError::ShortAdminPass));
    assert_eq!(ok(Some(jwt), Some("12345678"), None, Some("p")), Err(ConfigError::MissingViewerPass));
    assert_eq!(ok(Some(jwt), Some("12345678"), Some("viewer1"), Some("p")), Err(ConfigError::ShortViewerPass));
    assert_eq!(ok(Some(jwt), Some("12345678"), Some("viewer12"), None), Err(ConfigError::MissingPromToken));
    // Byte length counts: eight two-byte characters pass.
    assert_eq!(ok(Some(jwt), Some("ąćęłńóśź"), Some("viewer12"), Some("p")), Ok(()));
    assert_eq!(ok(Some(jwt), Some("ąćęł"), Some("viewer12"), Some("p")), Ok(()));
}

#[test]
fn test_logout_revokes_refresh_token() {
    let claims = refresh_claims("admin", NOW.0, "jti-1".into());
    let plan = logout(Some(claims));
    assert_eq!(plan.revoke_jti, Some("jti-1".to_string()));
    assert_eq!(
        plan.set_cookies,
        vec![
            "access_token=; Path=/; Expires=Thu, 01 Jan 1970 00:00:00 GMT".to_string(),
            "refresh_token=; Path=/api/auth/refresh; Expires=Thu, 01 Jan 1970 00:00:00 GMT".to_string(),
        ]
    );
    let plan = logout(None);
    assert_eq!(plan.revoke_jti, None);
    assert_eq!(plan.set_cookies.len(), 2);
}

#[test]
fn login_then_refresh_rotates_the_granted_token() {
    let g = login_grant(Some(admin()), "admin-pass", NOW, "a1".into(), "r1".into()).unwrap();
    let record = TokenRecord { revoked: false, expires_at: g.refresh_expires_at.clone() };
    let later = (NOW.0 + 3600, 0);
    let mut state = RefreshState::AwaitClaims;
    let mut actions = Vec::new();
    for ev in [
        RefreshEvent::Token(Some(g.refresh.clone())),
        RefreshEvent::Record(Some(record)),
        RefreshEvent::User(Some(admin())),
    ] {
        let (s, a) = refresh_step(state, ev, later, "a2".into(), "r2".into());
        state = s;
        actions.push(a);
    }
    match &actions[2] {
        RefreshAction::Rotate(rot) => {
            assert_eq!(rot.revoke_jti, "r1");
            assert_eq!(rot.grant.refresh.jti, "r2");
            assert_eq!(rot.grant.access.iat, (NOW.0 + 3600) as usize);
        }
        other => panic!("expected rotation, got {:?}", other),
    }
}

#[test]
fn expiry_text_reads_back_exactly() {
    // The last instant RFC 3339 can write with four year digits, with nanoseconds.
    let issued = (253_402_300_799 - 604_800, 999_999_999u32);
    let g = login_grant(Some(admin()), "admin-pass", issued, "a".into(), "r".into()).unwrap();
    assert_eq!(g.refresh_expires_at, "9999-12-31T23:59:59.999999999+00:00");
    let rec = TokenRecord { revoked: false, expires_at: g.refresh_expires_at.clone() };
    assert!(record_allows(&rec, (253_402_300_799, 999_999_999)));
    assert!(!record_allows(&rec, (253_402_300_800, 0)));
    // The first instant of year zero, five milliseconds in.
    let g = login_grant(Some(admin()), "admin-pass", (-62_167_219_200 - 604_800, 5_000_000), "a".into(), "r".into())
        .unwrap();
    assert_eq!(g.refresh_expires_at, "0000-01-01T00:00:00.005+00:00");
    let rec = TokenRecord { revoked: false, expires_at: g.refresh_expires_at.clone() };
    assert!(record_allows(&rec, (-62_167_219_200, 5_000_000)));
    assert!(!record_allows(&rec, (-62_167_219_200, 5_000_001)));
}

#[test]
fn login_api_sets_access_and_refresh_tokens() {
    let g = login(Some(admin()), "admin-pass").expect("response");
    // Stand-ins for the signed tokens: any cookie-safe text reads back.
    let access = format!("{}.{}", g.access.sub, g.access.jti);
    let refresh = format!("{}.{}", g.refresh.sub, g.refresh.jti);
    let set_access = access_cookie(&access, false);
    let set_refresh = refresh_cookie(&refresh, false);
    assert!(extract_cookie(Some(&set_access), "access_token").is_some(), "access_token cookie missing");
    assert!(extract_cookie(Some(&set_refresh), "refresh_token").is_some(), "refresh_token cookie missing");
    assert_eq!(g.access.role, "admin");
    assert_eq!(g.refresh.role, "refresh");
}
