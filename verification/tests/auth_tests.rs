use webx_metrics_pro::auth::{
    access_claims, create_access_claims, create_refresh_claims, hash_password, refresh_claims,
    verify_password,
};

#[test]
fn hash_then_verify() {
    let h = hash_password("admin-pass").expect("hash");
    assert!(h.starts_with("$argon2"), "stored password should be hashed");
    assert!(verify_password(&h, "admin-pass"));
    assert!(!verify_password(&h, "admin-pass2"));
}

#[test]
fn hashes_are_salted() {
    let a = hash_password("same").unwrap();
    let b = hash_password("same").unwrap();
    assert_ne!(a, b);
    assert!(verify_password(&a, "same") && verify_password(&b, "same"));
}

#[test]
fn verify_rejects_non_hash() {
    assert!(!verify_password("not a hash", "x"));
    assert!(!verify_password("", ""));
}

#[test]
fn access_claims_fields() {
    let c = access_claims("admin", "admin", 1_700_000_000, "id-1".to_string());
    assert_eq!(c.sub, "admin");
    assert_eq!(c.role, "admin");
    assert_eq!(c.iat, 1_700_000_000);
    assert_eq!(c.exp, 1_700_000_900);
    assert_eq!(c.jti, "id-1");
    assert_eq!(c.iss, "webx-metrics-pro");
    assert_eq!(c.aud, "webx-client");
}

#[test]
fn refresh_claims_fields() {
    let c = refresh_claims("viewer", 1_700_000_000, "id-2".to_string());
    assert_eq!(c.role, "refresh");
    assert_eq!(c.exp, 1_700_000_000 + 7 * 24 * 3600);
    assert_eq!(c.sub, "viewer");
}

#[test]
fn fresh_claims_carry_new_ids() {
    let a = create_access_claims("u", "viewer");
    let r = create_refresh_claims("u");
    assert_eq!(a.jti.len(), 36);
    assert_eq!(r.jti.len(), 36);
    assert_ne!(a.jti, r.jti);
    assert_eq!(a.exp - a.iat, 900);
    assert_eq!(r.exp - r.iat, 604_800);
}

fn is_uuid_v4_text(s: &str) -> bool {
    let cs: Vec<char> = s.chars().collect();
    if cs.len() != 36 {
        return false;
    }
    for (i, c) in cs.iter().enumerate() {
        let ok = match i {
            8 | 13 | 18 | 23 => *c == '-',
            14 => *c == '4',
            19 => matches!(c, '8' | '9' | 'a' | 'b'),
            _ => c.is_ascii_digit() || ('a'..='f').contains(c),
        };
        if !ok {
            return false;
        }
    }
    true
}

#[test]
fn token_ids_are_uuid_v4() {
    let a = create_access_claims("admin", "admin");
    let r = create_refresh_claims("admin");
    assert!(is_uuid_v4_text(&a.jti), "{}", a.jti);
    assert!(is_uuid_v4_text(&r.jti), "{}", r.jti);
}
