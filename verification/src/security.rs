//! Request screening: CSRF double submit, client address candidates, the
//! scrape token of `/metrics`, response security headers, and the request
//! limits per client.
use vstd::prelude::*;
use vstd::string::*;

use base64::engine::general_purpose::URL_SAFE_NO_PAD;
use base64::Engine;
use rand::RngCore;

use crate::cookies::{cookie_lookup, extract_cookie, plain_cookie_value};
use crate::limiter::{check_rate_limit, counted_now, RateLimiter};
use crate::text::{chars_of, same_text, trim, trim_range};

verus! {

broadcast use vstd::string::group_string_axioms;

/// Methods that change state and so must carry the CSRF token.
pub open spec fn state_changing(method: Seq<char>) -> bool {
    ||| method == "POST"@
    ||| method == "PUT"@
    ||| method == "DELETE"@
    ||| method == "PATCH"@
}

/// Paths that start a session and so cannot carry a CSRF token yet.
pub open spec fn csrf_exempt(path: Seq<char>) -> bool {
    path == "/api/auth/login"@ || path == "/api/auth/refresh"@
}

/// Whether a request passes the CSRF double-submit check: requests that do
/// not change state, and the login and refresh paths, always pass; any
/// other needs a `csrf_token` cookie and an `X-CSRF-Token` header that are
/// equal.
pub open spec fn csrf_pass(
    method: Seq<char>,
    path: Seq<char>,
    cookie_header: Option<Seq<char>>,
    csrf_header: Option<Seq<char>>,
) -> bool {
    if state_changing(method) && !csrf_exempt(path) {
        let from_cookie = match cookie_header {
            Some(h) => cookie_lookup(h, "csrf_token"@),
            None => None,
        };
        &&& from_cookie is Some
        &&& csrf_header is Some
        &&& from_cookie == csrf_header
    } else {
        true
    }
}

/// The characters of an optional string slice.
pub open spec fn opt_str(o: Option<&str>) -> Option<Seq<char>> {
    match o {
        Some(s) => Some(s@),
        None => None,
    }
}

/// The CSRF check of a request, from its method, path, `Cookie` header and
/// `X-CSRF-Token` header (each header when present and readable as text).
pub fn csrf_allows(method: &str, path: &str, cookie_header: Option<&str>, csrf_header: Option<&str>) -> (r: bool)
    ensures
        r == csrf_pass(method@, path@, opt_str(cookie_header), opt_str(csrf_header)),
{
    let changing = same_text(method, "POST") || same_text(method, "PUT") || same_text(method, "DELETE")
        || same_text(method, "PATCH");
    if !changing {
        return true;
    }
    if same_text(path, "/api/auth/login") || same_text(path, "/api/auth/refresh") {
        return true;
    }
    let from_cookie = extract_cookie(cookie_header, "csrf_token");
    match (from_cookie, csrf_header) {
        (Some(c), Some(h)) => same_text(c.as_str(), h),
        _ => false,
    }
}

/// A request that carries the same token in its `csrf_token` cookie and in
/// its header passes the check, whatever its method and path.
pub proof fn lemma_double_submit_passes(method: Seq<char>, path: Seq<char>, cookie_header: Seq<char>, token: Seq<char>)
    requires
        cookie_lookup(cookie_header, "csrf_token"@) == Some(token),
    ensures
        csrf_pass(method, path, Some(cookie_header), Some(token)),
{
}

/// A state-changing request to a path other than login and refresh that
/// lacks the header, or whose header differs from the cookie, is refused.
pub proof fn lemma_csrf_mismatch_refused(
    method: Seq<char>,
    path: Seq<char>,
    cookie_header: Option<Seq<char>>,
    csrf_header: Option<Seq<char>>,
)
    requires
        state_changing(method),
        !csrf_exempt(path),
        csrf_header is None || match cookie_header {
            Some(h) => cookie_lookup(h, "csrf_token"@) != csrf_header,
            None => true,
        },
    ensures
        !csrf_pass(method, path, cookie_header, csrf_header),
{
}

/// The URL-safe base64 character of a 6-bit value: `A`-`Z`, `a`-`z`,
/// `0`-`9`, `-`, `_`.
pub open spec fn b64_char(v: int) -> char {
    if v < 26 {
        (65 + v) as char
    } else if v < 52 {
        (97 + v - 26) as char
    } else if v < 62 {
        (48 + v - 52) as char
    } else if v == 62 {
        '-'
    } else {
        '_'
    }
}

/// URL-safe base64 without padding (RFC 4648, section 5): each three bytes
/// become four characters of six bits each; a last one or two bytes become
/// two or three characters, the missing bits being zero.
pub open spec fn base64_url_nopad(b: Seq<u8>) -> Seq<char>
    decreases b.len(),
{
    if b.len() >= 3 {
        let n = b[0] * 65536 + b[1] * 256 + b[2];
        seq![b64_char(n / 262144), b64_char((n / 4096) % 64), b64_char((n / 64) % 64), b64_char(n % 64)]
            + base64_url_nopad(b.skip(3))
    } else if b.len() == 2 {
        let n = (b[0] * 256 + b[1]) * 4;
        seq![b64_char(n / 4096), b64_char((n / 64) % 64), b64_char(n % 64)]
    } else if b.len() == 1 {
        let n = b[0] * 16;
        seq![b64_char(n / 64), b64_char(n % 64)]
    } else {
        Seq::<char>::empty()
    }
}

/// The characters of the URL-safe base64 alphabet.
pub open spec fn url_safe_char(c: char) -> bool {
    ||| ('A' <= c && c <= 'Z')
    ||| ('a' <= c && c <= 'z')
    ||| ('0' <= c && c <= '9')
    ||| c == '-'
    ||| c == '_'
}

/// Every character of URL-safe base64 comes from its alphabet, and the
/// text has four characters per whole three bytes, two or three for a
/// remainder of one or two.
pub proof fn lemma_base64_shape(b: Seq<u8>)
    ensures
        base64_url_nopad(b).len() == (4 * b.len() + 2) / 3,
        forall|i: int| 0 <= i < base64_url_nopad(b).len() ==> url_safe_char(#[trigger] base64_url_nopad(b)[i]),
    decreases b.len(),
{
    let e = base64_url_nopad(b);
    if b.len() >= 3 {
        lemma_base64_shape(b.skip(3));
        let n = b[0] * 65536 + b[1] * 256 + b[2];
        assert(n >= 0);
        let head = seq![b64_char(n / 262144), b64_char((n / 4096) % 64), b64_char((n / 64) % 64), b64_char(n % 64)];
        assert forall|i: int| 0 <= i < e.len() implies url_safe_char(#[trigger] e[i]) by {
            if i < 4 {
                assert(n / 262144 >= 0);
                assert(n / 4096 >= 0);
                assert(n / 64 >= 0);
                lemma_b64_char_safe(n / 262144);
                lemma_b64_char_safe((n / 4096) % 64);
                lemma_b64_char_safe((n / 64) % 64);
                lemma_b64_char_safe(n % 64);
                assert(e[i] == head[i]);
            } else {
                assert(e[i] == base64_url_nopad(b.skip(3))[i - 4]);
            }
        }
    } else if b.len() == 2 {
        let n = (b[0] * 256 + b[1]) * 4;
        assert(n >= 0 && n / 4096 >= 0 && n / 64 >= 0);
        lemma_b64_char_safe(n / 4096);
        lemma_b64_char_safe((n / 64) % 64);
        lemma_b64_char_safe(n % 64);
    } else if b.len() == 1 {
        let n = b[0] * 16;
        assert(n >= 0 && n / 64 >= 0);
        lemma_b64_char_safe(n / 64);
        lemma_b64_char_safe(n % 64);
    }
}

/// A 6-bit value (or any greater one) names a URL-safe character.
proof fn lemma_b64_char_safe(v: int)
    requires
        v >= 0,
    ensures
        url_safe_char(b64_char(v)),
{
}

/// `base64::Engine::encode` with `URL_SAFE_NO_PAD`. Claimed: the result is
/// the URL-safe base64 encoding of the input, without padding.
#[verifier::external_body]
fn encode_base64_url(bytes: &[u8]) -> (s: String)
    requires
        bytes@.len() < 0x1000_0000,
    ensures
        s@ == base64_url_nopad(bytes@),
{
    URL_SAFE_NO_PAD.encode(bytes)
}

/// `rand::RngCore::fill_bytes` with `rand::thread_rng()` over 32 bytes: the
/// bytes are random, so nothing is stated of them.
#[verifier::external_body]
fn random_bytes() -> [u8; 32] {
    let mut b = [0u8; 32];
    rand::thread_rng().fill_bytes(&mut b);
    b
}

/// A fresh CSRF token: 32 random bytes in URL-safe base64 without padding.
pub fn generate_csrf_token() -> (token: String)
    ensures
        exists|b: Seq<u8>| b.len() == 32 && token@ == base64_url_nopad(b),
        token@.len() == 43,
        plain_cookie_value(token@),
{
    let b = random_bytes();
    let token = encode_base64_url(&b);
    assert(b@.len() == 32);
    proof {
        lemma_base64_shape(b@);
        assert forall|i: int| 0 <= i < token@.len() implies #[trigger] token@[i] != ';' by {
            assert(url_safe_char(token@[i]));
        }
        assert(url_safe_char(token@.last()));
    }
    token
}

/// The piece of `s` after its last `c` (all of `s` when there is no `c`).
pub open spec fn last_piece(s: Seq<char>, c: char) -> Seq<char>
    decreases s.len(),
{
    if s.len() == 0 {
        s
    } else if s.last() == c {
        Seq::<char>::empty()
    } else {
        last_piece(s.drop_last(), c).push(s.last())
    }
}

/// The addresses a request may come from, in the order they are tried: the
/// last hop of `X-Forwarded-For` (the one the trusted proxy appended), then
/// `X-Real-IP`, each trimmed.
pub open spec fn ip_candidates(forwarded_for: Option<Seq<char>>, real_ip: Option<Seq<char>>) -> Seq<Seq<char>> {
    let first = match forwarded_for {
        Some(f) => seq![trim(last_piece(f, ','))],
        None => Seq::<Seq<char>>::empty(),
    };
    let second = match real_ip {
        Some(r) => seq![trim(r)],
        None => Seq::<Seq<char>>::empty(),
    };
    first + second
}

/// Where the last `c` of `v` ends: the piece after it starts here.
fn after_last(v: &Vec<char>, c: char) -> (k: usize)
    ensures
        k <= v.len(),
        v@.subrange(k as int, v.len() as int) == last_piece(v@, c),
{
    let mut k = v.len();
    assert(v@.take(v.len() as int) == v@);
    while k > 0 && v[k - 1] != c
        invariant
            k <= v.len(),
            last_piece(v@, c) == last_piece(v@.take(k as int), c) + v@.subrange(k as int, v.len() as int),
        decreases k,
    {
        proof {
            let t = v@.take(k as int);
            assert(t.drop_last() == v@.take(k - 1));
            assert(t.last() == v@[k - 1]);
            assert(last_piece(t, c) == last_piece(v@.take(k - 1), c).push(v@[k - 1]));
            assert(v@.subrange(k - 1, v.len() as int) == seq![v@[k - 1]] + v@.subrange(k as int, v.len() as int));
            assert(last_piece(v@.take(k - 1), c).push(v@[k - 1]) + v@.subrange(k as int, v.len() as int)
                == last_piece(v@.take(k - 1), c) + v@.subrange(k - 1, v.len() as int));
        }
        k = k - 1;
    }
    proof {
        if k > 0 {
            assert(v@.take(k as int).last() == v@[k - 1]);
        }
        assert(last_piece(v@.take(k as int), c) == Seq::<char>::empty());
        assert(Seq::<char>::empty() + v@.subrange(k as int, v.len() as int) == v@.subrange(k as int, v.len() as int));
    }
    k
}

/// The trimmed text of `s[from..]`.
fn trimmed_tail(s: &str, from_last: Option<char>) -> (r: String)
    ensures
        r@ == match from_last {
            Some(c) => trim(last_piece(s@, c)),
            None => trim(s@),
        },
{
    let v = chars_of(s);
    let k = match from_last {
        Some(c) => after_last(&v, c),
        None => 0,
    };
    let (lo, hi) = trim_range(&v, k, v.len());
    proof {
        if from_last is None {
            assert(v@.subrange(0, v.len() as int) == v@);
        }
    }
    s.substring_char(lo, hi).to_owned()
}

/// The client address candidates of a request, from its `X-Forwarded-For`
/// and `X-Real-IP` headers (each when present and readable as text), in the
/// order they are to be tried as addresses.
pub fn client_ip_candidates(forwarded_for: Option<&str>, real_ip: Option<&str>) -> (r: Vec<String>)
    ensures
        r@.map_values(|s: String| s@) == ip_candidates(opt_str(forwarded_for), opt_str(real_ip)),
{
    let mut r: Vec<String> = Vec::new();
    if let Some(f) = forwarded_for {
        r.push(trimmed_tail(f, Some(',')));
    }
    if let Some(x) = real_ip {
        r.push(trimmed_tail(x, None));
    }
    assert(r@.map_values(|s: String| s@) =~= ip_candidates(opt_str(forwarded_for), opt_str(real_ip)));
    r
}


/// Requests one client may make to the whole service in a window.
pub const GLOBAL_LIMIT: u32 = 100;

/// Login attempts one client may make in a window.
pub const LOGIN_LIMIT: u32 = 5;

/// The length of a limiter window: one minute.
pub const LIMIT_WINDOW_NS: u64 = 60_000_000_000;

/// `prefix` followed by `ip`, as a limiter key.
fn limit_key(prefix: &str, ip: &str) -> (k: String)
    ensures
        k@ == prefix@ + ip@,
{
    let mut k = String::from_str(prefix);
    k.append(ip);
    k
}

/// Counts one request of the client `ip` against the service-wide limit
/// (key `global:<ip>`) and says whether it is admitted.
pub fn check_global_rate(limiter: &mut RateLimiter, ip: &str) -> (admitted: bool)
    ensures
        counted_now(*old(limiter), *final(limiter), "global:"@ + ip@, GLOBAL_LIMIT, LIMIT_WINDOW_NS, admitted),
{
    let key = limit_key("global:", ip);
    check_rate_limit(limiter, key, GLOBAL_LIMIT, LIMIT_WINDOW_NS)
}

/// Counts one login attempt of the client `ip` (key `login:<ip>`) and says
/// whether it may go on.
pub fn check_login_rate(limiter: &mut RateLimiter, ip: &str) -> (admitted: bool)
    ensures
        counted_now(*old(limiter), *final(limiter), "login:"@ + ip@, LOGIN_LIMIT, LIMIT_WINDOW_NS, admitted),
{
    let key = limit_key("login:", ip);
    check_rate_limit(limiter, key, LOGIN_LIMIT, LIMIT_WINDOW_NS)
}

/// The text of a header, or nothing when it is absent.
pub open spec fn header_or_empty(h: Option<Seq<char>>) -> Seq<char> {
    match h {
        Some(t) => t,
        None => Seq::<char>::empty(),
    }
}

/// Whether an `Authorization` header (absent counts as empty) is exactly
/// `Bearer ` followed by the scrape token.
pub fn bearer_authorized(authorization: Option<&str>, prom_token: &str) -> (r: bool)
    ensures
        r == (header_or_empty(opt_str(authorization)) == "Bearer "@ + prom_token@),
{
    let expected = limit_key("Bearer ", prom_token);
    match authorization {
        Some(a) => {
            same_text(a, expected.as_str())
        },
        None => {
            proof {
                reveal_strlit("");
                assert(""@ =~= Seq::<char>::empty());
            }
            same_text("", expected.as_str())
        },
    }
}

/// The headers every response carries, with their values: HTTPS only,
/// no MIME sniffing, no framing, scripts and styles from the site itself
/// only, no device permissions, no referrer, an isolated browsing context.
pub open spec fn security_header_list() -> Seq<(Seq<char>, Seq<char>)> {
    seq![
        ("Strict-Transport-Security"@, "max-age=63072000; includeSubDomains; preload"@),
        ("X-Content-Type-Options"@, "nosniff"@),
        ("X-Frame-Options"@, "DENY"@),
        ("Content-Security-Policy"@, "default-src 'self'; script-src 'self'; style-src 'self'; img-src 'self' data:; object-src 'none'; frame-ancestors 'none'"@),
        ("Permissions-Policy"@, "geolocation=(), microphone=(), camera=()"@),
        ("Referrer-Policy"@, "no-referrer"@),
        ("Cross-Origin-Opener-Policy"@, "same-origin"@),
    ]
}

/// Adds one header pair to the list.
fn push_header(v: &mut Vec<(String, String)>, name: &str, value: &str)
    ensures
        final(v)@.map_values(|p: (String, String)| (p.0@, p.1@)) == old(v)@.map_values(
            |p: (String, String)| (p.0@, p.1@),
        ).push((name@, value@)),
{
    v.push((String::from_str(name), String::from_str(value)));
    assert(final(v)@.map_values(|p: (String, String)| (p.0@, p.1@)) =~= old(v)@.map_values(
        |p: (String, String)| (p.0@, p.1@),
    ).push((name@, value@)));
}

/// The security headers to set on a response, in order.
pub fn security_headers() -> (r: Vec<(String, String)>)
    ensures
        r@.map_values(|p: (String, String)| (p.0@, p.1@)) == security_header_list(),
{
    let mut v: Vec<(String, String)> = Vec::new();
    push_header(&mut v, "Strict-Transport-Security", "max-age=63072000; includeSubDomains; preload");
    push_header(&mut v, "X-Content-Type-Options", "nosniff");
    push_header(&mut v, "X-Frame-Options", "DENY");
    push_header(
        &mut v,
        "Content-Security-Policy",
        "default-src 'self'; script-src 'self'; style-src 'self'; img-src 'self' data:; object-src 'none'; frame-ancestors 'none'",
    );
    push_header(&mut v, "Permissions-Policy", "geolocation=(), microphone=(), camera=()");
    push_header(&mut v, "Referrer-Policy", "no-referrer");
    push_header(&mut v, "Cross-Origin-Opener-Policy", "same-origin");
    assert(v@.map_values(|p: (String, String)| (p.0@, p.1@)) =~= security_header_list());
    v
}

} // verus!
