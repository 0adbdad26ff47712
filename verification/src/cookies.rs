//! Reading cookies out of a `Cookie` request header, and the `Set-Cookie`
//! values the service sends.
use vstd::prelude::*;
use vstd::string::*;

use crate::text::{chars_of, is_ws, same_text, trim, trim_end, trim_start, trim_range};

verus! {

broadcast use vstd::string::group_string_axioms;

/// Index of the first `c` in `s`, or `s.len()` when `c` does not occur.
pub open spec fn find_char(s: Seq<char>, c: char) -> nat
    decreases s.len(),
{
    if s.len() == 0 {
        0
    } else if s[0] == c {
        0
    } else {
        1 + find_char(s.drop_first(), c)
    }
}

/// The value of the first cookie called `name` in a `Cookie` header: the
/// header is cut at each `;`, each piece is trimmed, and the first piece
/// that starts with `name=` gives what follows the `=`.
pub open spec fn cookie_lookup(s: Seq<char>, name: Seq<char>) -> Option<Seq<char>>
    decreases s.len(),
{
    let i = find_char(s, ';');
    let seg = trim(s.take(i as int));
    if (name + seq!['=']).is_prefix_of(seg) {
        Some(seg.skip(name.len() + 1int))
    } else if i < s.len() {
        cookie_lookup(s.skip(i + 1int), name)
    } else {
        None
    }
}

/// The characters of an optional string.
pub open spec fn opt_chars(o: Option<String>) -> Option<Seq<char>> {
    match o {
        Some(s) => Some(s@),
        None => None,
    }
}

/// A position with no `c` before it and `c` (or the end) at it is where
/// `find_char` points.
pub proof fn lemma_find_char(s: Seq<char>, c: char, i: int)
    requires
        0 <= i <= s.len(),
        forall|k: int| 0 <= k < i ==> #[trigger] s[k] != c,
        i == s.len() || s[i] == c,
    ensures
        find_char(s, c) == i,
    decreases i,
{
    if i > 0 {
        lemma_find_char(s.drop_first(), c, i - 1);
    }
}

/// `find_char` never points past the end.
pub proof fn lemma_find_char_bound(s: Seq<char>, c: char)
    ensures
        find_char(s, c) <= s.len(),
        find_char(s, c) < s.len() ==> s[find_char(s, c) as int] == c,
        forall|k: int| 0 <= k < find_char(s, c) ==> #[trigger] s[k] != c,
    decreases s.len(),
{
    if s.len() > 0 && s[0] != c {
        lemma_find_char_bound(s.drop_first(), c);
        assert forall|k: int| 0 <= k < find_char(s, c) implies #[trigger] s[k] != c by {
            if k > 0 {
                assert(s[k] == s.drop_first()[k - 1]);
            }
        }
    }
}

/// Index of the first `c` in `v[from..]`, or `v.len()` when there is none.
fn find_from(v: &Vec<char>, from: usize, c: char) -> (j: usize)
    requires
        from <= v.len(),
    ensures
        from <= j <= v.len(),
        j - from == find_char(v@.skip(from as int), c),
{
    let mut j = from;
    while j < v.len() && v[j] != c
        invariant
            from <= j <= v.len(),
            forall|k: int| from <= k < j ==> #[trigger] v@[k] != c,
        decreases v.len() - j,
    {
        j = j + 1;
    }
    proof {
        let s = v@.skip(from as int);
        assert forall|k: int| 0 <= k < j - from implies #[trigger] s[k] != c by {
            assert(s[k] == v@[from + k]);
        }
        lemma_find_char(s, c, j - from);
    }
    j
}

/// Whether `v[at..]` starts with `name` followed by `=`, inside `v[..end]`.
fn starts_with_name_eq(v: &Vec<char>, at: usize, end: usize, name: &Vec<char>) -> (r: bool)
    requires
        at <= end <= v.len(),
    ensures
        r == (name@ + seq!['=']).is_prefix_of(v@.subrange(at as int, end as int)),
{
    let ghost p = name@ + seq!['='];
    let ghost seg = v@.subrange(at as int, end as int);
    if end - at <= name.len() {
        return false;
    }
    let mut k: usize = 0;
    while k < name.len()
        invariant
            k <= name.len(),
            at + name.len() + 1 <= end <= v.len(),
            p == name@ + seq!['='],
            seg == v@.subrange(at as int, end as int),
            forall|i: int| 0 <= i < k ==> #[trigger] p[i] == seg[i],
        decreases name.len() - k,
    {
        if v[at + k] != name[k] {
            assert(p[k as int] != seg[k as int]);
            return false;
        }
        k = k + 1;
    }
    if v[at + name.len()] != '=' {
        assert(p[name.len() as int] != seg[name.len() as int]);
        return false;
    }
    assert(p =~= seg.subrange(0, p.len() as int));
    true
}

/// The value of the cookie called `name` in a `Cookie` header, when the
/// header is there and holds one.
pub fn extract_cookie(cookie_header: Option<&str>, name: &str) -> (r: Option<String>)
    ensures
        opt_chars(r) == (match cookie_header {
            Some(h) => cookie_lookup(h@, name@),
            None => None,
        }),
{
    let h = match cookie_header {
        Some(h) => h,
        None => return None,
    };
    let v = chars_of(h);
    let nm = chars_of(name);
    let mut pos: usize = 0;
    assert(v@.skip(0) == v@);
    loop
        invariant
            cookie_header == Some(h),
            v@ == h@,
            nm@ == name@,
            pos <= v.len(),
            cookie_lookup(h@, name@) == cookie_lookup(v@.skip(pos as int), name@),
        decreases v.len() - pos,
    {
        let j = find_from(&v, pos, ';');
        let (lo, hi) = trim_range(&v, pos, j);
        let ghost s = v@.skip(pos as int);
        let ghost seg = v@.subrange(lo as int, hi as int);
        proof {
            lemma_find_char_bound(s, ';');
            assert(s.take(j - pos) == v@.subrange(pos as int, j as int));
            assert(seg == trim(s.take(find_char(s, ';') as int)));
            assert(cookie_lookup(s, name@) == (if (name@ + seq!['=']).is_prefix_of(seg) {
                Some(seg.skip(name@.len() + 1int))
            } else if find_char(s, ';') < s.len() {
                cookie_lookup(s.skip(find_char(s, ';') + 1int), name@)
            } else {
                None
            }));
        }
        if starts_with_name_eq(&v, lo, hi, &nm) {
            let start = lo + nm.len() + 1;
            let out = h.substring_char(start, hi);
            proof {
                assert(out@ == seg.skip(name@.len() + 1int));
            }
            return Some(out.to_owned());
        }
        if j == v.len() {
            return None;
        }
        proof {
            assert(s.skip(j - pos + 1) == v@.skip(j + 1));
        }
        pos = j + 1;
    }
}


/// A `Set-Cookie` value for a session cookie: `name=value`, its path,
/// `SameSite=Strict`, `HttpOnly`, and `Secure` when asked for.
pub open spec fn set_cookie_text(name: Seq<char>, value: Seq<char>, path: Seq<char>, secure: bool) -> Seq<char> {
    name + seq!['='] + value + "; Path="@ + path + "; SameSite=Strict; HttpOnly"@ + (if secure {
        "; Secure"@
    } else {
        Seq::<char>::empty()
    })
}

/// Builds a session `Set-Cookie` value.
fn set_cookie(name: &str, value: &str, path: &str, secure: bool) -> (r: String)
    ensures
        r@ == set_cookie_text(name@, value@, path@, secure),
{
    let mut out = String::from_str(name);
    out.append("=");
    out.append(value);
    out.append("; Path=");
    out.append(path);
    out.append("; SameSite=Strict; HttpOnly");
    if secure {
        out.append("; Secure");
    }
    proof {
        reveal_strlit("=");
    }
    out
}

/// Whether cookies get the `Secure` attribute: when `APP_ENV` is `production`.
pub fn secure_cookies(app_env: Option<&str>) -> (r: bool)
    ensures
        r == (match app_env {
            Some(e) => e@ == "production"@,
            None => false,
        }),
{
    match app_env {
        Some(e) => same_text(e, "production"),
        None => false,
    }
}

/// The `Set-Cookie` value that hands out an access token.
pub fn access_cookie(token: &str, secure: bool) -> (r: String)
    ensures
        r@ == set_cookie_text("access_token"@, token@, "/"@, secure),
{
    set_cookie("access_token", token, "/", secure)
}

/// The `Set-Cookie` value that hands out a refresh token; the browser sends
/// it back only to the refresh endpoint.
pub fn refresh_cookie(token: &str, secure: bool) -> (r: String)
    ensures
        r@ == set_cookie_text("refresh_token"@, token@, "/api/auth/refresh"@, secure),
{
    set_cookie("refresh_token", token, "/api/auth/refresh", secure)
}

/// The `Set-Cookie` value that hands out the CSRF token.
pub fn csrf_cookie(token: &str, secure: bool) -> (r: String)
    ensures
        r@ == set_cookie_text("csrf_token"@, token@, "/"@, secure),
{
    set_cookie("csrf_token", token, "/", secure)
}

/// The `Set-Cookie` value that empties the access token cookie on logout.
pub fn expired_access_cookie() -> (r: String)
    ensures
        r@ == "access_token=; Path=/; Expires=Thu, 01 Jan 1970 00:00:00 GMT"@,
{
    String::from_str("access_token=; Path=/; Expires=Thu, 01 Jan 1970 00:00:00 GMT")
}

/// The `Set-Cookie` value that empties the refresh token cookie on logout.
pub fn expired_refresh_cookie() -> (r: String)
    ensures
        r@ == "refresh_token=; Path=/api/auth/refresh; Expires=Thu, 01 Jan 1970 00:00:00 GMT"@,
{
    String::from_str("refresh_token=; Path=/api/auth/refresh; Expires=Thu, 01 Jan 1970 00:00:00 GMT")
}

/// A cookie value the browser can hand back unchanged: no `;` in it and no
/// whitespace at its end.
pub open spec fn plain_cookie_value(v: Seq<char>) -> bool {
    &&& forall|i: int| 0 <= i < v.len() ==> #[trigger] v[i] != ';'
    &&& v.len() > 0 ==> !is_ws(v.last())
}

/// A cookie name that reads back: not empty, no `;`, no whitespace first.
pub open spec fn plain_cookie_name(n: Seq<char>) -> bool {
    &&& n.len() > 0
    &&& forall|i: int| 0 <= i < n.len() ==> #[trigger] n[i] != ';'
    &&& !is_ws(n[0])
}

/// What the service sets is what it reads back: sending the `Set-Cookie`
/// value of a session cookie as a `Cookie` header, its value is found again
/// under its name.
pub proof fn lemma_set_cookie_reads_back(name: Seq<char>, value: Seq<char>, path: Seq<char>, secure: bool)
    requires
        plain_cookie_name(name),
        plain_cookie_value(value),
    ensures
        cookie_lookup(set_cookie_text(name, value, path, secure), name) == Some(value),
{
    reveal_strlit("; Path=");
    let s = set_cookie_text(name, value, path, secure);
    let head = name + seq!['='] + value;
    let i = head.len() as int;
    assert(s[i] == ';');
    assert forall|k: int| 0 <= k < i implies #[trigger] s[k] != ';' by {
        assert(s[k] == head[k]);
        if k < name.len() {
            assert(head[k] == name[k]);
        } else if k > name.len() {
            assert(head[k] == value[k - name.len() - 1]);
        }
    }
    lemma_find_char(s, ';', i);
    assert(s.take(i) =~= head);
    assert(head[0] == name[0]);
    assert(trim_start(head) == head);
    assert(head.last() == (if value.len() > 0 { value.last() } else { '=' }));
    assert(trim_end(head) == head);
    assert((name + seq!['=']).is_prefix_of(head)) by {
        assert(head.subrange(0, name.len() + 1int) =~= name + seq!['=']);
    }
    assert(head.skip(name.len() + 1int) =~= value);
}

/// The access, refresh and CSRF cookies read back under their names.
pub proof fn lemma_session_cookies_read_back(token: Seq<char>, secure: bool)
    requires
        plain_cookie_value(token),
    ensures
        cookie_lookup(set_cookie_text("access_token"@, token, "/"@, secure), "access_token"@) == Some(token),
        cookie_lookup(set_cookie_text("refresh_token"@, token, "/api/auth/refresh"@, secure), "refresh_token"@)
            == Some(token),
        cookie_lookup(set_cookie_text("csrf_token"@, token, "/"@, secure), "csrf_token"@) == Some(token),
{
    reveal_strlit("access_token");
    reveal_strlit("refresh_token");
    reveal_strlit("csrf_token");
    assert(plain_cookie_name("access_token"@));
    assert(plain_cookie_name("refresh_token"@));
    assert(plain_cookie_name("csrf_token"@));
    lemma_set_cookie_reads_back("access_token"@, token, "/"@, secure);
    lemma_set_cookie_reads_back("refresh_token"@, token, "/api/auth/refresh"@, secure);
    lemma_set_cookie_reads_back("csrf_token"@, token, "/"@, secure);
}

} // verus!
