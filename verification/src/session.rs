//! Session decisions: login, the refresh-token rotation, who may export,
//! and the errors requests are answered with.
use vstd::prelude::*;

use chrono::DateTime;

use crate::auth::{
    access_claims, claims_spec, new_token_id, uuid_v4_text, password_matches, refresh_claims, unix_secs_in_range,
    utc_now, verify_password, Claims, UserRow, ACCESS_TTL_SECS, REFRESH_TTL_SECS,
};
use crate::cookies::{expired_access_cookie, expired_refresh_cookie, opt_chars};
use crate::text::same_text;

verus! {

/// Why a request is refused; each maps to one HTTP status.
#[derive(Clone, Copy, Debug, PartialEq, Eq, Structural)]
pub enum ApiError {
    /// 401: no valid credentials or token.
    Unauthorized,
    /// 403: authenticated, but the role may not do this.
    Forbidden,
    /// 429: the client went over its request limit.
    TooManyRequests,
    /// 500: storage or an internal step failed.
    Internal,
}

/// Only administrators may export metrics.
pub fn require_admin(role: &str) -> (r: Result<(), ApiError>)
    ensures
        r == (if role@ == "admin"@ {
            Ok::<(), ApiError>(())
        } else {
            Err(ApiError::Forbidden)
        }),
{
    if same_text(role, "admin") {
        Ok(())
    } else {
        Err(ApiError::Forbidden)
    }
}

/// Whether instant `a` comes after instant `b`, each as Unix seconds and
/// the nanoseconds past that second.
pub open spec fn later(a: (i64, u32), b: (i64, u32)) -> bool {
    a.0 > b.0 || (a.0 == b.0 && a.1 > b.1)
}

/// The instant an RFC 3339 text names, as Unix seconds and nanoseconds, if
/// it parses.
pub uninterp spec fn rfc3339_instant(text: Seq<char>) -> Option<(i64, u32)>;

/// The RFC 3339 text of an instant, if `chrono` can represent it.
pub uninterp spec fn rfc3339_text(secs: i64, nanos: u32) -> Option<Seq<char>>;

/// Instants of years 0000 to 9999 with no leap second: what RFC 3339
/// writes with four year digits.
pub open spec fn rfc3339_year_range(secs: int, nanos: u32) -> bool {
    -62_167_219_200 <= secs <= 253_402_300_799 && nanos < 1_000_000_000
}

/// `DateTime::parse_from_rfc3339`, read back as `timestamp` and
/// `timestamp_subsec_nanos`. Claimed: the result is the named reading of
/// the text.
#[verifier::external_body]
fn parse_rfc3339(text: &str) -> (r: Option<(i64, u32)>)
    ensures
        r == rfc3339_instant(text@),
{
    match DateTime::parse_from_rfc3339(text) {
        Ok(t) => Some((t.timestamp(), t.timestamp_subsec_nanos())),
        Err(_) => None,
    }
}

/// `DateTime::from_timestamp`, then `to_rfc3339`. Claimed: the result is
/// the named text of the instant; for years 0000 to 9999 without a leap
/// second the instant is representable and its text parses back to it
/// (RFC 3339 output of `to_rfc3339`, read by `parse_from_rfc3339`).
#[verifier::external_body]
fn render_rfc3339(secs: i64, nanos: u32) -> (r: Option<String>)
    ensures
        r matches Some(t) ==> rfc3339_text(secs, nanos) == Some(t@),
        r is None ==> rfc3339_text(secs, nanos) is None,
        rfc3339_year_range(secs as int, nanos) ==> r is Some && rfc3339_instant(r->0@) == Some((secs, nanos)),
{
    match DateTime::from_timestamp(secs, nanos) {
        Some(t) => Some(t.to_rfc3339()),
        None => None,
    }
}

/// Whether a stored refresh token may still be used at `now`: it is not
/// revoked, its expiry parsed, and `now` is not past it.
pub open spec fn record_usable(revoked: bool, expires: Option<(i64, u32)>, now: (i64, u32)) -> bool {
    &&& !revoked
    &&& expires is Some
    &&& !later(now, expires->0)
}

/// The check of a stored refresh token, given its parsed expiry.
pub fn token_usable(revoked: bool, expires: Option<(i64, u32)>, now: (i64, u32)) -> (r: bool)
    ensures
        r == record_usable(revoked, expires, now),
{
    if revoked {
        return false;
    }
    match expires {
        Some(e) => !(now.0 > e.0 || (now.0 == e.0 && now.1 > e.1)),
        None => false,
    }
}

/// A stored refresh token: whether it was revoked and its expiry as
/// RFC 3339 text.
#[derive(Debug)]
pub struct TokenRecord {
    pub revoked: bool,
    pub expires_at: String,
}

/// The check of a stored refresh token at `now`.
pub fn record_allows(record: &TokenRecord, now: (i64, u32)) -> (r: bool)
    ensures
        r == record_usable(record.revoked, rfc3339_instant(record.expires_at@), now),
{
    let expires = parse_rfc3339(record.expires_at.as_str());
    token_usable(record.revoked, expires, now)
}

/// What a successful login hands out and stores: an access token, a
/// refresh token, and the expiry recorded with the refresh token.
#[derive(Debug)]
pub struct LoginGrant {
    pub access: Claims,
    pub refresh: Claims,
    pub refresh_expires_at: String,
}

/// The grant of a login for `user` at `now` under the identifiers given.
pub open spec fn grant_spec(u: UserRow, now: (i64, u32), access_id: Seq<char>, refresh_id: Seq<char>, g: LoginGrant) -> bool {
    &&& claims_spec(u.username@, u.role@, now.0, ACCESS_TTL_SECS, access_id, g.access)
    &&& claims_spec(u.username@, "refresh"@, now.0, REFRESH_TTL_SECS, refresh_id, g.refresh)
    &&& rfc3339_text((now.0 + REFRESH_TTL_SECS) as i64, now.1) == Some(g.refresh_expires_at@)
    &&& rfc3339_year_range(now.0 + REFRESH_TTL_SECS, now.1) ==> rfc3339_instant(g.refresh_expires_at@) == Some(
        ((now.0 + REFRESH_TTL_SECS) as i64, now.1),
    )
}

/// A refresh token handed out at login, recorded unrevoked with the
/// grant's expiry, is accepted at every instant up to that expiry (for
/// expiries in years 0000 to 9999 that fall on no leap second).
pub proof fn lemma_granted_refresh_usable(u: UserRow, now: (i64, u32), access_id: Seq<char>, refresh_id: Seq<char>, g: LoginGrant, at: (i64, u32))
    requires
        grant_spec(u, now, access_id, refresh_id, g),
        rfc3339_year_range(now.0 + REFRESH_TTL_SECS, now.1),
        !later(at, ((now.0 + REFRESH_TTL_SECS) as i64, now.1)),
    ensures
        record_usable(false, rfc3339_instant(g.refresh_expires_at@), at),
{
}

/// The tokens for `u` at `now`, or `Internal` when the expiry cannot be
/// written.
fn grant_for(u: &UserRow, now: (i64, u32), access_id: String, refresh_id: String) -> (r: Result<LoginGrant, ApiError>)
    requires
        unix_secs_in_range(now.0),
    ensures
        match r {
            Ok(g) => grant_spec(*u, now, access_id@, refresh_id@, g),
            Err(e) => e == ApiError::Internal && rfc3339_text((now.0 + REFRESH_TTL_SECS) as i64, now.1) is None,
        },
        rfc3339_year_range(now.0 + REFRESH_TTL_SECS, now.1) ==> r is Ok,
{
    let access = access_claims(u.username.as_str(), u.role.as_str(), now.0, access_id);
    let refresh = refresh_claims(u.username.as_str(), now.0, refresh_id);
    match render_rfc3339(now.0 + REFRESH_TTL_SECS, now.1) {
        Some(t) => Ok(LoginGrant { access, refresh, refresh_expires_at: t }),
        None => Err(ApiError::Internal),
    }
}

/// The answer to a login with `password` for the stored `user` (`None` when
/// no such user), at `now` and with the token identifiers given: tokens when
/// the user exists and the password matches its hash (failing with
/// `Internal` only when the expiry cannot be written, which cannot happen
/// for expiries in years 0000 to 9999), `Unauthorized` otherwise.
pub open spec fn login_outcome(
    user: Option<UserRow>,
    password: Seq<char>,
    now: (i64, u32),
    access_id: Seq<char>,
    refresh_id: Seq<char>,
    r: Result<LoginGrant, ApiError>,
) -> bool {
    match user {
        Some(u) => if password_matches(u.password_hash@, password) {
            &&& match r {
                Ok(g) => grant_spec(u, now, access_id, refresh_id, g),
                Err(e) => e == ApiError::Internal && rfc3339_text((now.0 + REFRESH_TTL_SECS) as i64, now.1) is None,
            }
            &&& rfc3339_year_range(now.0 + REFRESH_TTL_SECS, now.1) ==> r is Ok
        } else {
            r == Err::<LoginGrant, ApiError>(ApiError::Unauthorized)
        },
        None => r == Err::<LoginGrant, ApiError>(ApiError::Unauthorized),
    }
}

/// The answer to a login at `now` with the token identifiers given.
pub fn login_grant(user: Option<UserRow>, password: &str, now: (i64, u32), access_id: String, refresh_id: String) -> (r:
    Result<LoginGrant, ApiError>)
    requires
        unix_secs_in_range(now.0),
    ensures
        login_outcome(user, password@, now, access_id@, refresh_id@, r),
{
    match user {
        Some(u) => {
            if verify_password(u.password_hash.as_str(), password) {
                grant_for(&u, now, access_id, refresh_id)
            } else {
                Err(ApiError::Unauthorized)
            }
        },
        None => Err(ApiError::Unauthorized),
    }
}

/// The answer to a login now, with fresh UUID v4 token identifiers:
/// `login_grant` at some instant, no earlier than the Unix epoch, that
/// `chrono` can represent.
pub fn login(user: Option<UserRow>, password: &str) -> (r: Result<LoginGrant, ApiError>)
    ensures
        exists|now: (i64, u32), access_id: Seq<char>, refresh_id: Seq<char>|
            {
                &&& 0 <= now.0
                &&& unix_secs_in_range(now.0)
                &&& uuid_v4_text(access_id)
                &&& uuid_v4_text(refresh_id)
                &&& login_outcome(user, password@, now, access_id, refresh_id, r)
            },
{
    let now = utc_now();
    let access_id = new_token_id();
    let refresh_id = new_token_id();
    let ghost (a, b) = (access_id@, refresh_id@);
    let r = login_grant(user, password, now, access_id, refresh_id);
    assert(login_outcome(user, password@, now, a, b, r));
    r
}

/// Where a refresh request stands.
#[derive(Debug)]
pub enum RefreshState {
    /// Waiting for the claims of the presented refresh token.
    AwaitClaims,
    /// The token is a refresh token; waiting for its stored record.
    AwaitRecord(Claims),
    /// The record allows it; waiting for the token's user.
    AwaitUser(Claims),
    /// Answered.
    Finished,
}

/// What the caller learned while a refresh request was under way.
#[derive(Debug)]
pub enum RefreshEvent {
    /// The claims of the `refresh_token` cookie's token, or `None` when the
    /// cookie is missing or the token does not verify.
    Token(Option<Claims>),
    /// The stored record of the token's identifier, if there is one.
    Record(Option<TokenRecord>),
    /// The stored user the token names, if there is one.
    User(Option<UserRow>),
    /// Storage failed.
    StorageFailed,
}

/// The old refresh token to revoke and the tokens that replace it.
#[derive(Debug)]
pub struct Rotation {
    pub revoke_jti: String,
    pub grant: LoginGrant,
}

/// What the caller is to do next for a refresh request.
#[derive(Debug)]
pub enum RefreshAction {
    /// Load the stored record of this token identifier.
    LoadRecord(String),
    /// Load the user of this name.
    LoadUser(String),
    /// In one transaction, revoke the old token and store the new refresh
    /// token with its expiry; then hand out both new tokens.
    Rotate(Rotation),
    /// Answer with this error.
    Reject(ApiError),
}

/// One step of a refresh request: from `s`, on event `ev` at `now` with the
/// token identifiers given, the next state is `s2` and the caller does
/// `act`.
pub open spec fn refresh_transition(
    s: RefreshState,
    ev: RefreshEvent,
    now: (i64, u32),
    access_id: Seq<char>,
    refresh_id: Seq<char>,
    s2: RefreshState,
    act: RefreshAction,
) -> bool {
    let reject = |e: ApiError| s2 is Finished && act == RefreshAction::Reject(e);
    match ev {
        RefreshEvent::StorageFailed => reject(ApiError::Internal),
        RefreshEvent::Token(t) => match s {
            RefreshState::AwaitClaims => match t {
                Some(c) => if c.role@ == "refresh"@ {
                    &&& s2 == RefreshState::AwaitRecord(c)
                    &&& act matches RefreshAction::LoadRecord(j) && j@ == c.jti@
                } else {
                    reject(ApiError::Unauthorized)
                },
                None => reject(ApiError::Unauthorized),
            },
            _ => reject(ApiError::Internal),
        },
        RefreshEvent::Record(rec) => match s {
            RefreshState::AwaitRecord(c) => match rec {
                Some(r) => if record_usable(r.revoked, rfc3339_instant(r.expires_at@), now) {
                    &&& s2 == RefreshState::AwaitUser(c)
                    &&& act matches RefreshAction::LoadUser(n) && n@ == c.sub@
                } else {
                    reject(ApiError::Unauthorized)
                },
                None => reject(ApiError::Unauthorized),
            },
            _ => reject(ApiError::Internal),
        },
        RefreshEvent::User(usr) => match s {
            RefreshState::AwaitUser(c) => match usr {
                Some(u) => {
                    &&& s2 is Finished
                    &&& match act {
                        RefreshAction::Rotate(rot) => rot.revoke_jti@ == c.jti@ && grant_spec(
                            u,
                            now,
                            access_id,
                            refresh_id,
                            rot.grant,
                        ),
                        RefreshAction::Reject(e) => e == ApiError::Internal && rfc3339_text(
                            (now.0 + REFRESH_TTL_SECS) as i64,
                            now.1,
                        ) is None,
                        _ => false,
                    }
                    &&& rfc3339_year_range(now.0 + REFRESH_TTL_SECS, now.1) ==> act is Rotate
                },
                None => reject(ApiError::Unauthorized),
            },
            _ => reject(ApiError::Internal),
        },
    }
}

/// One step of a refresh request at `now`, with the identifiers the new
/// tokens are to carry.
pub fn refresh_step(state: RefreshState, event: RefreshEvent, now: (i64, u32), access_id: String, refresh_id: String) -> (r: (
    RefreshState,
    RefreshAction,
))
    requires
        unix_secs_in_range(now.0),
    ensures
        refresh_transition(state, event, now, access_id@, refresh_id@, r.0, r.1),
{
    let reject = |e: ApiError| -> (r: (RefreshState, RefreshAction))
        ensures
            r.0 is Finished && r.1 == RefreshAction::Reject(e),
        { (RefreshState::Finished, RefreshAction::Reject(e)) };
    match event {
        RefreshEvent::StorageFailed => reject(ApiError::Internal),
        RefreshEvent::Token(t) => match state {
            RefreshState::AwaitClaims => match t {
                Some(c) => {
                    if same_text(c.role.as_str(), "refresh") {
                        let jti = c.jti.clone();
                        (RefreshState::AwaitRecord(c), RefreshAction::LoadRecord(jti))
                    } else {
                        reject(ApiError::Unauthorized)
                    }
                },
                None => reject(ApiError::Unauthorized),
            },
            _ => reject(ApiError::Internal),
        },
        RefreshEvent::Record(rec) => match state {
            RefreshState::AwaitRecord(c) => match rec {
                Some(r) => {
                    if record_allows(&r, now) {
                        let sub = c.sub.clone();
                        (RefreshState::AwaitUser(c), RefreshAction::LoadUser(sub))
                    } else {
                        reject(ApiError::Unauthorized)
                    }
                },
                None => reject(ApiError::Unauthorized),
            },
            _ => reject(ApiError::Internal),
        },
        RefreshEvent::User(usr) => match state {
            RefreshState::AwaitUser(c) => match usr {
                Some(u) => match grant_for(&u, now, access_id, refresh_id) {
                    Ok(g) => (RefreshState::Finished, RefreshAction::Rotate(Rotation { revoke_jti: c.jti, grant: g })),
                    Err(e) => (RefreshState::Finished, RefreshAction::Reject(e)),
                },
                None => reject(ApiError::Unauthorized),
            },
            _ => reject(ApiError::Internal),
        },
    }
}

/// One step of a refresh request now, with fresh UUID v4 token identifiers.
pub fn refresh_step_now(state: RefreshState, event: RefreshEvent) -> (r: (RefreshState, RefreshAction))
    ensures
        exists|now: (i64, u32), access_id: Seq<char>, refresh_id: Seq<char>|
            {
                &&& 0 <= now.0
                &&& unix_secs_in_range(now.0)
                &&& uuid_v4_text(access_id)
                &&& uuid_v4_text(refresh_id)
                &&& refresh_transition(state, event, now, access_id, refresh_id, r.0, r.1)
            },
{
    let now = utc_now();
    let access_id = new_token_id();
    let refresh_id = new_token_id();
    let ghost (a, b) = (access_id@, refresh_id@);
    let r = refresh_step(state, event, now, access_id, refresh_id);
    assert(refresh_transition(state, event, now, a, b, r.0, r.1));
    r
}


/// A run of a refresh request: states from `AwaitClaims` on, joined by
/// steps on the events, at the instants and with the identifiers given.
pub open spec fn refresh_trace(
    states: Seq<RefreshState>,
    events: Seq<RefreshEvent>,
    actions: Seq<RefreshAction>,
    nows: Seq<(i64, u32)>,
    access_ids: Seq<Seq<char>>,
    refresh_ids: Seq<Seq<char>>,
) -> bool {
    &&& states.len() == events.len() + 1
    &&& actions.len() == events.len()
    &&& nows.len() == events.len()
    &&& access_ids.len() == events.len()
    &&& refresh_ids.len() == events.len()
    &&& states[0] is AwaitClaims
    &&& forall|i: int|
        0 <= i < events.len() ==> refresh_transition(
            states[i],
            #[trigger] events[i],
            nows[i],
            access_ids[i],
            refresh_ids[i],
            states[i + 1],
            actions[i],
        )
}

/// Which states a run can be in after how many events, and what it saw.
proof fn lemma_trace_states(
    states: Seq<RefreshState>,
    events: Seq<RefreshEvent>,
    actions: Seq<RefreshAction>,
    nows: Seq<(i64, u32)>,
    access_ids: Seq<Seq<char>>,
    refresh_ids: Seq<Seq<char>>,
    k: int,
)
    requires
        refresh_trace(states, events, actions, nows, access_ids, refresh_ids),
        0 <= k < states.len(),
    ensures
        states[k] is AwaitClaims ==> k == 0,
        states[k] matches RefreshState::AwaitRecord(c) ==> k == 1 && events[0] == RefreshEvent::Token(Some(c))
            && c.role@ == "refresh"@,
        states[k] matches RefreshState::AwaitUser(c) ==> {
            &&& k == 2
            &&& events[0] == RefreshEvent::Token(Some(c))
            &&& c.role@ == "refresh"@
            &&& events[1] matches RefreshEvent::Record(Some(r))
            &&& record_usable(r.revoked, rfc3339_instant(r.expires_at@), nows[1])
        },
    decreases k,
{
    if k > 0 {
        lemma_trace_states(states, events, actions, nows, access_ids, refresh_ids, k - 1);
        let ev = events[k - 1];
        assert(refresh_transition(states[k - 1], ev, nows[k - 1], access_ids[k - 1], refresh_ids[k - 1], states[k], actions[k - 1]));
    }
}

/// A refresh token is exchanged only at the third step of a request, and
/// only when the presented token verified with role `refresh`, its stored
/// record was found unrevoked and unexpired, and its user exists; the token
/// revoked is the one presented, and the new tokens are that user's.
pub proof fn lemma_rotation_needs_valid_token(
    states: Seq<RefreshState>,
    events: Seq<RefreshEvent>,
    actions: Seq<RefreshAction>,
    nows: Seq<(i64, u32)>,
    access_ids: Seq<Seq<char>>,
    refresh_ids: Seq<Seq<char>>,
    i: int,
)
    requires
        refresh_trace(states, events, actions, nows, access_ids, refresh_ids),
        0 <= i < actions.len(),
        actions[i] is Rotate,
    ensures
        i == 2,
        events[0] matches RefreshEvent::Token(Some(c)) && c.role@ == "refresh"@
            && actions[i]->Rotate_0.revoke_jti@ == c.jti@,
        events[1] matches RefreshEvent::Record(Some(r)) && !r.revoked
            && record_usable(r.revoked, rfc3339_instant(r.expires_at@), nows[1]),
        events[2] matches RefreshEvent::User(Some(u)) && grant_spec(
            u,
            nows[2],
            access_ids[2],
            refresh_ids[2],
            actions[i]->Rotate_0.grant,
        ),
{
    let ev = events[i];
    assert(refresh_transition(states[i], ev, nows[i], access_ids[i], refresh_ids[i], states[i + 1], actions[i]));
    lemma_trace_states(states, events, actions, nows, access_ids, refresh_ids, i);
}

/// A revoked refresh token is answered `Unauthorized` when its record is
/// looked at, whatever the time.
pub proof fn lemma_revoked_token_refused(c: Claims, r: TokenRecord, now: (i64, u32), access_id: Seq<char>, refresh_id: Seq<char>, s2: RefreshState, act: RefreshAction)
    requires
        r.revoked,
        refresh_transition(RefreshState::AwaitRecord(c), RefreshEvent::Record(Some(r)), now, access_id, refresh_id, s2, act),
    ensures
        s2 is Finished,
        act == RefreshAction::Reject(ApiError::Unauthorized),
{
}


/// A refresh token handed out at login is exchanged for new tokens when it
/// comes back: presented (as the grant's refresh claims) at `t1`, its
/// record (unrevoked, with the grant's expiry) looked at by `t2` no later
/// than that expiry, and its user found at `t3`, the request loads the
/// record, loads the user, and rotates exactly that token.
pub proof fn lemma_login_then_refresh(
    u: UserRow,
    now: (i64, u32),
    access_id: Seq<char>,
    refresh_id: Seq<char>,
    g: LoginGrant,
    t1: (i64, u32),
    t2: (i64, u32),
    t3: (i64, u32),
    ids: (Seq<char>, Seq<char>),
    s1: RefreshState,
    a1: RefreshAction,
    s2: RefreshState,
    a2: RefreshAction,
    s3: RefreshState,
    a3: RefreshAction,
)
    requires
        grant_spec(u, now, access_id, refresh_id, g),
        rfc3339_year_range(now.0 + REFRESH_TTL_SECS, now.1),
        !later(t2, ((now.0 + REFRESH_TTL_SECS) as i64, now.1)),
        rfc3339_year_range(t3.0 + REFRESH_TTL_SECS, t3.1),
        refresh_transition(RefreshState::AwaitClaims, RefreshEvent::Token(Some(g.refresh)), t1, ids.0, ids.1, s1, a1),
        refresh_transition(
            s1,
            RefreshEvent::Record(Some((TokenRecord { revoked: false, expires_at: g.refresh_expires_at }))),
            t2,
            ids.0,
            ids.1,
            s2,
            a2,
        ),
        refresh_transition(s2, RefreshEvent::User(Some(u)), t3, ids.0, ids.1, s3, a3),
    ensures
        a1 matches RefreshAction::LoadRecord(j) && j@ == g.refresh.jti@,
        a2 matches RefreshAction::LoadUser(n) && n@ == u.username@,
        a3 matches RefreshAction::Rotate(rot) && rot.revoke_jti@ == g.refresh.jti@,
        s3 is Finished,
{
    reveal_strlit("refresh");
    assert(g.refresh.role@ == "refresh"@);
    lemma_granted_refresh_usable(u, now, access_id, refresh_id, g, t2);
}

/// What logging out does: revoke the presented refresh token, if one
/// verified, and empty both token cookies.
#[derive(Debug)]
pub struct LogoutPlan {
    pub revoke_jti: Option<String>,
    pub set_cookies: Vec<String>,
}

/// The logout of a request whose `refresh_token` cookie verified to
/// `claims` (`None` when it is missing or does not verify).
pub fn logout(claims: Option<Claims>) -> (p: LogoutPlan)
    ensures
        opt_chars(p.revoke_jti) == (match claims {
            Some(c) => Some(c.jti@),
            None => None,
        }),
        p.set_cookies@.map_values(|c: String| c@) == seq![
            "access_token=; Path=/; Expires=Thu, 01 Jan 1970 00:00:00 GMT"@,
            "refresh_token=; Path=/api/auth/refresh; Expires=Thu, 01 Jan 1970 00:00:00 GMT"@,
        ],
{
    let revoke_jti = match claims {
        Some(c) => Some(c.jti),
        None => None,
    };
    let mut set_cookies: Vec<String> = Vec::new();
    set_cookies.push(expired_access_cookie());
    set_cookies.push(expired_refresh_cookie());
    assert(set_cookies@.map_values(|c: String| c@) =~= seq![
        "access_token=; Path=/; Expires=Thu, 01 Jan 1970 00:00:00 GMT"@,
        "refresh_token=; Path=/api/auth/refresh; Expires=Thu, 01 Jan 1970 00:00:00 GMT"@,
    ]);
    LogoutPlan { revoke_jti, set_cookies }
}


/// The refresh tokens the service has stored: identifier to whether it is
/// revoked and its expiry text.
pub type TokenStore = Map<Seq<char>, (bool, Seq<char>)>;

/// The store with the token `jti` revoked, if it is stored.
pub open spec fn revoke_in(store: TokenStore, jti: Seq<char>) -> TokenStore {
    if store.contains_key(jti) {
        store.insert(jti, (true, store[jti].1))
    } else {
        store
    }
}

/// The store once a rotation is written: the old token revoked, the new
/// refresh token stored unrevoked with its expiry.
pub open spec fn store_after_rotation(store: TokenStore, rot: Rotation) -> TokenStore {
    revoke_in(store, rot.revoke_jti@).insert(rot.grant.refresh.jti@, (false, rot.grant.refresh_expires_at@))
}

/// The store once a logout is written.
pub open spec fn store_after_logout(store: TokenStore, plan: LogoutPlan) -> TokenStore {
    match plan.revoke_jti {
        Some(j) => revoke_in(store, j@),
        None => store,
    }
}

/// Whether a loaded record is what the store holds for `jti`.
pub open spec fn record_read(store: TokenStore, jti: Seq<char>, rec: Option<TokenRecord>) -> bool {
    match rec {
        None => !store.contains_key(jti),
        Some(r) => store.contains_key(jti) && r.revoked == store[jti].0 && r.expires_at@ == store[jti].1,
    }
}

/// A refresh token is redeemed at most once: once its rotation is written
/// (with a new identifier other than its own), presenting it again is
/// answered `Unauthorized` when its record is looked at.
pub proof fn lemma_rotated_token_refused(
    store: TokenStore,
    rot: Rotation,
    c: Claims,
    rec: Option<TokenRecord>,
    now: (i64, u32),
    access_id: Seq<char>,
    refresh_id: Seq<char>,
    s2: RefreshState,
    act: RefreshAction,
)
    requires
        rot.grant.refresh.jti@ != rot.revoke_jti@,
        c.jti@ == rot.revoke_jti@,
        record_read(store_after_rotation(store, rot), c.jti@, rec),
        refresh_transition(RefreshState::AwaitRecord(c), RefreshEvent::Record(rec), now, access_id, refresh_id, s2, act),
    ensures
        act == RefreshAction::Reject(ApiError::Unauthorized),
{
}

/// After logout, the refresh token it revoked is answered `Unauthorized`
/// when presented again.
pub proof fn lemma_logged_out_token_refused(
    store: TokenStore,
    plan: LogoutPlan,
    c: Claims,
    rec: Option<TokenRecord>,
    now: (i64, u32),
    access_id: Seq<char>,
    refresh_id: Seq<char>,
    s2: RefreshState,
    act: RefreshAction,
)
    requires
        plan.revoke_jti matches Some(j) && j@ == c.jti@,
        record_read(store_after_logout(store, plan), c.jti@, rec),
        refresh_transition(RefreshState::AwaitRecord(c), RefreshEvent::Record(rec), now, access_id, refresh_id, s2, act),
    ensures
        act == RefreshAction::Reject(ApiError::Unauthorized),
{
}

/// A revoked token stays revoked through later rotations (of other tokens,
/// storing new identifiers) and logouts.
pub proof fn lemma_revocation_persists(store: TokenStore, jti: Seq<char>, rot: Rotation, plan: LogoutPlan)
    requires
        store.contains_key(jti),
        store[jti].0,
        rot.grant.refresh.jti@ != jti,
    ensures
        store_after_rotation(store, rot).contains_key(jti) && store_after_rotation(store, rot)[jti].0,
        store_after_logout(store, plan).contains_key(jti) && store_after_logout(store, plan)[jti].0,
{
}

} // verus!
