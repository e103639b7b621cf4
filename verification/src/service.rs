//! The decisions of the scanning service: which origins may ask for a local
//! scan, the one-time local access token, and the server-scan API key.
//!
//! The service keeps at most one local token. Asking for one needs the
//! user's consent and an allowed origin; the token is then good for one
//! local scan, until it expires.
use vstd::prelude::*;
use crate::clock::{
    Timestamp, current_time, generate_token, not_after, rfc3339_text, timestamp_text, token_text,
};
use crate::text::{
    Separator, chars_of, parse_i64, parse_i64_chars, pieces, split_pieces, starts_with,
    starts_with_chars, string_of, sub_chars, text, trim, trim_chars,
};

verus! {

/// Why a request is refused.
#[derive(Clone, Copy, Debug)]
pub enum ServiceError {
    ConsentRequired,
    OriginNotAllowed,
    InvalidLocalToken,
    ApiKeyNotConfigured,
    InvalidApiKey,
    /// The expiry of a new token lies beyond the times that can be written down.
    ExpiryOutOfRange,
    /// The operating system's random generator failed.
    RandomnessUnavailable,
    /// The system clock reads a time before the Unix epoch, or beyond the
    /// times that can be written down.
    ClockUnavailable,
}

pub open spec fn status_of(e: ServiceError) -> u16 {
    match e {
        ServiceError::ConsentRequired => 400,
        ServiceError::OriginNotAllowed => 403,
        ServiceError::InvalidLocalToken => 401,
        ServiceError::ApiKeyNotConfigured => 503,
        ServiceError::InvalidApiKey => 401,
        ServiceError::ExpiryOutOfRange => 500,
        ServiceError::RandomnessUnavailable => 500,
        ServiceError::ClockUnavailable => 500,
    }
}

pub open spec fn message_of(e: ServiceError) -> Seq<char> {
    match e {
        ServiceError::ConsentRequired => "consent must be true for local hardware scanning"@,
        ServiceError::OriginNotAllowed => "origin is not allowed for local scanning"@,
        ServiceError::InvalidLocalToken => "missing or invalid bearer token"@,
        ServiceError::ApiKeyNotConfigured => "SERVER_SCAN_API_KEY is not configured"@,
        ServiceError::InvalidApiKey => "invalid x-api-key"@,
        ServiceError::ExpiryOutOfRange => "token expiry is out of range"@,
        ServiceError::RandomnessUnavailable => "random generator unavailable"@,
        ServiceError::ClockUnavailable => "system clock unavailable"@,
    }
}

impl ServiceError {
    /// The HTTP status that answers the refusal.
    pub fn status_code(&self) -> (c: u16)
        ensures
            c == status_of(*self),
    {
        match self {
            ServiceError::ConsentRequired => 400,
            ServiceError::OriginNotAllowed => 403,
            ServiceError::InvalidLocalToken => 401,
            ServiceError::ApiKeyNotConfigured => 503,
            ServiceError::InvalidApiKey => 401,
            ServiceError::ExpiryOutOfRange => 500,
            ServiceError::RandomnessUnavailable => 500,
            ServiceError::ClockUnavailable => 500,
        }
    }

    /// The error text of the refusal.
    pub fn message(&self) -> (m: String)
        ensures
            m@ == message_of(*self),
    {
        match self {
            ServiceError::ConsentRequired => text("consent must be true for local hardware scanning"),
            ServiceError::OriginNotAllowed => text("origin is not allowed for local scanning"),
            ServiceError::InvalidLocalToken => text("missing or invalid bearer token"),
            ServiceError::ApiKeyNotConfigured => text("SERVER_SCAN_API_KEY is not configured"),
            ServiceError::InvalidApiKey => text("invalid x-api-key"),
            ServiceError::ExpiryOutOfRange => text("token expiry is out of range"),
            ServiceError::RandomnessUnavailable => text("random generator unavailable"),
            ServiceError::ClockUnavailable => text("system clock unavailable"),
        }
    }
}

// ---------------------------------------------------------------------------
// Configuration.
// ---------------------------------------------------------------------------

/// The origins allowed when none are configured.
pub open spec fn default_origins() -> Seq<char> {
    "http://localhost:3000,http://127.0.0.1:3000,http://localhost:5173,http://127.0.0.1:5173"@
}

/// The distinct non-empty trimmed pieces, in order of first appearance.
pub open spec fn origin_list(ps: Seq<Seq<char>>) -> Seq<Seq<char>>
    decreases ps.len(),
{
    if ps.len() == 0 {
        Seq::<Seq<char>>::empty()
    } else {
        let prev = origin_list(ps.drop_last());
        let t = trim(ps.last());
        if t.len() == 0 || prev.contains(t) {
            prev
        } else {
            prev.push(t)
        }
    }
}

/// The origins that a comma-separated list names.
pub open spec fn parsed_origins(raw: Seq<char>) -> Seq<Seq<char>> {
    origin_list(pieces(raw, Separator::Char(',')))
}

pub open spec fn str_view(o: Option<&str>) -> Option<Seq<char>> {
    match o {
        Some(s) => Some(s@),
        None => None,
    }
}

/// The token lifetime that a setting asks for: a positive whole number of
/// seconds, or 120.
pub open spec fn ttl_setting(raw: Option<Seq<char>>) -> i64 {
    match raw {
        Some(r) => match parse_i64(r) {
            Some(v) => if v > 0 {
                v
            } else {
                120
            },
            None => 120,
        },
        None => 120,
    }
}

/// The allowed origins that a comma-separated list names: trimmed, empty
/// entries dropped, each once.
pub fn parse_allowed_origins(raw: &str) -> (origins: Vec<String>)
    ensures
        origins.deep_view() == parsed_origins(raw@),
        forall|i: int, j: int|
            0 <= i < j < origins.len() ==> origins.deep_view()[i] != origins.deep_view()[j],
        forall|i: int|
            0 <= i < origins.len() ==> origins.deep_view()[i].len() > 0 && trim(
                #[trigger] origins.deep_view()[i],
            ) == origins.deep_view()[i],
{
    let chars = chars_of(raw);
    let ps = split_pieces(&chars, Separator::Char(','));
    let ghost all = ps.deep_view();
    let mut out: Vec<String> = Vec::new();
    let mut i: usize = 0;
    assert(all.take(0) =~= Seq::<Seq<char>>::empty());
    while i < ps.len()
        invariant
            all == ps.deep_view(),
            all == pieces(raw@, Separator::Char(',')),
            i <= ps.len(),
            out.deep_view() == origin_list(all.take(i as int)),
        decreases ps.len() - i,
    {
        assert(all.take(i + 1).drop_last() =~= all.take(i as int));
        assert(all.take(i + 1).last() == ps@[i as int]@) by {
            crate::text::lemma_deep_chars(ps@[i as int]);
        }
        let t = trim_chars(&ps[i]);
        if t.len() > 0 {
            let s = string_of(&t);
            if !contains_string(&out, &s) {
                let ghost before = out.deep_view();
                let ghost sv = s@;
                out.push(s);
                assert(out.deep_view() =~= before.push(sv));
            }
        }
        i = i + 1;
    }
    assert(all.take(ps.len() as int) =~= all);
    proof {
        crate::laws::law_origins_distinct_and_clean(raw@);
        assert forall|i: int| 0 <= i < out.len() implies out.deep_view()[i].len() > 0 && trim(
            #[trigger] out.deep_view()[i],
        ) == out.deep_view()[i] by {
            assert(parsed_origins(raw@).contains(out.deep_view()[i]));
        }
    }
    out
}

/// Whether `v` holds a string equal to `s`.
fn contains_string(v: &Vec<String>, s: &String) -> (b: bool)
    ensures
        b == v.deep_view().contains(s@),
{
    let mut i: usize = 0;
    while i < v.len()
        invariant
            i <= v.len(),
            forall|k: int| 0 <= k < i ==> v.deep_view()[k] != s@,
        decreases v.len() - i,
    {
        if v[i] == *s {
            assert(v.deep_view()[i as int] == s@);
            return true;
        }
        i = i + 1;
    }
    false
}

/// What the service runs with.
pub struct ServiceConfig {
    pub allowed_origins: Vec<String>,
    pub token_ttl_seconds: i64,
    pub server_api_key: Option<String>,
}

/// The lifetime of local tokens that a setting asks for.
pub fn token_ttl_from(raw: Option<&str>) -> (ttl: i64)
    ensures
        ttl == ttl_setting(str_view(raw)),
{
    match raw {
        Some(r) => {
            let chars = chars_of(r);
            match parse_i64_chars(&chars) {
                Some(v) => if v > 0 {
                    v
                } else {
                    120
                },
                None => 120,
            }
        },
        None => 120,
    }
}

impl ServiceConfig {
    /// The configuration from the raw settings: the allowed-origin list
    /// (the default list when unset), the token lifetime, and the server API
    /// key.
    pub fn from_settings(
        allowed_origins: Option<&str>,
        token_ttl: Option<&str>,
        server_api_key: Option<String>,
    ) -> (c: ServiceConfig)
        ensures
            c.allowed_origins.deep_view() == parsed_origins(
                match allowed_origins {
                    Some(r) => r@,
                    None => default_origins(),
                },
            ),
            c.token_ttl_seconds == ttl_setting(str_view(token_ttl)),
            c.server_api_key == server_api_key,
    {
        let origins = match allowed_origins {
            Some(r) => parse_allowed_origins(r),
            None => parse_allowed_origins(
                "http://localhost:3000,http://127.0.0.1:3000,http://localhost:5173,http://127.0.0.1:5173",
            ),
        };
        ServiceConfig {
            allowed_origins: origins,
            token_ttl_seconds: token_ttl_from(token_ttl),
            server_api_key,
        }
    }
}

// ---------------------------------------------------------------------------
// Cross-origin policy.
// ---------------------------------------------------------------------------

/// A character whose UTF-8 bytes may all stand in an HTTP header value: a
/// tab, or anything from the space up other than DEL (the bytes of a
/// character beyond ASCII are all above DEL).
pub open spec fn header_value_char(c: char) -> bool {
    c == '\t' || (32 <= c as u32 && c as u32 != 127)
}

/// Whether `s` is accepted as an HTTP header value.
pub open spec fn valid_header_value(s: Seq<char>) -> bool {
    forall|i: int| 0 <= i < s.len() ==> header_value_char(#[trigger] s[i])
}

/// The origins that are valid header values, in order.
pub open spec fn header_origins(os: Seq<Seq<char>>) -> Seq<Seq<char>>
    decreases os.len(),
{
    if os.len() == 0 {
        Seq::<Seq<char>>::empty()
    } else if valid_header_value(os.last()) {
        header_origins(os.drop_last()).push(os.last())
    } else {
        header_origins(os.drop_last())
    }
}

/// Which origins cross-origin requests may come from.
pub enum CorsOrigins {
    /// Any origin.
    Any,
    /// These origins only.
    List(Vec<String>),
}

fn valid_header_value_exec(s: &String) -> (b: bool)
    ensures
        b == valid_header_value(s@),
{
    let chars = chars_of(s.as_str());
    let mut i: usize = 0;
    while i < chars.len()
        invariant
            chars@ == s@,
            i <= chars.len(),
            forall|k: int| 0 <= k < i ==> header_value_char(#[trigger] chars@[k]),
        decreases chars.len() - i,
    {
        let u = chars[i] as u32;
        if !(chars[i] == '\t' || (32 <= u && u != 127)) {
            return false;
        }
        i = i + 1;
    }
    true
}

/// The cross-origin policy for the allowed origins: the ones that are valid
/// header values, or any origin when none is.
pub fn cors_allowed_origins(origins: &Vec<String>) -> (c: CorsOrigins)
    ensures
        match c {
            CorsOrigins::Any => header_origins(origins.deep_view()).len() == 0,
            CorsOrigins::List(v) => v.deep_view() == header_origins(origins.deep_view()) && v.len()
                > 0,
        },
{
    let ghost all = origins.deep_view();
    let mut out: Vec<String> = Vec::new();
    let mut i: usize = 0;
    assert(all.take(0) =~= Seq::<Seq<char>>::empty());
    while i < origins.len()
        invariant
            all == origins.deep_view(),
            i <= origins.len(),
            out.deep_view() == header_origins(all.take(i as int)),
        decreases origins.len() - i,
    {
        assert(all.take(i + 1).drop_last() =~= all.take(i as int));
        assert(all.take(i + 1).last() == origins[i as int]@);
        if valid_header_value_exec(&origins[i]) {
            let ghost before = out.deep_view();
            let s = origins[i].clone();
            let ghost sv = s@;
            out.push(s);
            assert(out.deep_view() =~= before.push(sv));
        }
        i = i + 1;
    }
    assert(all.take(origins.len() as int) =~= all);
    if out.len() == 0 {
        CorsOrigins::Any
    } else {
        CorsOrigins::List(out)
    }
}

// ---------------------------------------------------------------------------
// The local token.
// ---------------------------------------------------------------------------

/// The token that the service holds, and when it stops being good.
pub struct TokenRecord {
    pub value: String,
    pub expires_at: Timestamp,
}

pub struct TokenRecordView {
    pub value: Seq<char>,
    pub expires_at: Timestamp,
}

impl View for TokenRecord {
    type V = TokenRecordView;

    open spec fn view(&self) -> TokenRecordView {
        TokenRecordView { value: self.value@, expires_at: self.expires_at }
    }
}

pub open spec fn slot_view(slot: Option<TokenRecord>) -> Option<TokenRecordView> {
    match slot {
        Some(r) => Some(r@),
        None => None,
    }
}

/// A newly issued token, with its expiry as a time and as RFC 3339 text.
pub struct IssuedToken {
    pub access_token: String,
    pub expires_at: Timestamp,
    pub expires_at_text: String,
}

/// Whether an `Origin` header value is one of the allowed origins.
pub open spec fn origin_permitted(origin: Option<Seq<char>>, allowed: Seq<Seq<char>>) -> bool {
    match origin {
        Some(o) => allowed.contains(o),
        None => false,
    }
}

/// The token that a request presents: its `x-local-token` header, or else
/// what follows `"Bearer "` in its `Authorization` header.
pub open spec fn presented_token(local: Option<Seq<char>>, auth: Option<Seq<char>>) -> Option<
    Seq<char>,
> {
    match local {
        Some(t) => Some(t),
        None => match auth {
            Some(a) => if starts_with(a, "Bearer "@) {
                Some(a.subrange(7, a.len() as int))
            } else {
                None
            },
            None => None,
        },
    }
}

/// The answer to presenting a token at `now`, and the token held afterwards:
/// a token still good and equal to the held one is accepted and used up; an
/// expired held token is dropped; anything else is refused with the held
/// token kept.
pub open spec fn consume_outcome(
    slot: Option<TokenRecordView>,
    presented: Option<Seq<char>>,
    now: Timestamp,
) -> (bool, Option<TokenRecordView>) {
    match presented {
        None => (false, slot),
        Some(t) => match slot {
            None => (false, None),
            Some(r) => if not_after(r.expires_at, now) {
                (false, None)
            } else if r.value != t {
                (false, slot)
            } else {
                (true, None)
            },
        },
    }
}

/// When a token issued at `now` expires, where that time can be written down.
pub open spec fn expiry_of(now: Timestamp, ttl: i64) -> Option<Timestamp> {
    let secs = now.secs + ttl;
    if i64::MIN <= secs <= i64::MAX && rfc3339_text(secs as i64, now.nanos) is Some {
        Some(Timestamp { secs: secs as i64, nanos: now.nanos })
    } else {
        None
    }
}

/// The answer to a request for a local token.
pub open spec fn issue_outcome(
    consent: bool,
    permitted: bool,
    token: Seq<char>,
    now: Timestamp,
    ttl: i64,
) -> Result<TokenRecordView, ServiceError> {
    if !consent {
        Err(ServiceError::ConsentRequired)
    } else if !permitted {
        Err(ServiceError::OriginNotAllowed)
    } else {
        match expiry_of(now, ttl) {
            Some(exp) => Ok(TokenRecordView { value: token, expires_at: exp }),
            None => Err(ServiceError::ExpiryOutOfRange),
        }
    }
}

/// The answer to a request for a local scan.
pub open spec fn local_scan_outcome(
    permitted: bool,
    slot: Option<TokenRecordView>,
    presented: Option<Seq<char>>,
    now: Timestamp,
) -> (Result<(), ServiceError>, Option<TokenRecordView>) {
    if !permitted {
        (Err(ServiceError::OriginNotAllowed), slot)
    } else {
        let (ok, after) = consume_outcome(slot, presented, now);
        if ok {
            (Ok(()), after)
        } else {
            (Err(ServiceError::InvalidLocalToken), after)
        }
    }
}

/// The answer to a request for a scan of the server.
pub open spec fn server_scan_outcome(expected: Option<Seq<char>>, provided: Option<Seq<char>>) -> Result<
    (),
    ServiceError,
> {
    match expected {
        None => Err(ServiceError::ApiKeyNotConfigured),
        Some(k) => {
            let p = match provided {
                Some(p) => p,
                None => ""@,
            };
            if p == k {
                Ok(())
            } else {
                Err(ServiceError::InvalidApiKey)
            }
        },
    }
}

/// Whether the `Origin` of a request is among the allowed origins.
pub fn is_origin_allowed(origin: Option<&str>, allowed: &Vec<String>) -> (b: bool)
    ensures
        b == origin_permitted(str_view(origin), allowed.deep_view()),
{
    match origin {
        Some(o) => {
            let s = text(o);
            contains_string(allowed, &s)
        },
        None => false,
    }
}

/// What follows `"Bearer "`, if the header starts with it.
fn bearer_token(auth: &str) -> (t: Option<String>)
    ensures
        match t {
            Some(x) => starts_with(auth@, "Bearer "@) && x@ == auth@.subrange(7, auth@.len() as int),
            None => !starts_with(auth@, "Bearer "@),
        },
{
    let chars = chars_of(auth);
    let prefix = chars_of("Bearer ");
    proof {
        reveal_strlit("Bearer ");
    }
    if starts_with_chars(&chars, &prefix) {
        let rest = sub_chars(&chars, 7, chars.len());
        Some(string_of(&rest))
    } else {
        None
    }
}

fn presented_token_exec(local_token: Option<&str>, authorization: Option<&str>) -> (t: Option<
    String,
>)
    ensures
        match t {
            Some(x) => presented_token(str_view(local_token), str_view(authorization)) == Some(x@),
            None => presented_token(str_view(local_token), str_view(authorization)) is None,
        },
{
    match local_token {
        Some(t) => Some(text(t)),
        None => match authorization {
            Some(a) => bearer_token(a),
            None => None,
        },
    }
}

fn not_after_exec(a: Timestamp, b: Timestamp) -> (r: bool)
    ensures
        r == not_after(a, b),
{
    a.secs < b.secs || (a.secs == b.secs && a.nanos <= b.nanos)
}

/// Checks the token that a request presents at `now` against the held
/// token, using it up when it is accepted and dropping it when it expired.
pub fn consume_valid_local_token(
    slot: &mut Option<TokenRecord>,
    local_token: Option<&str>,
    authorization: Option<&str>,
    now: Timestamp,
) -> (ok: bool)
    ensures
        (ok, slot_view(*final(slot))) == consume_outcome(
            slot_view(*old(slot)),
            presented_token(str_view(local_token), str_view(authorization)),
            now,
        ),
{
    let token = match presented_token_exec(local_token, authorization) {
        Some(t) => t,
        None => return false,
    };
    let (expired, same) = match &*slot {
        Some(r) => (not_after_exec(r.expires_at, now), r.value == token),
        None => return false,
    };
    if expired {
        *slot = None;
        return false;
    }
    if !same {
        return false;
    }
    *slot = None;
    true
}

/// Records `token`, expiring at `expires_at`, given the RFC 3339 text of that
/// time; refused, with the held token kept, where there is no such text.
pub fn record_local_token(
    slot: &mut Option<TokenRecord>,
    token: String,
    expires_at: Timestamp,
    expires_at_text: Option<String>,
) -> (res: Result<IssuedToken, ServiceError>)
    ensures
        match expires_at_text {
            Some(text) => res matches Ok(issued) && issued.access_token@ == token@
                && issued.expires_at == expires_at && issued.expires_at_text@ == text@ && slot_view(
                *final(slot),
            ) == Some(TokenRecordView { value: token@, expires_at }),
            None => res == Err::<IssuedToken, ServiceError>(ServiceError::ExpiryOutOfRange)
                && slot_view(*final(slot)) == slot_view(*old(slot)),
        },
{
    match expires_at_text {
        Some(text) => {
            *slot = Some(TokenRecord { value: token.clone(), expires_at });
            Ok(IssuedToken { access_token: token, expires_at, expires_at_text: text })
        },
        None => Err(ServiceError::ExpiryOutOfRange),
    }
}

/// Records a new token issued at `now`, unless its expiry cannot be
/// written down.
fn issue_local_token(slot: &mut Option<TokenRecord>, ttl: i64, token: String, now: Timestamp) -> (res:
    Result<IssuedToken, ServiceError>)
    ensures
        match res {
            Ok(issued) => expiry_of(now, ttl) == Some(issued.expires_at) && issued.access_token@
                == token@ && rfc3339_text(issued.expires_at.secs, issued.expires_at.nanos) == Some(
                issued.expires_at_text@,
            ) && slot_view(*final(slot)) == Some(
                TokenRecordView { value: token@, expires_at: issued.expires_at },
            ),
            Err(e) => e == ServiceError::ExpiryOutOfRange && expiry_of(now, ttl) is None
                && slot_view(*final(slot)) == slot_view(*old(slot)),
        },
{
    let secs = match now.secs.checked_add(ttl) {
        Some(s) => s,
        None => return Err(ServiceError::ExpiryOutOfRange),
    };
    let expires_at = Timestamp { secs, nanos: now.nanos };
    let expires_at_text = timestamp_text(expires_at);
    record_local_token(slot, token, expires_at, expires_at_text)
}

/// Answers a request for a local token at `now`, issuing `token`.
pub fn create_local_token_at(
    config: &ServiceConfig,
    slot: &mut Option<TokenRecord>,
    consent: bool,
    origin: Option<&str>,
    token: String,
    now: Timestamp,
) -> (res: Result<IssuedToken, ServiceError>)
    ensures
        match (
            res,
            issue_outcome(
                consent,
                origin_permitted(str_view(origin), config.allowed_origins.deep_view()),
                token@,
                now,
                config.token_ttl_seconds,
            ),
        ) {
            (Ok(issued), Ok(r)) => issued.access_token@ == r.value && issued.expires_at
                == r.expires_at && rfc3339_text(r.expires_at.secs, r.expires_at.nanos) == Some(
                issued.expires_at_text@,
            ) && slot_view(*final(slot)) == Some(r),
            (Err(e), Err(f)) => e == f && slot_view(*final(slot)) == slot_view(*old(slot)),
            _ => false,
        },
{
    if !consent {
        return Err(ServiceError::ConsentRequired);
    }
    if !is_origin_allowed(origin, &config.allowed_origins) {
        return Err(ServiceError::OriginNotAllowed);
    }
    issue_local_token(slot, config.token_ttl_seconds, token, now)
}

/// Answers a request for a local token: with consent and from an allowed
/// origin, a fresh random token, good for the configured lifetime from now.
pub fn create_local_token(
    config: &ServiceConfig,
    slot: &mut Option<TokenRecord>,
    consent: bool,
    origin: Option<&str>,
) -> (res: Result<IssuedToken, ServiceError>)
    ensures
        match res {
            Ok(issued) => consent && origin_permitted(
                str_view(origin),
                config.allowed_origins.deep_view(),
            ) && (exists|a: u128, b: u128| issued.access_token@ == #[trigger] token_text(a as nat, b as nat))
                && (exists|now: Timestamp| #[trigger] expiry_of(now, config.token_ttl_seconds) == Some(
                issued.expires_at,
            )) && rfc3339_text(issued.expires_at.secs, issued.expires_at.nanos) == Some(
                issued.expires_at_text@,
            ) && slot_view(*final(slot)) == Some(
                TokenRecordView { value: issued.access_token@, expires_at: issued.expires_at },
            ),
            Err(e) => slot_view(*final(slot)) == slot_view(*old(slot)) && e == (if !consent {
                ServiceError::ConsentRequired
            } else if !origin_permitted(str_view(origin), config.allowed_origins.deep_view()) {
                ServiceError::OriginNotAllowed
            } else if e == ServiceError::ExpiryOutOfRange {
                ServiceError::ExpiryOutOfRange
            } else if e == ServiceError::RandomnessUnavailable {
                ServiceError::RandomnessUnavailable
            } else {
                ServiceError::ClockUnavailable
            }) && (e == ServiceError::ExpiryOutOfRange ==> exists|now: Timestamp| #[trigger] expiry_of(now, config.token_ttl_seconds) is None),
        },
{
    if !consent {
        return Err(ServiceError::ConsentRequired);
    }
    if !is_origin_allowed(origin, &config.allowed_origins) {
        return Err(ServiceError::OriginNotAllowed);
    }
    let token = match generate_token() {
        Some(t) => t,
        None => return Err(ServiceError::RandomnessUnavailable),
    };
    let now = match current_time() {
        Some(t) => t,
        None => return Err(ServiceError::ClockUnavailable),
    };
    let res = issue_local_token(slot, config.token_ttl_seconds, token, now);
    match &res {
        Ok(issued) => assert(expiry_of(now, config.token_ttl_seconds) == Some(issued.expires_at)),
        Err(_) => assert(expiry_of(now, config.token_ttl_seconds) is None),
    }
    res
}

/// Answers a request for a local scan at `now`.
pub fn scan_local_machine_at(
    config: &ServiceConfig,
    slot: &mut Option<TokenRecord>,
    origin: Option<&str>,
    local_token: Option<&str>,
    authorization: Option<&str>,
    now: Timestamp,
) -> (res: Result<(), ServiceError>)
    ensures
        (res, slot_view(*final(slot))) == local_scan_outcome(
            origin_permitted(str_view(origin), config.allowed_origins.deep_view()),
            slot_view(*old(slot)),
            presented_token(str_view(local_token), str_view(authorization)),
            now,
        ),
{
    if !is_origin_allowed(origin, &config.allowed_origins) {
        return Err(ServiceError::OriginNotAllowed);
    }
    if !consume_valid_local_token(slot, local_token, authorization, now) {
        return Err(ServiceError::InvalidLocalToken);
    }
    Ok(())
}

/// Answers a request for a local scan: from an allowed origin, with the held
/// token, still good now. The clock is read only where the answer depends on
/// it (a token is presented and one is held); where it cannot be read there,
/// the request is refused and the held token kept.
pub fn scan_local_machine(
    config: &ServiceConfig,
    slot: &mut Option<TokenRecord>,
    origin: Option<&str>,
    local_token: Option<&str>,
    authorization: Option<&str>,
) -> (res: Result<(), ServiceError>)
    ensures
        (exists|now: Timestamp|
            (res, slot_view(*final(slot))) == #[trigger] local_scan_outcome(
                origin_permitted(str_view(origin), config.allowed_origins.deep_view()),
                slot_view(*old(slot)),
                presented_token(str_view(local_token), str_view(authorization)),
                now,
            )) || (res == Err::<(), ServiceError>(ServiceError::ClockUnavailable)
            && origin_permitted(str_view(origin), config.allowed_origins.deep_view())
            && presented_token(str_view(local_token), str_view(authorization)) is Some
            && *old(slot) is Some && slot_view(*final(slot)) == slot_view(*old(slot))),
{
    let presented = presented_token_exec(local_token, authorization);
    if is_origin_allowed(origin, &config.allowed_origins) && presented.is_some() && slot.is_some() {
        match current_time() {
            Some(now) => scan_local_machine_at(config, slot, origin, local_token, authorization, now),
            None => Err(ServiceError::ClockUnavailable),
        }
    } else {
        // The answer does not depend on the time here.
        let res = scan_local_machine_at(
            config,
            slot,
            origin,
            local_token,
            authorization,
            Timestamp { secs: 0, nanos: 0 },
        );
        res
    }
}

/// Answers a request for a scan of the server, which needs the configured
/// API key in its `x-api-key` header.
pub fn scan_server_machine(config: &ServiceConfig, api_key: Option<&str>) -> (res: Result<
    (),
    ServiceError,
>)
    ensures
        res == server_scan_outcome(
            match config.server_api_key {
                Some(k) => Some(k@),
                None => None,
            },
            str_view(api_key),
        ),
{
    match &config.server_api_key {
        None => Err(ServiceError::ApiKeyNotConfigured),
        Some(expected) => {
            let provided = match api_key {
                Some(p) => text(p),
                None => text(""),
            };
            if provided == *expected {
                Ok(())
            } else {
                Err(ServiceError::InvalidApiKey)
            }
        },
    }
}

} // verus!
