//! Logging in to GitHub with the OAuth device flow: reading the device code
//! reply, deciding when to poll for the token, classifying the token and user
//! replies, and applying the outcome to the login state.
use vstd::prelude::*;
use crate::text::{chars_of, string_of, chars_eq, concat_chars, opt_view};
use crate::contribute::{ApiReply, json_field, json_str_field};

verus! {

/// The outcome of one poll for the access token.
#[derive(Clone, Debug)]
pub enum PollResult {
    Success { token: String, username: String },
    Pending,
    SlowDown,
    Expired,
    Denied,
    Error(String),
}

/// The codes GitHub hands out to start a device login.
#[derive(Clone, Debug)]
pub struct DeviceCode {
    pub device_code: String,
    pub user_code: String,
    /// Seconds until the codes expire.
    pub expires_in: u64,
    /// Seconds to wait between polls.
    pub interval: u64,
}

/// What the login dialog shows about the flow.
#[derive(Clone, Debug)]
pub enum OAuthStatus {
    Clear,
    RequestingCode,
    CodeExpired,
    AccessDenied,
    /// `Error: <message>`.
    Error(String),
}

/// The login state. Times are milliseconds on one monotonic clock.
#[derive(Clone, Debug)]
pub struct GithubLogin {
    pub polling: bool,
    pub poll_in_flight: bool,
    pub device_code: Option<String>,
    pub user_code: Option<String>,
    /// Seconds between polls.
    pub interval: u64,
    pub expires_at_ms: Option<u64>,
    pub last_poll_ms: Option<u64>,
    pub token: Option<String>,
    pub username: Option<String>,
    pub status: OAuthStatus,
}

/// Whether `body` is a JSON document.
pub uninterp spec fn is_json(body: Seq<char>) -> bool;

/// `serde_json::from_str` into a `Value`, keeping only whether it succeeds.
#[verifier::external_body]
fn parses_as_json(body: &str) -> (b: bool)
    ensures
        b == is_json(body@),
{
    serde_json::from_str::<serde_json::Value>(body).is_ok()
}

/// The unsigned integer at `key` of the JSON object in `body`, if there is one.
pub uninterp spec fn json_u64_field(body: Seq<char>, key: Seq<char>) -> Option<u64>;

/// Parses `body` as JSON (`serde_json::from_str` into a `Value`) and reads
/// the unsigned integer at `key` (`Value[key].as_u64()`): the named result.
#[verifier::external_body]
fn json_u64(body: &str, key: &str) -> (r: Option<u64>)
    ensures
        r == json_u64_field(body@, key@),
{
    match serde_json::from_str::<serde_json::Value>(body) {
        Ok(v) => v[key].as_u64(),
        Err(_) => None,
    }
}

/// The message of a reply body that is not JSON (what the HTTP client
/// reports when it cannot decode the body).
pub open spec fn decode_error() -> Seq<char> {
    "error decoding response body"@
}

/// The device codes from the reply to the device code request: the transport
/// error, a decoding error, `missing device_code` or `missing user_code`;
/// otherwise the codes, with an expiry of 900 s and an interval of 5 s when
/// the reply gives none.
pub open spec fn device_code_spec(reply_failed: Option<Seq<char>>, body: Seq<char>)
    -> Result<(Seq<char>, Seq<char>, u64, u64), Seq<char>>
{
    match reply_failed {
        Some(e) => Err(e),
        None => if !is_json(body) {
            Err(decode_error())
        } else if json_str_field(body, "device_code"@) is None {
            Err("missing device_code"@)
        } else if json_str_field(body, "user_code"@) is None {
            Err("missing user_code"@)
        } else {
            Ok((
                json_str_field(body, "device_code"@)->0,
                json_str_field(body, "user_code"@)->0,
                match json_u64_field(body, "expires_in"@) { Some(n) => n, None => 900u64 },
                match json_u64_field(body, "interval"@) { Some(n) => n, None => 5u64 },
            ))
        },
    }
}

pub open spec fn reply_failure(reply: ApiReply) -> Option<Seq<char>> {
    match reply {
        ApiReply::Failed(e) => Some(e@),
        _ => None,
    }
}

pub open spec fn reply_body(reply: ApiReply) -> Seq<char> {
    match reply {
        ApiReply::Response { body, .. } => body@,
        _ => Seq::empty(),
    }
}

pub open spec fn device_code_view(d: DeviceCode) -> (Seq<char>, Seq<char>, u64, u64) {
    (d.device_code@, d.user_code@, d.expires_in, d.interval)
}

/// Reads the reply to the device code request (see `device_code_spec`).
pub fn device_code_from_reply(reply: &ApiReply) -> (r: Result<DeviceCode, String>)
    ensures
        match r {
            Ok(d) => device_code_spec(reply_failure(*reply), reply_body(*reply)) == Ok::<_, Seq<char>>(device_code_view(d)),
            Err(e) => device_code_spec(reply_failure(*reply), reply_body(*reply)) == Err::<(Seq<char>, Seq<char>, u64, u64), _>(e@),
        },
{
    let body = match reply {
        ApiReply::Failed(e) => {
            return Err(e.clone());
        },
        ApiReply::Response { body, .. } => body,
    };
    if !parses_as_json(body.as_str()) {
        return Err(string_of(&chars_of("error decoding response body")));
    }
    let device_code = match json_field(body.as_str(), "device_code") {
        Some(c) => c,
        None => {
            return Err(string_of(&chars_of("missing device_code")));
        },
    };
    let user_code = match json_field(body.as_str(), "user_code") {
        Some(c) => c,
        None => {
            return Err(string_of(&chars_of("missing user_code")));
        },
    };
    let expires_in = match json_u64(body.as_str(), "expires_in") {
        Some(n) => n,
        None => 900,
    };
    let interval = match json_u64(body.as_str(), "interval") {
        Some(n) => n,
        None => 5,
    };
    Ok(DeviceCode { device_code, user_code, expires_in, interval })
}

/// The view of a poll outcome.
pub enum PollView {
    Success(Seq<char>, Seq<char>),
    Pending,
    SlowDown,
    Expired,
    Denied,
    Error(Seq<char>),
}

pub open spec fn poll_view(r: PollResult) -> PollView {
    match r {
        PollResult::Success { token, username } => PollView::Success(token@, username@),
        PollResult::Pending => PollView::Pending,
        PollResult::SlowDown => PollView::SlowDown,
        PollResult::Expired => PollView::Expired,
        PollResult::Denied => PollView::Denied,
        PollResult::Error(e) => PollView::Error(e@),
    }
}

/// The outcome named by the `error` field of a token reply.
pub open spec fn poll_error_result(error: Seq<char>) -> PollView {
    if error == "authorization_pending"@ {
        PollView::Pending
    } else if error == "slow_down"@ {
        PollView::SlowDown
    } else if error == "expired_token"@ {
        PollView::Expired
    } else if error == "access_denied"@ {
        PollView::Denied
    } else {
        PollView::Error(error)
    }
}

/// What follows the reply to the token request.
#[derive(Debug)]
pub enum TokenStep {
    /// A token was granted: ask for the user it belongs to.
    FetchUser { token: String },
    /// The poll is over with this outcome, or this error message.
    Done(Result<PollResult, String>),
}

/// The step after a token reply: the transport error or a decoding error; a
/// granted `access_token` leads to the user request; otherwise the outcome
/// that the `error` field names, and `Pending` when there is none.
pub open spec fn token_step_spec(reply_failed: Option<Seq<char>>, body: Seq<char>)
    -> Result<Seq<char>, Result<PollView, Seq<char>>>
{
    match reply_failed {
        Some(e) => Err(Err(e)),
        None => if !is_json(body) {
            Err(Err(decode_error()))
        } else {
            match json_str_field(body, "access_token"@) {
                Some(t) => Ok(t),
                None => match json_str_field(body, "error"@) {
                    Some(e) => Err(Ok(poll_error_result(e))),
                    None => Err(Ok(PollView::Pending)),
                },
            }
        },
    }
}

pub open spec fn poll_outcome_view(r: Result<PollResult, String>) -> Result<PollView, Seq<char>> {
    match r {
        Ok(p) => Ok(poll_view(p)),
        Err(e) => Err(e@),
    }
}

pub open spec fn token_step_view(s: TokenStep) -> Result<Seq<char>, Result<PollView, Seq<char>>> {
    match s {
        TokenStep::FetchUser { token } => Ok(token@),
        TokenStep::Done(r) => Err(poll_outcome_view(r)),
    }
}

fn poll_error_from(error: String) -> (r: PollResult)
    ensures
        poll_view(r) == poll_error_result(error@),
{
    let e = chars_of(error.as_str());
    if chars_eq(&e, &chars_of("authorization_pending")) {
        PollResult::Pending
    } else if chars_eq(&e, &chars_of("slow_down")) {
        PollResult::SlowDown
    } else if chars_eq(&e, &chars_of("expired_token")) {
        PollResult::Expired
    } else if chars_eq(&e, &chars_of("access_denied")) {
        PollResult::Denied
    } else {
        PollResult::Error(error)
    }
}

/// Reads the reply to the token request (see `token_step_spec`).
pub fn classify_token_reply(reply: &ApiReply) -> (s: TokenStep)
    ensures
        token_step_view(s) == token_step_spec(reply_failure(*reply), reply_body(*reply)),
{
    let body = match reply {
        ApiReply::Failed(e) => {
            return TokenStep::Done(Err(e.clone()));
        },
        ApiReply::Response { body, .. } => body,
    };
    if !parses_as_json(body.as_str()) {
        return TokenStep::Done(Err(string_of(&chars_of("error decoding response body"))));
    }
    match json_field(body.as_str(), "access_token") {
        Some(token) => TokenStep::FetchUser { token },
        None => match json_field(body.as_str(), "error") {
            Some(e) => TokenStep::Done(Ok(poll_error_from(e))),
            None => TokenStep::Done(Ok(PollResult::Pending)),
        },
    }
}

/// The outcome after the user request made with `token`: the transport
/// error or a decoding error, else success with the user's `login`
/// (`unknown` when the reply has none).
pub open spec fn user_outcome_spec(token: Seq<char>, reply_failed: Option<Seq<char>>, body: Seq<char>) -> Result<PollView, Seq<char>> {
    match reply_failed {
        Some(e) => Err(e),
        None => if !is_json(body) {
            Err(decode_error())
        } else {
            Ok(PollView::Success(token, match json_str_field(body, "login"@) {
                Some(u) => u,
                None => "unknown"@,
            }))
        },
    }
}

/// Reads the reply to the user request (see `user_outcome_spec`).
pub fn user_reply_outcome(token: String, reply: &ApiReply) -> (r: Result<PollResult, String>)
    ensures
        poll_outcome_view(r) == user_outcome_spec(token@, reply_failure(*reply), reply_body(*reply)),
{
    let body = match reply {
        ApiReply::Failed(e) => {
            return Err(e.clone());
        },
        ApiReply::Response { body, .. } => body,
    };
    if !parses_as_json(body.as_str()) {
        return Err(string_of(&chars_of("error decoding response body")));
    }
    let username = match json_field(body.as_str(), "login") {
        Some(u) => u,
        None => string_of(&chars_of("unknown")),
    };
    Ok(PollResult::Success { token, username })
}

/// What the login does at a frame while it waits for the reader.
#[derive(Clone, Debug)]
pub enum PollDecision {
    /// Not polling, or a poll is already on its way: nothing to do.
    Idle,
    /// The device code expired: polling stopped.
    Expired,
    /// Too soon after the last poll.
    Wait,
    /// Poll for the token with this device code.
    Poll { device_code: String },
}

pub enum DecisionView {
    Idle,
    Expired,
    Wait,
    Poll(Seq<char>),
}

pub open spec fn decision_view(d: PollDecision) -> DecisionView {
    match d {
        PollDecision::Idle => DecisionView::Idle,
        PollDecision::Expired => DecisionView::Expired,
        PollDecision::Wait => DecisionView::Wait,
        PollDecision::Poll { device_code } => DecisionView::Poll(device_code@),
    }
}

/// Whole seconds from `last` to `now`; zero when `now` is earlier.
pub open spec fn elapsed_secs(now: u64, last: u64) -> int {
    if now >= last { (now - last) / 1000 } else { 0 }
}

/// The login after a frame at `now`, and what it decides: nothing while not
/// polling or while a poll is on its way; stop with `CodeExpired` once past
/// the expiry; wait while fewer whole seconds than the interval have passed
/// since the last poll; otherwise record `now` as the last poll and poll
/// with the device code (nothing when there is none).
pub open spec fn poll_decide(l: GithubLogin, now: u64) -> (GithubLogin, DecisionView) {
    if !l.polling || l.poll_in_flight {
        (l, DecisionView::Idle)
    } else if l.expires_at_ms is Some && now > l.expires_at_ms->0 {
        (GithubLogin { polling: false, status: OAuthStatus::CodeExpired, ..l }, DecisionView::Expired)
    } else if l.last_poll_ms is Some && elapsed_secs(now, l.last_poll_ms->0) < l.interval {
        (l, DecisionView::Wait)
    } else {
        match l.device_code {
            Some(c) => (GithubLogin { last_poll_ms: Some(now), poll_in_flight: true, ..l }, DecisionView::Poll(c@)),
            None => (GithubLogin { last_poll_ms: Some(now), ..l }, DecisionView::Idle),
        }
    }
}

/// Decides whether to poll for the token at `now` (see `poll_decide`).
pub fn github_poll_token(login: &mut GithubLogin, now: u64) -> (d: PollDecision)
    ensures
        (*final(login), decision_view(d)) == poll_decide(*old(login), now),
{
    if !login.polling || login.poll_in_flight {
        return PollDecision::Idle;
    }
    match login.expires_at_ms {
        Some(t) => {
            if now > t {
                login.polling = false;
                login.status = OAuthStatus::CodeExpired;
                return PollDecision::Expired;
            }
        },
        None => {},
    }
    match login.last_poll_ms {
        Some(last) => {
            let elapsed = if now >= last { (now - last) / 1000 } else { 0 };
            if elapsed < login.interval {
                return PollDecision::Wait;
            }
        },
        None => {},
    }
    login.last_poll_ms = Some(now);
    match &login.device_code {
        Some(c) => {
            let device_code = c.clone();
            login.poll_in_flight = true;
            PollDecision::Poll { device_code }
        },
        None => PollDecision::Idle,
    }
}

/// The login after the outcome `r` of a poll arrives: success stores the
/// token and user and ends the flow; `slow_down` adds 5 s to the interval;
/// expiry and denial stop polling with their status; errors show `Error:`.
pub open spec fn apply_poll_spec(l: GithubLogin, r: Result<PollResult, String>) -> GithubLogin {
    let l = GithubLogin { poll_in_flight: false, ..l };
    match r {
        Ok(PollResult::Success { token, username }) => GithubLogin {
            token: Some(token),
            username: Some(username),
            polling: false,
            device_code: None,
            user_code: None,
            status: OAuthStatus::Clear,
            ..l
        },
        Ok(PollResult::Pending) => l,
        Ok(PollResult::SlowDown) => GithubLogin { interval: (l.interval + 5) as u64, ..l },
        Ok(PollResult::Expired) => GithubLogin { polling: false, status: OAuthStatus::CodeExpired, ..l },
        Ok(PollResult::Denied) => GithubLogin { polling: false, status: OAuthStatus::AccessDenied, ..l },
        Ok(PollResult::Error(e)) => GithubLogin { status: OAuthStatus::Error(e), ..l },
        Err(e) => GithubLogin { status: OAuthStatus::Error(e), ..l },
    }
}

/// Applies the outcome of a poll (see `apply_poll_spec`); the result says
/// whether a token was granted, to be kept in the credential store.
pub fn github_poll_token_result(login: &mut GithubLogin, r: Result<PollResult, String>) -> (granted: bool)
    requires
        r matches Ok(PollResult::SlowDown) ==> old(login).interval + 5 <= u64::MAX,
    ensures
        *final(login) == apply_poll_spec(*old(login), r),
        granted <==> r matches Ok(PollResult::Success { .. }),
{
    login.poll_in_flight = false;
    match r {
        Ok(PollResult::Success { token, username }) => {
            login.token = Some(token);
            login.username = Some(username);
            login.polling = false;
            login.device_code = None;
            login.user_code = None;
            login.status = OAuthStatus::Clear;
            true
        },
        Ok(PollResult::Pending) => false,
        Ok(PollResult::SlowDown) => {
            login.interval = login.interval + 5;
            false
        },
        Ok(PollResult::Expired) => {
            login.polling = false;
            login.status = OAuthStatus::CodeExpired;
            false
        },
        Ok(PollResult::Denied) => {
            login.polling = false;
            login.status = OAuthStatus::AccessDenied;
            false
        },
        Ok(PollResult::Error(e)) => {
            login.status = OAuthStatus::Error(e);
            false
        },
        Err(e) => {
            login.status = OAuthStatus::Error(e);
            false
        },
    }
}

/// Starts a login: polling stops and the dialog shows that a code is being
/// requested.
pub fn github_start_device_flow(login: &mut GithubLogin)
    ensures
        *final(login) == (GithubLogin { polling: false, status: OAuthStatus::RequestingCode, ..*old(login) }),
{
    login.polling = false;
    login.status = OAuthStatus::RequestingCode;
}

/// The clock time, in milliseconds, `expires_in` seconds after `now`; the
/// latest time the clock can hold when that is past it.
pub open spec fn expiry_ms(now: u64, expires_in: u64) -> u64 {
    if now + expires_in * 1000 > u64::MAX {
        u64::MAX
    } else {
        (now + expires_in * 1000) as u64
    }
}

/// Applies the reply to the device code request at `now`: the codes are kept,
/// polling starts with the given interval and an expiry `expires_in` seconds
/// from now (see `expiry_ms`), and the result asks to open the verification
/// page; an error is shown instead.
pub fn github_poll_device_code(login: &mut GithubLogin, r: Result<DeviceCode, String>, now: u64) -> (open_page: bool)
    ensures
        open_page <==> r is Ok,
        match r {
            Ok(d) => *final(login) == (GithubLogin {
                device_code: Some(d.device_code),
                user_code: Some(d.user_code),
                interval: d.interval,
                expires_at_ms: Some(expiry_ms(now, d.expires_in)),
                polling: true,
                status: OAuthStatus::Clear,
                last_poll_ms: None,
                ..*old(login)
            }),
            Err(e) => *final(login) == (GithubLogin { status: OAuthStatus::Error(e), ..*old(login) }),
        },
{
    match r {
        Ok(d) => {
            let span: u64 = if d.expires_in <= u64::MAX / 1000 {
                d.expires_in * 1000
            } else {
                u64::MAX
            };
            login.device_code = Some(d.device_code);
            login.user_code = Some(d.user_code);
            login.interval = d.interval;
            login.expires_at_ms = Some(now.saturating_add(span));
            login.polling = true;
            login.status = OAuthStatus::Clear;
            login.last_poll_ms = None;
            true
        },
        Err(e) => {
            login.status = OAuthStatus::Error(e);
            false
        },
    }
}

/// Polls are spaced by the interval: after a poll at `t1`, whatever outcome
/// arrives, no poll is made at a `t2` less than the interval later.
pub proof fn law_polls_spaced(l: GithubLogin, t1: u64, r: Result<PollResult, String>, t2: u64)
    requires
        poll_decide(l, t1).1 is Poll,
        t1 <= t2,
        (t2 - t1) / 1000 < l.interval,
        l.interval + 5 <= u64::MAX,
    ensures
        !(poll_decide(apply_poll_spec(poll_decide(l, t1).0, r), t2).1 is Poll),
{
}

/// `slow_down` lengthens the interval by exactly five seconds, and no outcome
/// shortens it.
pub proof fn law_interval_never_shrinks(l: GithubLogin, r: Result<PollResult, String>)
    requires
        l.interval + 5 <= u64::MAX,
    ensures
        apply_poll_spec(l, r).interval >= l.interval,
        r matches Ok(PollResult::SlowDown) ==> apply_poll_spec(l, r).interval == l.interval + 5,
{
}

/// A form-encoded POST request.
#[derive(Clone, Debug)]
pub struct FormRequest {
    pub url: String,
    pub form: Vec<(String, String)>,
}

pub open spec fn pair_view(p: (String, String)) -> (Seq<char>, Seq<char>) {
    (p.0@, p.1@)
}

fn pair_of(k: &str, v: &str) -> (p: (String, String))
    ensures
        pair_view(p) == (k@, v@),
{
    (string_of(&chars_of(k)), string_of(&chars_of(v)))
}

/// The OAuth application's client id: the override (from the environment)
/// when there is one, else the built-in id.
pub fn github_client_id(env_override: Option<String>) -> (id: String)
    ensures
        id@ == (match env_override {
            Some(v) => v@,
            None => "Ov23liG7iXNfGOTAXXxx"@,
        }),
{
    match env_override {
        Some(v) => v,
        None => string_of(&chars_of("Ov23liG7iXNfGOTAXXxx")),
    }
}

/// The request for a device code, with the `public_repo` scope.
pub fn device_code_request(client_id: &str) -> (r: FormRequest)
    ensures
        r.url@ == "https://github.com/login/device/code"@,
        r.form@.map_values(|p: (String, String)| pair_view(p))
            == seq![("client_id"@, client_id@), ("scope"@, "public_repo"@)],
{
    let mut form: Vec<(String, String)> = Vec::new();
    form.push(pair_of("client_id", client_id));
    form.push(pair_of("scope", "public_repo"));
    let r = FormRequest { url: string_of(&chars_of("https://github.com/login/device/code")), form };
    assert(r.form@.map_values(|p: (String, String)| pair_view(p))
        =~= seq![("client_id"@, client_id@), ("scope"@, "public_repo"@)]);
    r
}

/// The request that polls for the token granted to `device_code`.
pub fn token_request(client_id: &str, device_code: &str) -> (r: FormRequest)
    ensures
        r.url@ == "https://github.com/login/oauth/access_token"@,
        r.form@.map_values(|p: (String, String)| pair_view(p)) == seq![
            ("client_id"@, client_id@),
            ("device_code"@, device_code@),
            ("grant_type"@, "urn:ietf:params:oauth:grant-type:device_code"@),
        ],
{
    let mut form: Vec<(String, String)> = Vec::new();
    form.push(pair_of("client_id", client_id));
    form.push(pair_of("device_code", device_code));
    form.push(pair_of("grant_type", "urn:ietf:params:oauth:grant-type:device_code"));
    let r = FormRequest { url: string_of(&chars_of("https://github.com/login/oauth/access_token")), form };
    assert(r.form@.map_values(|p: (String, String)| pair_view(p)) =~= seq![
        ("client_id"@, client_id@),
        ("device_code"@, device_code@),
        ("grant_type"@, "urn:ietf:params:oauth:grant-type:device_code"@),
    ]);
    r
}

/// The headers of the request for the user a token belongs to
/// (`GET https://api.github.com/user`).
pub fn user_request_headers(token: &str) -> (h: Vec<(String, String)>)
    ensures
        h@.len() == 2,
        pair_view(h@[0]) == ("Authorization"@, "Bearer "@ + token@),
        pair_view(h@[1]) == ("User-Agent"@, "RustEpubReader"@),
{
    let auth = concat_chars(&chars_of("Bearer "), &chars_of(token));
    let mut h: Vec<(String, String)> = Vec::new();
    h.push((string_of(&chars_of("Authorization")), string_of(&auth)));
    h.push(pair_of("User-Agent", "RustEpubReader"));
    h
}

} // verus!
