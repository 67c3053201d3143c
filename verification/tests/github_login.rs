use rust_epub_reader::contribute::ApiReply;
use rust_epub_reader::oauth::{
    classify_token_reply, device_code_from_reply, device_code_request, github_client_id,
    github_poll_device_code, github_poll_token, github_poll_token_result, github_start_device_flow,
    token_request, user_reply_outcome, user_request_headers, DeviceCode, GithubLogin, OAuthStatus,
    PollDecision, PollResult, TokenStep,
};

fn ok_body(body: &str) -> ApiReply {
    ApiReply::Response { status: 200, status_text: "200 OK".to_string(), body: body.to_string() }
}

fn login() -> GithubLogin {
    GithubLogin {
        polling: true,
        poll_in_flight: false,
        device_code: Some("dc".to_string()),
        user_code: Some("UC".to_string()),
        interval: 5,
        expires_at_ms: Some(1_000_000),
        last_poll_ms: None,
        token: None,
        username: None,
        status: OAuthStatus::Clear,
    }
}

#[test]
fn client_id_defaults_and_overrides() {
    assert_eq!(github_client_id(None), "Ov23liG7iXNfGOTAXXxx");
    assert_eq!(github_client_id(Some("mine".to_string())), "mine");
}

#[test]
fn requests_are_form_encoded() {
    let r = device_code_request("cid");
    assert_eq!(r.url, "https://github.com/login/device/code");
    assert_eq!(r.form, vec![("client_id".to_string(), "cid".to_string()), ("scope".to_string(), "public_repo".to_string())]);
    let r = token_request("cid", "dc");
    assert_eq!(r.url, "https://github.com/login/oauth/access_token");
    assert_eq!(r.form[1], ("device_code".to_string(), "dc".to_string()));
    assert_eq!(r.form[2].1, "urn:ietf:params:oauth:grant-type:device_code");
    let h = user_request_headers("t");
    assert_eq!(h[0].1, "Bearer t");
    assert_eq!(h[1].1, "RustEpubReader");
}

#[test]
fn device_codes_are_read_with_defaults() {
    let d = device_code_from_reply(&ok_body("{\"device_code\":\"d\",\"user_code\":\"U\",\"expires_in\":600,\"interval\":7}")).unwrap();
    assert_eq!((d.device_code.as_str(), d.user_code.as_str(), d.expires_in, d.interval), ("d", "U", 600, 7));
    let d = device_code_from_reply(&ok_body("{\"device_code\":\"d\",\"user_code\":\"U\"}")).unwrap();
    assert_eq!((d.expires_in, d.interval), (900, 5));
    assert_eq!(device_code_from_reply(&ok_body("{\"user_code\":\"U\"}")).err().unwrap(), "missing device_code");
    assert_eq!(device_code_from_reply(&ok_body("{\"device_code\":\"d\"}")).err().unwrap(), "missing user_code");
    assert_eq!(device_code_from_reply(&ok_body("<html>")).err().unwrap(), "error decoding response body");
    assert_eq!(device_code_from_reply(&ApiReply::Failed("offline".to_string())).err().unwrap(), "offline");
}

#[test]
fn token_replies_are_classified() {
    match classify_token_reply(&ok_body("{\"access_token\":\"tok\"}")) {
        TokenStep::FetchUser { token } => assert_eq!(token, "tok"),
        _ => panic!("expected a token"),
    }
    let outcome = |body: &str| match classify_token_reply(&ok_body(body)) {
        TokenStep::Done(r) => r,
        _ => panic!("expected an outcome"),
    };
    assert!(matches!(outcome("{\"error\":\"authorization_pending\"}"), Ok(PollResult::Pending)));
    assert!(matches!(outcome("{\"error\":\"slow_down\"}"), Ok(PollResult::SlowDown)));
    assert!(matches!(outcome("{\"error\":\"expired_token\"}"), Ok(PollResult::Expired)));
    assert!(matches!(outcome("{\"error\":\"access_denied\"}"), Ok(PollResult::Denied)));
    match outcome("{\"error\":\"weird\"}") {
        Ok(PollResult::Error(e)) => assert_eq!(e, "weird"),
        _ => panic!("expected an error outcome"),
    }
    assert!(matches!(outcome("{}"), Ok(PollResult::Pending)));
    assert_eq!(outcome("nope").err().unwrap(), "error decoding response body");
}

#[test]
fn user_replies_name_the_login() {
    match user_reply_outcome("t".to_string(), &ok_body("{\"login\":\"bob\"}")) {
        Ok(PollResult::Success { token, username }) => assert_eq!((token.as_str(), username.as_str()), ("t", "bob")),
        _ => panic!("expected success"),
    }
    match user_reply_outcome("t".to_string(), &ok_body("{}")) {
        Ok(PollResult::Success { username, .. }) => assert_eq!(username, "unknown"),
        _ => panic!("expected success"),
    }
    assert_eq!(user_reply_outcome("t".to_string(), &ApiReply::Failed("x".to_string())).err().unwrap(), "x");
}

#[test]
fn polls_wait_for_the_interval() {
    let mut l = login();
    match github_poll_token(&mut l, 1000) {
        PollDecision::Poll { device_code } => assert_eq!(device_code, "dc"),
        _ => panic!("expected a poll"),
    }
    assert_eq!(l.last_poll_ms, Some(1000));
    assert!(matches!(github_poll_token(&mut l, 2000), PollDecision::Idle));
    assert!(!github_poll_token_result(&mut l, Ok(PollResult::Pending)));
    assert!(matches!(github_poll_token(&mut l, 5999), PollDecision::Wait));
    assert!(matches!(github_poll_token(&mut l, 6000), PollDecision::Poll { .. }));
}

#[test]
fn slow_down_adds_five_seconds() {
    let mut l = login();
    let _ = github_poll_token(&mut l, 0);
    assert!(!github_poll_token_result(&mut l, Ok(PollResult::SlowDown)));
    assert_eq!(l.interval, 10);
    assert!(matches!(github_poll_token(&mut l, 9999), PollDecision::Wait));
    assert!(matches!(github_poll_token(&mut l, 10000), PollDecision::Poll { .. }));
}

#[test]
fn expiry_and_denial_stop_polling() {
    let mut l = login();
    assert!(matches!(github_poll_token(&mut l, 1_000_001), PollDecision::Expired));
    assert!(!l.polling);
    assert!(matches!(l.status, OAuthStatus::CodeExpired));
    let mut l = login();
    let _ = github_poll_token(&mut l, 0);
    github_poll_token_result(&mut l, Ok(PollResult::Denied));
    assert!(!l.polling);
    assert!(matches!(l.status, OAuthStatus::AccessDenied));
    let mut l = login();
    github_poll_token_result(&mut l, Err("boom".to_string()));
    match &l.status {
        OAuthStatus::Error(e) => assert_eq!(e, "boom"),
        _ => panic!("expected an error"),
    }
    assert!(l.polling);
}

#[test]
fn success_stores_the_token_and_ends_the_flow() {
    let mut l = login();
    let _ = github_poll_token(&mut l, 0);
    let granted = github_poll_token_result(
        &mut l,
        Ok(PollResult::Success { token: "tok".to_string(), username: "bob".to_string() }),
    );
    assert!(granted);
    assert_eq!(l.token.as_deref(), Some("tok"));
    assert_eq!(l.username.as_deref(), Some("bob"));
    assert!(!l.polling && !l.poll_in_flight);
    assert!(l.device_code.is_none() && l.user_code.is_none());
}

#[test]
fn device_code_starts_polling() {
    let mut l = login();
    l.polling = true;
    github_start_device_flow(&mut l);
    assert!(!l.polling);
    assert!(matches!(l.status, OAuthStatus::RequestingCode));
    let d = DeviceCode { device_code: "d2".to_string(), user_code: "U2".to_string(), expires_in: 600, interval: 7 };
    assert!(github_poll_device_code(&mut l, Ok(d), 5000));
    assert!(l.polling);
    assert_eq!(l.expires_at_ms, Some(605_000));
    assert_eq!(l.interval, 7);
    assert_eq!(l.last_poll_ms, None);
    assert_eq!(l.device_code.as_deref(), Some("d2"));
    assert!(!github_poll_device_code(&mut l, Err("nope".to_string()), 0));
}

#[test]
fn far_expiry_saturates_the_clock() {
    let mut l = login();
    let d = DeviceCode { device_code: "d".to_string(), user_code: "U".to_string(), expires_in: u64::MAX, interval: 5 };
    assert!(github_poll_device_code(&mut l, Ok(d), 5000));
    assert_eq!(l.expires_at_ms, Some(u64::MAX));
    let d = DeviceCode { device_code: "d".to_string(), user_code: "U".to_string(), expires_in: 10, interval: 5 };
    assert!(github_poll_device_code(&mut l, Ok(d), u64::MAX - 3));
    assert_eq!(l.expires_at_ms, Some(u64::MAX));
}
