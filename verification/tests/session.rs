use bakalari::AuthError;
use bakalari::BakalariClient;
use bakalari::EnsureAction;
use bakalari::Error;
use bakalari::TokenResponse;
use bakalari::json::JsonValue;
use bakalari::request::Method;

fn token_response(access: &str, refresh: &str, expires_in: u64) -> TokenResponse {
    TokenResponse {
        access_token: access.to_string(),
        refresh_token: refresh.to_string(),
        expires_in,
    }
}

fn fresh_client(now: u64) -> BakalariClient {
    BakalariClient::new("https://school.example", token_response("acc-1", "ref-1", 3600), now)
}

#[test]
fn lib_login() {
    let request = BakalariClient::login_request("https://school.example", "alice", "pw123");
    assert_eq!(request.url, "https://school.example/api/login");
    let client = fresh_client(1_000);

    println!("{client:#?}");
}

#[test]
fn test_login() {
    let request = BakalariClient::login_request("https://school.example", "alice", "pw123");
    assert_eq!(request.method, Method::Post);
    let client = fresh_client(1_000);

    println!("{client:#?}");
}

#[test]
fn login_with_valid_credentials() {
    let request = BakalariClient::login_request("https://school.example", "alice", "pw123");
    assert_eq!(request.method, Method::Post);
    assert_eq!(request.url, "https://school.example/api/login");
    assert_eq!(
        request.body.as_deref(),
        Some("client_id=ANDR&grant_type=password&username=alice&password=pw123")
    );
    assert!(request.bearer.is_none());

    // The response arrives at instant 1000 and declares a one-hour lifetime.
    let now: u64 = 1_000;
    let client = BakalariClient::new(
        "https://school.example",
        token_response("acc-1", "ref-1", 3600),
        now,
    );
    assert!(!client.session.access_token.is_empty());
    assert!(!client.session.refresh_token.is_empty());
    assert!(client.session.expiry > now);
    assert_eq!(client.session.expiry, 4_600);
    assert_eq!(client.api_url, "https://school.example/api/3");
}

#[test]
fn decode_token_payload() {
    let v = JsonValue::Obj(vec![
        ("access_token".to_string(), JsonValue::Str("acc-9".to_string())),
        ("refresh_token".to_string(), JsonValue::Str("ref-9".to_string())),
        ("expires_in".to_string(), JsonValue::Int(900)),
    ]);
    let t = bakalari::decode_token_response(&v).unwrap();
    assert_eq!(t.access_token, "acc-9");
    assert_eq!(t.refresh_token, "ref-9");
    assert_eq!(t.expires_in, 900);
}

#[test]
fn decode_token_payload_rejects_bad_shape() {
    let v = JsonValue::Obj(vec![(
        "access_token".to_string(),
        JsonValue::Str("acc".to_string()),
    )]);
    let r = bakalari::decode_token_response(&v);
    assert!(matches!(r, Err(Error::Auth(AuthError::InvalidCredentials))));
}

#[test]
fn ensure_valid_is_idempotent_on_fresh_session() {
    let mut client = fresh_client(1_000);
    let first = client.ensure_valid_step(2_000);
    assert!(matches!(first, EnsureAction::Ready));
    let second = client.ensure_valid_step(2_000);
    assert!(matches!(second, EnsureAction::Ready));
    // Neither pass replaced the session.
    assert_eq!(client.session.access_token, "acc-1");
    assert_eq!(client.session.expiry, 4_600);
}

#[test]
fn expired_session_refreshes_exactly_once() {
    let mut client = fresh_client(1_000);
    let now: u64 = 4_600;  // now >= expiry: the session has expired
    let action = client.ensure_valid_step(now);
    let request = match action {
        EnsureAction::Refresh(request) => request,
        _ => panic!("an expired session must trigger a refresh"),
    };
    assert_eq!(request.method, Method::Post);
    assert_eq!(request.url, "https://school.example/api/login");
    assert_eq!(
        request.body.as_deref(),
        Some("client_id=ANDR&grant_type=refresh_token&refresh_token=ref-1")
    );

    client.apply_refresh(token_response("acc-2", "ref-2", 3600), now);
    assert_eq!(client.session.access_token, "acc-2");
    // The rotated refresh token replaces the old one wholesale.
    assert_eq!(client.session.refresh_token, "ref-2");
    assert!(client.session.expiry > now);

    // The second pass is a no-op.
    assert!(matches!(client.ensure_valid_step(now), EnsureAction::Ready));
}

#[test]
fn concurrent_observers_share_one_refresh() {
    let mut client = fresh_client(0);
    let now: u64 = 10_000;  // far past expiry
    let mut refreshes = 0;
    for _ in 0..5 {
        match client.ensure_valid_step(now) {
            EnsureAction::Refresh(_) => refreshes += 1,
            EnsureAction::Wait => {}
            EnsureAction::Ready => panic!("the session is expired"),
        }
    }
    assert_eq!(refreshes, 1);
    // All five callers then complete against the single refreshed session.
    client.apply_refresh(token_response("acc-2", "ref-2", 3600), now);
    for _ in 0..5 {
        assert!(matches!(client.ensure_valid_step(now), EnsureAction::Ready));
    }
}

#[test]
fn aborted_refresh_leaves_prior_state_and_retries() {
    let mut client = fresh_client(0);
    let now: u64 = 10_000;
    assert!(matches!(client.ensure_valid_step(now), EnsureAction::Refresh(_)));
    client.abort_refresh();
    assert_eq!(client.session.refresh_token, "ref-1");
    // The next pass retries the refresh.
    assert!(matches!(client.ensure_valid_step(now), EnsureAction::Refresh(_)));
}

#[test]
fn expired_resource_call_succeeds_after_internal_refresh() {
    let mut client = fresh_client(0);
    let now: u64 = 9_000;
    // The resource call finds the session expired and performs the one
    // internal refresh; the caller never sees an authentication error.
    let outcome: Result<(), Error> = match client.ensure_valid_step(now) {
        EnsureAction::Refresh(_) => {
            client.apply_refresh(token_response("acc-2", "ref-2", 60), now);
            Ok(())
        }
        EnsureAction::Ready => Ok(()),
        EnsureAction::Wait => Ok(()),
    };
    assert!(outcome.is_ok());
    let request = client.marks_request();
    assert_eq!(request.bearer.as_deref(), Some("acc-2"));
    assert_eq!(request.url, "https://school.example/api/3/marks");
    assert!(matches!(client.ensure_valid_step(now), EnsureAction::Ready));
}
