use patient_access_api::cache::{AccessCredential, CredentialCache};
use patient_access_api::errors::{FlowError, FlowErrorKind};
use patient_access_api::exchange::{begin_callback, finish_exchange, CallbackQuery, ExchangeOutcome};
use patient_access_api::initiator::{begin_authorization, install_flow, AuthConfig, build_authorization_url};
use patient_access_api::pkce::PkceMaterial;
use patient_access_api::store::FlowSessionStore;

fn config() -> AuthConfig {
    AuthConfig {
        client_id: "my-client".to_string(),
        token_url: "https://auth.example.test/token".to_string(),
        auth_url: "https://auth.example.test/authorize".to_string(),
        api_scopes: vec!["openid".to_string(), "patient/Coverage.read".to_string()],
        redirect_url: "https://app.example.test/callback".to_string(),
        api_base_url: "https://api.example.test/fhir".to_string(),
    }
}

fn material(state: &str, verifier: &str, challenge: &str) -> PkceMaterial {
    PkceMaterial {
        challenge: challenge.to_string(),
        verifier: verifier.to_string(),
        csrf_state: state.to_string(),
    }
}

fn callback(state: &str, code: &str) -> CallbackQuery {
    CallbackQuery { state: state.to_string(), code: code.to_string() }
}

fn credential(token: &str) -> AccessCredential {
    AccessCredential {
        access_token: token.to_string(),
        token_type: "bearer".to_string(),
        expires_in: Some(3600),
        scope: None,
    }
}

#[test]
fn authorization_url_has_every_parameter() {
    let cfg = config();
    let url = build_authorization_url(&cfg, "CHAL", "STATE1");
    let expected = "https://auth.example.test/authorize?response_type=code&client_id=my-client&redirect_uri=https%3A%2F%2Fapp.example.test%2Fcallback&scope=openid%20patient%2FCoverage.read&state=STATE1&code_challenge=CHAL&code_challenge_method=S256";
    assert_eq!(url, expected);
}

#[test]
fn begin_authorization_stores_one_flow_per_call() {
    let cfg = config();
    let mut store = FlowSessionStore::new(600);
    let rt1 = begin_authorization(&cfg, &mut store, 0).unwrap();
    let rt2 = begin_authorization(&cfg, &mut store, 0).unwrap();
    assert_ne!(rt1.csrf_state, rt2.csrf_state);
    assert!(rt1.url.starts_with("https://auth.example.test/authorize?response_type=code"));
    assert!(rt1.url.contains(&format!("&state={}", rt1.csrf_state)));
    assert!(rt1.url.contains("&code_challenge="));
    assert!(rt1.url.contains("&code_challenge_method=S256"));
    // both flows are pending, each under its own state
    let req1 = begin_callback(&cfg, &mut store, &callback(&rt1.csrf_state, "code1"), 1).unwrap();
    let req2 = begin_callback(&cfg, &mut store, &callback(&rt2.csrf_state, "code2"), 1).unwrap();
    assert_ne!(req1.pkce_verifier, req2.pkce_verifier);
}

#[test]
fn two_flows_complete_independently() {
    // initiate flow A and flow B before A completes; A's callback succeeds
    // without disturbing B, then B's callback still succeeds
    let cfg = config();
    let mut store = FlowSessionStore::new(600);
    install_flow(&cfg, &mut store, material("s1", "v1", "c1"), 0).unwrap();
    install_flow(&cfg, &mut store, material("s2", "v2", "c2"), 0).unwrap();

    let req_a = begin_callback(&cfg, &mut store, &callback("s1", "codeA"), 1).unwrap();
    assert_eq!(req_a.pkce_verifier, "v1");
    assert_eq!(req_a.code, "codeA");

    let req_b = begin_callback(&cfg, &mut store, &callback("s2", "codeB"), 2).unwrap();
    assert_eq!(req_b.pkce_verifier, "v2");
    assert_eq!(req_b.code, "codeB");
}

#[test]
fn unknown_state_yields_client_error_and_no_token_request() {
    let cfg = config();
    let mut store = FlowSessionStore::new(600);
    install_flow(&cfg, &mut store, material("s1", "v1", "c1"), 0).unwrap();
    let err = begin_callback(&cfg, &mut store, &callback("unknown123", "code"), 1).unwrap_err();
    assert_eq!(err.kind(), FlowErrorKind::UnknownOrExpiredState);
    let status = err.http_status();
    assert!((400..500).contains(&status));
    // the pending flow for s1 was not consumed by the bogus callback
    assert!(begin_callback(&cfg, &mut store, &callback("s1", "code"), 1).is_ok());
}

#[test]
fn replayed_callback_fails_after_successful_exchange() {
    let cfg = config();
    let mut store = FlowSessionStore::new(600);
    let mut cache = CredentialCache::new();
    install_flow(&cfg, &mut store, material("s1", "v1", "c1"), 0).unwrap();

    let req = begin_callback(&cfg, &mut store, &callback("s1", "code1"), 1).unwrap();
    assert_eq!(req.pkce_verifier, "v1");
    let outcome = ExchangeOutcome::Success { credential: credential("tok-123") };
    let cred = finish_exchange(&mut cache, "session", outcome).unwrap();
    assert_eq!(cred.access_token, "tok-123");

    // replaying the identical callback URL must fail terminally
    let err = begin_callback(&cfg, &mut store, &callback("s1", "code1"), 2).unwrap_err();
    assert_eq!(err.kind(), FlowErrorKind::UnknownOrExpiredState);
}

#[test]
fn token_request_carries_flow_and_config_exactly() {
    let cfg = config();
    let mut store = FlowSessionStore::new(600);
    install_flow(&cfg, &mut store, material("s1", "v1", "c1"), 0).unwrap();
    let req = begin_callback(&cfg, &mut store, &callback("s1", "auth-code-9"), 1).unwrap();
    assert_eq!(req.token_url, "https://auth.example.test/token");
    assert_eq!(req.grant_type, "authorization_code");
    assert_eq!(req.code, "auth-code-9");
    assert_eq!(req.redirect_url, "https://app.example.test/callback");
    assert_eq!(req.client_id, "my-client");
    assert_eq!(req.pkce_verifier, "v1");
}

#[test]
fn installed_url_carries_the_challenge_of_the_stored_verifier() {
    let cfg = config();
    let mut store = FlowSessionStore::new(600);
    let rt = install_flow(&cfg, &mut store, material("s1", "v1", "c1"), 0).unwrap();
    assert!(rt.url.contains("&code_challenge=c1&code_challenge_method=S256"));
    let req = begin_callback(&cfg, &mut store, &callback("s1", "code"), 1).unwrap();
    assert_eq!(req.pkce_verifier, "v1");
}

#[test]
fn rejected_exchange_surfaces_provider_detail() {
    let mut cache = CredentialCache::new();
    let outcome = ExchangeOutcome::Rejected {
        error_code: "invalid_grant".to_string(),
        description: "code expired".to_string(),
    };
    let err = finish_exchange(&mut cache, "session", outcome).unwrap_err();
    match &err {
        FlowError::TokenExchangeRejected { error_code, description } => {
            assert_eq!(error_code, "invalid_grant");
            assert_eq!(description, "code expired");
        }
        other => panic!("unexpected error {:?}", other),
    }
    assert_eq!(err.http_status(), 400);
    assert!(!err.retryable());
}

#[test]
fn unreachable_exchange_is_retryable() {
    let mut cache = CredentialCache::new();
    let outcome = ExchangeOutcome::Unreachable { detail: "connection reset".to_string() };
    let err = finish_exchange(&mut cache, "session", outcome).unwrap_err();
    assert_eq!(err.kind(), FlowErrorKind::TokenExchangeUnreachable);
    assert_eq!(err.http_status(), 502);
    assert!(err.retryable());
}

#[test]
fn duplicate_state_maps_to_session_store_error() {
    let cfg = config();
    let mut store = FlowSessionStore::new(600);
    install_flow(&cfg, &mut store, material("s1", "v1", "c1"), 0).unwrap();
    let err = install_flow(&cfg, &mut store, material("s1", "v9", "c9"), 1).unwrap_err();
    assert_eq!(err.kind(), FlowErrorKind::SessionStoreError);
    assert_eq!(err.http_status(), 500);
}
