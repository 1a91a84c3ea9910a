use patient_access_api::cache::{AccessCredential, CredentialCache};
use patient_access_api::errors::{FlowError, FlowErrorKind};
use patient_access_api::initiator::AuthConfig;
use patient_access_api::resource::{
    classify_fetch_failure, coverage_request, identity_request, identity_request_for,
    plan_coverage_fetch, plan_coverage_for, select_identity, snapshot_credential, FetchFailure,
    PatientID,
};

fn config() -> AuthConfig {
    AuthConfig {
        client_id: "my-client".to_string(),
        token_url: "https://auth.example.test/token".to_string(),
        auth_url: "https://auth.example.test/authorize".to_string(),
        api_scopes: vec!["openid".to_string()],
        redirect_url: "https://app.example.test/callback".to_string(),
        api_base_url: "https://api.example.test/fhir".to_string(),
    }
}

fn credential(token: &str) -> AccessCredential {
    AccessCredential {
        access_token: token.to_string(),
        token_type: "bearer".to_string(),
        expires_in: None,
        scope: Some("openid".to_string()),
    }
}

#[allow(non_snake_case)]
fn patient(value: &str) -> PatientID {
    PatientID { name: "patientId".to_string(), valueString: value.to_string() }
}

#[test]
fn missing_credential_blocks_identity_fetch() {
    let cache = CredentialCache::new();
    let err = identity_request(&config(), &cache, "session").unwrap_err();
    assert_eq!(err.kind(), FlowErrorKind::UnauthorizedResource);
    assert_eq!(err.http_status(), 401);
}

#[test]
fn cached_credential_yields_identity_request() {
    let mut cache = CredentialCache::new();
    cache.set("session", credential("tok-1"));
    let req = identity_request(&config(), &cache, "session").unwrap();
    assert_eq!(req.url, "https://api.example.test/fhir/$userinfo");
    assert_eq!(req.authorization, "Bearer tok-1");
}

#[test]
fn empty_identity_list_short_circuits_coverage() {
    let mut cache = CredentialCache::new();
    cache.set("session", credential("tok-1"));
    let err = select_identity(&Vec::new()).unwrap_err();
    assert_eq!(err.kind(), FlowErrorKind::IdentityNotFound);
    let err = plan_coverage_fetch(&config(), &cache, "session", &Vec::new()).unwrap_err();
    assert_eq!(err.kind(), FlowErrorKind::IdentityNotFound);
    assert_eq!(err.http_status(), 404);
}

#[test]
fn coverage_request_derives_from_first_identity() {
    let mut cache = CredentialCache::new();
    cache.set("session", credential("tok-1"));
    let identities = vec![patient("PAT123"), patient("PAT999")];
    let chosen = select_identity(&identities).unwrap();
    assert_eq!(chosen.valueString, "PAT123");
    let req = coverage_request(&config(), &cache, "session", chosen).unwrap();
    assert_eq!(req.url, "https://api.example.test/fhir/Coverage?patient=PAT123");
    assert_eq!(req.authorization, "Bearer tok-1");
    let planned = plan_coverage_fetch(&config(), &cache, "session", &identities).unwrap();
    assert_eq!(planned.url, "https://api.example.test/fhir/Coverage?patient=PAT123");
}

#[test]
fn coverage_without_credential_is_unauthorized() {
    let cache = CredentialCache::new();
    let identities = vec![patient("PAT123")];
    let err = plan_coverage_fetch(&config(), &cache, "session", &identities).unwrap_err();
    assert_eq!(err.kind(), FlowErrorKind::UnauthorizedResource);
}

#[test]
fn cache_overwrites_per_key_and_isolates_keys() {
    let mut cache = CredentialCache::new();
    cache.set("alice", credential("tok-a1"));
    cache.set("bob", credential("tok-b"));
    cache.set("alice", credential("tok-a2"));
    assert_eq!(cache.get("alice").unwrap().access_token, "tok-a2");
    assert_eq!(cache.get("bob").unwrap().access_token, "tok-b");
    assert!(cache.get("carol").is_none());
}

#[test]
fn snapshot_reads_one_consistent_credential() {
    let mut cache = CredentialCache::new();
    let err = snapshot_credential(&cache, "session").unwrap_err();
    assert_eq!(err.kind(), FlowErrorKind::UnauthorizedResource);
    cache.set("session", credential("tok-1"));
    let snap = snapshot_credential(&cache, "session").unwrap();
    assert_eq!(snap.access_token, "tok-1");
    // both dependent requests planned from the snapshot carry the same token,
    // even after the cache entry is replaced
    cache.set("session", credential("tok-2"));
    let identity = identity_request_for(&config(), &snap);
    assert_eq!(identity.url, "https://api.example.test/fhir/$userinfo");
    assert_eq!(identity.authorization, "Bearer tok-1");
    let coverage = plan_coverage_for(&config(), &snap, &vec![patient("PAT123")]).unwrap();
    assert_eq!(coverage.url, "https://api.example.test/fhir/Coverage?patient=PAT123");
    assert_eq!(coverage.authorization, "Bearer tok-1");
    let err = plan_coverage_for(&config(), &snap, &Vec::new()).unwrap_err();
    assert_eq!(err.kind(), FlowErrorKind::IdentityNotFound);
}

#[test]
fn fetch_failures_classify_into_the_owed_errors() {
    let e = classify_fetch_failure(FetchFailure::Status {
        status: 401,
        detail: "invalid token".to_string(),
    });
    assert_eq!(e.kind(), FlowErrorKind::UnauthorizedResource);
    assert_eq!(e.http_status(), 401);
    assert!(!e.retryable());

    let e = classify_fetch_failure(FetchFailure::Status {
        status: 500,
        detail: "server error".to_string(),
    });
    assert_eq!(e.kind(), FlowErrorKind::TokenExchangeUnreachable);
    assert!(e.retryable());
    match &e {
        FlowError::TokenExchangeUnreachable { detail } => assert_eq!(detail, "server error"),
        other => panic!("unexpected error {:?}", other),
    }

    let e = classify_fetch_failure(FetchFailure::MalformedBody {
        detail: "not an identity list".to_string(),
    });
    assert_eq!(e.kind(), FlowErrorKind::IdentityNotFound);

    let e = classify_fetch_failure(FetchFailure::Transport {
        detail: "connection reset".to_string(),
    });
    assert_eq!(e.kind(), FlowErrorKind::TokenExchangeUnreachable);
    assert_eq!(e.http_status(), 502);
}

#[test]
fn redacted_token_keeps_only_a_short_prefix() {
    let cred = credential("secret-token-value");
    assert_eq!(cred.redacted_token(), "secr...");
    let short = credential("ab");
    assert_eq!(short.redacted_token(), "ab...");
}
