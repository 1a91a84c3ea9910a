use patient_access_api::errors::StoreError;
use patient_access_api::store::{FlowSessionStore, PendingFlow, DEFAULT_TTL_SECONDS};

fn flow(state: &str, verifier: &str, created_at: u64) -> PendingFlow {
    PendingFlow {
        csrf_state: state.to_string(),
        pkce_verifier: verifier.to_string(),
        requested_scopes: vec!["openid".to_string(), "patient/Coverage.read".to_string()],
        created_at,
    }
}

#[test]
fn take_after_put_returns_exactly_one_record() {
    let mut store = FlowSessionStore::new(DEFAULT_TTL_SECONDS);
    store.put(flow("s1", "v1", 10)).unwrap();
    let first = store.take("s1", 20);
    let got = first.expect("first take must return the record");
    assert_eq!(got.csrf_state, "s1");
    assert_eq!(got.pkce_verifier, "v1");
    assert_eq!(got.created_at, 10);
    assert!(store.take("s1", 20).is_none());
    assert!(store.take("s1", 21).is_none());
}

#[test]
fn take_on_never_issued_state_fails() {
    let mut store = FlowSessionStore::new(DEFAULT_TTL_SECONDS);
    store.put(flow("s1", "v1", 0)).unwrap();
    assert!(store.take("unknown", 0).is_none());
}

#[test]
fn take_on_expired_state_fails() {
    let mut store = FlowSessionStore::new(600);
    store.put(flow("s1", "v1", 100)).unwrap();
    assert!(store.take("s1", 701).is_none());
    // the stale entry was evicted, not left behind
    store.put(flow("s1", "v2", 800)).unwrap();
    let got = store.take("s1", 800).unwrap();
    assert_eq!(got.pkce_verifier, "v2");
}

#[test]
fn take_at_ttl_boundary_still_succeeds() {
    let mut store = FlowSessionStore::new(600);
    store.put(flow("s1", "v1", 100)).unwrap();
    let got = store.take("s1", 700).unwrap();
    assert_eq!(got.pkce_verifier, "v1");
}

#[test]
fn duplicate_state_is_rejected() {
    let mut store = FlowSessionStore::new(600);
    store.put(flow("s1", "v1", 0)).unwrap();
    let err = store.put(flow("s1", "v2", 1)).unwrap_err();
    assert_eq!(err, StoreError::DuplicateKey);
    // the record stored first is untouched
    let got = store.take("s1", 1).unwrap();
    assert_eq!(got.pkce_verifier, "v1");
}

#[test]
fn concurrent_flows_are_isolated() {
    let mut store = FlowSessionStore::new(600);
    store.put(flow("s1", "v1", 0)).unwrap();
    store.put(flow("s2", "v2", 1)).unwrap();
    let got1 = store.take("s1", 2).unwrap();
    assert_eq!(got1.pkce_verifier, "v1");
    // consuming flow A did not disturb flow B's verifier
    let got2 = store.take("s2", 3).unwrap();
    assert_eq!(got2.pkce_verifier, "v2");
}
