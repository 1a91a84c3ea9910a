use patient_access_api::initiator::AuthConfig;
use patient_access_api::pkce::generate;
use patient_access_api::settings::{
    load_settings, select_auth_config, validate_payer_env, NgrokConfig, Settings,
};

fn auth_config(tag: &str) -> AuthConfig {
    AuthConfig {
        client_id: format!("client-{}", tag),
        token_url: format!("https://{}.example.test/token", tag),
        auth_url: format!("https://{}.example.test/authorize", tag),
        api_scopes: vec!["openid".to_string()],
        redirect_url: "https://app.example.test/callback".to_string(),
        api_base_url: format!("https://{}.example.test/fhir", tag),
    }
}

fn settings() -> Settings {
    Settings {
        cigna_sandbox: auth_config("sandbox"),
        cigna_prod: auth_config("prod"),
        ngrok_config: NgrokConfig {
            auth_token: "tunnel-auth-token".to_string(),
            tunnel_url: "tunnel.example.test".to_string(),
        },
    }
}

#[test]
fn known_environments_pass_through_case_insensitively() {
    assert_eq!(validate_payer_env("cigna_sandbox"), "cigna_sandbox");
    assert_eq!(validate_payer_env("CIGNA_SANDBOX"), "CIGNA_SANDBOX");
    assert_eq!(validate_payer_env("Cigna_Prod"), "Cigna_Prod");
}

#[test]
fn unknown_environment_falls_back_to_the_default() {
    assert_eq!(validate_payer_env("bogus"), "CIGNA_SANDBOX");
    assert_eq!(validate_payer_env(""), "CIGNA_SANDBOX");
}

#[test]
fn auth_config_selection_matches_the_environment() {
    let s = settings();
    assert_eq!(select_auth_config(&s, "cigna_prod").client_id, "client-prod");
    assert_eq!(select_auth_config(&s, "cigna_sandbox").client_id, "client-sandbox");
    // the selection reads the name with the validator's case-insensitivity,
    // so a recognized input never falls to the default by letter case
    assert_eq!(select_auth_config(&s, "CIGNA_PROD").client_id, "client-prod");
    assert_eq!(select_auth_config(&s, "Cigna_Prod").client_id, "client-prod");
    // anything else selects the validated default
    assert_eq!(select_auth_config(&s, "other").client_id, "client-sandbox");
}

#[test]
fn load_settings_passes_settings_through_and_validates_the_env() {
    let (s, env) = load_settings(settings(), "nonsense");
    assert_eq!(env, "CIGNA_SANDBOX");
    assert_eq!(s.cigna_prod.client_id, "client-prod");
    assert_eq!(s.ngrok_config.tunnel_url, "tunnel.example.test");
}

#[test]
fn generated_material_is_fresh_and_well_formed() {
    let m1 = generate();
    let m2 = generate();
    assert_eq!(m1.verifier.len(), 43);
    assert_eq!(m1.challenge.len(), 43);
    assert_eq!(m1.csrf_state.len(), 22);
    // the challenge is a digest of the verifier, never the verifier itself
    assert_ne!(m1.challenge, m1.verifier);
    // independent calls draw independent randomness
    assert_ne!(m1.verifier, m2.verifier);
    assert_ne!(m1.csrf_state, m2.csrf_state);
}
