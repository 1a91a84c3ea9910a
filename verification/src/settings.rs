//! Deployment settings: the per-environment authorization profiles, the
//! ingress tunnel parameters, and the validation of the payer-environment
//! selector. Reading the configuration file and the command line happens
//! outside the crate; the values arrive here as plain data.

use crate::encode::{lower_seq, str_eq, to_ascii_lower};
use crate::initiator::AuthConfig;
use vstd::prelude::*;

verus! {

/// Parameters of the ingress tunnel, consumed outside this crate.
#[derive(Debug)]
pub struct NgrokConfig {
    pub auth_token: String,
    pub tunnel_url: String,
}

/// Everything the deployment configures: one authorization profile per payer
/// environment, and the tunnel parameters.
#[derive(Debug)]
pub struct Settings {
    pub cigna_sandbox: AuthConfig,
    pub cigna_prod: AuthConfig,
    pub ngrok_config: NgrokConfig,
}

/// The validated payer environment: the given selector when, lowercased, it
/// names a known environment; the explicit default otherwise.
pub open spec fn spec_validate_payer_env(s: Seq<char>) -> Seq<char> {
    if lower_seq(s) == "cigna_sandbox"@ || lower_seq(s) == "cigna_prod"@ {
        s
    } else {
        "CIGNA_SANDBOX"@
    }
}

/// Validates the payer-environment selector, case-insensitively, falling
/// back to the sandbox default on unrecognized input.
pub fn validate_payer_env(payer_env: &str) -> (r: String)
    ensures
        r@ == spec_validate_payer_env(payer_env@),
{
    let lowered = to_ascii_lower(payer_env);
    if str_eq(lowered.as_str(), "cigna_sandbox") || str_eq(lowered.as_str(), "cigna_prod") {
        payer_env.to_owned()
    } else {
        String::from_str("CIGNA_SANDBOX")
    }
}

/// The authorization profile selected by a payer-environment name, read with
/// the same case-insensitivity the validator applies: the production profile
/// for any casing of `cigna_prod`, the sandbox profile — the validated
/// default — for anything else.
pub fn select_auth_config<'a>(settings: &'a Settings, payer_env: &str) -> (r: &'a AuthConfig)
    ensures
        lower_seq(payer_env@) == "cigna_prod"@ ==> r == &settings.cigna_prod,
        lower_seq(payer_env@) != "cigna_prod"@ ==> r == &settings.cigna_sandbox,
{
    let lowered = to_ascii_lower(payer_env);
    if str_eq(lowered.as_str(), "cigna_prod") {
        &settings.cigna_prod
    } else {
        &settings.cigna_sandbox
    }
}

/// Law: validation and selection agree on letter case. The environment the
/// validator hands on selects the production profile exactly when the raw
/// input named it, in whatever case — a recognized input never falls to the
/// default profile by its casing.
pub proof fn lemma_validated_env_selects_consistently(s: Seq<char>)
    ensures
        (lower_seq(spec_validate_payer_env(s)) == "cigna_prod"@) <==> (lower_seq(s)
            == "cigna_prod"@),
{
    if lower_seq(s) == "cigna_sandbox"@ || lower_seq(s) == "cigna_prod"@ {
        assert(spec_validate_payer_env(s) == s);
    } else {
        reveal_strlit("CIGNA_SANDBOX");
        reveal_strlit("cigna_prod");
        assert(lower_seq("CIGNA_SANDBOX"@).len() == 13);
        assert(lower_seq("CIGNA_SANDBOX"@) != "cigna_prod"@);
    }
}

/// Combines the externally loaded settings with the validated payer
/// environment: the settings pass through unchanged, and the selector is
/// validated as `validate_payer_env` does.
pub fn load_settings(settings: Settings, payer_env: &str) -> (r: (Settings, String))
    ensures
        r.0 == settings,
        r.1@ == spec_validate_payer_env(payer_env@),
{
    let env = validate_payer_env(payer_env);
    (settings, env)
}

} // verus!
