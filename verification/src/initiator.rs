//! The authorization initiator: builds the provider authorization URL for a
//! new flow, stores the flow's pending record, and returns the redirect
//! target. The URL's exact text is pinned by `auth_url_spec`.

use crate::encode::{join_scopes, percent_encode, percent_encoding, seq_views, space_joined};
use crate::errors::{FlowError, FlowErrorKind};
use crate::pkce::{challenge_of, generate, PkceMaterial};
use crate::store::{FlowModel, FlowSessionStore, PendingFlow};
use vstd::prelude::*;

verus! {

/// The per-environment authorization-server profile. Immutable for the
/// process lifetime; loaded by an external collaborator.
#[derive(Debug)]
pub struct AuthConfig {
    pub client_id: String,
    pub token_url: String,
    pub auth_url: String,
    pub api_scopes: Vec<String>,
    pub redirect_url: String,
    pub api_base_url: String,
}

/// The mathematical content of an `AuthConfig`.
#[verifier::ext_equal]
pub ghost struct AuthConfigModel {
    pub client_id: Seq<char>,
    pub token_url: Seq<char>,
    pub auth_url: Seq<char>,
    pub api_scopes: Seq<Seq<char>>,
    pub redirect_url: Seq<char>,
    pub api_base_url: Seq<char>,
}

impl View for AuthConfig {
    type V = AuthConfigModel;

    open spec fn view(&self) -> AuthConfigModel {
        AuthConfigModel {
            client_id: self.client_id@,
            token_url: self.token_url@,
            auth_url: self.auth_url@,
            api_scopes: seq_views(self.api_scopes@),
            redirect_url: self.redirect_url@,
            api_base_url: self.api_base_url@,
        }
    }
}

impl AuthConfig {
    /// A copy of this configuration with the same content.
    pub fn duplicate(&self) -> (r: AuthConfig)
        ensures
            r@ == self@,
    {
        AuthConfig {
            client_id: self.client_id.clone(),
            token_url: self.token_url.clone(),
            auth_url: self.auth_url.clone(),
            api_scopes: clone_strings(&self.api_scopes),
            redirect_url: self.redirect_url.clone(),
            api_base_url: self.api_base_url.clone(),
        }
    }
}

/// What the initiator hands back: the provider URL to redirect the user to,
/// and the state token that keys the new flow.
#[derive(Debug)]
pub struct RedirectTarget {
    pub url: String,
    pub csrf_state: String,
}

/// The full text of the provider authorization URL for one flow: the
/// configured authorization endpoint with the response type, client id,
/// redirect URI, space-joined scopes, CSRF state, PKCE challenge and PKCE
/// method as percent-encoded query parameters.
pub open spec fn auth_url_spec(
    cfg: AuthConfigModel,
    challenge: Seq<char>,
    state: Seq<char>,
) -> Seq<char> {
    cfg.auth_url + "?response_type=code&client_id="@ + percent_encoding(cfg.client_id)
        + "&redirect_uri="@ + percent_encoding(cfg.redirect_url) + "&scope="@ + percent_encoding(
        space_joined(cfg.api_scopes),
    ) + "&state="@ + percent_encoding(state) + "&code_challenge="@ + percent_encoding(challenge)
        + "&code_challenge_method=S256"@
}

/// Builds the provider authorization URL carrying the given challenge and
/// state for this configuration.
pub fn build_authorization_url(config: &AuthConfig, challenge: &str, state: &str) -> (r: String)
    ensures
        r@ == auth_url_spec(config@, challenge@, state@),
{
    let mut url = String::new();
    url.append(config.auth_url.as_str());
    url.append("?response_type=code&client_id=");
    let enc_client = percent_encode(config.client_id.as_str());
    url.append(enc_client.as_str());
    url.append("&redirect_uri=");
    let enc_redirect = percent_encode(config.redirect_url.as_str());
    url.append(enc_redirect.as_str());
    url.append("&scope=");
    let joined = join_scopes(&config.api_scopes);
    let enc_scope = percent_encode(joined.as_str());
    url.append(enc_scope.as_str());
    url.append("&state=");
    let enc_state = percent_encode(state);
    url.append(enc_state.as_str());
    url.append("&code_challenge=");
    let enc_challenge = percent_encode(challenge);
    url.append(enc_challenge.as_str());
    url.append("&code_challenge_method=S256");
    proof {
        assert(url@ =~= auth_url_spec(config@, challenge@, state@));
    }
    url
}

/// Clones a list of strings, value for value.
pub fn clone_strings(v: &Vec<String>) -> (r: Vec<String>)
    ensures
        r@ == v@,
{
    let mut r: Vec<String> = Vec::new();
    let mut i: usize = 0;
    while i < v.len()
        invariant
            i <= v@.len(),
            r@ == v@.take(i as int),
        decreases v@.len() - i,
    {
        r.push(v[i].clone());
        proof {
            assert(v@.take(i + 1) =~= v@.take(i as int).push(v@[i as int]));
        }
        i = i + 1;
    }
    proof {
        assert(v@.take(v@.len() as int) =~= v@);
    }
    r
}

/// The pending record that `install_flow` stores for the given material.
pub open spec fn installed_flow(
    cfg: AuthConfigModel,
    material: PkceMaterial,
    now: u64,
) -> FlowModel {
    FlowModel {
        csrf_state: material.csrf_state@,
        pkce_verifier: material.verifier@,
        requested_scopes: cfg.api_scopes,
        created_at: now,
    }
}

/// Installs one flow built from the given PKCE material: stores its pending
/// record under the material's state token and returns the redirect target
/// whose URL carries the material's challenge. Fails — mapped to
/// `SessionStoreError`, store untouched — exactly when the state token
/// already keys a stored flow.
pub fn install_flow(
    config: &AuthConfig,
    store: &mut FlowSessionStore,
    material: PkceMaterial,
    now: u64,
) -> (r: Result<RedirectTarget, FlowError>)
    requires
        old(store).wf(),
    ensures
        final(store).wf(),
        final(store).ttl() == old(store).ttl(),
        old(store)@.contains_key(material.csrf_state@) ==> final(store)@ == old(store)@ && (
        r matches Err(e) && e.spec_kind() == FlowErrorKind::SessionStoreError),
        !old(store)@.contains_key(material.csrf_state@) ==> final(store)@ == old(store)@.insert(
            material.csrf_state@,
            installed_flow(config@, material, now),
        ) && (r matches Ok(rt) && rt.csrf_state@ == material.csrf_state@ && rt.url@
            == auth_url_spec(config@, material.challenge@, material.csrf_state@)),
    {
        let url = build_authorization_url(
            config,
            material.challenge.as_str(),
            material.csrf_state.as_str(),
        );
        let flow = PendingFlow {
            csrf_state: material.csrf_state.clone(),
            pkce_verifier: material.verifier,
            requested_scopes: clone_strings(&config.api_scopes),
            created_at: now,
        };
        proof {
            assert(flow@ =~= installed_flow(config@, material, now));
        }
        match store.put(flow) {
            Ok(()) => Ok(RedirectTarget { url, csrf_state: material.csrf_state }),
            Err(_) => Err(
                FlowError::SessionStoreError {
                    detail: String::from_str("state token already keys a pending flow"),
                },
            ),
        }
    }

/// Begins one authorization flow: generates fresh PKCE material and a CSRF
/// state, stores the pending record, and returns the provider redirect. On
/// success the new record sits under the returned state token — fresh, with
/// this call's timestamp and the configured scopes — and the URL carries the
/// S256 challenge of exactly the verifier stored for the flow. The only
/// failure, `SessionStoreError` with the store left unchanged, needs the
/// freshly drawn state token to collide with a stored key, so it can happen
/// only while the store holds at least one entry: on an empty store the call
/// succeeds whatever the draw.
pub fn begin_authorization(config: &AuthConfig, store: &mut FlowSessionStore, now: u64) -> (r:
    Result<RedirectTarget, FlowError>)
    requires
        old(store).wf(),
    ensures
        final(store).wf(),
        final(store).ttl() == old(store).ttl(),
        r matches Err(e) ==> e.spec_kind() == FlowErrorKind::SessionStoreError && final(store)@
            == old(store)@,
        r matches Err(e) ==> exists|k: Seq<char>| #[trigger] old(store)@.contains_key(k),
        r matches Ok(rt) ==> ({
            let f = final(store)@[rt.csrf_state@];
            &&& !old(store)@.contains_key(rt.csrf_state@)
            &&& final(store)@ == old(store)@.insert(rt.csrf_state@, f)
            &&& f.csrf_state == rt.csrf_state@
            &&& f.created_at == now
            &&& f.requested_scopes == config@.api_scopes
            &&& rt.url@ == auth_url_spec(config@, challenge_of(f.pkce_verifier), rt.csrf_state@)
        }),
{
    let material = generate();
    let ghost m = material;
    let r = install_flow(config, store, material, now);
    proof {
        if !old(store)@.contains_key(m.csrf_state@) {
            let f = installed_flow(config@, m, now);
            assert(store@[m.csrf_state@] == f);
            assert(r is Ok);
        } else {
            assert(old(store)@.contains_key(m.csrf_state@));
        }
    }
    r
}

} // verus!
