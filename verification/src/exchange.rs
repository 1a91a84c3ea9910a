//! The callback validator and token exchanger. `begin_callback` consumes the
//! pending flow keyed by the callback's state — the CSRF check is the keyed
//! consumption itself — and pins down the token-exchange request to send.
//! `finish_exchange` turns the provider's answer into a cached credential or
//! the owed error. The network call between the two stays outside the crate.

use crate::cache::{AccessCredential, CredentialCache};
use crate::errors::{FlowError, FlowErrorKind};
use crate::initiator::{auth_url_spec, AuthConfig, AuthConfigModel};
use crate::pkce::challenge_of;
use crate::store::{take_rest, take_result, FlowModel, FlowSessionStore};
use vstd::prelude::*;

verus! {

/// The query parameters of the provider's redirect back to this server.
#[derive(Debug, Clone)]
pub struct CallbackQuery {
    /// Must match the CSRF state token of a pending flow.
    pub state: String,
    /// Single-use authorization code to exchange.
    pub code: String,
}

/// The token-endpoint request owed for one consumed flow: the authorization
/// code, the fixed grant type, the configured redirect URI and client id, and
/// the flow's stored PKCE verifier.
#[derive(Debug)]
pub struct TokenRequest {
    pub token_url: String,
    pub grant_type: String,
    pub code: String,
    pub redirect_url: String,
    pub client_id: String,
    pub pkce_verifier: String,
}

/// The mathematical content of a `TokenRequest`.
#[verifier::ext_equal]
pub ghost struct TokenRequestModel {
    pub token_url: Seq<char>,
    pub grant_type: Seq<char>,
    pub code: Seq<char>,
    pub redirect_url: Seq<char>,
    pub client_id: Seq<char>,
    pub pkce_verifier: Seq<char>,
}

impl View for TokenRequest {
    type V = TokenRequestModel;

    open spec fn view(&self) -> TokenRequestModel {
        TokenRequestModel {
            token_url: self.token_url@,
            grant_type: self.grant_type@,
            code: self.code@,
            redirect_url: self.redirect_url@,
            client_id: self.client_id@,
            pkce_verifier: self.pkce_verifier@,
        }
    }
}

/// The token-exchange request owed for a flow consumed with the given code.
pub open spec fn token_request_spec(
    cfg: AuthConfigModel,
    f: FlowModel,
    code: Seq<char>,
) -> TokenRequestModel {
    TokenRequestModel {
        token_url: cfg.token_url,
        grant_type: "authorization_code"@,
        code: code,
        redirect_url: cfg.redirect_url,
        client_id: cfg.client_id,
        pkce_verifier: f.pkce_verifier,
    }
}

/// Validates a provider callback by atomically consuming the pending flow
/// stored under the callback's state token. Succeeds — returning the exact
/// token-exchange request to issue — precisely when a fresh flow sits under
/// that state; a state never issued, already consumed, or older than the TTL
/// fails with `UnknownOrExpiredState` and no token request is produced, which
/// also defeats replay of a callback URL. Whatever the outcome, the entry
/// under that state is gone afterwards and no other flow is disturbed.
pub fn begin_callback(
    config: &AuthConfig,
    store: &mut FlowSessionStore,
    params: &CallbackQuery,
    now: u64,
) -> (r: Result<TokenRequest, FlowError>)
    requires
        old(store).wf(),
    ensures
        final(store).wf(),
        final(store).ttl() == old(store).ttl(),
        final(store)@ == take_rest(old(store)@, params.state@),
        r is Ok <==> take_result(old(store)@, params.state@, now, old(store).ttl()) is Some,
        r matches Ok(req) ==> req@ == token_request_spec(
            config@,
            take_result(old(store)@, params.state@, now, old(store).ttl()).unwrap(),
            params.code@,
        ),
        r matches Err(e) ==> e.spec_kind() == FlowErrorKind::UnknownOrExpiredState,
{
    match store.take(params.state.as_str(), now) {
        Some(flow) => {
            let req = TokenRequest {
                token_url: config.token_url.clone(),
                grant_type: String::from_str("authorization_code"),
                code: params.code.clone(),
                redirect_url: config.redirect_url.clone(),
                client_id: config.client_id.clone(),
                pkce_verifier: flow.pkce_verifier,
            };
            proof {
                assert(req@ =~= token_request_spec(
                    config@,
                    take_result(old(store)@, params.state@, now, old(store).ttl()).unwrap(),
                    params.code@,
                ));
            }
            Ok(req)
        },
        None => Err(FlowError::UnknownOrExpiredState),
    }
}

/// How the provider answered a token-exchange request. Produced outside this
/// crate by whatever issued the HTTP call; consumed here.
#[derive(Debug)]
pub enum ExchangeOutcome {
    /// A success response, already parsed into the credential.
    Success { credential: AccessCredential },
    /// A non-success response, with the provider's error detail.
    Rejected { error_code: String, description: String },
    /// The token endpoint could not be reached or did not answer.
    Unreachable { detail: String },
}

/// Finishes one token exchange: on success the credential is cached under the
/// session key and returned; a provider denial surfaces as
/// `TokenExchangeRejected` carrying the provider's detail and a transport
/// fault as `TokenExchangeUnreachable`, both leaving the cache untouched.
pub fn finish_exchange(
    cache: &mut CredentialCache,
    session_key: &str,
    outcome: ExchangeOutcome,
) -> (r: Result<AccessCredential, FlowError>)
    requires
        old(cache).wf(),
    ensures
        final(cache).wf(),
        outcome matches ExchangeOutcome::Success { credential } ==> final(cache)@ == old(
            cache,
        )@.insert(session_key@, credential@) && (r matches Ok(c) && c == credential),
        outcome matches ExchangeOutcome::Rejected { error_code, description } ==> final(cache)@
            == old(cache)@ && (r matches Err(e) && e == (FlowError::TokenExchangeRejected {
            error_code,
            description,
        })),
        outcome matches ExchangeOutcome::Unreachable { detail } ==> final(cache)@ == old(cache)@
            && (r matches Err(e) && e == (FlowError::TokenExchangeUnreachable { detail })),
{
    match outcome {
        ExchangeOutcome::Success { credential } => {
            let copy = credential.duplicate();
            cache.set(session_key, copy);
            Ok(credential)
        },
        ExchangeOutcome::Rejected { error_code, description } => Err(
            FlowError::TokenExchangeRejected { error_code, description },
        ),
        ExchangeOutcome::Unreachable { detail } => Err(
            FlowError::TokenExchangeUnreachable { detail },
        ),
    }
}

/// Law: the PKCE challenge carried by a flow's authorization URL is the S256
/// transform of exactly the verifier that the token request for that flow's
/// callback sends at exchange time.
pub proof fn lemma_pkce_round_trip(
    cfg: AuthConfigModel,
    f: FlowModel,
    code: Seq<char>,
    url: Seq<char>,
)
    requires
        url == auth_url_spec(cfg, challenge_of(f.pkce_verifier), f.csrf_state),
    ensures
        token_request_spec(cfg, f, code).pkce_verifier == f.pkce_verifier,
        url == auth_url_spec(
            cfg,
            challenge_of(token_request_spec(cfg, f, code).pkce_verifier),
            f.csrf_state,
        ),
{
}

} // verus!
