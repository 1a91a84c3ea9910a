//! The resource client's verified half: it decides, from the credential
//! cache and the identity lookup's outcome, exactly which protected-API
//! request may be issued next, short-circuits the dependent coverage call
//! when the identity step cannot succeed, and classifies a failed fetch into
//! the owed error. The HTTP calls themselves happen outside the crate,
//! against the requests planned here.

use crate::cache::{AccessCredential, CredentialCache};
use crate::errors::FlowError;
use crate::initiator::{AuthConfig, AuthConfigModel};
use vstd::prelude::*;

verus! {

/// One identity parameter returned by the protected API's user-info lookup.
#[derive(Debug, Clone)]
#[allow(non_snake_case)]
pub struct PatientID {
    pub name: String,
    pub valueString: String,
}

/// The mathematical content of a `PatientID`.
#[verifier::ext_equal]
pub ghost struct PatientIDModel {
    pub name: Seq<char>,
    pub value_string: Seq<char>,
}

impl View for PatientID {
    type V = PatientIDModel;

    open spec fn view(&self) -> PatientIDModel {
        PatientIDModel { name: self.name@, value_string: self.valueString@ }
    }
}

/// A read-only request against the protected resource API: its URL and the
/// authorization header to attach.
#[derive(Debug)]
pub struct ApiRequest {
    pub url: String,
    pub authorization: String,
}

/// The authorization header carrying a bearer token.
pub open spec fn bearer_of(token: Seq<char>) -> Seq<char> {
    "Bearer "@ + token
}

/// The URL of the identity (user-info) lookup.
pub open spec fn identity_url_spec(cfg: AuthConfigModel) -> Seq<char> {
    cfg.api_base_url + "/$userinfo"@
}

/// The URL of the coverage lookup for one patient identifier.
pub open spec fn coverage_url_spec(cfg: AuthConfigModel, patient: Seq<char>) -> Seq<char> {
    cfg.api_base_url + "/Coverage?patient="@ + patient
}

fn bearer_header(token: &str) -> (r: String)
    ensures
        r@ == bearer_of(token@),
{
    let mut r = String::from_str("Bearer ");
    r.append(token);
    r
}

/// Plans the identity lookup: succeeds with the user-info request — bearing
/// the token cached under the session key — exactly when a credential is
/// cached there; fails with `UnauthorizedResource`, and no request to issue,
/// otherwise.
pub fn identity_request(config: &AuthConfig, cache: &CredentialCache, session_key: &str) -> (r:
    Result<ApiRequest, FlowError>)
    requires
        cache.wf(),
    ensures
        r is Ok <==> cache@.contains_key(session_key@),
        r matches Ok(req) ==> req.url@ == identity_url_spec(config@) && req.authorization@
            == bearer_of(cache@[session_key@].access_token),
        r matches Err(e) ==> e == FlowError::UnauthorizedResource,
{
    match cache.get(session_key) {
        Some(credential) => Ok(identity_request_for(config, credential)),
        None => Err(FlowError::UnauthorizedResource),
    }
}

/// Picks the identity record the dependent call is derived from: the first
/// entry of the lookup's parameter list. An empty list fails with
/// `IdentityNotFound`.
pub fn select_identity(identities: &Vec<PatientID>) -> (r: Result<&PatientID, FlowError>)
    ensures
        r is Ok <==> identities@.len() > 0,
        r matches Ok(p) ==> *p == identities@[0],
        r matches Err(e) ==> e == FlowError::IdentityNotFound,
{
    if identities.len() > 0 {
        Ok(&identities[0])
    } else {
        Err(FlowError::IdentityNotFound)
    }
}

/// Plans the coverage lookup for one identity: succeeds with the coverage
/// request for that patient identifier — bearing the cached token — exactly
/// when a credential is cached under the session key.
pub fn coverage_request(
    config: &AuthConfig,
    cache: &CredentialCache,
    session_key: &str,
    patient: &PatientID,
) -> (r: Result<ApiRequest, FlowError>)
    requires
        cache.wf(),
    ensures
        r is Ok <==> cache@.contains_key(session_key@),
        r matches Ok(req) ==> req.url@ == coverage_url_spec(config@, patient@.value_string)
            && req.authorization@ == bearer_of(cache@[session_key@].access_token),
        r matches Err(e) ==> e == FlowError::UnauthorizedResource,
{
    match cache.get(session_key) {
        Some(credential) => Ok(coverage_request_for(config, credential, patient)),
        None => Err(FlowError::UnauthorizedResource),
    }
}

/// Plans the dependent coverage fetch from the identity lookup's outcome.
/// Without a cached credential it fails with `UnauthorizedResource`; with one
/// but an empty identity list it fails with `IdentityNotFound`; only when
/// both steps can succeed does it return the coverage request derived from
/// the first identity — the dependent call is never issued otherwise.
pub fn plan_coverage_fetch(
    config: &AuthConfig,
    cache: &CredentialCache,
    session_key: &str,
    identities: &Vec<PatientID>,
) -> (r: Result<ApiRequest, FlowError>)
    requires
        cache.wf(),
    ensures
        r is Ok <==> cache@.contains_key(session_key@) && identities@.len() > 0,
        !cache@.contains_key(session_key@) ==> (r matches Err(e) && e
            == FlowError::UnauthorizedResource),
        cache@.contains_key(session_key@) && identities@.len() == 0 ==> (r matches Err(e) && e
            == FlowError::IdentityNotFound),
        r matches Ok(req) ==> req.url@ == coverage_url_spec(
            config@,
            identities@[0]@.value_string,
        ) && req.authorization@ == bearer_of(cache@[session_key@].access_token),
{
    match cache.get(session_key) {
        Some(credential) => plan_coverage_for(config, credential, identities),
        None => Err(FlowError::UnauthorizedResource),
    }
}

/// Takes a consistent snapshot of the credential cached under the session
/// key — the one decision point for `UnauthorizedResource`: it succeeds with
/// a copy of the cached credential exactly when one is cached, so both steps
/// of a dependent fetch can run from the same token even while a concurrent
/// exchange replaces the cache entry.
pub fn snapshot_credential(cache: &CredentialCache, session_key: &str) -> (r: Result<
    AccessCredential,
    FlowError,
>)
    requires
        cache.wf(),
    ensures
        r is Ok <==> cache@.contains_key(session_key@),
        r matches Ok(c) ==> c@ == cache@[session_key@],
        r matches Err(e) ==> e == FlowError::UnauthorizedResource,
{
    match cache.get(session_key) {
        Some(credential) => Ok(credential.duplicate()),
        None => Err(FlowError::UnauthorizedResource),
    }
}

/// The identity (user-info) request for a credential already in hand.
pub fn identity_request_for(config: &AuthConfig, credential: &AccessCredential) -> (r: ApiRequest)
    ensures
        r.url@ == identity_url_spec(config@),
        r.authorization@ == bearer_of(credential.access_token@),
{
    let mut url = config.api_base_url.clone();
    url.append("/$userinfo");
    let authorization = bearer_header(credential.access_token.as_str());
    ApiRequest { url, authorization }
}

/// The coverage request for one identity, with a credential already in hand.
pub fn coverage_request_for(
    config: &AuthConfig,
    credential: &AccessCredential,
    patient: &PatientID,
) -> (r: ApiRequest)
    ensures
        r.url@ == coverage_url_spec(config@, patient@.value_string),
        r.authorization@ == bearer_of(credential.access_token@),
{
    let mut url = config.api_base_url.clone();
    url.append("/Coverage?patient=");
    url.append(patient.valueString.as_str());
    let authorization = bearer_header(credential.access_token.as_str());
    ApiRequest { url, authorization }
}

/// Plans the dependent coverage fetch with a credential already in hand: the
/// request for the first identity, or `IdentityNotFound` on an empty list —
/// the dependent call is never issued then.
pub fn plan_coverage_for(
    config: &AuthConfig,
    credential: &AccessCredential,
    identities: &Vec<PatientID>,
) -> (r: Result<ApiRequest, FlowError>)
    ensures
        r is Ok <==> identities@.len() > 0,
        r matches Ok(req) ==> req.url@ == coverage_url_spec(
            config@,
            identities@[0]@.value_string,
        ) && req.authorization@ == bearer_of(credential.access_token@),
        r matches Err(e) ==> e == FlowError::IdentityNotFound,
{
    match select_identity(identities) {
        Ok(patient) => Ok(coverage_request_for(config, credential, patient)),
        Err(e) => Err(e),
    }
}

/// How a resource fetch failed, as plain values.
#[derive(Debug)]
pub enum FetchFailure {
    /// The API answered with a non-success HTTP status.
    Status { status: u16, detail: String },
    /// A success response arrived whose body did not parse as the expected
    /// identity list.
    MalformedBody { detail: String },
    /// The API could not be reached or did not answer.
    Transport { detail: String },
}

/// Classifies a failed resource fetch into the owed error: a 401 from the
/// protected API means the credential is missing or invalid, so
/// `UnauthorizedResource`; a malformed identity list is `IdentityNotFound`;
/// any other answer, or none at all, is the transient transport class the
/// caller may retry with backoff.
pub fn classify_fetch_failure(failure: FetchFailure) -> (e: FlowError)
    ensures
        failure matches FetchFailure::Status { status, detail } ==> (if status == 401 {
            e == FlowError::UnauthorizedResource
        } else {
            e == (FlowError::TokenExchangeUnreachable { detail })
        }),
        failure matches FetchFailure::MalformedBody { detail } ==> e
            == FlowError::IdentityNotFound,
        failure matches FetchFailure::Transport { detail } ==> e == (
        FlowError::TokenExchangeUnreachable { detail }),
{
    match failure {
        FetchFailure::Status { status, detail } => {
            if status == 401 {
                FlowError::UnauthorizedResource
            } else {
                FlowError::TokenExchangeUnreachable { detail }
            }
        },
        FetchFailure::MalformedBody { detail: _ } => FlowError::IdentityNotFound,
        FetchFailure::Transport { detail } => FlowError::TokenExchangeUnreachable { detail },
    }
}

} // verus!
