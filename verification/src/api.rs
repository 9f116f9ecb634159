//! Request and reply bodies of the control plane and the WebUI JSON API, and the
//! rules that turn one into the other.
use vstd::prelude::*;

use crate::auth::ApiError;
use crate::keys::Lease;
use crate::provider::{parse_provider, provider_name, Provider};
use crate::tokens::AdminSession;

verus! {

/// Query of `GET /lease`.
pub struct LeaseQuery {
    pub provider: String,
}

/// Reply of `GET /lease`.
pub struct LeaseResp {
    pub key: String,
    pub key_id: i64,
    pub lease_id: String,
    pub provider: String,
}

/// Body of `POST /report`.
pub struct ReportReq {
    pub key_id: i64,
    pub result: String,
    pub retry_after: Option<i64>,
}

/// Body of `POST /api/v1/login`.
pub struct LoginReq {
    pub password: String,
}

/// Reply of `POST /api/v1/login`.
pub struct LoginResp {
    pub token: String,
    pub expires_at: i64,
}

/// Body of `POST /api/v1/keys`.
pub struct KeyAddReq {
    pub provider: String,
    pub key: String,
    pub account: Option<String>,
}

/// Body of `POST /api/v1/users`.
pub struct UserCreateReq {
    pub name: Option<String>,
}

/// Reply of `POST /api/v1/users`.
pub struct UserCreateResp {
    pub token: String,
}

/// A mode-B user as listed by the admin API.
#[derive(Debug, Clone)]
pub struct UserRow {
    pub id: i64,
    pub token: String,
    pub name: Option<String>,
    pub created_at: i64,
}

/// The provider named in a request, or 400 `invalid provider`.
pub fn provider_param(name: &str) -> (r: Result<Provider, ApiError>)
    ensures
        parse_provider(name@) is Some ==> (r matches Ok(q) && Some(q) == parse_provider(name@)),
        parse_provider(name@) is None ==> (r matches Err(e) && e.status == 400 && e.message@ == "invalid provider"@),
{
    match Provider::from_str(name) {
        Some(p) => Ok(p),
        None => Err(ApiError { status: 400, message: "invalid provider".to_owned() }),
    }
}

/// The reply to a granted lease: the key, its id, the lease id and the provider's name.
pub fn lease_resp(lease: Lease) -> (r: LeaseResp)
    ensures
        r.key == lease.key_value,
        r.key_id == lease.key_id,
        r.lease_id == lease.lease_id,
        r.provider@ == provider_name(lease.provider),
{
    LeaseResp {
        key: lease.key_value,
        key_id: lease.key_id,
        lease_id: lease.lease_id,
        provider: lease.provider.to_string(),
    }
}

/// The reply to a successful login.
pub fn login_resp(session: AdminSession) -> (r: LoginResp)
    ensures
        r.token == session.token,
        r.expires_at == session.expires_at,
{
    LoginResp { token: session.token, expires_at: session.expires_at }
}

} // verus!
