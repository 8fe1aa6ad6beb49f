//! API response envelopes documented in the OpenAPI description.

use vstd::prelude::*;
use vstd::string::*;

use crate::game::CategoriesResponse;
use crate::player::{LoginResponse, NonceResponse, UpdateNameResponse};

verus! {

/// `GET /api/health` response body.
pub struct HealthResponse {
    pub ok: bool,
    pub ts: String,
}

/// Error response body.
pub struct ErrorResponse {
    pub ok: bool,
    pub message: String,
}

pub struct CategoriesApiResponse {
    pub ok: bool,
    pub data: CategoriesResponse,
}

pub struct RefreshLeaderboardResponse {
    pub refreshed: usize,
    pub message: String,
}

pub struct RefreshLeaderboardApiResponse {
    pub ok: bool,
    pub data: RefreshLeaderboardResponse,
}

pub struct NonceApiResponse {
    pub ok: bool,
    pub data: NonceResponse,
}

pub struct LoginApiResponse {
    pub ok: bool,
    pub data: LoginResponse,
}

pub struct UpdateNameApiResponse {
    pub ok: bool,
    pub data: UpdateNameResponse,
}

pub struct DeleteMomentResponse {
    pub message: String,
}

pub struct DeleteMomentApiResponse {
    pub ok: bool,
    pub data: DeleteMomentResponse,
}

pub struct SubmitSharedPostResponse {
    pub post_id: String,
    pub message: String,
}

pub struct SubmitSharedPostApiResponse {
    pub ok: bool,
    pub data: SubmitSharedPostResponse,
}

pub struct ReferralLinkResponse {
    pub code: String,
    pub link: String,
}

pub struct ReferralErrorResponse {
    pub error: String,
}

/// Adds the bearer-token security scheme to the OpenAPI description.
pub struct SecurityAddon;

/// An HTTP security scheme registered under a name in the OpenAPI
/// components.
pub struct HttpSecurityScheme {
    pub name: String,
    pub scheme: String,
    pub bearer_format: String,
}

impl SecurityAddon {
    /// The scheme this addon registers: `bearer_auth`, HTTP bearer tokens in
    /// JWT format.
    pub fn security_scheme(&self) -> (s: HttpSecurityScheme)
        ensures
            s.name@ == "bearer_auth"@,
            s.scheme@ == "bearer"@,
            s.bearer_format@ == "JWT"@,
    {
        HttpSecurityScheme {
            name: String::from_str("bearer_auth"),
            scheme: String::from_str("bearer"),
            bearer_format: String::from_str("JWT"),
        }
    }
}

/// The OpenAPI description of the service.
pub struct ApiDoc;

} // verus!
