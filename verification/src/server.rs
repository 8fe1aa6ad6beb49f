//! Decisions of the HTTP server around its routes: the health and
//! not-found answers, the cross-origin policy and the rate limit.

use vstd::prelude::*;
use vstd::string::*;

use crate::openapi::{ErrorResponse, HealthResponse};
use crate::text::str_equal;

verus! {

/// Seconds between two tokens of a client's rate-limit bucket.
pub const RATE_LIMIT_REFILL_SECONDS: u64 = 2;

/// Requests a client may send in a burst.
pub const RATE_LIMIT_BURST: u32 = 60;

/// Seconds between two sweeps of the rate limiter's per-client state.
pub const RATE_LIMIT_SWEEP_SECONDS: u64 = 60;

/// The answer to `GET /api/health`: `ok` and the time of the call.
pub fn health_check() -> (r: HealthResponse)
    ensures
        r.ok,
{
    HealthResponse { ok: true, ts: crate::clock::now_rfc3339() }
}

pub open spec fn route_not_found_message() -> Seq<char> {
    "Route not found"@
}

/// The answer to a request that matches no route: status 404 and a body
/// with `ok` false.
pub fn fallback() -> (r: (u16, ErrorResponse))
    ensures
        r.0 == 404,
        !r.1.ok,
        r.1.message@ == route_not_found_message(),
{
    (404, ErrorResponse { ok: false, message: String::from_str("Route not found") })
}

/// How cross-origin requests are answered.
pub enum CorsPolicy {
    /// Any origin, method and header, without credentials.
    AnyOrigin,
    /// The listed origins, any method and header, with credentials.
    Origins(Vec<String>),
}

/// The texts of a list of strings.
pub open spec fn texts(v: Seq<String>) -> Seq<Seq<char>> {
    v.map_values(|s: String| s@)
}

/// The configured origins are the single wildcard `*`.
pub open spec fn wildcard_only(origins: Seq<Seq<char>>) -> bool {
    origins.len() == 1 && origins[0] == "*"@
}

fn copy_strings(v: &Vec<String>) -> (r: Vec<String>)
    ensures
        texts(r@) == texts(v@),
{
    let mut out: Vec<String> = Vec::new();
    let mut i: usize = 0;
    while i < v.len()
        invariant
            i <= v.len(),
            out@.len() == i,
            forall|j: int| 0 <= j < i ==> #[trigger] out@[j]@ == v@[j]@,
        decreases v.len() - i,
    {
        let s = v[i].clone();
        out.push(s);
        i = i + 1;
    }
    assert(texts(out@) =~= texts(v@));
    out
}

/// The cross-origin policy of the configured origins: any origin when they
/// are the single wildcard `*`, else exactly the listed origins.
pub fn cors_policy(origins: &Vec<String>) -> (p: CorsPolicy)
    ensures
        wildcard_only(texts(origins@)) ==> p is AnyOrigin,
        !wildcard_only(texts(origins@)) ==> (p matches CorsPolicy::Origins(list) && texts(list@)
            == texts(origins@)),
{
    let wildcard = origins.len() == 1 && str_equal(origins[0].as_str(), "*");
    proof {
        reveal_strlit("*");
    }
    if wildcard {
        CorsPolicy::AnyOrigin
    } else {
        CorsPolicy::Origins(copy_strings(origins))
    }
}

} // verus!
