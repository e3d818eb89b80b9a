//! The routing-matrix boundary: geographic points, matrix entries, and
//! the interpretation of upstream responses.
//!
//! The HTTP call itself lives outside this crate. The library fixes the
//! shapes that cross the boundary — points, matrix elements, and the
//! error taxonomy — and decides what a response means: success for a
//! 2xx status, otherwise a descriptive error that carries the upstream
//! code and message and is never silently swallowed.
//!
//! Coordinates are fixed-point integers in units of `1e-14` degree, and
//! distances are whole meters.

use vstd::prelude::*;

verus! {

/// A geographic point in fixed-point degrees (units of `1e-14` degree).
#[derive(Clone, Copy, Debug, PartialEq, Eq, Structural)]
pub struct GeoPoint {
    pub latitude_e14: i64,
    pub longitude_e14: i64,
}

impl GeoPoint {
    pub fn new(latitude_e14: i64, longitude_e14: i64) -> (r: Self)
        ensures
            r.latitude_e14 == latitude_e14,
            r.longitude_e14 == longitude_e14,
    {
        GeoPoint { latitude_e14, longitude_e14 }
    }
}

/// Status of one matrix element, as the upstream service reports it.
#[derive(Clone, Debug)]
pub struct RouteMatrixStatus {
    pub code: Option<i32>,
    pub message: Option<String>,
}

/// One element of the travel matrix: which origin and destination it
/// connects, and the distance and duration the service computed.
#[derive(Clone, Debug)]
pub struct RouteMatrixElement {
    pub origin_index: i32,
    pub destination_index: i32,
    pub status: Option<RouteMatrixStatus>,
    pub distance_meters: Option<u64>,
    pub duration: Option<String>,
}

/// The body of a structured upstream error response.
#[derive(Clone, Debug)]
pub struct UpstreamErrorBody {
    pub code: i32,
    pub message: Option<String>,
}

/// A failed routing-matrix call.
#[derive(Clone, Debug)]
pub enum RoutesError {
    /// The upstream service answered with a structured error: its code
    /// and message are carried verbatim.
    Upstream { code: i32, message: Option<String> },
    /// The upstream service answered outside the 2xx range without a
    /// structured error body: the raw status and body are carried.
    Http { status: u16, body: String },
}

/// Whether an HTTP status code counts as success (the 2xx range).
pub fn is_success_status(status: u16) -> (r: bool)
    ensures
        r == (200 <= status < 300),
{
    200 <= status && status < 300
}

/// Interpret the outcome of one routing-matrix call. A 2xx status is
/// success. Any other status is an error: with a parsed upstream error
/// body, the upstream code and message; without one, the raw status and
/// response body.
pub fn route_matrix_outcome(status: u16, upstream: Option<UpstreamErrorBody>, body: String) -> (r:
    Result<(), RoutesError>)
    ensures
        r is Ok <==> 200 <= status < 300,
        !(200 <= status < 300) ==> match upstream {
            Some(u) => r matches Err(RoutesError::Upstream { code, message }) && code == u.code
                && message == u.message,
            None => r matches Err(RoutesError::Http { status: st, body: b }) && st == status
                && b == body,
        },
{
    if is_success_status(status) {
        Ok(())
    } else {
        match upstream {
            Some(u) => Err(RoutesError::Upstream { code: u.code, message: u.message }),
            None => Err(RoutesError::Http { status, body }),
        }
    }
}

} // verus!
