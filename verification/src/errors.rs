use vstd::prelude::*;

verus! {

/// Why a domain or a whole cycle failed.
///
/// Transport problems and provider-side rejections are distinguished because
/// a provider can answer an HTTP request successfully and still report
/// failure inside the response envelope.
#[derive(Clone, Copy, Debug, PartialEq, Eq, Structural)]
pub enum DdnsError {
    /// A service could not be reached, or answered with a non-success
    /// transport status.
    Network,
    /// The provider's response envelope reported business-level failure.
    Api,
    /// No record with the requested name exists in the zone.
    NotFound,
    /// A response body could not be parsed.
    Parse,
}

} // verus!
