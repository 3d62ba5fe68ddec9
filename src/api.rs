use vstd::prelude::*;

verus! {

/// How a call to the external platform failed.
#[derive(Clone, Copy, Debug, PartialEq, Eq, Structural)]
pub enum ApiError {
    /// The target is already gone.
    NotFound,
    /// The bot lacks the permission for the call.
    Forbidden,
    /// Anything else: network, rate limits, unknown errors.
    Other,
}

} // verus!
