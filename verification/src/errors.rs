//! The fixed diagnostics printed when a run cannot be completed.

use vstd::prelude::*;

verus! {

/// Why a fetch run was aborted: the transport failed, or a response body
/// could not be decoded as text. Either failure aborts the whole run; no
/// partial result is ever reported.
#[derive(Clone, Copy, Debug, PartialEq, Eq, Structural)]
pub enum FetchError {
    Transport,
    Decode,
}

/// The diagnostic for each way a fetch can fail.
pub open spec fn fetch_error_message_spec(e: FetchError) -> Seq<char> {
    match e {
        FetchError::Transport => "All application requst failed"@,
        FetchError::Decode => "could not unwrap req into text"@,
    }
}

impl FetchError {
    /// The diagnostic printed when this failure aborts the run.
    pub fn message(&self) -> (r: String)
        ensures
            r@ == fetch_error_message_spec(*self),
    {
        match self {
            FetchError::Transport => String::from_str("All application requst failed"),
            FetchError::Decode => String::from_str("could not unwrap req into text"),
        }
    }
}

/// The diagnostic printed when the token file is missing or unreadable.
pub fn missing_token_message() -> (r: String)
    ensures
        r@ == "Missing .talloc.jwt token"@,
{
    String::from_str("Missing .talloc.jwt token")
}

} // verus!
