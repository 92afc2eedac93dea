//! The ways a request can fail.

use crate::cancel::CancelReason;
use vstd::prelude::*;

verus! {

/// A failed request: bad input before any work, or a tripped token.
#[derive(Clone, Debug)]
pub enum SearchError {
    /// A pattern, glob or path was rejected; the text says why.
    InvalidInput(String),
    /// The cancellation token tripped.
    Cancelled(CancelReason),
}

/// `e` is bad input whose message starts with `prefix`.
pub open spec fn invalid_with_prefix(e: SearchError, prefix: Seq<char>) -> bool {
    match e {
        SearchError::InvalidInput(m) => crate::text::starts_with_spec(m@, prefix),
        SearchError::Cancelled(_) => false,
    }
}

/// `prefix` followed by `detail`, as a message.
pub fn message_with_prefix(prefix: &[char], detail: &str) -> (r: String)
    ensures
        r@ == prefix@ + detail@,
        crate::text::starts_with_spec(r@, prefix@),
{
    let mut r = crate::text::string_of(prefix);
    r.append(detail);
    assert((prefix@ + detail@).subrange(0, prefix@.len() as int) =~= prefix@);
    r
}

impl SearchError {
    /// Whether this is a cancellation or timeout rather than bad input.
    pub fn is_cancelled(&self) -> (r: bool)
        ensures
            r == (self is Cancelled),
    {
        match self {
            SearchError::Cancelled(_) => true,
            SearchError::InvalidInput(_) => false,
        }
    }
}

} // verus!
