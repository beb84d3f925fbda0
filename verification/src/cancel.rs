//! Cooperative cancellation: tokio-util's hierarchical cancellation token,
//! declared for use from verified code. Cancellation state is shared across
//! tasks, so nothing is assumed about it; the wrappers only perform the
//! calls.

use vstd::prelude::*;

use tokio_util::sync::CancellationToken;

verus! {

#[verifier::external_type_specification]
#[verifier::external_body]
pub struct ExCancellationToken(CancellationToken);

/// Relies on tokio_util::sync::CancellationToken::new: a fresh root token.
#[verifier::external_body]
pub(crate) fn token_new() -> CancellationToken {
    CancellationToken::new()
}

/// Relies on tokio_util::sync::CancellationToken::child_token: a token that
/// is cancelled whenever its parent is, and can also be cancelled alone.
#[verifier::external_body]
pub(crate) fn token_child(t: &CancellationToken) -> CancellationToken {
    t.child_token()
}

/// Relies on tokio_util::sync::CancellationToken::clone: a handle to the
/// same cancellation state.
#[verifier::external_body]
pub(crate) fn token_clone(t: &CancellationToken) -> CancellationToken {
    t.clone()
}

/// Relies on tokio_util::sync::CancellationToken::cancel: cancels the token
/// and every descendant.
#[verifier::external_body]
pub(crate) fn token_cancel(t: &CancellationToken) {
    t.cancel()
}

} // verus!
