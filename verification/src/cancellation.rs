//! Cancellation tokens of `tokio_util`, held as opaque handles.

use tokio_util::sync::CancellationToken;
use vstd::prelude::*;

verus! {

#[verifier::external_type_specification]
#[verifier::external_body]
pub struct ExCancellationToken(CancellationToken);

/// Calls `CancellationToken::child_token`: a token that is cancelled when
/// `parent` is. Tokens are opaque here; nothing is claimed of the result.
#[verifier::external_body]
pub fn child_token(parent: &CancellationToken) -> CancellationToken {
    parent.child_token()
}

/// Calls `CancellationToken::cancel`, which cancels the token and its
/// children. The effect is inside the shared token; nothing is claimed.
#[verifier::external_body]
pub fn cancel_token(token: &CancellationToken) {
    token.cancel()
}

} // verus!
