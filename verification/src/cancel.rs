//! Cancellation tokens, and the evidence that one was cancelled.
use tokio_util::sync::CancellationToken;
use vstd::prelude::*;

verus! {

#[verifier::external_type_specification]
#[verifier::external_body]
pub struct ExCancellationToken(CancellationToken);

/// A token on which `cancel` has been called. Only `cancel_token` makes one,
/// so holding one shows that its token was cancelled.
pub struct CancelledToken {
    token: CancellationToken,
}

impl CancelledToken {
    /// The token that was cancelled.
    pub closed spec fn token(self) -> CancellationToken {
        self.token
    }
}

/// The set of tokens shown cancelled: it grows only by `CancelledToken`s.
pub struct CancelLog {
    cancelled: Ghost<Set<CancellationToken>>,
}

impl CancelLog {
    /// The tokens shown cancelled.
    pub closed spec fn contents(self) -> Set<CancellationToken> {
        self.cancelled@
    }

    /// An empty log.
    pub fn new() -> (log: Self)
        ensures
            log.contents() == Set::<CancellationToken>::empty(),
    {
        CancelLog { cancelled: Ghost(Set::empty()) }
    }

    /// Records the token that `cancelled` shows cancelled.
    pub fn record(&mut self, cancelled: CancelledToken)
        ensures
            final(self).contents() == old(self).contents().insert(cancelled.token()),
        no_unwind
    {
        self.cancelled = Ghost(self.cancelled@.insert(cancelled.token()));
    }
}

/// `CancellationToken::new`: a fresh token. `new` allocates a new shared
/// node, and tokens compare equal exactly when they share one, so the new
/// token is none of the tokens in `live` (which all hold their nodes).
#[verifier::external_body]
pub(crate) fn new_cancellation_token(_live: &Vec<(String, CancellationToken)>) -> (t: CancellationToken)
    ensures
        forall|i: int| 0 <= i < _live@.len() ==> _live@[i].1 != t,
{
    CancellationToken::new()
}

/// `CancellationToken::clone`: the clone shares the token's node (cancelling
/// either cancels both, and they compare equal), so the contract states that
/// it is the same token.
#[verifier::external_body]
pub(crate) fn clone_cancellation_token(token: &CancellationToken) -> (c: CancellationToken)
    ensures
        c == *token,
{
    token.clone()
}

/// `CancellationToken::cancel`: cancels the token (and the tokens derived
/// from it); the evidence returned names the token cancelled.
#[verifier::external_body]
pub(crate) fn cancel_token(token: CancellationToken) -> (cancelled: CancelledToken)
    ensures
        cancelled.token() == token,
{
    token.cancel();
    CancelledToken { token }
}

} // verus!
