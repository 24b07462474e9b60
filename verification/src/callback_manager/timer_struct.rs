//! Cancellable timers: one child token per timer, under a fresh UUID.

use std::collections::HashMap;
use tokio_util::sync::CancellationToken;
use vstd::prelude::*;

use crate::cancellation::{cancel_token, child_token};
use crate::ids::{fresh_key, is_v4};

verus! {

broadcast use vstd::std_specs::hash::group_hash_axioms;

/// The running timers, each with the token that cancels it; all tokens are
/// children of the main token, so cancelling that one cancels them all.
pub struct TimedFunction {
    cancel_token_map: HashMap<u128, CancellationToken>,
    main_token: CancellationToken,
}

impl TimedFunction {
    /// The running timers' tokens, by UUID.
    pub closed spec fn tokens(&self) -> Map<u128, CancellationToken> {
        self.cancel_token_map@
    }

    /// The token whose children the timers' tokens are.
    pub closed spec fn main_token(&self) -> CancellationToken {
        self.main_token
    }

    /// No timers yet; timers will hang off `cancellation_token`.
    pub fn new(cancellation_token: CancellationToken) -> (t: Self)
        ensures
            t.tokens() == Map::<u128, CancellationToken>::empty(),
            t.main_token() == cancellation_token,
    {
        TimedFunction { cancel_token_map: HashMap::new(), main_token: cancellation_token }
    }

    /// Registers a timer under a fresh UUID with a new child token, and
    /// returns the UUID; the timer's task waits on that token.
    pub fn register_function(&mut self) -> (uuid: u128)
        ensures
            !old(self).tokens().contains_key(uuid),
            is_v4(uuid),
            final(self).tokens().dom() == old(self).tokens().dom().insert(uuid),
            final(self).main_token() == old(self).main_token(),
            forall|k: u128|
                k != uuid ==> #[trigger] final(self).tokens().get(k) == old(self).tokens().get(k),
    {
        let token = child_token(&self.main_token);
        let uuid = self.gen_uuid();
        self.cancel_token_map.insert(uuid, token);
        proof {
            assert(final(self).tokens().dom() =~= old(self).tokens().dom().insert(uuid));
        }
        uuid
    }

    /// The token of the timer `uuid`, if it is running.
    pub fn token(&self, uuid: u128) -> (t: Option<&CancellationToken>)
        ensures
            t is Some <==> self.tokens().contains_key(uuid),
            t matches Some(t) ==> *t == self.tokens()[uuid],
    {
        self.cancel_token_map.get(&uuid)
    }

    /// Forgets the timer `uuid` once its function has run.
    pub fn finish_function(&mut self, uuid: u128)
        ensures
            final(self).tokens() == old(self).tokens().remove(uuid),
            final(self).main_token() == old(self).main_token(),
    {
        let _ = self.cancel_token_map.remove(&uuid);
    }

    /// Cancels the timer `uuid` and forgets it; nothing happens when no such
    /// timer is running.
    pub fn cancel_function(&mut self, uuid: u128)
        ensures
            final(self).tokens() == old(self).tokens().remove(uuid),
            final(self).main_token() == old(self).main_token(),
    {
        if let Some(token) = self.cancel_token_map.remove(&uuid) {
            cancel_token(&token);
        }
    }

    /// A UUID that no running timer has.
    fn gen_uuid(&self) -> (uuid: u128)
        ensures
            !self.tokens().contains_key(uuid),
            is_v4(uuid),
    {
        fresh_key(&self.cancel_token_map)
    }
}

/// A timer registered and then cancelled leaves the set of running timers as
/// it was before it was registered.
pub proof fn lemma_register_then_cancel(
    before: Map<u128, CancellationToken>,
    registered: Map<u128, CancellationToken>,
    after: Map<u128, CancellationToken>,
    uuid: u128,
)
    requires
        !before.contains_key(uuid),
        registered.dom() == before.dom().insert(uuid),
        forall|k: u128| k != uuid ==> #[trigger] registered.get(k) == before.get(k),
        after == registered.remove(uuid),
    ensures
        after == before,
{
    assert forall|k: u128| #[trigger] after.contains_key(k) == before.contains_key(k) by {}
    assert forall|k: u128| after.contains_key(k) implies #[trigger] after[k] == before[k] by {
        assert(registered.get(k) == before.get(k));
    }
    assert(after =~= before);
}

} // verus!
