//! Callbacks that carry a context between presses: the stored context,
//! what becomes of it after a press, and the cancellable timers that expire
//! sessions.

pub mod timer_struct;

use vstd::prelude::*;

use crate::utils::ObjectStorage;

verus! {

/// Seconds a callback session lasts.
pub const SESSION_TIMEOUT: u64 = 60;

/// A callback handler `H` with the context `C` it is handed on the next
/// press.
pub struct CallBackContext<C, H> {
    custom_context: Option<C>,
    callback: H,
}

impl<C, H> CallBackContext<C, H> {
    /// The context handed to the next press.
    pub closed spec fn context(&self) -> Option<C> {
        self.custom_context
    }

    /// The handler.
    pub closed spec fn handler(&self) -> H {
        self.callback
    }

    /// A handler with its first context.
    pub fn new(context: Option<C>, callback: H) -> (c: Self)
        ensures
            c.context() == context,
            c.handler() == callback,
    {
        CallBackContext { custom_context: context, callback }
    }

    /// The handler, to be called.
    pub fn callback(&self) -> (h: &H)
        ensures
            *h == self.handler(),
    {
        &self.callback
    }

    /// Takes the context out for a press of the button; the handler is
    /// then called with it.
    pub fn take_context(&mut self) -> (c: Option<C>)
        ensures
            c == old(self).context(),
            final(self).context() is None,
            final(self).handler() == old(self).handler(),
    {
        self.custom_context.take()
    }
}

/// Settles the session `uuid` after its handler ran with `outcome`: a
/// returned context is kept for the next press; a session that returned no
/// context, or failed, is removed; the failure is handed back to be
/// reported.
pub fn settle_callback_run<C, H, E>(
    storage: &mut ObjectStorage<CallBackContext<C, H>>,
    uuid: u128,
    outcome: Result<Option<C>, E>,
) -> (failure: Option<E>)
    ensures
        outcome matches Ok(Some(ctx)) ==> failure is None && (if old(storage)@.contains_key(uuid) {
            &&& final(storage)@.dom() == old(storage)@.dom()
            &&& final(storage)@[uuid].context() == Some(ctx)
            &&& final(storage)@[uuid].handler() == old(storage)@[uuid].handler()
            &&& forall|k: u128|
                k != uuid && old(storage)@.contains_key(k) ==> #[trigger] final(storage)@[k]
                    == old(storage)@[k]
        } else {
            final(storage)@ == old(storage)@
        }),
        outcome matches Ok(None) ==> failure is None
            && final(storage)@ == old(storage)@.remove(uuid),
        outcome matches Err(e) ==> failure == Some(e)
            && final(storage)@ == old(storage)@.remove(uuid),
{
    match outcome {
        Ok(Some(context)) => {
            match storage.get_mut(&uuid) {
                Some(callback) => {
                    callback.custom_context = Some(context);
                },
                None => {},
            }
            None
        },
        Ok(None) => {
            let _ = storage.remove(&uuid);
            None
        },
        Err(e) => {
            let _ = storage.remove(&uuid);
            Some(e)
        },
    }
}

} // verus!
