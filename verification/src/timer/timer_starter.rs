//! The decisions of the timer task: what each message does to the queue and
//! whether the task goes on.

use vstd::prelude::*;

use crate::timer::timed_manager::TimedManager;
use crate::timer::TimerError;

verus! {

/// A request to the timer task.
pub enum TimerMessage<F> {
    /// Run the payload after the given number of seconds.
    Add(F, u64),
    /// Drop the payload with this UUID.
    Remove(u128),
    /// End the task.
    Stop,
}

/// What the timer task does after a message.
pub enum TimerReply {
    /// Send back the outcome of an addition, then go on.
    Added(Result<u128, TimerError>),
    /// Go on.
    Continue,
    /// End the task: asked to stop, or the channel closed.
    Shutdown,
}

/// Handles one message from the channel (`None` when the channel closed).
pub fn handle_message<F>(
    manager: &mut TimedManager<F>,
    msg: Option<TimerMessage<F>>,
) -> (reply: TimerReply)
    requires
        old(manager).wf(),
    ensures
        final(manager).wf(),
        match msg {
            None => reply is Shutdown && *final(manager) == *old(manager),
            Some(TimerMessage::Stop) => reply is Shutdown && *final(manager) == *old(manager),
            Some(TimerMessage::Remove(uuid)) => reply is Continue
                && TimedManager::removed_as_told(*old(manager), *final(manager), uuid),
            Some(TimerMessage::Add(f, delay)) => reply matches TimerReply::Added(r)
                && exists|reading: Option<u64>|
                #[trigger] TimedManager::added_with_reading(
                    *old(manager),
                    *final(manager),
                    f,
                    delay,
                    reading,
                    r,
                ),
        },
{
    match msg {
        Some(TimerMessage::Add(future, delay)) => TimerReply::Added(manager.add(future, delay)),
        Some(TimerMessage::Remove(uuid)) => {
            manager.remove(uuid);
            TimerReply::Continue
        },
        Some(TimerMessage::Stop) => TimerReply::Shutdown,
        None => TimerReply::Shutdown,
    }
}

} // verus!
