//! The bot's settings.

use vstd::prelude::*;

verus! {

/// What the bot is started with: its API token, the id of its owner, and
/// how long callbacks wait for a press.
pub struct BotConfig {
    pub token: String,
    pub owner_id: i64,
    pub callback_timeout_sec: u64,
}

} // verus!
