//! Callback and timer bookkeeping for a Telegram bot: identifier generation,
//! object storage keyed by UUIDs, the callback registry with its button
//! payload format, and a deadline-ordered timer queue.

pub mod cancellation;
pub mod ids;
pub mod utils;
pub mod timer;
pub mod callback_handle;
pub mod callback_manager;
pub mod bot_core;
pub mod config_builder;
