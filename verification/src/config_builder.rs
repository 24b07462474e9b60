//! The settings file's content.

use vstd::prelude::*;

use crate::bot_core::BotConfig;

verus! {

/// The settings file: its `bot` table.
pub struct Config {
    bot: BotConfig,
}

impl Config {
    /// The bot's settings.
    pub closed spec fn bot(&self) -> BotConfig {
        self.bot
    }

    /// Settings holding `bot`.
    pub fn new(bot: BotConfig) -> (c: Self)
        ensures
            c.bot() == bot,
    {
        Config { bot }
    }

    /// Gives up the bot's settings.
    pub fn config(self) -> (b: BotConfig)
        ensures
            b == self.bot(),
    {
        self.bot
    }
}

} // verus!
