# callback_bot

Callback and timer bookkeeping for a Telegram bot, verified with Verus.

- `src/` is the verified library:
  - `ids`: UUIDs as 128-bit integers, their hyphenated text, parsing, and
    the choice of a key a map does not hold yet.
  - `utils::uuid_object_storage`: values stored under generated UUIDs.
  - `callback_handle`: the text of callback buttons (`uuid,data`), the
    registry of pending callbacks and what happens after a press.
  - `callback_manager`: callback sessions that keep a context between
    presses, and cancellable timers.
  - `timer`: the clock, timed payloads, and the queue that loads the
    pending payload with the earliest deadline.
  - `bot_core`, `config_builder`: the bot's settings.
- `app/` is the bot program: reading `config.toml`, the Telegram
  dispatcher, and the async tasks that await callbacks and timers.
- `tests/` exercises the library on concrete values.
