use callback_bot::bot_core::BotConfig;
use callback_bot::callback_handle::callback_manager::CallbackManager;
use callback_bot::callback_handle::callback_structs::CallbackError;
use callback_bot::callback_manager::timer_struct::TimedFunction;
use callback_bot::callback_manager::{settle_callback_run, CallBackContext, SESSION_TIMEOUT};
use callback_bot::config_builder::Config;
use callback_bot::utils::ObjectStorage;
use tokio_util::sync::CancellationToken;

#[test]
fn callback_finished_is_removed_and_cancelled() {
    let root = CancellationToken::new();
    let mut m: CallbackManager<String> = CallbackManager::new(root.clone(), 30);
    assert_eq!(m.default_callback_duration(), 30);
    let id = m.add_callback("entity".to_string());
    let token = m.token(id).unwrap().clone();
    assert!(!token.is_cancelled());
    m.callback_mut(id).unwrap().push('!');
    assert!(m.conclude_run(id, Ok(false)).is_ok());
    assert_eq!(m.callback_mut(id).unwrap().as_str(), "entity!");
    assert!(m.conclude_run(id, Ok(true)).is_ok());
    assert!(token.is_cancelled());
    assert!(matches!(m.callback_mut(id), Err(CallbackError::CallbackNotFound)));
}

#[test]
fn callback_failure_is_removed_and_reported() {
    let mut m: CallbackManager<u8> = CallbackManager::new(CancellationToken::new(), 30);
    let id = m.add_callback(1);
    let r = m.conclude_run(id, Err(anyhow::Error::msg("boom")));
    match r {
        Err(CallbackError::CallbackFunctionError(e)) => assert_eq!(e.to_string(), "boom"),
        _ => panic!("expected the failure back"),
    }
    assert!(m.token(id).is_none());
}

#[test]
fn callback_timeout_hands_back() {
    let root = CancellationToken::new();
    let mut m: CallbackManager<u8> = CallbackManager::new(root.clone(), 30);
    let id = m.add_callback(5);
    let token = m.token(id).unwrap().clone();
    assert_eq!(m.on_timout(id), Some(5));
    assert_eq!(m.on_timout(id), None);
    root.cancel();
    assert!(token.is_cancelled());
}

#[test]
fn timer_registry_cancel_by_uuid() {
    let main = CancellationToken::new();
    let mut timers = TimedFunction::new(main.clone());
    let a = timers.register_function();
    let b = timers.register_function();
    let ta = timers.token(a).unwrap().clone();
    let tb = timers.token(b).unwrap().clone();
    timers.cancel_function(a);
    assert!(ta.is_cancelled());
    assert!(!tb.is_cancelled());
    assert!(timers.token(a).is_none());
    timers.cancel_function(a);
    timers.finish_function(b);
    assert!(timers.token(b).is_none());
    assert!(!tb.is_cancelled());
}

#[test]
fn timer_registry_cancel_all() {
    let main = CancellationToken::new();
    let mut timers = TimedFunction::new(main.clone());
    let a = timers.register_function();
    let b = timers.register_function();
    let ta = timers.token(a).unwrap().clone();
    let tb = timers.token(b).unwrap().clone();
    main.cancel();
    assert!(ta.is_cancelled());
    assert!(tb.is_cancelled());
}

#[test]
fn context_sessions() {
    assert_eq!(SESSION_TIMEOUT, 60);
    let mut storage: ObjectStorage<CallBackContext<u32, &str>> = ObjectStorage::new();
    let id = storage.insert(CallBackContext::new(Some(1), "handler"));
    let ctx = storage.get_mut(&id).unwrap().take_context();
    assert_eq!(ctx, Some(1));
    assert_eq!(*storage.get(id).unwrap().callback(), "handler");
    assert!(settle_callback_run::<u32, &str, String>(&mut storage, id, Ok(Some(2))).is_none());
    assert_eq!(storage.get_mut(&id).unwrap().take_context(), Some(2));
    assert!(settle_callback_run::<u32, &str, String>(&mut storage, id, Ok(None)).is_none());
    assert!(storage.get(id).is_none());
    let id2 = storage.insert(CallBackContext::new(None, "other"));
    assert_eq!(
        settle_callback_run(&mut storage, id2, Err("bad".to_string())),
        Some("bad".to_string())
    );
    assert!(storage.get(id2).is_none());
}

#[test]
fn config_gives_bot_settings() {
    let bot = BotConfig { token: "SECRET-REDACTED".to_string(), owner_id: 42, callback_timeout_sec: 60 };
    let config = Config::new(bot);
    let bot = config.config();
    assert_eq!(bot.owner_id, 42);
    assert_eq!(bot.callback_timeout_sec, 60);
}
