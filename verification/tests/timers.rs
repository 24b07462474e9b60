use std::cmp::Ordering;

use callback_bot::timer::timed_function::TimedFunction;
use callback_bot::timer::timed_manager::{ComparableUUid, ExecuteStep, TimedManager};
use callback_bot::timer::timer_starter::{handle_message, TimerMessage, TimerReply};
use callback_bot::timer::{deadline_after, get_unix_timestamp, TimerError};

#[test]
fn timed_function() {
    let timed_function = TimedFunction::new(5, "five").unwrap();
    let timed_function2 = TimedFunction::new(6, "six").unwrap();
    assert_eq!(timed_function.cmp(&timed_function), Ordering::Equal);
    assert_eq!(timed_function.cmp(&timed_function2), Ordering::Greater);
    assert_eq!(timed_function2.partial_cmp(&timed_function), Some(Ordering::Less));
    assert_eq!(timed_function.exec(), "five");
}

#[test]
fn timed_function_at_fixed_time() {
    let tf = TimedFunction::new_at(10, 'x', 1000).unwrap();
    assert_eq!(tf.delay_to(), 1010);
    assert!(matches!(TimedFunction::new_at(2, 'x', u64::MAX - 1), Err(TimerError::DeadlineOverflow)));
}

#[test]
fn deadlines() {
    assert_eq!(deadline_after(100, 5), Ok(105));
    assert_eq!(deadline_after(u64::MAX, 1), Err(TimerError::DeadlineOverflow));
    assert!(get_unix_timestamp().unwrap() > 1_600_000_000);
}

#[test]
fn comparable_uuid_order_and_equality() {
    let early = ComparableUUid { target_time: 1, uuid: 7 };
    let late = ComparableUUid { target_time: 2, uuid: 7 };
    let other = ComparableUUid { target_time: 1, uuid: 8 };
    assert_eq!(early.cmp(&late), Ordering::Greater);
    assert_eq!(late.cmp(&early), Ordering::Less);
    assert_eq!(early.partial_cmp(&other), Some(Ordering::Equal));
    assert!(early == late);
    assert!(early != other);
}

#[test]
fn manager_runs_earliest_first() {
    let mut m: TimedManager<&str> = TimedManager::new();
    let late = m.add_at("late", 50, 1000).unwrap();
    let early = m.add_at("early", 10, 1000).unwrap();
    assert_ne!(late, early);
    assert_eq!(m.next_delay_at(Some(1000)), None);
    m.load_next_future();
    assert_eq!(m.next_delay_at(Some(1000)), Some(10));
    assert_eq!(m.next_delay_at(Some(2000)), Some(0));
    assert_eq!(m.next_delay_at(None), None);
    assert_eq!(m.execute_step(Some(1005)), ExecuteStep::Finished);
    assert_eq!(m.execute_step(Some(1010)), ExecuteStep::RunNext);
    assert_eq!(m.execute_step(None), ExecuteStep::ClockUnavailable);
    assert_eq!(m.take_next(), Some("early"));
    assert_eq!(m.execute_step(Some(5000)), ExecuteStep::Finished);
    assert_eq!(m.take_next(), None);
    m.load_next_future();
    assert_eq!(m.next_delay_at(Some(1000)), Some(50));
    assert_eq!(m.take_next(), Some("late"));
    m.load_next_future();
    assert_eq!(m.take_next(), None);
}

#[test]
fn manager_overflow_is_refused() {
    let mut m: TimedManager<u8> = TimedManager::new();
    assert_eq!(m.add_at(1, 2, u64::MAX - 1), Err(TimerError::DeadlineOverflow));
    m.load_next_future();
    assert_eq!(m.take_next(), None);
}

#[test]
fn manager_remove_pending_before_loading() {
    let mut m: TimedManager<&str> = TimedManager::new();
    let a = m.add_at("a", 1, 0).unwrap();
    let _b = m.add_at("b", 2, 0).unwrap();
    m.remove(a);
    m.load_next_future();
    assert_eq!(m.take_next(), Some("b"));
}

#[test]
fn manager_remove_loaded_loads_next() {
    let mut m: TimedManager<&str> = TimedManager::new();
    let a = m.add_at("a", 1, 0).unwrap();
    let _b = m.add_at("b", 2, 0).unwrap();
    m.load_next_future();
    m.remove(a);
    assert_eq!(m.next_delay_at(Some(0)), Some(2));
    assert_eq!(m.take_next(), Some("b"));
}

#[test]
fn manager_remove_other_drops_loaded() {
    let mut m: TimedManager<&str> = TimedManager::new();
    let _a = m.add_at("a", 1, 0).unwrap();
    let b = m.add_at("b", 2, 0).unwrap();
    m.load_next_future();
    m.remove(b);
    assert_eq!(m.take_next(), None);
    m.load_next_future();
    assert_eq!(m.take_next(), Some("b"));
}

#[test]
fn timer_messages() {
    let mut m: TimedManager<&str> = TimedManager::new();
    let id = match handle_message(&mut m, Some(TimerMessage::Add("x", 3))) {
        TimerReply::Added(Ok(id)) => id,
        _ => panic!("expected an addition"),
    };
    assert!(matches!(handle_message(&mut m, Some(TimerMessage::Remove(id))), TimerReply::Continue));
    m.load_next_future();
    assert_eq!(m.take_next(), None);
    assert!(matches!(handle_message(&mut m, Some(TimerMessage::Stop)), TimerReply::Shutdown));
    assert!(matches!(handle_message(&mut m, None), TimerReply::Shutdown));
}

#[test]
fn manager_add_uses_clock() {
    let mut m: TimedManager<u8> = TimedManager::new();
    let _ = m.add(1, 0).unwrap();
    m.load_next_future();
    assert_eq!(m.get_next_delay(), Some(0));
}

#[test]
fn clock_reading_before_epoch_fails() {
    let mut m: TimedManager<&str> = TimedManager::new();
    let _ = m.add_at("kept", 5, 0).unwrap();
    m.load_next_future();
    assert_eq!(m.add_after_reading("x", 1, None), Err(TimerError::ClockBeforeEpoch));
    assert_eq!(m.add_after_reading("y", 1, Some(u64::MAX)), Err(TimerError::DeadlineOverflow));
    let id = m.add_after_reading("z", 1, Some(10)).unwrap();
    assert_eq!((id >> 76) & 0xf, 4);
    assert_eq!(m.next_delay_at(Some(0)), Some(5));
    assert_eq!(m.take_next(), Some("kept"));
    m.load_next_future();
    assert_eq!(m.take_next(), Some("z"));
    m.load_next_future();
    assert_eq!(m.take_next(), None);
    assert!(matches!(TimedFunction::new_after_reading(1, 'a', None), Err(TimerError::ClockBeforeEpoch)));
    assert_eq!(TimedFunction::new_after_reading(1, 'a', Some(7)).unwrap().delay_to(), 8);
}
