use callback_bot::callback_handle::callback_manager::CallbackManager;
use callback_bot::callback_handle::callback_structs::{callback_args, split_commas, CallbackError};
use callback_bot::callback_handle::parse_callback_uuid;

const ID: u128 = 0x550e8400e29b41d4a716446655440000;

#[test]
fn split_keeps_empty_pieces() {
    assert_eq!(split_commas("a,,b"), vec!["a", "", "b"]);
    assert_eq!(split_commas(""), vec![""]);
    assert_eq!(split_commas("a,"), vec!["a", ""]);
    assert_eq!(split_commas("héllo,wörld"), vec!["héllo", "wörld"]);
}

#[test]
fn callback_args_drop_the_head() {
    assert_eq!(callback_args("id,F,x"), vec!["F", "x"]);
    assert_eq!(callback_args("id"), Vec::<String>::new());
    assert_eq!(callback_args(""), Vec::<String>::new());
}

#[test]
fn callback_data_warp_prefixes_uuid() {
    let text = CallbackManager::<()>::callback_data_warp(ID, "F");
    assert_eq!(text, "550e8400-e29b-41d4-a716-446655440000,F");
}

#[test]
fn button_text_round_trip() {
    let text = CallbackManager::<()>::callback_data_warp(ID, "T,extra");
    assert_eq!(parse_callback_uuid(Some(&text)).unwrap(), ID);
    assert_eq!(callback_args(&text), vec!["T", "extra"]);
}

#[test]
fn parse_errors() {
    assert!(matches!(parse_callback_uuid(None), Err(CallbackError::InvalidCallbackData)));
    assert!(matches!(parse_callback_uuid(Some("not-a-uuid,F")), Err(CallbackError::UUidParseError(_))));
    assert!(matches!(parse_callback_uuid(Some("")), Err(CallbackError::UUidParseError(_))));
    assert_eq!(
        parse_callback_uuid(Some("550E8400E29B41D4A716446655440000")).unwrap(),
        ID
    );
}

#[test]
fn button_rows_and_markup() {
    let data = vec![vec![("C".to_string(), "F".to_string()), ("T".to_string(), "T".to_string())]];
    let rows = CallbackManager::<()>::button_rows(ID, &data);
    assert_eq!(rows.len(), 1);
    assert_eq!(rows[0][0].0, "C");
    assert_eq!(rows[0][0].1, "550e8400-e29b-41d4-a716-446655440000,F");
    assert_eq!(rows[0][1].1, "550e8400-e29b-41d4-a716-446655440000,T");
    let markup = CallbackManager::<()>::inline_button_maker(ID, data);
    assert_eq!(markup.inline_keyboard.len(), 1);
    assert_eq!(markup.inline_keyboard[0].len(), 2);
    assert_eq!(markup.inline_keyboard[0][1].text, "T");
    match &markup.inline_keyboard[0][0].kind {
        teloxide::types::InlineKeyboardButtonKind::CallbackData(d) => {
            assert_eq!(d, "550e8400-e29b-41d4-a716-446655440000,F")
        }
        other => panic!("unexpected kind {:?}", other),
    }
}

#[test]
fn callback_warp_maker_matches_warp() {
    let make = CallbackManager::<()>::callback_warp_maker(ID);
    assert_eq!(make("x"), CallbackManager::<()>::callback_data_warp(ID, "x"));
    assert_eq!(make(""), "550e8400-e29b-41d4-a716-446655440000,");
}
