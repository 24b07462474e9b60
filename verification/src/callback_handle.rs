//! Inline-button callbacks: their payload text, the registry of pending
//! callbacks, and what becomes of a callback after it ran.

pub mod callback_manager;
pub mod callback_structs;

use vstd::prelude::*;

use crate::callback_handle::callback_manager::callback_data_text;
use crate::callback_handle::callback_structs::{
    lemma_segments_after_head, segments, split_commas, CallbackError,
};
use crate::ids::{lemma_hyphenated_has_no_comma, parse_uuid, parsed_uuid};

verus! {

/// The UUID of the callback a callback query is meant for: the piece of its
/// text before the first comma, parsed as a UUID. A query without text is
/// `InvalidCallbackData`; a head that does not parse is `UUidParseError`.
/// The text of a button made for a callback gives back that callback's UUID.
pub fn parse_callback_uuid(data: Option<&str>) -> (r: Result<u128, CallbackError>)
    ensures
        data is None ==> (r matches Err(e) && e is InvalidCallbackData),
        data matches Some(d) ==> match parsed_uuid(segments(d@)[0]) {
            Some(u) => (r matches Ok(v) && v == u),
            None => (r matches Err(e) && e is UUidParseError),
        },
        forall|u: u128, rest: Seq<char>|
            data matches Some(d) && d@ == #[trigger] callback_data_text(u, rest)
                ==> (r matches Ok(v) && v == u),
{
    match data {
        None => Err(CallbackError::InvalidCallbackData),
        Some(d) => {
            let parts = split_commas(d);
            proof {
                crate::callback_handle::callback_structs::lemma_segments_nonempty(d@);
            }
            let head = parts[0].as_str();
            let parsed = parse_uuid(head);
            proof {
                assert forall|u: u128, rest: Seq<char>|
                    d@ == #[trigger] callback_data_text(u, rest) implies (parsed matches Ok(v) && v
                    == u) by {
                    lemma_hyphenated_has_no_comma(u);
                    lemma_segments_after_head(crate::ids::hyphenated_text(u), rest);
                    assert(segments(d@)[0] == crate::ids::hyphenated_text(u));
                    assert(head@ == crate::ids::hyphenated_text(u));
                }
            }
            match parsed {
                Ok(u) => Ok(u),
                Err(e) => Err(CallbackError::UUidParseError(e)),
            }
        },
    }
}

/// The pieces of a button's callback text: first the hyphenated UUID of its
/// callback, then the pieces of the button's own data, which are what the
/// callback receives as its arguments.
pub proof fn lemma_callback_text_pieces(uuid: u128, data: Seq<char>)
    ensures
        segments(callback_data_text(uuid, data))[0] == crate::ids::hyphenated_text(uuid),
        segments(callback_data_text(uuid, data)).drop_first() == segments(data),
{
    lemma_hyphenated_has_no_comma(uuid);
    lemma_segments_after_head(crate::ids::hyphenated_text(uuid), data);
    assert((seq![crate::ids::hyphenated_text(uuid)] + segments(data)).drop_first() =~= segments(
        data,
    ));
}

} // verus!
