//! The registry of pending callbacks and the text of callback buttons.

use teloxide::types::InlineKeyboardMarkup;
use tokio_util::sync::CancellationToken;
use vstd::prelude::*;

use crate::callback_handle::callback_structs::CallbackError;
use crate::cancellation::{cancel_token, child_token};
use crate::ids::{hyphenated_text, is_v4, uuid_text};
use crate::utils::ObjectStorage;

verus! {

#[verifier::external_type_specification]
#[verifier::external_body]
pub struct ExInlineKeyboardMarkup(InlineKeyboardMarkup);

/// The callback text of a button: the UUID of its callback, a comma, then
/// the button's own data.
pub open spec fn callback_data_text(uuid: u128, data: Seq<char>) -> Seq<char> {
    hyphenated_text(uuid) + seq![','] + data
}

/// Labels and data of a keyboard, row by row.
pub open spec fn button_texts(rows: Seq<Vec<(String, String)>>) -> Seq<Seq<(Seq<char>, Seq<char>)>> {
    Seq::new(rows.len(), |i: int| Seq::new(rows[i]@.len(), |j: int| (rows[i]@[j].0@, rows[i]@[j].1@)))
}

/// The buttons of a keyboard for the callback `uuid`: labels kept, each
/// button's data prefixed as `callback_data_text` says.
pub open spec fn callback_buttons(uuid: u128, rows: Seq<Seq<(Seq<char>, Seq<char>)>>) -> Seq<
    Seq<(Seq<char>, Seq<char>)>,
> {
    Seq::new(
        rows.len(),
        |i: int| Seq::new(rows[i].len(), |j: int| (rows[i][j].0, callback_data_text(uuid, rows[i][j].1))),
    )
}

/// What `teloxide`'s `InlineKeyboardMarkup::new` builds from rows of
/// callback buttons given as (label, callback text).
pub uninterp spec fn keyboard_of(rows: Seq<Seq<(Seq<char>, Seq<char>)>>) -> InlineKeyboardMarkup;

/// Calls `InlineKeyboardMarkup::new` on the rows, each pair made into a
/// button by `InlineKeyboardButton::callback(label, data)`.
/// Claimed: the markup is the named function `keyboard_of` of the labels and
/// texts; the markup is opaque here.
#[verifier::external_body]
fn keyboard_markup(rows: Vec<Vec<(String, String)>>) -> (m: InlineKeyboardMarkup)
    ensures
        m == keyboard_of(button_texts(rows@)),
{
    InlineKeyboardMarkup::new(
        rows.into_iter().map(
            |row| row.into_iter().map(|(t, c)| teloxide::types::InlineKeyboardButton::callback(t, c)),
        ),
    )
}

/// Callbacks waiting for their button to be pressed, each with the token
/// that cancels its timeout.
pub struct CallbackManager<E> {
    callbacks: ObjectStorage<(CancellationToken, E)>,
    cancellation_token: CancellationToken,
    default_callback_duration: u64,
}

impl<E> CallbackManager<E> {
    /// The registered callbacks, by UUID.
    pub closed spec fn entries(&self) -> Map<u128, E> {
        self.callbacks@.map_values(|p: (CancellationToken, E)| p.1)
    }

    /// The timeout tokens of the registered callbacks, by UUID.
    pub closed spec fn tokens(&self) -> Map<u128, CancellationToken> {
        self.callbacks@.map_values(|p: (CancellationToken, E)| p.0)
    }

    /// The token whose children the timeout tokens are.
    pub closed spec fn parent_token(&self) -> CancellationToken {
        self.cancellation_token
    }

    /// Seconds a callback stays registered before it times out.
    pub closed spec fn timeout(&self) -> u64 {
        self.default_callback_duration
    }

    /// A manager with no callbacks, whose timeout tokens are children of
    /// `cancellation_token`.
    pub fn new(cancellation_token: CancellationToken, default_duration: u64) -> (m: Self)
        ensures
            m.entries() == Map::<u128, E>::empty(),
            m.tokens() == Map::<u128, CancellationToken>::empty(),
            m.timeout() == default_duration,
            m.parent_token() == cancellation_token,
    {
        let m = CallbackManager {
            callbacks: ObjectStorage::new(),
            cancellation_token,
            default_callback_duration: default_duration,
        };
        assert(m.entries() =~= Map::<u128, E>::empty());
        assert(m.tokens() =~= Map::<u128, CancellationToken>::empty());
        m
    }

    /// Seconds a callback stays registered before it times out.
    pub fn default_callback_duration(&self) -> (d: u64)
        ensures
            d == self.timeout(),
    {
        self.default_callback_duration
    }

    /// Registers `callback` under a fresh UUID, with a new child token for
    /// its timeout, and returns the UUID.
    pub fn add_callback(&mut self, callback: E) -> (uuid: u128)
        ensures
            !old(self).entries().contains_key(uuid),
            is_v4(uuid),
            final(self).entries() == old(self).entries().insert(uuid, callback),
            final(self).tokens().dom() == old(self).tokens().dom().insert(uuid),
            forall|k: u128|
                k != uuid && old(self).tokens().contains_key(k) ==> #[trigger] final(self).tokens()[k]
                    == old(self).tokens()[k],
            final(self).timeout() == old(self).timeout(),
            final(self).parent_token() == old(self).parent_token(),
    {
        let sub_token = child_token(&self.cancellation_token);
        let uuid = self.callbacks.insert((sub_token, callback));
        proof {
            assert(final(self).entries() =~= old(self).entries().insert(uuid, callback));
            assert(final(self).tokens().dom() =~= old(self).tokens().dom().insert(uuid));
        }
        uuid
    }

    /// The timeout token of the callback `uuid`, if registered.
    pub fn token(&self, uuid: u128) -> (t: Option<&CancellationToken>)
        ensures
            t is Some <==> self.tokens().contains_key(uuid),
            t matches Some(t) ==> *t == self.tokens()[uuid],
    {
        match self.callbacks.get(uuid) {
            Some(p) => Some(&p.0),
            None => None,
        }
    }

    /// The callback `uuid`, to be run; `CallbackNotFound` when none is
    /// registered. What is written through it is what stays registered.
    pub fn callback_mut(&mut self, uuid: u128) -> (r: Result<&mut E, CallbackError>)
        ensures
            r is Ok <==> old(self).entries().contains_key(uuid),
            r matches Ok(e) ==> *e == old(self).entries()[uuid]
                && final(self).entries() == old(self).entries().insert(uuid, *final(e))
                && final(self).tokens() == old(self).tokens(),
            r matches Err(err) ==> err is CallbackNotFound
                && final(self).entries() == old(self).entries()
                && final(self).tokens() == old(self).tokens(),
            final(self).timeout() == old(self).timeout(),
            final(self).parent_token() == old(self).parent_token(),
    {
        match self.callbacks.get_mut(&uuid) {
            Some(pair) => Ok(&mut pair.1),
            None => Err(CallbackError::CallbackNotFound),
        }
    }

    /// Settles the callback `uuid` after it ran with `outcome`: when it
    /// reports that it is finished, its timeout is cancelled and it leaves
    /// the registry; when it reports that it is not, it stays; when it
    /// failed, it leaves the registry and the failure is returned.
    pub fn conclude_run(
        &mut self,
        uuid: u128,
        outcome: Result<bool, anyhow::Error>,
    ) -> (r: Result<(), CallbackError>)
        ensures
            final(self).timeout() == old(self).timeout(),
            final(self).parent_token() == old(self).parent_token(),
            outcome matches Ok(finished) ==> r is Ok && (if finished {
                &&& final(self).entries() == old(self).entries().remove(uuid)
                &&& final(self).tokens() == old(self).tokens().remove(uuid)
            } else {
                &&& final(self).entries() == old(self).entries()
                &&& final(self).tokens() == old(self).tokens()
            }),
            outcome matches Err(e) ==> r == Err::<(), CallbackError>(
                CallbackError::CallbackFunctionError(e),
            ) && final(self).entries() == old(self).entries().remove(uuid)
                && final(self).tokens() == old(self).tokens().remove(uuid),
    {
        match outcome {
            Ok(finished) => {
                if finished {
                    let removed = self.callbacks.remove(&uuid);
                    if let Some(pair) = removed {
                        cancel_token(&pair.0);
                    }
                    proof {
                        assert(final(self).entries() =~= old(self).entries().remove(uuid));
                        assert(final(self).tokens() =~= old(self).tokens().remove(uuid));
                    }
                }
                Ok(())
            },
            Err(e) => {
                let _ = self.callbacks.remove(&uuid);
                proof {
                    assert(final(self).entries() =~= old(self).entries().remove(uuid));
                    assert(final(self).tokens() =~= old(self).tokens().remove(uuid));
                }
                Err(CallbackError::CallbackFunctionError(e))
            },
        }
    }

    /// Takes out the callback `uuid` when its time is up, to run its timeout
    /// handler; `None` when it already left.
    pub fn on_timout(&mut self, uuid: u128) -> (r: Option<E>)
        ensures
            r == old(self).entries().get(uuid),
            final(self).entries() == old(self).entries().remove(uuid),
            final(self).tokens() == old(self).tokens().remove(uuid),
            final(self).timeout() == old(self).timeout(),
            final(self).parent_token() == old(self).parent_token(),
    {
        let removed = self.callbacks.remove(&uuid);
        proof {
            assert(final(self).entries() =~= old(self).entries().remove(uuid));
            assert(final(self).tokens() =~= old(self).tokens().remove(uuid));
        }
        match removed {
            Some(pair) => Some(pair.1),
            None => None,
        }
    }

    /// The callback text of a button of the callback `uuid` carrying `data`.
    pub fn callback_data_warp(uuid: u128, data: &str) -> (s: String)
        ensures
            s@ == callback_data_text(uuid, data@),
            s@ == hyphenated_text(uuid) + seq![','] + data@,
    {
        let mut s = uuid_text(uuid);
        let comma = ",";
        proof {
            reveal_strlit(",");
        }
        s.append(comma);
        s.append(data);
        s
    }

    /// A function that makes the callback text of a button of the callback
    /// `uuid` from the button's data.
    pub fn callback_warp_maker(uuid: u128) -> (f: impl Fn(&str) -> String)
        ensures
            forall|d: &str| #[trigger] call_requires(f, (d,)),
            forall|d: &str, s: String|
                #[trigger] call_ensures(f, (d,), s) ==> s@ == callback_data_text(uuid, d@),
    {
        move |x: &str| -> (s: String)
            ensures
                s@ == callback_data_text(uuid, x@),
            { Self::callback_data_warp(uuid, x) }
    }

    /// The rows of (label, callback text) of a keyboard for the callback
    /// `uuid`: labels kept, data prefixed by `callback_data_warp`.
    pub fn button_rows(
        uuid: u128,
        data: &Vec<Vec<(String, String)>>,
    ) -> (rows: Vec<Vec<(String, String)>>)
        ensures
            button_texts(rows@) == callback_buttons(uuid, button_texts(data@)),
            rows@.len() == data@.len(),
            forall|i: int| 0 <= i < data@.len() ==> #[trigger] rows@[i]@.len() == data@[i]@.len(),
            forall|i: int, j: int|
                0 <= i < data@.len() && 0 <= j < data@[i]@.len() ==> {
                    &&& (#[trigger] rows@[i]@[j]).0@ == data@[i]@[j].0@
                    &&& rows@[i]@[j].1@ == hyphenated_text(uuid) + seq![','] + data@[i]@[j].1@
                },
    {
        let mut rows: Vec<Vec<(String, String)>> = Vec::new();
        let mut i: usize = 0;
        while i < data.len()
            invariant
                i <= data@.len(),
                rows@.len() == i,
                forall|k: int|
                    0 <= k < i ==> #[trigger] button_texts(rows@)[k] == callback_buttons(
                        uuid,
                        button_texts(data@),
                    )[k],
            decreases data@.len() - i,
        {
            let row = &data[i];
            let mut out: Vec<(String, String)> = Vec::new();
            let mut j: usize = 0;
            while j < row.len()
                invariant
                    j <= row@.len(),
                    out@.len() == j,
                    forall|l: int|
                        0 <= l < j ==> (#[trigger] out@[l]).0@ == row@[l].0@ && out@[l].1@
                            == callback_data_text(uuid, row@[l].1@),
                decreases row@.len() - j,
            {
                let label = row[j].0.clone();
                let text = Self::callback_data_warp(uuid, row[j].1.as_str());
                out.push((label, text));
                j = j + 1;
            }
            let ghost before = rows@;
            rows.push(out);
            proof {
                assert(button_texts(rows@)[i as int] =~= callback_buttons(
                    uuid,
                    button_texts(data@),
                )[i as int]);
                assert forall|k: int| 0 <= k < i + 1 implies #[trigger] button_texts(rows@)[k]
                    == callback_buttons(uuid, button_texts(data@))[k] by {
                    if k < i {
                        assert(rows@[k] == before[k]);
                        assert(button_texts(rows@)[k] == button_texts(before)[k]);
                    }
                }
            }
            i = i + 1;
        }
        proof {
            assert(button_texts(rows@) =~= callback_buttons(uuid, button_texts(data@)));
            lemma_callback_buttons_shape(uuid, button_texts(data@));
            assert forall|i: int| 0 <= i < data@.len() implies #[trigger] rows@[i]@.len()
                == data@[i]@.len() by {
                assert(button_texts(rows@)[i].len() == button_texts(data@)[i].len());
            }
            assert forall|i: int, j: int|
                0 <= i < data@.len() && 0 <= j < data@[i]@.len() implies {
                &&& (#[trigger] rows@[i]@[j]).0@ == data@[i]@[j].0@
                &&& rows@[i]@[j].1@ == hyphenated_text(uuid) + seq![','] + data@[i]@[j].1@
            } by {
                assert(button_texts(rows@)[i].len() == button_texts(data@)[i].len());
                assert(button_texts(rows@)[i][j] == callback_buttons(uuid, button_texts(data@))[i][j]);
            }
        }
        rows
    }

    /// The inline keyboard for the callback `uuid`: one callback button per
    /// (label, data) pair, row by row, whose callback text is
    /// `callback_data_warp(uuid, data)`.
    pub fn inline_button_maker(
        uuid: u128,
        data: Vec<Vec<(String, String)>>,
    ) -> (m: InlineKeyboardMarkup)
        ensures
            m == keyboard_of(callback_buttons(uuid, button_texts(data@))),
    {
        keyboard_markup(Self::button_rows(uuid, &data))
    }
}

/// A callback registered and then timed out is handed back, and the
/// registry is as it was before it was registered.
pub proof fn lemma_timeout_returns_added<E>(
    before: Map<u128, E>,
    added: Map<u128, E>,
    after: Map<u128, E>,
    uuid: u128,
    callback: E,
    handed_back: Option<E>,
)
    requires
        !before.contains_key(uuid),
        added == before.insert(uuid, callback),
        handed_back == added.get(uuid),
        after == added.remove(uuid),
    ensures
        handed_back == Some(callback),
        after == before,
{
    assert(after =~= before);
}

/// The keyboard for a callback has one row per row of data and one button
/// per (label, data) pair; each button keeps its label and carries the
/// hyphenated UUID of the callback, a comma, then its data.
pub proof fn lemma_callback_buttons_shape(uuid: u128, rows: Seq<Seq<(Seq<char>, Seq<char>)>>)
    ensures
        callback_buttons(uuid, rows).len() == rows.len(),
        forall|i: int|
            0 <= i < rows.len() ==> #[trigger] callback_buttons(uuid, rows)[i].len()
                == rows[i].len(),
        forall|i: int, j: int|
            0 <= i < rows.len() && 0 <= j < rows[i].len() ==> #[trigger] callback_buttons(
                uuid,
                rows,
            )[i][j] == (rows[i][j].0, hyphenated_text(uuid) + seq![','] + rows[i][j].1),
{
}

} // verus!
