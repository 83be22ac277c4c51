//! The persisted record of the last successful selection.

use crate::frame::text_of;
use crate::text::{blank, trim, trimmed};
use vstd::prelude::*;

verus! {

/// What is remembered from the last successful authentication.
#[derive(Clone, Debug, PartialEq, Eq)]
pub struct PersistedState {
    pub last_session_id: Option<String>,
    pub last_profile_id: Option<String>,
    pub last_locale: Option<String>,
}

/// A [`PersistedState`] as plain values.
pub struct PersistedStateView {
    pub last_session_id: Option<Seq<char>>,
    pub last_profile_id: Option<Seq<char>>,
    pub last_locale: Option<Seq<char>>,
}

impl View for PersistedState {
    type V = PersistedStateView;

    open spec fn view(&self) -> PersistedStateView {
        PersistedStateView {
            last_session_id: text_of(self.last_session_id),
            last_profile_id: text_of(self.last_profile_id),
            last_locale: text_of(self.last_locale),
        }
    }
}

/// What a successful authentication selected. A field that is absent leaves
/// the record as it was.
#[derive(Clone, Debug, PartialEq, Eq)]
pub struct StateUpdate {
    pub session_id: Option<String>,
    pub profile_id: Option<String>,
    pub locale: Option<String>,
}

/// A [`StateUpdate`] as plain values.
pub struct StateUpdateView {
    pub session_id: Option<Seq<char>>,
    pub profile_id: Option<Seq<char>>,
    pub locale: Option<Seq<char>>,
}

impl View for StateUpdate {
    type V = StateUpdateView;

    open spec fn view(&self) -> StateUpdateView {
        StateUpdateView {
            session_id: text_of(self.session_id),
            profile_id: text_of(self.profile_id),
            locale: text_of(self.locale),
        }
    }
}

impl DeepView for StateUpdate {
    type V = StateUpdateView;

    open spec fn deep_view(&self) -> StateUpdateView {
        self@
    }
}

/// A field as it is read: an empty value counts as absent.
pub open spec fn present(field: Option<Seq<char>>) -> Option<Seq<char>> {
    match field {
        Some(value) if value.len() > 0 => Some(value),
        _ => None,
    }
}

/// A field as it is selected: trimmed, and absent where nothing is left.
pub open spec fn selected(field: Option<Seq<char>>) -> Option<Seq<char>> {
    match field {
        Some(value) if !blank(value) => Some(trimmed(value)),
        _ => None,
    }
}

/// A field of the record after an update: the selected value where there is
/// one, else what the record held.
pub open spec fn updated(held: Option<Seq<char>>, field: Option<Seq<char>>) -> Option<Seq<char>> {
    match selected(field) {
        Some(value) => Some(value),
        None => held,
    }
}

/// The record as it counts after reading: empty fields are absent.
pub open spec fn normalised(state: PersistedStateView) -> PersistedStateView {
    PersistedStateView {
        last_session_id: present(state.last_session_id),
        last_profile_id: present(state.last_profile_id),
        last_locale: present(state.last_locale),
    }
}

/// The record after an update; `None` where the update holds no field at all
/// and nothing is to be written.
pub open spec fn merged(state: PersistedStateView, update: StateUpdateView) -> Option<
    PersistedStateView,
> {
    if update.session_id is None && update.profile_id is None && update.locale is None {
        None
    } else {
        Some(
            PersistedStateView {
                last_session_id: updated(state.last_session_id, update.session_id),
                last_profile_id: updated(state.last_profile_id, update.profile_id),
                last_locale: updated(state.last_locale, update.locale),
            },
        )
    }
}

fn keep_present(field: Option<String>) -> (r: Option<String>)
    ensures
        text_of(r) == present(text_of(field)),
{
    match field {
        Some(value) => {
            if value.as_str().is_empty() {
                None
            } else {
                Some(value)
            }
        },
        None => None,
    }
}

/// Trims a selected value; absent where nothing is left of it.
pub fn select(field: Option<&str>) -> (r: Option<String>)
    ensures
        text_of(r) == selected(
            match field {
                Some(value) => Some(value@),
                None => None,
            },
        ),
{
    match field {
        Some(value) => {
            let t = trim(value);
            if t.as_str().is_empty() {
                None
            } else {
                Some(t)
            }
        },
        None => None,
    }
}

fn update_field(held: Option<String>, field: &Option<String>) -> (r: Option<String>)
    ensures
        text_of(r) == updated(text_of(held), text_of(*field)),
{
    let chosen = match field {
        Some(value) => select(Some(value.as_str())),
        None => select(None),
    };
    match chosen {
        Some(value) => Some(value),
        None => held,
    }
}

impl PersistedState {
    /// The record in which nothing is remembered.
    pub fn empty() -> (s: Self)
        ensures
            s@ == (PersistedStateView {
                last_session_id: None,
                last_profile_id: None,
                last_locale: None,
            }),
    {
        PersistedState { last_session_id: None, last_profile_id: None, last_locale: None }
    }

    /// The record as it counts after reading: empty fields become absent.
    pub fn normalise(self) -> (s: Self)
        ensures
            s@ == normalised(self@),
    {
        PersistedState {
            last_session_id: keep_present(self.last_session_id),
            last_profile_id: keep_present(self.last_profile_id),
            last_locale: keep_present(self.last_locale),
        }
    }
}

/// Merges what an authentication selected into the record. Returns the record
/// to write, or `None` where the update holds no field and nothing is
/// written.
pub fn persist_state_update(state: PersistedState, update: &StateUpdate) -> (r: Option<
    PersistedState,
>)
    ensures
        match r {
            Some(next) => merged(state@, update@) == Some(next@),
            None => merged(state@, update@) is None,
        },
{
    if update.session_id.is_none() && update.profile_id.is_none() && update.locale.is_none() {
        return None;
    }
    Some(
        PersistedState {
            last_session_id: update_field(state.last_session_id, &update.session_id),
            last_profile_id: update_field(state.last_profile_id, &update.profile_id),
            last_locale: update_field(state.last_locale, &update.locale),
        },
    )
}

/// A field that the update leaves out stays as the record held it, and a
/// field that it sets is never empty afterwards.
pub proof fn lemma_merge_keeps_and_sets(state: PersistedStateView, update: StateUpdateView)
    requires
        merged(state, update) is Some,
    ensures
        ({
            let next = merged(state, update)->0;
            &&& update.session_id is None ==> next.last_session_id == state.last_session_id
            &&& update.profile_id is None ==> next.last_profile_id == state.last_profile_id
            &&& update.locale is None ==> next.last_locale == state.last_locale
            &&& selected(update.session_id) matches Some(v) ==> next.last_session_id == Some(v)
                && v.len() > 0
            &&& selected(update.profile_id) matches Some(v) ==> next.last_profile_id == Some(v)
                && v.len() > 0
            &&& selected(update.locale) matches Some(v) ==> next.last_locale == Some(v) && v.len()
                > 0
        }),
{
}

/// A record that held no empty field holds none after an update: empty
/// values are never written.
pub proof fn lemma_merge_writes_no_empty_field(state: PersistedStateView, update: StateUpdateView)
    requires
        merged(state, update) is Some,
        state == normalised(state),
    ensures
        ({
            let next = merged(state, update)->0;
            &&& next.last_session_id matches Some(v) ==> v.len() > 0
            &&& next.last_profile_id matches Some(v) ==> v.len() > 0
            &&& next.last_locale matches Some(v) ==> v.len() > 0
        }),
{
    assert(state.last_session_id == present(state.last_session_id));
    assert(state.last_profile_id == present(state.last_profile_id));
    assert(state.last_locale == present(state.last_locale));
    assert forall|v: Seq<char>| !blank(v) implies v.len() > 0 by {
        if v.len() == 0 {
            assert(trimmed(v).len() == 0);
        }
    }
}

/// After reading, a field is there exactly where the file held a text for it
/// that is not empty, and it holds that text unchanged, white space and all.
pub proof fn lemma_reading_drops_empty_fields_only(state: PersistedStateView)
    ensures
        ({
            let read = normalised(state);
            &&& read.last_session_id is Some <==> (state.last_session_id matches Some(v) && v.len()
                > 0)
            &&& read.last_profile_id is Some <==> (state.last_profile_id matches Some(v) && v.len()
                > 0)
            &&& read.last_locale is Some <==> (state.last_locale matches Some(v) && v.len() > 0)
            &&& read.last_session_id is Some ==> read.last_session_id == state.last_session_id
            &&& read.last_profile_id is Some ==> read.last_profile_id == state.last_profile_id
            &&& read.last_locale is Some ==> read.last_locale == state.last_locale
            &&& normalised(read) == read
        }),
{
}

} // verus!
