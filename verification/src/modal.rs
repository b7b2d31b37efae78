//! The modal layer over the sidebar: which modal is up, how it opens and
//! closes, and which keys it takes. Where a modal sits, how its content
//! scrolls and how it is drawn are the caller's.

use vstd::prelude::*;
use crate::activity::CurrentSuggestion;
use crate::animation::{duration_millis, instant_elapsed, instant_now, millis_of};
use crate::multiline::{EditKey, EditModifiers};

verus! {

/// Where a modal is in its entrance or exit.
#[derive(Debug, Clone, Copy, PartialEq, Eq, Structural)]
pub enum ModalAnimationState {
    Opening,
    Open,
    Closing,
    Closed,
}

/// What a modal's content made of an event.
#[derive(Debug, Clone, Copy, PartialEq, Eq, Structural)]
pub enum ModalEventResult {
    Handled,
    NotHandled,
    Close,
}

/// An event handed to a modal's content: a pointer event (whose position
/// the caller keeps) or a key.
pub enum ModalEvent {
    Mouse,
    Key { key: EditKey, mods: EditModifiers },
}

/// A modal and its behaviour. `content` is what it shows, with the
/// placement the caller draws it at.
pub struct Modal<C> {
    pub id: String,
    pub content: C,
    pub animation_state: ModalAnimationState,
    pub close_on_click_outside: bool,
    pub close_on_escape: bool,
}

/// Holds at most one modal and the dimmer behind it.
pub struct ModalManager<C> {
    active_modal: Option<Modal<C>>,
    dimmed: bool,
}

/// No modifier key is held.
pub open spec fn no_modifiers(m: EditModifiers) -> bool {
    !m.shift && !m.ctrl && !m.alt && !m.super_key
}

impl<C> ModalManager<C> {
    /// The modal that is up, if any.
    pub closed spec fn active_spec(&self) -> Option<Modal<C>> {
        self.active_modal
    }

    /// Whether the dimmer behind the modal is at its full strength.
    pub closed spec fn dimmed_spec(&self) -> bool {
        self.dimmed
    }

    /// The dimmer is up exactly while a modal is up and not closing.
    pub open spec fn consistent(&self) -> bool {
        self.dimmed_spec() <==> (self.active_spec() is Some && self.active_spec()->0.animation_state
            != ModalAnimationState::Closing)
    }

    /// The modal after a close: it starts its exit and the dimmer fades.
    pub open spec fn closing(m: Option<Modal<C>>) -> Option<Modal<C>> {
        match m {
            Some(x) => Some(Modal { animation_state: ModalAnimationState::Closing, ..x }),
            None => None,
        }
    }

    /// The modal after a frame: an opening modal is open once the dimmer is
    /// up; a closing one is gone once the dimmer is down.
    pub open spec fn stepped(m: Option<Modal<C>>, dimmed: bool) -> Option<Modal<C>> {
        match m {
            Some(x) => match x.animation_state {
                ModalAnimationState::Opening => if dimmed {
                    Some(Modal { animation_state: ModalAnimationState::Open, ..x })
                } else {
                    m
                },
                ModalAnimationState::Closing => if !dimmed {
                    None
                } else {
                    m
                },
                _ => m,
            },
            None => None,
        }
    }

    pub fn new() -> (m: Self)
        ensures
            m.active_spec() is None,
            !m.dimmed_spec(),
    {
        ModalManager { active_modal: None, dimmed: false }
    }

    /// Puts `modal` up, in place of any other, and raises the dimmer.
    pub fn show(&mut self, modal: Modal<C>)
        ensures
            final(self).active_spec() == Some(
                Modal { animation_state: ModalAnimationState::Opening, ..modal },
            ),
            final(self).dimmed_spec(),
    {
        let mut modal = modal;
        modal.animation_state = ModalAnimationState::Opening;
        self.active_modal = Some(modal);
        self.dimmed = true;
    }

    /// Starts the exit of the modal that is up and lowers the dimmer; with no
    /// modal up, nothing changes.
    pub fn close(&mut self)
        ensures
            final(self).active_spec() == Self::closing(old(self).active_spec()),
            final(self).dimmed_spec() == (old(self).dimmed_spec() && old(self).active_spec() is None),
    {
        match self.active_modal.take() {
            Some(m) => {
                let mut m = m;
                m.animation_state = ModalAnimationState::Closing;
                self.active_modal = Some(m);
                self.dimmed = false;
            },
            None => {},
        }
    }

    /// Whether a modal is up.
    pub fn is_active(&self) -> (b: bool)
        ensures
            b == self.active_spec() is Some,
    {
        self.active_modal.is_some()
    }

    /// Whether the dimmer is up.
    pub fn is_dimmed(&self) -> (b: bool)
        ensures
            b == self.dimmed_spec(),
    {
        self.dimmed
    }

    /// The modal that is up, for drawing.
    pub fn active_modal(&self) -> (r: Option<&Modal<C>>)
        ensures
            match r {
                Some(m) => self.active_spec() == Some(*m),
                None => self.active_spec() is None,
            },
    {
        self.active_modal.as_ref()
    }

    /// Advances the modal's entrance or exit by a frame.
    pub fn update(&mut self)
        ensures
            final(self).active_spec() == Self::stepped(old(self).active_spec(), old(self).dimmed_spec()),
            final(self).dimmed_spec() == old(self).dimmed_spec(),
    {
        match self.active_modal.take() {
            Some(m) => {
                let mut m = m;
                match m.animation_state {
                    ModalAnimationState::Opening => {
                        if self.dimmed {
                            m.animation_state = ModalAnimationState::Open;
                        }
                        self.active_modal = Some(m);
                    },
                    ModalAnimationState::Closing => {
                        if self.dimmed {
                            self.active_modal = Some(m);
                        }
                    },
                    _ => {
                        self.active_modal = Some(m);
                    },
                }
            },
            None => {},
        }
    }

    /// Escape with no modifier closes a modal that closes on Escape; every
    /// other key is left to the sidebar. Returns whether the key was taken.
    pub fn handle_key_event(&mut self, key: &EditKey, mods: EditModifiers) -> (taken: bool)
        ensures
            taken == (old(self).active_spec() is Some && old(self).active_spec()->0.close_on_escape
                && *key == EditKey::Escape && no_modifiers(mods)),
            taken ==> final(self).active_spec() == Self::closing(old(self).active_spec())
                && !final(self).dimmed_spec(),
            !taken ==> *final(self) == *old(self),
    {
        let escape = match key {
            EditKey::Escape => true,
            _ => false,
        };
        let closes = match &self.active_modal {
            Some(m) => m.close_on_escape,
            None => false,
        };
        if closes && escape && !mods.shift && !mods.ctrl && !mods.alt && !mods.super_key {
            self.close();
            return true;
        }
        false
    }
}

/// The dimmer is up exactly while a modal is up and not closing: a new
/// manager starts so, and showing, closing and a frame keep it so.
pub proof fn law_dimmer_in_step<C>(before: ModalManager<C>, after: ModalManager<C>, shown: Modal<C>)
    requires
        before.consistent(),
    ensures
        after.active_spec() is None && !after.dimmed_spec() ==> after.consistent(),
        after.active_spec() == Some(Modal { animation_state: ModalAnimationState::Opening, ..shown })
            && after.dimmed_spec() ==> after.consistent(),
        after.active_spec() == ModalManager::<C>::closing(before.active_spec()) && after.dimmed_spec() == (
        before.dimmed_spec() && before.active_spec() is None) ==> after.consistent(),
        after.active_spec() == ModalManager::<C>::stepped(before.active_spec(), before.dimmed_spec())
            && after.dimmed_spec() == before.dimmed_spec() ==> after.consistent(),
{
}

/// A shown modal is open after the next frame.
pub proof fn law_show_then_update_opens<C>(shown: Modal<C>)
    ensures
        ModalManager::<C>::stepped(
            Some(Modal { animation_state: ModalAnimationState::Opening, ..shown }),
            true,
        ) == Some(Modal { animation_state: ModalAnimationState::Open, ..shown }),
{
}

/// A closed modal is gone after the next frame.
pub proof fn law_close_then_update_dismisses<C>(active: Option<Modal<C>>, dimmed: bool)
    ensures
        ModalManager::<C>::stepped(
            ModalManager::<C>::closing(active),
            dimmed && active is None,
        ) is None,
{
}

/// A suggestion shown in a modal.
pub struct SuggestionModal {
    pub suggestion: CurrentSuggestion,
}

impl SuggestionModal {
    pub fn new(suggestion: CurrentSuggestion) -> (m: Self)
        ensures
            m.suggestion == suggestion,
    {
        SuggestionModal { suggestion }
    }

    /// The suggestion's buttons are handled where they are drawn; the modal
    /// itself takes no event.
    pub fn handle_event(&mut self, event: &ModalEvent) -> (r: ModalEventResult)
        ensures
            r == ModalEventResult::NotHandled,
            *final(self) == *old(self),
    {
        ModalEventResult::NotHandled
    }
}

/// Whether a modal's entrance or exit that has run for `elapsed_ms`
/// milliseconds (none when it was never started) is done, lasting
/// `duration_ms`.
pub open spec fn modal_done(elapsed_ms: Option<u64>, duration_ms: u64) -> bool {
    match elapsed_ms {
        None => true,
        Some(e) => e >= duration_ms,
    }
}

/// Decides whether a modal's entrance or exit is done (see `modal_done`).
pub fn modal_animation_complete(elapsed_ms: Option<u64>, duration_ms: u64) -> (b: bool)
    ensures
        b == modal_done(elapsed_ms, duration_ms),
{
    match elapsed_ms {
        None => true,
        Some(e) => e >= duration_ms,
    }
}

/// When a modal's entrance or exit started and how long it lasts. Its
/// opacity, scale and offset along the way are the caller's.
pub struct ModalTiming {
    start_time: Option<std::time::Instant>,
    duration_ms: u64,
}

impl ModalTiming {
    pub closed spec fn start_spec(&self) -> Option<std::time::Instant> {
        self.start_time
    }

    pub closed spec fn duration_ms_spec(&self) -> u64 {
        self.duration_ms
    }

    /// Not started, lasting 20 ms.
    pub fn new() -> (t: Self)
        ensures
            t.start_spec() is None,
            t.duration_ms_spec() == 20,
    {
        ModalTiming { start_time: None, duration_ms: 20 }
    }

    /// Starts the entrance now.
    pub fn start_open(&mut self)
        ensures
            final(self).start_spec() is Some,
            final(self).duration_ms_spec() == old(self).duration_ms_spec(),
    {
        self.start_time = Some(instant_now());
    }

    /// Starts the exit now.
    pub fn start_close(&mut self)
        ensures
            final(self).start_spec() is Some,
            final(self).duration_ms_spec() == old(self).duration_ms_spec(),
    {
        self.start_time = Some(instant_now());
    }

    /// When the entrance or exit started, if it did.
    pub fn start_time(&self) -> (t: Option<std::time::Instant>)
        ensures
            t == self.start_spec(),
    {
        self.start_time
    }

    /// How long the entrance or exit lasts, in milliseconds.
    pub fn duration_ms(&self) -> (d: u64)
        ensures
            d == self.duration_ms_spec(),
    {
        self.duration_ms
    }

    /// Whether the entrance or exit is done: always when it never started;
    /// else whether the whole milliseconds since the start (read from the
    /// clock, and cut to 64 bits) reach its length.
    pub fn is_complete(&self) -> (r: bool)
        ensures
            self.start_spec() is None ==> r,
            self.start_spec() is Some ==> exists|d: std::time::Duration|
                r == modal_done(Some(#[trigger] millis_of(d) as u64), self.duration_ms_spec()),
            self.duration_ms_spec() == 0 ==> r,
    {
        match self.start_time {
            Some(start) => {
                let elapsed = instant_elapsed(&start);
                let m = duration_millis(&elapsed);
                let e = m as u64;
                let r = modal_animation_complete(Some(e), self.duration_ms);
                assert(r == modal_done(Some(millis_of(elapsed) as u64), self.duration_ms_spec()));
                r
            },
            None => modal_animation_complete(None, self.duration_ms),
        }
    }
}

} // verus!
