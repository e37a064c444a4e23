//! Pixie: an animated "emotional" front-end that relays chat messages to a
//! remote gateway over an authenticated webhook API.
//!
//! The crate root holds the emotion state machine. The gateway client, its
//! response parser and the rules of the web front-end live in the modules
//! below. Nothing in this library performs I/O: the gateway client is a state
//! machine that tells its driver which request to perform next and is told
//! what came back.

pub mod args;
pub mod exchange;
pub mod gateway;
pub mod json;
pub mod parser;
pub mod protocol;
pub mod text;
pub mod token_store;
pub mod web;

use vstd::prelude::*;

verus! {

/// The emotion that the display currently shows.
#[derive(Debug, Clone, Copy, PartialEq, Eq, Structural)]
pub enum EmotionState {
    Idle,
    Success,
    Error,
}

/// What can happen to the display between two frames.
#[derive(Debug, Clone, Copy, PartialEq, Eq, Structural)]
pub enum Event {
    Tick,
    WorkSucceeded,
    WorkFailed,
    Reset,
}

/// The emotion shown after `event` arrives while `current` is shown.
///
/// Finished work decides the emotion whatever was shown before. A reset
/// always returns to idle. A plain tick returns to idle as well, except that
/// an error stays on screen until it is reset or replaced.
pub open spec fn next_emotion(current: EmotionState, event: Event) -> EmotionState {
    match event {
        Event::WorkSucceeded => EmotionState::Success,
        Event::WorkFailed => EmotionState::Error,
        Event::Reset => EmotionState::Idle,
        Event::Tick => if current == EmotionState::Error {
            EmotionState::Error
        } else {
            EmotionState::Idle
        },
    }
}

/// The event that the demonstration loop plays at `tick` when no gateway is
/// attached: a reset on every twelfth tick, otherwise a failure on every
/// seventh, otherwise a success on every fourth, otherwise a plain tick.
pub open spec fn scripted_event(tick: nat) -> Event {
    if tick % 12 == 0 {
        Event::Reset
    } else if tick % 7 == 0 {
        Event::WorkFailed
    } else if tick % 4 == 0 {
        Event::WorkSucceeded
    } else {
        Event::Tick
    }
}

pub fn transition(current: EmotionState, event: Event) -> (next: EmotionState)
    ensures
        next == next_emotion(current, event),
{
    match (current, event) {
        (_, Event::WorkSucceeded) => EmotionState::Success,
        (_, Event::WorkFailed) => EmotionState::Error,
        (EmotionState::Error, Event::Tick) => EmotionState::Error,
        (_, Event::Tick) => EmotionState::Idle,
        (_, Event::Reset) => EmotionState::Idle,
    }
}

pub fn event_for_tick(tick: u64) -> (event: Event)
    ensures
        event == scripted_event(tick as nat),
{
    if tick % 12 == 0 {
        Event::Reset
    } else if tick % 7 == 0 {
        Event::WorkFailed
    } else if tick % 4 == 0 {
        Event::WorkSucceeded
    } else {
        Event::Tick
    }
}

} // verus!
