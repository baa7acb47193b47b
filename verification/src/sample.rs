//! A small set of trigger-event types exercising both conformance variants
//! of the contract: hosts and tests register these and dispatch on them.

use vstd::prelude::*;
use crate::contract::{NoEvent, TransitionEvent};

verus! {

/// A trigger that carries no payload and needs no phase sub-events:
/// conformance via the simple variant.
#[derive(Clone, Copy, PartialEq, Eq, Structural, Debug)]
pub struct Honk;

impl TransitionEvent for Honk {
    type ExitEvent = NoEvent;

    type EffectEvent = NoEvent;

    type EntryEvent = NoEvent;

    open spec fn key_spec() -> u64 {
        1
    }

    open spec fn exit_spec(&self) -> Option<NoEvent> {
        None
    }

    open spec fn effect_spec(&self) -> Option<NoEvent> {
        None
    }

    open spec fn entry_spec(&self) -> Option<NoEvent> {
        None
    }

    fn type_key() -> (k: u64) {
        1
    }

    fn to_exit_event(&self) -> (r: Option<NoEvent>) {
        None
    }

    fn to_effect_event(&self) -> (r: Option<NoEvent>) {
        None
    }

    fn to_entry_event(&self) -> (r: Option<NoEvent>) {
        None
    }
}

/// Which side a door opened on.
#[derive(Clone, Copy, PartialEq, Eq, Structural, Debug)]
pub enum Side {
    /// The left-hand side.
    Left,
    /// The right-hand side.
    Right,
}

/// A sub-event asking the host to play the named sound clip.
#[derive(Clone, Copy, PartialEq, Eq, Debug)]
pub struct PlaySound {
    /// The name of the clip to play.
    pub name: &'static str,
}

/// A trigger with a payload whose conversions supply real per-phase logic:
/// conformance via the full variant. A door opened on the left plays a sound
/// during the effect phase only; one opened on the right produces exit and
/// entry sub-events instead.
#[derive(Clone, Copy, PartialEq, Eq, Structural, Debug)]
pub struct DoorOpened {
    /// The side the door opened on.
    pub side: Side,
}

impl TransitionEvent for DoorOpened {
    type ExitEvent = PlaySound;

    type EffectEvent = PlaySound;

    type EntryEvent = PlaySound;

    open spec fn key_spec() -> u64 {
        2
    }

    open spec fn exit_spec(&self) -> Option<PlaySound> {
        if self.side is Right {
            Some(PlaySound { name: "creak" })
        } else {
            None
        }
    }

    open spec fn effect_spec(&self) -> Option<PlaySound> {
        if self.side is Left {
            Some(PlaySound { name: "door" })
        } else {
            None
        }
    }

    open spec fn entry_spec(&self) -> Option<PlaySound> {
        if self.side is Right {
            Some(PlaySound { name: "thud" })
        } else {
            None
        }
    }

    fn type_key() -> (k: u64) {
        2
    }

    fn to_exit_event(&self) -> (r: Option<PlaySound>) {
        match self.side {
            Side::Right => Some(PlaySound { name: "creak" }),
            Side::Left => None,
        }
    }

    fn to_effect_event(&self) -> (r: Option<PlaySound>) {
        match self.side {
            Side::Left => Some(PlaySound { name: "door" }),
            Side::Right => None,
        }
    }

    fn to_entry_event(&self) -> (r: Option<PlaySound>) {
        match self.side {
            Side::Right => Some(PlaySound { name: "thud" }),
            Side::Left => None,
        }
    }
}

/// A conforming trigger type that a host may choose never to register:
/// looking its identity up in a table it was not installed in reports
/// absence, never a fabricated behaviour.
#[derive(Clone, Copy, PartialEq, Eq, Structural, Debug)]
pub struct Unknown;

impl TransitionEvent for Unknown {
    type ExitEvent = NoEvent;

    type EffectEvent = NoEvent;

    type EntryEvent = NoEvent;

    open spec fn key_spec() -> u64 {
        3
    }

    open spec fn exit_spec(&self) -> Option<NoEvent> {
        None
    }

    open spec fn effect_spec(&self) -> Option<NoEvent> {
        None
    }

    open spec fn entry_spec(&self) -> Option<NoEvent> {
        None
    }

    fn type_key() -> (k: u64) {
        3
    }

    fn to_exit_event(&self) -> (r: Option<NoEvent>) {
        None
    }

    fn to_effect_event(&self) -> (r: Option<NoEvent>) {
        None
    }

    fn to_entry_event(&self) -> (r: Option<NoEvent>) {
        None
    }
}

} // verus!
