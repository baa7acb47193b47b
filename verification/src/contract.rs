//! The transition-event contract: the capability every trigger-event type
//! must provide before it can be registered.

use vstd::prelude::*;

verus! {

/// Sentinel sub-event kind meaning "this phase produces nothing for this
/// trigger". A trigger-event type that only needs some of the three phases
/// uses `NoEvent` as the kind of the remaining ones.
#[derive(Clone, Copy, PartialEq, Eq, Structural, Debug)]
pub struct NoEvent;

/// The capability a trigger-event type must supply: three pure conversions
/// from an instance of itself to an optional phase-specific sub-event, plus a
/// stable, process-wide identity under which the type is registered and later
/// looked up.
///
/// Two conformance variants exist. In the simple variant all three associated
/// sub-event kinds are [`NoEvent`] and every conversion returns `None`; in the
/// full variant the author supplies real per-phase logic.
pub trait TransitionEvent: Sized {
    /// Sub-event consumed while states are exited.
    type ExitEvent;

    /// Sub-event consumed while the transition's effect runs.
    type EffectEvent;

    /// Sub-event consumed while states are entered.
    type EntryEvent;

    /// The type's stable identity, the key under which it appears in the
    /// dispatch table. Distinct registered types must declare distinct keys.
    spec fn key_spec() -> u64;

    /// What [`Self::to_exit_event`] returns for a given instance.
    spec fn exit_spec(&self) -> Option<Self::ExitEvent>;

    /// What [`Self::to_effect_event`] returns for a given instance.
    spec fn effect_spec(&self) -> Option<Self::EffectEvent>;

    /// What [`Self::to_entry_event`] returns for a given instance.
    spec fn entry_spec(&self) -> Option<Self::EntryEvent>;

    /// The type's stable identity, as a runtime value.
    fn type_key() -> (k: u64)
        ensures
            k == Self::key_spec(),
    ;

    /// Derive the sub-event for the exit phase, or `None`.
    fn to_exit_event(&self) -> (r: Option<Self::ExitEvent>)
        ensures
            r == self.exit_spec(),
    ;

    /// Derive the sub-event for the effect phase, or `None`.
    fn to_effect_event(&self) -> (r: Option<Self::EffectEvent>)
        ensures
            r == self.effect_spec(),
    ;

    /// Derive the sub-event for the entry phase, or `None`.
    fn to_entry_event(&self) -> (r: Option<Self::EntryEvent>)
        ensures
            r == self.entry_spec(),
    ;
}

/// The kind of source construct a conformance or registration declaration is
/// attached to. Only named structs and enums carry the stable identity the
/// registry needs.
#[derive(Clone, Copy, PartialEq, Eq, Structural, Debug)]
pub enum ConstructKind {
    /// A named struct definition.
    Struct,
    /// A named enum definition.
    Enum,
    /// Any other item: unsupported for registration.
    Other,
}

/// Whether a conformance or registration declaration on a construct of the
/// given kind is definition-time valid. Declaring either on anything but a
/// named struct or enum must be rejected when the program is built, never
/// deferred to runtime.
pub fn construct_supported(kind: ConstructKind) -> (r: bool)
    ensures
        r == (kind is Struct || kind is Enum),
{
    match kind {
        ConstructKind::Struct => true,
        ConstructKind::Enum => true,
        ConstructKind::Other => false,
    }
}

} // verus!
