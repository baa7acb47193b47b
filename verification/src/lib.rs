//! Event-to-phase registration core for a hierarchical state-machine runtime.
//!
//! Independently defined trigger-event types declare, through the
//! [`contract::TransitionEvent`] contract, how an occurrence of the event is
//! turned into up to three optional phase sub-events (exit, effect, entry).
//! Each such type is described by a [`record::RegistrationRecord`]; the host
//! program gathers the records of every known type in an
//! [`registry::InstallerRegistry`] during startup and then materializes them
//! once into a [`table::DispatchTable`], the runtime map from type identity to
//! conversion behaviour that the (external) transition pipeline queries per
//! incoming trigger event.

pub mod contract;
pub mod record;
pub mod registry;
pub mod sample;
pub mod table;
