//! Control core of a small wireless door actuator.
//!
//! The crate verifies the access-gated actuation pipeline of the device:
//! a single-owner pairing policy evaluated on every connection, a
//! first-in-first-out command channel between the wireless event context
//! and the actuation worker, and a timed state machine that sequences the
//! motor-driver pins through a fixed extend/retract cycle.
//!
//! The wireless transport, the GPIO electrical layer and the persistent
//! key-value engine are external collaborators: the crate models their
//! observable behaviour (slot contents, pin configurations, fault
//! outcomes) as plain values and proves the device logic over those
//! models.

pub mod channel;
pub mod command;
pub mod dispatch;
pub mod gate;
pub mod sequencer;
pub mod store;
