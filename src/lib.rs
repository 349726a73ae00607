//! Supervision of local services: a registry of live process handles, a
//! health-gated startup sequencer, and the controller that maps window and
//! tray events onto them.

pub mod registry;
pub mod sequencer;
pub mod lifecycle;
pub mod service;
