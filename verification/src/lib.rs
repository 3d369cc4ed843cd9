//! Core of a MIDI patchbay: message validation, port classification and
//! enumeration, the registry of active routes, the virtual-port broadcast
//! fabric and the hot-plug detector, as verified state machines and pure
//! functions over plain values.
//!
//! Nothing here touches a MIDI driver, a process or a thread. The caller reads
//! port names, spawns workers and sends bytes; this crate decides what is
//! valid, what is registered and where each message goes.
//!
//! - [`midi::validation`]: which byte buffers are MIDI messages.
//! - [`midi::forwarder`]: what a device route sends on, and which ports it
//!   is bound to.
//! - [`midi::virtual_ports`]: the reserved names and the broadcast fabric.
//! - [`midi::ports`]: the order and content of the port lists.
//! - [`midi::manager`]: the registry of routes.
//! - [`midi::monitor`] and [`midi::listing`]: the port listing, written and
//!   read back, and the detector of changes.
//! - [`midi::worker`]: the modes of the program and the words that start a
//!   worker.
//! - [`app`]: the state behind the routing screen.

pub mod app;
pub mod connection;
pub mod error;
pub mod events;
pub mod midi;
pub mod sequences;
pub mod text;
