//! A binding layer that lets memory-mapped I/O device emulators be written as
//! small, safe plugin types and registered with an external instruction-set
//! simulator before the simulator makes its first call into them.
//!
//! The heart of the crate is the [`plugin::Plugin`] trait, which a device
//! author implements, and the [`bridge`] module, which adapts such an
//! implementation to the raw table of functions the simulator calls through.

pub mod bridge;
pub mod plugin;
pub mod ram;
pub mod uart;
