//! Dual-role key translation for a keyboard event stream.
//!
//! A dual-role key produces a substitute key code when tapped alone, but acts
//! as itself (a modifier) when held while another key is pressed.  The crate
//! provides the pure event-translation state machine, the keymap it consults,
//! and the capability-set computation for the virtual sink that mirrors the
//! translated stream.  Device I/O is left to the surrounding program.

pub mod caps;
pub mod events;
pub mod keymap;
pub mod translate;
