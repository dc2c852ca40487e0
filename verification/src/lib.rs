//! Merging two MIDI inputs into one output.
//!
//! Each input has a [`midi_uart::MidiUart`], which feeds the bytes it is
//! given to a [`midi_parser::MidiParser`] and reports whole messages and
//! faults. Messages and the invalidations that follow faults travel in order
//! to the merge engine, [`merge::UartStatus`], which decides what is written
//! to the output so that running status stays valid although the inputs
//! interleave.
//!
//! The library decides and computes; it performs no I/O. Serial ports, the
//! channel between the tasks and the tasks themselves belong to the program
//! around it.

pub mod buffer;
pub mod clock;
pub mod merge;
pub mod midi_parser;
pub mod midi_stream;
pub mod midi_uart;

pub use merge::{ChannelMessage, ControlMessage};
