//! Session management for one serial link used to program an external
//! memory device: connection state, line framing of inbound bytes, and the
//! timed command-plus-eight-words programming exchange.

pub mod decimal;
pub mod framer;
pub mod results;
pub mod sequence;
pub mod session;

pub use decimal::{decimal_bytes, format_word};
pub use framer::split_lines;
pub use results::{decimal_text, PortInfo, PortKind, ReadResult, SerialResult};
pub use sequence::{MemorySequence, SequenceStep, WireWrite, WriteKind};
pub use session::{command_outcome, not_connected, SerialState, SessionModel};
