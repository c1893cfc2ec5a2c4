//! Streaming primitives for fixed-memory body inspection: the UTF-8 boundary
//! buffer, the multi-pattern FSM, and the ring store that feeds bytes to the
//! FSM as they arrive.

pub mod pattern_fsm;
pub mod ring_buffer;
pub mod utf8_buffer;

pub use pattern_fsm::{Pattern, PatternMatch, PatternScanner, PatternState, ScanResult};
pub use ring_buffer::RingBuffer;
pub use utf8_buffer::Utf8Buffer;
