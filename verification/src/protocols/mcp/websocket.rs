//! MCP over WebSocket, on pre-decoded frames.
//!
//! MCP speaks JSON-RPC in text frames only: binary frames are blocked
//! outright. A final text frame is scanned and then checked as a JSON-RPC
//! envelope (best effort — a body that does not parse as a request may be
//! a response or notification and passes; an explicit envelope violation
//! blocks). Non-final frames accumulate in a fragment buffer with a hard
//! 10 MiB ceiling; a continuation without an opened fragment blocks, and
//! the assembled message is checked when its final frame arrives.

use super::jsonrpc::{parse_envelope, req_valid, rpc_envelope_of};
use crate::streaming::pattern_fsm::{scan_find, ScanResult};
use crate::streaming::ring_buffer::RingBuffer;
use crate::streaming::utf8_buffer::step_emit;
use vstd::prelude::*;
use vstd::string::StringExecFns;
use vstd::utf8::valid_utf8;

verus! {

/// The fragment buffer's hard ceiling: 10 MiB.
pub open spec fn fragment_ceiling() -> int {
    (10 * 1024 * 1024) as int
}

/// WebSocket opcodes.
#[derive(Debug, Clone, Copy, PartialEq, Eq, Structural)]
pub enum WsOpcode {
    /// Continuation frame.
    Continuation,
    /// Text frame (UTF-8).
    Text,
    /// Binary frame.
    Binary,
    /// Connection close.
    Close,
    /// Ping.
    Ping,
    /// Pong.
    Pong,
    /// Any other opcode.
    Unknown,
}

/// The opcode encoded in a frame header byte's low nibble.
pub open spec fn opcode_of(b: u8) -> WsOpcode {
    let n = b % 16;
    if n == 0 {
        WsOpcode::Continuation
    } else if n == 1 {
        WsOpcode::Text
    } else if n == 2 {
        WsOpcode::Binary
    } else if n == 8 {
        WsOpcode::Close
    } else if n == 9 {
        WsOpcode::Ping
    } else if n == 10 {
        WsOpcode::Pong
    } else {
        WsOpcode::Unknown
    }
}

impl WsOpcode {
    /// Decode an opcode from a frame header byte's low nibble.
    pub fn from_byte(byte: u8) -> (r: WsOpcode)
        ensures
            r == opcode_of(byte),
    {
        let n = byte % 16;
        if n == 0 {
            WsOpcode::Continuation
        } else if n == 1 {
            WsOpcode::Text
        } else if n == 2 {
            WsOpcode::Binary
        } else if n == 8 {
            WsOpcode::Close
        } else if n == 9 {
            WsOpcode::Ping
        } else if n == 10 {
            WsOpcode::Pong
        } else {
            WsOpcode::Unknown
        }
    }
}

/// WebSocket connection state.
#[derive(Debug, Clone, Copy, PartialEq, Eq, Structural)]
pub enum WsState {
    /// Connection open.
    Open,
    /// Closing handshake initiated.
    Closing,
    /// Connection closed.
    Closed,
}

/// Action to take after processing a WebSocket frame.
#[derive(Debug, Clone)]
pub enum WsFrameAction {
    /// Keep processing.
    Continue,
    /// Block the message.
    Block(String),
}

/// Whether the installed scanner, if any, would report no match on this
/// payload.
pub open spec fn no_scan_hit(h: McpWebSocketHandler, payload: Seq<u8>) -> bool {
    h.has_ring() ==> scan_find(h.pats(), h.cursors(), step_emit(h.held(), payload)) is None
}

/// The block reason for a pattern found in a frame.
pub open spec fn spec_ws_pattern_reason(name: Seq<char>) -> Seq<char> {
    "Pattern '"@ + name + "' detected in WebSocket message"@
}

/// MCP WebSocket transport handler.
pub struct McpWebSocketHandler {
    state: WsState,
    ring_buffer: Option<RingBuffer>,
    fragment_buffer: Vec<u8>,
    fragment_opcode: Option<WsOpcode>,
    message_count: u64,
}

impl McpWebSocketHandler {
    /// The connection state.
    pub closed spec fn state_spec(&self) -> WsState {
        self.state
    }

    /// Whether patterns were installed.
    pub closed spec fn has_ring(&self) -> bool {
        self.ring_buffer is Some
    }

    /// The installed patterns' byte sequences.
    pub closed spec fn pats(&self) -> Seq<Seq<u8>> {
        self.ring_buffer.unwrap().pats()
    }

    /// The installed patterns' names.
    pub closed spec fn names(&self) -> Seq<Seq<char>> {
        self.ring_buffer.unwrap().names()
    }

    /// The scanner's cursors.
    pub closed spec fn cursors(&self) -> Seq<nat> {
        self.ring_buffer.unwrap().cursors()
    }

    /// The scanner's buffered UTF-8 tail.
    pub closed spec fn held(&self) -> Seq<u8> {
        self.ring_buffer.unwrap().held()
    }

    /// Bytes fed to the scanner so far.
    pub closed spec fn scanned(&self) -> nat {
        self.ring_buffer.unwrap().total()
    }

    /// The installed ring store's capacity.
    pub closed spec fn cap(&self) -> nat {
        self.ring_buffer.unwrap().cap()
    }

    /// The accumulated fragment payload.
    pub closed spec fn fragment(&self) -> Seq<u8> {
        self.fragment_buffer@
    }

    /// The opcode that opened the pending fragmented message, if one is
    /// open.
    pub closed spec fn fragment_op(&self) -> Option<WsOpcode> {
        self.fragment_opcode
    }

    /// Complete messages seen.
    pub closed spec fn messages(&self) -> nat {
        self.message_count as nat
    }

    /// The ring, when installed, is well-formed, and the fragment buffer
    /// never exceeds its ceiling.
    pub closed spec fn wf(&self) -> bool {
        &&& (self.ring_buffer matches Some(rb) ==> rb.wf())
        &&& self.fragment_buffer@.len() <= fragment_ceiling()
    }

    /// A handler with no patterns installed, on an open connection.
    pub fn new() -> (r: McpWebSocketHandler)
        ensures
            r.wf(),
            !r.has_ring(),
            r.state_spec() == WsState::Open,
            r.fragment() == Seq::<u8>::empty(),
            r.fragment_op() is None,
            r.messages() == 0,
    {
        McpWebSocketHandler {
            state: WsState::Open,
            ring_buffer: None,
            fragment_buffer: Vec::new(),
            fragment_opcode: None,
            message_count: 0,
        }
    }

    /// Install patterns over a fresh ring store: afterwards every frame
    /// payload is scanned against the lowercase-folded patterns in a ring
    /// of the given capacity.
    pub fn init_patterns(&mut self, patterns: Vec<String>, buffer_size: usize)
        requires
            old(self).wf(),
            buffer_size > 0,
        ensures
            final(self).wf(),
            final(self).has_ring(),
            final(self).scanned() == 0,
            final(self).held() == Seq::<u8>::empty(),
            final(self).cap() == buffer_size,
            final(self).state_spec() == old(self).state_spec(),
            final(self).fragment() == old(self).fragment(),
            final(self).fragment_op() == old(self).fragment_op(),
            final(self).messages() == old(self).messages(),
            final(self).pats() =~= crate::text::views(patterns@).map_values(
                |s: Seq<char>| crate::text::lower_bytes(crate::text::utf8_of(s)),
            ),
            final(self).names() =~= crate::text::views(patterns@),
            final(self).cursors() =~= Seq::new(patterns@.len(), |i: int| 0nat),
    {
        let rb = RingBuffer::from_strings(buffer_size, patterns.as_slice());
        proof {
            crate::text::lemma_views_index(patterns@);
            assert(rb.names() =~= crate::text::views(patterns@));
            assert forall|i: int| 0 <= i < patterns@.len() implies rb.pats()[i]
                == crate::text::views(patterns@).map_values(
                |s: Seq<char>| crate::text::lower_bytes(crate::text::utf8_of(s)),
            )[i] by {
                assert(crate::text::views(patterns@)[i] == patterns@[i]@);
            }
            assert(rb.pats() =~= crate::text::views(patterns@).map_values(
                |s: Seq<char>| crate::text::lower_bytes(crate::text::utf8_of(s)),
            ));
        }
        self.ring_buffer = Some(rb);
    }

    /// Scan a payload through the ring store, if one is installed.
    fn scan_payload(&mut self, payload: &[u8]) -> (r: Option<String>)
        requires
            old(self).wf(),
            old(self).has_ring() ==> old(self).scanned() + payload@.len() + 3 <= usize::MAX,
        ensures
            final(self).wf(),
            final(self).has_ring() == old(self).has_ring(),
            final(self).state_spec() == old(self).state_spec(),
            final(self).fragment() == old(self).fragment(),
            final(self).fragment_op() == old(self).fragment_op(),
            final(self).messages() == old(self).messages(),
            old(self).has_ring() ==> final(self).pats() == old(self).pats() && final(self).names()
                == old(self).names(),
            ({
                let hit = if old(self).has_ring() {
                    scan_find(
                        old(self).pats(),
                        old(self).cursors(),
                        step_emit(old(self).held(), payload@),
                    )
                } else {
                    None
                };
                match hit {
                    Some(pk) => r matches Some(s) && s@ == "Pattern '"@ + old(self).names()[pk.0]
                        + "' detected in WebSocket message"@,
                    None => r is None,
                }
            }),
    {
        match &mut self.ring_buffer {
            Some(rb) => {
                match rb.process_chunk(payload) {
                    ScanResult::Match(m) => {
                        let mut reason = "Pattern '".to_owned();
                        reason.append(m.pattern_name.as_str());
                        reason.append("' detected in WebSocket message");
                        Some(reason)
                    },
                    ScanResult::Continue => None,
                }
            },
            None => None,
        }
    }

    /// Check a complete text message as a JSON-RPC envelope, best effort:
    /// a payload that is not UTF-8 is rejected; one that does not parse as
    /// a request envelope passes (it may be a response or notification);
    /// an envelope that violates the envelope rules is rejected.
    fn validate_message(&self, payload: &[u8]) -> (r: Result<(), String>)
        ensures
            !valid_utf8(payload@) ==> (r matches Err(s) && s@
                == "Invalid UTF-8 in WebSocket message"@),
            valid_utf8(payload@) ==> (r is Ok <==> (match rpc_envelope_of(payload@) {
                Some(vm) => req_valid(vm.0, vm.1),
                None => true,
            })),
    {
        if !crate::text::utf8_valid_exec(payload) {
            return Err("Invalid UTF-8 in WebSocket message".to_owned());
        }
        match parse_envelope(payload) {
            Some(req) => match req.validate() {
                Ok(()) => Ok(()),
                Err(e) => {
                    let mut m = "Invalid JSON-RPC: ".to_owned();
                    let detail = e.message();
                    m.append(detail.as_str());
                    Err(m)
                },
            },
            None => Ok(()),
        }
    }

    /// Process one frame. Binary frames and unknown opcodes block; a
    /// close frame moves the connection to closing; ping and pong pass. A
    /// text frame is scanned and, when final, validated; a non-final text
    /// frame opens a fragmented message. A continuation frame is scanned,
    /// appended under the 10 MiB ceiling, and the assembled message is
    /// validated when final.
    pub fn on_frame(&mut self, opcode: WsOpcode, payload: &[u8], fin: bool) -> (r: WsFrameAction)
        requires
            old(self).wf(),
            old(self).has_ring() ==> old(self).scanned() + payload@.len() + 3 <= usize::MAX,
        ensures
            final(self).wf(),
            final(self).has_ring() == old(self).has_ring(),
            final(self).state_spec() == (if opcode == WsOpcode::Close {
                WsState::Closing
            } else {
                old(self).state_spec()
            }),
            opcode == WsOpcode::Binary ==> (r matches WsFrameAction::Block(s) && s@
                == "Binary WebSocket frames not allowed for MCP"@ && *final(self) == *old(self)),
            opcode == WsOpcode::Unknown ==> (r matches WsFrameAction::Block(s) && s@
                == "Unknown WebSocket opcode"@ && *final(self) == *old(self)),
            opcode == WsOpcode::Close ==> (r matches WsFrameAction::Continue
                && final(self).fragment() == old(self).fragment()
                && final(self).fragment_op() == old(self).fragment_op()
                && final(self).messages() == old(self).messages()),
            opcode == WsOpcode::Ping || opcode == WsOpcode::Pong ==> (r
                matches WsFrameAction::Continue && *final(self) == *old(self)),
            opcode == WsOpcode::Text && no_scan_hit(*old(self), payload@) && fin ==> final(self).messages() == vstd::math::min(old(self).messages() as int + 1, u64::MAX as int),
            opcode == WsOpcode::Text && !(no_scan_hit(*old(self), payload@) && fin) ==> final(self).messages() == old(self).messages(),
            opcode == WsOpcode::Continuation && no_scan_hit(*old(self), payload@) && old(self).fragment_op() is Some && old(self).fragment().len() + payload@.len()
                <= fragment_ceiling() && fin ==> final(self).messages() == vstd::math::min(
                old(self).messages() as int + 1,
                u64::MAX as int,
            ),
            opcode == WsOpcode::Continuation && !(no_scan_hit(*old(self), payload@) && old(self).fragment_op() is Some && old(self).fragment().len() + payload@.len()
                <= fragment_ceiling() && fin) ==> final(self).messages() == old(self).messages(),
            opcode == WsOpcode::Continuation && old(self).fragment_op() is None && no_scan_hit(
                *old(self),
                payload@,
            ) ==> (r matches WsFrameAction::Block(s) && s@ == "Unexpected continuation frame"@),
    {
        match opcode {
            WsOpcode::Text => self.on_text_frame(payload, fin),
            WsOpcode::Binary => WsFrameAction::Block(
                "Binary WebSocket frames not allowed for MCP".to_owned(),
            ),
            WsOpcode::Continuation => self.on_continuation_frame(payload, fin),
            WsOpcode::Close => {
                self.state = WsState::Closing;
                WsFrameAction::Continue
            },
            WsOpcode::Ping => WsFrameAction::Continue,
            WsOpcode::Pong => WsFrameAction::Continue,
            WsOpcode::Unknown => WsFrameAction::Block("Unknown WebSocket opcode".to_owned()),
        }
    }

    /// Process a text frame.
    fn on_text_frame(&mut self, payload: &[u8], fin: bool) -> (r: WsFrameAction)
        requires
            old(self).wf(),
            old(self).has_ring() ==> old(self).scanned() + payload@.len() + 3 <= usize::MAX,
        ensures
            final(self).wf(),
            final(self).has_ring() == old(self).has_ring(),
            final(self).state_spec() == old(self).state_spec(),
            old(self).has_ring() ==> ({
                match scan_find(
                    old(self).pats(),
                    old(self).cursors(),
                    step_emit(old(self).held(), payload@),
                ) {
                    Some(pk) => r matches WsFrameAction::Block(s) && s@ == spec_ws_pattern_reason(
                        old(self).names()[pk.0],
                    ),
                    None => true,
                }
            }),
            !no_scan_hit(*old(self), payload@) ==> final(self).fragment() == old(self).fragment()
                && final(self).fragment_op() == old(self).fragment_op() && final(self).messages()
                == old(self).messages(),
            no_scan_hit(*old(self), payload@) && fin ==> final(self).messages()
                == vstd::math::min(old(self).messages() as int + 1, u64::MAX as int) && final(self).fragment() == old(self).fragment() && final(self).fragment_op() == old(self).fragment_op(),
            no_scan_hit(*old(self), payload@) && !fin ==> final(self).messages() == old(self).messages(),
            no_scan_hit(*old(self), payload@) && fin && !valid_utf8(payload@) ==> (r
                matches WsFrameAction::Block(s) && s@ == "Invalid UTF-8 in WebSocket message"@),
            no_scan_hit(*old(self), payload@) && fin && valid_utf8(payload@) ==> ((r
                matches WsFrameAction::Continue) <==> (match rpc_envelope_of(payload@) {
                Some(vm) => req_valid(vm.0, vm.1),
                None => true,
            })),
            no_scan_hit(*old(self), payload@) && !fin && old(self).fragment().len()
                + payload@.len() <= fragment_ceiling() ==> (r matches WsFrameAction::Continue
                && final(self).fragment() == old(self).fragment() + payload@ && final(self).fragment_op() == Some(WsOpcode::Text)),
            no_scan_hit(*old(self), payload@) && !fin && old(self).fragment().len()
                + payload@.len() > fragment_ceiling() ==> (r matches WsFrameAction::Block(s) && s@
                == "WebSocket message too large"@ && final(self).fragment()
                == Seq::<u8>::empty()),
    {
        match self.scan_payload(payload) {
            Some(reason) => {
                return WsFrameAction::Block(reason);
            },
            None => {},
        }
        if fin {
            if self.message_count < u64::MAX {
                self.message_count = self.message_count + 1;
            }
            match self.validate_message(payload) {
                Ok(()) => WsFrameAction::Continue,
                Err(e) => WsFrameAction::Block(e),
            }
        } else {
            if payload.len() > 10 * 1024 * 1024 - self.fragment_buffer.len() {
                self.fragment_buffer.clear();
                self.fragment_opcode = None;
                return WsFrameAction::Block("WebSocket message too large".to_owned());
            }
            self.fragment_opcode = Some(WsOpcode::Text);
            self.fragment_buffer.extend_from_slice(payload);
            WsFrameAction::Continue
        }
    }

    /// Process a continuation frame.
    fn on_continuation_frame(&mut self, payload: &[u8], fin: bool) -> (r: WsFrameAction)
        requires
            old(self).wf(),
            old(self).has_ring() ==> old(self).scanned() + payload@.len() + 3 <= usize::MAX,
        ensures
            final(self).wf(),
            final(self).has_ring() == old(self).has_ring(),
            final(self).state_spec() == old(self).state_spec(),
            old(self).has_ring() ==> ({
                match scan_find(
                    old(self).pats(),
                    old(self).cursors(),
                    step_emit(old(self).held(), payload@),
                ) {
                    Some(pk) => r matches WsFrameAction::Block(s) && s@ == spec_ws_pattern_reason(
                        old(self).names()[pk.0],
                    ),
                    None => true,
                }
            }),
            no_scan_hit(*old(self), payload@) && old(self).fragment_op() is Some && old(self).fragment().len() + payload@.len() <= fragment_ceiling() && fin ==> final(self).messages() == vstd::math::min(old(self).messages() as int + 1, u64::MAX as int),
            !(no_scan_hit(*old(self), payload@) && old(self).fragment_op() is Some && old(self).fragment().len() + payload@.len() <= fragment_ceiling() && fin) ==> final(self).messages() == old(self).messages(),
            old(self).fragment_op() is None && no_scan_hit(*old(self), payload@) ==> (r
                matches WsFrameAction::Block(s) && s@ == "Unexpected continuation frame"@),
            no_scan_hit(*old(self), payload@) && old(self).fragment_op() is Some && old(self).fragment().len() + payload@.len() > fragment_ceiling() ==> (r
                matches WsFrameAction::Block(s) && s@ == "WebSocket message too large"@ && final(self).fragment() == Seq::<u8>::empty() && final(self).fragment_op() is None),
            no_scan_hit(*old(self), payload@) && old(self).fragment_op() is Some && old(self).fragment().len() + payload@.len() <= fragment_ceiling() && !fin ==> (r
                matches WsFrameAction::Continue && final(self).fragment() == old(self).fragment()
                + payload@ && final(self).fragment_op() == old(self).fragment_op()),
    {
        match self.scan_payload(payload) {
            Some(reason) => {
                return WsFrameAction::Block(reason);
            },
            None => {},
        }
        if self.fragment_opcode.is_none() {
            return WsFrameAction::Block("Unexpected continuation frame".to_owned());
        }
        if payload.len() > 10 * 1024 * 1024 - self.fragment_buffer.len() {
            self.fragment_buffer.clear();
            self.fragment_opcode = None;
            return WsFrameAction::Block("WebSocket message too large".to_owned());
        }
        self.fragment_buffer.extend_from_slice(payload);
        if fin {
            if self.message_count < u64::MAX {
                self.message_count = self.message_count + 1;
            }
            let was_text = matches!(self.fragment_opcode, Some(WsOpcode::Text));
            if was_text {
                let verdict = self.validate_message(self.fragment_buffer.as_slice());
                match verdict {
                    Ok(()) => {},
                    Err(e) => {
                        self.fragment_buffer.clear();
                        self.fragment_opcode = None;
                        return WsFrameAction::Block(e);
                    },
                }
            }
            self.fragment_buffer.clear();
            self.fragment_opcode = None;
        }
        WsFrameAction::Continue
    }

    /// The connection state.
    pub fn state(&self) -> (r: WsState)
        ensures
            r == self.state_spec(),
    {
        self.state
    }

    /// Complete messages seen.
    pub fn message_count(&self) -> (r: u64)
        ensures
            r == self.messages(),
    {
        self.message_count
    }

    /// Reset the handler: connection open, fragment state cleared,
    /// counters zeroed, and the ring store reset when installed.
    pub fn reset(&mut self)
        requires
            old(self).wf(),
        ensures
            final(self).wf(),
            final(self).has_ring() == old(self).has_ring(),
            final(self).state_spec() == WsState::Open,
            final(self).fragment() == Seq::<u8>::empty(),
            final(self).fragment_op() is None,
            final(self).messages() == 0,
            old(self).has_ring() ==> final(self).pats() == old(self).pats() && final(self).names()
                == old(self).names() && final(self).cap() == old(self).cap() && final(self).scanned() == 0 && final(self).held() == Seq::<u8>::empty() && final(self).cursors()
                =~= Seq::new(old(self).pats().len(), |i: int| 0nat),
    {
        self.state = WsState::Open;
        self.fragment_buffer.clear();
        self.fragment_opcode = None;
        self.message_count = 0;
        match &mut self.ring_buffer {
            Some(rb) => {
                rb.reset();
            },
            None => {},
        }
    }
}

impl Default for McpWebSocketHandler {
    /// A handler with no patterns installed, on an open connection.
    fn default() -> (r: McpWebSocketHandler)
        ensures
            r.wf(),
            !r.has_ring(),
            r.state_spec() == WsState::Open,
    {
        McpWebSocketHandler::new()
    }
}

} // verus!
