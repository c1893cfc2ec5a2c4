//! MCP over Server-Sent Events.
//!
//! The whole raw byte stream — comment lines included — is fed to the ring
//! store before line parsing, so patterns embedded in comments are also
//! reported; this is a deliberately conservative policy. Line parsing
//! follows the event-stream grammar: lines end in LF or CRLF, an empty
//! line dispatches the pending event, a line starting with `:` is a
//! comment, and a `name[:[ ]value]` line sets a field, of which only
//! `event` changes this handler's state.

use crate::streaming::pattern_fsm::{cursors_after_scan, scan_find, ScanResult};
use crate::streaming::ring_buffer::RingBuffer;
use crate::streaming::utf8_buffer::{step_emit, step_hold};
use crate::text::utf8_of;
use vstd::prelude::*;
use vstd::string::StringExecFns;
use vstd::utf8::{decode_utf8, valid_utf8};

verus! {

/// SSE frame kinds, as the grammar names them.
#[derive(Debug, Clone)]
pub enum SseFrame {
    /// A data field's bytes.
    Data(Vec<u8>),
    /// A named event.
    Event(String),
    /// An event id.
    Id(String),
    /// A retry interval in milliseconds.
    Retry(u32),
    /// A comment line.
    Comment,
}

/// First position of `b` in `s`, if any.
pub open spec fn find_byte(s: Seq<u8>, b: u8, i: int) -> Option<int>
    decreases s.len() - i,
    when 0 <= i
{
    if i >= s.len() {
        None
    } else if s[i] == b {
        Some(i)
    } else {
        find_byte(s, b, i + 1)
    }
}

/// One complete line applied to the parser state `(line buffer, pending
/// event)`: an empty line dispatches (clearing the pending event); a line
/// that is not UTF-8 is left in place; a comment is dropped; a
/// `name[:[ ]value]` line sets the pending event when the name is
/// `event`, and any other field is ignored.
pub open spec fn sse_line_step(buf: Seq<u8>, ev: Option<Seq<char>>) -> (Seq<u8>, Option<
    Seq<char>,
>) {
    if buf.len() == 0 {
        (Seq::empty(), None)
    } else if !valid_utf8(buf) {
        (buf, ev)
    } else if buf[0] == 58 {
        (Seq::empty(), ev)
    } else {
        match find_byte(buf, 58, 0) {
            Some(p) => {
                let field = buf.subrange(0, p);
                let value = if p + 1 < buf.len() && buf[p + 1] == 32 {
                    buf.subrange(p + 2, buf.len() as int)
                } else {
                    buf.subrange(p + 1, buf.len() as int)
                };
                if field == utf8_of("event"@) {
                    (Seq::empty(), Some(decode_utf8(value)))
                } else {
                    (Seq::empty(), ev)
                }
            },
            None => (Seq::empty(), ev),
        }
    }
}

/// The parser state after feeding the chunk bytes from `i` on: LF and
/// CRLF terminate lines, everything else accumulates.
pub open spec fn sse_feed(t: Seq<u8>, i: int, buf: Seq<u8>, ev: Option<Seq<char>>) -> (
    Seq<u8>,
    Option<Seq<char>>,
)
    decreases t.len() - i,
    when 0 <= i
{
    if i >= t.len() {
        (buf, ev)
    } else if t[i] == 10 {
        let s = sse_line_step(buf, ev);
        sse_feed(t, i + 1, s.0, s.1)
    } else if t[i] == 13 && i + 1 < t.len() && t[i + 1] == 10 {
        let s = sse_line_step(buf, ev);
        sse_feed(t, i + 2, s.0, s.1)
    } else {
        sse_feed(t, i + 1, buf.push(t[i]), ev)
    }
}

/// Action to take after processing an SSE chunk.
#[derive(Debug, Clone)]
pub enum SseAction {
    /// Keep processing.
    Continue,
    /// Block the stream.
    Block(String),
}

/// MCP SSE transport handler.
pub struct McpSseHandler {
    ring_buffer: Option<RingBuffer>,
    current_event: Option<String>,
    line_buffer: Vec<u8>,
}

impl McpSseHandler {
    /// Whether patterns were installed.
    pub closed spec fn has_ring(&self) -> bool {
        self.ring_buffer is Some
    }

    /// The installed patterns' byte sequences.
    pub closed spec fn pats(&self) -> Seq<Seq<u8>> {
        self.ring_buffer.unwrap().pats()
    }

    /// The installed patterns' names.
    pub closed spec fn names(&self) -> Seq<Seq<char>> {
        self.ring_buffer.unwrap().names()
    }

    /// The scanner's cursors.
    pub closed spec fn cursors(&self) -> Seq<nat> {
        self.ring_buffer.unwrap().cursors()
    }

    /// The scanner's buffered UTF-8 tail.
    pub closed spec fn held(&self) -> Seq<u8> {
        self.ring_buffer.unwrap().held()
    }

    /// Bytes fed to the scanner so far.
    pub closed spec fn scanned(&self) -> nat {
        self.ring_buffer.unwrap().total()
    }

    /// The installed ring store's capacity.
    pub closed spec fn cap(&self) -> nat {
        self.ring_buffer.unwrap().cap()
    }

    /// The line-assembly buffer.
    pub closed spec fn line(&self) -> Seq<u8> {
        self.line_buffer@
    }

    /// The pending event name, if an `event` field has been seen since the
    /// last dispatch.
    pub closed spec fn event(&self) -> Option<Seq<char>> {
        match self.current_event {
            Some(ref e) => Some(e@),
            None => None,
        }
    }

    /// The ring, when installed, is well-formed.
    pub closed spec fn wf(&self) -> bool {
        self.ring_buffer matches Some(rb) ==> rb.wf()
    }

    /// A handler with no patterns installed.
    pub fn new() -> (r: McpSseHandler)
        ensures
            r.wf(),
            !r.has_ring(),
            r.line() == Seq::<u8>::empty(),
            r.event() is None,
    {
        McpSseHandler { ring_buffer: None, current_event: None, line_buffer: Vec::new() }
    }

    /// Install patterns over a fresh ring store: afterwards every raw
    /// byte is scanned against the lowercase-folded patterns in a ring of
    /// the given capacity.
    pub fn init_patterns(&mut self, patterns: Vec<String>, buffer_size: usize)
        requires
            buffer_size > 0,
        ensures
            final(self).wf(),
            final(self).has_ring(),
            final(self).scanned() == 0,
            final(self).held() == Seq::<u8>::empty(),
            final(self).cap() == buffer_size,
            final(self).line() == old(self).line(),
            final(self).event() == old(self).event(),
            final(self).pats() =~= crate::text::views(patterns@).map_values(
                |s: Seq<char>| crate::text::lower_bytes(crate::text::utf8_of(s)),
            ),
            final(self).names() =~= crate::text::views(patterns@),
            final(self).cursors() =~= Seq::new(patterns@.len(), |i: int| 0nat),
    {
        let rb = RingBuffer::from_strings(buffer_size, patterns.as_slice());
        proof {
            crate::text::lemma_views_index(patterns@);
            assert(rb.names() =~= crate::text::views(patterns@));
            assert forall|i: int| 0 <= i < patterns@.len() implies rb.pats()[i]
                == crate::text::views(patterns@).map_values(
                |s: Seq<char>| crate::text::lower_bytes(crate::text::utf8_of(s)),
            )[i] by {
                assert(crate::text::views(patterns@)[i] == patterns@[i]@);
            }
            assert(rb.pats() =~= crate::text::views(patterns@).map_values(
                |s: Seq<char>| crate::text::lower_bytes(crate::text::utf8_of(s)),
            ));
        }
        self.ring_buffer = Some(rb);
    }

    /// Process an SSE chunk: the raw bytes are scanned first and a pattern
    /// match blocks the stream at once, leaving the line state untouched;
    /// otherwise the bytes run through the line parser.
    #[verifier::loop_isolation(false)]
    pub fn process_chunk(&mut self, chunk: &[u8]) -> (r: SseAction)
        requires
            old(self).wf(),
            old(self).has_ring() ==> old(self).scanned() + chunk@.len() + 3 <= usize::MAX,
        ensures
            final(self).wf(),
            final(self).has_ring() == old(self).has_ring(),
            old(self).has_ring() ==> final(self).pats() == old(self).pats() && final(self).names()
                == old(self).names(),
            ({
                let hit = if old(self).has_ring() {
                    scan_find(
                        old(self).pats(),
                        old(self).cursors(),
                        step_emit(old(self).held(), chunk@),
                    )
                } else {
                    None
                };
                match hit {
                    Some(pk) => {
                        &&& r matches SseAction::Block(s) && s@ == "Pattern '"@ + old(self).names()[pk.0] + "' detected in SSE stream"@
                        &&& final(self).line() == old(self).line()
                        &&& final(self).event() == old(self).event()
                    },
                    None => {
                        &&& r matches SseAction::Continue
                        &&& (final(self).line(), final(self).event()) == sse_feed(
                            chunk@,
                            0,
                            old(self).line(),
                            old(self).event(),
                        )
                        &&& old(self).has_ring() ==> final(self).cursors() == cursors_after_scan(
                            old(self).pats(),
                            old(self).cursors(),
                            step_emit(old(self).held(), chunk@),
                        ) && final(self).held() == step_hold(old(self).held(), chunk@)
                    },
                }
            }),
    {
        match &mut self.ring_buffer {
            Some(rb) => {
                match rb.process_chunk(chunk) {
                    ScanResult::Match(m) => {
                        let mut reason = "Pattern '".to_owned();
                        reason.append(m.pattern_name.as_str());
                        reason.append("' detected in SSE stream");
                        return SseAction::Block(reason);
                    },
                    ScanResult::Continue => {},
                }
            },
            None => {},
        }
        let ghost t = chunk@;
        let ghost ring_after = self.ring_buffer;
        let mut i: usize = 0;
        while i < chunk.len()
            invariant
                self.wf(),
                i <= t.len(),
                self.ring_buffer == ring_after,
                sse_feed(t, 0, old(self).line(), old(self).event()) == sse_feed(
                    t,
                    i as int,
                    self.line(),
                    self.event(),
                ),
            decreases t.len() - i,
        {
            let byte = chunk[i];
            if byte == 10 {
                self.process_line();
                i += 1;
            } else if byte == 13 && i + 1 < chunk.len() && chunk[i + 1] == 10 {
                self.process_line();
                i += 2;
            } else {
                self.line_buffer.push(byte);
                i += 1;
            }
        }
        SseAction::Continue
    }

    /// Apply one complete line to the parser state.
    fn process_line(&mut self)
        requires
            old(self).wf(),
        ensures
            final(self).wf(),
            final(self).has_ring() == old(self).has_ring(),
            final(self).ring_buffer == old(self).ring_buffer,
            (final(self).line(), final(self).event()) == sse_line_step(
                old(self).line(),
                old(self).event(),
            ),
    {
        let ghost buf0 = self.line_buffer@;
        if self.line_buffer.len() == 0 {
            self.current_event = None;
            return ;
        }
        if !crate::text::utf8_valid_exec(self.line_buffer.as_slice()) {
            return ;
        }
        if self.line_buffer[0] == 58 {
            self.line_buffer.clear();
            return ;
        }
        match Self::find_colon(self.line_buffer.as_slice()) {
            Some(p) => {
                let vstart = if p + 1 < self.line_buffer.len() && self.line_buffer[p + 1] == 32 {
                    p + 2
                } else {
                    p + 1
                };
                let is_event = Self::field_is_event(self.line_buffer.as_slice(), p);
                if is_event {
                    let value = vstd::slice::slice_subrange(
                        self.line_buffer.as_slice(),
                        vstart,
                        self.line_buffer.len(),
                    );
                    proof {
                        assert forall|j: int| 0 <= j < vstart implies buf0[j] < 0x80 by {
                            if j < p {
                                assert(buf0.subrange(0, p as int)[j] == buf0[j]);
                                assert(utf8_of("event"@)[j] == buf0[j]);
                                lemma_event_ascii();
                            } else if j == p {
                                assert(buf0[j] == 58);
                            } else {
                                assert(buf0[j] == 32);
                            }
                        }
                        crate::text::lemma_valid_utf8_drop_ascii(buf0, vstart as int);
                        assert(value@ =~= buf0.skip(vstart as int));
                        assert(value@ =~= (if p + 1 < buf0.len() && buf0[p + 1] == 32 {
                            buf0.subrange(p + 2, buf0.len() as int)
                        } else {
                            buf0.subrange(p + 1, buf0.len() as int)
                        }));
                    }
                    match crate::text::bytes_to_string(value) {
                        Some(s) => {
                            self.current_event = Some(s);
                        },
                        None => {},
                    }
                }
                self.line_buffer.clear();
            },
            None => {
                self.line_buffer.clear();
            },
        }
    }

    /// First colon in the line, if any.
    #[verifier::loop_isolation(false)]
    fn find_colon(buf: &[u8]) -> (r: Option<usize>)
        ensures
            match r {
                Some(p) => find_byte(buf@, 58, 0) == Some(p as int) && p < buf@.len()
                    && buf@[p as int] == 58,
                None => find_byte(buf@, 58, 0) is None,
            },
    {
        let mut i: usize = 0;
        while i < buf.len()
            invariant
                i <= buf@.len(),
                find_byte(buf@, 58, 0) == find_byte(buf@, 58, i as int),
            decreases buf@.len() - i,
        {
            if buf[i] == 58 {
                return Some(i);
            }
            i += 1;
        }
        None
    }

    /// Whether the field name before the colon is exactly `event`.
    fn field_is_event(buf: &[u8], p: usize) -> (r: bool)
        requires
            p < buf@.len(),
        ensures
            r == (buf@.subrange(0, p as int) == utf8_of("event"@)),
    {
        let field = vstd::slice::slice_subrange(buf, 0, p);
        crate::text::bytes_eq(field, "event".as_bytes())
    }

    /// Reset the handler's state; an installed ring store is reset too.
    pub fn reset(&mut self)
        requires
            old(self).wf(),
        ensures
            final(self).wf(),
            final(self).has_ring() == old(self).has_ring(),
            final(self).line() == Seq::<u8>::empty(),
            final(self).event() is None,
            old(self).has_ring() ==> final(self).pats() == old(self).pats() && final(self).names()
                == old(self).names() && final(self).cap() == old(self).cap() && final(self).scanned() == 0 && final(self).held() == Seq::<u8>::empty() && final(self).cursors()
                =~= Seq::new(old(self).pats().len(), |i: int| 0nat),
    {
        self.current_event = None;
        self.line_buffer.clear();
        match &mut self.ring_buffer {
            Some(rb) => {
                rb.reset();
            },
            None => {},
        }
    }
}

/// The bytes of the literal `event` are ASCII.
proof fn lemma_event_ascii()
    ensures
        forall|j: int| 0 <= j < utf8_of("event"@).len() ==> utf8_of("event"@)[j] < 0x80,
{
    reveal_strlit("event");
    let s = "event"@;
    assert(s.len() == 5);
    assert forall|j: int| 0 <= j < s.len() implies '\0' <= #[trigger] s[j] <= '\u{7f}' by {
        assert(s[0] == 'e' && s[1] == 'v' && s[2] == 'e' && s[3] == 'n' && s[4] == 't');
    }
    assert(vstd::utf8::is_ascii_chars(s));
    lemma_encode_ascii(s);
}

/// Encoding ASCII characters yields bytes under 0x80.
proof fn lemma_encode_ascii(s: Seq<char>)
    requires
        vstd::utf8::is_ascii_chars(s),
    ensures
        forall|j: int| 0 <= j < utf8_of(s).len() ==> utf8_of(s)[j] < 0x80,
    decreases s.len(),
{
    vstd::utf8::is_ascii_chars_encode_utf8(s);
    assert forall|j: int| 0 <= j < utf8_of(s).len() implies utf8_of(s)[j] < 0x80 by {
        assert(s[j] as u8 == utf8_of(s)[j]);
        assert('\0' <= s[j] <= '\u{7f}');
    }
}

impl Default for McpSseHandler {
    /// A handler with no patterns installed.
    fn default() -> (r: McpSseHandler)
        ensures
            r.wf(),
            !r.has_ring(),
    {
        McpSseHandler::new()
    }
}

} // verus!
