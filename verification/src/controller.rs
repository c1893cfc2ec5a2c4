//! Per-request filter controller: the decision core between the host
//! proxy's callbacks and the streaming scanner.
//!
//! The host reports the total buffered body size on every body callback,
//! not the chunk size, so the controller remembers how many bytes it has
//! already processed and asks only for the new suffix — rescanning from
//! the start would be quadratic. Non-text content classes skip body
//! inspection entirely. Once a block has been emitted the controller is
//! sticky: every further callback pauses the pipeline and no second
//! synthetic response is ever produced.

use crate::config::FilterConfig;
use crate::governance::body_scanner::{spec_block_reason, ScanDecision, StreamingBodyScanner};
use crate::streaming::pattern_fsm::scan_find;
use crate::streaming::utf8_buffer::step_emit;
use crate::text::{contains_bytes, lower_bytes, utf8_of};
use vstd::prelude::*;
use vstd::string::StringExecFns;

verus! {

/// What the controller asks the host to do.
#[derive(Debug, Clone)]
pub enum FilterAction {
    /// Let the pipeline advance.
    Continue,
    /// Hold the pipeline until the next callback.
    Pause,
    /// Synthesize a response: status, headers, body.
    SendResponse(u16, Vec<(String, String)>, Vec<u8>),
}

/// A content type whose body is inspected: one naming `json`, `text` or
/// `form`; a request without a content type is inspected too.
pub open spec fn inspectable(content_type: Option<Seq<char>>) -> bool {
    match content_type {
        None => true,
        Some(ct) => {
            let low = lower_bytes(utf8_of(ct));
            contains_bytes(low, lower_bytes(utf8_of("json"@))) || contains_bytes(
                low,
                lower_bytes(utf8_of("text"@)),
            ) || contains_bytes(low, lower_bytes(utf8_of("form"@)))
        },
    }
}

/// The synthesized block response body.
pub open spec fn spec_block_body(reason: Seq<char>) -> Seq<char> {
    "{\"error\":\"Request Blocked by AI-Guard\",\"reason\":\""@ + reason
        + "\",\"status\":403,\"headers\":{\"x-ai-guard-blocked\":\"true\",\"x-ai-guard-reason\":\"policy-violation\"}}"@
}

/// Per-request controller state.
pub struct FilterController {
    scanner: StreamingBodyScanner,
    inspect_body: bool,
    blocked: bool,
    body_bytes_processed: usize,
}

impl FilterController {
    /// Whether this request's body is inspected.
    pub closed spec fn inspecting(&self) -> bool {
        self.inspect_body
    }

    /// Whether a block response has been emitted.
    pub closed spec fn blocked_spec(&self) -> bool {
        self.blocked
    }

    /// Bytes of the buffered body already processed.
    pub closed spec fn processed(&self) -> nat {
        self.body_bytes_processed as nat
    }

    /// The underlying scanner is well-formed.
    pub closed spec fn wf(&self) -> bool {
        self.scanner.wf()
    }

    /// The scanner's pattern names.
    pub closed spec fn names(&self) -> Seq<Seq<char>> {
        self.scanner.names()
    }

    /// The scanner's pattern byte sequences.
    pub closed spec fn pats(&self) -> Seq<Seq<u8>> {
        self.scanner.pats()
    }

    /// The scanner's cursors.
    pub closed spec fn cursors(&self) -> Seq<nat> {
        self.scanner.cursors()
    }

    /// The scanner's buffered UTF-8 tail.
    pub closed spec fn held(&self) -> Seq<u8> {
        self.scanner.held()
    }

    /// Cumulative body bytes the scanner has seen.
    pub closed spec fn seen(&self) -> nat {
        self.scanner.total_seen()
    }

    /// The scanner's byte ceiling.
    pub closed spec fn ceiling(&self) -> nat {
        self.scanner.max_spec()
    }

    /// Whether the scanner has reached a terminal decision.
    pub closed spec fn scan_done(&self) -> bool {
        self.scanner.complete_spec()
    }

    /// A controller for one request, not yet inspecting anything.
    pub fn new(config: &FilterConfig) -> (r: FilterController)
        requires
            config.ring_buffer_size > 0,
            config.max_body_size + 3 <= usize::MAX,
        ensures
            r.wf(),
            r.inspecting(),
            !r.blocked_spec(),
            r.processed() == 0,
    {
        FilterController {
            scanner: StreamingBodyScanner::new(config),
            inspect_body: true,
            blocked: false,
            body_bytes_processed: 0,
        }
    }

    /// Header phase: decide from the content type whether the body is
    /// inspected. Non-text content classes skip inspection; the pipeline
    /// always advances.
    pub fn on_request_headers(&mut self, content_type: Option<&str>) -> (r: FilterAction)
        requires
            old(self).wf(),
        ensures
            final(self).wf(),
            r matches FilterAction::Continue,
            final(self).inspecting() == inspectable(
                match content_type {
                    Some(ct) => Some(ct@),
                    None => None,
                },
            ),
            final(self).blocked_spec() == old(self).blocked_spec(),
            final(self).processed() == old(self).processed(),
    {
        match content_type {
            Some(ct) => {
                let low = crate::text::lower_vec(ct.as_bytes());
                let l = low.as_slice();
                let inspect = crate::text::contains_bytes_exec(
                    l,
                    crate::text::lower_vec("json".as_bytes()).as_slice(),
                ) || crate::text::contains_bytes_exec(
                    l,
                    crate::text::lower_vec("text".as_bytes()).as_slice(),
                ) || crate::text::contains_bytes_exec(
                    l,
                    crate::text::lower_vec("form".as_bytes()).as_slice(),
                );
                self.inspect_body = inspect;
            },
            None => {
                self.inspect_body = true;
            },
        }
        FilterAction::Continue
    }

    /// The window of the buffered body still to be read: from what has
    /// been processed up to the reported total. The host reports
    /// cumulative sizes, so this is exactly the newly appended suffix.
    pub fn next_read(&self, body_size: usize) -> (r: (usize, usize))
        ensures
            r.0 == vstd::math::min(self.processed() as int, body_size as int),
            r.0 + r.1 == body_size,
    {
        let start = if self.body_bytes_processed < body_size {
            self.body_bytes_processed
        } else {
            body_size
        };
        (start, body_size - start)
    }

    /// Body phase: feed the newly appended suffix through the scanner and
    /// turn its decision into a host action. After a block, every call
    /// pauses the pipeline without another response. An uninspected body
    /// and an oversized body pass through; a clean end of stream passes
    /// through; an unfinished stream pauses for the next chunk.
    pub fn on_body_chunk(&mut self, chunk: &[u8], new_total: usize, end_of_stream: bool) -> (r:
        FilterAction)
        requires
            old(self).wf(),
        ensures
            final(self).wf(),
            final(self).names() == old(self).names(),
            old(self).blocked_spec() ==> (r matches FilterAction::Pause
                && *final(self) == *old(self)),
            !old(self).blocked_spec() && !old(self).inspecting() ==> (r
                matches FilterAction::Continue && final(self).processed() == new_total
                && !final(self).blocked_spec()),
            !old(self).blocked_spec() ==> final(self).processed() == new_total,
            final(self).blocked_spec() ==> old(self).blocked_spec() || (r
                matches FilterAction::SendResponse(status, hs, body) && status == 403),
            (!old(self).blocked_spec() && old(self).inspecting() && !old(self).scan_done() && old(
                self,
            ).seen() + chunk@.len() <= old(self).ceiling()) ==> ({
                match scan_find(
                    old(self).pats(),
                    old(self).cursors(),
                    step_emit(old(self).held(), chunk@),
                ) {
                    Some(pk) => r matches FilterAction::SendResponse(status, hs, body) && status
                        == 403 && body@ == utf8_of(
                        spec_block_body(spec_block_reason(old(self).names()[pk.0])),
                    ) && final(self).blocked_spec(),
                    None => true,
                }
            }),
    {
        if self.blocked {
            // Once blocked, hold the pipeline; never emit a second
            // synthetic response.
            return FilterAction::Pause;
        }
        if !self.inspect_body {
            self.body_bytes_processed = new_total;
            return FilterAction::Continue;
        }
        let decision = self.scanner.on_body_chunk(chunk, end_of_stream);
        self.body_bytes_processed = new_total;
        match decision {
            ScanDecision::Block(reason) => {
                self.blocked = true;
                FilterAction::SendResponse(
                    403,
                    Self::block_headers(),
                    Self::block_body(reason.as_str()),
                )
            },
            ScanDecision::Skip(_) => FilterAction::Continue,
            ScanDecision::Allow => FilterAction::Continue,
            ScanDecision::Continue => {
                if end_of_stream {
                    FilterAction::Continue
                } else {
                    FilterAction::Pause
                }
            },
        }
    }

    /// The headers of the synthesized block response.
    pub fn block_headers() -> (r: Vec<(String, String)>)
        ensures
            r@.len() == 3,
            r@[0].0@ == "content-type"@ && r@[0].1@ == "application/json"@,
            r@[1].0@ == "x-ai-guard-blocked"@ && r@[1].1@ == "true"@,
            r@[2].0@ == "x-ai-guard-action"@ && r@[2].1@ == "block"@,
    {
        let mut hs: Vec<(String, String)> = Vec::new();
        hs.push(("content-type".to_owned(), "application/json".to_owned()));
        hs.push(("x-ai-guard-blocked".to_owned(), "true".to_owned()));
        hs.push(("x-ai-guard-action".to_owned(), "block".to_owned()));
        hs
    }

    /// The body of the synthesized block response, quoting the reason
    /// verbatim; reasons come from this library's own pattern names.
    pub fn block_body(reason: &str) -> (r: Vec<u8>)
        ensures
            r@ == utf8_of(spec_block_body(reason@)),
    {
        let mut body = "{\"error\":\"Request Blocked by AI-Guard\",\"reason\":\"".to_owned();
        body.append(reason);
        body.append(
            "\",\"status\":403,\"headers\":{\"x-ai-guard-blocked\":\"true\",\"x-ai-guard-reason\":\"policy-violation\"}}",
        );
        let r = body.as_str().as_bytes_vec();
        proof {
            assert(r@ == utf8_of(spec_block_body(reason@)));
        }
        r
    }

    /// The headers added to an allowed response: the inspection mark and,
    /// when usage was extracted, the total token count.
    pub fn response_annotations(&self, tokens_total: Option<u64>) -> (r: Vec<(String, String)>)
        ensures
            r@.len() == (if tokens_total is Some {
                2int
            } else {
                1int
            }),
            r@[0].0@ == "x-ai-guard-inspected"@ && r@[0].1@ == "true"@,
            tokens_total matches Some(n) ==> r@[1].0@ == "x-ai-guard-tokens-total"@ && r@[1].1@
                == vstd::utf8::decode_utf8(crate::text::dec_bytes(n as int)),
    {
        let mut hs: Vec<(String, String)> = Vec::new();
        hs.push(("x-ai-guard-inspected".to_owned(), "true".to_owned()));
        match tokens_total {
            Some(n) => {
                hs.push(("x-ai-guard-tokens-total".to_owned(), crate::text::u64_to_dec(n)));
            },
            None => {},
        }
        hs
    }

    /// Whether a block response has been emitted.
    pub fn is_blocked(&self) -> (r: bool)
        ensures
            r == self.blocked_spec(),
    {
        self.blocked
    }

    /// Bytes of the buffered body already processed.
    pub fn bytes_processed(&self) -> (r: usize)
        ensures
            r == self.processed(),
    {
        self.body_bytes_processed
    }
}

} // verus!
