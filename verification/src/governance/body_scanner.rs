//! Streaming body scanner: chunk in, decision out.
//!
//! The scanner never accumulates the body. Each chunk streams through the
//! ring store, so memory stays flat no matter how large the body grows. A
//! cumulative size ceiling turns oversized bodies into `Skip` — the policy
//! fails open on oversize for availability. Once a terminal decision
//! (`Allow`, `Block` or `Skip`) has been reached it is sticky: every further
//! call returns that same decision verbatim.

use crate::config::FilterConfig;
use crate::streaming::pattern_fsm::{cursors_after_scan, scan_find, ScanResult};
use crate::streaming::ring_buffer::RingBuffer;
use crate::streaming::utf8_buffer::{step_emit, step_hold};
use crate::text::{lower_bytes, utf8_of, views};
use vstd::prelude::*;
use vstd::string::StringExecFns;

verus! {

/// The reason string attached to a pattern block.
pub open spec fn spec_block_reason(name: Seq<char>) -> Seq<char> {
    "Pattern '"@ + name + "' detected"@
}

/// Decision from scanning a chunk.
#[derive(Debug, Clone)]
pub enum ScanDecision {
    /// Keep scanning; more chunks expected.
    Continue,
    /// Body is safe; no violations found.
    Allow,
    /// Pattern detected; block the request.
    Block(String),
    /// Skip scanning (body too large).
    Skip(&'static str),
}

impl ScanDecision {
    /// Whether this is a blocking decision.
    pub fn is_block(&self) -> (r: bool)
        ensures
            r == (self matches ScanDecision::Block(_)),
    {
        matches!(self, ScanDecision::Block(_))
    }

    /// Whether scanning should continue.
    pub fn should_continue(&self) -> (r: bool)
        ensures
            r == (self matches ScanDecision::Continue),
    {
        matches!(self, ScanDecision::Continue)
    }

    /// The block reason, when blocked.
    pub fn block_reason(&self) -> (r: Option<&str>)
        ensures
            match self {
                ScanDecision::Block(reason) => r matches Some(s) && s@ == reason@,
                _ => r is None,
            },
    {
        match self {
            ScanDecision::Block(reason) => Some(reason.as_str()),
            _ => None,
        }
    }
}

/// Rebuild a decision, value for value.
fn copy_decision(d: &ScanDecision) -> (r: ScanDecision)
    ensures
        r == d,
{
    match d {
        ScanDecision::Continue => ScanDecision::Continue,
        ScanDecision::Allow => ScanDecision::Allow,
        ScanDecision::Block(s) => ScanDecision::Block(s.clone()),
        ScanDecision::Skip(s) => ScanDecision::Skip(s),
    }
}

/// Streaming body scanner over a fixed-capacity ring store.
pub struct StreamingBodyScanner {
    ring_buffer: RingBuffer,
    total_bytes_seen: usize,
    max_bytes: usize,
    complete: bool,
    decision: ScanDecision,
}

impl StreamingBodyScanner {
    /// Whether a terminal decision has been reached.
    pub closed spec fn complete_spec(&self) -> bool {
        self.complete
    }

    /// The decision reached so far: `Continue` while scanning, the sticky
    /// terminal decision afterwards.
    pub closed spec fn verdict(&self) -> ScanDecision {
        self.decision
    }

    /// Cumulative bytes seen over all chunks.
    pub closed spec fn total_seen(&self) -> nat {
        self.total_bytes_seen as nat
    }

    /// The ceiling on cumulative bytes.
    pub closed spec fn max_spec(&self) -> nat {
        self.max_bytes as nat
    }

    /// The patterns scanned for.
    pub closed spec fn pats(&self) -> Seq<Seq<u8>> {
        self.ring_buffer.pats()
    }

    /// The patterns' names.
    pub closed spec fn names(&self) -> Seq<Seq<char>> {
        self.ring_buffer.names()
    }

    /// The scanner's cursors.
    pub closed spec fn cursors(&self) -> Seq<nat> {
        self.ring_buffer.cursors()
    }

    /// The buffered UTF-8 tail.
    pub closed spec fn held(&self) -> Seq<u8> {
        self.ring_buffer.held()
    }

    /// The ring capacity, fixed at construction.
    pub closed spec fn cap(&self) -> nat {
        self.ring_buffer.cap()
    }

    /// Structural invariant: a well-formed ring fed at most the bytes seen,
    /// a total under the ceiling while scanning, and a verdict that is
    /// `Continue` exactly while scanning.
    pub closed spec fn wf(&self) -> bool {
        &&& self.ring_buffer.wf()
        &&& self.ring_buffer.total() + self.ring_buffer.held().len() <= self.total_bytes_seen
        &&& (!self.complete ==> self.total_bytes_seen <= self.max_bytes)
        &&& (!self.complete <==> self.decision matches ScanDecision::Continue)
        &&& self.max_bytes + 3 <= usize::MAX
    }

    /// Build a scanner from the configuration's patterns, ring capacity and
    /// body ceiling.
    pub fn new(config: &FilterConfig) -> (r: StreamingBodyScanner)
        requires
            config.ring_buffer_size > 0,
            config.max_body_size + 3 <= usize::MAX,
        ensures
            r.wf(),
            !r.complete_spec(),
            r.total_seen() == 0,
            r.max_spec() == config.max_body_size,
            r.cap() == config.ring_buffer_size,
            r.pats() =~= views(config.blocked_patterns@).map_values(
                |s: Seq<char>| lower_bytes(utf8_of(s)),
            ),
            r.names() =~= views(config.blocked_patterns@),
            r.cursors() =~= Seq::new(config.blocked_patterns@.len(), |i: int| 0nat),
            r.held() == Seq::<u8>::empty(),
    {
        let rb = RingBuffer::from_strings(config.ring_buffer_size, config.blocked_patterns.as_slice());
        let r = StreamingBodyScanner {
            ring_buffer: rb,
            total_bytes_seen: 0,
            max_bytes: config.max_body_size,
            complete: false,
            decision: ScanDecision::Continue,
        };
        proof {
            crate::text::lemma_views_index(config.blocked_patterns@);
            assert(r.pats() =~= views(config.blocked_patterns@).map_values(
                |s: Seq<char>| lower_bytes(utf8_of(s)),
            )) by {
                assert forall|i: int| 0 <= i < config.blocked_patterns@.len() implies r.pats()[i]
                    == views(config.blocked_patterns@).map_values(
                    |s: Seq<char>| lower_bytes(utf8_of(s)),
                )[i] by {
                    assert(views(config.blocked_patterns@)[i] == config.blocked_patterns@[i]@);
                }
            }
            assert(r.names() =~= views(config.blocked_patterns@));
        }
        r
    }

    /// Build a scanner with explicit patterns, ring capacity and ceiling.
    pub fn with_patterns(patterns: Vec<String>, buffer_size: usize, max_bytes: usize) -> (r:
        StreamingBodyScanner)
        requires
            buffer_size > 0,
            max_bytes + 3 <= usize::MAX,
        ensures
            r.wf(),
            !r.complete_spec(),
            r.total_seen() == 0,
            r.max_spec() == max_bytes,
            r.cap() == buffer_size,
            r.pats() =~= views(patterns@).map_values(|s: Seq<char>| lower_bytes(utf8_of(s))),
            r.names() =~= views(patterns@),
            r.cursors() =~= Seq::new(patterns@.len(), |i: int| 0nat),
            r.held() == Seq::<u8>::empty(),
    {
        let rb = RingBuffer::from_strings(buffer_size, patterns.as_slice());
        let r = StreamingBodyScanner {
            ring_buffer: rb,
            total_bytes_seen: 0,
            max_bytes,
            complete: false,
            decision: ScanDecision::Continue,
        };
        proof {
            crate::text::lemma_views_index(patterns@);
            assert(r.pats() =~= views(patterns@).map_values(
                |s: Seq<char>| lower_bytes(utf8_of(s)),
            )) by {
                assert forall|i: int| 0 <= i < patterns@.len() implies r.pats()[i] == views(
                    patterns@,
                ).map_values(|s: Seq<char>| lower_bytes(utf8_of(s)))[i] by {
                    assert(views(patterns@)[i] == patterns@[i]@);
                }
            }
            assert(r.names() =~= views(patterns@));
        }
        r
    }

    /// Process a body chunk and return the decision so far.
    ///
    /// Once terminal, the stored decision is returned verbatim and the
    /// state does not change. Otherwise the chunk counts against the size
    /// ceiling — exceeding it ends the scan with `Skip` and the chunk is
    /// not inspected — and then streams through the ring store: a pattern
    /// match ends the scan with `Block`, the end of the stream with no
    /// match ends it with `Allow`, and anything else returns `Continue`.
    pub fn on_body_chunk(&mut self, chunk: &[u8], end_of_stream: bool) -> (r: ScanDecision)
        requires
            old(self).wf(),
        ensures
            final(self).wf(),
            final(self).max_spec() == old(self).max_spec(),
            final(self).cap() == old(self).cap(),
            final(self).pats() == old(self).pats(),
            final(self).names() == old(self).names(),
            old(self).complete_spec() ==> *final(self) == *old(self) && r == old(self).verdict(),
            !old(self).complete_spec() && old(self).total_seen() + chunk@.len() > old(
                self,
            ).max_spec() ==> {
                &&& final(self).complete_spec()
                &&& r matches ScanDecision::Skip(s) && s@ == "Body exceeds max size"@
                &&& final(self).verdict() == r
                &&& final(self).total_seen() == vstd::math::min(
                    old(self).total_seen() + chunk@.len() as int,
                    usize::MAX as int,
                )
                &&& final(self).cursors() == old(self).cursors()
                &&& final(self).held() == old(self).held()
            },
            !old(self).complete_spec() && old(self).total_seen() + chunk@.len() <= old(
                self,
            ).max_spec() ==> {
                let emit = step_emit(old(self).held(), chunk@);
                &&& final(self).total_seen() == old(self).total_seen() + chunk@.len()
                &&& final(self).held() == step_hold(old(self).held(), chunk@)
                &&& final(self).cursors() == cursors_after_scan(
                    old(self).pats(),
                    old(self).cursors(),
                    emit,
                )
                &&& match scan_find(old(self).pats(), old(self).cursors(), emit) {
                    Some(pk) => {
                        &&& final(self).complete_spec()
                        &&& r matches ScanDecision::Block(s) && s@ == spec_block_reason(
                            old(self).names()[pk.0],
                        )
                        &&& final(self).verdict() == r
                    },
                    None => if end_of_stream {
                        &&& final(self).complete_spec()
                        &&& r matches ScanDecision::Allow
                        &&& final(self).verdict() == r
                    } else {
                        &&& !final(self).complete_spec()
                        &&& r matches ScanDecision::Continue
                    },
                }
            },
    {
        if self.complete {
            return copy_decision(&self.decision);
        }
        // Size ceiling: an oversized body is skipped, not blocked.
        if chunk.len() > self.max_bytes - self.total_bytes_seen {
            if chunk.len() <= usize::MAX - self.total_bytes_seen {
                self.total_bytes_seen = self.total_bytes_seen + chunk.len();
            } else {
                self.total_bytes_seen = usize::MAX;
            }
            self.complete = true;
            self.decision = ScanDecision::Skip("Body exceeds max size");
            return ScanDecision::Skip("Body exceeds max size");
        }
        self.total_bytes_seen = self.total_bytes_seen + chunk.len();
        let ghost held0 = self.ring_buffer.held();
        let ghost ps = self.ring_buffer.pats();
        let ghost cs = self.ring_buffer.cursors();
        let scan_r = self.ring_buffer.process_chunk(chunk);
        proof {
            crate::streaming::pattern_fsm::lemma_scan_consumed_range(
                ps,
                cs,
                step_emit(held0, chunk@),
            );
            crate::streaming::utf8_buffer::lemma_step_sizes(held0, chunk@);
        }
        match scan_r {
            ScanResult::Match(m) => {
                self.complete = true;
                let mut reason = "Pattern '".to_owned();
                reason.append(m.pattern_name.as_str());
                reason.append("' detected");
                let verdict = ScanDecision::Block(reason);
                let stored = copy_decision(&verdict);
                self.decision = stored;
                verdict
            },
            ScanResult::Continue => {
                if end_of_stream {
                    self.complete = true;
                    self.decision = ScanDecision::Allow;
                    ScanDecision::Allow
                } else {
                    ScanDecision::Continue
                }
            },
        }
    }

    /// Whether a terminal decision has been reached.
    pub fn is_complete(&self) -> (r: bool)
        ensures
            r == self.complete_spec(),
    {
        self.complete
    }

    /// Cumulative bytes seen.
    pub fn total_bytes(&self) -> (r: usize)
        ensures
            r == self.total_seen(),
    {
        self.total_bytes_seen
    }

    /// Reset the scanner for reuse: counters to zero, cursors cleared, no
    /// decision.
    pub fn reset(&mut self)
        requires
            old(self).wf(),
        ensures
            final(self).wf(),
            final(self).max_spec() == old(self).max_spec(),
            final(self).cap() == old(self).cap(),
            final(self).pats() == old(self).pats(),
            final(self).names() == old(self).names(),
            !final(self).complete_spec(),
            final(self).total_seen() == 0,
            final(self).cursors() =~= Seq::new(old(self).pats().len(), |i: int| 0nat),
            final(self).held() == Seq::<u8>::empty(),
    {
        self.ring_buffer.reset();
        self.total_bytes_seen = 0;
        self.complete = false;
        self.decision = ScanDecision::Continue;
    }
}

} // verus!
