//! Fixed-capacity ring store feeding the pattern FSM.
//!
//! The store is allocated once and never grows: each incoming byte is
//! written at the cursor (overwriting what was there), the cursor advances
//! modulo the capacity, and the byte is fed to the pattern scanner. Memory
//! is therefore flat no matter how many bytes stream through. The stored
//! bytes are never re-read for matching; they only serve to reconstruct a
//! recent-bytes window for auditing.

use super::pattern_fsm::{
    cursors_after_scan, scan_consumed, scan_find, Pattern, PatternScanner, ScanResult,
};
use super::utf8_buffer::{hold_wf, step_emit, step_hold, step_main, step_prefix, Utf8Buffer};
use crate::text::{lower_bytes, utf8_of};
use vstd::prelude::*;

verus! {

/// Ring contents and cursor after writing `bytes` one by one at `wpos`,
/// wrapping modulo the buffer length.
pub open spec fn ring_write(buf: Seq<u8>, wpos: int, bytes: Seq<u8>) -> (Seq<u8>, int)
    decreases bytes.len(),
{
    if bytes.len() == 0 || buf.len() == 0 {
        (buf, wpos)
    } else {
        ring_write(
            buf.update(wpos, bytes[0]),
            (wpos + 1) % (buf.len() as int),
            bytes.subrange(1, bytes.len() as int),
        )
    }
}

/// Writing `u ++ v` is writing `u`, then writing `v` from where that left
/// off.
proof fn lemma_ring_write_concat(buf: Seq<u8>, wpos: int, u: Seq<u8>, v: Seq<u8>)
    ensures
        ring_write(buf, wpos, u + v) == ring_write(
            ring_write(buf, wpos, u).0,
            ring_write(buf, wpos, u).1,
            v,
        ),
    decreases u.len(),
{
    if u.len() == 0 {
        assert(u + v =~= v);
    } else if buf.len() == 0 {
        assert((u + v).subrange(1, (u + v).len() as int) =~= u.subrange(1, u.len() as int) + v);
        lemma_ring_write_concat(buf, wpos, u.subrange(1, u.len() as int), v);
    } else {
        assert((u + v)[0] == u[0]);
        assert((u + v).subrange(1, (u + v).len() as int) =~= u.subrange(1, u.len() as int) + v);
        lemma_ring_write_concat(
            buf.update(wpos, u[0]),
            (wpos + 1) % (buf.len() as int),
            u.subrange(1, u.len() as int),
            v,
        );
    }
}

/// Writing one more byte after `u` writes it at the cursor left by `u`.
proof fn lemma_ring_write_snoc(buf: Seq<u8>, wpos: int, u: Seq<u8>, b: u8)
    requires
        buf.len() > 0,
        0 <= wpos < buf.len(),
    ensures
        ring_write(buf, wpos, u.push(b)).0 == ring_write(buf, wpos, u).0.update(
            ring_write(buf, wpos, u).1,
            b,
        ),
        ring_write(buf, wpos, u.push(b)).1 == (ring_write(buf, wpos, u).1 + 1) % (
        buf.len() as int),
{
    assert(u.push(b) =~= u + seq![b]);
    lemma_ring_write_concat(buf, wpos, u, seq![b]);
    let (rb, rw) = ring_write(buf, wpos, u);
    lemma_ring_write_len(buf, wpos, u);
    assert(seq![b].subrange(1, 1) =~= Seq::<u8>::empty());
    assert(ring_write(rb.update(rw, b), (rw + 1) % (rb.len() as int), Seq::<u8>::empty())
        == (rb.update(rw, b), (rw + 1) % (rb.len() as int)));
}

/// Ring writes keep the buffer length and a cursor inside the buffer.
proof fn lemma_ring_write_len(buf: Seq<u8>, wpos: int, bytes: Seq<u8>)
    requires
        buf.len() > 0,
        0 <= wpos < buf.len(),
    ensures
        ring_write(buf, wpos, bytes).0.len() == buf.len(),
        0 <= ring_write(buf, wpos, bytes).1 < buf.len(),
    decreases bytes.len(),
{
    if bytes.len() > 0 {
        lemma_ring_write_len(
            buf.update(wpos, bytes[0]),
            (wpos + 1) % (buf.len() as int),
            bytes.subrange(1, bytes.len() as int),
        );
    }
}

/// The window of the `cnt` most recent bytes, oldest first: position `i` of
/// the window holds the byte written `cnt - i` writes ago.
pub open spec fn recent_window(buf: Seq<u8>, wpos: int, cnt: int) -> Seq<u8> {
    Seq::new(
        cnt as nat,
        |i: int|
            if wpos - cnt + i >= 0 {
                buf[wpos - cnt + i]
            } else {
                buf[wpos - cnt + i + buf.len()]
            },
    )
}

/// Memory-efficient ring buffer for streaming pattern detection.
pub struct RingBuffer {
    buffer: Vec<u8>,
    capacity: usize,
    write_pos: usize,
    total_written: usize,
    scanner: PatternScanner,
    utf8_handler: Utf8Buffer,
}

impl RingBuffer {
    /// The ring contents.
    pub closed spec fn ring(&self) -> Seq<u8> {
        self.buffer@
    }

    /// The fixed capacity.
    pub closed spec fn cap(&self) -> nat {
        self.capacity as nat
    }

    /// The write cursor.
    pub closed spec fn wpos(&self) -> int {
        self.write_pos as int
    }

    /// Total bytes written so far.
    pub closed spec fn total(&self) -> nat {
        self.total_written as nat
    }

    /// The patterns' byte sequences.
    pub closed spec fn pats(&self) -> Seq<Seq<u8>> {
        self.scanner.pats()
    }

    /// The patterns' names.
    pub closed spec fn names(&self) -> Seq<Seq<char>> {
        self.scanner.names()
    }

    /// The scanner's cursors.
    pub closed spec fn cursors(&self) -> Seq<nat> {
        self.scanner.cursors()
    }

    /// The buffered UTF-8 tail.
    pub closed spec fn held(&self) -> Seq<u8> {
        self.utf8_handler@
    }

    /// Structural invariant: a non-empty fixed-size store, a cursor inside
    /// it, a well-formed scanner fed one byte per write, and a well-formed
    /// boundary buffer.
    pub closed spec fn wf(&self) -> bool {
        &&& self.buffer@.len() == self.capacity
        &&& self.capacity > 0
        &&& self.write_pos < self.capacity
        &&& self.scanner.wf()
        &&& self.scanner.scanned() == self.total_written
        &&& hold_wf(self.utf8_handler@)
    }

    /// Create with fixed capacity; the store never grows afterwards.
    #[verifier::loop_isolation(false)]
    pub fn new(capacity: usize, patterns: Vec<Pattern>) -> (r: RingBuffer)
        requires
            capacity > 0,
        ensures
            r.wf(),
            r.cap() == capacity,
            r.ring() =~= Seq::new(capacity as nat, |i: int| 0u8),
            r.wpos() == 0,
            r.total() == 0,
            r.pats() == patterns@.map_values(|p: Pattern| p.bytes@),
            r.names() == patterns@.map_values(|p: Pattern| p.name@),
            r.cursors() =~= Seq::new(patterns@.len(), |i: int| 0nat),
            r.held() == Seq::<u8>::empty(),
    {
        let mut buffer: Vec<u8> = Vec::new();
        while buffer.len() < capacity
            invariant
                buffer@.len() <= capacity,
                forall|i: int| 0 <= i < buffer@.len() ==> buffer@[i] == 0u8,
            decreases capacity - buffer.len(),
        {
            buffer.push(0u8);
        }
        let r = RingBuffer {
            buffer,
            capacity,
            write_pos: 0,
            total_written: 0,
            scanner: PatternScanner::new(patterns),
            utf8_handler: Utf8Buffer::new(),
        };
        proof {
            assert(r.ring() =~= Seq::new(capacity as nat, |i: int| 0u8));
        }
        r
    }

    /// Create from string patterns.
    pub fn from_strings(capacity: usize, patterns: &[String]) -> (r: RingBuffer)
        requires
            capacity > 0,
        ensures
            r.wf(),
            r.cap() == capacity,
            r.wpos() == 0,
            r.total() == 0,
            r.pats() =~= patterns@.map_values(|s: String| lower_bytes(utf8_of(s@))),
            r.names() =~= patterns@.map_values(|s: String| s@),
            r.cursors() =~= Seq::new(patterns@.len(), |i: int| 0nat),
            r.held() == Seq::<u8>::empty(),
    {
        let mut ps: Vec<Pattern> = Vec::new();
        let mut i: usize = 0;
        while i < patterns.len()
            invariant
                i <= patterns@.len(),
                ps@.len() == i,
                forall|j: int|
                    0 <= j < i ==> ps@[j].name@ == patterns@[j]@ && ps@[j].bytes@ == lower_bytes(
                        utf8_of(patterns@[j]@),
                    ),
            decreases patterns.len() - i,
        {
            ps.push(Pattern::from_string(patterns[i].as_str()));
            i += 1;
        }
        let r = RingBuffer::new(capacity, ps);
        proof {
            assert(r.pats() =~= patterns@.map_values(|s: String| lower_bytes(utf8_of(s@))));
            assert(r.names() =~= patterns@.map_values(|s: String| s@));
        }
        r
    }

    /// Write bytes into the ring one by one, feeding each to the scanner,
    /// and stop at the first reported match.
    #[verifier::loop_isolation(false)]
    fn write_and_scan(&mut self, bytes: &[u8]) -> (r: ScanResult)
        requires
            old(self).wf(),
            old(self).total() + bytes@.len() <= usize::MAX,
        ensures
            final(self).wf(),
            final(self).cap() == old(self).cap(),
            final(self).pats() == old(self).pats(),
            final(self).names() == old(self).names(),
            final(self).held() == old(self).held(),
            final(self).cursors() == cursors_after_scan(
                old(self).pats(),
                old(self).cursors(),
                bytes@,
            ),
            final(self).total() == old(self).total() + scan_consumed(
                old(self).pats(),
                old(self).cursors(),
                bytes@,
            ),
            (final(self).ring(), final(self).wpos()) == ring_write(
                old(self).ring(),
                old(self).wpos(),
                bytes@.take(scan_consumed(old(self).pats(), old(self).cursors(), bytes@)),
            ),
            match scan_find(old(self).pats(), old(self).cursors(), bytes@) {
                Some(pk) => r matches ScanResult::Match(m) && m.pattern_index == pk.0
                    && m.position == old(self).total() + pk.1 + 1 && m.pattern_name@ == old(
                    self,
                ).names()[pk.0],
                None => r matches ScanResult::Continue,
            },
    {
        let ghost ps = self.pats();
        let ghost cs0 = self.cursors();
        let ghost buf0 = self.ring();
        let ghost w0 = self.wpos();
        proof {
            assert(bytes@.skip(0int) =~= bytes@);
            assert(bytes@.take(0int) =~= Seq::<u8>::empty());
        }
        let mut i: usize = 0;
        while i < bytes.len()
            invariant
                self.wf(),
                i <= bytes@.len(),
                self.cap() == old(self).cap(),
                self.pats() == ps,
                self.names() == old(self).names(),
                self.held() == old(self).held(),
                self.total() == old(self).total() + i,
                scan_find(ps, cs0, bytes@) == match scan_find(
                    ps,
                    self.cursors(),
                    bytes@.skip(i as int),
                ) {
                    Some(pk) => Some((pk.0, pk.1 + i as int)),
                    None => None::<(int, int)>,
                },
                cursors_after_scan(ps, cs0, bytes@) == cursors_after_scan(
                    ps,
                    self.cursors(),
                    bytes@.skip(i as int),
                ),
                (self.ring(), self.wpos()) == ring_write(buf0, w0, bytes@.take(i as int)),
            decreases bytes.len() - i,
        {
            let ghost cs_now = self.cursors();
            let ghost rest = bytes@.skip(i as int);
            let ghost ring_pre = self.ring();
            let ghost w_pre = self.wpos();
            proof {
                assert(rest.len() > 0 && rest[0] == bytes@[i as int]);
                assert(rest.subrange(1, rest.len() as int) =~= bytes@.skip(i as int + 1));
            }
            let byte = bytes[i];
            self.buffer.set(self.write_pos, byte);
            self.write_pos = (self.write_pos + 1) % self.capacity;
            self.total_written += 1;
            proof {
                lemma_ring_write_snoc(buf0, w0, bytes@.take(i as int), byte);
                assert(bytes@.take(i as int).push(byte) =~= bytes@.take(i as int + 1));
                assert((self.ring(), self.wpos()) == ring_write(buf0, w0, bytes@.take(i as int + 1)));
            }
            let r = self.scanner.scan_byte(byte);
            match r {
                ScanResult::Match(m) => {
                    proof {
                        let hi = super::pattern_fsm::first_hit(ps, cs_now, bytes@[i as int]);
                        assert(hi is Some);
                        assert(scan_find(ps, cs_now, rest) == Some((hi.unwrap(), 0int)));
                        assert(cursors_after_scan(ps, cs_now, rest)
                            == super::pattern_fsm::cursors_after_byte(
                            ps,
                            cs_now,
                            bytes@[i as int],
                        ));
                        assert(scan_find(ps, cs0, bytes@) == Some((hi.unwrap(), i as int)));
                        assert(scan_consumed(ps, cs0, bytes@) == i + 1);
                    }
                    return ScanResult::Match(m);
                },
                ScanResult::Continue => {
                    proof {
                        assert(super::pattern_fsm::first_hit(ps, cs_now, bytes@[i as int])
                            is None);
                        assert(self.cursors() == super::pattern_fsm::step_all(
                            ps,
                            cs_now,
                            bytes@[i as int],
                        ));
                        assert(scan_find(ps, cs_now, rest) == match scan_find(
                            ps,
                            self.cursors(),
                            bytes@.skip(i as int + 1),
                        ) {
                            Some(pk) => Some((pk.0, pk.1 + 1int)),
                            None => None::<(int, int)>,
                        });
                        assert(cursors_after_scan(ps, cs_now, rest) == cursors_after_scan(
                            ps,
                            self.cursors(),
                            bytes@.skip(i as int + 1),
                        ));
                    }
                },
            }
            i += 1;
        }
        proof {
            assert(bytes@.skip(i as int) =~= Seq::<u8>::empty());
            assert(bytes@.take(i as int) =~= bytes@);
        }
        ScanResult::Continue
    }

    /// Process one chunk: route it through the UTF-8 boundary buffer, then
    /// write and scan the completed prefix (if any) and the main content,
    /// stopping at the first match.
    #[verifier::loop_isolation(false)]
    pub fn process_chunk(&mut self, chunk: &[u8]) -> (r: ScanResult)
        requires
            old(self).wf(),
            old(self).total() + chunk@.len() + 3 <= usize::MAX,
        ensures
            final(self).wf(),
            final(self).cap() == old(self).cap(),
            final(self).pats() == old(self).pats(),
            final(self).names() == old(self).names(),
            final(self).held() == step_hold(old(self).held(), chunk@),
            final(self).cursors() == cursors_after_scan(
                old(self).pats(),
                old(self).cursors(),
                step_emit(old(self).held(), chunk@),
            ),
            final(self).total() == old(self).total() + scan_consumed(
                old(self).pats(),
                old(self).cursors(),
                step_emit(old(self).held(), chunk@),
            ),
            (final(self).ring(), final(self).wpos()) == ring_write(
                old(self).ring(),
                old(self).wpos(),
                step_emit(old(self).held(), chunk@).take(
                    scan_consumed(
                        old(self).pats(),
                        old(self).cursors(),
                        step_emit(old(self).held(), chunk@),
                    ),
                ),
            ),
            match scan_find(
                old(self).pats(),
                old(self).cursors(),
                step_emit(old(self).held(), chunk@),
            ) {
                Some(pk) => r matches ScanResult::Match(m) && m.pattern_index == pk.0
                    && m.position == old(self).total() + pk.1 + 1 && m.pattern_name@ == old(
                    self,
                ).names()[pk.0],
                None => r matches ScanResult::Continue,
            },
    {
        let ghost l0 = self.held();
        let ghost ps = self.pats();
        let ghost cs0 = self.cursors();
        let ghost emit = step_emit(l0, chunk@);
        proof {
            lemma_emit_len(l0, chunk@);
        }
        let processed = self.utf8_handler.process_chunk(chunk);
        let ghost pre = match step_prefix(l0, chunk@) {
            Some(p) => p,
            None => Seq::<u8>::empty(),
        };
        proof {
            assert(emit == pre + step_main(l0, chunk@));
        }
        let ghost buf0 = self.ring();
        let ghost w0 = self.wpos();
        match &processed.prefix {
            Some(prefix_vec) => {
                let pr = self.write_and_scan(prefix_vec.as_slice());
                proof {
                    super::pattern_fsm::lemma_scan_concat(ps, cs0, pre, step_main(l0, chunk@));
                }
                match pr {
                    ScanResult::Match(m) => {
                        proof {
                            let pk = scan_find(ps, cs0, pre).unwrap();
                            assert(scan_find(ps, cs0, emit) == Some(pk));
                            assert(cursors_after_scan(ps, cs0, emit) == cursors_after_scan(
                                ps,
                                cs0,
                                pre,
                            ));
                            assert(scan_consumed(ps, cs0, emit) == scan_consumed(ps, cs0, pre));
                            super::pattern_fsm::lemma_scan_consumed_range(ps, cs0, pre);
                            assert(emit.take(scan_consumed(ps, cs0, emit)) =~= pre.take(
                                scan_consumed(ps, cs0, pre),
                            ));
                        }
                        return ScanResult::Match(m);
                    },
                    ScanResult::Continue => {
                        proof {
                            assert(scan_find(ps, cs0, pre) is None);
                            assert(scan_consumed(ps, cs0, pre) == pre.len());
                            assert(pre.take(pre.len() as int) =~= pre);
                        }
                    },
                }
                let ghost cs1 = self.cursors();
                let ghost buf1 = self.ring();
                let ghost w1 = self.wpos();
                let r2 = self.write_and_scan(processed.main);
                proof {
                    assert(cs1 == cursors_after_scan(ps, cs0, pre));
                    lemma_scan_shift_total(ps, cs0, pre, step_main(l0, chunk@));
                    let main = step_main(l0, chunk@);
                    let c2 = scan_consumed(ps, cs1, main);
                    super::pattern_fsm::lemma_scan_consumed_range(ps, cs1, main);
                    assert((buf1, w1) == ring_write(buf0, w0, pre));
                    lemma_ring_write_concat(buf0, w0, pre, main.take(c2));
                    assert(emit.take(scan_consumed(ps, cs0, emit)) =~= pre + main.take(c2));
                }
                r2
            },
            None => {
                proof {
                    assert(pre =~= Seq::<u8>::empty());
                    assert(emit =~= step_main(l0, chunk@));
                    assert(emit.take(scan_consumed(ps, cs0, emit)) =~= step_main(
                        l0,
                        chunk@,
                    ).take(scan_consumed(ps, cs0, step_main(l0, chunk@))));
                }
                self.write_and_scan(processed.main)
            },
        }
    }

    /// Total bytes processed.
    pub fn total_written(&self) -> (r: usize)
        ensures
            r == self.total(),
    {
        self.total_written
    }

    /// Bytes fed to the pattern scanner.
    pub fn bytes_scanned(&self) -> (r: usize)
        requires
            self.wf(),
        ensures
            r == self.total(),
    {
        self.scanner.bytes_scanned()
    }

    /// Reset the cursor, the counters, the scanner and the boundary buffer;
    /// the stored bytes are left to be overwritten.
    pub fn reset(&mut self)
        requires
            old(self).wf(),
        ensures
            final(self).wf(),
            final(self).cap() == old(self).cap(),
            final(self).pats() == old(self).pats(),
            final(self).names() == old(self).names(),
            final(self).ring() == old(self).ring(),
            final(self).wpos() == 0,
            final(self).total() == 0,
            final(self).cursors() =~= Seq::new(old(self).pats().len(), |i: int| 0nat),
            final(self).held() == Seq::<u8>::empty(),
    {
        self.write_pos = 0;
        self.total_written = 0;
        self.scanner.reset();
        self.utf8_handler.reset();
    }

    /// The fixed capacity.
    pub fn capacity(&self) -> (r: usize)
        ensures
            r == self.cap(),
    {
        self.capacity
    }

    /// Number of patterns being scanned.
    pub fn pattern_count(&self) -> (r: usize)
        ensures
            r == self.pats().len(),
    {
        self.scanner.pattern_count()
    }

    /// The most recent bytes written, oldest first: up to `count`, bounded
    /// by the capacity and by what has been written at all.
    #[verifier::loop_isolation(false)]
    pub fn recent_bytes(&self, count: usize) -> (r: Vec<u8>)
        requires
            self.wf(),
        ensures
            r@ == recent_window(
                self.ring(),
                self.wpos(),
                vstd::math::min(
                    vstd::math::min(count as int, self.cap() as int),
                    self.total() as int,
                ),
            ),
    {
        let mut cnt: usize = count;
        if self.capacity < cnt {
            cnt = self.capacity;
        }
        if self.total_written < cnt {
            cnt = self.total_written;
        }
        let mut out: Vec<u8> = Vec::new();
        let mut i: usize = 0;
        while i < cnt
            invariant
                i <= cnt,
                cnt <= self.capacity,
                out@.len() == i,
                forall|j: int|
                    0 <= j < i ==> out@[j] == recent_window(
                        self.ring(),
                        self.wpos(),
                        cnt as int,
                    )[j],
            decreases cnt - i,
        {
            let back = cnt - i;
            let pos = if self.write_pos >= back {
                self.write_pos - back
            } else {
                self.capacity - (back - self.write_pos)
            };
            out.push(self.buffer[pos]);
            i += 1;
        }
        proof {
            assert(out@ =~= recent_window(self.ring(), self.wpos(), cnt as int));
        }
        out
    }
}

/// What the boundary buffer emits for one chunk never exceeds what it held
/// plus the chunk itself.
proof fn lemma_emit_len(l: Seq<u8>, c: Seq<u8>)
    ensures
        step_emit(l, c).len() <= l.len() + c.len(),
{
    super::utf8_buffer::lemma_cont_run_bounds(c);
    let start = super::utf8_buffer::step_start(l, c);
    let rem = super::utf8_buffer::step_rem(l, c);
    assert(0 <= start <= c.len());
    assert(rem.len() == c.len() - start);
    super::utf8_buffer::lemma_last_lead_tail(
        rem,
        super::utf8_buffer::boundary_lo(rem),
        rem.len() as int,
    );
    assert(step_main(l, c).len() <= rem.len());
    match step_prefix(l, c) {
        Some(p) => {
            assert(p.len() == l.len() + start);
        },
        None => {},
    }
}

/// Scanning `u ++ v` with no match in `u` gives the same verdict as
/// scanning `v` from the cursors left by `u`, with offsets shifted.
proof fn lemma_scan_shift_total(ps: Seq<Seq<u8>>, cs: Seq<nat>, u: Seq<u8>, v: Seq<u8>)
    requires
        scan_find(ps, cs, u) is None,
    ensures
        cursors_after_scan(ps, cs, u + v) == cursors_after_scan(
            ps,
            cursors_after_scan(ps, cs, u),
            v,
        ),
        scan_find(ps, cs, u + v) == match scan_find(ps, cursors_after_scan(ps, cs, u), v) {
            Some(pk) => Some((pk.0, pk.1 + u.len() as int)),
            None => None::<(int, int)>,
        },
        scan_consumed(ps, cs, u + v) == u.len() + scan_consumed(
            ps,
            cursors_after_scan(ps, cs, u),
            v,
        ),
{
    super::pattern_fsm::lemma_scan_concat(ps, cs, u, v);
}


/// Law: detection is chunk-invariant. For any well-formed byte stream and
/// any split of it into two chunks — including splits inside a pattern or
/// inside a multi-byte character — feeding the two chunks through the
/// scanner pipeline reports exactly the match that feeding the whole
/// stream in one chunk reports: same pattern, same position, and the same
/// verdict when there is no match.
pub proof fn lemma_detection_chunk_invariant(
    ps: Seq<Seq<u8>>,
    cs: Seq<nat>,
    u: Seq<u8>,
    v: Seq<u8>,
)
    requires
        vstd::utf8::valid_utf8(u + v),
    ensures
        ({
            let e1 = step_emit(Seq::empty(), u);
            let h1 = step_hold(Seq::empty(), u);
            let e2 = step_emit(h1, v);
            let whole = step_emit(Seq::empty(), u + v);
            &&& whole == u + v
            &&& e1 + e2 == u + v
            &&& scan_find(ps, cs, whole) == match scan_find(ps, cs, e1) {
                Some(pk) => Some(pk),
                None => match scan_find(ps, cursors_after_scan(ps, cs, e1), e2) {
                    Some(pk) => Some((pk.0, pk.1 + e1.len() as int)),
                    None => None::<(int, int)>,
                },
            }
        }),
{
    let s = u + v;
    super::utf8_buffer::lemma_two_chunk_emission(u, v);
    super::utf8_buffer::lemma_valid_hold_none(s);
    assert(!super::utf8_buffer::can_complete(Seq::empty(), s));
    assert(super::utf8_buffer::step_start(Seq::empty(), s) == 0);
    assert(super::utf8_buffer::step_rem(Seq::empty(), s) =~= s);
    assert(step_main(Seq::empty(), s) =~= s);
    assert(step_emit(Seq::empty(), s) =~= s);
    let e1 = step_emit(Seq::empty(), u);
    let e2 = step_emit(step_hold(Seq::empty(), u), v);
    super::pattern_fsm::lemma_scan_concat(ps, cs, e1, e2);
    assert(e1 + e2 == s);
}


/// The bytes of a chunk list, in order.
pub open spec fn concat_chunks(chunks: Seq<Seq<u8>>) -> Seq<u8>
    decreases chunks.len(),
{
    if chunks.len() == 0 {
        Seq::empty()
    } else {
        chunks[0] + concat_chunks(chunks.subrange(1, chunks.len() as int))
    }
}

/// The first match reported when a list of chunks streams through the
/// boundary buffer and the scanner, one chunk per call: the pattern index
/// and the match's offset in the emitted byte stream.
pub open spec fn feed_chunks(
    ps: Seq<Seq<u8>>,
    cs: Seq<nat>,
    hold: Seq<u8>,
    chunks: Seq<Seq<u8>>,
) -> Option<(int, int)>
    decreases chunks.len(),
{
    if chunks.len() == 0 {
        None
    } else {
        let e = step_emit(hold, chunks[0]);
        match scan_find(ps, cs, e) {
            Some(pk) => Some(pk),
            None => match feed_chunks(
                ps,
                cursors_after_scan(ps, cs, e),
                step_hold(hold, chunks[0]),
                chunks.subrange(1, chunks.len() as int),
            ) {
                Some(pk) => Some((pk.0, pk.1 + e.len() as int)),
                None => None::<(int, int)>,
            },
        }
    }
}

/// Law: detection is invariant under any partition of the stream into
/// chunks cut at character boundaries — in particular under every
/// partition that splits a pattern. When each chunk is itself well-formed
/// UTF-8, feeding the chunks one call at a time reports exactly the match
/// that feeding their concatenation in one chunk reports.
pub proof fn lemma_partition_invariant(ps: Seq<Seq<u8>>, cs: Seq<nat>, chunks: Seq<Seq<u8>>)
    requires
        forall|i: int| 0 <= i < chunks.len() ==> vstd::utf8::valid_utf8(#[trigger] chunks[i]),
    ensures
        feed_chunks(ps, cs, Seq::empty(), chunks) == scan_find(ps, cs, concat_chunks(chunks)),
    decreases chunks.len(),
{
    if chunks.len() == 0 {
    } else {
        let c0 = chunks[0];
        let rest = chunks.subrange(1, chunks.len() as int);
        super::utf8_buffer::lemma_valid_hold_none(c0);
        assert(!super::utf8_buffer::can_complete(Seq::empty(), c0));
        assert(super::utf8_buffer::step_start(Seq::empty(), c0) == 0);
        assert(super::utf8_buffer::step_rem(Seq::empty(), c0) =~= c0);
        assert(step_main(Seq::empty(), c0) =~= c0);
        assert(step_emit(Seq::empty(), c0) =~= c0);
        assert(step_hold(Seq::empty(), c0) =~= Seq::<u8>::empty());
        lemma_partition_invariant(ps, cursors_after_scan(ps, cs, c0), rest);
        super::pattern_fsm::lemma_scan_concat(ps, cs, c0, concat_chunks(rest));
    }
}

/// Result of scanning with surrounding context attached.
#[derive(Debug)]
pub struct ScanResultWithContext {
    /// The scan verdict.
    pub result: ScanResult,
    /// Total bytes processed when the verdict was reached.
    pub total_bytes: usize,
    /// A window of recent bytes, if one was captured.
    pub context: Option<Vec<u8>>,
}

} // verus!
