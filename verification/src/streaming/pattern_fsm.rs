//! Multi-pattern literal matcher with one cursor per pattern.
//!
//! Each pattern keeps a single cursor counting how many of its prefix bytes
//! the stream has matched so far. A byte either advances the cursor, restarts
//! it at 1 when it equals the pattern's first byte, or resets it to 0. The
//! step is O(1) per pattern per byte and uses no memory beyond the cursors,
//! so a scanner's footprint is independent of how many bytes it has seen.
//!
//! Matching is ASCII-case-insensitive: input bytes are folded with
//! [`crate::text::lower_byte`] before comparison, and pattern bytes are
//! stored pre-folded.

use crate::text::{lower_byte, lower_bytes, matches_at, utf8_of};
use crate::text::lower_vec;
use vstd::prelude::*;

verus! {

/// One cursor step: the next cursor value after reading byte `b` with the
/// cursor at `c` against pattern bytes `p`.
pub open spec fn step_cursor(p: Seq<u8>, c: nat, b: u8) -> nat {
    let bl = lower_byte(b);
    if c < p.len() && p[c as int] == bl {
        (c + 1) as nat
    } else if c > 0 {
        if p.len() > 0 && p[0] == bl {
            1nat
        } else {
            0nat
        }
    } else {
        0nat
    }
}

/// A cursor never leaves its pattern: from any position within the
/// pattern, one step lands within it again.
pub proof fn lemma_cursor_in_range(p: Seq<u8>, c: nat, b: u8)
    requires
        c <= p.len(),
    ensures
        step_cursor(p, c, b) <= p.len(),
{
}

/// Whether reading `b` with the cursor at `c` completes pattern `p`.
pub open spec fn cursor_hits(p: Seq<u8>, c: nat, b: u8) -> bool {
    step_cursor(p, c, b) >= p.len()
}

/// All cursors stepped by one byte, with no early stop.
pub open spec fn step_all(ps: Seq<Seq<u8>>, cs: Seq<nat>, b: u8) -> Seq<nat> {
    Seq::new(cs.len(), |i: int| step_cursor(ps[i], cs[i], b))
}

/// Index of the first pattern, from `i` upward, completed by byte `b`.
pub open spec fn first_hit_from(ps: Seq<Seq<u8>>, cs: Seq<nat>, b: u8, i: int) -> Option<int>
    decreases ps.len() - i,
{
    if i < 0 || i >= ps.len() {
        None
    } else if cursor_hits(ps[i], cs[i], b) {
        Some(i)
    } else {
        first_hit_from(ps, cs, b, i + 1)
    }
}

/// Index of the first pattern completed by byte `b`, if any.
pub open spec fn first_hit(ps: Seq<Seq<u8>>, cs: Seq<nat>, b: u8) -> Option<int> {
    first_hit_from(ps, cs, b, 0)
}

/// Cursor values after one byte, honouring the scanner's early stop: when
/// pattern `i` is the first completed, patterns before `i` have been stepped,
/// pattern `i` is reset to 0, and patterns after `i` are left untouched.
pub open spec fn cursors_after_byte(ps: Seq<Seq<u8>>, cs: Seq<nat>, b: u8) -> Seq<nat> {
    match first_hit(ps, cs, b) {
        None => step_all(ps, cs, b),
        Some(i) => Seq::new(
            cs.len(),
            |j: int|
                if j < i {
                    step_cursor(ps[j], cs[j], b)
                } else if j == i {
                    0nat
                } else {
                    cs[j]
                },
        ),
    }
}

/// First match while scanning `input` byte by byte from cursor state `cs`:
/// `Some((pattern index, offset of the matching byte within input))`.
pub open spec fn scan_find(ps: Seq<Seq<u8>>, cs: Seq<nat>, input: Seq<u8>) -> Option<(int, int)>
    decreases input.len(),
{
    if input.len() == 0 {
        None
    } else {
        match first_hit(ps, cs, input[0]) {
            Some(i) => Some((i, 0)),
            None => match scan_find(
                ps,
                step_all(ps, cs, input[0]),
                input.subrange(1, input.len() as int),
            ) {
                Some(pk) => Some((pk.0, pk.1 + 1)),
                None => None,
            },
        }
    }
}

/// Cursor values after scanning `input`, stopping at the first match.
pub open spec fn cursors_after_scan(ps: Seq<Seq<u8>>, cs: Seq<nat>, input: Seq<u8>) -> Seq<nat>
    decreases input.len(),
{
    if input.len() == 0 {
        cs
    } else {
        match first_hit(ps, cs, input[0]) {
            Some(_) => cursors_after_byte(ps, cs, input[0]),
            None => cursors_after_scan(
                ps,
                step_all(ps, cs, input[0]),
                input.subrange(1, input.len() as int),
            ),
        }
    }
}

/// Number of bytes of `input` the scanner consumes: everything, or up to and
/// including the first matching byte.
pub open spec fn scan_consumed(ps: Seq<Seq<u8>>, cs: Seq<nat>, input: Seq<u8>) -> int {
    match scan_find(ps, cs, input) {
        Some(pk) => pk.1 + 1,
        None => input.len() as int,
    }
}

/// A scan consumes at least one byte on a match and never more than the
/// input.
pub proof fn lemma_scan_consumed_range(ps: Seq<Seq<u8>>, cs: Seq<nat>, input: Seq<u8>)
    ensures
        0 <= scan_consumed(ps, cs, input) <= input.len(),
    decreases input.len(),
{
    if input.len() > 0 {
        match first_hit(ps, cs, input[0]) {
            Some(_) => {},
            None => {
                lemma_scan_consumed_range(
                    ps,
                    step_all(ps, cs, input[0]),
                    input.subrange(1, input.len() as int),
                );
            },
        }
    }
}


/// The cursors all start at zero.
pub open spec fn zero_cursors(n: nat) -> Seq<nat> {
    Seq::new(n, |i: int| 0nat)
}

/// A cursor value is justified by the stream scanned so far: the last
/// `c` bytes of the stream, case-folded, are the pattern's first `c`
/// bytes.
pub open spec fn cursor_sound(p: Seq<u8>, c: nat, stream: Seq<u8>) -> bool {
    c <= p.len() && c <= stream.len() && lower_bytes(
        stream.subrange(stream.len() - c, stream.len() as int),
    ) == p.subrange(0, c as int)
}

/// One step preserves cursor justification.
proof fn lemma_step_cursor_sound(p: Seq<u8>, c: nat, stream: Seq<u8>, b: u8)
    requires
        cursor_sound(p, c, stream),
    ensures
        cursor_sound(p, step_cursor(p, c, b), stream.push(b)),
{
    let s2 = stream.push(b);
    let c2 = step_cursor(p, c, b);
    crate::text::lemma_lower_bytes_index(stream.subrange(stream.len() - c, stream.len() as int));
    crate::text::lemma_lower_bytes_index(s2.subrange(s2.len() - c2, s2.len() as int));
    if c < p.len() && p[c as int] == lower_byte(b) {
        assert(lower_bytes(s2.subrange(s2.len() - c2, s2.len() as int)) =~= p.subrange(
            0,
            c2 as int,
        )) by {
            crate::text::lemma_lower_bytes_index(s2.subrange(s2.len() - c2, s2.len() as int));
            assert forall|k: int|
                0 <= k < c2 implies lower_bytes(
                s2.subrange(s2.len() - c2, s2.len() as int),
            )[k] == p[k] by {
                assert(lower_bytes(s2.subrange(s2.len() - c2, s2.len() as int))[k] == lower_byte(
                    s2.subrange(s2.len() - c2, s2.len() as int)[k],
                ));
                if k < c2 - 1 {
                    assert(s2.subrange(s2.len() - c2, s2.len() as int)[k] == stream.subrange(
                        stream.len() - c,
                        stream.len() as int,
                    )[k]);
                    assert(lower_bytes(
                        stream.subrange(stream.len() - c, stream.len() as int),
                    )[k] == p.subrange(0, c as int)[k]);
                } else {
                    assert(s2.subrange(s2.len() - c2, s2.len() as int)[k] == b);
                }
            }
        }
    } else if c > 0 && p.len() > 0 && p[0] == lower_byte(b) {
        assert(lower_bytes(s2.subrange(s2.len() - 1, s2.len() as int)) =~= p.subrange(0, 1)) by {
            crate::text::lemma_lower_bytes_index(s2.subrange(s2.len() - 1, s2.len() as int));
            assert(s2.subrange(s2.len() - 1, s2.len() as int)[0] == b);
        }
    } else {
        assert(s2.subrange(s2.len() - 0, s2.len() as int) =~= Seq::<u8>::empty());
        assert(lower_bytes(Seq::<u8>::empty()) =~= Seq::<u8>::empty());
        assert(p.subrange(0, 0) =~= Seq::<u8>::empty());
    }
}

/// A reported match over justified cursors is an occurrence: the
/// pattern's bytes sit, case-folded, at the end of the scanned stream.
proof fn lemma_scan_find_sound(ps: Seq<Seq<u8>>, cs: Seq<nat>, hist: Seq<u8>, input: Seq<u8>)
    requires
        cs.len() == ps.len(),
        forall|j: int| 0 <= j < ps.len() ==> cursor_sound(ps[j], cs[j], hist),
    ensures
        match scan_find(ps, cs, input) {
            Some(pk) => 0 <= pk.0 < ps.len() && 0 <= pk.1 < input.len() && (ps[pk.0].len() > 0
                ==> matches_at(
                lower_bytes(hist + input.take(pk.1 + 1)),
                ps[pk.0],
                hist.len() + pk.1 + 1 - ps[pk.0].len(),
            )),
            None => true,
        },
    decreases input.len(),
{
    if input.len() == 0 {
    } else {
        let b = input[0];
        let h2 = hist.push(b);
        match first_hit(ps, cs, b) {
            Some(i) => {
                lemma_first_hit_range(ps, cs, b, 0);
                lemma_step_cursor_sound(ps[i], cs[i], hist, b);
                if ps[i].len() > 0 {
                    assert(step_cursor(ps[i], cs[i], b) == ps[i].len());
                    assert(cursor_sound(ps[i], ps[i].len(), h2));
                    assert(hist + input.take(1) =~= h2);
                    let pos = h2.len() - ps[i].len();
                    crate::text::lemma_lower_bytes_index(h2);
                    crate::text::lemma_lower_bytes_index(
                        h2.subrange(pos, h2.len() as int),
                    );
                    assert(lower_bytes(h2).subrange(pos, h2.len() as int) =~= lower_bytes(
                        h2.subrange(pos, h2.len() as int),
                    )) by {
                        assert forall|k: int| 0 <= k < h2.len() - pos implies lower_bytes(
                            h2,
                        ).subrange(pos, h2.len() as int)[k] == lower_bytes(
                            h2.subrange(pos, h2.len() as int),
                        )[k] by {
                            assert(lower_bytes(h2)[pos + k] == lower_byte(h2[pos + k]));
                            assert(lower_bytes(h2.subrange(pos, h2.len() as int))[k]
                                == lower_byte(h2.subrange(pos, h2.len() as int)[k]));
                        }
                    }
                    assert(ps[i].subrange(0, ps[i].len() as int) =~= ps[i]);
                    assert(matches_at(lower_bytes(h2), ps[i], pos));
                }
            },
            None => {
                assert forall|j: int| 0 <= j < ps.len() implies cursor_sound(
                    ps[j],
                    step_all(ps, cs, b)[j],
                    h2,
                ) by {
                    lemma_step_cursor_sound(ps[j], cs[j], hist, b);
                }
                let tail = input.subrange(1, input.len() as int);
                lemma_scan_find_sound(ps, step_all(ps, cs, b), h2, tail);
                match scan_find(ps, step_all(ps, cs, b), tail) {
                    Some(pk) => {
                        assert(h2 + tail.take(pk.1 + 1) =~= hist + input.take(pk.1 + 2));
                    },
                    None => {},
                }
            },
        }
    }
}

/// A hit index is a pattern index.
proof fn lemma_first_hit_range(ps: Seq<Seq<u8>>, cs: Seq<nat>, b: u8, i: int)
    requires
        0 <= i,
    ensures
        match first_hit_from(ps, cs, b, i) {
            Some(j) => i <= j < ps.len() && cursor_hits(ps[j], cs[j], b),
            None => true,
        },
    decreases ps.len() - i,
{
    if i < ps.len() && !cursor_hits(ps[i], cs[i], b) {
        lemma_first_hit_range(ps, cs, b, i + 1);
    }
}

/// Law (soundness of reporting): a match the scanner reports from fresh
/// cursors is a real occurrence — the matched pattern's bytes occur in
/// the input, case-folded, ending exactly at the reported offset. The
/// matcher is the degenerate single-byte restart of KMP, so the converse
/// is deliberately not stated: a self-overlapping pattern can be passed
/// over (the pattern whose folded bytes are `aab` is not reported inside
/// `aaab`).
pub proof fn lemma_match_is_occurrence(ps: Seq<Seq<u8>>, input: Seq<u8>, pk: (int, int))
    requires
        scan_find(ps, zero_cursors(ps.len()), input) == Some(pk),
        0 <= pk.0 < ps.len(),
        ps[pk.0].len() > 0,
    ensures
        0 <= pk.1 < input.len(),
        pk.1 + 1 >= ps[pk.0].len(),
        matches_at(lower_bytes(input), ps[pk.0], pk.1 + 1 - ps[pk.0].len()),
{
    let cs = zero_cursors(ps.len());
    assert forall|j: int| 0 <= j < ps.len() implies cursor_sound(
        ps[j],
        cs[j],
        Seq::<u8>::empty(),
    ) by {
        assert(Seq::<u8>::empty().subrange(0, 0) =~= Seq::<u8>::empty());
        assert(lower_bytes(Seq::<u8>::empty()) =~= Seq::<u8>::empty());
        assert(ps[j].subrange(0, 0) =~= Seq::<u8>::empty());
    }
    lemma_scan_find_sound(ps, cs, Seq::<u8>::empty(), input);
    let taken = input.take(pk.1 + 1);
    assert(Seq::<u8>::empty() + taken =~= taken);
    crate::text::lemma_lower_bytes_index(input);
    crate::text::lemma_lower_bytes_index(taken);
    let pos = pk.1 + 1 - ps[pk.0].len();
    assert(matches_at(lower_bytes(taken), ps[pk.0], pos));
    assert(lower_bytes(input).subrange(pos, pos + ps[pk.0].len() as int) =~= lower_bytes(
        taken,
    ).subrange(pos, pos + ps[pk.0].len() as int)) by {
        assert forall|k: int| 0 <= k < ps[pk.0].len() implies #[trigger] lower_bytes(
            input,
        )[pos + k] == lower_bytes(taken)[pos + k] by {
            assert(taken[pos + k] == input[pos + k]);
        }
    }
    assert(matches_at(lower_bytes(input), ps[pk.0], pos));
}

/// Chunk boundaries are invisible to the scanner: scanning `u ++ v` finds a
/// match exactly where scanning `u` and then `v` in two calls does, with the
/// offset of a match in `v` shifted by `u`'s length, and leaves the cursors
/// in the same state.
pub proof fn lemma_scan_concat(ps: Seq<Seq<u8>>, cs: Seq<nat>, u: Seq<u8>, v: Seq<u8>)
    ensures
        scan_find(ps, cs, u + v) == match scan_find(ps, cs, u) {
            Some(pk) => Some(pk),
            None => match scan_find(ps, cursors_after_scan(ps, cs, u), v) {
                Some(pk) => Some((pk.0, pk.1 + u.len() as int)),
                None => None::<(int, int)>,
            },
        },
        cursors_after_scan(ps, cs, u + v) == if scan_find(ps, cs, u) is Some {
            cursors_after_scan(ps, cs, u)
        } else {
            cursors_after_scan(ps, cursors_after_scan(ps, cs, u), v)
        },
    decreases u.len(),
{
    if u.len() == 0 {
        assert(u + v =~= v);
    } else {
        let b = u[0];
        assert((u + v)[0] == b);
        assert((u + v).subrange(1, (u + v).len() as int) =~= u.subrange(1, u.len() as int) + v);
        match first_hit(ps, cs, b) {
            Some(_) => {},
            None => {
                lemma_scan_concat(ps, step_all(ps, cs, b), u.subrange(1, u.len() as int), v);
            },
        }
    }
}

/// A literal pattern: its name as given, and its bytes pre-folded to ASCII
/// lowercase for case-insensitive matching.
#[derive(Clone, Debug)]
pub struct Pattern {
    /// Pattern name, kept as given (for reporting).
    pub name: String,
    /// Pattern bytes, ASCII-lowercase-folded.
    pub bytes: Vec<u8>,
}

impl Pattern {
    /// Build a pattern whose name and bytes both come from `s`.
    pub fn from_string(s: &str) -> (r: Pattern)
        ensures
            r.name@ == s@,
            r.bytes@ == lower_bytes(utf8_of(s@)),
    {
        Pattern { name: s.to_owned(), bytes: lower_vec(s.as_bytes()) }
    }

    /// Build a pattern with a separate display name.
    pub fn new(name: &str, pattern: &str) -> (r: Pattern)
        ensures
            r.name@ == name@,
            r.bytes@ == lower_bytes(utf8_of(pattern@)),
    {
        Pattern { name: name.to_owned(), bytes: lower_vec(pattern.as_bytes()) }
    }
}

/// Match progress of one pattern: how many prefix bytes are matched.
#[derive(Clone, Copy, Debug)]
pub struct PatternState {
    position: usize,
}

impl View for PatternState {
    type V = nat;

    closed spec fn view(&self) -> nat {
        self.position as nat
    }
}

impl PatternState {
    /// A fresh cursor at position 0.
    pub fn new() -> (r: PatternState)
        ensures
            r@ == 0nat,
    {
        PatternState { position: 0 }
    }

    /// Advance the cursor by one byte of input.
    pub fn advance(&mut self, byte: u8, pattern: &Pattern)
        ensures
            final(self)@ == step_cursor(pattern.bytes@, old(self)@, byte),
    {
        let byte_lower = crate::text::lower_u8(byte);
        if self.position < pattern.bytes.len() && pattern.bytes[self.position] == byte_lower {
            self.position += 1;
        } else if self.position > 0 {
            if pattern.bytes.len() > 0 && pattern.bytes[0] == byte_lower {
                self.position = 1;
            } else {
                self.position = 0;
            }
        }
    }

    /// Whether the whole pattern has been matched.
    pub fn is_match(&self, pattern: &Pattern) -> (r: bool)
        ensures
            r == (self@ >= pattern.bytes@.len()),
    {
        self.position >= pattern.bytes.len()
    }

    /// Reset the cursor to 0.
    pub fn reset(&mut self)
        ensures
            final(self)@ == 0nat,
    {
        self.position = 0;
    }
}

impl Default for PatternState {
    fn default() -> (r: PatternState)
        ensures
            r@ == 0nat,
    {
        PatternState { position: 0 }
    }
}

/// Result of scanning: either nothing yet, or the first match found.
#[derive(Clone, Debug)]
pub enum ScanResult {
    /// No pattern completed; keep feeding bytes.
    Continue,
    /// A pattern completed at some byte.
    Match(PatternMatch),
}

/// Details of a completed pattern.
#[derive(Clone, Debug)]
pub struct PatternMatch {
    /// Index of the matched pattern in the scanner's pattern list.
    pub pattern_index: usize,
    /// Number of bytes the scanner had seen when the match completed.
    pub position: usize,
    /// Name of the matched pattern.
    pub pattern_name: String,
}

/// Multi-pattern scanner: one cursor per pattern plus a byte counter.
pub struct PatternScanner {
    patterns: Vec<Pattern>,
    states: Vec<PatternState>,
    bytes_scanned: usize,
}

impl PatternScanner {
    /// The patterns' byte sequences, in order.
    pub closed spec fn pats(&self) -> Seq<Seq<u8>> {
        self.patterns@.map_values(|p: Pattern| p.bytes@)
    }

    /// The patterns' names, in order.
    pub closed spec fn names(&self) -> Seq<Seq<char>> {
        self.patterns@.map_values(|p: Pattern| p.name@)
    }

    /// The cursor values, in order.
    pub closed spec fn cursors(&self) -> Seq<nat> {
        self.states@.map_values(|s: PatternState| s@)
    }

    /// Total bytes scanned so far.
    pub closed spec fn scanned(&self) -> nat {
        self.bytes_scanned as nat
    }

    /// One cursor per pattern.
    pub closed spec fn wf(&self) -> bool {
        self.states@.len() == self.patterns@.len()
    }

    /// Pointwise reading of the view functions in terms of the fields.
    proof fn lemma_view_index(s: PatternScanner)
        ensures
            s.cursors().len() == s.states@.len(),
            s.pats().len() == s.patterns@.len(),
            s.names().len() == s.patterns@.len(),
            forall|j: int|
                0 <= j < s.states@.len() ==> #[trigger] s.cursors()[j] == s.states@[j]@,
            forall|j: int|
                0 <= j < s.patterns@.len() ==> #[trigger] s.pats()[j] == s.patterns@[j].bytes@,
            forall|j: int|
                0 <= j < s.patterns@.len() ==> #[trigger] s.names()[j] == s.patterns@[j].name@,
    {
        assert forall|j: int|
            0 <= j < s.states@.len() implies #[trigger] s.cursors()[j] == s.states@[j]@ by {
            assert(s.cursors()[j] == s.states@.map_values(|t: PatternState| t@)[j]);
        }
        assert forall|j: int|
            0 <= j < s.patterns@.len() implies #[trigger] s.pats()[j] == s.patterns@[j].bytes@ by {
            assert(s.pats()[j] == s.patterns@.map_values(|p: Pattern| p.bytes@)[j]);
        }
        assert forall|j: int|
            0 <= j < s.patterns@.len() implies #[trigger] s.names()[j] == s.patterns@[j].name@ by {
            assert(s.names()[j] == s.patterns@.map_values(|p: Pattern| p.name@)[j]);
        }
    }

    /// Build a scanner over `patterns` with all cursors at 0.
    #[verifier::loop_isolation(false)]
    pub fn new(patterns: Vec<Pattern>) -> (r: PatternScanner)
        ensures
            r.wf(),
            r.pats() == patterns@.map_values(|p: Pattern| p.bytes@),
            r.names() == patterns@.map_values(|p: Pattern| p.name@),
            r.cursors() =~= Seq::new(patterns@.len(), |i: int| 0nat),
            r.scanned() == 0nat,
    {
        let num_patterns = patterns.len();
        let mut states: Vec<PatternState> = Vec::new();
        while states.len() < num_patterns
            invariant
                states@.len() <= num_patterns,
                forall|i: int| 0 <= i < states@.len() ==> states@[i]@ == 0nat,
            decreases num_patterns - states.len(),
        {
            states.push(PatternState::new());
        }
        let r = PatternScanner { patterns, states, bytes_scanned: 0 };
        proof {
            PatternScanner::lemma_view_index(r);
            assert forall|j: int| 0 <= j < r.cursors().len() implies r.cursors()[j] == 0nat by {
                assert(r.cursors()[j] == r.states@[j]@);
            }
            assert(r.cursors() =~= Seq::new(r.patterns@.len(), |i: int| 0nat));
        }
        r
    }

    /// Build a scanner from plain strings; each becomes a pattern whose name
    /// is the string itself.
    #[verifier::loop_isolation(false)]
    pub fn from_strings(patterns: &[String]) -> (r: PatternScanner)
        ensures
            r.wf(),
            r.pats() =~= patterns@.map_values(|s: String| lower_bytes(utf8_of(s@))),
            r.names() =~= patterns@.map_values(|s: String| s@),
            r.cursors() =~= Seq::new(patterns@.len(), |i: int| 0nat),
            r.scanned() == 0nat,
    {
        let mut ps: Vec<Pattern> = Vec::new();
        let mut i: usize = 0;
        while i < patterns.len()
            invariant
                i <= patterns@.len(),
                ps@.len() == i,
                forall|j: int|
                    0 <= j < i ==> ps@[j].name@ == patterns@[j]@ && ps@[j].bytes@ == lower_bytes(
                        utf8_of(patterns@[j]@),
                    ),
            decreases patterns.len() - i,
        {
            ps.push(Pattern::from_string(patterns[i].as_str()));
            i += 1;
        }
        let r = PatternScanner::new(ps);
        proof {
            PatternScanner::lemma_view_index(r);
            assert forall|j: int| 0 <= j < patterns@.len() implies r.pats()[j] == patterns@.map_values(
                |s: String| lower_bytes(utf8_of(s@)),
            )[j] by {
                assert(r.pats()[j] == ps@.map_values(|p: Pattern| p.bytes@)[j]);
                assert(patterns@.map_values(|s: String| lower_bytes(utf8_of(s@)))[j]
                    == lower_bytes(utf8_of(patterns@[j]@)));
            }
            assert(r.pats() =~= patterns@.map_values(|s: String| lower_bytes(utf8_of(s@))));
            assert forall|j: int| 0 <= j < patterns@.len() implies r.names()[j] == patterns@.map_values(
                |s: String| s@,
            )[j] by {
                assert(r.names()[j] == ps@.map_values(|p: Pattern| p.name@)[j]);
                assert(patterns@.map_values(|s: String| s@)[j] == patterns@[j]@);
            }
            assert(r.names() =~= patterns@.map_values(|s: String| s@));
        }
        r
    }

    /// Feed one byte to every cursor in order; report the first pattern that
    /// completes and reset its cursor, leaving later cursors untouched.
    #[verifier::loop_isolation(false)]
    pub fn scan_byte(&mut self, byte: u8) -> (r: ScanResult)
        requires
            old(self).wf(),
            old(self).scanned() < usize::MAX,
        ensures
            final(self).wf(),
            final(self).pats() == old(self).pats(),
            final(self).names() == old(self).names(),
            final(self).scanned() == old(self).scanned() + 1,
            final(self).cursors() == cursors_after_byte(old(self).pats(), old(self).cursors(), byte),
            match first_hit(old(self).pats(), old(self).cursors(), byte) {
                Some(i) => r matches ScanResult::Match(m) && m.pattern_index == i
                    && m.position == old(self).scanned() + 1 && m.pattern_name@ == old(
                    self,
                ).names()[i],
                None => r matches ScanResult::Continue,
            },
    {
        self.bytes_scanned += 1;
        let ghost ps = self.pats();
        let ghost cs0 = self.cursors();
        proof {
            PatternScanner::lemma_view_index(*self);
            assert(ps == old(self).pats());
            assert(cs0 == old(self).cursors());
        }
        let mut i: usize = 0;
        while i < self.patterns.len()
            invariant
                self.wf(),
                i <= self.patterns@.len(),
                self.patterns@ == old(self).patterns@,
                self.bytes_scanned == old(self).bytes_scanned + 1,
                first_hit_from(ps, cs0, byte, 0) == first_hit_from(ps, cs0, byte, i as int),
                forall|j: int| 0 <= j < i ==> self.states@[j]@ == step_cursor(ps[j], cs0[j], byte),
                forall|j: int| i <= j < ps.len() ==> self.states@[j]@ == cs0[j],
            decreases self.patterns.len() - i,
        {
            let ghost pre_states = self.states@;
            let mut st = self.states[i];
            proof {
                PatternScanner::lemma_view_index(*self);
                assert(st@ == cs0[i as int]);
                assert(ps[i as int] == self.patterns@[i as int].bytes@);
            }
            st.advance(byte, &self.patterns[i]);
            let hit = st.is_match(&self.patterns[i]);
            if hit {
                let mut st2 = st;
                st2.reset();
                self.states.set(i, st2);
                proof {
                    assert(self.states@ == pre_states.update(i as int, st2));
                    assert(cursor_hits(ps[i as int], cs0[i as int], byte));
                    assert(first_hit_from(ps, cs0, byte, i as int) == Some(i as int));
                    assert(first_hit(ps, cs0, byte) == Some(i as int));
                    PatternScanner::lemma_view_index(*self);
                    let csb = cursors_after_byte(ps, cs0, byte);
                    assert forall|j: int| 0 <= j < cs0.len() implies self.cursors()[j] == csb[j] by {
                        assert(self.cursors()[j] == self.states@[j]@);
                    }
                    assert(self.cursors() =~= csb);
                }
                return ScanResult::Match(
                    PatternMatch {
                        pattern_index: i,
                        position: self.bytes_scanned,
                        pattern_name: self.patterns[i].name.clone(),
                    },
                );
            } else {
                self.states.set(i, st);
                proof {
                    assert(self.states@ == pre_states.update(i as int, st));
                    assert(!cursor_hits(ps[i as int], cs0[i as int], byte));
                    assert(first_hit_from(ps, cs0, byte, i as int) == first_hit_from(
                        ps,
                        cs0,
                        byte,
                        i as int + 1,
                    ));
                }
            }
            i += 1;
        }
        proof {
            assert(first_hit(ps, cs0, byte) is None);
            PatternScanner::lemma_view_index(*self);
            assert forall|j: int| 0 <= j < cs0.len() implies self.cursors()[j] == step_all(
                ps,
                cs0,
                byte,
            )[j] by {
                assert(self.cursors()[j] == self.states@[j]@);
            }
            assert(self.cursors() =~= step_all(ps, cs0, byte));
        }
        ScanResult::Continue
    }

    /// Feed a slice of bytes, stopping at the first match.
    #[verifier::loop_isolation(false)]
    pub fn scan_bytes(&mut self, bytes: &[u8]) -> (r: ScanResult)
        requires
            old(self).wf(),
            old(self).scanned() + bytes@.len() <= usize::MAX,
        ensures
            final(self).wf(),
            final(self).pats() == old(self).pats(),
            final(self).names() == old(self).names(),
            final(self).cursors() == cursors_after_scan(
                old(self).pats(),
                old(self).cursors(),
                bytes@,
            ),
            final(self).scanned() == old(self).scanned() + scan_consumed(
                old(self).pats(),
                old(self).cursors(),
                bytes@,
            ),
            match scan_find(old(self).pats(), old(self).cursors(), bytes@) {
                Some(pk) => r matches ScanResult::Match(m) && m.pattern_index == pk.0
                    && m.position == old(self).scanned() + pk.1 + 1 && m.pattern_name@ == old(
                    self,
                ).names()[pk.0],
                None => r matches ScanResult::Continue,
            },
    {
        let ghost ps = self.pats();
        let ghost cs0 = old(self).cursors();
        proof {
            assert(bytes@.skip(0int) =~= bytes@);
            assert(self.cursors() == cs0);
        }
        let mut i: usize = 0;
        while i < bytes.len()
            invariant
                self.wf(),
                i <= bytes@.len(),
                self.pats() == ps,
                self.names() == old(self).names(),
                self.scanned() == old(self).scanned() + i,
                scan_find(ps, cs0, bytes@) == match scan_find(
                    ps,
                    self.cursors(),
                    bytes@.skip(i as int),
                ) {
                    Some(pk) => Some((pk.0, pk.1 + i as int)),
                    None => None::<(int, int)>,
                },
                cursors_after_scan(ps, cs0, bytes@) == cursors_after_scan(
                    ps,
                    self.cursors(),
                    bytes@.skip(i as int),
                ),
            decreases bytes.len() - i,
        {
            let ghost cs_now = self.cursors();
            let ghost rest = bytes@.skip(i as int);
            proof {
                assert(rest.len() > 0 && rest[0] == bytes@[i as int]);
                assert(rest.subrange(1, rest.len() as int) =~= bytes@.skip(i as int + 1));
            }
            let r = self.scan_byte(bytes[i]);
            match r {
                ScanResult::Match(m) => {
                    proof {
                        let hi = first_hit(ps, cs_now, bytes@[i as int]);
                        assert(hi is Some);
                        assert(scan_find(ps, cs_now, rest) == Some((hi.unwrap(), 0int)));
                        assert(cursors_after_scan(ps, cs_now, rest) == cursors_after_byte(
                            ps,
                            cs_now,
                            bytes@[i as int],
                        ));
                        assert(scan_find(ps, cs0, bytes@) == Some((hi.unwrap(), i as int)));
                        assert(scan_consumed(ps, cs0, bytes@) == i + 1);
                    }
                    return ScanResult::Match(m);
                },
                ScanResult::Continue => {
                    proof {
                        assert(first_hit(ps, cs_now, bytes@[i as int]) is None);
                        assert(self.cursors() == step_all(ps, cs_now, bytes@[i as int]));
                        assert(scan_find(ps, cs_now, rest) == match scan_find(
                            ps,
                            self.cursors(),
                            bytes@.skip(i as int + 1),
                        ) {
                            Some(pk) => Some((pk.0, pk.1 + 1int)),
                            None => None::<(int, int)>,
                        });
                        assert(cursors_after_scan(ps, cs_now, rest) == cursors_after_scan(
                            ps,
                            self.cursors(),
                            bytes@.skip(i as int + 1),
                        ));
                    }
                },
            }
            i += 1;
        }
        assert(bytes@.skip(i as int) =~= Seq::<u8>::empty());
        ScanResult::Continue
    }

    /// Reset every cursor and the byte counter.
    #[verifier::loop_isolation(false)]
    pub fn reset(&mut self)
        requires
            old(self).wf(),
        ensures
            final(self).wf(),
            final(self).pats() == old(self).pats(),
            final(self).names() == old(self).names(),
            final(self).cursors() =~= Seq::new(old(self).pats().len(), |i: int| 0nat),
            final(self).scanned() == 0nat,
    {
        let mut i: usize = 0;
        while i < self.states.len()
            invariant
                self.wf(),
                i <= self.states@.len(),
                self.patterns@ == old(self).patterns@,
                forall|j: int| 0 <= j < i ==> self.states@[j]@ == 0nat,
            decreases self.states.len() - i,
        {
            let ghost pre = self.states@;
            let mut st = self.states[i];
            st.reset();
            self.states.set(i, st);
            proof {
                assert(self.states@ == pre.update(i as int, st));
            }
            i += 1;
        }
        self.bytes_scanned = 0;
        proof {
            PatternScanner::lemma_view_index(*self);
            assert forall|j: int| 0 <= j < self.cursors().len() implies self.cursors()[j]
                == 0nat by {
                assert(self.cursors()[j] == self.states@[j]@);
            }
            assert(self.cursors() =~= Seq::new(self.pats().len(), |i: int| 0nat));
        }
    }

    /// Total bytes scanned.
    pub fn bytes_scanned(&self) -> (r: usize)
        ensures
            r == self.scanned(),
    {
        self.bytes_scanned
    }

    /// Number of patterns.
    pub fn pattern_count(&self) -> (r: usize)
        ensures
            r == self.pats().len(),
    {
        proof {
            PatternScanner::lemma_view_index(*self);
        }
        self.patterns.len()
    }
}

} // verus!
