//! UTF-8 boundary handling for chunked byte streams.
//!
//! A multi-byte UTF-8 sequence can be split across two chunks. This buffer
//! holds the trailing incomplete sequence of one chunk so that the next chunk
//! can complete it, and guarantees that no well-formed multi-byte sequence is
//! ever emitted split in two. A chunk is turned into `(prefix, main)`: the
//! `prefix`, when present, is exactly the previously buffered partial
//! sequence completed by the first bytes of the new chunk, and `main` is the
//! rest of the chunk truncated so that no partial sequence remains at its
//! end; that tail is buffered instead.
//!
//! Expected sequence lengths are read from the first byte: `0xxxxxxx` is 1,
//! `110xxxxx` is 2, `1110xxxx` is 3, `11110xxx` is 4, and anything else is
//! treated as a single byte that passes through verbatim. A failed
//! completion (too few continuation bytes, or a sequence that does not
//! validate) drops the buffered bytes and any stray continuation bytes at
//! the head of the new chunk.

use vstd::prelude::*;
use vstd::utf8::valid_utf8;

verus! {

/// Expected length of a UTF-8 sequence given its first byte; bytes that
/// cannot begin a multi-byte sequence count as length 1.
pub open spec fn seq_len_of(b: u8) -> nat {
    if b < 0x80 {
        1nat
    } else if 0xC0 <= b && b <= 0xDF {
        2nat
    } else if 0xE0 <= b && b <= 0xEF {
        3nat
    } else if 0xF0 <= b && b <= 0xF7 {
        4nat
    } else {
        1nat
    }
}

/// Whether `b` is a UTF-8 continuation byte (`10xxxxxx`).
pub open spec fn is_cont_byte(b: u8) -> bool {
    0x80 <= b && b <= 0xBF
}

/// Whether the buffered bytes `l` can be completed by the head of chunk `c`:
/// the missing continuation bytes are all present, and the assembled
/// sequence validates as UTF-8.
pub open spec fn can_complete(l: Seq<u8>, c: Seq<u8>) -> bool {
    l.len() > 0 && c.len() > 0 && seq_len_of(l[0]) > l.len() && {
        let needed = seq_len_of(l[0]) - l.len();
        c.len() >= needed && (forall|i: int| 0 <= i < needed ==> is_cont_byte(c[i]))
            && valid_utf8(l + c.subrange(0, needed))
    }
}

/// The completed sequence emitted as `prefix`, if completion succeeds.
pub open spec fn step_prefix(l: Seq<u8>, c: Seq<u8>) -> Option<Seq<u8>> {
    if can_complete(l, c) {
        Some(l + c.subrange(0, seq_len_of(l[0]) - l.len()))
    } else {
        None
    }
}

/// Length of the run of continuation bytes at the head of `c`.
pub open spec fn cont_run(c: Seq<u8>) -> int
    decreases c.len(),
{
    if c.len() == 0 || !is_cont_byte(c[0]) {
        0
    } else {
        1 + cont_run(c.subrange(1, c.len() as int))
    }
}

/// How many bytes of the chunk are consumed before `main` starts: the bytes
/// used by a successful completion, or the stray continuation bytes dropped
/// after a failed one.
pub open spec fn step_start(l: Seq<u8>, c: Seq<u8>) -> int {
    if can_complete(l, c) {
        seq_len_of(l[0]) - l.len()
    } else if l.len() > 0 {
        cont_run(c)
    } else {
        0
    }
}

/// The continuation run is a prefix of the chunk.
pub proof fn lemma_cont_run_bounds(c: Seq<u8>)
    ensures
        0 <= cont_run(c) <= c.len(),
    decreases c.len(),
{
    if c.len() > 0 && is_cont_byte(c[0]) {
        lemma_cont_run_bounds(c.subrange(1, c.len() as int));
    }
}

/// The greatest index in `[lo, hi)` holding a non-continuation byte.
pub open spec fn last_lead(c: Seq<u8>, lo: int, hi: int) -> Option<int>
    decreases hi - lo,
{
    if hi <= lo {
        None
    } else if !is_cont_byte(c[hi - 1]) {
        Some(hi - 1)
    } else {
        last_lead(c, lo, hi - 1)
    }
}

/// Lower bound of the window in which a trailing partial sequence can start.
pub open spec fn boundary_lo(c: Seq<u8>) -> int {
    if c.len() >= 4 {
        c.len() - 4
    } else {
        0
    }
}

/// Start of the trailing incomplete sequence of `c`, if there is one.
pub open spec fn hold_start(c: Seq<u8>) -> Option<int> {
    if c.len() == 0 {
        None
    } else {
        match last_lead(c, boundary_lo(c), c.len() as int) {
            None => None,
            Some(j) => if c.len() - j < seq_len_of(c[j]) {
                Some(j)
            } else {
                None
            },
        }
    }
}

/// The remainder of the chunk once the consumed head is dropped.
pub open spec fn step_rem(l: Seq<u8>, c: Seq<u8>) -> Seq<u8> {
    c.subrange(step_start(l, c), c.len() as int)
}

/// The `main` part emitted for this chunk.
pub open spec fn step_main(l: Seq<u8>, c: Seq<u8>) -> Seq<u8> {
    let rem = step_rem(l, c);
    match hold_start(rem) {
        None => rem,
        Some(j) => rem.subrange(0, j),
    }
}

/// The bytes buffered after this chunk.
pub open spec fn step_hold(l: Seq<u8>, c: Seq<u8>) -> Seq<u8> {
    let rem = step_rem(l, c);
    match hold_start(rem) {
        None => Seq::empty(),
        Some(j) => rem.subrange(j, rem.len() as int),
    }
}

/// Everything emitted for this chunk, prefix then main, in order.
pub open spec fn step_emit(l: Seq<u8>, c: Seq<u8>) -> Seq<u8> {
    (match step_prefix(l, c) {
        Some(p) => p,
        None => Seq::empty(),
    }) + step_main(l, c)
}

/// What one step emits and holds together never exceeds what was buffered
/// plus the chunk, and the held tail is at most three bytes.
pub proof fn lemma_step_sizes(l: Seq<u8>, c: Seq<u8>)
    ensures
        step_emit(l, c).len() + step_hold(l, c).len() <= l.len() + c.len(),
        step_hold(l, c).len() <= 3,
{
    lemma_cont_run_bounds(c);
    let rem = step_rem(l, c);
    lemma_last_lead_tail(rem, boundary_lo(rem), rem.len() as int);
    match hold_start(rem) {
        Some(j) => {
            assert(rem.len() - j < seq_len_of(rem[j]));
        },
        None => {},
    }
}

/// A buffer's contents are a proper prefix of one multi-byte sequence: a
/// lead byte whose expected length exceeds what is buffered, followed only
/// by continuation bytes, three bytes at most.
pub open spec fn hold_wf(l: Seq<u8>) -> bool {
    l.len() <= 3 && (l.len() > 0 ==> !is_cont_byte(l[0]) && seq_len_of(l[0]) > l.len() && (forall|
        j: int,
    | 1 <= j < l.len() ==> is_cont_byte(l[j])))
}

/// Handles UTF-8 sequences that split across chunk boundaries.
pub struct Utf8Buffer {
    leftover: Vec<u8>,
}

impl View for Utf8Buffer {
    type V = Seq<u8>;

    closed spec fn view(&self) -> Seq<u8> {
        self.leftover@
    }
}

/// Result of processing a chunk: an optional completed sequence carried over
/// from the previous chunk, and the chunk's own processable content.
pub struct ProcessedChunk<'a> {
    /// Completed sequence from leftover plus the start of this chunk.
    pub prefix: Option<Vec<u8>>,
    /// Main chunk content, cut at the last whole-sequence boundary.
    pub main: &'a [u8],
}

impl<'a> ProcessedChunk<'a> {
    /// Whether there is any content to process.
    pub fn is_empty(&self) -> (r: bool)
        ensures
            r == (self.prefix is None && self.main@.len() == 0),
    {
        self.prefix.is_none() && self.main.len() == 0
    }

    /// Total bytes available for processing.
    pub fn len(&self) -> (r: usize)
        requires
            (match self.prefix {
                Some(p) => p@.len(),
                None => 0,
            }) + self.main@.len() <= usize::MAX,
        ensures
            r == (match self.prefix {
                Some(p) => p@.len() as int,
                None => 0int,
            }) + self.main@.len(),
    {
        let p = match &self.prefix {
            Some(v) => v.len(),
            None => 0,
        };
        p + self.main.len()
    }
}

impl Utf8Buffer {
    /// An empty boundary buffer.
    pub fn new() -> (r: Utf8Buffer)
        ensures
            r@ == Seq::<u8>::empty(),
            hold_wf(r@),
    {
        Utf8Buffer { leftover: Vec::new() }
    }

    /// Whether `byte` is a continuation byte (`10xxxxxx`).
    pub fn is_continuation(byte: u8) -> (r: bool)
        ensures
            r == is_cont_byte(byte),
    {
        let r = (byte & 0b11000000) == 0b10000000;
        proof {
            assert(((byte & 0b11000000) == 0b10000000) == (0x80 <= byte && byte <= 0xBF))
                by (bit_vector);
        }
        r
    }

    /// Expected length of the UTF-8 sequence that starts with `first_byte`.
    pub fn sequence_length(first_byte: u8) -> (r: usize)
        ensures
            r == seq_len_of(first_byte),
    {
        if first_byte <= 0x7F {
            1
        } else if 0xC0 <= first_byte && first_byte <= 0xDF {
            2
        } else if 0xE0 <= first_byte && first_byte <= 0xEF {
            3
        } else if 0xF0 <= first_byte && first_byte <= 0xF7 {
            4
        } else {
            1
        }
    }

    /// Drop any buffered bytes.
    pub fn reset(&mut self)
        ensures
            final(self)@ == Seq::<u8>::empty(),
    {
        self.leftover.clear();
    }

    /// Try to complete the buffered sequence `l` with the head of `chunk`.
    #[verifier::loop_isolation(false)]
    fn complete_head(l: &Vec<u8>, chunk: &[u8]) -> (r: Option<Vec<u8>>)
        requires
            hold_wf(l@),
        ensures
            match step_prefix(l@, chunk@) {
                Some(p) => r matches Some(v) && v@ == p,
                None => r is None,
            },
    {
        if l.len() == 0 || chunk.len() == 0 {
            return None;
        }
        let expected = Self::sequence_length(l[0]);
        if expected <= l.len() {
            return None;
        }
        let needed = expected - l.len();
        if chunk.len() < needed {
            return None;
        }
        let mut i: usize = 0;
        while i < needed
            invariant
                i <= needed,
                forall|j: int| 0 <= j < i ==> is_cont_byte(chunk@[j]),
            decreases needed - i,
        {
            if !Self::is_continuation(chunk[i]) {
                assert(!can_complete(l@, chunk@));
                return None;
            }
            i += 1;
        }
        let mut complete: Vec<u8> = Vec::new();
        let mut k: usize = 0;
        while k < l.len()
            invariant
                k <= l@.len(),
                complete@ == l@.subrange(0, k as int),
            decreases l@.len() - k,
        {
            complete.push(l[k]);
            k += 1;
            proof {
                assert(complete@ =~= l@.subrange(0, k as int));
            }
        }
        proof {
            assert(complete@ =~= l@);
        }
        let mut k2: usize = 0;
        while k2 < needed
            invariant
                k2 <= needed,
                needed <= chunk@.len(),
                complete@ == l@ + chunk@.subrange(0, k2 as int),
            decreases needed - k2,
        {
            complete.push(chunk[k2]);
            k2 += 1;
            proof {
                assert(complete@ =~= l@ + chunk@.subrange(0, k2 as int));
            }
        }
        if crate::text::utf8_valid_exec(complete.as_slice()) {
            proof {
                assert(can_complete(l@, chunk@));
            }
            Some(complete)
        } else {
            proof {
                assert(!can_complete(l@, chunk@));
            }
            None
        }
    }

    /// Count the continuation bytes at the head of `chunk`.
    #[verifier::loop_isolation(false)]
    fn cont_run_len(chunk: &[u8]) -> (r: usize)
        ensures
            r == cont_run(chunk@),
            r <= chunk@.len(),
    {
        proof {
            assert(chunk@.skip(0int) =~= chunk@);
        }
        let mut start: usize = 0;
        while start < chunk.len() && Self::is_continuation(chunk[start])
            invariant
                start <= chunk@.len(),
                cont_run(chunk@) == start + cont_run(chunk@.skip(start as int)),
            decreases chunk@.len() - start,
        {
            proof {
                let rest = chunk@.skip(start as int);
                assert(rest[0] == chunk@[start as int]);
                assert(rest.subrange(1, rest.len() as int) =~= chunk@.skip(start as int + 1));
            }
            start += 1;
        }
        proof {
            let rest = chunk@.skip(start as int);
            if start < chunk@.len() {
                assert(rest[0] == chunk@[start as int]);
            }
            assert(cont_run(rest) == 0);
        }
        start
    }

    /// Find where the trailing incomplete sequence of `rem` starts.
    #[verifier::loop_isolation(false)]
    fn find_hold_start(rem: &[u8]) -> (r: Option<usize>)
        ensures
            match r {
                Some(j) => hold_start(rem@) == Some(j as int) && j < rem@.len(),
                None => hold_start(rem@) is None,
            },
    {
        let rem_len = rem.len();
        let lo = if rem_len >= 4 {
            rem_len - 4
        } else {
            0
        };
        let mut found: Option<usize> = None;
        let mut i: usize = rem_len;
        while i > lo && found.is_none()
            invariant
                lo <= i <= rem_len,
                found is None ==> last_lead(rem@, lo as int, rem_len as int) == last_lead(
                    rem@,
                    lo as int,
                    i as int,
                ),
                match found {
                    Some(j) => lo <= j < rem_len && last_lead(rem@, lo as int, rem_len as int)
                        == Some(j as int),
                    None => true,
                },
            decreases i,
        {
            i -= 1;
            if !Self::is_continuation(rem[i]) {
                found = Some(i);
            }
        }
        match found {
            Some(j) => {
                let e = Self::sequence_length(rem[j]);
                if rem_len - j < e {
                    Some(j)
                } else {
                    None
                }
            },
            None => {
                proof {
                    assert(last_lead(rem@, lo as int, rem_len as int) is None);
                }
                None
            },
        }
    }

    /// Process a new chunk, first attempting to complete the buffered
    /// sequence, then cutting the chunk at its last whole-sequence boundary
    /// and buffering the tail.
    #[verifier::loop_isolation(false)]
    pub fn process_chunk<'a>(&mut self, chunk: &'a [u8]) -> (r: ProcessedChunk<'a>)
        requires
            hold_wf(old(self)@),
        ensures
            hold_wf(final(self)@),
            final(self)@ == step_hold(old(self)@, chunk@),
            r.main@ == step_main(old(self)@, chunk@),
            match step_prefix(old(self)@, chunk@) {
                Some(p) => r.prefix matches Some(v) && v@ == p,
                None => r.prefix is None,
            },
    {
        let ghost l0 = self@;
        // Step 1: try to complete the buffered sequence with the chunk head.
        let prefix = Self::complete_head(&self.leftover, chunk);
        // Step 2: the consumed head is the completion bytes, or the stray
        // continuation bytes dropped after a failed completion.
        let start: usize = if prefix.is_some() {
            let consumed = Self::sequence_length(self.leftover[0]) - self.leftover.len();
            proof {
                assert(can_complete(l0, chunk@));
            }
            consumed
        } else if self.leftover.len() > 0 {
            Self::cont_run_len(chunk)
        } else {
            0
        };
        proof {
            assert(start as int == step_start(l0, chunk@));
        }
        // Step 3: the buffered bytes are consumed either way.
        self.leftover.clear();
        // Step 4: cut the remainder at the start of its trailing partial
        // sequence and buffer that tail.
        let rem_slice = vstd::slice::slice_subrange(chunk, start, chunk.len());
        proof {
            assert(rem_slice@ == step_rem(l0, chunk@));
        }
        let mut cut: usize = rem_slice.len();
        match Self::find_hold_start(rem_slice) {
            Some(j) => {
                cut = j;
                let mut k: usize = j;
                while k < rem_slice.len()
                    invariant
                        j <= k <= rem_slice@.len(),
                        self.leftover@ == rem_slice@.subrange(j as int, k as int),
                    decreases rem_slice@.len() - k,
                {
                    self.leftover.push(rem_slice[k]);
                    k += 1;
                    proof {
                        assert(self.leftover@ =~= rem_slice@.subrange(j as int, k as int));
                    }
                }
            },
            None => {},
        }
        proof {
            let rem = step_rem(l0, chunk@);
            assert(self.leftover@ =~= step_hold(l0, chunk@));
            lemma_last_lead_tail(rem, boundary_lo(rem), rem.len() as int);
            assert(hold_wf(self.leftover@));
        }
        let main = vstd::slice::slice_subrange(rem_slice, 0, cut);
        proof {
            assert(main@ =~= step_main(l0, chunk@));
        }
        ProcessedChunk { prefix, main }
    }
}

impl Default for Utf8Buffer {
    fn default() -> (r: Utf8Buffer)
        ensures
            r@ == Seq::<u8>::empty(),
    {
        Utf8Buffer { leftover: Vec::new() }
    }
}

/// After the last lead byte found by `last_lead`, every byte is a
/// continuation byte.
pub proof fn lemma_last_lead_tail(c: Seq<u8>, lo: int, hi: int)
    requires
        0 <= lo,
        hi <= c.len(),
    ensures
        match last_lead(c, lo, hi) {
            Some(j) => lo <= j < hi && !is_cont_byte(c[j]) && forall|k: int|
                j < k < hi ==> is_cont_byte(c[k]),
            None => forall|k: int| lo <= k < hi ==> is_cont_byte(c[k]),
        },
    decreases hi - lo,
{
    if hi <= lo {
    } else if !is_cont_byte(c[hi - 1]) {
    } else {
        lemma_last_lead_tail(c, lo, hi - 1);
    }
}


/// When the window `[lo, hi)` holds a non-continuation byte at `j` and
/// only continuation bytes after it, `j` is the last lead.
proof fn lemma_last_lead_exact(c: Seq<u8>, lo: int, hi: int, j: int)
    requires
        0 <= lo <= j < hi <= c.len(),
        !is_cont_byte(c[j]),
        forall|k: int| j < k < hi ==> is_cont_byte(c[k]),
    ensures
        last_lead(c, lo, hi) == Some(j),
    decreases hi,
{
    if hi - 1 > j {
        lemma_last_lead_exact(c, lo, hi - 1, j);
    }
}

/// The shape of a well-formed scalar: its length is read off its first
/// byte, which is no continuation byte, and the rest of its bytes are
/// continuation bytes.
proof fn lemma_scalar_shape(w: Seq<u8>)
    requires
        vstd::utf8::valid_first_scalar(w),
    ensures
        ({
            let l = vstd::utf8::length_of_first_scalar(w);
            &&& 1 <= l <= 4
            &&& l <= w.len()
            &&& l == seq_len_of(w[0])
            &&& !is_cont_byte(w[0])
            &&& forall|k: int| 1 <= k < l ==> is_cont_byte(w[k])
        }),
{
}

/// A scalar's well-formedness reads only its own bytes: any sequence that
/// agrees with `x` on `x`'s first scalar begins with the same scalar.
proof fn lemma_first_scalar_agree(x: Seq<u8>, y: Seq<u8>)
    requires
        vstd::utf8::valid_first_scalar(x),
        y.len() >= vstd::utf8::length_of_first_scalar(x),
        forall|k: int| 0 <= k < vstd::utf8::length_of_first_scalar(x) ==> y[k] == x[k],
    ensures
        vstd::utf8::valid_first_scalar(y),
        vstd::utf8::length_of_first_scalar(y) == vstd::utf8::length_of_first_scalar(x),
{
    assert(y[0] == x[0]);
}

/// A single complete scalar taken out of a well-formed stream is itself
/// well-formed UTF-8.
proof fn lemma_take_scalar_valid(t: Seq<u8>)
    requires
        valid_utf8(t),
        t.len() > 0,
    ensures
        valid_utf8(t.subrange(0, vstd::utf8::length_of_first_scalar(t))),
{
    let l = vstd::utf8::length_of_first_scalar(t);
    lemma_scalar_shape(t);
    let s = t.subrange(0, l);
    lemma_first_scalar_agree(t, s);
    assert(vstd::utf8::pop_first_scalar(s) =~= Seq::<u8>::empty());
    assert(valid_utf8(vstd::utf8::pop_first_scalar(s)));
}

/// A well-formed stream holds nothing back: its trailing scalar is
/// complete, so the boundary scan finds no partial tail.
proof fn lemma_valid_last_scalar(w: Seq<u8>)
    requires
        valid_utf8(w),
        w.len() > 0,
    ensures
        ({
            let j = last_lead(w, boundary_lo(w), w.len() as int).unwrap();
            &&& last_lead(w, boundary_lo(w), w.len() as int) is Some
            &&& 0 <= j < w.len()
            &&& w.len() - j == seq_len_of(w[j])
            &&& !is_cont_byte(w[j])
            &&& forall|k: int| j < k < w.len() ==> is_cont_byte(w[k])
        }),
    decreases w.len(),
{
    let l0 = vstd::utf8::length_of_first_scalar(w);
    lemma_scalar_shape(w);
    let rest = vstd::utf8::pop_first_scalar(w);
    assert(rest =~= w.subrange(l0, w.len() as int));
    if rest.len() == 0 {
        assert(l0 == w.len());
        lemma_last_lead_exact(w, boundary_lo(w), w.len() as int, 0);
    } else {
        lemma_valid_last_scalar(rest);
        let jr = last_lead(rest, boundary_lo(rest), rest.len() as int).unwrap();
        let j = l0 + jr;
        assert(w[j] == rest[jr]);
        assert forall|k: int| j < k < w.len() implies is_cont_byte(w[k]) by {
            assert(w[k] == rest[k - l0]);
        }
        assert(w.len() - j == rest.len() - jr);
        lemma_last_lead_exact(w, boundary_lo(w), w.len() as int, j);
    }
}

/// A well-formed chunk is emitted whole: nothing is buffered.
pub proof fn lemma_valid_hold_none(w: Seq<u8>)
    requires
        valid_utf8(w),
    ensures
        hold_start(w) is None,
{
    if w.len() > 0 {
        lemma_valid_last_scalar(w);
    }
}

/// Cutting a well-formed stream at `cut` splits it into a whole-scalar
/// part, which the boundary buffer emits, and the partial tail of one
/// scalar, which it holds: the returned `q` is where that tail starts.
pub proof fn lemma_chunk_cut(t: Seq<u8>, cut: int) -> (q: int)
    requires
        valid_utf8(t),
        0 <= cut <= t.len(),
    ensures
        0 <= q <= cut,
        step_prefix(Seq::empty(), t.subrange(0, cut)) is None,
        step_main(Seq::empty(), t.subrange(0, cut)) == t.subrange(0, q),
        step_hold(Seq::empty(), t.subrange(0, cut)) == t.subrange(q, cut),
        valid_utf8(t.subrange(q, t.len() as int)),
        q == cut ==> valid_utf8(t.subrange(0, q)),
        q < cut ==> {
            &&& !is_cont_byte(t[q])
            &&& cut - q < seq_len_of(t[q])
            &&& q + seq_len_of(t[q]) <= t.len()
            &&& (forall|k: int| q < k < q + seq_len_of(t[q]) ==> is_cont_byte(t[k]))
            &&& valid_utf8(t.subrange(q, q + seq_len_of(t[q])))
        },
    decreases t.len(),
{
    let u = t.subrange(0, cut);
    assert(step_rem(Seq::empty(), u) =~= u);
    if cut == 0 {
        assert(u =~= Seq::<u8>::empty());
        assert(t.subrange(0, t.len() as int) =~= t);
        0
    } else {
        let l0 = vstd::utf8::length_of_first_scalar(t);
        lemma_scalar_shape(t);
        let rest = vstd::utf8::pop_first_scalar(t);
        assert(rest =~= t.subrange(l0, t.len() as int));
        if cut < l0 {
            // The cut lands inside the very first scalar.
            assert forall|k: int| 0 < k < cut implies is_cont_byte(u[k]) by {
                assert(u[k] == t[k]);
            }
            lemma_last_lead_exact(u, boundary_lo(u), cut, 0);
            assert(hold_start(u) == Some(0int));
            assert(step_main(Seq::empty(), u) =~= t.subrange(0, 0));
            assert(step_hold(Seq::empty(), u) =~= t.subrange(0, cut));
            lemma_take_scalar_valid(t);
            assert(t.subrange(0, t.len() as int) =~= t);
            assert(l0 == seq_len_of(t[0]));
            0
        } else {
            let q2 = lemma_chunk_cut(rest, cut - l0);
            let q = l0 + q2;
            assert(rest.subrange(0, cut - l0) =~= u.subrange(l0, cut));
            if q2 == cut - l0 {
                // The sub-cut is clean, so this cut is clean too.
                assert(valid_utf8(rest.subrange(0, q2)));
                assert(valid_utf8(u)) by {
                    lemma_first_scalar_agree(t, u);
                    assert(vstd::utf8::pop_first_scalar(u) =~= rest.subrange(0, q2));
                }
                lemma_valid_hold_none(u);
                assert(step_main(Seq::empty(), u) =~= t.subrange(0, cut));
                assert(step_hold(Seq::empty(), u) =~= t.subrange(cut, cut));
                assert(t.subrange(cut, t.len() as int) =~= rest.subrange(
                    cut - l0,
                    rest.len() as int,
                ));
                cut
            } else {
                // The sub-cut lands inside a scalar of the remainder.
                assert(t[q] == rest[q2]);
                assert forall|k: int| q < k < q + seq_len_of(t[q]) implies is_cont_byte(t[k]) by {
                    assert(t[k] == rest[k - l0]);
                }
                assert forall|k: int| q < k < cut implies is_cont_byte(u[k]) by {
                    assert(u[k] == t[k]);
                }
                assert(u[q] == t[q]);
                lemma_last_lead_exact(u, boundary_lo(u), cut, q);
                assert(hold_start(u) == Some(q));
                assert(step_main(Seq::empty(), u) =~= t.subrange(0, q));
                assert(step_hold(Seq::empty(), u) =~= t.subrange(q, cut));
                assert(t.subrange(q, t.len() as int) =~= rest.subrange(q2, rest.len() as int));
                assert(t.subrange(q, q + seq_len_of(t[q])) =~= rest.subrange(
                    q2,
                    q2 + seq_len_of(rest[q2]),
                ));
                q
            }
        }
    }
}

/// Law: no split of a well-formed byte stream into two chunks loses or
/// reorders a byte. The prefix-and-main emissions of the two calls
/// concatenate to exactly the original stream, and nothing stays
/// buffered after the second call.
pub proof fn lemma_two_chunk_emission(u: Seq<u8>, v: Seq<u8>)
    requires
        valid_utf8(u + v),
    ensures
        step_emit(Seq::empty(), u) + step_emit(step_hold(Seq::empty(), u), v) == u + v,
        step_hold(step_hold(Seq::empty(), u), v) == Seq::<u8>::empty(),
{
    let s = u + v;
    let q = lemma_chunk_cut(s, u.len() as int);
    assert(s.subrange(0, u.len() as int) =~= u);
    let e1 = step_emit(Seq::empty(), u);
    let h1 = step_hold(Seq::empty(), u);
    assert(e1 == s.subrange(0, q));
    assert(h1 == s.subrange(q, u.len() as int));
    if q == u.len() {
        assert(h1 =~= Seq::<u8>::empty());
        assert(valid_utf8(s.subrange(q, s.len() as int)));
        assert(s.subrange(u.len() as int, s.len() as int) =~= v);
        assert(valid_utf8(v));
        lemma_valid_hold_none(v);
        assert(!can_complete(h1, v));
        assert(step_start(h1, v) == 0);
        assert(step_rem(h1, v) =~= v);
        assert(step_main(h1, v) =~= v);
        assert(step_emit(h1, v) =~= v);
        assert(step_hold(h1, v) =~= Seq::<u8>::empty());
        assert(e1 + step_emit(h1, v) =~= s);
    } else {
        let b = s[q];
        let l = seq_len_of(b);
        let d = u.len() - q;
        assert(h1.len() == d);
        assert(h1[0] == b);
        let needed = l - d;
        assert(v.len() >= needed) by {
            assert(q + l <= s.len());
        }
        assert forall|k: int| 0 <= k < needed implies is_cont_byte(v[k]) by {
            assert(v[k] == s[u.len() + k]);
        }
        assert(h1 + v.subrange(0, needed) =~= s.subrange(q, q + l));
        assert(valid_utf8(h1 + v.subrange(0, needed)));
        assert(can_complete(h1, v));
        assert(step_prefix(h1, v) == Some(s.subrange(q, q + l)));
        assert(step_start(h1, v) == needed);
        let rem = step_rem(h1, v);
        assert(rem =~= s.subrange(q + l, s.len() as int));
        let tq = s.subrange(q, s.len() as int);
        assert(valid_utf8(tq));
        assert(vstd::utf8::length_of_first_scalar(tq) == l) by {
            lemma_scalar_shape(tq);
            assert(tq[0] == b);
        }
        assert(valid_utf8(rem)) by {
            assert(vstd::utf8::pop_first_scalar(tq) =~= rem);
        }
        lemma_valid_hold_none(rem);
        assert(step_main(h1, v) =~= rem);
        assert(step_hold(h1, v) =~= Seq::<u8>::empty());
        assert(step_emit(h1, v) =~= s.subrange(q, s.len() as int));
        assert(e1 + step_emit(h1, v) =~= s);
    }
}

} // verus!
