//! Byte-string helpers shared by the scanners and protocol handlers.
//!
//! All matching in this crate is byte-oriented and, where case matters,
//! ASCII-case-insensitive: a byte in `b'A'..=b'Z'` is folded to its lowercase
//! counterpart and every other byte is left alone.

use vstd::prelude::*;

verus! {

/// The UTF-8 encoding of a character sequence; `utf8_of(s@)` is the byte
/// content of a string `s`.
pub open spec fn utf8_of(s: Seq<char>) -> Seq<u8> {
    vstd::utf8::encode_utf8(s)
}

/// ASCII lowercase folding of a single byte.
pub open spec fn lower_byte(b: u8) -> u8 {
    if 65 <= b && b <= 90 {
        (b + 32) as u8
    } else {
        b
    }
}

/// ASCII lowercase folding of a byte sequence.
pub open spec fn lower_bytes(s: Seq<u8>) -> Seq<u8> {
    s.map_values(|b: u8| lower_byte(b))
}

/// Pointwise reading of [`lower_bytes`].
pub proof fn lemma_lower_bytes_index(s: Seq<u8>)
    ensures
        lower_bytes(s).len() == s.len(),
        forall|j: int| 0 <= j < s.len() ==> #[trigger] lower_bytes(s)[j] == lower_byte(s[j]),
{
    assert forall|j: int| 0 <= j < s.len() implies #[trigger] lower_bytes(s)[j] == lower_byte(
        s[j],
    ) by {
        assert(lower_bytes(s)[j] == s.map_values(|b: u8| lower_byte(b))[j]);
    }
}

/// `n` occurs in `h` starting at position `i`.
pub open spec fn matches_at(h: Seq<u8>, n: Seq<u8>, i: int) -> bool {
    0 <= i && i + n.len() <= h.len() && h.subrange(i, i + n.len()) == n
}

/// `n` occurs somewhere in `h` as a contiguous subrange.
pub open spec fn contains_bytes(h: Seq<u8>, n: Seq<u8>) -> bool {
    exists|i: int| matches_at(h, n, i)
}

/// Exec ASCII lowercase folding of one byte.
pub fn lower_u8(b: u8) -> (r: u8)
    ensures
        r == lower_byte(b),
{
    if 65 <= b && b <= 90 {
        b + 32
    } else {
        b
    }
}

/// Byte-wise equality of two slices.
pub fn bytes_eq(a: &[u8], b: &[u8]) -> (r: bool)
    ensures
        r == (a@ == b@),
{
    if a.len() != b.len() {
        assert(a@.len() != b@.len());
        return false;
    }
    let mut i: usize = 0;
    while i < a.len()
        invariant
            i <= a.len(),
            a.len() == b.len(),
            forall|j: int| 0 <= j < i ==> a@[j] == b@[j],
        decreases a.len() - i,
    {
        if a[i] != b[i] {
            assert(a@[i as int] != b@[i as int]);
            return false;
        }
        i += 1;
    }
    assert(a@ =~= b@);
    true
}

/// Byte-wise ASCII-case-insensitive equality of two slices.
pub fn eq_ignore_ascii(a: &[u8], b: &[u8]) -> (r: bool)
    ensures
        r == (lower_bytes(a@) == lower_bytes(b@)),
{
    if a.len() != b.len() {
        assert(lower_bytes(a@).len() != lower_bytes(b@).len());
        return false;
    }
    let mut i: usize = 0;
    while i < a.len()
        invariant
            i <= a.len(),
            a.len() == b.len(),
            forall|j: int| 0 <= j < i ==> lower_byte(a@[j]) == lower_byte(b@[j]),
        decreases a.len() - i,
    {
        if lower_u8(a[i]) != lower_u8(b[i]) {
            assert(lower_bytes(a@)[i as int] != lower_bytes(b@)[i as int]);
            return false;
        }
        i += 1;
    }
    assert(lower_bytes(a@) =~= lower_bytes(b@));
    true
}

/// Lowercased copy of a slice.
pub fn lower_vec(s: &[u8]) -> (r: Vec<u8>)
    ensures
        r@ == lower_bytes(s@),
{
    let mut out: Vec<u8> = Vec::new();
    let mut i: usize = 0;
    while i < s.len()
        invariant
            i <= s.len(),
            out@.len() == i,
            forall|j: int| 0 <= j < i ==> out@[j] == lower_byte(s@[j]),
        decreases s.len() - i,
    {
        out.push(lower_u8(s[i]));
        i += 1;
    }
    assert(out@ =~= lower_bytes(s@));
    out
}

/// `h` starts with `n`.
pub fn starts_with_bytes(h: &[u8], n: &[u8]) -> (r: bool)
    ensures
        r == matches_at(h@, n@, 0),
{
    if n.len() > h.len() {
        return false;
    }
    let mut i: usize = 0;
    while i < n.len()
        invariant
            i <= n.len(),
            n.len() <= h.len(),
            forall|j: int| 0 <= j < i ==> h@[j] == n@[j],
        decreases n.len() - i,
    {
        if h[i] != n[i] {
            assert(h@.subrange(0, n@.len() as int)[i as int] != n@[i as int]);
            return false;
        }
        i += 1;
    }
    assert(h@.subrange(0, n@.len() as int) =~= n@);
    true
}

/// Naive contiguous-substring search.
pub fn find_bytes(h: &[u8], n: &[u8]) -> (r: Option<usize>)
    ensures
        match r {
            Some(i) => matches_at(h@, n@, i as int) && forall|j: int|
                0 <= j < i ==> !matches_at(h@, n@, j),
            None => !contains_bytes(h@, n@),
        },
{
    if n.len() > h.len() {
        assert(forall|j: int| !matches_at(h@, n@, j));
        return None;
    }
    let mut i: usize = 0;
    while i <= h.len() - n.len()
        invariant
            n.len() <= h.len(),
            i <= h.len() - n.len() + 1,
            forall|j: int| 0 <= j < i ==> !matches_at(h@, n@, j),
        decreases h.len() + 1 - n.len() - i,
    {
        let mut k: usize = 0;
        let mut hit = true;
        while k < n.len()
            invariant
                i + n.len() <= h.len(),
                k <= n.len(),
                hit ==> forall|j: int| 0 <= j < k ==> h@[i + j] == n@[j],
                !hit ==> exists|j: int| 0 <= j < k && h@[i + j] != n@[j],
            decreases n.len() - k,
        {
            if h[i + k] != n[k] {
                hit = false;
            }
            k += 1;
        }
        if hit {
            assert(h@.subrange(i as int, i + n@.len()) =~= n@);
            return Some(i);
        } else {
            assert(!matches_at(h@, n@, i as int)) by {
                let j = choose|j: int| 0 <= j < n@.len() && h@[i + j] != n@[j];
                if matches_at(h@, n@, i as int) {
                    assert(h@.subrange(i as int, i + n@.len())[j] == n@[j]);
                }
            }
        }
        i += 1;
    }
    assert(forall|j: int| i <= j ==> !matches_at(h@, n@, j));
    None
}

/// Whether `n` occurs in `h`.
pub fn contains_bytes_exec(h: &[u8], n: &[u8]) -> (r: bool)
    ensures
        r == contains_bytes(h@, n@),
{
    find_bytes(h, n).is_some()
}

/// Whether a byte string is well-formed UTF-8.
pub fn utf8_valid_exec(v: &[u8]) -> (r: bool)
    ensures
        r == vstd::utf8::valid_utf8(v@),
{
    bytes_to_string(v).is_some()
}

/// Two strings hold the same bytes exactly when they hold the same
/// characters.
pub proof fn lemma_utf8_of_injective(a: Seq<char>, b: Seq<char>)
    requires
        utf8_of(a) == utf8_of(b),
    ensures
        a == b,
{
    vstd::utf8::encode_utf8_decode_utf8(a);
    vstd::utf8::encode_utf8_decode_utf8(b);
}

/// String equality, byte by byte.
pub fn str_eq(a: &str, b: &str) -> (r: bool)
    ensures
        r == (a@ == b@),
{
    let r = bytes_eq(a.as_bytes(), b.as_bytes());
    proof {
        if utf8_of(a@) == utf8_of(b@) {
            lemma_utf8_of_injective(a@, b@);
        }
    }
    r
}

/// ASCII-case-insensitive string comparison over the strings' bytes.
pub fn str_eq_ignore_ascii(a: &str, b: &str) -> (r: bool)
    ensures
        r == (lower_bytes(utf8_of(a@)) == lower_bytes(utf8_of(b@))),
{
    eq_ignore_ascii(a.as_bytes(), b.as_bytes())
}

/// Whether the bytes of `n` occur contiguously in the bytes of `h`.
pub fn str_contains(h: &str, n: &str) -> (r: bool)
    ensures
        r == contains_bytes(utf8_of(h@), utf8_of(n@)),
{
    contains_bytes_exec(h.as_bytes(), n.as_bytes())
}

/// Whether `m` is allowed by an allow-list: the list holds the wildcard
/// `*` or `m` itself.
pub open spec fn method_in(methods: Seq<Seq<char>>, m: Seq<char>) -> bool {
    exists|i: int| 0 <= i < methods.len() && (methods[i] == "*"@ || methods[i] == m)
}

/// Trusted conversion of UTF-8 bytes into an owned string.
///
/// Relies on `core::str::from_utf8`, which succeeds exactly on well-formed
/// UTF-8 and then carries the decoded characters.
#[verifier::external_body]
pub fn bytes_to_string(v: &[u8]) -> (r: Option<String>)
    ensures
        r.is_some() == vstd::utf8::valid_utf8(v@),
        r matches Some(s) ==> s@ == vstd::utf8::decode_utf8(v@),
{
    match core::str::from_utf8(v) {
        Ok(s) => Some(s.to_string()),
        Err(_) => None,
    }
}

/// Whether `b` is an ASCII decimal digit.
pub open spec fn is_digit(b: u8) -> bool {
    48 <= b && b <= 57
}

/// The number written by a sequence of decimal digit bytes.
pub open spec fn dec_value(s: Seq<u8>) -> int
    decreases s.len(),
{
    if s.len() == 0 {
        0
    } else {
        dec_value(s.drop_last()) * 10 + (s.last() - 48)
    }
}

/// Every byte is an ASCII decimal digit.
pub open spec fn all_digits(s: Seq<u8>) -> bool {
    forall|i: int| 0 <= i < s.len() ==> is_digit(s[i])
}

/// What parsing a decimal `u32` from bytes yields: an optional leading
/// `+`, then at least one digit and nothing else, with the value fitting
/// 32 bits.
pub open spec fn spec_parse_u32(s: Seq<u8>) -> Option<u32> {
    let digs = if s.len() > 0 && s[0] == 43 {
        s.subrange(1, s.len() as int)
    } else {
        s
    };
    if digs.len() > 0 && all_digits(digs) && dec_value(digs) <= u32::MAX {
        Some(dec_value(digs) as u32)
    } else {
        None
    }
}

/// Digit values never shrink as digits are appended.
proof fn lemma_dec_value_mono(s: Seq<u8>)
    requires
        forall|i: int| 0 <= i < s.len() ==> is_digit(s[i]),
    ensures
        dec_value(s) >= 0,
        forall|n: int|
            0 <= n <= s.len() ==> #[trigger] dec_value(s.subrange(0, n)) <= dec_value(s),
    decreases s.len(),
{
    if s.len() == 0 {
        assert(s.subrange(0, 0) =~= s);
    } else {
        lemma_dec_value_mono(s.drop_last());
        assert forall|n: int|
            0 <= n <= s.len() implies #[trigger] dec_value(s.subrange(0, n)) <= dec_value(s) by {
            if n < s.len() {
                assert(s.subrange(0, n) =~= s.drop_last().subrange(0, n));
            } else {
                assert(s.subrange(0, n) =~= s);
            }
        }
    }
}

/// Parse a decimal `u32`: an optional leading `+`, then digits only.
#[verifier::loop_isolation(false)]
pub fn parse_u32(s: &str) -> (r: Option<u32>)
    ensures
        r == spec_parse_u32(utf8_of(s@)),
{
    let b = s.as_bytes();
    proof {
        assert(b@ == utf8_of(s@));
    }
    let start: usize = if b.len() > 0 && b[0] == 43 {
        1
    } else {
        0
    };
    let ghost digs = if b@.len() > 0 && b@[0] == 43 {
        b@.subrange(1, b@.len() as int)
    } else {
        b@
    };
    if b.len() == start {
        return None;
    }
    let cap: u64 = 0x1_0000_0000;
    let mut acc: u64 = 0;
    let mut i: usize = start;
    while i < b.len()
        invariant
            start <= i <= b@.len(),
            start <= 1,
            digs =~= b@.subrange(start as int, b@.len() as int),
            forall|j: int| start <= j < i ==> is_digit(b@[j]),
            acc == vstd::math::min(dec_value(b@.subrange(start as int, i as int)), cap as int),
        decreases b@.len() - i,
    {
        let c = b[i];
        if c < 48 || c > 57 {
            proof {
                assert(digs[i - start] == b@[i as int]);
                assert(!is_digit(digs[i - start]));
                assert(!all_digits(digs));
            }
            return None;
        }
        let d = (c - 48) as u64;
        let t = if acc < cap {
            acc * 10 + d
        } else {
            cap
        };
        acc = if t > cap {
            cap
        } else {
            t
        };
        i += 1;
        proof {
            let pre = b@.subrange(start as int, i - 1);
            let now = b@.subrange(start as int, i as int);
            assert(now.drop_last() =~= pre);
            assert(now.last() == c);
        }
    }
    proof {
        assert(digs =~= b@.subrange(start as int, b@.len() as int));
        assert(all_digits(digs)) by {
            assert forall|j: int| 0 <= j < digs.len() implies is_digit(digs[j]) by {
                assert(digs[j] == b@[start + j]);
            }
        }
        lemma_dec_value_mono(digs);
    }
    if acc <= u32::MAX as u64 {
        Some(acc as u32)
    } else {
        None
    }
}

/// The decimal digit bytes of `n`, most significant first.
pub open spec fn dec_bytes(n: int) -> Seq<u8>
    decreases n,
{
    if n < 10 {
        seq![(48 + if n >= 0 { n } else { 0 }) as u8]
    } else {
        dec_bytes(n / 10) + seq![(48 + n % 10) as u8]
    }
}

/// Decimal digit bytes are ASCII digits.
pub proof fn lemma_dec_bytes_ascii(n: int)
    requires
        n >= 0,
    ensures
        forall|i: int| 0 <= i < dec_bytes(n).len() ==> is_digit(#[trigger] dec_bytes(n)[i]),
    decreases n,
{
    if n < 10 {
        assert(dec_bytes(n) =~= seq![(48 + n) as u8]);
    } else {
        lemma_dec_bytes_ascii(n / 10);
        assert forall|i: int| 0 <= i < dec_bytes(n).len() implies is_digit(
            #[trigger] dec_bytes(n)[i],
        ) by {
            if i < dec_bytes(n / 10).len() {
                assert(dec_bytes(n)[i] == dec_bytes(n / 10)[i]);
            } else {
                assert(dec_bytes(n)[i] == (48 + n % 10) as u8);
            }
        }
    }
}

/// Append the decimal digits of `n` to `out`.
fn push_dec(n: u64, out: &mut Vec<u8>)
    ensures
        final(out)@ == old(out)@ + dec_bytes(n as int),
    decreases n,
{
    if n < 10 {
        out.push(48 + n as u8);
        assert(final(out)@ =~= old(out)@ + dec_bytes(n as int));
    } else {
        push_dec(n / 10, out);
        out.push(48 + (n % 10) as u8);
        assert(final(out)@ =~= old(out)@ + dec_bytes(n as int));
    }
}

/// Render `n` in decimal.
pub fn u64_to_dec(n: u64) -> (r: String)
    ensures
        r@ == vstd::utf8::decode_utf8(dec_bytes(n as int)),
{
    let mut out: Vec<u8> = Vec::new();
    push_dec(n, &mut out);
    proof {
        lemma_dec_bytes_ascii(n as int);
        assert forall|i: int| 0 <= i < out@.len() implies out@[i] < 0x80 by {
            assert(is_digit(out@[i]));
        }
        lemma_ascii_valid_utf8(out@);
    }
    match bytes_to_string(out.as_slice()) {
        Some(s) => s,
        None => String::new(),
    }
}

/// The decimal rendering of a signed value: a minus sign for negatives,
/// then the digits of the magnitude.
pub open spec fn dec_bytes_signed(n: int) -> Seq<u8> {
    if n < 0 {
        seq![45u8] + dec_bytes(-n)
    } else {
        dec_bytes(n)
    }
}

/// Render a signed value in decimal.
pub fn i64_to_dec(n: i64) -> (r: String)
    ensures
        r@ == vstd::utf8::decode_utf8(dec_bytes_signed(n as int)),
{
    if n >= 0 {
        let r = u64_to_dec(n as u64);
        r
    } else {
        let mag: u64 = ((-(n + 1)) as u64) + 1;
        proof {
            assert(mag == -(n as int));
        }
        let mut out: Vec<u8> = Vec::new();
        out.push(45);
        push_dec(mag, &mut out);
        proof {
            assert(out@ =~= dec_bytes_signed(n as int));
            lemma_dec_bytes_ascii(mag as int);
            assert forall|i: int| 0 <= i < out@.len() implies out@[i] < 0x80 by {
                if i > 0 {
                    assert(out@[i] == dec_bytes(mag as int)[i - 1]);
                    assert(is_digit(out@[i]));
                }
            }
            lemma_ascii_valid_utf8(out@);
        }
        match bytes_to_string(out.as_slice()) {
            Some(s) => s,
            None => String::new(),
        }
    }
}

/// A byte sequence that is pure ASCII is well-formed UTF-8.
pub proof fn lemma_ascii_valid_utf8(s: Seq<u8>)
    requires
        forall|i: int| 0 <= i < s.len() ==> s[i] < 0x80,
    ensures
        vstd::utf8::valid_utf8(s),
    decreases s.len(),
{
    if s.len() > 0 {
        let b = s[0];
        assert((b & 0x7F) == b) by (bit_vector)
            requires
                b < 0x80,
        ;
        assert(vstd::utf8::valid_first_scalar(s));
        assert(vstd::utf8::length_of_first_scalar(s) == 1);
        assert(vstd::utf8::pop_first_scalar(s) =~= s.subrange(1, s.len() as int));
        lemma_ascii_valid_utf8(s.subrange(1, s.len() as int));
    }
}

/// Dropping an ASCII prefix from well-formed UTF-8 leaves well-formed
/// UTF-8.
pub proof fn lemma_valid_utf8_drop_ascii(s: Seq<u8>, k: int)
    requires
        vstd::utf8::valid_utf8(s),
        0 <= k <= s.len(),
        forall|j: int| 0 <= j < k ==> s[j] < 0x80,
    ensures
        vstd::utf8::valid_utf8(s.skip(k)),
    decreases k,
{
    if k == 0 {
        assert(s.skip(0) =~= s);
    } else {
        let b = s[0];
        assert((b & 0x7F) == b) by (bit_vector)
            requires
                b < 0x80,
        ;
        assert(vstd::utf8::length_of_first_scalar(s) == 1);
        assert(vstd::utf8::pop_first_scalar(s) =~= s.skip(1));
        assert forall|j: int| 0 <= j < k - 1 implies s.skip(1)[j] < 0x80 by {
            assert(s.skip(1)[j] == s[j + 1]);
        }
        lemma_valid_utf8_drop_ascii(s.skip(1), k - 1);
        assert(s.skip(1).skip(k - 1) =~= s.skip(k));
    }
}

/// The character sequences of a sequence of strings.
pub open spec fn views(v: Seq<String>) -> Seq<Seq<char>> {
    v.map_values(|s: String| s@)
}

/// Pointwise reading of [`views`].
pub proof fn lemma_views_index(v: Seq<String>)
    ensures
        views(v).len() == v.len(),
        forall|i: int| 0 <= i < v.len() ==> #[trigger] views(v)[i] == v[i]@,
{
    assert forall|i: int| 0 <= i < v.len() implies #[trigger] views(v)[i] == v[i]@ by {
        assert(views(v)[i] == v.map_values(|s: String| s@)[i]);
    }
}

} // verus!
