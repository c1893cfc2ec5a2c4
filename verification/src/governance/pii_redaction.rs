//! Detection of personally identifiable information in text.
//!
//! The detectors are byte-oriented and need no regular expressions:
//! a social security number is the exact mask `DDD-DD-DDDD`; a card number
//! is a run of exactly sixteen digits interspersed with spaces or hyphens
//! (no checksum — a documented limit); an email is anchored on each `@`,
//! walking left and right to the surrounding separators and requiring a
//! dot after the `@`; a phone number is a run of at least ten digits with
//! common separators, except that a run which overlaps a card number is
//! reported as the card alone. Positions are byte positions in the
//! scanned text.

use crate::text::{is_digit, utf8_of};
use vstd::prelude::*;
use vstd::string::StringExecFns;

verus! {

/// PII kinds that can be detected.
#[derive(Debug, Clone, Copy, PartialEq, Eq, Structural)]
pub enum PiiType {
    /// Social Security Number (`DDD-DD-DDDD`).
    Ssn,
    /// Credit card number (16 digits with optional separators).
    CreditCard,
    /// Email address.
    Email,
    /// Phone number (10 or more digits with optional separators).
    Phone,
}

impl PiiType {
    /// The redaction placeholder for this PII kind.
    pub fn placeholder(&self) -> (r: &'static str)
        ensures
            r@ == match self {
                PiiType::Ssn => "[SSN REDACTED]"@,
                PiiType::CreditCard => "[CREDIT CARD REDACTED]"@,
                PiiType::Email => "[EMAIL REDACTED]"@,
                PiiType::Phone => "[PHONE REDACTED]"@,
            },
    {
        match self {
            PiiType::Ssn => "[SSN REDACTED]",
            PiiType::CreditCard => "[CREDIT CARD REDACTED]",
            PiiType::Email => "[EMAIL REDACTED]",
            PiiType::Phone => "[PHONE REDACTED]",
        }
    }
}

/// One detected span.
#[derive(Debug, Clone)]
pub struct PiiMatch {
    /// The detected kind.
    pub pii_type: PiiType,
    /// Byte position where the span starts.
    pub start: usize,
    /// Byte position just past the span.
    pub end: usize,
    /// A partially masked rendering for logging.
    pub value_hint: String,
}

/// Action to take when PII is detected.
#[derive(Debug, Clone, Copy, PartialEq, Eq, Structural)]
pub enum PiiAction {
    /// Only log the detection.
    Log,
    /// Replace the span with the kind's placeholder.
    Redact,
    /// Block the request.
    Block,
}

/// Whether `b` is an ASCII decimal digit.
fn digit_exec(b: u8) -> (r: bool)
    ensures
        r == is_digit(b),
{
    48 <= b && b <= 57
}

/// The SSN mask `DDD-DD-DDDD` sits at position `i`.
pub open spec fn ssn_at(t: Seq<u8>, i: int) -> bool {
    &&& 0 <= i && i + 11 <= t.len()
    &&& is_digit(t[i]) && is_digit(t[i + 1]) && is_digit(t[i + 2])
    &&& t[i + 3] == 45
    &&& is_digit(t[i + 4]) && is_digit(t[i + 5])
    &&& t[i + 6] == 45
    &&& is_digit(t[i + 7]) && is_digit(t[i + 8]) && is_digit(t[i + 9]) && is_digit(t[i + 10])
}

/// The bytes of the SSN hint: all but the last four digits masked
/// (`***-**-` and then the four final digits).
pub open spec fn ssn_hint_bytes(t: Seq<u8>, i: int) -> Seq<u8> {
    seq![42u8, 42u8, 42u8, 45u8, 42u8, 42u8, 45u8] + t.subrange(i + 7, i + 11)
}

/// The SSN spans found from position `i` on: each hit is recorded and the
/// scan resumes just past it.
pub open spec fn ssn_list(t: Seq<u8>, i: int) -> Seq<(int, int)>
    decreases t.len() - i,
    when 0 <= i
{
    if i + 11 > t.len() {
        Seq::empty()
    } else if ssn_at(t, i) {
        seq![(i, i + 11)] + ssn_list(t, i + 11)
    } else {
        ssn_list(t, i + 1)
    }
}

/// Whether `b` may appear inside a card-number run without being a digit.
pub open spec fn card_sep(b: u8) -> bool {
    b == 45 || b == 32
}

/// Walk a card run from `j` with `count` digits seen: the position just
/// past the sixteenth digit, if the run reaches sixteen digits before a
/// foreign byte.
pub open spec fn card_end_from(t: Seq<u8>, j: int, count: int) -> Option<int>
    decreases t.len() - j,
    when 0 <= j
{
    if j >= t.len() {
        None
    } else if is_digit(t[j]) {
        if count + 1 == 16 {
            Some(j + 1)
        } else {
            card_end_from(t, j + 1, count + 1)
        }
    } else if card_sep(t[j]) {
        card_end_from(t, j + 1, count)
    } else {
        None
    }
}

/// The card spans found from position `i` on.
pub open spec fn card_list(t: Seq<u8>, i: int) -> Seq<(int, int)>
    decreases t.len() - i,
    when 0 <= i
{
    if i >= t.len() {
        Seq::empty()
    } else {
        match card_end_from(t, i, 0) {
            Some(e) => if i < e <= t.len() {
                seq![(i, e)] + card_list(t, e)
            } else {
                Seq::empty()
            },
            None => card_list(t, i + 1),
        }
    }
}

/// Whether `b` is an ASCII whitespace byte.
pub open spec fn ascii_ws(b: u8) -> bool {
    b == 32 || b == 9 || b == 10 || b == 11 || b == 12 || b == 13
}

/// Bytes that bound an email on its left: whitespace, `<` or `"`.
pub open spec fn email_sep_left(b: u8) -> bool {
    ascii_ws(b) || b == 60 || b == 34
}

/// Bytes that bound an email on its right: whitespace, `>` or `"`.
pub open spec fn email_sep_right(b: u8) -> bool {
    ascii_ws(b) || b == 62 || b == 34
}

/// Where the email anchored at `i` starts: just past the nearest left
/// separator.
pub open spec fn email_left(t: Seq<u8>, i: int) -> int
    decreases i,
    when 0 <= i <= t.len()
{
    if i <= 0 {
        0
    } else if email_sep_left(t[i - 1]) {
        i
    } else {
        email_left(t, i - 1)
    }
}

/// Where the email anchored before `j` ends: the nearest right separator
/// at or after `j`, or the end of the text.
pub open spec fn email_right(t: Seq<u8>, j: int) -> int
    decreases t.len() - j,
    when 0 <= j <= t.len()
{
    if j >= t.len() {
        t.len() as int
    } else if email_sep_right(t[j]) {
        j
    } else {
        email_right(t, j + 1)
    }
}

/// The `@` at position `i` anchors an email: a non-empty left side, a
/// non-empty right side, and a dot somewhere after the `@`.
pub open spec fn email_at(t: Seq<u8>, i: int) -> bool {
    &&& 0 <= i < t.len()
    &&& t[i] == 64
    &&& email_left(t, i) < i
    &&& email_right(t, i + 1) > i + 1
    &&& exists|k: int| i + 1 <= k < email_right(t, i + 1) && t[k] == 46
}

/// The email spans found from position `i` on: one per anchoring `@`.
pub open spec fn email_list(t: Seq<u8>, i: int) -> Seq<(int, int)>
    decreases t.len() - i,
    when 0 <= i
{
    if i >= t.len() {
        Seq::empty()
    } else if t[i] == 64 && email_at(t, i) {
        seq![(email_left(t, i), email_right(t, i + 1))] + email_list(t, i + 1)
    } else {
        email_list(t, i + 1)
    }
}

/// Whether `b` may appear inside a phone-number run without being a digit.
pub open spec fn phone_sep(b: u8) -> bool {
    b == 45 || b == 32 || b == 40 || b == 41 || b == 46
}

/// Walk a phone run from `j`: the digit count and the position just past
/// the last counted byte, where separators extend the span once a digit
/// has been seen.
pub open spec fn phone_walk(t: Seq<u8>, j: int, count: int, end: int) -> (int, int)
    decreases t.len() - j,
    when 0 <= j
{
    if j >= t.len() {
        (count, end)
    } else if is_digit(t[j]) {
        phone_walk(t, j + 1, count + 1, j + 1)
    } else if phone_sep(t[j]) {
        phone_walk(t, j + 1, count, if count > 0 {
            j + 1
        } else {
            end
        })
    } else {
        (count, end)
    }
}

/// The phone span starting at `i`, if its run reaches ten digits.
pub open spec fn phone_at(t: Seq<u8>, i: int) -> Option<int> {
    let walk = phone_walk(t, i, 0, i);
    if walk.0 >= 10 {
        Some(walk.1)
    } else {
        None
    }
}

/// A phone walk never moves its end before where it started, nor past the
/// text, and counts at most the bytes it saw.
pub proof fn lemma_phone_walk_bounds(t: Seq<u8>, j: int, count: int, end: int)
    requires
        0 <= j <= t.len(),
        end <= j,
    ensures
        ({
            let walk = phone_walk(t, j, count, end);
            end <= walk.1 <= t.len() && walk.0 <= count + (t.len() - j) && (walk.0 > count
                ==> walk.1 > j)
        }),
    decreases t.len() - j,
{
    if j < t.len() && is_digit(t[j]) {
        lemma_phone_walk_bounds(t, j + 1, count + 1, j + 1);
    } else if j < t.len() && phone_sep(t[j]) {
        lemma_phone_walk_bounds(
            t,
            j + 1,
            count,
            if count > 0 {
                j + 1
            } else {
                end
            },
        );
    }
}

/// The phone spans found from position `i` on.
pub open spec fn phone_list(t: Seq<u8>, i: int) -> Seq<(int, int)>
    decreases t.len() - i,
    when 0 <= i
{
    if i >= t.len() {
        Seq::empty()
    } else {
        match phone_at(t, i) {
            Some(e) => if i < e <= t.len() {
                seq![(i, e)] + phone_list(t, e)
            } else {
                Seq::empty()
            },
            None => phone_list(t, i + 1),
        }
    }
}

/// Two spans overlap.
pub open spec fn spans_overlap(a: (int, int), b: (int, int)) -> bool {
    a.0 < b.1 && b.0 < a.1
}

/// Whether some card span overlaps `p`.
pub open spec fn overlaps_any(cards: Seq<(int, int)>, p: (int, int)) -> bool {
    exists|i: int| 0 <= i < cards.len() && spans_overlap(cards[i], p)
}

/// The phone spans kept for reporting: a digit run that overlaps a card
/// span is the card, not a phone.
pub open spec fn phones_kept(phones: Seq<(int, int)>, cards: Seq<(int, int)>) -> Seq<(int, int)>
    decreases phones.len(),
{
    if phones.len() == 0 {
        Seq::empty()
    } else if overlaps_any(cards, phones[0]) {
        phones_kept(phones.subrange(1, phones.len() as int), cards)
    } else {
        seq![phones[0]] + phones_kept(phones.subrange(1, phones.len() as int), cards)
    }
}

/// A PII match from a span list has the expected kind, span, and hint.
pub open spec fn match_fields(
    m: PiiMatch,
    ty: PiiType,
    span: (int, int),
    hint: Seq<char>,
) -> bool {
    m.pii_type == ty && m.start == span.0 && m.end == span.1 && m.value_hint@ == hint
}

/// Detects and describes PII spans in text.
pub struct PiiRedactor {
    log_detections: bool,
    action: PiiAction,
}

impl PiiRedactor {
    /// The configured action.
    pub closed spec fn action_spec(&self) -> PiiAction {
        self.action
    }

    /// A redactor that responds to detections with `action`.
    pub fn new(action: PiiAction) -> (r: PiiRedactor)
        ensures
            r.action_spec() == action,
    {
        PiiRedactor { log_detections: true, action }
    }

    /// The configured action.
    pub fn action(&self) -> (r: PiiAction)
        ensures
            r == self.action_spec(),
    {
        self.action
    }

    /// Scan text for PII: all SSN spans, then card spans, then email
    /// spans, then phone spans, in that order.
    pub fn scan(&self, text: &str) -> (r: Vec<PiiMatch>)
        ensures
            ({
                let t = utf8_of(text@);
                let ssns = ssn_list(t, 0);
                let cards = card_list(t, 0);
                let emails = email_list(t, 0);
                let phones = phones_kept(phone_list(t, 0), cards);
                &&& r@.len() == ssns.len() + cards.len() + emails.len() + phones.len()
                &&& forall|k: int|
                    0 <= k < ssns.len() ==> match_fields(
                        #[trigger] r@[k],
                        PiiType::Ssn,
                        ssns[k],
                        vstd::utf8::decode_utf8(ssn_hint_bytes(t, ssns[k].0)),
                    )
                &&& forall|k: int|
                    0 <= k < cards.len() ==> match_fields(
                        #[trigger] r@[ssns.len() + k],
                        PiiType::CreditCard,
                        cards[k],
                        "****-****-****-****"@,
                    )
                &&& forall|k: int|
                    0 <= k < emails.len() ==> match_fields(
                        #[trigger] r@[ssns.len() + cards.len() + k],
                        PiiType::Email,
                        emails[k],
                        "[EMAIL]"@,
                    )
                &&& forall|k: int|
                    0 <= k < phones.len() ==> match_fields(
                        #[trigger] r@[ssns.len() + cards.len() + emails.len() + k],
                        PiiType::Phone,
                        phones[k],
                        "***-***-****"@,
                    )
            }),
    {
        let bytes = text.as_bytes();
        let mut matches: Vec<PiiMatch> = Self::scan_ssn(bytes);
        let mut cards = Self::scan_credit_card(bytes);
        let mut emails = Self::scan_email(bytes);
        let mut phones = Self::filter_phones(Self::scan_phone(bytes), &cards, Ghost(bytes@));
        matches.append(&mut cards);
        matches.append(&mut emails);
        matches.append(&mut phones);
        matches
    }

    /// Drop phone matches whose span overlaps a card match.
    #[verifier::loop_isolation(false)]
    fn filter_phones(phones: Vec<PiiMatch>, cards: &Vec<PiiMatch>, t: Ghost<Seq<u8>>) -> (r: Vec<
        PiiMatch,
    >)
        requires
            ({
                let phone_spans = phone_list(t@, 0);
                &&& phones@.len() == phone_spans.len()
                &&& forall|k: int|
                    0 <= k < phone_spans.len() ==> match_fields(
                        #[trigger] phones@[k],
                        PiiType::Phone,
                        phone_spans[k],
                        "***-***-****"@,
                    )
            }),
            ({
                let card_spans = card_list(t@, 0);
                &&& cards@.len() == card_spans.len()
                &&& forall|k: int|
                    0 <= k < card_spans.len() ==> match_fields(
                        #[trigger] cards@[k],
                        PiiType::CreditCard,
                        card_spans[k],
                        "****-****-****-****"@,
                    )
            }),
        ensures
            ({
                let kept = phones_kept(phone_list(t@, 0), card_list(t@, 0));
                &&& r@.len() == kept.len()
                &&& forall|k: int|
                    0 <= k < kept.len() ==> match_fields(
                        #[trigger] r@[k],
                        PiiType::Phone,
                        kept[k],
                        "***-***-****"@,
                    )
            }),
    {
        let ghost phone_spans = phone_list(t@, 0);
        let ghost card_spans = card_list(t@, 0);
        let mut out: Vec<PiiMatch> = Vec::new();
        let ghost mut emitted: Seq<(int, int)> = Seq::empty();
        proof {
            assert(phone_spans.subrange(0, phone_spans.len() as int) =~= phone_spans);
            assert(emitted + phones_kept(phone_spans, card_spans) =~= phones_kept(
                phone_spans,
                card_spans,
            ));
        }
        let mut i: usize = 0;
        while i < phones.len()
            invariant
                i <= phones@.len(),
                phones_kept(phone_spans, card_spans) == emitted + phones_kept(
                    phone_spans.subrange(i as int, phone_spans.len() as int),
                    card_spans,
                ),
                out@.len() == emitted.len(),
                forall|k: int|
                    0 <= k < emitted.len() ==> match_fields(
                        #[trigger] out@[k],
                        PiiType::Phone,
                        emitted[k],
                        "***-***-****"@,
                    ),
            decreases phones@.len() - i,
        {
            let ghost rest = phone_spans.subrange(i as int, phone_spans.len() as int);
            proof {
                assert(rest[0] == phone_spans[i as int]);
                assert(rest.subrange(1, rest.len() as int) =~= phone_spans.subrange(
                    i as int + 1,
                    phone_spans.len() as int,
                ));
            }
            let m = &phones[i];
            let mut overlap = false;
            let mut k: usize = 0;
            while k < cards.len()
                invariant
                    k <= cards@.len(),
                    i < phones@.len(),
                    overlap ==> overlaps_any(card_spans, phone_spans[i as int]),
                    !overlap ==> forall|j: int|
                        0 <= j < k ==> !spans_overlap(card_spans[j], phone_spans[i as int]),
                decreases cards@.len() - k,
            {
                let c = &cards[k];
                if m.start < c.end && c.start < m.end {
                    proof {
                        assert(spans_overlap(card_spans[k as int], phone_spans[i as int]));
                    }
                    overlap = true;
                }
                k += 1;
            }
            if !overlap {
                out.push(
                    PiiMatch {
                        pii_type: PiiType::Phone,
                        start: m.start,
                        end: m.end,
                        value_hint: "***-***-****".to_owned(),
                    },
                );
                proof {
                    assert(!overlaps_any(card_spans, phone_spans[i as int]));
                    let span = phone_spans[i as int];
                    assert(emitted + (seq![span] + phones_kept(
                        rest.subrange(1, rest.len() as int),
                        card_spans,
                    )) =~= emitted.push(span) + phones_kept(
                        rest.subrange(1, rest.len() as int),
                        card_spans,
                    ));
                    emitted = emitted.push(span);
                }
            }
            i += 1;
        }
        proof {
            assert(phone_spans.subrange(i as int, phone_spans.len() as int) =~= Seq::<(
                int,
                int,
            )>::empty());
            assert(emitted + phones_kept(
                phone_spans.subrange(i as int, phone_spans.len() as int),
                card_spans,
            ) =~= emitted);
        }
        out
    }

    /// Whether any PII is present.
    pub fn contains_pii(&self, text: &str) -> (r: bool)
        ensures
            ({
                let t = utf8_of(text@);
                r == (ssn_list(t, 0).len() + card_list(t, 0).len() + email_list(t, 0).len()
                    + phones_kept(phone_list(t, 0), card_list(t, 0)).len() > 0)
            }),
    {
        self.scan(text).len() > 0
    }

    /// Scan for the SSN mask at each byte position.
    #[verifier::loop_isolation(false)]
    fn scan_ssn(bytes: &[u8]) -> (r: Vec<PiiMatch>)
        ensures
            ({
                let t = bytes@;
                let ssns = ssn_list(t, 0);
                &&& r@.len() == ssns.len()
                &&& forall|k: int|
                    0 <= k < ssns.len() ==> match_fields(
                        #[trigger] r@[k],
                        PiiType::Ssn,
                        ssns[k],
                        vstd::utf8::decode_utf8(ssn_hint_bytes(t, ssns[k].0)),
                    )
            }),
    {
        let ghost t = bytes@;
        let mut out: Vec<PiiMatch> = Vec::new();
        let ghost mut emitted: Seq<(int, int)> = Seq::empty();
        proof {
            assert(emitted + ssn_list(t, 0) =~= ssn_list(t, 0));
        }
        let mut i: usize = 0;
        while i < bytes.len() && bytes.len() - i >= 11
            invariant
                0 <= i,
                ssn_list(t, 0) == emitted + ssn_list(t, i as int),
                out@.len() == emitted.len(),
                forall|k: int|
                    0 <= k < emitted.len() ==> match_fields(
                        #[trigger] out@[k],
                        PiiType::Ssn,
                        emitted[k],
                        vstd::utf8::decode_utf8(ssn_hint_bytes(t, emitted[k].0)),
                    ),
            decreases bytes.len() - i,
        {
            if digit_exec(bytes[i]) && digit_exec(bytes[i + 1]) && digit_exec(bytes[i + 2])
                && bytes[i + 3] == 45 && digit_exec(bytes[i + 4]) && digit_exec(bytes[i + 5])
                && bytes[i + 6] == 45 && digit_exec(bytes[i + 7]) && digit_exec(bytes[i + 8])
                && digit_exec(bytes[i + 9]) && digit_exec(bytes[i + 10]) {
                let hint = Self::ssn_hint(bytes, i);
                out.push(
                    PiiMatch { pii_type: PiiType::Ssn, start: i, end: i + 11, value_hint: hint },
                );
                proof {
                    assert(ssn_at(t, i as int));
                    let span = (i as int, i + 11int);
                    assert(emitted + (seq![span] + ssn_list(t, i + 11int)) =~= emitted.push(span)
                        + ssn_list(t, i + 11int));
                    emitted = emitted.push(span);
                }
                i += 11;
            } else {
                proof {
                    assert(!ssn_at(t, i as int));
                }
                i += 1;
            }
        }
        proof {
            assert(ssn_list(t, i as int) =~= Seq::<(int, int)>::empty());
            assert(emitted + ssn_list(t, i as int) =~= emitted);
        }
        out
    }

    /// The SSN hint: all but the last four digits masked.
    #[verifier::loop_isolation(false)]
    fn ssn_hint(bytes: &[u8], i: usize) -> (r: String)
        requires
            ssn_at(bytes@, i as int),
        ensures
            r@ == vstd::utf8::decode_utf8(ssn_hint_bytes(bytes@, i as int)),
    {
        let blen = bytes.len();
        proof {
            assert(blen == bytes@.len());
        }
        let mut hb: Vec<u8> = Vec::new();
        hb.push(42);
        hb.push(42);
        hb.push(42);
        hb.push(45);
        hb.push(42);
        hb.push(42);
        hb.push(45);
        proof {
            assert(hb@ =~= seq![42u8, 42u8, 42u8, 45u8, 42u8, 42u8, 45u8]);
        }
        let ghost head = hb@;
        let mut k2: usize = 0;
        while k2 < 4
            invariant
                k2 <= 4,
                hb@ == head + bytes@.subrange(i + 7, i + 7 + k2),
            decreases 4 - k2,
        {
            hb.push(bytes[i + 7 + k2]);
            k2 += 1;
            proof {
                assert(hb@ =~= head + bytes@.subrange(i + 7, i + 7 + k2));
            }
        }
        proof {
            assert(hb@ == ssn_hint_bytes(bytes@, i as int));
            assert forall|j: int| 0 <= j < hb@.len() implies hb@[j] < 0x80 by {
                if j >= 7 {
                    assert(hb@[j] == bytes@[i + j]);
                    assert(is_digit(bytes@[i + j]));
                }
            }
            crate::text::lemma_ascii_valid_utf8(hb@);
        }
        match crate::text::bytes_to_string(hb.as_slice()) {
            Some(s) => s,
            None => String::new(),
        }
    }

    /// Scan for sixteen-digit card runs.
    #[verifier::loop_isolation(false)]
    fn scan_credit_card(bytes: &[u8]) -> (r: Vec<PiiMatch>)
        ensures
            ({
                let t = bytes@;
                let cards = card_list(t, 0);
                &&& r@.len() == cards.len()
                &&& forall|k: int|
                    0 <= k < cards.len() ==> match_fields(
                        #[trigger] r@[k],
                        PiiType::CreditCard,
                        cards[k],
                        "****-****-****-****"@,
                    )
            }),
    {
        let ghost t = bytes@;
        let mut out: Vec<PiiMatch> = Vec::new();
        let ghost mut emitted: Seq<(int, int)> = Seq::empty();
        proof {
            assert(emitted + card_list(t, 0) =~= card_list(t, 0));
        }
        let mut i: usize = 0;
        while i < bytes.len()
            invariant
                0 <= i,
                card_list(t, 0) == emitted + card_list(t, i as int),
                out@.len() == emitted.len(),
                forall|k: int|
                    0 <= k < emitted.len() ==> match_fields(
                        #[trigger] out@[k],
                        PiiType::CreditCard,
                        emitted[k],
                        "****-****-****-****"@,
                    ),
            decreases bytes.len() - i,
        {
            match Self::card_run_end(bytes, i) {
                Some(e) => {
                    out.push(
                        PiiMatch {
                            pii_type: PiiType::CreditCard,
                            start: i,
                            end: e,
                            value_hint: "****-****-****-****".to_owned(),
                        },
                    );
                    proof {
                        let span = (i as int, e as int);
                        assert(emitted + (seq![span] + card_list(t, e as int)) =~= emitted.push(
                            span,
                        ) + card_list(t, e as int));
                        emitted = emitted.push(span);
                    }
                    i = e;
                },
                None => {
                    i += 1;
                },
            }
        }
        proof {
            assert(card_list(t, i as int) =~= Seq::<(int, int)>::empty());
            assert(emitted + card_list(t, i as int) =~= emitted);
        }
        out
    }

    /// Walk a card run from `i`: the end of a sixteen-digit run, if any.
    #[verifier::loop_isolation(false)]
    fn card_run_end(bytes: &[u8], i: usize) -> (r: Option<usize>)
        requires
            i < bytes@.len(),
        ensures
            match r {
                Some(e) => card_end_from(bytes@, i as int, 0) == Some(e as int) && i < e
                    <= bytes@.len(),
                None => card_end_from(bytes@, i as int, 0) is None,
            },
    {
        let ghost t = bytes@;
        let mut j: usize = i;
        let mut count: u32 = 0;
        while j < bytes.len()
            invariant
                i <= j,
                count <= 15,
                card_end_from(t, i as int, 0) == card_end_from(t, j as int, count as int),
            decreases bytes.len() - j,
        {
            let b = bytes[j];
            if b >= 48 && b <= 57 {
                if count + 1 == 16 {
                    return Some(j + 1);
                }
                count = count + 1;
            } else if b == 45 || b == 32 {
            } else {
                return None;
            }
            j += 1;
        }
        None
    }

    /// Scan for emails anchored on each `@`.
    #[verifier::loop_isolation(false)]
    fn scan_email(bytes: &[u8]) -> (r: Vec<PiiMatch>)
        ensures
            ({
                let t = bytes@;
                let emails = email_list(t, 0);
                &&& r@.len() == emails.len()
                &&& forall|k: int|
                    0 <= k < emails.len() ==> match_fields(
                        #[trigger] r@[k],
                        PiiType::Email,
                        emails[k],
                        "[EMAIL]"@,
                    )
            }),
    {
        let ghost t = bytes@;
        let mut out: Vec<PiiMatch> = Vec::new();
        let ghost mut emitted: Seq<(int, int)> = Seq::empty();
        proof {
            assert(emitted + email_list(t, 0) =~= email_list(t, 0));
        }
        let mut i: usize = 0;
        while i < bytes.len()
            invariant
                0 <= i,
                email_list(t, 0) == emitted + email_list(t, i as int),
                out@.len() == emitted.len(),
                forall|k: int|
                    0 <= k < emitted.len() ==> match_fields(
                        #[trigger] out@[k],
                        PiiType::Email,
                        emitted[k],
                        "[EMAIL]"@,
                    ),
            decreases bytes.len() - i,
        {
            if bytes[i] == 64 {
                let s = Self::email_left_exec(bytes, i);
                let e = Self::email_right_exec(bytes, i + 1);
                let mut has_dot = false;
                let mut k: usize = i + 1;
                while k < e
                    invariant
                        i + 1 <= k <= e,
                        e <= bytes@.len(),
                        has_dot == (exists|d: int| i + 1 <= d < k && t[d] == 46),
                    decreases e - k,
                {
                    if bytes[k] == 46 {
                        has_dot = true;
                    }
                    k += 1;
                }
                if s < i && e > i + 1 && has_dot {
                    proof {
                        assert(email_at(t, i as int));
                    }
                    out.push(
                        PiiMatch {
                            pii_type: PiiType::Email,
                            start: s,
                            end: e,
                            value_hint: "[EMAIL]".to_owned(),
                        },
                    );
                    proof {
                        let span = (s as int, e as int);
                        assert(emitted + (seq![span] + email_list(t, i + 1int)) =~= emitted.push(
                            span,
                        ) + email_list(t, i + 1int));
                        emitted = emitted.push(span);
                    }
                } else {
                    proof {
                        assert(!email_at(t, i as int));
                    }
                }
            }
            i += 1;
        }
        proof {
            assert(email_list(t, i as int) =~= Seq::<(int, int)>::empty());
            assert(emitted + email_list(t, i as int) =~= emitted);
        }
        out
    }

    /// Walk left from the `@` to the nearest separator.
    #[verifier::loop_isolation(false)]
    fn email_left_exec(bytes: &[u8], i: usize) -> (r: usize)
        requires
            i <= bytes@.len(),
        ensures
            r == email_left(bytes@, i as int),
            r <= i,
    {
        let mut s: usize = i;
        while s > 0 && !(bytes[s - 1] == 32 || bytes[s - 1] == 9 || bytes[s - 1] == 10 || bytes[s
            - 1] == 11 || bytes[s - 1] == 12 || bytes[s - 1] == 13 || bytes[s - 1] == 60 || bytes[s
            - 1] == 34)
            invariant
                0 <= s <= i,
                email_left(bytes@, i as int) == email_left(bytes@, s as int),
            decreases s,
        {
            s -= 1;
        }
        s
    }

    /// Walk right from past the `@` to the nearest separator.
    #[verifier::loop_isolation(false)]
    fn email_right_exec(bytes: &[u8], j: usize) -> (r: usize)
        requires
            j <= bytes@.len(),
        ensures
            r == email_right(bytes@, j as int),
            j <= r <= bytes@.len(),
    {
        let mut e: usize = j;
        while e < bytes.len() && !(bytes[e] == 32 || bytes[e] == 9 || bytes[e] == 10 || bytes[e]
            == 11 || bytes[e] == 12 || bytes[e] == 13 || bytes[e] == 62 || bytes[e] == 34)
            invariant
                j <= e <= bytes@.len(),
                email_right(bytes@, j as int) == email_right(bytes@, e as int),
            decreases bytes@.len() - e,
        {
            e += 1;
        }
        e
    }

    /// Scan for phone-number runs of at least ten digits.
    #[verifier::loop_isolation(false)]
    fn scan_phone(bytes: &[u8]) -> (r: Vec<PiiMatch>)
        ensures
            ({
                let t = bytes@;
                let phones = phone_list(t, 0);
                &&& r@.len() == phones.len()
                &&& forall|k: int|
                    0 <= k < phones.len() ==> match_fields(
                        #[trigger] r@[k],
                        PiiType::Phone,
                        phones[k],
                        "***-***-****"@,
                    )
            }),
    {
        let ghost t = bytes@;
        let mut out: Vec<PiiMatch> = Vec::new();
        let ghost mut emitted: Seq<(int, int)> = Seq::empty();
        proof {
            assert(emitted + phone_list(t, 0) =~= phone_list(t, 0));
        }
        let mut i: usize = 0;
        while i < bytes.len()
            invariant
                0 <= i,
                phone_list(t, 0) == emitted + phone_list(t, i as int),
                out@.len() == emitted.len(),
                forall|k: int|
                    0 <= k < emitted.len() ==> match_fields(
                        #[trigger] out@[k],
                        PiiType::Phone,
                        emitted[k],
                        "***-***-****"@,
                    ),
            decreases bytes.len() - i,
        {
            match Self::phone_run_end(bytes, i) {
                Some(e) => {
                    out.push(
                        PiiMatch {
                            pii_type: PiiType::Phone,
                            start: i,
                            end: e,
                            value_hint: "***-***-****".to_owned(),
                        },
                    );
                    proof {
                        let span = (i as int, e as int);
                        assert(emitted + (seq![span] + phone_list(t, e as int)) =~= emitted.push(
                            span,
                        ) + phone_list(t, e as int));
                        emitted = emitted.push(span);
                    }
                    i = e;
                },
                None => {
                    i += 1;
                },
            }
        }
        proof {
            assert(phone_list(t, i as int) =~= Seq::<(int, int)>::empty());
            assert(emitted + phone_list(t, i as int) =~= emitted);
        }
        out
    }

    /// Walk a phone run from `i`: the end of a run of at least ten digits,
    /// if any.
    #[verifier::loop_isolation(false)]
    fn phone_run_end(bytes: &[u8], i: usize) -> (r: Option<usize>)
        requires
            i < bytes@.len(),
        ensures
            match r {
                Some(e) => phone_at(bytes@, i as int) == Some(e as int) && i < e <= bytes@.len(),
                None => phone_at(bytes@, i as int) is None,
            },
    {
        let ghost t = bytes@;
        let mut j: usize = i;
        let mut count: usize = 0;
        let mut end: usize = i;
        while j < bytes.len() && (bytes[j] >= 48 && bytes[j] <= 57 || bytes[j] == 45 || bytes[j]
            == 32 || bytes[j] == 40 || bytes[j] == 41 || bytes[j] == 46)
            invariant
                i <= j <= bytes@.len(),
                i <= end <= j,
                count <= j - i,
                count > 0 ==> end > i,
                phone_walk(t, i as int, 0, i as int) == phone_walk(
                    t,
                    j as int,
                    count as int,
                    end as int,
                ),
            decreases bytes.len() - j,
        {
            let b = bytes[j];
            if b >= 48 && b <= 57 {
                count += 1;
                end = j + 1;
            } else {
                if count > 0 {
                    end = j + 1;
                }
            }
            j += 1;
        }
        proof {
            assert(phone_walk(t, j as int, count as int, end as int) == (
                count as int,
                end as int,
            ));
        }
        if count >= 10 {
            Some(end)
        } else {
            None
        }
    }
}

impl Default for PiiRedactor {
    /// A redactor that only logs.
    fn default() -> (r: PiiRedactor)
        ensures
            r.action_spec() == PiiAction::Log,
    {
        PiiRedactor::new(PiiAction::Log)
    }
}

} // verus!
