//! Token-usage extraction from provider responses, for cost attribution.
//!
//! Two response shapes are recognized: one carrying
//! `usage.prompt_tokens` / `usage.completion_tokens` / `usage.total_tokens`,
//! and one carrying `usage.input_tokens` / `usage.output_tokens`. A total
//! that is absent or zero is normalized to prompt plus completion. Costs
//! are integers in micro-dollars, computed from a static per-model pricing
//! table matched by substring against the reported model identifier; an
//! unknown model leaves the cost unset. Counters can also be probed from
//! response headers that proxies lift the counts into.

use crate::text::{contains_bytes, lower_bytes, spec_parse_u32, utf8_of};
use vstd::prelude::*;

verus! {

/// Token usage extracted from one response.
#[derive(Debug, Clone)]
pub struct TokenUsage {
    /// Tokens in the prompt.
    pub prompt_tokens: u32,
    /// Tokens in the completion.
    pub completion_tokens: u32,
    /// Total tokens used.
    pub total_tokens: u32,
    /// Estimated cost in micro-dollars, when the model is priced.
    pub estimated_cost_micro_usd: Option<u64>,
    /// Model identifier, when reported.
    pub model: Option<String>,
}

/// Usage after normalization: the total is prompt plus completion,
/// saturated at the counter's width; a provider-reported total is not
/// trusted over its own parts.
pub open spec fn spec_normalized(u: TokenUsage) -> TokenUsage {
    TokenUsage {
        total_tokens: vstd::math::min(
            u.prompt_tokens + u.completion_tokens,
            u32::MAX as int,
        ) as u32,
        ..u
    }
}

/// Law: normalization is idempotent — applying it any number of times
/// changes nothing after the first application.
pub proof fn lemma_normalize_idempotent(u: TokenUsage)
    ensures
        spec_normalized(spec_normalized(u)) == spec_normalized(u),
{
}

/// Law: after normalization the total equals prompt plus completion, for
/// every usage whose true total fits the counter (a sum past the
/// counter's width saturates), and the parts are untouched.
pub proof fn lemma_normalize_total(u: TokenUsage)
    ensures
        u.prompt_tokens + u.completion_tokens <= u32::MAX ==> spec_normalized(u).total_tokens
            == u.prompt_tokens + u.completion_tokens,
        spec_normalized(u).total_tokens == vstd::math::min(
            u.prompt_tokens + u.completion_tokens,
            u32::MAX as int,
        ),
        spec_normalized(u).prompt_tokens == u.prompt_tokens,
        spec_normalized(u).completion_tokens == u.completion_tokens,
{
}

impl TokenUsage {
    /// Empty usage: all counters zero, no model, no cost.
    pub fn new() -> (r: TokenUsage)
        ensures
            r.prompt_tokens == 0,
            r.completion_tokens == 0,
            r.total_tokens == 0,
            r.estimated_cost_micro_usd is None,
            r.model is None,
    {
        TokenUsage {
            prompt_tokens: 0,
            completion_tokens: 0,
            total_tokens: 0,
            estimated_cost_micro_usd: None,
            model: None,
        }
    }

    /// Normalize the total to prompt plus completion, saturated at the
    /// counter's width.
    pub fn calculate_total(&mut self)
        ensures
            *final(self) == spec_normalized(*old(self)),
    {
        if self.prompt_tokens <= u32::MAX - self.completion_tokens {
            self.total_tokens = self.prompt_tokens + self.completion_tokens;
        } else {
            self.total_tokens = u32::MAX;
        }
    }
}

impl Default for TokenUsage {
    /// Empty usage.
    fn default() -> (r: TokenUsage)
        ensures
            r.prompt_tokens == 0,
            r.completion_tokens == 0,
            r.total_tokens == 0,
            r.estimated_cost_micro_usd is None,
            r.model is None,
    {
        TokenUsage::new()
    }
}

/// One row of the pricing table: micro-dollars per thousand input and
/// output tokens for models whose identifier contains `key`.
#[derive(Debug, Clone)]
pub struct PricingRow {
    /// Substring matched against the model identifier.
    pub key: String,
    /// Micro-dollars per 1000 prompt tokens.
    pub input_micro_per_1k: u64,
    /// Micro-dollars per 1000 completion tokens.
    pub output_micro_per_1k: u64,
}

/// The first row whose key occurs in the model identifier.
pub open spec fn find_price(rows: Seq<PricingRow>, model: Seq<char>) -> Option<PricingRow>
    decreases rows.len(),
{
    if rows.len() == 0 {
        None
    } else if contains_bytes(utf8_of(model), utf8_of(rows[0].key@)) {
        Some(rows[0])
    } else {
        find_price(rows.subrange(1, rows.len() as int), model)
    }
}

/// The cost of a usage against one pricing row, in micro-dollars, each
/// component rounded down.
pub open spec fn spec_cost(row: PricingRow, prompt: u32, completion: u32) -> int {
    (prompt * row.input_micro_per_1k) / 1000 + (completion * row.output_micro_per_1k) / 1000
}

/// Extracts token usage and estimates cost.
pub struct TokenCounter {
    pricing: Vec<PricingRow>,
}

impl TokenCounter {
    /// The pricing table rows, in match order.
    pub closed spec fn rows(&self) -> Seq<PricingRow> {
        self.pricing@
    }

    /// Prices stay small enough that no cost computation overflows.
    pub closed spec fn wf(&self) -> bool {
        forall|i: int|
            0 <= i < self.pricing@.len() ==> #[trigger] self.pricing@[i].input_micro_per_1k
                <= 100000 && self.pricing@[i].output_micro_per_1k <= 100000
    }

    /// A counter with the built-in pricing table, matched by substring so
    /// that a model family's versioned identifiers share a row. More
    /// specific keys come first so that each model matches its own row.
    pub fn new() -> (r: TokenCounter)
        ensures
            r.wf(),
            r.rows().len() == 5,
            r.rows()[0].key@ == "gpt-4-turbo"@ && r.rows()[0].input_micro_per_1k == 10000
                && r.rows()[0].output_micro_per_1k == 30000,
            r.rows()[1].key@ == "gpt-3.5-turbo"@ && r.rows()[1].input_micro_per_1k == 500
                && r.rows()[1].output_micro_per_1k == 1500,
            r.rows()[2].key@ == "gpt-4"@ && r.rows()[2].input_micro_per_1k == 30000
                && r.rows()[2].output_micro_per_1k == 60000,
            r.rows()[3].key@ == "-3-opus"@ && r.rows()[3].input_micro_per_1k == 15000
                && r.rows()[3].output_micro_per_1k == 75000,
            r.rows()[4].key@ == "-3-sonnet"@ && r.rows()[4].input_micro_per_1k == 3000
                && r.rows()[4].output_micro_per_1k == 15000,
    {
        let mut pricing: Vec<PricingRow> = Vec::new();
        pricing.push(
            PricingRow {
                key: "gpt-4-turbo".to_owned(),
                input_micro_per_1k: 10000,
                output_micro_per_1k: 30000,
            },
        );
        pricing.push(
            PricingRow {
                key: "gpt-3.5-turbo".to_owned(),
                input_micro_per_1k: 500,
                output_micro_per_1k: 1500,
            },
        );
        pricing.push(
            PricingRow {
                key: "gpt-4".to_owned(),
                input_micro_per_1k: 30000,
                output_micro_per_1k: 60000,
            },
        );
        pricing.push(
            PricingRow {
                key: "-3-opus".to_owned(),
                input_micro_per_1k: 15000,
                output_micro_per_1k: 75000,
            },
        );
        pricing.push(
            PricingRow {
                key: "-3-sonnet".to_owned(),
                input_micro_per_1k: 3000,
                output_micro_per_1k: 15000,
            },
        );
        TokenCounter { pricing }
    }

    /// Estimate the cost of `usage` for `model` in micro-dollars: the
    /// first table row whose key occurs in the model identifier prices the
    /// prompt and completion counts; an unpriced model yields nothing.
    #[verifier::loop_isolation(false)]
    pub fn calculate_cost(&self, model: &str, usage: &TokenUsage) -> (r: Option<u64>)
        requires
            self.wf(),
        ensures
            match find_price(self.rows(), model@) {
                Some(row) => r == Some(
                    spec_cost(row, usage.prompt_tokens, usage.completion_tokens) as u64,
                ),
                None => r is None,
            },
    {
        let ghost rows0 = self.pricing@;
        proof {
            assert(rows0.skip(0int) =~= rows0);
        }
        let mut i: usize = 0;
        while i < self.pricing.len()
            invariant
                i <= rows0.len(),
                find_price(rows0, model@) == find_price(rows0.skip(i as int), model@),
            decreases rows0.len() - i,
        {
            let ghost rest = rows0.skip(i as int);
            proof {
                assert(rest[0] == rows0[i as int]);
                assert(rest.subrange(1, rest.len() as int) =~= rows0.skip(i as int + 1));
            }
            let row = &self.pricing[i];
            proof {
                assert(self.pricing@[i as int].input_micro_per_1k <= 100000);
                assert(self.pricing@[i as int].output_micro_per_1k <= 100000);
                let p = usage.prompt_tokens as int;
                let q = usage.completion_tokens as int;
                let a = row.input_micro_per_1k as int;
                let o = row.output_micro_per_1k as int;
                assert(p * a <= 4294967295int * 100000int) by (nonlinear_arith)
                    requires
                        0 <= p <= 4294967295int,
                        0 <= a <= 100000int,
                ;
                assert(q * o <= 4294967295int * 100000int) by (nonlinear_arith)
                    requires
                        0 <= q <= 4294967295int,
                        0 <= o <= 100000int,
                ;
            }
            if crate::text::str_contains(model, row.key.as_str()) {
                let input_cost = (usage.prompt_tokens as u64) * row.input_micro_per_1k / 1000;
                let output_cost = (usage.completion_tokens as u64) * row.output_micro_per_1k
                    / 1000;
                return Some(input_cost + output_cost);
            }
            i += 1;
        }
        proof {
            assert(rows0.skip(i as int) =~= Seq::<PricingRow>::empty());
        }
        None
    }

    /// Probe response headers for usage counters that proxies lift into
    /// metadata: header names containing `x-usage-prompt-tokens`,
    /// `x-usage-completion-tokens` or `x-usage-total-tokens`, compared
    /// ASCII-case-insensitively, with decimal values.
    pub fn extract_from_headers(&self, headers: &[(String, String)]) -> (r: Option<TokenUsage>)
        ensures
            match spec_header_usage(headers@) {
                Some(u) => r matches Some(got) && got.prompt_tokens == u.0
                    && got.completion_tokens == u.1 && got.total_tokens == spec_normalized(
                    TokenUsage {
                        prompt_tokens: u.0,
                        completion_tokens: u.1,
                        total_tokens: u.2,
                        estimated_cost_micro_usd: None,
                        model: None,
                    },
                ).total_tokens && got.model is None && got.estimated_cost_micro_usd is None,
                None => r is None,
            },
    {
        let mut usage = TokenUsage::new();
        let mut found = false;
        let ghost hs = headers@;
        proof {
            assert(hs.skip(0int) =~= hs);
        }
        let mut i: usize = 0;
        while i < headers.len()
            invariant
                i <= hs.len(),
                hs == headers@,
                usage.model is None,
                usage.estimated_cost_micro_usd is None,
                spec_header_usage(hs) == match spec_header_fold(
                    hs.skip(i as int),
                    usage.prompt_tokens,
                    usage.completion_tokens,
                    usage.total_tokens,
                    found,
                ) {
                    Some(u) => Some(u),
                    None => None::<(u32, u32, u32)>,
                },
            decreases hs.len() - i,
        {
            let ghost rest = hs.skip(i as int);
            proof {
                assert(rest[0] == hs[i as int]);
                assert(rest.subrange(1, rest.len() as int) =~= hs.skip(i as int + 1));
            }
            let name_low = crate::text::lower_vec(headers[i].0.as_str().as_bytes());
            let value = headers[i].1.as_str();
            if crate::text::contains_bytes_exec(
                name_low.as_slice(),
                "x-usage-prompt-tokens".as_bytes(),
            ) {
                match crate::text::parse_u32(value) {
                    Some(v) => {
                        usage.prompt_tokens = v;
                        found = true;
                    },
                    None => {},
                }
            }
            if crate::text::contains_bytes_exec(
                name_low.as_slice(),
                "x-usage-completion-tokens".as_bytes(),
            ) {
                match crate::text::parse_u32(value) {
                    Some(v) => {
                        usage.completion_tokens = v;
                        found = true;
                    },
                    None => {},
                }
            }
            if crate::text::contains_bytes_exec(
                name_low.as_slice(),
                "x-usage-total-tokens".as_bytes(),
            ) {
                match crate::text::parse_u32(value) {
                    Some(v) => {
                        usage.total_tokens = v;
                        found = true;
                    },
                    None => {},
                }
            }
            i += 1;
        }
        proof {
            assert(hs.skip(i as int) =~= Seq::<(String, String)>::empty());
        }
        if found {
            usage.calculate_total();
            Some(usage)
        } else {
            None
        }
    }

    /// Extract usage from a JSON response body. The
    /// `prompt_tokens`/`completion_tokens` shape is tried first, then the
    /// `input_tokens`/`output_tokens` shape; either matches when its
    /// `usage` object carries at least one of its own counters. Success is
    /// owed exactly when a schema matches; the counters are the matched
    /// schema's fields with absent counters read as zero, the total is
    /// normalized, and the cost is priced when the model is known.
    pub fn extract_from_body(&self, body: &[u8]) -> (r: Option<TokenUsage>)
        requires
            self.wf(),
        ensures
            r.is_some() <==> (openai_matches(body@) || anthropic_matches(body@)),
            r matches Some(u) ==> ({
                let f = if openai_matches(body@) {
                    openai_fields(body@)
                } else {
                    anthropic_fields(body@)
                };
                &&& u.prompt_tokens == or_zero(f.0)
                &&& u.completion_tokens == or_zero(f.1)
                &&& opt_chars_of(u.model) == f.3
                &&& u == spec_normalized(u)
                &&& match u.model {
                    Some(m) => match find_price(self.rows(), m@) {
                        Some(row) => u.estimated_cost_micro_usd == Some(
                            spec_cost(row, u.prompt_tokens, u.completion_tokens) as u64,
                        ),
                        None => u.estimated_cost_micro_usd is None,
                    },
                    None => u.estimated_cost_micro_usd is None,
                }
            }),
    {
        match parse_openai_usage(body) {
            Some(f) => {
                if f.prompt.is_some() || f.completion.is_some() || f.total.is_some() {
                    let p = match f.prompt {
                        Some(v) => v,
                        None => 0,
                    };
                    let c = match f.completion {
                        Some(v) => v,
                        None => 0,
                    };
                    return Some(self.build_usage(p, c, f.model));
                }
            },
            None => {},
        }
        match parse_anthropic_usage(body) {
            Some(f) => {
                if f.prompt.is_some() || f.completion.is_some() {
                    let p = match f.prompt {
                        Some(v) => v,
                        None => 0,
                    };
                    let c = match f.completion {
                        Some(v) => v,
                        None => 0,
                    };
                    Some(self.build_usage(p, c, f.model))
                } else {
                    None
                }
            },
            None => None,
        }
    }

    /// Assemble a usage record from extracted counters: normalize the
    /// total and price the model when it is known.
    fn build_usage(&self, prompt: u32, completion: u32, model: Option<String>) -> (u: TokenUsage)
        requires
            self.wf(),
        ensures
            u.prompt_tokens == prompt,
            u.completion_tokens == completion,
            opt_chars_of(u.model) == opt_chars_of(model),
            u == spec_normalized(u),
            match u.model {
                Some(m) => match find_price(self.rows(), m@) {
                    Some(row) => u.estimated_cost_micro_usd == Some(
                        spec_cost(row, u.prompt_tokens, u.completion_tokens) as u64,
                    ),
                    None => u.estimated_cost_micro_usd is None,
                },
                None => u.estimated_cost_micro_usd is None,
            },
    {
        let mut usage = TokenUsage {
            prompt_tokens: prompt,
            completion_tokens: completion,
            total_tokens: 0,
            estimated_cost_micro_usd: None,
            model: None,
        };
        usage.calculate_total();
        let cost = match &model {
            Some(m) => self.calculate_cost(m.as_str(), &usage),
            None => None,
        };
        usage.estimated_cost_micro_usd = cost;
        usage.model = model;
        usage
    }
}

impl Default for TokenCounter {
    /// A counter with the built-in pricing table.
    fn default() -> (r: TokenCounter)
        ensures
            r.wf(),
            r.rows().len() == 5,
    {
        TokenCounter::new()
    }
}


/// A usage counter as an optional mathematical integer.
pub open spec fn opt_int_of(v: Option<u32>) -> Option<int> {
    match v {
        Some(x) => Some(x as int),
        None => None,
    }
}

/// A model name as an optional character sequence.
pub open spec fn opt_chars_of(v: Option<String>) -> Option<Seq<char>> {
    match v {
        Some(s) => Some(s@),
        None => None,
    }
}

/// An absent counter reads as zero.
pub open spec fn or_zero(v: Option<int>) -> int {
    match v {
        Some(x) => x,
        None => 0,
    }
}

/// The `prompt_tokens`/`completion_tokens`/`total_tokens` counters and
/// the `model` string a body carries under the first schema:
/// `Some((prompt, completion, total, model))` — each component absent
/// when its member is — when the body is JSON whose `usage` member is an
/// object, every present counter is an integer fitting the counter's
/// width and a present model is a string; `None` otherwise. A function
/// of the bytes alone.
pub uninterp spec fn openai_usage_of(b: Seq<u8>) -> Option<
    (Option<int>, Option<int>, Option<int>, Option<Seq<char>>),
>;

/// The `input_tokens`/`output_tokens` counters and the `model` string a
/// body carries under the second schema, with the same conventions; this
/// schema has no total member.
pub uninterp spec fn anthropic_usage_of(b: Seq<u8>) -> Option<
    (Option<int>, Option<int>, Option<int>, Option<Seq<char>>),
>;

/// The first schema matches: its usage object is well-typed and carries
/// at least one of its own counters.
pub open spec fn openai_matches(b: Seq<u8>) -> bool {
    match openai_usage_of(b) {
        Some(f) => f.0 is Some || f.1 is Some || f.2 is Some,
        None => false,
    }
}

/// The first schema's fields.
pub open spec fn openai_fields(b: Seq<u8>) -> (
    Option<int>,
    Option<int>,
    Option<int>,
    Option<Seq<char>>,
) {
    openai_usage_of(b).unwrap()
}

/// The second schema matches: its usage object is well-typed and carries
/// at least one of its own counters.
pub open spec fn anthropic_matches(b: Seq<u8>) -> bool {
    match anthropic_usage_of(b) {
        Some(f) => f.0 is Some || f.1 is Some,
        None => false,
    }
}

/// The second schema's fields.
pub open spec fn anthropic_fields(b: Seq<u8>) -> (
    Option<int>,
    Option<int>,
    Option<int>,
    Option<Seq<char>>,
) {
    anthropic_usage_of(b).unwrap()
}

/// Raw counters as one schema carries them, absent members left absent.
struct RawUsageFields {
    prompt: Option<u32>,
    completion: Option<u32>,
    total: Option<u32>,
    model: Option<String>,
}

/// Read the first schema's members out of a body.
///
/// Relies on `serde_json::from_slice::<Value>` and `Value`'s accessors
/// (`get`, `is_object`, `as_u64`, `as_str`): fails when the body is not
/// JSON, `usage` is missing or not an object, a present counter is not
/// an integer fitting the counter's width, or a present model is not a
/// string. Acceptance and the fields are functions of the bytes alone,
/// named by [`openai_usage_of`].
#[verifier::external_body]
fn parse_openai_usage(body: &[u8]) -> (r: Option<RawUsageFields>)
    ensures
        r.is_some() == (openai_usage_of(body@) is Some),
        r matches Some(f) ==> openai_usage_of(body@) == Some(
            (opt_int_of(f.prompt), opt_int_of(f.completion), opt_int_of(f.total), opt_chars_of(
                f.model,
            )),
        ),
{
    let doc: serde_json::Value = serde_json::from_slice(body).ok()?;
    let usage = doc.get("usage")?;
    if !usage.is_object() {
        return None;
    }
    Some(RawUsageFields {
        prompt: crate::jsonval::member_u32(usage, "prompt_tokens")?,
        completion: crate::jsonval::member_u32(usage, "completion_tokens")?,
        total: crate::jsonval::member_u32(usage, "total_tokens")?,
        model: crate::jsonval::member_str(&doc, "model")?,
    })
}

/// Read the second schema's members out of a body.
///
/// Relies on the same `serde_json` functions as the first schema's
/// reader, over `input_tokens` and `output_tokens`; named by
/// [`anthropic_usage_of`].
#[verifier::external_body]
fn parse_anthropic_usage(body: &[u8]) -> (r: Option<RawUsageFields>)
    ensures
        r.is_some() == (anthropic_usage_of(body@) is Some),
        r matches Some(f) ==> f.total is None && anthropic_usage_of(body@) == Some(
            (opt_int_of(f.prompt), opt_int_of(f.completion), None::<int>, opt_chars_of(f.model)),
        ),
{
    let doc: serde_json::Value = serde_json::from_slice(body).ok()?;
    let usage = doc.get("usage")?;
    if !usage.is_object() {
        return None;
    }
    Some(RawUsageFields {
        prompt: crate::jsonval::member_u32(usage, "input_tokens")?,
        completion: crate::jsonval::member_u32(usage, "output_tokens")?,
        total: None,
        model: crate::jsonval::member_str(&doc, "model")?,
    })
}

/// Fold the header probe over the remaining headers: each recognized
/// header name overwrites its counter when its value parses.
pub open spec fn spec_header_fold(
    hs: Seq<(String, String)>,
    p: u32,
    c: u32,
    t: u32,
    found: bool,
) -> Option<(u32, u32, u32)>
    decreases hs.len(),
{
    if hs.len() == 0 {
        if found {
            Some((p, c, t))
        } else {
            None
        }
    } else {
        let name = lower_bytes(utf8_of(hs[0].0@));
        let value = utf8_of(hs[0].1@);
        let hit_p = contains_bytes(name, utf8_of("x-usage-prompt-tokens"@)) && spec_parse_u32(
            value,
        ) is Some;
        let hit_c = contains_bytes(name, utf8_of("x-usage-completion-tokens"@)) && spec_parse_u32(
            value,
        ) is Some;
        let hit_t = contains_bytes(name, utf8_of("x-usage-total-tokens"@)) && spec_parse_u32(
            value,
        ) is Some;
        spec_header_fold(
            hs.subrange(1, hs.len() as int),
            if hit_p {
                spec_parse_u32(value).unwrap()
            } else {
                p
            },
            if hit_c {
                spec_parse_u32(value).unwrap()
            } else {
                c
            },
            if hit_t {
                spec_parse_u32(value).unwrap()
            } else {
                t
            },
            found || hit_p || hit_c || hit_t,
        )
    }
}

/// The counters the header probe reports for a header list, if any
/// recognized header parses.
pub open spec fn spec_header_usage(hs: Seq<(String, String)>) -> Option<(u32, u32, u32)> {
    spec_header_fold(hs, 0, 0, 0, false)
}

} // verus!
