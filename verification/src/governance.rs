//! Governance: the streaming body scanner, prompt-injection detection, PII
//! detection, token-usage extraction and per-identity rate limiting.

pub mod body_scanner;
pub mod pii_redaction;
pub mod prompt_injection;
pub mod rate_limiter;
pub mod token_counter;

pub use body_scanner::{ScanDecision, StreamingBodyScanner};
pub use pii_redaction::{PiiMatch, PiiRedactor, PiiType};
pub use prompt_injection::PromptInjectionDetector;
pub use rate_limiter::{RateDecision, RateLimiter};
pub use token_counter::{TokenCounter, TokenUsage};
