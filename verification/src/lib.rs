//! In-proxy request/response filter enforcing AI-governance policy on HTTP
//! payloads.
//!
//! The core is a streaming inspection engine with flat memory: body bytes
//! arrive in arbitrary chunks, multi-byte characters split across chunk
//! boundaries are reassembled by the [`streaming::utf8_buffer`], literal
//! patterns are matched case-insensitively in O(1) space per pattern by
//! the [`streaming::pattern_fsm`], and each request ends in one terminal
//! decision. Around that core sit the [`governance`] subsystems (body
//! scanner, prompt-injection and PII detection, token-usage extraction,
//! per-identity rate limiting), the [`protocols`] handlers for MCP and
//! A2A traffic, the per-request [`controller`], and the [`telemetry`]
//! records. JSON documents are parsed by an outside parser behind the
//! trusted surface in [`jsonval`]; everything that decides on their
//! content is verified.

pub mod config;
pub mod controller;
pub mod governance;
pub mod jsonval;
pub mod protocols;
pub mod streaming;
pub mod telemetry;
pub mod text;
