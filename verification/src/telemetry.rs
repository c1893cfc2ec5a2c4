//! Structured audit events.
//!
//! The sandbox has no network, so audit data leaves as structured log
//! lines collected by the host. This module builds the event records;
//! rendering and emission belong to the host-facing layer. Blocked,
//! rate-limited and STDIO-bypass events are meant for the warning level,
//! the rest for info.

use vstd::prelude::*;
use vstd::string::StringExecFns;

verus! {

/// Audit event kinds.
#[derive(Debug, Clone, Copy, PartialEq, Eq, Structural)]
pub enum AuditEventType {
    /// Request allowed.
    RequestAllowed,
    /// Request blocked.
    RequestBlocked,
    /// PII detected.
    PiiDetected,
    /// Rate limited.
    RateLimited,
    /// A2A control triggered.
    A2asControl,
    /// STDIO bypass attempt.
    StdioBypassAttempt,
}

impl AuditEventType {
    /// The event kind's wire name.
    pub fn name(&self) -> (r: &'static str)
        ensures
            r@ == match self {
                AuditEventType::RequestAllowed => "request_allowed"@,
                AuditEventType::RequestBlocked => "request_blocked"@,
                AuditEventType::PiiDetected => "pii_detected"@,
                AuditEventType::RateLimited => "rate_limited"@,
                AuditEventType::A2asControl => "a2as_control"@,
                AuditEventType::StdioBypassAttempt => "stdio_bypass_attempt"@,
            },
    {
        match self {
            AuditEventType::RequestAllowed => "request_allowed",
            AuditEventType::RequestBlocked => "request_blocked",
            AuditEventType::PiiDetected => "pii_detected",
            AuditEventType::RateLimited => "rate_limited",
            AuditEventType::A2asControl => "a2as_control",
            AuditEventType::StdioBypassAttempt => "stdio_bypass_attempt",
        }
    }

    /// Whether this event belongs at the warning level.
    pub fn is_warning(&self) -> (r: bool)
        ensures
            r == (self matches AuditEventType::RequestBlocked || self
                matches AuditEventType::RateLimited || self
                matches AuditEventType::StdioBypassAttempt),
    {
        matches!(
            self,
            AuditEventType::RequestBlocked | AuditEventType::RateLimited
                | AuditEventType::StdioBypassAttempt
        )
    }
}

/// One audit event.
#[derive(Debug, Clone)]
pub struct AuditEvent {
    /// Event kind.
    pub event_type: AuditEventType,
    /// Seconds since the epoch, when known.
    pub timestamp_secs: Option<u64>,
    /// Request id.
    pub request_id: Option<String>,
    /// Agent id.
    pub agent_id: Option<String>,
    /// Protocol (MCP or A2A).
    pub protocol: Option<String>,
    /// Transport (HTTP, SSE, WebSocket).
    pub transport: Option<String>,
    /// Method called.
    pub method: Option<String>,
    /// Reason for the action.
    pub reason: Option<String>,
    /// Pattern matched, when blocked on one.
    pub matched_pattern: Option<String>,
    /// A2A control that triggered.
    pub a2as_control: Option<String>,
    /// Additional metadata, carried as JSON text.
    pub metadata: Option<String>,
}

impl AuditEvent {
    /// A bare event of the given kind.
    pub fn new(event_type: AuditEventType) -> (r: AuditEvent)
        ensures
            r.event_type == event_type,
            r.timestamp_secs is None,
            r.request_id is None,
            r.agent_id is None,
            r.protocol is None,
            r.transport is None,
            r.method is None,
            r.reason is None,
            r.matched_pattern is None,
            r.a2as_control is None,
            r.metadata is None,
    {
        AuditEvent {
            event_type,
            timestamp_secs: None,
            request_id: None,
            agent_id: None,
            protocol: None,
            transport: None,
            method: None,
            reason: None,
            matched_pattern: None,
            a2as_control: None,
            metadata: None,
        }
    }

    /// Set the request id.
    pub fn with_request_id(self, id: &str) -> (r: AuditEvent)
        ensures
            r.request_id matches Some(s) && s@ == id@,
            r.event_type == self.event_type,
            r.reason == self.reason,
            r.matched_pattern == self.matched_pattern,
    {
        AuditEvent { request_id: Some(id.to_owned()), ..self }
    }

    /// Set the agent id.
    pub fn with_agent_id(self, id: &str) -> (r: AuditEvent)
        ensures
            r.agent_id matches Some(s) && s@ == id@,
            r.event_type == self.event_type,
            r.reason == self.reason,
            r.matched_pattern == self.matched_pattern,
    {
        AuditEvent { agent_id: Some(id.to_owned()), ..self }
    }

    /// Set the protocol.
    pub fn with_protocol(self, protocol: &str) -> (r: AuditEvent)
        ensures
            r.protocol matches Some(s) && s@ == protocol@,
            r.event_type == self.event_type,
            r.reason == self.reason,
            r.matched_pattern == self.matched_pattern,
    {
        AuditEvent { protocol: Some(protocol.to_owned()), ..self }
    }

    /// Set the transport.
    pub fn with_transport(self, transport: &str) -> (r: AuditEvent)
        ensures
            r.transport matches Some(s) && s@ == transport@,
            r.event_type == self.event_type,
            r.reason == self.reason,
            r.matched_pattern == self.matched_pattern,
    {
        AuditEvent { transport: Some(transport.to_owned()), ..self }
    }

    /// Set the method.
    pub fn with_method(self, method: &str) -> (r: AuditEvent)
        ensures
            r.method matches Some(s) && s@ == method@,
            r.event_type == self.event_type,
            r.reason == self.reason,
            r.matched_pattern == self.matched_pattern,
    {
        AuditEvent { method: Some(method.to_owned()), ..self }
    }

    /// Set the reason.
    pub fn with_reason(self, reason: &str) -> (r: AuditEvent)
        ensures
            r.reason matches Some(s) && s@ == reason@,
            r.event_type == self.event_type,
            r.matched_pattern == self.matched_pattern,
            r.a2as_control == self.a2as_control,
    {
        AuditEvent { reason: Some(reason.to_owned()), ..self }
    }

    /// Set the matched pattern.
    pub fn with_pattern(self, pattern: &str) -> (r: AuditEvent)
        ensures
            r.matched_pattern matches Some(s) && s@ == pattern@,
            r.event_type == self.event_type,
            r.reason == self.reason,
    {
        AuditEvent { matched_pattern: Some(pattern.to_owned()), ..self }
    }

    /// Set the A2A control name.
    pub fn with_a2as_control(self, control: &str) -> (r: AuditEvent)
        ensures
            r.a2as_control matches Some(s) && s@ == control@,
            r.event_type == self.event_type,
            r.reason == self.reason,
    {
        AuditEvent { a2as_control: Some(control.to_owned()), ..self }
    }
}

/// A blocked-request event, with the reason and the pattern when one
/// matched.
pub fn audit_blocked(reason: &str, pattern: Option<&str>) -> (r: AuditEvent)
    ensures
        r.event_type == AuditEventType::RequestBlocked,
        r.reason matches Some(s) && s@ == reason@,
        match pattern {
            Some(p) => r.matched_pattern matches Some(s) && s@ == p@,
            None => r.matched_pattern is None,
        },
{
    let event = AuditEvent::new(AuditEventType::RequestBlocked).with_reason(reason);
    match pattern {
        Some(p) => event.with_pattern(p),
        None => event,
    }
}

/// An allowed-request event.
pub fn audit_allowed() -> (r: AuditEvent)
    ensures
        r.event_type == AuditEventType::RequestAllowed,
{
    AuditEvent::new(AuditEventType::RequestAllowed)
}

/// A PII-detected event naming the detected kind.
pub fn audit_pii(pii_type: &str) -> (r: AuditEvent)
    ensures
        r.event_type == AuditEventType::PiiDetected,
        r.reason matches Some(s) && s@ == "PII type '"@ + pii_type@ + "' detected"@,
{
    let mut reason = "PII type '".to_owned();
    reason.append(pii_type);
    reason.append("' detected");
    let event = AuditEvent::new(AuditEventType::PiiDetected);
    AuditEvent { reason: Some(reason), ..event }
}

/// A rate-limited event naming the exceeded limit.
pub fn audit_rate_limited(limit: &str) -> (r: AuditEvent)
    ensures
        r.event_type == AuditEventType::RateLimited,
        r.reason matches Some(s) && s@ == "Rate limit '"@ + limit@ + "' exceeded"@,
{
    let mut reason = "Rate limit '".to_owned();
    reason.append(limit);
    reason.append("' exceeded");
    let event = AuditEvent::new(AuditEventType::RateLimited);
    AuditEvent { reason: Some(reason), ..event }
}

/// An A2A-control event.
pub fn audit_a2as(control: &str, action: &str) -> (r: AuditEvent)
    ensures
        r.event_type == AuditEventType::A2asControl,
        r.a2as_control matches Some(s) && s@ == control@,
        r.reason matches Some(s) && s@ == action@,
{
    AuditEvent::new(AuditEventType::A2asControl).with_a2as_control(control).with_reason(action)
}

/// An STDIO-bypass event.
pub fn audit_stdio_bypass(description: &str) -> (r: AuditEvent)
    ensures
        r.event_type == AuditEventType::StdioBypassAttempt,
        r.reason matches Some(s) && s@ == description@,
{
    AuditEvent::new(AuditEventType::StdioBypassAttempt).with_reason(description)
}

} // verus!
