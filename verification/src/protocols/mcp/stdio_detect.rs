//! STDIO transport detection.
//!
//! STDIO bypasses the mesh entirely, so there is no traffic to intercept;
//! this detector is an audit aid, not a security boundary. It flags an
//! explicit `x-mcp-transport: stdio` header, any header value mentioning
//! `stdio`, known STDIO server command names next to command-like words in
//! a body, and explicit stdio-transport configuration in a body.

use crate::text::{contains_bytes, lower_bytes, utf8_of, views};
use crate::protocols::mcp::low;
use vstd::prelude::*;
use vstd::string::StringExecFns;

verus! {

/// A detected STDIO bypass attempt.
#[derive(Debug, Clone)]
pub struct StdioBypassAttempt {
    /// What kind of bypass was seen.
    pub bypass_type: StdioBypassType,
    /// A description of what was seen.
    pub description: String,
    /// How certain the detection is.
    pub severity: StdioSeverity,
}

/// Kinds of STDIO bypass.
#[derive(Debug, Clone, Copy, PartialEq, Eq, Structural)]
pub enum StdioBypassType {
    /// A header names the STDIO transport.
    HeaderIndicator,
    /// A command pattern suggests an STDIO server.
    CommandPattern,
    /// A process spawn attempt.
    ProcessSpawn,
}

/// Detection certainty.
#[derive(Debug, Clone, Copy, PartialEq, Eq, Structural)]
pub enum StdioSeverity {
    /// Might be a false positive.
    Low,
    /// Likely an STDIO attempt.
    Medium,
    /// Definitely an STDIO attempt.
    High,
}

/// What header scanning reports from header `i` on: an explicit
/// `x-mcp-transport: stdio` is a high-severity hit; any other header value
/// mentioning `stdio` is a medium one.
pub open spec fn header_verdict_from(hs: Seq<(String, String)>, i: int) -> Option<
    (StdioBypassType, StdioSeverity),
>
    decreases hs.len() - i,
    when 0 <= i
{
    if i >= hs.len() {
        None
    } else if low(hs[i].0@) == low("x-mcp-transport"@) && low(hs[i].1@) == low("stdio"@) {
        Some((StdioBypassType::HeaderIndicator, StdioSeverity::High))
    } else if contains_bytes(low(hs[i].1@), low("stdio"@)) {
        Some((StdioBypassType::HeaderIndicator, StdioSeverity::Medium))
    } else {
        header_verdict_from(hs, i + 1)
    }
}

/// Whether some known command occurs in the lowercased body, scanning the
/// command list from `i` on.
pub open spec fn command_hit_from(cmds: Seq<Seq<char>>, body_low: Seq<u8>, i: int) -> Option<int>
    decreases cmds.len() - i,
    when 0 <= i
{
    if i >= cmds.len() {
        None
    } else if contains_bytes(body_low, low(cmds[i])) {
        Some(i)
    } else {
        command_hit_from(cmds, body_low, i + 1)
    }
}

/// STDIO detector over a list of known STDIO server commands.
pub struct StdioDetector {
    known_commands: Vec<String>,
}

/// The built-in command list.
pub open spec fn spec_known_commands() -> Seq<Seq<char>> {
    seq!["npx"@, "uvx"@, "python -m"@, "node"@, "mcp-server"@, "stdio"@]
}

impl StdioDetector {
    /// The known command names.
    pub closed spec fn commands(&self) -> Seq<Seq<char>> {
        views(self.known_commands@)
    }

    /// A detector with the built-in command list.
    pub fn new() -> (r: StdioDetector)
        ensures
            r.commands() =~= spec_known_commands(),
    {
        let mut v: Vec<String> = Vec::new();
        v.push("npx".to_owned());
        v.push("uvx".to_owned());
        v.push("python -m".to_owned());
        v.push("node".to_owned());
        v.push("mcp-server".to_owned());
        v.push("stdio".to_owned());
        let r = StdioDetector { known_commands: v };
        proof {
            crate::text::lemma_views_index(r.known_commands@);
            assert(r.commands() =~= spec_known_commands());
        }
        r
    }

    /// Detect an STDIO bypass from headers: an explicit transport header
    /// is high severity, any value mentioning `stdio` is medium.
    #[verifier::loop_isolation(false)]
    pub fn detect_from_headers(&self, headers: &[(String, String)]) -> (r: Option<
        StdioBypassAttempt,
    >)
        ensures
            match header_verdict_from(headers@, 0) {
                Some(v) => r matches Some(a) && a.bypass_type == v.0 && a.severity == v.1,
                None => r is None,
            },
    {
        let mut i: usize = 0;
        while i < headers.len()
            invariant
                i <= headers@.len(),
                header_verdict_from(headers@, 0) == header_verdict_from(headers@, i as int),
            decreases headers@.len() - i,
        {
            let name = headers[i].0.as_str();
            let value = headers[i].1.as_str();
            if crate::text::str_eq_ignore_ascii(name, "x-mcp-transport")
                && crate::text::str_eq_ignore_ascii(value, "stdio") {
                return Some(
                    StdioBypassAttempt {
                        bypass_type: StdioBypassType::HeaderIndicator,
                        description: "x-mcp-transport header indicates STDIO transport".to_owned(),
                        severity: StdioSeverity::High,
                    },
                );
            }
            let value_low = crate::text::lower_vec(value.as_bytes());
            if crate::text::contains_bytes_exec(
                value_low.as_slice(),
                crate::text::lower_vec("stdio".as_bytes()).as_slice(),
            ) {
                let mut d = "STDIO reference in header ".to_owned();
                d.append(name);
                d.append(": ");
                d.append(value);
                return Some(
                    StdioBypassAttempt {
                        bypass_type: StdioBypassType::HeaderIndicator,
                        description: d,
                        severity: StdioSeverity::Medium,
                    },
                );
            }
            i += 1;
        }
        None
    }

    /// Detect STDIO patterns in a request body: a known server command
    /// next to a command-like word is a medium hit, and explicit
    /// stdio-transport configuration is a high one.
    #[verifier::loop_isolation(false)]
    pub fn detect_in_body(&self, body: &str) -> (r: Option<StdioBypassAttempt>)
        ensures
            ({
                let body_low = lower_bytes(utf8_of(body@));
                let commandish = contains_bytes(body_low, low("command"@)) || contains_bytes(
                    body_low,
                    low("exec"@),
                );
                if commandish && command_hit_from(self.commands(), body_low, 0) is Some {
                    r matches Some(a) && a.bypass_type == StdioBypassType::CommandPattern
                        && a.severity == StdioSeverity::Medium
                } else if contains_bytes(body_low, low("stdio"@)) && contains_bytes(
                    body_low,
                    low("transport"@),
                ) {
                    r matches Some(a) && a.bypass_type == StdioBypassType::HeaderIndicator
                        && a.severity == StdioSeverity::High
                } else {
                    r is None
                }
            }),
    {
        let body_low = crate::text::lower_vec(body.as_bytes());
        let commandish = crate::text::contains_bytes_exec(
            body_low.as_slice(),
            crate::text::lower_vec("command".as_bytes()).as_slice(),
        ) || crate::text::contains_bytes_exec(
            body_low.as_slice(),
            crate::text::lower_vec("exec".as_bytes()).as_slice(),
        );
        if commandish {
            let mut i: usize = 0;
            while i < self.known_commands.len()
                invariant
                    i <= self.commands().len(),
                    command_hit_from(self.commands(), lower_bytes(utf8_of(body@)), 0)
                        == command_hit_from(
                        self.commands(),
                        lower_bytes(utf8_of(body@)),
                        i as int,
                    ),
                decreases self.commands().len() - i,
            {
                proof {
                    crate::text::lemma_views_index(self.known_commands@);
                }
                let cmd = self.known_commands[i].as_str();
                if crate::text::contains_bytes_exec(
                    body_low.as_slice(),
                    crate::text::lower_vec(cmd.as_bytes()).as_slice(),
                ) {
                    let mut d = "Possible STDIO MCP server command: ".to_owned();
                    d.append(cmd);
                    return Some(
                        StdioBypassAttempt {
                            bypass_type: StdioBypassType::CommandPattern,
                            description: d,
                            severity: StdioSeverity::Medium,
                        },
                    );
                }
                i += 1;
            }
        }
        if crate::text::contains_bytes_exec(
            body_low.as_slice(),
            crate::text::lower_vec("stdio".as_bytes()).as_slice(),
        ) && crate::text::contains_bytes_exec(
            body_low.as_slice(),
            crate::text::lower_vec("transport".as_bytes()).as_slice(),
        ) {
            return Some(
                StdioBypassAttempt {
                    bypass_type: StdioBypassType::HeaderIndicator,
                    description: "STDIO transport configuration in request body".to_owned(),
                    severity: StdioSeverity::High,
                },
            );
        }
        None
    }

    /// Render an audit event for a bypass attempt.
    pub fn create_audit_event(&self, attempt: &StdioBypassAttempt) -> (r: StdioAuditEvent)
        ensures
            r.event_type@ == "stdio_bypass_attempt"@,
            r.bypass_type@ == match attempt.bypass_type {
                StdioBypassType::HeaderIndicator => "HeaderIndicator"@,
                StdioBypassType::CommandPattern => "CommandPattern"@,
                StdioBypassType::ProcessSpawn => "ProcessSpawn"@,
            },
            r.description@ == attempt.description@,
            r.severity@ == match attempt.severity {
                StdioSeverity::Low => "Low"@,
                StdioSeverity::Medium => "Medium"@,
                StdioSeverity::High => "High"@,
            },
            r.action_taken@ == "blocked"@,
            r.recommendation@ == "Use HTTP, SSE, or WebSocket transport for mesh visibility"@,
    {
        let bypass_type = match attempt.bypass_type {
            StdioBypassType::HeaderIndicator => "HeaderIndicator".to_owned(),
            StdioBypassType::CommandPattern => "CommandPattern".to_owned(),
            StdioBypassType::ProcessSpawn => "ProcessSpawn".to_owned(),
        };
        let severity = match attempt.severity {
            StdioSeverity::Low => "Low".to_owned(),
            StdioSeverity::Medium => "Medium".to_owned(),
            StdioSeverity::High => "High".to_owned(),
        };
        StdioAuditEvent {
            event_type: "stdio_bypass_attempt".to_owned(),
            bypass_type,
            description: attempt.description.clone(),
            severity,
            action_taken: "blocked".to_owned(),
            recommendation: "Use HTTP, SSE, or WebSocket transport for mesh visibility".to_owned(),
        }
    }
}

impl Default for StdioDetector {
    /// A detector with the built-in command list.
    fn default() -> (r: StdioDetector)
        ensures
            r.commands() =~= spec_known_commands(),
    {
        StdioDetector::new()
    }
}

/// An audit event for an STDIO bypass attempt, as plain strings.
#[derive(Debug, Clone)]
pub struct StdioAuditEvent {
    /// Event type name.
    pub event_type: String,
    /// Bypass kind name.
    pub bypass_type: String,
    /// What was seen.
    pub description: String,
    /// Severity name.
    pub severity: String,
    /// What the filter did.
    pub action_taken: String,
    /// What to use instead.
    pub recommendation: String,
}

} // verus!
