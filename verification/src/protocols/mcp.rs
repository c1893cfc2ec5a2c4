//! MCP handling across its transports: plain HTTP, Server-Sent Events,
//! WebSocket and streamable HTTP; STDIO is off-mesh and rejected before
//! the body phase.

pub mod http;
pub mod jsonrpc;
pub mod sse;
pub mod stdio_detect;
pub mod websocket;

pub use http::McpHttpHandler;
pub use jsonrpc::{JsonRpcError, JsonRpcRequest, JsonRpcResponse};
pub use sse::McpSseHandler;
pub use websocket::McpWebSocketHandler;

use crate::text::{contains_bytes, lower_bytes, method_in, utf8_of, views};
use vstd::prelude::*;
use vstd::string::StringExecFns;

verus! {

/// MCP transport kinds.
#[derive(Debug, Clone, Copy, PartialEq, Eq, Structural)]
pub enum McpTransport {
    /// HTTP request/response.
    Http,
    /// Server-Sent Events.
    Sse,
    /// WebSocket.
    WebSocket,
    /// Streamable HTTP (chunked).
    StreamableHttp,
    /// STDIO: off-mesh, blocked.
    Stdio,
}

/// ASCII-lowercased bytes of a string.
pub open spec fn low(s: Seq<char>) -> Seq<u8> {
    lower_bytes(utf8_of(s))
}

/// The first explicit `x-mcp-transport` header's value, lowercased, from
/// header `i` on.
pub open spec fn transport_override_from(hs: Seq<(String, String)>, i: int) -> Option<Seq<u8>>
    decreases hs.len() - i,
    when 0 <= i
{
    if i >= hs.len() {
        None
    } else if low(hs[i].0@) == low("x-mcp-transport"@) {
        Some(low(hs[i].1@))
    } else {
        transport_override_from(hs, i + 1)
    }
}

/// The transport an explicit override value names; an unknown value names
/// none.
pub open spec fn transport_named(value: Seq<u8>) -> Option<McpTransport> {
    if value == low("http"@) {
        Some(McpTransport::Http)
    } else if value == low("sse"@) {
        Some(McpTransport::Sse)
    } else if value == low("websocket"@) {
        Some(McpTransport::WebSocket)
    } else if value == low("stdio"@) {
        Some(McpTransport::Stdio)
    } else {
        None
    }
}

/// The transport the ordinary indicators announce, from header `i` on:
/// `Upgrade: websocket` picks WebSocket and an `Accept` containing
/// `text/event-stream` picks SSE; with neither, HTTP is the default.
pub open spec fn detect_indicator_from(hs: Seq<(String, String)>, i: int) -> McpTransport
    decreases hs.len() - i,
    when 0 <= i
{
    if i >= hs.len() {
        McpTransport::Http
    } else {
        let name = low(hs[i].0@);
        let value = low(hs[i].1@);
        if name == low("upgrade"@) && value == low("websocket"@) {
            McpTransport::WebSocket
        } else if name == low("accept"@) && contains_bytes(value, low("text/event-stream"@)) {
            McpTransport::Sse
        } else {
            detect_indicator_from(hs, i + 1)
        }
    }
}

/// The transport the headers announce: an explicit `x-mcp-transport`
/// header overrides every other indicator (an unknown value there means
/// no transport); otherwise the first `Upgrade`/`Accept` indicator
/// decides, and HTTP is the default.
pub open spec fn detect_transport_from(hs: Seq<(String, String)>, i: int) -> Option<McpTransport> {
    match transport_override_from(hs, i) {
        Some(value) => transport_named(value),
        None => Some(detect_indicator_from(hs, i)),
    }
}

impl McpTransport {
    /// Every transport is allowed except STDIO.
    pub fn is_allowed(&self) -> (r: bool)
        ensures
            r == !(self matches McpTransport::Stdio),
    {
        !matches!(self, McpTransport::Stdio)
    }

    /// Detect the transport from request headers; an explicit
    /// `x-mcp-transport` header overrides the other indicators.
    #[verifier::loop_isolation(false)]
    pub fn detect(headers: &[(String, String)]) -> (r: Option<McpTransport>)
        ensures
            r == detect_transport_from(headers@, 0),
    {
        let mut i: usize = 0;
        while i < headers.len()
            invariant
                i <= headers@.len(),
                transport_override_from(headers@, 0) == transport_override_from(
                    headers@,
                    i as int,
                ),
            decreases headers@.len() - i,
        {
            let name = headers[i].0.as_str();
            let value = headers[i].1.as_str();
            if crate::text::str_eq_ignore_ascii(name, "x-mcp-transport") {
                if crate::text::str_eq_ignore_ascii(value, "http") {
                    return Some(McpTransport::Http);
                } else if crate::text::str_eq_ignore_ascii(value, "sse") {
                    return Some(McpTransport::Sse);
                } else if crate::text::str_eq_ignore_ascii(value, "websocket") {
                    return Some(McpTransport::WebSocket);
                } else if crate::text::str_eq_ignore_ascii(value, "stdio") {
                    return Some(McpTransport::Stdio);
                } else {
                    return None;
                }
            }
            i += 1;
        }
        let mut k: usize = 0;
        while k < headers.len()
            invariant
                k <= headers@.len(),
                transport_override_from(headers@, 0) is None,
                detect_indicator_from(headers@, 0) == detect_indicator_from(headers@, k as int),
            decreases headers@.len() - k,
        {
            let name = headers[k].0.as_str();
            let value = headers[k].1.as_str();
            let value_low = crate::text::lower_vec(value.as_bytes());
            if crate::text::str_eq_ignore_ascii(name, "upgrade") && crate::text::str_eq_ignore_ascii(
                value,
                "websocket",
            ) {
                return Some(McpTransport::WebSocket);
            }
            if crate::text::str_eq_ignore_ascii(name, "accept") && crate::text::contains_bytes_exec(
                value_low.as_slice(),
                crate::text::lower_vec("text/event-stream".as_bytes()).as_slice(),
            ) {
                return Some(McpTransport::Sse);
            }
            k += 1;
        }
        Some(McpTransport::Http)
    }
}

/// An MCP request: the JSON-RPC envelope plus the transport it arrived on.
#[derive(Debug, Clone)]
pub struct McpRequest {
    /// The JSON-RPC request.
    pub jsonrpc: JsonRpcRequest,
    /// The transport it arrived on.
    pub transport: McpTransport,
}

/// An MCP response wrapper.
#[derive(Debug, Clone)]
pub struct McpResponse {
    /// The JSON-RPC response.
    pub jsonrpc: JsonRpcResponse,
}

/// Ways an MCP request can be rejected.
#[derive(Debug, Clone)]
pub enum McpValidationError {
    /// The body is not JSON of the expected shape.
    InvalidJson(String),
    /// The JSON-RPC version is wrong.
    InvalidVersion(String),
    /// The method is not on the allow-list.
    MethodNotAllowed(String),
    /// The transport is blocked.
    TransportBlocked(String),
    /// A required field is missing.
    MissingField(String),
    /// The envelope shape is invalid.
    InvalidFormat(String),
}

impl McpValidationError {
    /// A human-readable description of the rejection.
    pub fn message(&self) -> (r: String)
        ensures
            match self {
                McpValidationError::InvalidJson(e) => r@ == "Invalid JSON: "@ + e@,
                McpValidationError::InvalidVersion(v) => r@ == "Invalid JSON-RPC version: "@ + v@,
                McpValidationError::MethodNotAllowed(m) => r@ == "Method not allowed: "@ + m@,
                McpValidationError::TransportBlocked(t) => r@ == "Transport blocked: "@ + t@,
                McpValidationError::MissingField(f) => r@ == "Missing field: "@ + f@,
                McpValidationError::InvalidFormat(e) => r@ == "Invalid format: "@ + e@,
            },
    {
        match self {
            McpValidationError::InvalidJson(e) => {
                let mut m = "Invalid JSON: ".to_owned();
                m.append(e.as_str());
                m
            },
            McpValidationError::InvalidVersion(v) => {
                let mut m = "Invalid JSON-RPC version: ".to_owned();
                m.append(v.as_str());
                m
            },
            McpValidationError::MethodNotAllowed(mm) => {
                let mut m = "Method not allowed: ".to_owned();
                m.append(mm.as_str());
                m
            },
            McpValidationError::TransportBlocked(t) => {
                let mut m = "Transport blocked: ".to_owned();
                m.append(t.as_str());
                m
            },
            McpValidationError::MissingField(f) => {
                let mut m = "Missing field: ".to_owned();
                m.append(f.as_str());
                m
            },
            McpValidationError::InvalidFormat(e) => {
                let mut m = "Invalid format: ".to_owned();
                m.append(e.as_str());
                m
            },
        }
    }
}

/// MCP handler across all transports.
pub struct McpHandler {
    http_handler: McpHttpHandler,
    sse_handler: McpSseHandler,
    websocket_handler: McpWebSocketHandler,
    allowed_methods: Vec<String>,
    block_stdio: bool,
}

impl McpHandler {
    /// The method allow-list.
    pub closed spec fn methods(&self) -> Seq<Seq<char>> {
        views(self.allowed_methods@)
    }

    /// Whether STDIO is rejected before the body phase.
    pub closed spec fn blocks_stdio(&self) -> bool {
        self.block_stdio
    }

    /// The HTTP sub-handler's allow-list matches this handler's.
    pub closed spec fn wf(&self) -> bool {
        &&& self.http_handler.methods() == views(self.allowed_methods@)
        &&& self.sse_handler.wf()
        &&& self.websocket_handler.wf()
    }

    /// A handler over the given allow-list; STDIO is blocked.
    pub fn new(allowed_methods: Vec<String>) -> (r: McpHandler)
        ensures
            r.wf(),
            r.methods() == views(allowed_methods@),
            r.blocks_stdio(),
    {
        let mut copy: Vec<String> = Vec::new();
        let mut i: usize = 0;
        while i < allowed_methods.len()
            invariant
                i <= allowed_methods@.len(),
                copy@.len() == i,
                forall|j: int| 0 <= j < i ==> copy@[j]@ == allowed_methods@[j]@,
            decreases allowed_methods.len() - i,
        {
            copy.push(allowed_methods[i].clone());
            i += 1;
        }
        let r = McpHandler {
            http_handler: McpHttpHandler::new(copy),
            sse_handler: McpSseHandler::new(),
            websocket_handler: McpWebSocketHandler::new(),
            allowed_methods,
            block_stdio: true,
        };
        proof {
            crate::text::lemma_views_index(r.allowed_methods@);
            assert(r.http_handler.methods() =~= views(r.allowed_methods@));
        }
        r
    }

    /// Validate an MCP request arriving on `transport`: STDIO is rejected
    /// outright; otherwise success is owed exactly when the body passes
    /// the JSON-RPC envelope and allow-list checks.
    pub fn validate_request(&self, body: &[u8], transport: McpTransport) -> (r: Result<
        McpRequest,
        McpValidationError,
    >)
        requires
            self.wf(),
        ensures
            transport == McpTransport::Stdio && self.blocks_stdio() ==> r matches Err(
                McpValidationError::TransportBlocked(_),
            ),
            !(transport == McpTransport::Stdio && self.blocks_stdio()) ==> (r is Ok
                <==> http::body_accepted(body@, self.methods())),
            r matches Ok(req) ==> req.transport == transport && http::req_accepted(
                req.jsonrpc,
                self.methods(),
            ) && jsonrpc::rpc_envelope_of(body@) == Some(
                (req.jsonrpc.jsonrpc@, req.jsonrpc.method@),
            ),
    {
        if matches!(transport, McpTransport::Stdio) && self.block_stdio {
            return Err(
                McpValidationError::TransportBlocked(
                    "STDIO transport is blocked for mesh visibility".to_owned(),
                ),
            );
        }
        match self.http_handler.validate_request(body) {
            Ok(jsonrpc) => Ok(McpRequest { jsonrpc, transport }),
            Err(e) => Err(e),
        }
    }

    /// Whether a method is allowed.
    #[verifier::loop_isolation(false)]
    pub fn is_method_allowed(&self, method: &str) -> (r: bool)
        ensures
            r == method_in(self.methods(), method@),
    {
        proof {
            crate::text::lemma_views_index(self.allowed_methods@);
        }
        let mut i: usize = 0;
        while i < self.allowed_methods.len()
            invariant
                i <= self.allowed_methods@.len(),
                forall|j: int|
                    0 <= j < i ==> !(self.methods()[j] == "*"@ || self.methods()[j] == method@),
            decreases self.allowed_methods@.len() - i,
        {
            let m = self.allowed_methods[i].as_str();
            if crate::text::str_eq(m, "*") || crate::text::str_eq(m, method) {
                proof {
                    assert(self.methods()[i as int] == "*"@ || self.methods()[i as int]
                        == method@);
                }
                return true;
            }
            i += 1;
        }
        false
    }

    /// The HTTP sub-handler.
    pub fn http(&mut self) -> (r: &mut McpHttpHandler) {
        &mut self.http_handler
    }

    /// The SSE sub-handler.
    pub fn sse(&mut self) -> (r: &mut McpSseHandler) {
        &mut self.sse_handler
    }

    /// The WebSocket sub-handler.
    pub fn websocket(&mut self) -> (r: &mut McpWebSocketHandler) {
        &mut self.websocket_handler
    }
}

} // verus!
