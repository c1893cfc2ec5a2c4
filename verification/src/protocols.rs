//! Protocol handlers: MCP (JSON-RPC over HTTP, SSE and WebSocket
//! transports) and A2A (message/task envelopes over JSON-RPC, gRPC or
//! HTTP+JSON bindings).

pub mod a2a;
pub mod mcp;

pub use a2a::{A2ABinding, A2AHandler};
pub use mcp::{McpHandler, McpRequest, McpResponse, McpTransport, McpValidationError};
