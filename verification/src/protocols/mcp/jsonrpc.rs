//! JSON-RPC 2.0 envelopes, MCP's wire protocol.
//!
//! A valid request carries `jsonrpc == "2.0"` and a non-empty method that
//! does not begin with the reserved `rpc.` prefix; a request without an
//! `id` is a notification. Error responses come from a fixed code table,
//! with the policy-violation form carrying a structured payload naming
//! this filter as its source.

use crate::text::{dec_bytes_signed, matches_at, utf8_of};
use vstd::prelude::*;
use vstd::string::StringExecFns;

verus! {

/// A request identifier: a number, a string, or any other JSON value
/// carried as its text.
#[derive(Debug, Clone)]
pub enum JsonRpcId {
    /// A numeric id.
    Num(i64),
    /// A string id.
    Text(String),
    /// Any other id value, carried as JSON text.
    Other(String),
}

/// A JSON-RPC 2.0 request.
#[derive(Debug, Clone)]
pub struct JsonRpcRequest {
    /// Must be `"2.0"`.
    pub jsonrpc: String,
    /// Request method.
    pub method: String,
    /// Request parameters, carried as JSON text when present.
    pub params: Option<String>,
    /// Request id; absent for notifications.
    pub id: Option<JsonRpcId>,
}

/// The envelope fields a body parses to: `Some((jsonrpc, method))` when
/// the body is a JSON object carrying string `jsonrpc` and `method`
/// members (the id, when present, may be any value), `None` otherwise.
/// Parsing is a function of the bytes alone.
pub uninterp spec fn rpc_envelope_of(b: Seq<u8>) -> Option<(Seq<char>, Seq<char>)>;

/// The envelope fields of every element of a batch body: the
/// `(jsonrpc, method)` pairs, in order, when the body is a JSON array
/// whose every element parses as a request envelope; `None` otherwise.
pub uninterp spec fn rpc_batch_of(b: Seq<u8>) -> Option<Seq<(Seq<char>, Seq<char>)>>;

/// The `rpc.` reserved-prefix check, over the method's bytes.
pub open spec fn method_reserved(method: Seq<char>) -> bool {
    matches_at(utf8_of(method), utf8_of("rpc."@), 0)
}

/// A structurally valid request: the exact version string and a non-empty,
/// non-reserved method.
pub open spec fn req_valid(jsonrpc: Seq<char>, method: Seq<char>) -> bool {
    jsonrpc == "2.0"@ && method.len() > 0 && !method_reserved(method)
}

impl JsonRpcRequest {
    /// Validate the envelope: the version is checked first, then that the
    /// method is non-empty, then that it is not reserved.
    pub fn validate(&self) -> (r: Result<(), JsonRpcValidationError>)
        ensures
            self.jsonrpc@ != "2.0"@ ==> (r matches Err(JsonRpcValidationError::InvalidVersion(v))
                && v@ == self.jsonrpc@),
            self.jsonrpc@ == "2.0"@ && self.method@.len() == 0 ==> r matches Err(
                JsonRpcValidationError::EmptyMethod,
            ),
            self.jsonrpc@ == "2.0"@ && self.method@.len() > 0 && method_reserved(self.method@)
                ==> (r matches Err(JsonRpcValidationError::ReservedMethod(m)) && m@
                == self.method@),
            r is Ok <==> req_valid(self.jsonrpc@, self.method@),
    {
        if !crate::text::str_eq(self.jsonrpc.as_str(), "2.0") {
            return Err(JsonRpcValidationError::InvalidVersion(self.jsonrpc.clone()));
        }
        if self.method.as_str().is_empty() {
            proof {
                assert(self.method@.len() == 0);
            }
            return Err(JsonRpcValidationError::EmptyMethod);
        }
        if crate::text::starts_with_bytes(self.method.as_str().as_bytes(), "rpc.".as_bytes()) {
            return Err(JsonRpcValidationError::ReservedMethod(self.method.clone()));
        }
        Ok(())
    }

    /// Whether this request is a notification (it has no id).
    pub fn is_notification(&self) -> (r: bool)
        ensures
            r == (self.id is None),
    {
        self.id.is_none()
    }

    /// The request id as text, for logging: numbers in decimal, strings and
    /// other values as carried, `notification` when absent.
    pub fn id_string(&self) -> (r: String)
        ensures
            match self.id {
                Some(JsonRpcId::Num(n)) => r@ == vstd::utf8::decode_utf8(
                    dec_bytes_signed(n as int),
                ),
                Some(JsonRpcId::Text(ref s)) => r@ == s@,
                Some(JsonRpcId::Other(ref s)) => r@ == s@,
                None => r@ == "notification"@,
            },
    {
        match &self.id {
            Some(JsonRpcId::Num(n)) => crate::text::i64_to_dec(*n),
            Some(JsonRpcId::Text(s)) => s.clone(),
            Some(JsonRpcId::Other(s)) => s.clone(),
            None => "notification".to_owned(),
        }
    }

}

/// Reads one request envelope out of a parsed document: string `jsonrpc`
/// and `method` members, `params` carried as JSON text, and an id that
/// may be a number, a string or any other value (null counting as
/// absent).
///
/// Relies on `serde_json::Value`'s accessors (`get`, `as_str`, `as_i64`,
/// `is_null`) and its display form; pure projection of one document into
/// the envelope type.
#[verifier::external_body]
fn envelope_from_value(v: &serde_json::Value) -> (r: Option<JsonRpcRequest>) {
    let id = match v.get("id") {
        None => None,
        Some(f) if f.is_null() => None,
        Some(f) => Some(match (f.as_i64(), f.as_str()) {
            (Some(n), _) => JsonRpcId::Num(n),
            (None, Some(s)) => JsonRpcId::Text(s.to_string()),
            (None, None) => JsonRpcId::Other(f.to_string()),
        }),
    };
    Some(JsonRpcRequest {
        jsonrpc: v.get("jsonrpc")?.as_str()?.to_string(),
        method: v.get("method")?.as_str()?.to_string(),
        params: v.get("params").map(|p| p.to_string()),
        id,
    })
}

/// Parse one request envelope from a body.
///
/// Relies on `serde_json::from_slice::<Value>` and the envelope
/// projection above; acceptance and the envelope fields are functions of
/// the bytes alone, named by [`rpc_envelope_of`].
#[verifier::external_body]
pub(crate) fn parse_envelope(body: &[u8]) -> (r: Option<JsonRpcRequest>)
    ensures
        r.is_some() == (rpc_envelope_of(body@) is Some),
        r matches Some(req) ==> rpc_envelope_of(body@) == Some((req.jsonrpc@, req.method@)),
{
    let doc: serde_json::Value = serde_json::from_slice(body).ok()?;
    envelope_from_value(&doc)
}

/// Parse a batch body: a JSON array whose every element is a request
/// envelope.
///
/// Relies on `serde_json::from_slice::<Value>`, `Value::as_array` and the
/// envelope projection above; acceptance and every element's fields are
/// functions of the bytes alone, named by [`rpc_batch_of`].
#[verifier::external_body]
pub(crate) fn parse_batch_envelopes(body: &[u8]) -> (r: Option<Vec<JsonRpcRequest>>)
    ensures
        r.is_some() == (rpc_batch_of(body@) is Some),
        r matches Some(reqs) ==> ({
            let items = rpc_batch_of(body@).unwrap();
            reqs@.len() == items.len() && forall|i: int| #![auto]
                0 <= i < reqs@.len() ==> (reqs@[i].jsonrpc@, reqs@[i].method@) == items[i]
        }),
{
    let doc: serde_json::Value = serde_json::from_slice(body).ok()?;
    doc.as_array()?.iter().map(envelope_from_value).collect()
}

/// A JSON-RPC 2.0 response.
#[derive(Debug, Clone)]
pub struct JsonRpcResponse {
    /// Always `"2.0"`.
    pub jsonrpc: String,
    /// Result, carried as JSON text; mutually exclusive with `error`.
    pub result: Option<String>,
    /// Error; mutually exclusive with `result`.
    pub error: Option<JsonRpcError>,
    /// Response id, echoing the request's.
    pub id: JsonRpcId,
}

impl JsonRpcResponse {
    /// A success response.
    pub fn success(id: JsonRpcId, result: String) -> (r: JsonRpcResponse)
        ensures
            r.jsonrpc@ == "2.0"@,
            r.result matches Some(v) && v@ == result@,
            r.error is None,
            r.id == id,
    {
        JsonRpcResponse { jsonrpc: "2.0".to_owned(), result: Some(result), error: None, id }
    }

    /// An error response.
    pub fn error(id: JsonRpcId, error: JsonRpcError) -> (r: JsonRpcResponse)
        ensures
            r.jsonrpc@ == "2.0"@,
            r.result is None,
            r.error matches Some(e) && e == error,
            r.id == id,
    {
        JsonRpcResponse { jsonrpc: "2.0".to_owned(), result: None, error: Some(error), id }
    }

    /// Whether this is an error response.
    pub fn is_error(&self) -> (r: bool)
        ensures
            r == (self.error is Some),
    {
        self.error.is_some()
    }
}

/// The structured payload attached to a policy-violation error,
/// identifying this filter as the source.
#[derive(Debug, Clone)]
pub struct PolicyViolationData {
    /// The component that blocked the call.
    pub blocked_by: String,
    /// Why it blocked.
    pub reason: String,
}

/// A JSON-RPC 2.0 error.
#[derive(Debug, Clone)]
pub struct JsonRpcError {
    /// Error code.
    pub code: i32,
    /// Error message.
    pub message: String,
    /// Structured data for policy violations.
    pub data: Option<PolicyViolationData>,
}

impl JsonRpcError {
    /// Standard error: parse error.
    pub fn parse_error() -> (r: JsonRpcError)
        ensures
            r.code == -32700,
            r.message@ == "Parse error"@,
            r.data is None,
    {
        JsonRpcError { code: -32700, message: "Parse error".to_owned(), data: None }
    }

    /// Standard error: invalid request.
    pub fn invalid_request(message: &str) -> (r: JsonRpcError)
        ensures
            r.code == -32600,
            r.message@ == "Invalid Request: "@ + message@,
            r.data is None,
    {
        let mut m = "Invalid Request: ".to_owned();
        m.append(message);
        JsonRpcError { code: -32600, message: m, data: None }
    }

    /// Standard error: method not found.
    pub fn method_not_found(method: &str) -> (r: JsonRpcError)
        ensures
            r.code == -32601,
            r.message@ == "Method not found: "@ + method@,
            r.data is None,
    {
        let mut m = "Method not found: ".to_owned();
        m.append(method);
        JsonRpcError { code: -32601, message: m, data: None }
    }

    /// Standard error: invalid params.
    pub fn invalid_params(message: &str) -> (r: JsonRpcError)
        ensures
            r.code == -32602,
            r.message@ == "Invalid params: "@ + message@,
            r.data is None,
    {
        let mut m = "Invalid params: ".to_owned();
        m.append(message);
        JsonRpcError { code: -32602, message: m, data: None }
    }

    /// Standard error: internal error.
    pub fn internal_error(message: &str) -> (r: JsonRpcError)
        ensures
            r.code == -32603,
            r.message@ == "Internal error: "@ + message@,
            r.data is None,
    {
        let mut m = "Internal error: ".to_owned();
        m.append(message);
        JsonRpcError { code: -32603, message: m, data: None }
    }

    /// Policy violation, carrying a payload that names this filter.
    pub fn policy_violation(reason: &str) -> (r: JsonRpcError)
        ensures
            r.code == -32000,
            r.message@ == "Policy violation: "@ + reason@,
            r.data matches Some(d) && d.blocked_by@ == "ai-guard"@ && d.reason@ == reason@,
    {
        let mut m = "Policy violation: ".to_owned();
        m.append(reason);
        JsonRpcError {
            code: -32000,
            message: m,
            data: Some(
                PolicyViolationData {
                    blocked_by: "ai-guard".to_owned(),
                    reason: reason.to_owned(),
                },
            ),
        }
    }
}

/// Ways a request envelope can be invalid.
#[derive(Debug, Clone)]
pub enum JsonRpcValidationError {
    /// The version is not `"2.0"`.
    InvalidVersion(String),
    /// The method is empty.
    EmptyMethod,
    /// The method uses the reserved `rpc.` prefix.
    ReservedMethod(String),
}

impl JsonRpcValidationError {
    /// A human-readable description of the failure.
    pub fn message(&self) -> (r: String)
        ensures
            match self {
                JsonRpcValidationError::InvalidVersion(v) => r@ == "Invalid JSON-RPC version: "@
                    + v@ + " (expected 2.0)"@,
                JsonRpcValidationError::EmptyMethod => r@ == "Method cannot be empty"@,
                JsonRpcValidationError::ReservedMethod(m) => r@ == "Reserved method prefix: "@
                    + m@,
            },
    {
        match self {
            JsonRpcValidationError::InvalidVersion(v) => {
                let mut m = "Invalid JSON-RPC version: ".to_owned();
                m.append(v.as_str());
                m.append(" (expected 2.0)");
                m
            },
            JsonRpcValidationError::EmptyMethod => "Method cannot be empty".to_owned(),
            JsonRpcValidationError::ReservedMethod(mm) => {
                let mut m = "Reserved method prefix: ".to_owned();
                m.append(mm.as_str());
                m
            },
        }
    }
}

} // verus!
