//! MCP over plain HTTP: JSON-RPC validation and method permission checks
//! for single requests and for batches.

use super::jsonrpc::{
    parse_batch_envelopes, parse_envelope, req_valid, rpc_batch_of, rpc_envelope_of,
    JsonRpcError, JsonRpcId, JsonRpcRequest, JsonRpcResponse,
};
use super::McpValidationError;
use crate::jsonval;
use crate::text::{method_in, views};
use vstd::prelude::*;

verus! {

/// A request that is structurally valid and whose method the allow-list
/// admits.
pub open spec fn req_accepted(req: JsonRpcRequest, methods: Seq<Seq<char>>) -> bool {
    req_valid(req.jsonrpc@, req.method@) && method_in(methods, req.method@)
}

/// An envelope field pair that is structurally valid and whose method the
/// allow-list admits.
pub open spec fn fields_accepted(vm: (Seq<char>, Seq<char>), methods: Seq<Seq<char>>) -> bool {
    req_valid(vm.0, vm.1) && method_in(methods, vm.1)
}

/// A body is accepted as a single request exactly when it parses to an
/// envelope whose fields pass validation and the allow-list.
pub open spec fn body_accepted(b: Seq<u8>, methods: Seq<Seq<char>>) -> bool {
    match rpc_envelope_of(b) {
        Some(vm) => fields_accepted(vm, methods),
        None => false,
    }
}

/// A batch body is accepted exactly when it parses to an array of
/// envelopes and every element is accepted.
pub open spec fn batch_accepted(b: Seq<u8>, methods: Seq<Seq<char>>) -> bool {
    match rpc_batch_of(b) {
        Some(items) => forall|i: int|
            0 <= i < items.len() ==> fields_accepted(#[trigger] items[i], methods),
        None => false,
    }
}

/// MCP HTTP transport handler.
pub struct McpHttpHandler {
    allowed_methods: Vec<String>,
}

impl McpHttpHandler {
    /// The method allow-list.
    pub closed spec fn methods(&self) -> Seq<Seq<char>> {
        views(self.allowed_methods@)
    }

    /// A handler over the given allow-list.
    pub fn new(allowed_methods: Vec<String>) -> (r: McpHttpHandler)
        ensures
            r.methods() == views(allowed_methods@),
    {
        McpHttpHandler { allowed_methods }
    }

    /// Whether a method is allowed: the allow-list holds `*` or the method
    /// itself.
    #[verifier::loop_isolation(false)]
    pub fn is_method_allowed(&self, method: &str) -> (r: bool)
        ensures
            r == method_in(self.methods(), method@),
    {
        proof {
            crate::text::lemma_views_index(self.allowed_methods@);
        }
        let mut i: usize = 0;
        while i < self.allowed_methods.len()
            invariant
                i <= self.allowed_methods@.len(),
                forall|j: int|
                    0 <= j < i ==> !(self.methods()[j] == "*"@ || self.methods()[j] == method@),
            decreases self.allowed_methods@.len() - i,
        {
            let m = self.allowed_methods[i].as_str();
            if crate::text::str_eq(m, "*") || crate::text::str_eq(m, method) {
                proof {
                    assert(self.methods()[i as int] == "*"@ || self.methods()[i as int]
                        == method@);
                }
                return true;
            }
            i += 1;
        }
        false
    }

    /// Validate one HTTP request body: success is owed exactly when the
    /// body parses to an envelope that validates and whose method is
    /// allowed; a body that is no envelope is invalid JSON, an envelope
    /// that fails validation is an invalid format, and a disallowed
    /// method is named in its error.
    pub fn validate_request(&self, body: &[u8]) -> (r: Result<JsonRpcRequest, McpValidationError>)
        ensures
            r is Ok <==> body_accepted(body@, self.methods()),
            r matches Ok(req) ==> rpc_envelope_of(body@) == Some((req.jsonrpc@, req.method@))
                && req_accepted(req, self.methods()),
            (rpc_envelope_of(body@) is None) <==> (r matches Err(
                McpValidationError::InvalidJson(_),
            )),
            (match rpc_envelope_of(body@) {
                Some(vm) => !req_valid(vm.0, vm.1),
                None => false,
            }) <==> (r matches Err(McpValidationError::InvalidFormat(_))),
            (match rpc_envelope_of(body@) {
                Some(vm) => req_valid(vm.0, vm.1) && !method_in(self.methods(), vm.1),
                None => false,
            }) <==> (r matches Err(McpValidationError::MethodNotAllowed(m)) && m@
                == rpc_envelope_of(body@).unwrap().1),
    {
        let request = match parse_envelope(body) {
            Some(req) => req,
            None => {
                // Keep the parser's error text when the body is not JSON
                // at all.
                return Err(
                    McpValidationError::InvalidJson(
                        match jsonval::json_parse(body) {
                            Ok(_) => "not a JSON-RPC request envelope".to_owned(),
                            Err(msg) => msg,
                        },
                    ),
                );
            },
        };
        match request.validate() {
            Ok(()) => {},
            Err(e) => {
                return Err(McpValidationError::InvalidFormat(e.message()));
            },
        }
        if !self.is_method_allowed(request.method.as_str()) {
            return Err(McpValidationError::MethodNotAllowed(request.method.clone()));
        }
        Ok(request)
    }

    /// A blocked response: a policy-violation error echoing the request id.
    pub fn create_blocked_response(&self, id: JsonRpcId, reason: &str) -> (r: JsonRpcResponse)
        ensures
            r.jsonrpc@ == "2.0"@,
            r.result is None,
            r.id == id,
            r.error matches Some(e) && e.code == -32000 && e.message@ == "Policy violation: "@
                + reason@,
    {
        JsonRpcResponse::error(id, JsonRpcError::policy_violation(reason))
    }

    /// The batch acceptance rule: a batch passes exactly when every element
    /// is structurally valid and every method is allowed; the first
    /// offender rejects the whole batch.
    #[verifier::loop_isolation(false)]
    pub fn validate_requests(&self, requests: &Vec<JsonRpcRequest>) -> (r: Result<
        (),
        McpValidationError,
    >)
        ensures
            r is Ok <==> (forall|i: int|
                0 <= i < requests@.len() ==> req_accepted(#[trigger] requests@[i], self.methods())),
            r matches Err(e) ==> e matches McpValidationError::InvalidFormat(_) || e
                matches McpValidationError::MethodNotAllowed(_),
    {
        let mut i: usize = 0;
        while i < requests.len()
            invariant
                i <= requests@.len(),
                forall|j: int|
                    0 <= j < i ==> req_accepted(#[trigger] requests@[j], self.methods()),
            decreases requests@.len() - i,
        {
            let request = &requests[i];
            match request.validate() {
                Ok(()) => {},
                Err(e) => {
                    return Err(McpValidationError::InvalidFormat(e.message()));
                },
            }
            if !self.is_method_allowed(request.method.as_str()) {
                return Err(McpValidationError::MethodNotAllowed(request.method.clone()));
            }
            i += 1;
        }
        Ok(())
    }

    /// Validate a batch body: success is owed exactly when the body
    /// parses to an array of envelopes and every element validates and is
    /// allowed; any failure rejects the whole batch.
    pub fn validate_batch(&self, body: &[u8]) -> (r: Result<
        Vec<JsonRpcRequest>,
        McpValidationError,
    >)
        ensures
            r is Ok <==> batch_accepted(body@, self.methods()),
            r matches Ok(reqs) ==> ({
                let items = rpc_batch_of(body@).unwrap();
                &&& reqs@.len() == items.len()
                &&& forall|i: int| #![auto]
                    0 <= i < reqs@.len() ==> (reqs@[i].jsonrpc@, reqs@[i].method@) == items[i]
                        && req_accepted(reqs@[i], self.methods())
            }),
            (rpc_batch_of(body@) is None) <==> (r matches Err(
                McpValidationError::InvalidJson(_),
            )),
            r matches Err(e) ==> e matches McpValidationError::InvalidJson(_) || e
                matches McpValidationError::InvalidFormat(_) || e
                matches McpValidationError::MethodNotAllowed(_),
    {
        let requests = match parse_batch_envelopes(body) {
            Some(reqs) => reqs,
            None => {
                // Keep the parser's error text when the body is not JSON
                // at all.
                return Err(
                    McpValidationError::InvalidJson(
                        match jsonval::json_parse(body) {
                            Ok(_) => "not a JSON-RPC batch of request envelopes".to_owned(),
                            Err(msg) => msg,
                        },
                    ),
                );
            },
        };
        match self.validate_requests(&requests) {
            Ok(()) => {
                proof {
                    let items = rpc_batch_of(body@).unwrap();
                    assert forall|i: int|
                        0 <= i < items.len() implies fields_accepted(
                        #[trigger] items[i],
                        self.methods(),
                    ) by {
                        assert(req_accepted(requests@[i], self.methods()));
                        assert((requests@[i].jsonrpc@, requests@[i].method@) == items[i]);
                    }
                }
                Ok(requests)
            },
            Err(e) => {
                proof {
                    let items = rpc_batch_of(body@).unwrap();
                    if batch_accepted(body@, self.methods()) {
                        assert forall|i: int|
                            0 <= i < requests@.len() implies req_accepted(
                            #[trigger] requests@[i],
                            self.methods(),
                        ) by {
                            assert(fields_accepted(items[i], self.methods()));
                            assert((requests@[i].jsonrpc@, requests@[i].method@) == items[i]);
                        }
                    }
                }
                Err(e)
            },
        }
    }
}

impl Default for McpHttpHandler {
    /// A handler that allows every method.
    fn default() -> (r: McpHttpHandler)
        ensures
            r.methods() =~= seq!["*"@],
    {
        let r = McpHttpHandler::new(crate::config::default_mcp_methods());
        proof {
            assert(r.methods() =~= seq!["*"@]);
        }
        r
    }
}

} // verus!
