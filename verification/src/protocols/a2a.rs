//! A2A (agent-to-agent) protocol handling: envelope validation and
//! transport-level security checks.

pub mod security;
pub mod validator;

pub use security::{A2ASecurityEnforcer, A2ASecurityError};
pub use validator::{A2AMessage, A2ATask, A2AValidationError, A2AValidator};

use vstd::prelude::*;

verus! {

/// A2A protocol bindings.
#[derive(Debug, Clone, Copy, PartialEq, Eq, Structural)]
pub enum A2ABinding {
    /// JSON-RPC over HTTP POST.
    JsonRpc,
    /// gRPC over HTTP/2.
    Grpc,
    /// REST-style HTTP+JSON.
    HttpJson,
}

/// The binding the headers announce, from header `i` on: a `content-type`
/// containing `application/grpc` is gRPC, one containing
/// `application/json` is JSON-RPC, and without either the binding is
/// undetermined.
pub open spec fn detect_binding_from(hs: Seq<(String, String)>, i: int) -> Option<A2ABinding>
    decreases hs.len() - i,
    when 0 <= i
{
    if i >= hs.len() {
        None
    } else {
        let name = crate::protocols::mcp::low(hs[i].0@);
        let value = crate::protocols::mcp::low(hs[i].1@);
        if name == crate::protocols::mcp::low("content-type"@) {
            if crate::text::contains_bytes(value, crate::protocols::mcp::low("application/grpc"@)) {
                Some(A2ABinding::Grpc)
            } else if crate::text::contains_bytes(
                value,
                crate::protocols::mcp::low("application/json"@),
            ) {
                Some(A2ABinding::JsonRpc)
            } else {
                detect_binding_from(hs, i + 1)
            }
        } else {
            detect_binding_from(hs, i + 1)
        }
    }
}

impl A2ABinding {
    /// Detect the binding from request headers.
    #[verifier::loop_isolation(false)]
    pub fn detect(headers: &[(String, String)]) -> (r: Option<A2ABinding>)
        ensures
            r == detect_binding_from(headers@, 0),
    {
        let mut i: usize = 0;
        while i < headers.len()
            invariant
                i <= headers@.len(),
                detect_binding_from(headers@, 0) == detect_binding_from(headers@, i as int),
            decreases headers@.len() - i,
        {
            let name = headers[i].0.as_str();
            let value_low = crate::text::lower_vec(headers[i].1.as_str().as_bytes());
            if crate::text::str_eq_ignore_ascii(name, "content-type") {
                if crate::text::contains_bytes_exec(
                    value_low.as_slice(),
                    crate::text::lower_vec("application/grpc".as_bytes()).as_slice(),
                ) {
                    return Some(A2ABinding::Grpc);
                }
                if crate::text::contains_bytes_exec(
                    value_low.as_slice(),
                    crate::text::lower_vec("application/json".as_bytes()).as_slice(),
                ) {
                    return Some(A2ABinding::JsonRpc);
                }
            }
            i += 1;
        }
        None
    }
}

/// A2A handler across all bindings.
pub struct A2AHandler {
    validator: A2AValidator,
    security: A2ASecurityEnforcer,
    allowed_bindings: Vec<A2ABinding>,
}

impl A2AHandler {
    /// The bindings this handler accepts.
    pub closed spec fn bindings(&self) -> Seq<A2ABinding> {
        self.allowed_bindings@
    }

    /// The security enforcer's configuration.
    pub closed spec fn security_spec(&self) -> A2ASecurityEnforcer {
        self.security
    }

    /// A handler accepting every binding, without a TLS requirement.
    pub fn new() -> (r: A2AHandler)
        ensures
            r.bindings() =~= seq![A2ABinding::JsonRpc, A2ABinding::Grpc, A2ABinding::HttpJson],
            !r.security_spec().requires_tls(),
    {
        let mut allowed_bindings: Vec<A2ABinding> = Vec::new();
        allowed_bindings.push(A2ABinding::JsonRpc);
        allowed_bindings.push(A2ABinding::Grpc);
        allowed_bindings.push(A2ABinding::HttpJson);
        let r = A2AHandler {
            validator: A2AValidator::new(),
            security: A2ASecurityEnforcer::new(false),
            allowed_bindings,
        };
        proof {
            assert(r.bindings() =~= seq![
                A2ABinding::JsonRpc,
                A2ABinding::Grpc,
                A2ABinding::HttpJson,
            ]);
        }
        r
    }

    /// A handler accepting every binding, with an explicit TLS
    /// requirement.
    pub fn with_tls(require_tls: bool) -> (r: A2AHandler)
        ensures
            r.bindings() =~= seq![A2ABinding::JsonRpc, A2ABinding::Grpc, A2ABinding::HttpJson],
            r.security_spec().requires_tls() == require_tls,
    {
        let mut allowed_bindings: Vec<A2ABinding> = Vec::new();
        allowed_bindings.push(A2ABinding::JsonRpc);
        allowed_bindings.push(A2ABinding::Grpc);
        allowed_bindings.push(A2ABinding::HttpJson);
        let r = A2AHandler {
            validator: A2AValidator::new(),
            security: A2ASecurityEnforcer::new(require_tls),
            allowed_bindings,
        };
        proof {
            assert(r.bindings() =~= seq![
                A2ABinding::JsonRpc,
                A2ABinding::Grpc,
                A2ABinding::HttpJson,
            ]);
        }
        r
    }

    /// Validate an A2A message body: success is owed exactly when the
    /// body parses as a message envelope with a non-empty id, at least
    /// one part, and only clean texts.
    pub fn validate_message(&self, body: &[u8]) -> (r: Result<A2AMessage, A2AValidationError>)
        ensures
            r is Ok <==> validator::message_accepted(body@),
            (validator::a2a_message_of(body@) is None) <==> (r matches Err(
                A2AValidationError::InvalidJson(_),
            )),
            r matches Ok(m) ==> validator::message_ok(m),
    {
        self.validator.validate_message(body)
    }

    /// Validate an A2A task body: success is owed exactly when the body
    /// parses as a task envelope with a non-empty id, well-named
    /// artifacts, and only clean texts.
    pub fn validate_task(&self, body: &[u8]) -> (r: Result<A2ATask, A2AValidationError>)
        ensures
            r is Ok <==> validator::task_accepted(body@),
            (validator::a2a_task_of(body@) is None) <==> (r matches Err(
                A2AValidationError::InvalidJson(_),
            )),
            r matches Ok(t) ==> validator::task_ok(t),
    {
        self.validator.validate_task(body)
    }

    /// Whether a binding is accepted.
    #[verifier::loop_isolation(false)]
    pub fn is_binding_allowed(&self, binding: A2ABinding) -> (r: bool)
        ensures
            r == self.bindings().contains(binding),
    {
        let mut i: usize = 0;
        while i < self.allowed_bindings.len()
            invariant
                i <= self.bindings().len(),
                forall|j: int| 0 <= j < i ==> self.bindings()[j] != binding,
            decreases self.bindings().len() - i,
        {
            if self.allowed_bindings[i] == binding {
                assert(self.bindings()[i as int] == binding);
                return true;
            }
            i += 1;
        }
        assert(!self.bindings().contains(binding));
        false
    }

    /// The security enforcer.
    pub fn security(&self) -> (r: &A2ASecurityEnforcer)
        ensures
            r == self.security_spec(),
    {
        &self.security
    }

    /// The validator.
    pub fn validator(&self) -> (r: &A2AValidator) {
        &self.validator
    }
}

impl Default for A2AHandler {
    /// A handler accepting every binding, without a TLS requirement.
    fn default() -> (r: A2AHandler)
        ensures
            r.bindings() =~= seq![A2ABinding::JsonRpc, A2ABinding::Grpc, A2ABinding::HttpJson],
    {
        A2AHandler::new()
    }
}

} // verus!
