//! What a tool call runs with and how it fails.
use crate::network_policy::NetworkPolicyDecider;
use vstd::prelude::*;

verus! {

/// The kinds of failure of a tool call.
#[derive(Clone, Copy, Debug, PartialEq, Eq, Structural)]
pub enum ToolErrorKind {
    InvalidInput,
    PermissionDenied,
}

/// A failed tool call, with the message for the caller.
#[derive(Debug)]
pub struct ToolError {
    pub kind: ToolErrorKind,
    pub message: String,
}

impl View for ToolError {
    type V = (ToolErrorKind, Seq<char>);

    open spec fn view(&self) -> (ToolErrorKind, Seq<char>) {
        (self.kind, self.message@)
    }
}

impl ToolError {
    /// The arguments cannot be used.
    pub fn invalid_input(message: String) -> (r: ToolError)
        ensures
            r@ == (ToolErrorKind::InvalidInput, message@),
    {
        ToolError { kind: ToolErrorKind::InvalidInput, message }
    }

    /// The call is not allowed.
    pub fn permission_denied(message: String) -> (r: ToolError)
        ensures
            r@ == (ToolErrorKind::PermissionDenied, message@),
    {
        ToolError { kind: ToolErrorKind::PermissionDenied, message }
    }
}

/// What a tool call runs with.
#[derive(Debug)]
pub struct ToolContext {
    /// The network policy, where one is configured.
    pub network_policy: Option<NetworkPolicyDecider>,
}

impl ToolContext {
    /// A context without a network policy.
    pub fn new() -> (r: ToolContext)
        ensures
            r.network_policy is None,
    {
        ToolContext { network_policy: None }
    }

    /// The context under this network policy.
    pub fn with_network_policy(self, decider: NetworkPolicyDecider) -> (r: ToolContext)
        ensures
            r.network_policy == Some(decider),
    {
        ToolContext { network_policy: Some(decider) }
    }
}

} // verus!
