//! Policy decisions and approvals.

use crate::tool::ToolDefinition;
use vstd::prelude::*;

verus! {

/// What a policy says of one call.
///
/// `S` is the text: `String` in running code, a sequence of characters in contracts.
#[derive(Clone, Debug, PartialEq, Eq)]
#[non_exhaustive]
pub enum PolicyDecision<S = String> {
    /// The call may run.
    Allow {
        /// Why.
        reason: S,
    },
    /// The call may not run.
    Deny {
        /// Why.
        reason: S,
    },
    /// The call may run once it is approved.
    RequireApproval {
        /// Why.
        reason: S,
    },
}

impl View for PolicyDecision<String> {
    type V = PolicyDecision<Seq<char>>;

    open spec fn view(&self) -> PolicyDecision<Seq<char>> {
        match self {
            PolicyDecision::Allow { reason } => PolicyDecision::Allow { reason: reason@ },
            PolicyDecision::Deny { reason } => PolicyDecision::Deny { reason: reason@ },
            PolicyDecision::RequireApproval { reason } => PolicyDecision::RequireApproval {
                reason: reason@,
            },
        }
    }
}

/// The views of recorded decisions.
pub open spec fn decisions_view(decisions: Seq<PolicyDecision>) -> Seq<PolicyDecision<Seq<char>>> {
    decisions.map_values(|decision: PolicyDecision| decision@)
}

impl PolicyDecision {
    /// A copy of the decision.
    pub fn duplicate(&self) -> (result: PolicyDecision)
        ensures
            result == *self,
    {
        match self {
            PolicyDecision::Allow { reason } => PolicyDecision::Allow { reason: reason.clone() },
            PolicyDecision::Deny { reason } => PolicyDecision::Deny { reason: reason.clone() },
            PolicyDecision::RequireApproval { reason } => PolicyDecision::RequireApproval {
                reason: reason.clone(),
            },
        }
    }
}

/// A decision as a run records it: its kind, without the words of the policy.
pub open spec fn public_decision(decision: PolicyDecision<Seq<char>>) -> PolicyDecision<Seq<char>> {
    match decision {
        PolicyDecision::Allow { .. } => PolicyDecision::Allow { reason: "policy allowed the call"@ },
        PolicyDecision::Deny { .. } => PolicyDecision::Deny { reason: "policy denied the call"@ },
        PolicyDecision::RequireApproval { .. } => PolicyDecision::RequireApproval {
            reason: "policy requires approval"@,
        },
    }
}

/// A decision as a run records it.
pub fn public_policy_decision(decision: &PolicyDecision) -> (result: PolicyDecision)
    ensures
        result@ == public_decision(decision@),
{
    match decision {
        PolicyDecision::Allow { .. } => PolicyDecision::Allow {
            reason: "policy allowed the call".to_owned(),
        },
        PolicyDecision::Deny { .. } => PolicyDecision::Deny {
            reason: "policy denied the call".to_owned(),
        },
        PolicyDecision::RequireApproval { .. } => PolicyDecision::RequireApproval {
            reason: "policy requires approval".to_owned(),
        },
    }
}

/// The words of a policy never reach the record of a run.
pub proof fn recorded_decisions_are_value_free(
    left: PolicyDecision<Seq<char>>,
    right: PolicyDecision<Seq<char>>,
)
    requires
        left is Allow <==> right is Allow,
        left is Deny <==> right is Deny,
    ensures
        public_decision(left) == public_decision(right),
{
}

/// The answer to one request for approval.
///
/// `S` is the text: `String` in running code, a sequence of characters in contracts.
#[derive(Clone, Debug, PartialEq, Eq)]
#[non_exhaustive]
pub struct ApprovalRecord<S = String> {
    /// Identifier of the call.
    pub call_id: S,
    /// Identifier of the tool.
    pub tool_id: S,
    /// Whether the call was approved.
    pub granted: bool,
    /// Why.
    pub reason: S,
}

impl View for ApprovalRecord<String> {
    type V = ApprovalRecord<Seq<char>>;

    open spec fn view(&self) -> ApprovalRecord<Seq<char>> {
        ApprovalRecord {
            call_id: self.call_id@,
            tool_id: self.tool_id@,
            granted: self.granted,
            reason: self.reason@,
        }
    }
}

/// The views of recorded approvals.
pub open spec fn approvals_view(approvals: Seq<ApprovalRecord>) -> Seq<ApprovalRecord<Seq<char>>> {
    approvals.map_values(|approval: ApprovalRecord| approval@)
}

impl ApprovalRecord {
    /// Creates an approval record.
    pub fn new(call_id: &str, tool_id: &str, granted: bool, reason: &str) -> (result:
        ApprovalRecord)
        ensures
            result@ == (ApprovalRecord {
                call_id: call_id@,
                tool_id: tool_id@,
                granted,
                reason: reason@,
            }),
    {
        ApprovalRecord {
            call_id: call_id.to_owned(),
            tool_id: tool_id.to_owned(),
            granted,
            reason: reason.to_owned(),
        }
    }
}

/// Allows every call.
pub struct AllowAllPolicy;

impl AllowAllPolicy {
    /// What the policy says of a call of `tool`.
    pub fn decide(&self, tool: &ToolDefinition) -> (result: PolicyDecision)
        ensures
            result@ == (PolicyDecision::Allow { reason: "explicit allow-all policy"@ }),
    {
        PolicyDecision::Allow { reason: "explicit allow-all policy".to_owned() }
    }
}

/// Allows tools that change nothing, and denies the others.
pub struct SafeDefaultPolicy;

impl SafeDefaultPolicy {
    /// What the policy says of a call of `tool`.
    pub fn decide(&self, tool: &ToolDefinition) -> (result: PolicyDecision)
        ensures
            result@ == (if tool.read_only {
                PolicyDecision::Allow { reason: "read-only tool allowed by default policy"@ }
            } else {
                PolicyDecision::Deny { reason: "state-changing tool requires an explicit policy"@ }
            }),
    {
        if tool.read_only {
            PolicyDecision::Allow { reason: "read-only tool allowed by default policy".to_owned() }
        } else {
            PolicyDecision::Deny {
                reason: "state-changing tool requires an explicit policy".to_owned(),
            }
        }
    }
}

/// What a policy says of speculation unless its host says otherwise.
pub fn default_speculative_decision() -> (result: PolicyDecision)
    ensures
        result@ == (PolicyDecision::Deny {
            reason: "speculative execution requires explicit host policy opt-in"@,
        }),
{
    PolicyDecision::Deny {
        reason: "speculative execution requires explicit host policy opt-in".to_owned(),
    }
}

/// Approves nothing.
pub struct DenyApproval;

impl DenyApproval {
    /// The answer to a request for approval of a call of `tool`.
    pub fn approve(&self, tool: &ToolDefinition) -> (result: ApprovalRecord)
        ensures
            result@ == (ApprovalRecord {
                call_id: ""@,
                tool_id: tool.id@,
                granted: false,
                reason: "no approval handler configured"@,
            }),
    {
        ApprovalRecord {
            call_id: "".to_owned(),
            tool_id: tool.id.clone(),
            granted: false,
            reason: "no approval handler configured".to_owned(),
        }
    }
}

} // verus!
