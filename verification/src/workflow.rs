//! Workflow orchestration for review pipelines: the checks a workflow makes
//! before it runs.

use vstd::prelude::*;
use crate::registry::Registry;
use crate::text::{concat, owned, with_decimal, decimal};

verus! {

/// Error type for workflow operations.
#[derive(Debug, Clone)]
pub enum WorkflowError {
    /// Agent not found in registry
    AgentNotRegistered {
        /// Agent name
        agent: String,
    },
    /// Rule not found in registry
    RuleNotRegistered {
        /// Rule ID
        rule: String,
    },
    /// Execution failed
    ExecutionFailed(String),
    /// Operation timed out, after the given number of milliseconds
    Timeout(u64),
    /// Maximum steps exceeded, with the limit
    MaxStepsExceeded(u32),
}

impl WorkflowError {
    /// The text that describes the error.
    pub open spec fn message(self) -> Seq<char> {
        match self {
            WorkflowError::AgentNotRegistered { agent } => "Agent not registered: "@ + agent@,
            WorkflowError::RuleNotRegistered { rule } => "Rule not registered: "@ + rule@,
            WorkflowError::ExecutionFailed(s) => "Execution failed: "@ + s@,
            WorkflowError::Timeout(ms) => "Workflow timeout after "@ + decimal(ms as nat) + "ms"@,
            WorkflowError::MaxStepsExceeded(n) => "Maximum workflow steps exceeded (limit: "@ + decimal(
                n as nat,
            ) + ")"@,
        }
    }

    /// The text that describes the error.
    pub fn to_string(&self) -> (s: String)
        ensures
            s@ == self.message(),
    {
        match self {
            WorkflowError::AgentNotRegistered { agent } => concat(
                "Agent not registered: ",
                agent.as_str(),
            ),
            WorkflowError::RuleNotRegistered { rule } => concat("Rule not registered: ", rule.as_str()),
            WorkflowError::ExecutionFailed(s) => concat("Execution failed: ", s.as_str()),
            WorkflowError::Timeout(ms) => {
                let mut s = with_decimal("Workflow timeout after ", *ms);
                s.append("ms");
                s
            },
            WorkflowError::MaxStepsExceeded(n) => {
                let mut s = with_decimal("Maximum workflow steps exceeded (limit: ", *n as u64);
                s.append(")");
                s
            },
        }
    }
}

/// Checks that the agent a workflow is asked to run is registered; an
/// unknown agent is reported by its name.
pub fn require_agent<V>(agents: &Registry<V>, agent_name: &str) -> (r: Result<(), WorkflowError>)
    ensures
        agents.view().contains_key(agent_name@) ==> r is Ok,
        !agents.view().contains_key(agent_name@) ==> (r matches Err(
            WorkflowError::AgentNotRegistered { agent },
        ) && agent@ == agent_name@),
{
    if agents.contains(agent_name) {
        Ok(())
    } else {
        Err(WorkflowError::AgentNotRegistered { agent: owned(agent_name) })
    }
}

/// Checks that every rule a workflow is asked to apply is registered; the
/// first unknown one, in the order given, is reported.
pub fn require_rules<V>(rules: &Registry<V>, rule_ids: &[&str]) -> (r: Result<(), WorkflowError>)
    ensures
        r is Ok <==> forall|i: int| 0 <= i < rule_ids@.len() ==> rules.view().contains_key(
            #[trigger] rule_ids@[i]@,
        ),
        r matches Err(WorkflowError::RuleNotRegistered { rule }) ==> exists|i: int|
            0 <= i < rule_ids@.len() && rule@ == rule_ids@[i]@ && !rules.view().contains_key(
                rule_ids@[i]@,
            ) && forall|j: int| 0 <= j < i ==> rules.view().contains_key(#[trigger] rule_ids@[j]@),
        r matches Err(e) ==> e is RuleNotRegistered,
{
    let mut i: usize = 0;
    while i < rule_ids.len()
        invariant
            i <= rule_ids@.len(),
            forall|j: int| 0 <= j < i ==> rules.view().contains_key(#[trigger] rule_ids@[j]@),
        decreases rule_ids@.len() - i,
    {
        if !rules.contains(rule_ids[i]) {
            return Err(WorkflowError::RuleNotRegistered { rule: owned(rule_ids[i]) });
        }
        i = i + 1;
    }
    Ok(())
}

} // verus!
