//! The executor: what it is asked.
use vstd::prelude::*;
use crate::pipeline::planner;
use crate::pipeline::planner::brief;

verus! {

/// The task of an executor without a plan.
pub fn autonomous_message(body: &str, state: &str) -> (r: String)
    ensures
        r@ == planner::briefing(body@, state@) + "\n\nDecide what to do and execute."@,
{
    let mut out = brief(body, state);
    out.append("\n\nDecide what to do and execute.");
    out
}

/// The task of an executor with a plan.
pub fn plan_message(body: &str, state: &str, plan: &str) -> (r: String)
    ensures
        r@ == planner::briefing(body@, state@) + "\n\n## Action Plan to Execute\n"@ + plan@
            + "\n\nExecute this plan step by step."@,
{
    let mut out = brief(body, state);
    out.append("\n\n## Action Plan to Execute\n");
    out.append(plan);
    out.append("\n\nExecute this plan step by step.");
    out
}

/// The prompt of an executor with a plan.
pub fn plan_prompt(prompt: &str) -> (r: String)
    ensures
        r@ == prompt@
            + "\n\nIMPORTANT: Execute the provided plan step-by-step. Do NOT deviate from the plan."@,
{
    let mut out = prompt.to_string();
    out.append(
        "\n\nIMPORTANT: Execute the provided plan step-by-step. Do NOT deviate from the plan.",
    );
    out
}

/// The executor's prompt where the skill has none.
pub fn default_executor_prompt() -> (r: String)
    ensures
        r@
            == "You are an Executor agent for a Kubernetes operator. Use the available tools to manage resources. Always verify your actions succeeded before moving on."@,
{
    "You are an Executor agent for a Kubernetes operator. Use the available tools to manage resources. Always verify your actions succeeded before moving on.".to_string()
}

} // verus!
