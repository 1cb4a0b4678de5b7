//! The verifier: what it is asked, and whether it reported.
use vstd::prelude::*;
use crate::text;

verus! {

/// The task of the verifier.
pub fn verifier_message(body: &str, goal: &str) -> (r: String)
    ensures
        r@ == "## Skill Knowledge\n"@ + body@ + "\n\n## Goal\n"@ + goal@
            + "\n\nVerify the current state matches the goal. Use get_state to check. Call update_status as your final action."@,
{
    let mut out = "## Skill Knowledge\n".to_string();
    out.append(body);
    out.append("\n\n## Goal\n");
    out.append(goal);
    out.append(
        "\n\nVerify the current state matches the goal. Use get_state to check. Call update_status as your final action.",
    );
    out
}

/// The verifier's prompt where the skill has none.
pub fn default_verifier_prompt() -> (r: String)
    ensures
        r@
            == "You are a Verifier agent. Check if the actual state matches the declared goal. Use get_state to read the current state. Call update_status to set the appropriate phase (Running if healthy, Healing if issues found). update_status MUST be your final action."@,
{
    "You are a Verifier agent. Check if the actual state matches the declared goal. Use get_state to read the current state. Call update_status to set the appropriate phase (Running if healthy, Healing if issues found). update_status MUST be your final action.".to_string()
}

/// Tells whether the status was updated by one of the actions.
pub fn called_update_status(actions: &Vec<String>) -> (r: bool)
    ensures
        r == exists|i: int|
            0 <= i < actions@.len() && text::has(#[trigger] actions@[i]@, "update_status"@),
{
    let mut i: usize = 0;
    while i < actions.len()
        invariant
            i <= actions@.len(),
            forall|k: int|
                0 <= k < i ==> !text::has(#[trigger] actions@[k]@, "update_status"@),
        decreases actions@.len() - i,
    {
        if text::contains(actions[i].as_str(), "update_status") {
            return true;
        }
        i = i + 1;
    }
    false
}

} // verus!
