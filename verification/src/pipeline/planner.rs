//! The planner: what it is asked, and the plan that its answer holds.
use vstd::prelude::*;
use crate::agent::types::AgentConfig;
use crate::json::{Json, JsonNumber, NumberView};
use crate::skill::types::LoadedSkill;
use crate::text;

verus! {

/// A plan.
pub struct ActionPlan {
    pub plan_id: String,
    pub goal: String,
    pub steps: Vec<PlanStep>,
    pub rollback_on_failure: String,
}

/// A step of a plan.
pub struct PlanStep {
    pub order: u32,
    pub action: String,
    pub template: Option<String>,
    pub name: Option<String>,
    pub args: Option<Json>,
    pub vars: Option<Json>,
    pub risk: Option<String>,
    pub count: Option<u32>,
    pub timeout: Option<String>,
}

/// What to do when a plan fails and does not say.
pub fn default_rollback() -> (r: String)
    ensures
        r@ == "stop_and_report"@,
{
    "stop_and_report".to_string()
}

/// The turns that planner, simulator and verifier have at most.
pub const SHORT_RUN: u32 = 10;

/// The settings of an agent of the pipeline: `limit` bounds its turns where there is one.
pub fn stage_config(model: &str, max_iterations: u32, limit: Option<u32>) -> (r: AgentConfig)
    ensures
        r.model@ == model@,
        r.max_iterations == (match limit {
            Some(n) => if max_iterations < n {
                max_iterations
            } else {
                n
            },
            None => max_iterations,
        }),
        r.temperature@ == (NumberView::Float { text: "0.0"@, display: "0"@ }),
{
    AgentConfig {
        model: model.to_string(),
        max_iterations: match limit {
            Some(n) => if max_iterations < n {
                max_iterations
            } else {
                n
            },
            None => max_iterations,
        },
        temperature: zero_temperature(),
    }
}

/// The temperature at which a model repeats itself.
pub fn zero_temperature() -> (r: JsonNumber)
    ensures
        r@ == (NumberView::Float { text: "0.0"@, display: "0"@ }),
{
    JsonNumber::Float { text: "0.0".to_string(), display: "0".to_string() }
}

/// The prompt of a role: the skill's own, or the default.
pub fn prompt_of(skill: &LoadedSkill, role: &str, default: &str) -> (r: String)
    ensures
        r@ == (if skill.agent_prompts@.contains_key(role@) {
            skill.agent_prompts@[role@]@
        } else {
            default@
        }),
{
    match skill.agent_prompts.get(role) {
        Some(prompt) => prompt.clone(),
        None => default.to_string(),
    }
}

/// What an agent is told before its task: the skill and the state.
pub open spec fn briefing(body: Seq<char>, state: Seq<char>) -> Seq<char> {
    "## Skill Knowledge\n"@ + body + "\n\n## Current State\n"@ + state
}

/// Tells an agent the skill and the state.
pub fn brief(body: &str, state: &str) -> (r: String)
    ensures
        r@ == briefing(body@, state@),
{
    let mut out = "## Skill Knowledge\n".to_string();
    out.append(body);
    out.append("\n\n## Current State\n");
    out.append(state);
    out
}

/// The task of the planner.
pub fn planner_message(body: &str, state: &str) -> (r: String)
    ensures
        r@ == briefing(body@, state@) + "\n\nCreate an action plan as JSON."@,
{
    let mut out = brief(body, state);
    out.append("\n\nCreate an action plan as JSON.");
    out
}

/// The task of the planner after a rejection.
pub fn replanner_message(body: &str, state: &str, feedback: &str) -> (r: String)
    ensures
        r@ == briefing(body@, state@)
            + "\n\n## Previous Plan Rejected by Simulator\nThe simulator rejected your previous plan with this feedback:\n"@
            + feedback@
            + "\n\nFix the issues and create a corrected action plan as JSON."@,
{
    let mut out = brief(body, state);
    out.append(
        "\n\n## Previous Plan Rejected by Simulator\nThe simulator rejected your previous plan with this feedback:\n",
    );
    out.append(feedback);
    out.append("\n\nFix the issues and create a corrected action plan as JSON.");
    out
}

/// The planner's prompt where the skill has none.
pub fn default_planner_prompt() -> (r: String)
    ensures
        r@
            == "You are a Planner agent for a Kubernetes operator. Given the current state and goal, create an action plan as JSON. Use get_state to understand the current situation. Output a JSON object with: plan_id, goal, steps (array of {order, action, ...}), rollback_on_failure."@,
{
    "You are a Planner agent for a Kubernetes operator. Given the current state and goal, create an action plan as JSON. Use get_state to understand the current situation. Output a JSON object with: plan_id, goal, steps (array of {order, action, ...}), rollback_on_failure.".to_string()
}

/// Where the braces of an answer stand: the first that opens and the last that closes.
pub open spec fn braces(answer: Seq<char>) -> Option<(int, int)> {
    match (text::found(answer, "{"@), text::found_last(answer, "}"@)) {
        (Some(start), Some(end)) => Some((start, end)),
        _ => None,
    }
}

/// The part of an answer that may be a plan: from the first brace that opens to the last that
/// closes, where that stands behind it.
pub open spec fn plan_text(answer: Seq<char>) -> Option<Seq<char>> {
    match braces(answer) {
        Some(b) => if b.0 <= b.1 {
            Some(answer.subrange(b.0, b.1 + 1))
        } else {
            None
        },
        None => None,
    }
}

/// Finds the part of an answer that may be a plan.
pub fn find_plan_text(answer: &str) -> (r: Option<String>)
    ensures
        text::opt(r) == plan_text(answer@),
{
    proof {
        reveal_strlit("{");
        reveal_strlit("}");
    }
    match (text::find(answer, "{"), text::rfind(answer, "}")) {
        (Some(start), Some(end)) => {
            if end < start {
                return None;
            }
            let cs = text::chars_of(answer);
            assert(end < cs.len());
            Some(text::slice_of(&cs, start, end + 1))
        },
        _ => None,
    }
}

/// The plan of an answer: the one that was read, or one without steps where none could be.
pub fn plan_or_empty(parsed: Option<ActionPlan>, goal: &str, millis: u128) -> (r: ActionPlan)
    ensures
        match parsed {
            Some(plan) => r == plan,
            None => r.plan_id@ == "plan-"@ + text::decimal(millis as nat) && r.goal@ == goal@
                && r.steps@.len() == 0 && r.rollback_on_failure@ == "stop_and_report"@,
        },
{
    match parsed {
        Some(plan) => plan,
        None => {
            let mut plan_id = "plan-".to_string();
            plan_id.append(text::decimal_of(millis).as_str());
            ActionPlan {
                plan_id,
                goal: goal.to_string(),
                steps: Vec::new(),
                rollback_on_failure: default_rollback(),
            }
        },
    }
}

proof fn lemma_found_back(s: Seq<char>, pat: Seq<char>, i: int)
    ensures
        match text::found_back(s, pat, i) {
            Some(j) => 0 <= j <= i && text::occurs_at(s, pat, j) && forall|k: int|
                j < k <= i ==> !text::occurs_at(s, pat, k),
            None => forall|k: int| 0 <= k <= i ==> !text::occurs_at(s, pat, k),
        },
    decreases i + 1,
{
    if i >= 0 && !text::occurs_at(s, pat, i) {
        lemma_found_back(s, pat, i - 1);
    }
}

/// The plan of an answer is what stands from the first brace that opens to the last that closes,
/// with the braces, whatever is said before and after. An answer without an opening brace holds no
/// plan.
pub proof fn lemma_plan_stands_between_braces(
    before: Seq<char>,
    inner: Seq<char>,
    after: Seq<char>,
)
    requires
        !before.contains('{'),
        !after.contains('}'),
    ensures
        plan_text(before + seq!['{'] + inner + seq!['}'] + after) == Some(
            seq!['{'] + inner + seq!['}'],
        ),
        plan_text(before) is None,
        plan_text(after) is None,
{
    reveal_strlit("{");
    reveal_strlit("}");
    let open = "{"@;
    let close = "}"@;
    assert(open =~= seq!['{'] && close =~= seq!['}']);
    let tail = inner + close + after;
    let s = before + seq!['{'] + inner + seq!['}'] + after;
    assert(s =~= before + seq!['{'] + tail);
    text::lemma_parted_at(before, '{', tail);
    let e = (before.len() + 1 + inner.len()) as int;
    lemma_found_back(s, close, s.len() - 1);
    assert(s.subrange(e, e + 1) =~= close);
    assert(text::occurs_at(s, close, e));
    let j = text::found_last(s, close)->0;
    if j > e {
        assert(s.subrange(j, j + 1)[0] == close[0]);
        assert(after[j - e - 1] == s[j]);
        assert(after.contains(after[j - e - 1]));
    }
    assert(j == e);
    assert(s.subrange(before.len() as int, e + 1) =~= seq!['{'] + inner + seq!['}']);
    text::lemma_parted_at(before, '{', seq![]);
    lemma_found_back(after, close, after.len() - 1);
    if let Some(k) = text::found_last(after, close) {
        assert(after.subrange(k, k + 1)[0] == close[0]);
        assert(after.contains(after[k]));
    }
}

/// An agent is told the skill and, after it, the state, both in full.
pub proof fn lemma_briefing_holds_skill_and_state(body: Seq<char>, state: Seq<char>) -> (r: (
    Seq<char>,
    Seq<char>,
))
    ensures
        briefing(body, state) == r.0 + body + r.1 + state,
        SHORT_RUN == 10,
{
    ("## Skill Knowledge\n"@, "\n\n## Current State\n"@)
}

} // verus!
