//! The simulator: what it is asked, and whether it approves.
use vstd::prelude::*;
use crate::pipeline::planner;
use crate::pipeline::planner::brief;
use crate::text;

verus! {

/// The simulator's judgement of a plan.
pub struct SimulatorResult {
    pub approved: bool,
    pub reason: String,
}

/// The task of the simulator.
pub fn simulator_message(body: &str, state: &str, plan: &str) -> (r: String)
    ensures
        r@ == planner::briefing(body@, state@) + "\n\n## Action Plan to Validate\n"@ + plan@
            + "\n\nIs this plan safe? Respond with APPROVED or REJECTED followed by reason."@,
{
    let mut out = brief(body, state);
    out.append("\n\n## Action Plan to Validate\n");
    out.append(plan);
    out.append("\n\nIs this plan safe? Respond with APPROVED or REJECTED followed by reason.");
    out
}

/// The simulator's prompt where the skill has none.
pub fn default_simulator_prompt() -> (r: String)
    ensures
        r@
            == "You are a Simulator agent. Validate action plans for safety. Check preconditions, look for data loss risks, verify the plan makes sense. Respond with APPROVED or REJECTED followed by your reasoning."@,
{
    "You are a Simulator agent. Validate action plans for safety. Check preconditions, look for data loss risks, verify the plan makes sense. Respond with APPROVED or REJECTED followed by your reasoning.".to_string()
}

/// What the simulator said.
pub open spec fn said(answer: Option<Seq<char>>) -> Seq<char> {
    match answer {
        Some(t) => t,
        None => "No response"@,
    }
}

/// Whether an answer in capitals approves: the verdict comes first.
pub open spec fn approving(capitals: Seq<char>) -> bool {
    text::begins(text::trimmed(capitals), "APPROVED"@)
}

/// Tells whether an answer in capitals approves.
pub fn approves(capitals: &str) -> (r: bool)
    ensures
        r == approving(capitals@),
{
    text::starts_with(text::trim(capitals).as_str(), "APPROVED")
}

/// Judges by the simulator's answer: it approves where it begins with that verdict, in any case.
/// What follows is the reason, whatever words it holds.
pub fn judge(answer: Option<String>) -> (r: SimulatorResult)
    ensures
        r.reason@ == said(text::opt(answer)),
        r.approved == approving(text::uppercased(said(text::opt(answer)))),
        text::ascii(r.reason@) ==> r.approved == approving(
            r.reason@.map_values(|c: char| text::ascii_upper(c)),
        ),
{
    let reason = match answer {
        Some(t) => t,
        None => "No response".to_string(),
    };
    let capitals = text::to_uppercase(reason.as_str());
    SimulatorResult { approved: approves(capitals.as_str()), reason }
}

/// An answer approves where its first word says so, whatever white space stands before it and
/// whatever follows; an answer that begins with any other letter does not.
pub proof fn lemma_verdict_comes_first(
    before: Seq<char>,
    rest: Seq<char>,
    first: char,
)
    requires
        text::all_white(before),
        !text::white(first),
        first != 'A',
    ensures
        approving(before + ("APPROVED"@ + rest)),
        !approving(before + (seq![first] + rest)),
        !approving(before),
        said(None) == "No response"@,
        said(Some(rest)) == rest,
{
    reveal_strlit("APPROVED");
    let verdict = "APPROVED"@;
    let x = verdict + rest;
    let w = text::lemma_trimmed(before + x);
    let s = before + x;
    let t = text::trimmed(s);
    let n = before.len() as int;
    assert(s[n] == 'A' && s[n + 7] == 'D');
    assert(w.0.len() == n) by {
        if w.0.len() > n {
            assert(text::white(w.0[n]));
            assert(w.0[n] == s[n]);
        } else if w.0.len() < n {
            if t.len() > 0 {
                assert(t[0] == s[w.0.len() as int]);
                assert(s[w.0.len() as int] == before[w.0.len() as int]);
            } else {
                assert(text::white(w.1[n - w.0.len()]));
                assert(w.1[n - w.0.len()] == s[n]);
            }
        }
    }
    assert(t.len() >= 8) by {
        if t.len() < 8 {
            let k = n + 7 - w.0.len() - t.len();
            assert(text::white(w.1[k]));
            assert(w.1[k] == s[n + 7]);
        }
    }
    assert(t.subrange(0, 8) =~= verdict) by {
        assert forall|k: int| 0 <= k < 8 implies t[k] == verdict[k] by {
            assert(t[k] == s[n + k]);
        }
    }
    let y = seq![first] + rest;
    let v = text::lemma_trimmed(before + y);
    let u = text::trimmed(before + y);
    if text::begins(u, verdict) {
        assert(u.subrange(0, 8)[0] == verdict[0]);
        let z = before + y;
        assert(z[n] == first);
        assert(z[v.0.len() as int] == u[0]);
        if v.0.len() > n {
            assert(text::white(v.0[n]));
            assert(v.0[n] == z[n]);
        } else if v.0.len() < n {
            assert(z[v.0.len() as int] == before[v.0.len() as int]);
        }
    }
    text::lemma_blank_is_white(before);
}

} // verus!
