//! The pipeline and its stages.
use krust_operator::pipeline::planner::{
    default_rollback, find_plan_text, plan_or_empty, planner_message,
    prompt_of, replanner_message, stage_config, ActionPlan, SHORT_RUN,
};
use krust_operator::pipeline::simulator::{judge, simulator_message, SimulatorResult};
use krust_operator::pipeline::verification::called_update_status;
use krust_operator::pipeline::{Pipeline, PipelineConfig, PipelineResult, Stage, StageEvent};
use krust_operator::skill::types::{LoadedSkill, RiskLevel, SkillConfig};
use krust_operator::table::Table;

fn plan() -> ActionPlan {
    plan_or_empty(None, "goal", 7)
}

fn executed() -> StageEvent {
    StageEvent::Executed { actions_taken: vec!["restart".to_string()] }
}

fn judged(approved: bool, reason: &str) -> StageEvent {
    StageEvent::Simulated(SimulatorResult { approved, reason: reason.to_string() })
}

fn succeeded(pipeline: &Pipeline) -> Vec<String> {
    match pipeline.outcome() {
        Some(PipelineResult::Success { actions_taken }) => actions_taken,
        _ => panic!("no success"),
    }
}

#[test]
fn low_risk_is_executed_at_once() {
    let mut p = Pipeline::new(RiskLevel::Low);
    assert_eq!(p.stage, Stage::Executing);
    assert!(p.outcome().is_none());
    p.advance(executed());
    assert_eq!(p.stage, Stage::Succeeded);
    assert_eq!(succeeded(&p), vec!["restart".to_string()]);
}

#[test]
fn medium_risk_is_planned() {
    let mut p = Pipeline::new(RiskLevel::Medium);
    assert_eq!(p.stage, Stage::Planning);
    p.advance(StageEvent::Planned(plan()));
    assert_eq!(p.stage, Stage::Executing);
    assert!(p.plan.is_some());
    p.advance(executed());
    assert_eq!(p.stage, Stage::Succeeded);
    assert_eq!(succeeded(&p).len(), 1);
}

#[test]
fn high_risk_needs_the_simulator() {
    let mut p = Pipeline::new(RiskLevel::High);
    p.advance(StageEvent::Planned(plan()));
    assert_eq!(p.stage, Stage::Simulating);
    p.advance(judged(false, "too risky"));
    assert_eq!(p.stage, Stage::Planning);
    assert_eq!(p.replan_feedback(), Some("too risky".to_string()));
    p.advance(StageEvent::Planned(plan()));
    p.advance(judged(true, "APPROVED"));
    assert_eq!(p.stage, Stage::Executing);
    assert!(p.approved);
    p.advance(executed());
    assert_eq!(p.stage, Stage::Verifying);
    assert!(p.outcome().is_none());
    p.advance(StageEvent::Verified);
    assert_eq!(succeeded(&p), vec!["restart".to_string()]);
}

#[test]
fn the_third_rejection_is_the_last() {
    let mut p = Pipeline::new(RiskLevel::High);
    assert_eq!(p.replan_feedback(), None);
    for reason in ["one", "two", "three"] {
        assert_eq!(p.stage, Stage::Planning);
        p.advance(StageEvent::Planned(plan()));
        p.advance(judged(false, reason));
    }
    match p.outcome() {
        Some(PipelineResult::SimulatorRejected { reason }) => assert_eq!(reason, "three"),
        _ => panic!("no rejection"),
    }
}

#[test]
fn the_simulator_approves_in_any_case() {
    assert!(judge(Some("Approved: fine".to_string())).approved);
    assert!(judge(Some(" \napproved".to_string())).approved);
    assert!(!judge(Some("REJECTED".to_string())).approved);
    assert!(!judge(Some("this is approved".to_string())).approved);
    let text = "REJECTED: step 2 deletes data and cannot be approved";
    let rejected = judge(Some(text.to_string()));
    assert!(!rejected.approved);
    assert_eq!(rejected.reason, text);
    let silent = judge(None);
    assert!(!silent.approved);
    assert_eq!(silent.reason, "No response");
    assert!(!judge(Some("ﬁne ß".to_string())).approved);
}

#[test]
fn plans_are_found_between_braces() {
    assert_eq!(find_plan_text("a {\"x\": {}} b"), Some("{\"x\": {}}".to_string()));
    assert_eq!(find_plan_text("no plan"), None);
    assert_eq!(find_plan_text("only { one"), None);
    assert_eq!(find_plan_text("{}"), Some("{}".to_string()));
    assert_eq!(find_plan_text("} {"), None);
    assert_eq!(find_plan_text("}{"), None);
    assert_eq!(find_plan_text("} x {"), None);
    let empty = plan();
    assert_eq!(empty.plan_id, "plan-7");
    assert_eq!(empty.goal, "goal");
    assert_eq!(empty.steps.len(), 0);
    assert_eq!(empty.rollback_on_failure, default_rollback());
    assert_eq!(default_rollback(), "stop_and_report");
}

#[test]
fn stages_are_told_what_they_need() {
    let m = planner_message("BODY", "STATE");
    assert!(m.starts_with("## Skill Knowledge\nBODY\n\n## Current State\nSTATE"));
    assert!(replanner_message("BODY", "STATE", "BAD").contains("BAD"));
    assert!(simulator_message("BODY", "STATE", "PLAN").contains("PLAN"));
    assert_eq!(stage_config("m", 30, Some(SHORT_RUN)).max_iterations, 10);
    assert_eq!(stage_config("m", 5, Some(SHORT_RUN)).max_iterations, 5);
    assert_eq!(stage_config("m", 30, None).max_iterations, 30);
}

#[test]
fn a_skill_may_have_its_own_prompts() {
    let mut prompts: Table<String> = Table::new();
    prompts.insert("planner", "own".to_string());
    let skill = LoadedSkill {
        config: SkillConfig {
            name: "s".to_string(),
            description: None,
            allowed_tools: None,
            monitors: vec![],
            actions: vec![],
            agents: Table::new(),
        },
        body: String::new(),
        skill_dir: "/s".to_string(),
        agent_prompts: prompts,
    };
    assert_eq!(prompt_of(&skill, "planner", "default"), "own");
    assert_eq!(prompt_of(&skill, "executor", "default"), "default");
}

#[test]
fn the_defaults_of_a_pipeline() {
    let c = PipelineConfig::with_model("m");
    assert_eq!(c.model, "m");
    assert_eq!(c.agent_timeout_secs, 300);
    assert_eq!(c.pipeline_timeout_secs, 600);
    assert_eq!(c.max_iterations, 50);
    assert_eq!(c.llm_call_timeout_secs, 60);
}

#[test]
fn the_verifier_reports_by_a_tool() {
    assert!(called_update_status(&vec!["update_status({})".to_string()]));
    assert!(!called_update_status(&vec!["get_state({})".to_string()]));
}
