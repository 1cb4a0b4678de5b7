//! The agent's loop and its history.
use krust_operator::agent::agent::{
    build_compaction_transcript, is_showable, parse_arguments, plan_compaction, plan_turn,
    truncate_str, AgentRunResult, AgentStep, AutonomousAgent, CallAction,
};
use krust_operator::agent::types::{
    AgentConfig, ChatMessage, ChatResponse, ContentPart, MessageContent, ToolCall, ToolSpec,
};
use krust_operator::agent::worker::{
    determine_risk, judge_result, AgentInstance, EventDecision, PipelineOutcome,
};
use krust_operator::crd::ResourcePhase;
use krust_operator::json::{Json, JsonNumber, JsonObject};
use krust_operator::pipeline::PipelineResult;
use krust_operator::skill::types::{ActionDef, RiskLevel};
use krust_operator::types::{K8sState, ResourceEvent, ResourceInfo, StateSnapshot, TriggerInfo};

fn mock_tools() -> Vec<ToolSpec> {
    vec![ToolSpec {
        name: "mock_tool".to_string(),
        description: "A mock tool for testing".to_string(),
        parameters: Json::object(JsonObject::new()),
    }]
}

fn config(max_iterations: u32) -> AgentConfig {
    AgentConfig {
        model: "m".to_string(),
        max_iterations,
        temperature: JsonNumber::Unsigned(0),
    }
}

fn call(id: &str, name: &str, arguments: &str) -> ToolCall {
    ToolCall { id: id.to_string(), name: name.to_string(), arguments: arguments.to_string() }
}

fn reply(text: Option<&str>, tool_calls: Vec<ToolCall>, input: u32, output: u32) -> ChatResponse {
    ChatResponse {
        text: text.map(|t| t.to_string()),
        tool_calls,
        input_tokens: input,
        output_tokens: output,
    }
}

/// Drives a run: `replies` answers each request, and every tool reports `result`.
fn drive(
    agent: &mut AutonomousAgent,
    message: &str,
    mut replies: impl FnMut(usize) -> ChatResponse,
    result: impl Fn(usize) -> String,
) -> AgentRunResult {
    agent.start(message);
    let mut turn = 0;
    loop {
        match agent.next_step() {
            AgentStep::Finish => return agent.outcome(),
            AgentStep::Compact { end } => {
                assert!(agent.can_transcribe(end));
                let transcript = agent.transcript(end);
                agent.record_summary(end, &transcript);
            }
            AgentStep::Chat => {
                agent.record_reply(replies(turn));
                if agent.calls.is_empty() {
                    continue;
                }
                let outputs = agent
                    .plan()
                    .iter()
                    .map(|a| match a {
                        CallAction::Execute(_) => Some(result(turn)),
                        _ => None,
                    })
                    .collect();
                agent.record_results(outputs);
                turn += 1;
            }
        }
    }
}

#[test]
fn test_agent_runs_tool_and_completes() {
    let mut agent = AutonomousAgent::new(mock_tools(), config(10));
    let result = drive(
        &mut agent,
        "Do something",
        |turn| {
            if turn == 0 {
                reply(Some("I will call a tool"), vec![call("tool_1", "mock_tool", "{}")], 10, 5)
            } else {
                reply(Some("All done"), vec![], 8, 4)
            }
        },
        |_| "mock result".to_string(),
    );
    assert_eq!(result.actions_taken.len(), 1);
    assert!(result.actions_taken[0].contains("mock_tool"));
    assert_eq!(result.text, Some("All done".to_string()));
    assert_eq!(result.total_input_tokens, 18);
    assert_eq!(result.total_output_tokens, 9);
}

#[test]
fn test_agent_respects_max_iterations() {
    let mut agent = AutonomousAgent::new(mock_tools(), config(3));
    let result = drive(
        &mut agent,
        "Loop forever",
        |_| reply(None, vec![call("tool_loop", "mock_tool", "{}")], 1, 1),
        |_| "mock result".to_string(),
    );
    assert_eq!(result.actions_taken.len(), 3);
    assert_eq!(result.text, None);
}

#[test]
fn identical_outputs_end_a_run() {
    let mut agent = AutonomousAgent::new(mock_tools(), config(50));
    let result = drive(
        &mut agent,
        "Loop",
        |_| reply(None, vec![call("x", "mock_tool", "{}")], 1, 1),
        |_| "same".to_string(),
    );
    assert_eq!(result.actions_taken.len(), 4);
    assert!(result.text.unwrap().contains("stuck in a loop"));
}

#[test]
fn a_long_history_is_compacted_and_keeps_the_goal() {
    let mut agent = AutonomousAgent::new(mock_tools(), config(60));
    let result = drive(
        &mut agent,
        "The goal",
        |_| reply(None, vec![call("x", "mock_tool", "{}")], 1, 1),
        |turn| format!("output {}", turn),
    );
    assert_eq!(result.actions_taken.len(), 60);
    assert!(agent.history.len() <= 43);
    match &agent.history[0].content {
        MessageContent::Text(t) => assert_eq!(t, "The goal"),
        _ => panic!("no text"),
    }
}

#[test]
fn a_call_is_run_once_and_every_call_is_answered() {
    let calls = vec![
        call("1", "mock_tool", "{\"a\":1}"),
        call("2", "mock_tool", "{\"a\":1}"),
        call("3", "other", "{}"),
        call("4", "mock_tool", "{\"a\":2}"),
    ];
    let actions = plan_turn(&calls, &mock_tools());
    assert_eq!(actions.len(), 4);
    assert!(matches!(&actions[0], CallAction::Execute(j) if j.u64_at("a") == Some(1)));
    assert!(matches!(actions[1], CallAction::Duplicate));
    assert!(matches!(actions[2], CallAction::NotFound));
    assert!(matches!(&actions[3], CallAction::Execute(_)));

    let mut agent = AutonomousAgent::new(mock_tools(), config(5));
    agent.start("go");
    agent.record_reply(reply(None, calls, 1, 1));
    agent.record_results(vec![Some("one".to_string()), None, None, Some("two".to_string())]);
    let parts = match &agent.history[2].content {
        MessageContent::Parts(parts) => parts,
        _ => panic!("no parts"),
    };
    let ids: Vec<&str> = parts
        .iter()
        .map(|p| match p {
            ContentPart::ToolResult { tool_use_id, .. } => tool_use_id.as_str(),
            _ => panic!("no result"),
        })
        .collect();
    assert_eq!(ids, vec!["1", "2", "3", "4"]);
}

#[test]
fn arguments_that_are_no_json_are_empty() {
    assert_eq!(parse_arguments("{\"a\": 1}").u64_at("a"), Some(1));
    assert_eq!(parse_arguments("oops").to_text(), "{}");
}

#[test]
fn long_texts_are_cut() {
    assert_eq!(truncate_str("abc", 3), "abc");
    assert_eq!(truncate_str("äöüabc", 5), "äö...");
    assert_eq!(truncate_str("äöü", 2), "...");
}

#[test]
fn transcripts_show_who_said_what() {
    let messages = vec![
        ChatMessage {
            role: "user".to_string(),
            content: MessageContent::Text("hello".to_string()),
        },
        ChatMessage {
            role: "assistant".to_string(),
            content: MessageContent::Parts(vec![
                ContentPart::Text { text: "thinking".to_string() },
                ContentPart::ToolUse {
                    id: "1".to_string(),
                    name: "mock_tool".to_string(),
                    input: Json::object(JsonObject::new()),
                },
            ]),
        },
    ];
    assert!(is_showable(&messages));
    let shown = build_compaction_transcript(&messages);
    assert!(shown.contains("hello"));
    assert!(shown.contains("thinking"));
    assert!(shown.contains("mock_tool"));
    assert!(plan_compaction(&messages).is_none());
}

fn snapshot() -> StateSnapshot {
    StateSnapshot {
        resource: ResourceInfo {
            name: "n".to_string(),
            namespace: "ns".to_string(),
            skill: "s".to_string(),
            goal: "g".to_string(),
            image: "i".to_string(),
        },
        monitors: JsonObject::new(),
        k8s: K8sState { pods: vec![], statefulsets: vec![] },
        trigger: TriggerInfo {
            source: "t".to_string(),
            reason: "r".to_string(),
            timestamp: "now".to_string(),
        },
    }
}

fn action(risk: RiskLevel) -> ActionDef {
    ActionDef {
        name: "a".to_string(),
        risk,
        description: None,
        script: "a.sh".to_string(),
        params: vec![],
    }
}

#[test]
fn risk_follows_the_event() {
    let actions = vec![action(RiskLevel::Low), action(RiskLevel::High)];
    let of = |e: ResourceEvent| determine_risk(&e, &actions);
    assert_eq!(of(ResourceEvent::MonitorTrigger(snapshot())), RiskLevel::High);
    assert_eq!(
        determine_risk(&ResourceEvent::MonitorTrigger(snapshot()), &vec![action(RiskLevel::Low)]),
        RiskLevel::Low
    );
}

#[test]
fn three_failures_stop_a_worker_until_its_reset() {
    let mut worker = AgentInstance::new("n".to_string(), "ns".to_string());
    let low = vec![action(RiskLevel::Low)];
    for _ in 0..3 {
        assert!(matches!(
            worker.decide(ResourceEvent::MonitorTrigger(snapshot()), &low),
            EventDecision::Run { .. }
        ));
        assert_eq!(worker.phase(), None);
        worker.record_outcome(PipelineOutcome::Failed);
    }
    assert_eq!(worker.phase(), Some(ResourcePhase::Failed));
    assert!(matches!(
        worker.decide(ResourceEvent::MonitorTrigger(snapshot()), &low),
        EventDecision::Skip
    ));
    assert!(matches!(worker.decide(ResourceEvent::Shutdown, &low), EventDecision::Stop));
    worker.circuit_breaker.manual_reset();
    assert!(matches!(
        worker.decide(ResourceEvent::MonitorTrigger(snapshot()), &low),
        EventDecision::Run { .. }
    ));
}

#[test]
fn results_are_judged_for_the_breaker() {
    let text = || "x".to_string();
    let done = PipelineResult::Success { actions_taken: vec![] };
    assert_eq!(judge_result(&Ok(done)), PipelineOutcome::Success);
    let rejected = PipelineResult::SimulatorRejected { reason: text() };
    assert_eq!(judge_result(&Ok(rejected)), PipelineOutcome::Rejected);
    assert_eq!(judge_result(&Ok(PipelineResult::Timeout)), PipelineOutcome::Timeout);
    let failed = PipelineResult::Failed { reason: text(), partial_actions: vec![] };
    assert_eq!(judge_result(&Ok(failed)), PipelineOutcome::Failed);
    assert_eq!(judge_result(&Err(text())), PipelineOutcome::Error);
}
