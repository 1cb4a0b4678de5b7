//! Which tools an agent gets.
use krust_operator::agent::tool::{Tool, ToolSafety};
use krust_operator::crd::GuardrailSpec;
use krust_operator::skill::types::{LoadedSkill, SkillConfig};
use krust_operator::table::Table;
use krust_operator::tools::{register_tools_for_role, AnyTool, ToolKind, ToolSetup};
use std::sync::Arc;

fn setup(allowed: Option<&str>) -> ToolSetup {
    ToolSetup {
        skill: Arc::new(LoadedSkill {
            config: SkillConfig {
                name: "s".to_string(),
                description: None,
                allowed_tools: allowed.map(|a| a.to_string()),
                monitors: vec![],
                actions: vec![],
                agents: Table::new(),
            },
            body: String::new(),
            skill_dir: "/s".to_string(),
            agent_prompts: Table::new(),
        }),
        resource_name: "db".to_string(),
        resource_namespace: "ns".to_string(),
        image: "i".to_string(),
        goal: "g".to_string(),
        guardrails: Some(GuardrailSpec {
            max_replicas: Some(2),
            max_memory: None,
            denied_commands: vec!["rm".to_string()],
        }),
    }
}

fn names(tools: &Vec<AnyTool>) -> Vec<String> {
    tools.iter().map(|t| t.name().to_string()).collect()
}

#[test]
fn each_role_has_its_tools() {
    let s = setup(None);
    let planner = register_tools_for_role("planner", &s);
    assert_eq!(planner.len(), 7);
    assert_eq!(register_tools_for_role("simulator", &s).len(), 7);
    assert_eq!(register_tools_for_role("executor", &s).len(), 17);
    assert_eq!(register_tools_for_role("verifier", &s).len(), 8);
    assert_eq!(register_tools_for_role("stranger", &s).len(), 0);
    assert_eq!(
        names(&planner),
        vec![
            "get_state",
            "get_events",
            "kubectl_describe",
            "kubectl_get",
            "helm_status",
            "helm_get_values",
            "helm_show_values"
        ]
    );
}

#[test]
fn planning_changes_nothing() {
    for role in ["planner", "simulator"] {
        for tool in register_tools_for_role(role, &setup(None)) {
            assert_eq!(tool.safety(), ToolSafety::ReadOnly);
        }
    }
}

#[test]
fn a_skill_narrows_the_tools_down() {
    let tools = register_tools_for_role("executor", &setup(Some("kubectl_exec, get_state ,nothing")));
    assert_eq!(names(&tools), vec!["get_state", "kubectl_exec"]);
    assert_eq!(tools[1].kind(), ToolKind::KubectlExec);
    match &tools[1] {
        AnyTool::KubectlExec(t) => {
            assert_eq!(t.namespace, "ns");
            assert_eq!(t.denied_commands, vec!["rm".to_string()]);
        }
        _ => panic!("another tool"),
    }
    assert_eq!(register_tools_for_role("executor", &setup(Some(""))).len(), 0);
}

#[test]
fn every_tool_tells_of_itself() {
    for tool in register_tools_for_role("executor", &setup(None)) {
        let spec = tool.spec();
        assert_eq!(spec.name, tool.kind().name());
        assert!(!spec.description.is_empty());
        assert_eq!(spec.parameters.str_at("type"), Some("object"));
    }
}
