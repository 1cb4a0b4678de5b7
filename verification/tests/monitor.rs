//! Monitors.
use krust_operator::json::Json;
use krust_operator::monitor::registry::{duration_fits, parse_duration, MonitorRegistry};
use krust_operator::monitor::runner::parse_monitor_output;
use krust_operator::skill::types::{LoadedSkill, MonitorDef, SkillConfig};
use krust_operator::table::Table;

fn test_skill() -> LoadedSkill {
    LoadedSkill {
        config: SkillConfig {
            name: "test".to_string(),
            description: None,
            allowed_tools: None,
            monitors: vec![MonitorDef {
                name: "health".to_string(),
                interval: "10s".to_string(),
                script: "scripts/monitors/health.sh".to_string(),
                parse: "exit-code".to_string(),
                trigger_when: "exit_code != 0".to_string(),
            }],
            actions: vec![],
            agents: Table::new(),
        },
        body: String::new(),
        skill_dir: "/skills/test".to_string(),
        agent_prompts: Table::new(),
    }
}

const SECOND: u64 = 1_000_000_000;

#[test]
fn test_register_and_due() {
    let mut registry = MonitorRegistry::new();
    registry.register("default", "my-app", &test_skill());
    let due = registry.due_monitors(0);
    assert_eq!(due.len(), 1);
    assert_eq!(due[0].monitor_def.name, "health");
}

#[test]
fn test_unregister() {
    let mut registry = MonitorRegistry::new();
    registry.register("default", "my-app", &test_skill());
    registry.unregister("default", "my-app");
    assert!(!registry.has_monitors("default", "my-app"));
}

#[test]
fn test_parse_duration_variants() {
    assert_eq!(parse_duration("10s"), Some(10));
    assert_eq!(parse_duration("5m"), Some(300));
    assert_eq!(parse_duration("30"), Some(30));
}

#[test]
fn durations_that_are_none() {
    for s in ["", "s", "m", "-1s", "1h", "1.5s", "10 s"] {
        assert_eq!(parse_duration(s), None, "{}", s);
    }
    assert_eq!(parse_duration(" 7s "), Some(7));
    assert!(duration_fits("5m"));
    assert!(!duration_fits("18446744073709551615m"));
}

#[test]
fn a_monitor_is_due_when_its_interval_is_over() {
    let mut registry = MonitorRegistry::new();
    registry.register("default", "my-app", &test_skill());
    let due = registry.take_due(5 * SECOND);
    assert_eq!(due.len(), 1);
    assert_eq!(due[0].monitor, "health");
    assert_eq!(due[0].namespace, "default");
    assert_eq!(due[0].name, "my-app");
    assert_eq!(due[0].parse, "exit-code");
    assert_eq!(registry.due_monitors(15 * SECOND - 1).len(), 0);
    assert_eq!(registry.due_monitors(15 * SECOND).len(), 1);
}

#[test]
fn the_state_holds_the_last_outputs() {
    let mut registry = MonitorRegistry::new();
    registry.register("default", "my-app", &test_skill());
    assert_eq!(registry.get_state("default", "my-app").entries().len(), 0);
    match registry.monitors_mut("default", "my-app") {
        Some(list) => list[0].last_output = Some(parse_monitor_output("exit-code", "", 3)),
        None => panic!("no monitors"),
    }
    let state = registry.get_state("default", "my-app");
    assert_eq!(state.get("health").and_then(|j| j.u64_at("exit_code")), Some(3));
    assert_eq!(registry.get_state("default", "other").entries().len(), 0);
}

#[test]
fn a_bad_interval_is_half_a_minute() {
    let mut skill = test_skill();
    skill.config.monitors[0].interval = "often".to_string();
    let mut registry = MonitorRegistry::new();
    registry.register("default", "my-app", &skill);
    assert_eq!(registry.due_monitors(0)[0].interval_secs, 30);
}

#[test]
fn test_parse_key_value() {
    let output = parse_monitor_output("key-value", "cluster_state=ok\nslots_ok=16384\n", 0);
    assert_eq!(output.str_at("cluster_state"), Some("ok"));
    assert_eq!(output.str_at("slots_ok"), Some("16384"));
}

#[test]
fn test_parse_exit_code() {
    let output = parse_monitor_output("exit-code", "some output", 0);
    assert_eq!(output.u64_at("exit_code"), Some(0));
}

#[test]
fn test_parse_exit_code_failure() {
    let output = parse_monitor_output("exit-code", "", 1);
    assert_eq!(output.u64_at("exit_code"), Some(1));
}

#[test]
fn test_parse_json() {
    let output = parse_monitor_output("json", r#"{"status":"ok","lag":0}"#, 0);
    assert_eq!(output.str_at("status"), Some("ok"));
    assert_eq!(output.u64_at("lag"), Some(0));
}

#[test]
fn test_parse_json_invalid() {
    let output = parse_monitor_output("json", "not json", 1);
    assert_eq!(output.u64_at("exit_code"), Some(1));
}

#[test]
fn outputs_are_read_as_their_form_says() {
    let kv = parse_monitor_output("key-value", " a = b=c \nnothing\nn=1\n", 0);
    assert_eq!(kv.to_text(), r#"{"a":"b=c","n":"1"}"#);
    let raw = parse_monitor_output("json", "not json", -1);
    assert_eq!(raw.i64_at("exit_code"), Some(-1));
    assert!(raw.to_text().contains("not json"));
    assert!(matches!(parse_monitor_output("other", "x", 2), Json::Object(_)));
}
