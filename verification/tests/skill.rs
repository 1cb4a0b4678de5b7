//! Skills: files, front matter and triggers.
use krust_operator::json::Json;
use krust_operator::skill::loader::{
    prompt_path_of, script_path_of, split_skill_md, validate_skill_files, FrontmatterError,
    MissingFile,
};
use krust_operator::skill::trigger::{
    evaluate_trigger, numeric_pairs, validate_trigger_syntax, NumericFacts, NumericRow, TriggerError,
};
use krust_operator::skill::types::{
    default_parse, ActionDef, AgentDef, MonitorDef, RiskLevel, SkillConfig,
};
use krust_operator::table::Table;

fn read(s: &str) -> Json {
    match Json::parse(s) {
        Ok(j) => j,
        Err(e) => panic!("{}", e),
    }
}

fn fires(expression: &str, data: &Json) -> bool {
    let mut rows: Vec<NumericRow> = Vec::new();
    for (left, right) in numeric_pairs(expression, data) {
        if let (Ok(l), Ok(r)) = (left.parse::<f64>(), right.parse::<f64>()) {
            let gap = (l - r).abs();
            rows.push(NumericRow {
                left,
                right,
                facts: NumericFacts {
                    close: gap < f64::EPSILON,
                    apart: gap >= f64::EPSILON,
                    less: l < r,
                    greater: l > r,
                    at_most: l <= r,
                    at_least: l >= r,
                },
            });
        }
    }
    evaluate_trigger(expression, data, &rows)
}

#[test]
fn test_simple_not_equal() {
    let data = read(r#"{"cluster_state": "fail"}"#);
    assert!(fires("cluster_state != ok", &data));
}

#[test]
fn test_simple_equal_no_trigger() {
    let data = read(r#"{"cluster_state": "ok"}"#);
    assert!(!fires("cluster_state != ok", &data));
}

#[test]
fn test_exit_code() {
    let data = read(r#"{"exit_code": 1}"#);
    assert!(fires("exit_code != 0", &data));
}

#[test]
fn test_exit_code_zero_no_trigger() {
    let data = read(r#"{"exit_code": 0}"#);
    assert!(!fires("exit_code != 0", &data));
}

#[test]
fn test_numeric_comparison() {
    let data = read(r#"{"replication_lag": 1500, "replica_count": 1}"#);
    assert!(fires("replication_lag > 1000 AND replica_count < 2", &data));
}

#[test]
fn test_numeric_comparison_no_trigger() {
    let data = read(r#"{"replication_lag": 500, "replica_count": 1}"#);
    assert!(!fires("replication_lag > 1000 AND replica_count < 2", &data));
}

#[test]
fn test_missing_key_fires() {
    let data = read("{}");
    assert!(fires("nonexistent_key != ok", &data));
}

#[test]
fn test_validate_syntax_valid() {
    assert!(validate_trigger_syntax("exit_code != 0").is_ok());
    assert!(validate_trigger_syntax("cluster_state == ok OR exit_code > 5").is_ok());
    assert!(validate_trigger_syntax("lag > 1000 AND replicas < 2").is_ok());
}

#[test]
fn test_validate_syntax_invalid() {
    assert!(validate_trigger_syntax("just_a_key").is_err());
    assert!(validate_trigger_syntax("key !=").is_err());
    assert!(validate_trigger_syntax("!= value").is_err());
}

#[test]
fn each_fault_of_a_trigger_is_named() {
    let fault = |e: &str| match validate_trigger_syntax(e) {
        Ok(()) => panic!("valid"),
        Err(f) => f,
    };
    assert!(matches!(fault("just_a_key"), TriggerError::NoOperator(_)));
    assert!(matches!(fault("key !="), TriggerError::EmptyRight(_)));
    assert!(matches!(fault("a == 1 AND != value"), TriggerError::EmptyLeft(_)));
    assert_eq!(
        fault("a == 1 OR just_a_\"key").message(),
        "No comparison operator found in: \"just_a_\\\"key\""
    );
    assert_eq!(fault("key !=").message(), "Empty right-hand side in: \"key !=\"");
    assert_eq!(fault("!= value").message(), "Empty left-hand side in: \"!= value\"");
}

#[test]
fn alternatives_and_conjunctions_are_told_apart() {
    let data = read(r#"{"a": 1, "b": 2}"#);
    assert!(fires("a == 2 OR b == 2", &data));
    assert!(!fires("a == 2 AND b == 2", &data));
    assert!(fires("a == 2 AND b == 2 OR a == 1", &data));
    assert!(!fires("a == 3 OR b == 3 AND a == 1", &data));
}

#[test]
fn quoted_texts_are_not_split() {
    let data = read(r#"{"a": "\"x OR y\"", "b": 1}"#);
    assert!(fires("a == \"x OR y\"", &data));
    assert!(!fires("a == \"x OR z\"", &data));
    assert!(fires("a == \"x AND z\" OR b == 1", &data));
    assert!(validate_trigger_syntax("a == \"x OR y\"").is_ok());
}

#[test]
fn only_closed_quotes_hide_a_joint() {
    let data = read(r#"{"msg": "'x OR y'", "a": 5, "b": 2}"#);
    assert!(fires("msg == 'x OR y'", &data));
    assert!(validate_trigger_syntax("msg == 'x OR y'").is_ok());
    assert!(validate_trigger_syntax("msg == 'x OR y' AND a == 5").is_ok());
    assert!(matches!(
        validate_trigger_syntax("a == 5\" OR b"),
        Err(TriggerError::NoOperator(e)) if e == "b"
    ));
    assert!(matches!(
        validate_trigger_syntax("a == it's OR b"),
        Err(TriggerError::NoOperator(e)) if e == "b"
    ));
    assert!(validate_trigger_syntax("a == \"it's\" AND b == 'say \"no AND yes\"'").is_ok());
    assert!(fires("a == 4\" OR b == 2", &data));
}

#[test]
fn joined_expressions_follow_their_parts() {
    let data = read(r#"{"a": 1, "b": 0, "c": 0}"#);
    for p in ["a == 1", " b == 1 ", "c == 1"] {
        for q in ["a == 1", "b == 1", " c == 1"] {
            assert_eq!(
                fires(&format!("{} OR {}", p, q), &data),
                fires(p, &data) || fires(q, &data)
            );
            assert_eq!(
                fires(&format!("{} AND {}", p, q), &data),
                fires(p, &data) && fires(q, &data)
            );
        }
    }
    let quoted = read(r#"{"m": "'x OR y'", "n": "\"1 AND 2\""}"#);
    for p in ["m == 'x OR y'", "n == \"1 AND 2\"", "m == 'x'"] {
        for q in ["n == \"1 AND 2\"", "m == 'x OR y'", "n == \"it's\""] {
            assert_eq!(
                fires(&format!("{} OR {}", p, q), &quoted),
                fires(p, &quoted) || fires(q, &quoted)
            );
            assert_eq!(
                fires(&format!("{} AND {}", p, q), &quoted),
                fires(p, &quoted) && fires(q, &quoted)
            );
        }
    }
    assert!(fires("a == 1 OR b == 1 AND c == 1", &data));
    assert!(!fires("b == 1 OR a == 1 AND c == 1", &data));
}

#[test]
fn comparisons_follow_their_operators() {
    let data = read(r#"{"n": 10, "s": "x", "f": 2.5}"#);
    assert!(fires("n <= 10", &data));
    assert!(fires("n >= 10", &data));
    assert!(!fires("n < 10", &data));
    assert!(!fires("n > 10", &data));
    assert!(fires("n == 10.0", &data));
    assert!(fires("f > 2", &data));
    assert!(fires("s == x", &data));
    assert!(!fires("s == y", &data));
}

#[test]
fn a_faulty_trigger_fires() {
    let data = read(r#"{"a": 1}"#);
    assert!(fires("nonsense", &data));
    assert!(fires("a == 1", &data));
}

#[test]
fn a_valid_trigger_is_decided_by_its_values() {
    let expression = "lag > 1000 AND replicas < 2";
    assert!(validate_trigger_syntax(expression).is_ok());
    assert!(!fires(expression, &read(r#"{"lag": 10, "replicas": 1}"#)));
    assert!(fires(expression, &read(r#"{"lag": 1001, "replicas": 1}"#)));
    assert!(fires(expression, &read(r#"{"lag": 1001}"#)));
}

const SKILL: &str = r#"---
name: my-skill
description: Does things
monitors:
  - name: ping
    interval: 10s
    script: ping.sh
    trigger_when: "exit_code != 0"
---
# Body here
"#;

#[test]
fn test_parse_frontmatter() {
    let (matter, body) = split_skill_md(SKILL).expect("should parse");
    let config = match Json::parse_yaml(&matter) {
        Ok(j) => j,
        Err(e) => panic!("{}", e),
    };
    assert_eq!(config.str_at("name"), Some("my-skill"));
    assert_eq!(config.str_at("description"), Some("Does things"));
    let monitors = config.array_at("monitors").expect("should parse");
    assert_eq!(monitors.len(), 1);
    let parse = match monitors[0].str_at("parse") {
        Some(p) => p.to_string(),
        None => default_parse(),
    };
    assert_eq!(parse, "exit-code");
    assert!(body.contains("Body here"));
}

#[test]
fn front_matter_is_split_at_its_fences() {
    assert_eq!(
        split_skill_md("\n ---\n\na: 1\n---\n\nbody\n"),
        Ok(("a: 1".to_string(), "body\n".to_string()))
    );
    assert_eq!(split_skill_md("---\na: 1\n---"), Ok(("a: 1".to_string(), "".to_string())));
    assert_eq!(split_skill_md("a: 1"), Err(FrontmatterError::Missing));
    assert_eq!(split_skill_md("---\na: 1"), Err(FrontmatterError::Unclosed));
    assert_eq!(split_skill_md("---name: x\n---\nbody"), Err(FrontmatterError::Missing));
    assert_eq!(split_skill_md("---\nname: x\n---body"), Err(FrontmatterError::Unclosed));
    assert_eq!(split_skill_md("---\nname: x\n----\n"), Err(FrontmatterError::Unclosed));
    assert_eq!(
        split_skill_md("--- \na: 1\n---\t\nbody"),
        Ok((" \na: 1".to_string(), "\t\nbody".to_string()))
    );
    assert_eq!(split_skill_md("---"), Err(FrontmatterError::Unclosed));
    assert_eq!(
        split_skill_md("---\nv: |\n---x\n---\nbody"),
        Ok(("v: |\n---x".to_string(), "body".to_string()))
    );
    assert_eq!(
        split_skill_md("---\r\na: 1\r\n---\r\nbody"),
        Ok(("\r\na: 1\r".to_string(), "\r\nbody".to_string()))
    );
    assert_eq!(
        FrontmatterError::Missing.message(),
        "SKILL.md missing YAML frontmatter (expected leading '---')"
    );
    assert_eq!(
        FrontmatterError::Unclosed.message(),
        "SKILL.md frontmatter is not closed with '---'"
    );
}

fn config() -> SkillConfig {
    let mut agents: Table<AgentDef> = Table::new();
    agents.insert("responder", AgentDef { system_prompt_file: "responder.md".to_string() });
    SkillConfig {
        name: "test-skill".to_string(),
        description: None,
        allowed_tools: None,
        monitors: vec![MonitorDef {
            name: "check-health".to_string(),
            interval: "30s".to_string(),
            script: "health.sh".to_string(),
            parse: default_parse(),
            trigger_when: "exit_code != 0".to_string(),
        }],
        actions: vec![ActionDef {
            name: "restart".to_string(),
            risk: RiskLevel::Low,
            description: None,
            script: "restart.sh".to_string(),
            params: vec![],
        }],
        agents,
    }
}

#[test]
fn a_skill_needs_its_files() {
    let health = "/s/scripts/health.sh".to_string();
    let restart = "/s/scripts/restart.sh".to_string();
    let prompt = "/s/prompts/responder.md".to_string();
    assert_eq!(script_path_of("/s", "health.sh"), health);
    assert_eq!(prompt_path_of("/s", "responder.md"), prompt);
    let all = vec![health.clone(), restart.clone(), prompt.clone()];
    assert!(validate_skill_files("/s", &config(), &all).is_ok());

    let missing = |files: Vec<String>| match validate_skill_files("/s", &config(), &files) {
        Ok(()) => panic!("complete"),
        Err(m) => m,
    };
    let m = missing(vec![restart.clone(), prompt.clone()]);
    assert!(matches!(m, MissingFile::Monitor { .. }));
    assert_eq!(
        m.message(),
        "Monitor 'check-health' references missing script: \"/s/scripts/health.sh\""
    );
    let m = missing(vec![health.clone(), prompt.clone()]);
    assert_eq!(
        m.message(),
        "Action 'restart' references missing script: \"/s/scripts/restart.sh\""
    );
    let m = missing(vec![health, restart]);
    assert_eq!(
        m.message(),
        "Agent 'responder' references missing prompt file: \"/s/prompts/responder.md\""
    );
}

#[test]
fn risks_are_ranked() {
    assert!(RiskLevel::Low.rank() < RiskLevel::Medium.rank());
    assert!(RiskLevel::Medium.rank() < RiskLevel::High.rank());
    assert_eq!(RiskLevel::High.as_str(), "high");
}
