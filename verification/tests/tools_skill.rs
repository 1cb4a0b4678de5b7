//! The tools that run a skill's scripts and templates, and what they keep.
use krust_operator::crd::ResourcePhase;
use krust_operator::json::{Json, JsonObject};
use krust_operator::skill::types::{ActionDef, LoadedSkill, RiskLevel, SkillConfig};
use krust_operator::table::Table;
use krust_operator::tools::desired_state::{
    build_owner_ref, read_annotation, store_patch, ANNOTATION_KEY,
};
use krust_operator::tools::helm::{
    flatten_values, report_helm, report_helm_missing, HelmGetValues, HelmInstall, HelmShowValues,
    HelmStatus, HelmUpgrade,
};
use krust_operator::tools::runtime::{shell_escape, ApplyTemplate, RunAction};
use krust_operator::tools::state::{parse_phase, GetState, UpdateStatus};
use krust_operator::tools::template::render_template;
use std::sync::Arc;

fn read(s: &str) -> Json {
    match Json::parse(s) {
        Ok(j) => j,
        Err(e) => panic!("{}", e),
    }
}

fn rendered(template: &str, vars: &Table<String>) -> String {
    match render_template(template, vars) {
        Ok(t) => t,
        Err(e) => panic!("{}", e.message()),
    }
}

#[test]
fn test_simple_replacement() {
    let mut vars: Table<String> = Table::new();
    vars.insert("name", "my-app".to_string());
    vars.insert("replicas", "3".to_string());
    let result = rendered("name: ${name}\nreplicas: ${replicas}", &vars);
    assert_eq!(result, "name: my-app\nreplicas: 3");
}

#[test]
fn test_default_value() {
    let vars = Table::new();
    let result = rendered("port: ${port:6379}", &vars);
    assert_eq!(result, "port: 6379");
}

#[test]
fn test_missing_variable() {
    let vars = Table::new();
    let result = render_template("name: ${name}", &vars);
    assert!(result.is_err());
}

#[test]
fn test_mixed() {
    let mut vars = Table::new();
    vars.insert("name", "my-app".to_string());
    let result = rendered("${name}:${port:8080}", &vars);
    assert_eq!(result, "my-app:8080");
}

#[test]
fn test_no_placeholders() {
    let vars = Table::new();
    let result = rendered("plain text", &vars);
    assert_eq!(result, "plain text");
}

#[test]
fn test_multiple_defaults() {
    let vars = Table::new();
    let result = rendered("${host:localhost}:${port:5432}", &vars);
    assert_eq!(result, "localhost:5432");
}

#[test]
fn placeholders_end_at_the_first_brace() {
    let mut vars = Table::new();
    vars.insert("a", "$1${b}".to_string());
    assert_eq!(rendered("${a}} ${b:} $ {c} ${} x", &vars), "$1${b}}  $ {c} ${} x");
    match render_template("${x}${y:1}${z}", &vars) {
        Ok(t) => panic!("{}", t),
        Err(e) => assert_eq!(e.message(), "Missing template variables: [\"x\", \"z\"]"),
    }
}

fn skill() -> Arc<LoadedSkill> {
    Arc::new(LoadedSkill {
        config: SkillConfig {
            name: "s".to_string(),
            description: None,
            allowed_tools: None,
            monitors: vec![],
            actions: vec![ActionDef {
                name: "restart".to_string(),
                risk: RiskLevel::Low,
                description: None,
                script: "restart.sh".to_string(),
                params: vec!["mode".to_string()],
            }],
            agents: Table::new(),
        },
        body: String::new(),
        skill_dir: "/s".to_string(),
        agent_prompts: Table::new(),
    })
}

#[test]
fn words_are_escaped_for_the_shell() {
    assert_eq!(shell_escape("it's"), "'it'\\''s'");
    assert_eq!(shell_escape("a-b/c.d:e@f,g_h"), "a-b/c.d:e@f,g_h");
    assert_eq!(shell_escape(""), "");
    assert_eq!(shell_escape("$(x) `y`"), "'$(x) `y`'");
}

#[test]
fn actions_are_found_and_checked() {
    let tool = RunAction::new(skill(), "ns", "db", vec!["FLUSHALL".to_string()]);
    match tool.plan(&read(r#"{"name": "restart", "pod_name": "db-0"}"#)) {
        Ok(q) => {
            assert_eq!(q.action_name, "restart");
            assert_eq!(q.pod_name, "db-0");
            assert!(q.script_path.ends_with("restart.sh"));
        }
        Err(e) => panic!("{}", e.output),
    }
    assert!(tool.plan(&read(r#"{"name": "nothing", "pod_name": "db-0"}"#)).is_err());
    assert!(tool.plan(&read("{}")).is_err());
    let command = tool.command(&read(r#"{"args": {"mode": "it's"}}"#), "echo hi");
    assert!(command.last().unwrap().contains("echo hi"));
    let ok = RunAction::report(0, "out", "", 5);
    assert!(ok.success);
    assert!(!RunAction::report(2, "", "bad", 5).success);
}

#[test]
fn templates_become_manifests() {
    let tool = ApplyTemplate::new(skill(), "ns", "db", "img:1");
    let args = read(r#"{"template": "svc.yaml", "vars": {"port": 6379, "on": true}}"#);
    match tool.template_path(&args) {
        Ok(p) => assert!(p.starts_with("/s/") && p.ends_with("svc.yaml")),
        Err(e) => panic!("{}", e.output),
    }
    let manifest = match tool.manifest(&args, "port: ${port}\non: ${on}\nns: ${namespace:x}\n") {
        Ok(m) => m,
        Err(e) => panic!("{}", e.output),
    };
    assert_eq!(manifest.u64_at("port"), Some(6379));
    assert_eq!(manifest.bool_at("on"), Some(true));
    match tool.manifest(&args, "a: ${missing}") {
        Ok(_) => panic!("rendered"),
        Err(e) => assert_eq!(
            e.output,
            "template render error: Missing template variables: [\"missing\"]"
        ),
    }
    match tool.manifest(&args, "a: [") {
        Ok(_) => panic!("read"),
        Err(e) => assert!(e.output.starts_with("YAML parse error: ")),
    }
    assert!(tool.template_path(&read("{}")).is_err());
}

#[test]
fn stored_templates_are_read_back() {
    let patch = store_patch(Some(r#"{"old": "o"}"#), "new", "a: \"1\"\n");
    let annotation = match patch.get_in("metadata", "annotations") {
        Some(a) => a.str_at(ANNOTATION_KEY).unwrap().to_string(),
        None => panic!("no annotation"),
    };
    let read_back = read_annotation(Some(&annotation));
    assert_eq!(read_back.get("old").and_then(|j| j.as_str()), Some("o"));
    assert_eq!(read_back.get("new").and_then(|j| j.as_str()), Some("a: \"1\"\n"));
    assert_eq!(read_annotation(None).entries().len(), 0);
    assert_eq!(read_annotation(Some("{")).entries().len(), 0);
    assert_eq!(read_annotation(Some(r#"{"a": 1}"#)).entries().len(), 0);
    assert_eq!(
        build_owner_ref("n", "u").to_text(),
        r#"{"apiVersion":"krust.io/v1","blockOwnerDeletion":true,"controller":true,"kind":"AIResource","name":"n","uid":"u"}"#
    );
}

#[test]
fn states_and_statuses() {
    let tool = GetState::new("ns", "db", "s", "g", "i");
    assert!(tool.label_selector().contains("db"));
    let snapshot = tool.snapshot(&vec![], &vec![], JsonObject::new(), "now");
    assert_eq!(snapshot.resource.goal, "g");
    assert_eq!(snapshot.resource.skill, "s");
    let status = UpdateStatus::new("ns", "db");
    match status.plan(&read(r#"{"phase": "Running", "message": "fine"}"#), "now") {
        Ok(u) => {
            assert_eq!(u.phase, "Running");
            assert!(u.patch.to_text().contains("fine"));
        }
        Err(e) => panic!("{}", e.output),
    }
    assert!(status.plan(&read(r#"{"phase": "Unheard"}"#), "now").is_err());
    assert!(status.plan(&read("{}"), "now").is_err());
    assert_eq!(parse_phase("Healing"), Some(ResourcePhase::Healing));
    assert_eq!(parse_phase("healing!"), None);
}

#[test]
fn helm_is_called_with_its_arguments() {
    let args = read(
        r#"{"release_name": "r", "chart": "c", "values": {"a": {"b": 1}, "l": ["x", true]}}"#,
    );
    let install = match HelmInstall::new("ns").plan(&args) {
        Ok(a) => a,
        Err(e) => panic!("{}", e.output),
    };
    assert_eq!(install[0], "install");
    assert!(install.contains(&"a.b=1".to_string()));
    let upgrade = match HelmUpgrade::new("ns").plan(&args) {
        Ok(a) => a,
        Err(e) => panic!("{}", e.output),
    };
    assert_eq!(upgrade[0], "upgrade");
    assert!(HelmInstall::new("ns").plan(&read(r#"{"chart": "c"}"#)).is_err());
    assert!(HelmUpgrade::new("ns").plan(&read(r#"{"release_name": "r"}"#)).is_err());
    let status = HelmStatus::new("ns").plan(&args);
    assert!(matches!(&status, Ok(a) if a[0] == "status" && a[1] == "r"));
    assert!(HelmGetValues::new("ns").plan(&args).is_ok());
    assert!(HelmShowValues::new().plan(&args).is_ok());
    assert!(HelmShowValues::new().plan(&read("{}")).is_err());
    let mut out: Vec<(String, String)> = Vec::new();
    flatten_values("", &read(r#"{"a": {"b": 1.5}, "n": null}"#), &mut out);
    assert!(out.contains(&("a.b".to_string(), "1.5".to_string())));
    assert!(report_helm(true, "out", "").success);
    assert!(!report_helm(false, "", "err").success);
    assert!(!report_helm_missing("gone").success);
}
