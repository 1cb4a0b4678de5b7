//! The tools that read and change the cluster.
use krust_operator::agent::tool::{describe, ToolSafety};
use krust_operator::controller::PodFacts;
use krust_operator::crd::GuardrailSpec;
use krust_operator::json::{Json, JsonObject};
use krust_operator::tools::k8s::{
    always_blocked_commands, does_memory_fit, jsonpath_extract, parse_kind, parse_memory_to_bytes,
    plan_apply, validate_memory_guardrail, validate_patch_fields, validate_scale_guardrail,
    EventFacts, GetEvents, GetPodLogs, GetPodStatus, KubectlDescribe, KubectlExec, KubectlGet,
    KubectlPatch, KubectlScale, ResourceKind, WaitForReady,
};
use krust_operator::tools::schema::{make_arguments, make_prop};

fn read(s: &str) -> Json {
    match Json::parse(s) {
        Ok(j) => j,
        Err(e) => panic!("{}", e),
    }
}

struct MockReadTool;

impl MockReadTool {
    fn name(&self) -> &str {
        "mock_read"
    }

    fn description(&self) -> &str {
        "A mock read-only tool for testing"
    }

    fn parameters_schema(&self) -> Json {
        let mut props = JsonObject::new();
        props.put("path", make_prop("string", "The path to read"));
        make_arguments(props, vec!["path"])
    }
}

#[test]
fn test_tool_spec_generation() {
    let tool = MockReadTool;
    let spec = describe(tool.name(), tool.description(), tool.parameters_schema());

    assert_eq!(spec.name, "mock_read");
    assert_eq!(spec.description, "A mock read-only tool for testing");
    assert_eq!(spec.parameters.str_at("type"), Some("object"));
    assert!(matches!(spec.parameters.get_in("properties", "path"), Some(Json::Object(_))));
    assert_eq!(spec.parameters.array_at("required").unwrap()[0].as_str(), Some("path"));
}

#[test]
fn test_tool_safety_requires_validation() {
    assert!(!ToolSafety::ReadOnly.requires_validation());
    assert!(ToolSafety::Validated.requires_validation());
}

#[test]
fn test_parse_memory_gi() {
    assert_eq!(parse_memory_to_bytes("3Gi"), Some(3 * 1024 * 1024 * 1024));
    assert_eq!(parse_memory_to_bytes("512Mi"), Some(512 * 1024 * 1024));
    assert_eq!(parse_memory_to_bytes("1G"), Some(1_000_000_000));
    assert_eq!(parse_memory_to_bytes("1M"), Some(1_000_000));
    assert_eq!(parse_memory_to_bytes("1024"), Some(1024));
    assert_eq!(parse_memory_to_bytes("abc"), None);
}

#[test]
fn memory_that_cannot_be_counted() {
    assert!(does_memory_fit("3Gi"));
    assert!(!does_memory_fit("18446744073709551615Gi"));
    assert_eq!(parse_memory_to_bytes("Gi"), None);
    assert_eq!(parse_memory_to_bytes(""), None);
}

fn allowed(limit: &str, scale: f64) -> u64 {
    (parse_memory_to_bytes(limit).unwrap_or(0) as f64 * scale) as u64
}

#[test]
fn test_validate_memory_limit_within_guardrail() {
    let max = allowed("1Gi", 2.0);
    assert!(validate_memory_guardrail("1Gi", "1Gi", "2", max).is_ok());
    assert!(validate_memory_guardrail("2Gi", "1Gi", "2", max).is_ok());
}

#[test]
fn test_validate_memory_limit_exceeds_guardrail() {
    let result = validate_memory_guardrail("3Gi", "1Gi", "2", allowed("1Gi", 2.0));
    assert!(result.is_err());
    assert!(result.unwrap_err().contains("exceeds guardrail"));
}

#[test]
fn memory_limits_must_be_readable() {
    assert!(validate_memory_guardrail("x", "1Gi", "2", 0).is_err());
    assert!(validate_memory_guardrail("1Gi", "x", "2", 0).is_err());
}

#[test]
fn test_validate_scale_rejects_below_masters() {
    assert!(validate_scale_guardrail(3, 3).is_ok());
    assert!(validate_scale_guardrail(6, 3).is_ok());
    let result = validate_scale_guardrail(2, 3);
    assert!(result.is_err());
    assert!(result.unwrap_err().contains("below minimum masters"));
}

#[test]
fn test_jsonpath_extract() {
    let value = read(
        r#"{
            "spec": {
                "replicas": 3,
                "template": {"spec": {"containers": [{"name": "app", "image": "nginx"}]}}
            },
            "status": {"phase": "Running"}
        }"#,
    );
    assert_eq!(jsonpath_extract(&value, "spec.replicas").as_u64(), Some(3));
    assert_eq!(jsonpath_extract(&value, "status.phase").as_str(), Some("Running"));
    assert_eq!(
        jsonpath_extract(&value, "spec.template.spec.containers.0.name").as_str(),
        Some("app")
    );
    assert!(matches!(jsonpath_extract(&value, "nonexistent.path"), Json::Null));
}

#[test]
fn test_validate_patch_fields_blocks_owner_references() {
    let patch = read(r#"{"metadata": {"ownerReferences": [{"name": "hacked"}]}}"#);
    assert!(validate_patch_fields(&patch).is_err());
}

#[test]
fn test_validate_patch_fields_blocks_finalizers() {
    let patch = read(r#"{"metadata": {"finalizers": ["block-deletion"]}}"#);
    assert!(validate_patch_fields(&patch).is_err());
}

#[test]
fn test_validate_patch_fields_allows_spec() {
    let patch = read(r#"{"spec": {"replicas": 5}}"#);
    assert!(validate_patch_fields(&patch).is_ok());
}

#[test]
fn test_validate_patch_fields_allows_labels() {
    let patch = read(r#"{"metadata": {"labels": {"env": "prod"}}}"#);
    assert!(validate_patch_fields(&patch).is_ok());
}

#[test]
fn test_blocked_commands() {
    let cmd = "rm -rf / --no-preserve-root";
    assert!(always_blocked_commands().iter().any(|b| cmd.contains(b.as_str())));

    let safe_cmd = "pg_isready -h localhost";
    assert!(!always_blocked_commands().iter().any(|b| safe_cmd.contains(b.as_str())));
}

fn guardrails() -> Option<GuardrailSpec> {
    Some(GuardrailSpec { max_replicas: Some(5), max_memory: None, denied_commands: vec![] })
}

#[test]
fn scaling_stays_under_its_limit() {
    let tool = KubectlScale::new("ns", guardrails());
    let args = read(r#"{"kind": "statefulset", "name": "db", "replicas": 5}"#);
    match tool.plan(&args) {
        Ok(q) => {
            assert_eq!(q.kind, ResourceKind::StatefulSet);
            assert_eq!(q.replicas, 5);
            assert_eq!(q.patch.to_text(), r#"{"spec":{"replicas":5}}"#);
        }
        Err(e) => panic!("{}", e.output),
    }
    let more = read(r#"{"kind": "statefulset", "name": "db", "replicas": 6}"#);
    assert!(tool.plan(&more).is_err());
    for bad in [
        r#"{"name": "db", "replicas": 1}"#,
        r#"{"kind": "statefulset", "replicas": 1}"#,
        r#"{"kind": "statefulset", "name": "db", "replicas": 4294967297}"#,
        r#"{"kind": "statefulset", "name": "db"}"#,
        r#"{"kind": "pod", "name": "db", "replicas": 1}"#,
    ] {
        assert!(tool.plan(&read(bad)).is_err(), "{}", bad);
    }
    let free = KubectlScale::new("ns", None);
    assert!(free.plan(&more).is_ok());
}

#[test]
fn patches_are_checked() {
    let tool = KubectlPatch::new("ns", guardrails());
    let good = read(
        r#"{"kind": "deployment", "name": "d", "patch": {"spec": {"replicas": 5}}}"#,
    );
    match tool.plan(&good) {
        Ok(q) => assert_eq!(q.patch.to_text(), r#"{"spec":{"replicas":5}}"#),
        Err(e) => panic!("{}", e.output),
    }
    for bad in [
        r#"{"kind": "deployment", "name": "d", "patch": {"spec": {"replicas": 6}}}"#,
        r#"{"kind": "deployment", "name": "d", "patch": {"metadata": {"finalizers": []}}}"#,
        r#"{"kind": "deployment", "name": "d"}"#,
        r#"{"kind": "nothing", "name": "d", "patch": {}}"#,
    ] {
        assert!(tool.plan(&read(bad)).is_err(), "{}", bad);
    }
}

#[test]
fn commands_are_checked() {
    let tool = KubectlExec::new("ns", vec!["DROP TABLE".to_string()]);
    let ok = read(r#"{"pod_name": "p", "command": ["psql", "-c", "SELECT 1"]}"#);
    match tool.plan(&ok) {
        Ok(q) => {
            assert_eq!(q.pod_name, "p");
            assert_eq!(q.command, vec!["psql", "-c", "SELECT 1"]);
        }
        Err(e) => panic!("{}", e.output),
    }
    let denied = read(r#"{"pod_name": "p", "command": ["psql", "-c", "DROP TABLE t"]}"#);
    assert!(tool.plan(&denied).is_err());
    let blocked = read(r#"{"pod_name": "p", "command": ["rm", "-rf", "/"]}"#);
    assert!(tool.plan(&blocked).is_err());
    assert!(tool.plan(&read(r#"{"command": ["ls"]}"#)).is_err());
    assert!(KubectlExec::report(0, "out", "").success);
    assert!(!KubectlExec::report(1, "", "err").success);
    assert!(KubectlExec::report_timeout(30).output.contains("30"));
}

#[test]
fn kinds_are_known_by_name() {
    assert_eq!(parse_kind("Pod"), Some(ResourceKind::Pod));
    assert_eq!(parse_kind("nothing"), None);
    assert!(KubectlDescribe::new("ns").plan(&read(r#"{"kind": "pod", "name": "p"}"#)).is_ok());
    assert!(KubectlDescribe::new("ns").plan(&read(r#"{"kind": "pod"}"#)).is_err());
    assert!(KubectlGet::new("ns").plan(&read(r#"{"kind": "pod"}"#)).is_ok());
    assert!(KubectlGet::new("ns").plan(&read("{}")).is_err());
}

#[test]
fn objects_are_reported() {
    let pod = read(r#"{"metadata": {"name": "p"}, "status": {"phase": "Running"}}"#);
    let one = KubectlGet::report_one(&pod, &Some("status.phase".to_string()));
    assert!(one.success);
    assert!(one.output.contains("Running"));
    let list = KubectlGet::report_list(&vec![pod], &Some("metadata.name".to_string()));
    assert!(list.output.contains("\"p\""));
}

fn pod(ready: bool) -> PodFacts {
    PodFacts {
        name: Some("p".to_string()),
        phase: Some("Running".to_string()),
        conditions: vec![(
            "Ready".to_string(),
            (if ready { "True" } else { "False" }).to_string(),
        )],
        restart_counts: vec![1],
    }
}

#[test]
fn waiting_ends_when_pods_are_ready_or_time_is_over() {
    let request = WaitForReady::new("ns", "db").plan(&read("{}"));
    assert_eq!(request.expected_count, 1);
    assert_eq!(request.timeout_seconds, 120);
    assert!(WaitForReady::step(1, &Ok(vec![pod(false)]), false).is_none());
    let done = WaitForReady::step(1, &Ok(vec![pod(true)]), false).expect("done");
    assert!(done.success);
    let over = WaitForReady::step(2, &Ok(vec![pod(true)]), true).expect("over");
    assert!(!over.success);
}

#[test]
fn pods_events_and_logs() {
    let status = GetPodStatus::report("p", &pod(true));
    assert!(status.success);
    assert!(status.output.contains("Running"));
    let events = GetEvents::report(&vec![EventFacts {
        reason: Some("Killing".to_string()),
        message: None,
        event_type: None,
        count: Some(2),
        last_timestamp: None,
    }]);
    assert!(events.output.contains("Killing"));
    let selector = GetEvents::new("ns", "db").field_selector(&read("{}"));
    assert_eq!(selector, "involvedObject.name=db");
    match GetPodLogs::new("ns").plan(&read(r#"{"pod_name": "p"}"#)) {
        Ok(q) => {
            assert_eq!(q.tail_lines, 100);
            assert!(!q.previous);
        }
        Err(e) => panic!("{}", e.output),
    }
}

#[test]
fn manifests_are_owned_and_only_their_mutable_part_is_merged() {
    let manifest = read(
        r#"{
            "kind": "StatefulSet",
            "metadata": {"name": "db"},
            "spec": {"replicas": 3, "serviceName": "db", "template": {"x": 1}}
        }"#,
    );
    let owner = read(r#"{"name": "me"}"#);
    let plan = match plan_apply(&manifest, Some(&owner)) {
        Ok(p) => p,
        Err(e) => panic!("{}", e),
    };
    assert_eq!(plan.kind, ResourceKind::StatefulSet);
    assert_eq!(plan.name, "db");
    let owners = match plan.manifest.get_in("metadata", "ownerReferences") {
        Some(Json::Array(list)) => list,
        _ => panic!("no owners"),
    };
    assert_eq!(owners[0].str_at("name"), Some("me"));
    assert!(plan.merge_patch.get_in("spec", "serviceName").is_none());
    assert!(plan.merge_patch.get_in("spec", "replicas").is_some());
    match plan_apply(&read(r#"{"kind": "Secret", "metadata": {"name": "s"}}"#), None) {
        Err(e) => assert_eq!(e, "unsupported kind for server-side apply: Secret"),
        Ok(_) => panic!("planned"),
    }
    assert!(plan_apply(&read("{}"), None).is_err());
}
