//! The controller's decisions and the status of a resource.
use krust_operator::channel::{key_of, EventChannelRegistry};
use krust_operator::controller::status::{agent_action_patch, condition_patch, phase_patch};
use krust_operator::controller::{
    build_bootstrap_snapshot, build_spec_change_snapshot, choose_provider, decide_reconcile,
    k8s_state, parse_duration_secs, pipeline_config_of, resource_identity, timeout_fits, PodFacts,
    ProviderChoice, ReconcileDecision, StatefulSetFacts,
};
use krust_operator::crd::{
    specs_equal, AIResourceSpec, AgentSpec, GuardrailSpec, ResourceCondition, ResourcePhase,
    SecretKeyRef,
};
use krust_operator::table::Table;

fn spec() -> AIResourceSpec {
    AIResourceSpec {
        skill: "s".to_string(),
        goal: "g".to_string(),
        image: "i".to_string(),
        resources: None,
        agent: None,
        guardrails: Some(GuardrailSpec {
            max_replicas: Some(3),
            max_memory: None,
            denied_commands: vec!["rm".to_string()],
        }),
    }
}

#[test]
fn a_resource_is_set_up_then_watched() {
    let a = spec();
    let mut b = spec();
    assert_eq!(decide_reconcile(false, None, &a), ReconcileDecision::Setup);
    assert_eq!(decide_reconcile(true, Some(&a), &b), ReconcileDecision::Idle);
    b.goal = "other".to_string();
    assert!(!specs_equal(&a, &b));
    assert_eq!(decide_reconcile(true, Some(&a), &b), ReconcileDecision::NotifyChange);
}

#[test]
fn unnamed_resources_have_names() {
    assert_eq!(resource_identity(None, None), ("default".to_string(), "unknown".to_string()));
    assert_eq!(
        resource_identity(Some("ns".to_string()), Some("n".to_string())),
        ("ns".to_string(), "n".to_string())
    );
}

#[test]
fn timeouts_are_read() {
    assert_eq!(parse_duration_secs("10s"), 10);
    assert_eq!(parse_duration_secs(" 2m "), 120);
    assert_eq!(parse_duration_secs("45"), 45);
    assert_eq!(parse_duration_secs("soon"), 300);
    assert!(!timeout_fits("18446744073709551615m"));
}

#[test]
fn the_agent_sets_up_its_pipeline() {
    let none = pipeline_config_of(&None, "d");
    assert_eq!(none.pipeline_timeout_secs, 300);
    assert_eq!(none.max_iterations, 30);
    assert_eq!(none.model, "d");
    let mut agent = AgentSpec::default();
    agent.pipeline_timeout = "10m".to_string();
    agent.model = Some("m".to_string());
    let own = pipeline_config_of(&Some(agent), "d");
    assert_eq!(own.pipeline_timeout_secs, 600);
    assert_eq!(own.model, "m");
}

#[test]
fn providers_are_chosen() {
    assert!(matches!(choose_provider(&None), Ok(ProviderChoice::AnthropicEnv)));
    let mut agent = AgentSpec::default();
    agent.api_key_secret_ref =
        Some(SecretKeyRef { name: "sec".to_string(), key: "k".to_string() });
    match choose_provider(&Some(agent)) {
        Ok(ProviderChoice::AnthropicSecret { secret_name, secret_key }) => {
            assert_eq!(secret_name, "sec");
            assert_eq!(secret_key, "k");
        }
        _ => panic!("no secret"),
    }
    let mut agent = AgentSpec::default();
    agent.provider = "vertex".to_string();
    match choose_provider(&Some(agent)) {
        Err(e) => assert_eq!(e, "Vertex AI requires project_id"),
        Ok(_) => panic!("chosen"),
    }
    let mut agent = AgentSpec::default();
    agent.provider = "vertex".to_string();
    agent.project_id = Some("p".to_string());
    match choose_provider(&Some(agent)) {
        Ok(ProviderChoice::Vertex { region, project_id }) => {
            assert_eq!(region, "us-east5");
            assert_eq!(project_id, "p");
        }
        _ => panic!("no vertex"),
    }
}

#[test]
fn the_cluster_is_summed_up() {
    let mut limits: Table<String> = Table::new();
    limits.insert("memory", "1Gi".to_string());
    let pods = vec![PodFacts {
        name: Some("p-0".to_string()),
        phase: None,
        conditions: vec![("Ready".to_string(), "True".to_string())],
        restart_counts: vec![2, 5],
    }];
    let sets = vec![StatefulSetFacts {
        name: Some("p".to_string()),
        replicas: Some(3),
        ready_replicas: None,
        container_limits: vec![Some(limits)],
    }];
    let k8s = k8s_state(&pods, &sets);
    assert_eq!(k8s.pods[0].name, "p-0");
    assert_eq!(k8s.pods[0].phase, "Unknown");
    assert!(k8s.pods[0].ready);
    assert_eq!(k8s.pods[0].restarts, 2);
    assert_eq!(k8s.statefulsets[0].replicas, 3);
    assert_eq!(k8s.statefulsets[0].ready_replicas, 0);
    assert_eq!(k8s.statefulsets[0].memory_limit, Some("1Gi".to_string()));
    assert_eq!(k8s.statefulsets[0].cpu_limit, None);
    let s = build_bootstrap_snapshot("ns", "n", &spec(), k8s, "now");
    assert_eq!(s.trigger.source, "bootstrap");
    assert_eq!(s.resource.goal, "g");
    let s = build_spec_change_snapshot("ns", "n", &spec(), k8s_state(&vec![], &vec![]), "now");
    assert_eq!(s.trigger.timestamp, "now");
    assert_eq!(s.k8s.pods.len(), 0);
}

#[test]
fn statuses_are_patched() {
    assert_eq!(
        phase_patch(ResourcePhase::Healing, Some("m")).to_text(),
        r#"{"status":{"message":"m","phase":"Healing"}}"#
    );
    assert_eq!(
        phase_patch(ResourcePhase::Running, None).to_text(),
        r#"{"status":{"message":null,"phase":"Running"}}"#
    );
    assert_eq!(
        agent_action_patch("a", "t").to_text(),
        r#"{"status":{"last_agent_action":"a","last_agent_action_time":"t"}}"#
    );
    let c = ResourceCondition {
        condition_type: "Ready".to_string(),
        status: "True".to_string(),
        reason: None,
        message: Some("m".to_string()),
    };
    assert_eq!(
        condition_patch(&c).to_text(),
        r#"{"status":{"conditions":[{"message":"m","status":"True","type":"Ready"}]}}"#
    );
}

#[test]
fn channels_are_kept_by_resource() {
    let mut registry: EventChannelRegistry<u8> = EventChannelRegistry::new();
    registry.register("ns", "a", 1);
    registry.register("ns", "b", 2);
    registry.register("ns", "a", 3);
    assert_eq!(registry.sender("ns", "a"), Some(&3));
    assert_eq!(registry.sender("ns", "b"), Some(&2));
    registry.unregister("ns", "a");
    assert!(!registry.has("ns", "a"));
    assert!(registry.has("ns", "b"));
    assert_eq!(key_of("ns", "a"), "ns/a");
}

#[test]
fn the_defaults_of_an_agent() {
    let a = AgentSpec::default();
    assert!(a.enabled);
    assert_eq!(a.provider, "anthropic");
    assert_eq!(a.max_iterations, 30);
    assert_eq!(a.pipeline_timeout, "300s");
    assert_eq!(a.llm_call_timeout, "60s");
}
