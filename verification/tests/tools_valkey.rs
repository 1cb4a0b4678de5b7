//! The tools for Valkey clusters.
use krust_operator::json::Json;
use krust_operator::tools::valkey::{
    cli_args, cli_outcome, is_command_denied, parse_cluster_info, pod_ip_of, pod_name, report_cli,
    CliStatus, ClusterAddNode, ClusterInfo, ClusterMeetAll, ClusterNodes, ClusterRebalance,
    HealthCheck, ValkeyCli,
};

fn read(s: &str) -> Json {
    match Json::parse(s) {
        Ok(j) => j,
        Err(e) => panic!("{}", e),
    }
}

#[test]
fn test_command_denylist() {
    assert!(is_command_denied("FLUSHALL"));
    assert!(is_command_denied("flushall"));
    assert!(!is_command_denied("CLUSTER RESET"));
    assert!(is_command_denied("DEBUG SLEEP 10"));
    assert!(is_command_denied("SHUTDOWN"));
    assert!(is_command_denied("FLUSHDB"));
    assert!(is_command_denied("CONFIG SET bind-source-addr ''"));
    assert!(is_command_denied("CONFIG SET loglevel verbose"));
}

#[test]
fn test_command_allowed() {
    assert!(!is_command_denied("PING"));
    assert!(!is_command_denied("CLUSTER INFO"));
    assert!(!is_command_denied("CLUSTER NODES"));
    assert!(!is_command_denied("CLUSTER MEET 127.0.0.1 6380"));
    assert!(!is_command_denied("CLUSTER ADDSLOTS 0 1 2"));
    assert!(!is_command_denied("CONFIG SET maxmemory 512mb"));
    assert!(!is_command_denied("CONFIG SET maxmemory-policy allkeys-lru"));
}

#[test]
fn commands_are_judged_by_their_words() {
    assert!(is_command_denied("CONFIG  SET loglevel verbose"));
    assert!(is_command_denied("config\tset\nloglevel verbose"));
    assert!(!is_command_denied("CONFIG  SET   maxmemory 1gb"));
    assert!(is_command_denied("CONFIG SET"));
    assert!(!is_command_denied("CONFIG GET loglevel"));
    assert!(!is_command_denied(" "));
}

#[test]
fn test_parse_cluster_info() {
    let raw = "cluster_enabled:1\r\ncluster_state:ok\r\ncluster_slots_assigned:16384\r\n";
    let map = parse_cluster_info(raw);
    assert_eq!(map.get("cluster_enabled"), Some(&"1".to_string()));
    assert_eq!(map.get("cluster_state"), Some(&"ok".to_string()));
    assert_eq!(map.get("cluster_slots_assigned"), Some(&"16384".to_string()));
}

#[test]
fn commands_go_to_a_pod() {
    assert_eq!(pod_name("vk", 2), "vk-2");
    assert_eq!(cli_args("CLUSTER  INFO"), vec!["valkey-cli", "CLUSTER", "INFO"]);
    let cli = ValkeyCli::new("vk".to_string(), "ns".to_string());
    match cli.plan(&read(r#"{"command": "PING", "pod_index": 1}"#)) {
        Ok(q) => {
            assert_eq!(q.pod, "vk-1");
            assert_eq!(q.command, "PING");
        }
        Err(e) => panic!("{}", e.output),
    }
    assert!(cli.plan(&read(r#"{"command": "FLUSHALL"}"#)).is_err());
    match cli.plan(&read(r#"{"command": "PING", "pod_index": 4294967297}"#)) {
        Ok(q) => panic!("{}", q.pod),
        Err(e) => assert_eq!(e.output, "missing pod_index"),
    }
    assert!(cli.plan(&read("{}")).is_err());
    assert_eq!(ClusterNodes::new("vk".to_string(), "ns".to_string()).plan().command, "CLUSTER NODES");
    assert_eq!(ClusterInfo::new("vk".to_string(), "ns".to_string()).plan().command, "CLUSTER INFO");
}

#[test]
fn outcomes_of_commands() {
    let ok = Some(CliStatus { status: Some("Success".to_string()), reason: None });
    assert_eq!(cli_outcome(&ok, "PONG\n", ""), Ok("PONG".to_string()));
    let bad = Some(CliStatus { status: Some("Failure".to_string()), reason: Some("r".to_string()) });
    assert_eq!(cli_outcome(&bad, "", " e "), Err("valkey-cli failed: e".to_string()));
    assert_eq!(cli_outcome(&bad, "", ""), Err("valkey-cli failed: r".to_string()));
    assert!(report_cli(Ok("x".to_string())).success);
    assert!(!report_cli(Err("x".to_string())).success);
    assert_eq!(pod_ip_of("10.0.0.1 \n", "vk-0"), Ok("10.0.0.1".to_string()));
    assert_eq!(pod_ip_of(" \n", "vk-0"), Err("empty IP for pod vk-0".to_string()));
}

#[test]
fn a_cluster_is_made_and_changed() {
    let meet = ClusterMeetAll::new("vk".to_string(), "ns".to_string(), 2, 1);
    let ips = vec![Ok("10.0.0.1".to_string()), Ok("10.0.0.2".to_string())];
    match meet.plan(&ips) {
        Ok(command) => assert!(command.join(" ").contains("10.0.0.1:6379 10.0.0.2:6379")),
        Err(e) => panic!("{}", e.output),
    }
    let lost = vec![Ok("10.0.0.1".to_string()), Err("gone".to_string())];
    assert!(meet.plan(&lost).is_err());
    let add = ClusterAddNode::new("vk".to_string(), "ns".to_string());
    assert!(matches!(add.plan(&read(r#"{"pod_index": 6}"#)), Ok(p) if p == "vk-6"));
    assert!(add.plan(&read(r#"{"pod_index": 4294967296}"#)).is_err());
    assert!(add.plan(&read("{}")).is_err());
    assert!(ClusterAddNode::command("10.0.0.7", "10.0.0.1").join(" ").contains("10.0.0.7:6379"));
    assert_eq!(ClusterRebalance::new("vk".to_string(), "ns".to_string()).plan(), "vk-0");
    assert!(ClusterRebalance::command("10.0.0.1").join(" ").contains("rebalance"));
    assert_eq!(HealthCheck::new("vk".to_string(), "ns".to_string(), 3).total_pods, 3);
}
