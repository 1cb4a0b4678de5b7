//! The controller: what a reconciliation does, how an agent is set up, and what it is told first.
use vstd::prelude::*;
use crate::crd::{AIResourceSpec, AgentSpec};
use crate::crd;
use crate::json::{JsonObject, JsonView};
use crate::pipeline::PipelineConfig;
use crate::table::Table;
use crate::text;
use crate::types::{
    K8sState, PodInfo, ResourceInfo, StateSnapshot, StatefulSetInfo, TriggerInfo,
};

pub mod status;

verus! {

/// The seconds until a resource is looked at again.
pub const REQUEUE_SECS: u64 = 10;

/// The seconds until a resource is looked at again after an error.
pub const ERROR_REQUEUE_SECS: u64 = 30;

/// The seconds that an agent of a pipeline has.
pub const AGENT_TIMEOUT_SECS: u64 = 300;

/// The namespace and the name of a resource, with defaults for what its metadata lacks.
pub fn resource_identity(namespace: Option<String>, name: Option<String>) -> (r: (String, String))
    ensures
        r.0@ == (match namespace {
            Some(n) => n@,
            None => "default"@,
        }),
        r.1@ == (match name {
            Some(n) => n@,
            None => "unknown"@,
        }),
{
    let ns = match namespace {
        Some(n) => n,
        None => "default".to_string(),
    };
    let n = match name {
        Some(n) => n,
        None => "unknown".to_string(),
    };
    (ns, n)
}

/// What a reconciliation does.
#[derive(Debug, Clone, Copy, PartialEq, Eq, Structural)]
pub enum ReconcileDecision {
    /// The resource is new: set its agent up.
    Setup,
    /// What the resource asks for has changed: tell its agent.
    NotifyChange,
    /// Nothing is to be done.
    Idle,
}

/// What a reconciliation does, by whether the resource has an agent and what it asked for last.
pub open spec fn reconcile_decision(
    has_instance: bool,
    last_seen: Option<AIResourceSpec>,
    spec: AIResourceSpec,
) -> ReconcileDecision {
    if !has_instance {
        ReconcileDecision::Setup
    } else {
        match last_seen {
            Some(seen) => if crd::same_spec(seen, spec) {
                ReconcileDecision::Idle
            } else {
                ReconcileDecision::NotifyChange
            },
            None => ReconcileDecision::NotifyChange,
        }
    }
}

/// Decides what a reconciliation does.
pub fn decide_reconcile(
    has_instance: bool,
    last_seen: Option<&AIResourceSpec>,
    spec: &AIResourceSpec,
) -> (r: ReconcileDecision)
    ensures
        r == reconcile_decision(
            has_instance,
            (match last_seen {
                Some(s) => Some(*s),
                None => None,
            }),
            *spec,
        ),
{
    if !has_instance {
        return ReconcileDecision::Setup;
    }
    match last_seen {
        Some(seen) => if crd::specs_equal(seen, spec) {
            ReconcileDecision::Idle
        } else {
            ReconcileDecision::NotifyChange
        },
        None => ReconcileDecision::NotifyChange,
    }
}

/// Once a reconciliation has recorded what a resource asks for, further ones do nothing until it
/// asks for something else.
pub proof fn lemma_reconcile_settles(last_seen: Option<AIResourceSpec>, spec: AIResourceSpec)
    ensures
        reconcile_decision(true, Some(spec), spec) == ReconcileDecision::Idle,
        reconcile_decision(true, last_seen, spec) == ReconcileDecision::Idle ==> last_seen is Some
            && crd::same_spec(last_seen->0, spec),
{
}

// ---------------------------------------------------------------------------
// Settings
// ---------------------------------------------------------------------------
/// A timeout in seconds: a number with an `s`, an `m` or nothing after it. What cannot be read is
/// five minutes.
pub open spec fn timeout_secs(s: Seq<char>) -> nat {
    let t = text::trimmed(s);
    if text::ends(t, "s"@) {
        match text::parsed_unsigned(t.take(t.len() - 1), u64::MAX as nat) {
            Some(n) => n,
            None => 300,
        }
    } else if text::ends(t, "m"@) {
        match text::parsed_unsigned(t.take(t.len() - 1), u64::MAX as nat) {
            Some(n) => n * 60,
            None => 5 * 60,
        }
    } else {
        match text::parsed_unsigned(t, u64::MAX as nat) {
            Some(n) => n,
            None => 300,
        }
    }
}

/// Reads a timeout.
pub fn parse_duration_secs(s: &str) -> (r: u64)
    requires
        timeout_secs(s@) <= u64::MAX,
    ensures
        r == timeout_secs(s@),
{
    proof {
        reveal_strlit("s");
        reveal_strlit("m");
    }
    let t = text::trim(s);
    if let Some(secs) = text::strip_suffix(t.as_str(), "s") {
        match text::parse_u64(secs.as_str()) {
            Some(n) => n,
            None => 300,
        }
    } else if let Some(mins) = text::strip_suffix(t.as_str(), "m") {
        match text::parse_u64(mins.as_str()) {
            Some(n) => n * 60,
            None => 300,
        }
    } else {
        match text::parse_u64(t.as_str()) {
            Some(n) => n,
            None => 300,
        }
    }
}

/// Tells whether a timeout fits in seconds.
pub fn timeout_fits(s: &str) -> (r: bool)
    ensures
        r == (timeout_secs(s@) <= u64::MAX),
{
    proof {
        reveal_strlit("s");
        reveal_strlit("m");
    }
    let t = text::trim(s);
    if text::strip_suffix(t.as_str(), "s").is_some() {
        true
    } else if let Some(mins) = text::strip_suffix(t.as_str(), "m") {
        match text::parse_u64(mins.as_str()) {
            Some(n) => n <= u64::MAX / 60,
            None => true,
        }
    } else {
        true
    }
}

/// The default timeouts.
pub proof fn lemma_default_timeouts()
    ensures
        timeout_secs("300s"@) == 300,
        timeout_secs("60s"@) == 60,
{
    reveal_strlit("300s");
    reveal_strlit("60s");
    reveal_strlit("s");
    assert("300s"@.skip(0) =~= "300s"@);
    assert("60s"@.skip(0) =~= "60s"@);
    assert("300s"@.subrange(3, 4) =~= "s"@);
    assert("60s"@.subrange(2, 3) =~= "s"@);
    let a = "300s"@.take(3);
    let b = "60s"@.take(2);
    assert(a =~= seq!['3', '0', '0']);
    assert(b =~= seq!['6', '0']);
    reveal_with_fuel(text::digits_value, 4);
    assert(a.drop_last() =~= seq!['3', '0']);
    assert(a.drop_last().drop_last() =~= seq!['3']);
    assert(a.drop_last().drop_last().drop_last() =~= seq![]);
    assert(b.drop_last() =~= seq!['6']);
    assert(b.drop_last().drop_last() =~= seq![]);
}

/// The time of a pipeline of a resource, as text.
pub open spec fn pipeline_timeout_text(agent: Option<AgentSpec>) -> Seq<char> {
    match agent {
        Some(a) => a.pipeline_timeout@,
        None => "300s"@,
    }
}

/// The time of a call of the model of a resource, as text.
pub open spec fn call_timeout_text(agent: Option<AgentSpec>) -> Seq<char> {
    match agent {
        Some(a) => a.llm_call_timeout@,
        None => "60s"@,
    }
}

/// Makes the limits of a resource's pipelines. A resource that names no model gets the default
/// model, which the deployment sets.
pub fn pipeline_config_of(agent: &Option<AgentSpec>, default_model: &str) -> (r: PipelineConfig)
    requires
        agent matches Some(a) ==> timeout_secs(a.pipeline_timeout@) <= u64::MAX,
        agent matches Some(a) ==> timeout_secs(a.llm_call_timeout@) <= u64::MAX,
    ensures
        r.pipeline_timeout_secs == timeout_secs(pipeline_timeout_text(*agent)),
        r.agent_timeout_secs == AGENT_TIMEOUT_SECS,
        r.llm_call_timeout_secs == timeout_secs(call_timeout_text(*agent)),
        r.max_iterations == (match agent {
            Some(a) => a.max_iterations,
            None => 30,
        }),
        r.model@ == (match agent {
            Some(a) => match a.model {
                Some(m) => m@,
                None => default_model@,
            },
            None => default_model@,
        }),
{
    proof {
        lemma_default_timeouts();
    }
    match agent {
        Some(a) => PipelineConfig {
            pipeline_timeout_secs: parse_duration_secs(a.pipeline_timeout.as_str()),
            agent_timeout_secs: AGENT_TIMEOUT_SECS,
            llm_call_timeout_secs: parse_duration_secs(a.llm_call_timeout.as_str()),
            max_iterations: a.max_iterations,
            model: match &a.model {
                Some(m) => m.clone(),
                None => default_model.to_string(),
            },
        },
        None => PipelineConfig {
            pipeline_timeout_secs: parse_duration_secs("300s"),
            agent_timeout_secs: AGENT_TIMEOUT_SECS,
            llm_call_timeout_secs: parse_duration_secs("60s"),
            max_iterations: 30,
            model: default_model.to_string(),
        },
    }
}

/// Which provider a resource asks for.
pub enum ProviderChoice {
    /// The service on Vertex AI.
    Vertex { region: String, project_id: String },
    /// The vendor's service, with a key from a secret.
    AnthropicSecret { secret_name: String, secret_key: String },
    /// The vendor's service, with a key from the environment.
    AnthropicEnv,
}

/// Whether a resource asks for Vertex AI.
pub open spec fn wants_vertex(agent: Option<AgentSpec>) -> bool {
    agent matches Some(a) && a.provider@ == "vertex"@
}

/// Chooses the provider of a resource. Vertex AI needs a project; any provider but Vertex AI is
/// the vendor's service.
pub fn choose_provider(agent: &Option<AgentSpec>) -> (r: Result<ProviderChoice, String>)
    ensures
        match r {
            Ok(ProviderChoice::Vertex { region, project_id }) => wants_vertex(*agent) && {
                let a = (*agent)->0;
                &&& region@ == (match a.region {
                    Some(s) => s@,
                    None => "us-east5"@,
                })
                &&& text::opt(a.project_id) == Some(project_id@)
            },
            Ok(ProviderChoice::AnthropicSecret { secret_name, secret_key }) => !wants_vertex(*agent)
                && agent is Some && (*agent)->0.api_key_secret_ref is Some && {
                let s = (*agent)->0.api_key_secret_ref->0;
                secret_name@ == s.name@ && secret_key@ == s.key@
            },
            Ok(ProviderChoice::AnthropicEnv) => !wants_vertex(*agent) && (agent is Some ==> (
            *agent)->0.api_key_secret_ref is None),
            Err(e) => wants_vertex(*agent) && (*agent)->0.project_id is None && e@
                == "Vertex AI requires project_id"@,
        },
{
    match agent {
        Some(a) => {
            if text::same(a.provider.as_str(), "vertex") {
                let region = match &a.region {
                    Some(s) => s.clone(),
                    None => "us-east5".to_string(),
                };
                match &a.project_id {
                    Some(p) => Ok(ProviderChoice::Vertex { region, project_id: p.clone() }),
                    None => Err("Vertex AI requires project_id".to_string()),
                }
            } else {
                match &a.api_key_secret_ref {
                    Some(s) => Ok(
                        ProviderChoice::AnthropicSecret {
                            secret_name: s.name.clone(),
                            secret_key: s.key.clone(),
                        },
                    ),
                    None => Ok(ProviderChoice::AnthropicEnv),
                }
            }
        },
        None => Ok(ProviderChoice::AnthropicEnv),
    }
}

/// The message of a setup that failed because its skill could not be loaded.
pub fn skill_load_error(skill: &str, error: &str) -> (r: String)
    ensures
        r@ == "Failed to load skill '"@ + skill@ + "': "@ + error@,
{
    let mut out = "Failed to load skill '".to_string();
    out.append(skill);
    out.append("': ");
    out.append(error);
    out
}

/// The message of a resource whose setup failed.
pub fn setup_failed(error: &str) -> (r: String)
    ensures
        r@ == "Setup failed: "@ + error@,
{
    let mut out = "Setup failed: ".to_string();
    out.append(error);
    out
}

// ---------------------------------------------------------------------------
// The state of the cluster
// ---------------------------------------------------------------------------
/// The label by which the objects of a resource are found.
pub fn app_label(name: &str) -> (r: String)
    ensures
        r@ == "app="@ + name@,
{
    let mut out = "app=".to_string();
    out.append(name);
    out
}

/// What the cluster says of a pod.
pub struct PodFacts {
    pub name: Option<String>,
    pub phase: Option<String>,
    /// Type and status of each condition.
    pub conditions: Vec<(String, String)>,
    /// The restarts of each container.
    pub restart_counts: Vec<i32>,
}

/// Whether one of the conditions says that the pod is ready.
pub open spec fn says_ready(conditions: Seq<(String, String)>) -> bool {
    exists|i: int|
        0 <= i < conditions.len() && (#[trigger] conditions[i]).0@ == "Ready"@ && conditions[i].1@
            == "True"@
}

/// Tells whether one of the conditions says that the pod is ready.
pub fn is_ready(conditions: &Vec<(String, String)>) -> (r: bool)
    ensures
        r == says_ready(conditions@),
{
    let mut i: usize = 0;
    while i < conditions.len()
        invariant
            i <= conditions@.len(),
            forall|k: int|
                0 <= k < i ==> !((#[trigger] conditions@[k]).0@ == "Ready"@ && conditions@[k].1@
                    == "True"@),
        decreases conditions@.len() - i,
    {
        if text::same(conditions[i].0.as_str(), "Ready") && text::same(
            conditions[i].1.as_str(),
            "True",
        ) {
            return true;
        }
        i = i + 1;
    }
    false
}

/// A text, or a default.
pub open spec fn or_default(s: Option<String>, default: Seq<char>) -> Seq<char> {
    match s {
        Some(t) => t@,
        None => default,
    }
}

/// A text, or a default.
pub fn text_or(s: &Option<String>, default: &str) -> (r: String)
    ensures
        r@ == or_default(*s, default@),
{
    match s {
        Some(t) => t.clone(),
        None => default.to_string(),
    }
}

/// Whether the information says of a pod what the cluster says: name, phase, readiness, and the
/// restarts of its first container.
pub open spec fn informs(info: PodInfo, pod: PodFacts) -> bool {
    &&& info.name@ == or_default(pod.name, ""@)
    &&& info.phase@ == or_default(pod.phase, "Unknown"@)
    &&& info.ready == says_ready(pod.conditions@)
    &&& info.restarts == (if pod.restart_counts@.len() > 0 {
        pod.restart_counts@[0] as u32
    } else {
        0
    })
}

/// Makes the information on a pod.
pub fn pod_info(pod: &PodFacts) -> (r: PodInfo)
    ensures
        informs(r, *pod),
{
    PodInfo {
        name: text_or(&pod.name, ""),
        phase: text_or(&pod.phase, "Unknown"),
        ready: is_ready(&pod.conditions),
        restarts: if pod.restart_counts.len() > 0 {
            #[verifier::truncate]
            (pod.restart_counts[0] as u32)
        } else {
            0
        },
    }
}

/// What the cluster says of a stateful set.
pub struct StatefulSetFacts {
    pub name: Option<String>,
    pub replicas: Option<i32>,
    pub ready_replicas: Option<i32>,
    /// The limits of each container, where it has any.
    pub container_limits: Vec<Option<Table<String>>>,
}

/// A count, or zero.
pub open spec fn count_of(n: Option<i32>) -> u32 {
    match n {
        Some(k) => k as u32,
        None => 0,
    }
}

fn count_or_zero(n: Option<i32>) -> (r: u32)
    ensures
        r == count_of(n),
{
    match n {
        Some(k) => #[verifier::truncate]
        (k as u32),
        None => 0,
    }
}

/// A limit of the first container.
pub open spec fn first_limit(
    containers: Seq<Option<Table<String>>>,
    what: Seq<char>,
) -> Option<Seq<char>> {
    if containers.len() == 0 {
        None
    } else {
        match containers[0] {
            Some(limits) => if limits@.contains_key(what) {
                Some(limits@[what]@)
            } else {
                None
            },
            None => None,
        }
    }
}

fn limit_of(containers: &Vec<Option<Table<String>>>, what: &str) -> (r: Option<String>)
    ensures
        text::opt(r) == first_limit(containers@, what@),
{
    if containers.len() == 0 {
        return None;
    }
    match &containers[0] {
        Some(limits) => match limits.get(what) {
            Some(v) => Some(v.clone()),
            None => None,
        },
        None => None,
    }
}

/// Whether the information says of a stateful set what the cluster says.
pub open spec fn informs_set(info: StatefulSetInfo, set: StatefulSetFacts) -> bool {
    &&& info.name@ == or_default(set.name, ""@)
    &&& info.replicas == count_of(set.replicas)
    &&& info.ready_replicas == count_of(set.ready_replicas)
    &&& text::opt(info.memory_limit) == first_limit(set.container_limits@, "memory"@)
    &&& text::opt(info.cpu_limit) == first_limit(set.container_limits@, "cpu"@)
}

/// Makes the information on a stateful set.
pub fn statefulset_info(set: &StatefulSetFacts) -> (r: StatefulSetInfo)
    ensures
        informs_set(r, *set),
{
    StatefulSetInfo {
        name: text_or(&set.name, ""),
        replicas: count_or_zero(set.replicas),
        ready_replicas: count_or_zero(set.ready_replicas),
        memory_limit: limit_of(&set.container_limits, "memory"),
        cpu_limit: limit_of(&set.container_limits, "cpu"),
    }
}

/// Makes the state of the cluster: every pod and every stateful set, in order.
pub fn k8s_state(pods: &Vec<PodFacts>, sets: &Vec<StatefulSetFacts>) -> (r: K8sState)
    ensures
        r.pods@.len() == pods@.len(),
        forall|i: int| 0 <= i < pods@.len() ==> informs(#[trigger] r.pods@[i], pods@[i]),
        r.statefulsets@.len() == sets@.len(),
        forall|i: int|
            0 <= i < sets@.len() ==> informs_set(#[trigger] r.statefulsets@[i], sets@[i]),
{
    let mut pod_infos: Vec<PodInfo> = Vec::new();
    let mut i: usize = 0;
    while i < pods.len()
        invariant
            i <= pods@.len(),
            pod_infos@.len() == i,
            forall|k: int| 0 <= k < i ==> informs(#[trigger] pod_infos@[k], pods@[k]),
        decreases pods@.len() - i,
    {
        pod_infos.push(pod_info(&pods[i]));
        i = i + 1;
    }
    let mut set_infos: Vec<StatefulSetInfo> = Vec::new();
    let mut j: usize = 0;
    while j < sets.len()
        invariant
            j <= sets@.len(),
            set_infos@.len() == j,
            forall|k: int| 0 <= k < j ==> informs_set(#[trigger] set_infos@[k], sets@[k]),
        decreases sets@.len() - j,
    {
        set_infos.push(statefulset_info(&sets[j]));
        j = j + 1;
    }
    K8sState { pods: pod_infos, statefulsets: set_infos }
}

/// Whether a snapshot is of a resource, in some state of the cluster, without monitors.
pub open spec fn is_snapshot(
    s: StateSnapshot,
    namespace: Seq<char>,
    name: Seq<char>,
    spec: AIResourceSpec,
    k8s: K8sState,
    timestamp: Seq<char>,
) -> bool {
    &&& s.resource.name@ == name
    &&& s.resource.namespace@ == namespace
    &&& s.resource.skill@ == spec.skill@
    &&& s.resource.goal@ == spec.goal@
    &&& s.resource.image@ == spec.image@
    &&& s.monitors@ == Map::<Seq<char>, JsonView>::empty()
    &&& s.k8s == k8s
    &&& s.trigger.timestamp@ == timestamp
}

fn snapshot_of(
    namespace: &str,
    name: &str,
    spec: &AIResourceSpec,
    k8s: K8sState,
    source: &str,
    reason: &str,
    timestamp: &str,
) -> (r: StateSnapshot)
    ensures
        is_snapshot(r, namespace@, name@, *spec, k8s, timestamp@),
        r.trigger.source@ == source@,
        r.trigger.reason@ == reason@,
{
    StateSnapshot {
        resource: ResourceInfo {
            name: name.to_string(),
            namespace: namespace.to_string(),
            skill: spec.skill.clone(),
            goal: spec.goal.clone(),
            image: spec.image.clone(),
        },
        monitors: JsonObject::new(),
        k8s,
        trigger: TriggerInfo {
            source: source.to_string(),
            reason: reason.to_string(),
            timestamp: timestamp.to_string(),
        },
    }
}

/// The snapshot that a new resource's agent starts from.
pub fn build_bootstrap_snapshot(
    namespace: &str,
    name: &str,
    spec: &AIResourceSpec,
    k8s: K8sState,
    timestamp: &str,
) -> (r: StateSnapshot)
    ensures
        is_snapshot(r, namespace@, name@, *spec, k8s, timestamp@),
        r.trigger.source@ == "bootstrap"@,
        r.trigger.reason@ == "AIResource created"@,
{
    snapshot_of(namespace, name, spec, k8s, "bootstrap", "AIResource created", timestamp)
}

/// The snapshot that an agent gets when its resource asks for something else.
pub fn build_spec_change_snapshot(
    namespace: &str,
    name: &str,
    spec: &AIResourceSpec,
    k8s: K8sState,
    timestamp: &str,
) -> (r: StateSnapshot)
    ensures
        is_snapshot(r, namespace@, name@, *spec, k8s, timestamp@),
        r.trigger.source@ == "spec_change"@,
        r.trigger.reason@ == "AIResource spec updated"@,
{
    snapshot_of(namespace, name, spec, k8s, "spec_change", "AIResource spec updated", timestamp)
}

/// A resource that has an agent is left alone exactly when every field of what it asks for has the
/// value that was seen last; a change of any one of them is told to its agent.
pub proof fn lemma_every_change_is_told(a: AIResourceSpec, b: AIResourceSpec)
    ensures
        reconcile_decision(true, Some(a), b) != ReconcileDecision::Setup,
        reconcile_decision(true, Some(a), b) == ReconcileDecision::Idle <==> {
            &&& a.skill@ == b.skill@
            &&& a.goal@ == b.goal@
            &&& a.image@ == b.image@
            &&& a.resources is Some <==> b.resources is Some
            &&& a.resources is Some ==> {
                let x = a.resources->0;
                let y = b.resources->0;
                &&& x.requests is Some <==> y.requests is Some
                &&& x.requests is Some ==> text::opt(x.requests->0.memory) == text::opt(
                    y.requests->0.memory,
                ) && text::opt(x.requests->0.cpu) == text::opt(y.requests->0.cpu)
                &&& x.limits is Some <==> y.limits is Some
                &&& x.limits is Some ==> text::opt(x.limits->0.memory) == text::opt(
                    y.limits->0.memory,
                ) && text::opt(x.limits->0.cpu) == text::opt(y.limits->0.cpu)
            }
            &&& a.agent is Some <==> b.agent is Some
            &&& a.agent is Some ==> {
                let x = a.agent->0;
                let y = b.agent->0;
                &&& x.enabled == y.enabled
                &&& x.provider@ == y.provider@
                &&& text::opt(x.region) == text::opt(y.region)
                &&& text::opt(x.project_id) == text::opt(y.project_id)
                &&& text::opt(x.model) == text::opt(y.model)
                &&& x.max_iterations == y.max_iterations
                &&& x.pipeline_timeout@ == y.pipeline_timeout@
                &&& x.llm_call_timeout@ == y.llm_call_timeout@
                &&& x.api_key_secret_ref is Some <==> y.api_key_secret_ref is Some
                &&& x.api_key_secret_ref is Some ==> x.api_key_secret_ref->0.name@
                    == y.api_key_secret_ref->0.name@ && x.api_key_secret_ref->0.key@
                    == y.api_key_secret_ref->0.key@
            }
            &&& a.guardrails is Some <==> b.guardrails is Some
            &&& a.guardrails is Some ==> {
                let x = a.guardrails->0;
                let y = b.guardrails->0;
                &&& x.max_replicas == y.max_replicas
                &&& text::opt(x.max_memory) == text::opt(y.max_memory)
                &&& x.denied_commands@.len() == y.denied_commands@.len()
                &&& forall|i: int|
                    0 <= i < x.denied_commands@.len() ==> (#[trigger] x.denied_commands@[i])@
                        == y.denied_commands@[i]@
            }
        },
{
    if a.guardrails is Some && b.guardrails is Some {
        let x = text::views(a.guardrails->0.denied_commands@);
        let y = text::views(b.guardrails->0.denied_commands@);
        if x == y {
            assert(x.len() == y.len());
            assert forall|i: int| 0 <= i < x.len() implies (
            #[trigger] a.guardrails->0.denied_commands@[i])@
                == b.guardrails->0.denied_commands@[i]@ by {
                assert(x[i] == y[i]);
            }
        }
        if a.guardrails->0.denied_commands@.len() == b.guardrails->0.denied_commands@.len()
            && (forall|i: int|
            0 <= i < a.guardrails->0.denied_commands@.len() ==> (
            #[trigger] a.guardrails->0.denied_commands@[i])@
                == b.guardrails->0.denied_commands@[i]@) {
            assert(x =~= y);
        }
    }
}

/// A resource without an agent is set up whatever was seen of it, and one with an agent of which
/// nothing was seen is told.
pub proof fn lemma_new_resources_are_set_up(
    last_seen: Option<AIResourceSpec>,
    spec: AIResourceSpec,
)
    ensures
        reconcile_decision(false, last_seen, spec) == ReconcileDecision::Setup,
        reconcile_decision(true, None, spec) == ReconcileDecision::NotifyChange,
{
}

/// A timeout of `n` seconds is `n`, with or without an `s`; with an `m` it is sixty times that; what
/// is no number is five minutes.
pub proof fn lemma_timeouts_are_counted(n: nat, other: Seq<char>)
    requires
        n <= u64::MAX,
    ensures
        timeout_secs(text::decimal(n)) == n,
        timeout_secs(text::decimal(n) + "s"@) == n,
        timeout_secs(text::decimal(n) + "m"@) == n * 60,
        text::trimmed(other).len() == 0 ==> timeout_secs(other) == 300,
{
    reveal_strlit("s");
    reveal_strlit("m");
    let d = text::decimal(n);
    text::lemma_decimal_parses(n, u64::MAX as nat);
    text::lemma_decimal_is_word(n);
    text::lemma_word_is_trimmed(d);
    text::lemma_word_is_trimmed(d + "s"@);
    text::lemma_word_is_trimmed(d + "m"@);
    assert((d + "s"@).take((d + "s"@).len() - 1) =~= d);
    assert((d + "m"@).take((d + "m"@).len() - 1) =~= d);
    assert((d + "s"@).subrange((d + "s"@).len() - 1, (d + "s"@).len() as int) =~= "s"@);
    assert((d + "m"@).subrange((d + "m"@).len() - 1, (d + "m"@).len() as int) =~= "m"@);
    assert((d + "m"@).last() == 'm');
    assert(text::ends(d + "m"@, "s"@) ==> (d + "m"@).subrange(
        (d + "m"@).len() - 1,
        (d + "m"@).len() as int,
    )[0] == 's');
    assert(text::ends(d, "s"@) ==> d.subrange(d.len() - 1, d.len() as int)[0] == 's');
    assert(text::ends(d, "m"@) ==> d.subrange(d.len() - 1, d.len() as int)[0] == 'm');
    let t = text::trimmed(other);
    if t.len() == 0 {
        assert(!text::all_digits(text::unsigned_part(t)));
    }
}

/// A pod is ready exactly when one of its conditions is `Ready` with the status `True`, at whatever
/// place; the restarts are those of its first container.
pub proof fn lemma_pod_is_told_as_it_is(info: PodInfo, pod: PodFacts)
    requires
        informs(info, pod),
    ensures
        info.ready <==> exists|i: int|
            0 <= i < pod.conditions@.len() && (#[trigger] pod.conditions@[i]).0@ == "Ready"@
                && pod.conditions@[i].1@ == "True"@,
        pod.name matches Some(n) ==> info.name@ == n@,
        pod.name is None ==> info.name@ == ""@,
        pod.phase matches Some(p) ==> info.phase@ == p@,
        pod.phase is None ==> info.phase@ == "Unknown"@,
        pod.restart_counts@.len() == 0 ==> info.restarts == 0,
        pod.restart_counts@.len() > 0 && pod.restart_counts@[0] >= 0 ==> info.restarts
            == pod.restart_counts@[0],
{
}

/// A stateful set is told as it is: the replicas it wants, those that are ready, and the limits of
/// its first container.
pub proof fn lemma_set_is_told_as_it_is(info: StatefulSetInfo, set: StatefulSetFacts)
    requires
        informs_set(info, set),
    ensures
        set.name matches Some(n) ==> info.name@ == n@,
        set.name is None ==> info.name@ == ""@,
        set.replicas matches Some(n) ==> (n >= 0 ==> info.replicas == n),
        set.replicas is None ==> info.replicas == 0,
        set.ready_replicas matches Some(n) ==> (n >= 0 ==> info.ready_replicas == n),
        set.ready_replicas is None ==> info.ready_replicas == 0,
        ({
            let limits = set.container_limits@;
            let has = |key: Seq<char>|
                limits.len() > 0 && limits[0] is Some && limits[0]->0@.contains_key(key);
            &&& info.memory_limit is Some <==> has("memory"@)
            &&& info.memory_limit matches Some(m) ==> m@ == limits[0]->0@["memory"@]@
            &&& info.cpu_limit is Some <==> has("cpu"@)
            &&& info.cpu_limit matches Some(c) ==> c@ == limits[0]->0@["cpu"@]@
        }),
{
}

/// A snapshot names its resource, holds what the resource asks for and the state of the cluster,
/// and has no monitor's output yet.
pub proof fn lemma_snapshot_holds_the_resource(
    s: StateSnapshot,
    namespace: Seq<char>,
    name: Seq<char>,
    spec: AIResourceSpec,
    k8s: K8sState,
    timestamp: Seq<char>,
)
    requires
        is_snapshot(s, namespace, name, spec, k8s, timestamp),
    ensures
        s.resource.name@ == name,
        s.resource.namespace@ == namespace,
        s.resource.skill@ == spec.skill@,
        s.resource.goal@ == spec.goal@,
        s.resource.image@ == spec.image@,
        s.k8s == k8s,
        s.trigger.timestamp@ == timestamp,
        forall|m: Seq<char>| !(#[trigger] s.monitors@.contains_key(m)),
{
}

/// A timeout that has a unit but no number before it is five minutes too.
pub proof fn lemma_timeouts_without_number(other: Seq<char>)
    requires
        text::is_word(other),
        text::parsed_unsigned(other, u64::MAX as nat) is None,
    ensures
        timeout_secs(other + "s"@) == 300,
        timeout_secs(other + "m"@) == 300,
{
    reveal_strlit("s");
    reveal_strlit("m");
    let a = other + "s"@;
    let b = other + "m"@;
    text::lemma_word_is_trimmed(a);
    text::lemma_word_is_trimmed(b);
    assert(a.take(a.len() - 1) =~= other);
    assert(b.take(b.len() - 1) =~= other);
    assert(a.subrange(a.len() - 1, a.len() as int) =~= "s"@);
    assert(b.subrange(b.len() - 1, b.len() as int) =~= "m"@);
    assert(text::ends(b, "s"@) ==> b.subrange(b.len() - 1, b.len() as int)[0] == 's');
}

/// A resource that says nothing of its agent gets five minutes for a pipeline and one for a call of
/// the model, and asks for Vertex AI only where it names that provider.
pub proof fn lemma_settings_of_agents(agent: Option<AgentSpec>)
    ensures
        agent matches Some(a) ==> pipeline_timeout_text(agent) == a.pipeline_timeout@,
        agent matches Some(a) ==> call_timeout_text(agent) == a.llm_call_timeout@,
        agent is None ==> timeout_secs(pipeline_timeout_text(agent)) == 300,
        agent is None ==> timeout_secs(call_timeout_text(agent)) == 60,
        agent matches Some(a) ==> (wants_vertex(agent) <==> a.provider@ == "vertex"@),
        agent is None ==> !wants_vertex(agent),
        REQUEUE_SECS == 10,
        ERROR_REQUEUE_SECS == 30,
        AGENT_TIMEOUT_SECS == 300,
{
    lemma_default_timeouts();
}

} // verus!
