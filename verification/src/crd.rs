//! The declared resource: what it asks for and what is reported of it.
use vstd::prelude::*;
use crate::json::JsonObject;
use crate::text;

verus! {

/// A key within a secret.
#[derive(Debug)]
pub struct SecretKeyRef {
    pub name: String,
    pub key: String,
}

/// An amount of memory and of processor time.
#[derive(Debug)]
pub struct ResourceSpec {
    pub memory: Option<String>,
    pub cpu: Option<String>,
}

/// What a workload requests and what it is limited to.
#[derive(Debug)]
pub struct ResourceRequirements {
    pub requests: Option<ResourceSpec>,
    pub limits: Option<ResourceSpec>,
}

/// The settings of the agent of a resource.
#[derive(Debug)]
pub struct AgentSpec {
    pub enabled: bool,
    pub provider: String,
    pub region: Option<String>,
    pub project_id: Option<String>,
    pub model: Option<String>,
    pub max_iterations: u32,
    pub pipeline_timeout: String,
    pub llm_call_timeout: String,
    pub api_key_secret_ref: Option<SecretKeyRef>,
}

/// Whether agents are enabled where a resource does not say.
pub fn default_agent_enabled() -> (r: bool)
    ensures
        r,
{
    true
}

/// The provider where a resource does not say.
pub fn default_provider() -> (r: String)
    ensures
        r@ == "anthropic"@,
{
    "anthropic".to_string()
}

/// The turns of a run where a resource does not say.
pub fn default_max_iterations() -> (r: u32)
    ensures
        r == 30,
{
    30
}

/// The time of a pipeline where a resource does not say.
pub fn default_pipeline_timeout() -> (r: String)
    ensures
        r@ == "300s"@,
{
    "300s".to_string()
}

/// The time of a call of the model where a resource does not say.
pub fn default_llm_call_timeout() -> (r: String)
    ensures
        r@ == "60s"@,
{
    "60s".to_string()
}

impl Default for AgentSpec {
    fn default() -> (r: Self)
        ensures
            r.enabled,
            r.provider@ == "anthropic"@,
            r.region is None,
            r.project_id is None,
            r.model is None,
            r.max_iterations == 30,
            r.pipeline_timeout@ == "300s"@,
            r.llm_call_timeout@ == "60s"@,
            r.api_key_secret_ref is None,
    {
        AgentSpec {
            enabled: default_agent_enabled(),
            provider: default_provider(),
            region: None,
            project_id: None,
            model: None,
            max_iterations: default_max_iterations(),
            pipeline_timeout: default_pipeline_timeout(),
            llm_call_timeout: default_llm_call_timeout(),
            api_key_secret_ref: None,
        }
    }
}

/// What the agent may not exceed.
#[derive(Debug)]
pub struct GuardrailSpec {
    pub max_replicas: Option<u32>,
    pub max_memory: Option<String>,
    pub denied_commands: Vec<String>,
}

/// What a resource asks for.
#[derive(Debug)]
pub struct AIResourceSpec {
    pub skill: String,
    pub goal: String,
    pub image: String,
    pub resources: Option<ResourceRequirements>,
    pub agent: Option<AgentSpec>,
    pub guardrails: Option<GuardrailSpec>,
}

/// The phase of a resource.
#[derive(Debug, Clone, Copy, PartialEq, Eq, Structural)]
pub enum ResourcePhase {
    Pending,
    Initializing,
    Running,
    Healing,
    Failed,
}

/// The name of a phase.
pub open spec fn phase_name(p: ResourcePhase) -> Seq<char> {
    match p {
        ResourcePhase::Pending => "Pending"@,
        ResourcePhase::Initializing => "Initializing"@,
        ResourcePhase::Running => "Running"@,
        ResourcePhase::Healing => "Healing"@,
        ResourcePhase::Failed => "Failed"@,
    }
}

impl ResourcePhase {
    /// The name of the phase.
    pub fn as_str(&self) -> (r: &'static str)
        ensures
            r@ == phase_name(*self),
    {
        match self {
            ResourcePhase::Pending => "Pending",
            ResourcePhase::Initializing => "Initializing",
            ResourcePhase::Running => "Running",
            ResourcePhase::Healing => "Healing",
            ResourcePhase::Failed => "Failed",
        }
    }
}

/// A condition of a resource.
#[derive(Debug)]
pub struct ResourceCondition {
    pub condition_type: String,
    pub status: String,
    pub reason: Option<String>,
    pub message: Option<String>,
}

/// What is reported of a resource.
pub struct AIResourceStatus {
    pub phase: Option<ResourcePhase>,
    pub message: Option<String>,
    pub last_agent_action: Option<String>,
    pub last_agent_action_time: Option<String>,
    pub monitor_state: Option<JsonObject>,
    pub conditions: Vec<ResourceCondition>,
}

// ---------------------------------------------------------------------------
// Equality of what is asked for
// ---------------------------------------------------------------------------
/// Whether two references are the same.
pub open spec fn same_ref(a: Option<SecretKeyRef>, b: Option<SecretKeyRef>) -> bool {
    match (a, b) {
        (Some(x), Some(y)) => x.name@ == y.name@ && x.key@ == y.key@,
        (None, None) => true,
        _ => false,
    }
}

/// Whether two amounts are the same.
pub open spec fn same_amount(a: Option<ResourceSpec>, b: Option<ResourceSpec>) -> bool {
    match (a, b) {
        (Some(x), Some(y)) => text::opt(x.memory) == text::opt(y.memory) && text::opt(x.cpu)
            == text::opt(y.cpu),
        (None, None) => true,
        _ => false,
    }
}

/// Whether two requirements are the same.
pub open spec fn same_requirements(
    a: Option<ResourceRequirements>,
    b: Option<ResourceRequirements>,
) -> bool {
    match (a, b) {
        (Some(x), Some(y)) => same_amount(x.requests, y.requests) && same_amount(
            x.limits,
            y.limits,
        ),
        (None, None) => true,
        _ => false,
    }
}

/// Whether two settings of an agent are the same.
pub open spec fn same_agent(a: Option<AgentSpec>, b: Option<AgentSpec>) -> bool {
    match (a, b) {
        (Some(x), Some(y)) => {
            &&& x.enabled == y.enabled
            &&& x.provider@ == y.provider@
            &&& text::opt(x.region) == text::opt(y.region)
            &&& text::opt(x.project_id) == text::opt(y.project_id)
            &&& text::opt(x.model) == text::opt(y.model)
            &&& x.max_iterations == y.max_iterations
            &&& x.pipeline_timeout@ == y.pipeline_timeout@
            &&& x.llm_call_timeout@ == y.llm_call_timeout@
            &&& same_ref(x.api_key_secret_ref, y.api_key_secret_ref)
        },
        (None, None) => true,
        _ => false,
    }
}

/// Whether two guardrails are the same.
pub open spec fn same_guardrails(a: Option<GuardrailSpec>, b: Option<GuardrailSpec>) -> bool {
    match (a, b) {
        (Some(x), Some(y)) => x.max_replicas == y.max_replicas && text::opt(x.max_memory)
            == text::opt(y.max_memory) && text::views(x.denied_commands@) == text::views(
            y.denied_commands@,
        ),
        (None, None) => true,
        _ => false,
    }
}

/// Whether two resources ask for the same.
pub open spec fn same_spec(a: AIResourceSpec, b: AIResourceSpec) -> bool {
    &&& a.skill@ == b.skill@
    &&& a.goal@ == b.goal@
    &&& a.image@ == b.image@
    &&& same_requirements(a.resources, b.resources)
    &&& same_agent(a.agent, b.agent)
    &&& same_guardrails(a.guardrails, b.guardrails)
}

fn eq_refs(a: &Option<SecretKeyRef>, b: &Option<SecretKeyRef>) -> (r: bool)
    ensures
        r == same_ref(*a, *b),
{
    match (a, b) {
        (Some(x), Some(y)) => text::same(x.name.as_str(), y.name.as_str()) && text::same(
            x.key.as_str(),
            y.key.as_str(),
        ),
        (None, None) => true,
        _ => false,
    }
}

fn eq_amounts(a: &Option<ResourceSpec>, b: &Option<ResourceSpec>) -> (r: bool)
    ensures
        r == same_amount(*a, *b),
{
    match (a, b) {
        (Some(x), Some(y)) => text::same_opt(&x.memory, &y.memory) && text::same_opt(
            &x.cpu,
            &y.cpu,
        ),
        (None, None) => true,
        _ => false,
    }
}

fn eq_requirements(a: &Option<ResourceRequirements>, b: &Option<ResourceRequirements>) -> (r: bool)
    ensures
        r == same_requirements(*a, *b),
{
    match (a, b) {
        (Some(x), Some(y)) => eq_amounts(&x.requests, &y.requests) && eq_amounts(
            &x.limits,
            &y.limits,
        ),
        (None, None) => true,
        _ => false,
    }
}

fn eq_agents(a: &Option<AgentSpec>, b: &Option<AgentSpec>) -> (r: bool)
    ensures
        r == same_agent(*a, *b),
{
    match (a, b) {
        (Some(x), Some(y)) => x.enabled == y.enabled && text::same(
            x.provider.as_str(),
            y.provider.as_str(),
        ) && text::same_opt(&x.region, &y.region) && text::same_opt(&x.project_id, &y.project_id)
            && text::same_opt(&x.model, &y.model) && x.max_iterations == y.max_iterations
            && text::same(x.pipeline_timeout.as_str(), y.pipeline_timeout.as_str()) && text::same(
            x.llm_call_timeout.as_str(),
            y.llm_call_timeout.as_str(),
        ) && eq_refs(&x.api_key_secret_ref, &y.api_key_secret_ref),
        (None, None) => true,
        _ => false,
    }
}

/// Copies guardrails.
pub fn copy_guardrails(g: &Option<GuardrailSpec>) -> (r: Option<GuardrailSpec>)
    ensures
        same_guardrails(r, *g),
{
    match g {
        Some(g) => Some(
            GuardrailSpec {
                max_replicas: g.max_replicas,
                max_memory: text::copy_opt(&g.max_memory),
                denied_commands: text::copy_all(&g.denied_commands),
            },
        ),
        None => None,
    }
}

fn eq_guardrails(a: &Option<GuardrailSpec>, b: &Option<GuardrailSpec>) -> (r: bool)
    ensures
        r == same_guardrails(*a, *b),
{
    match (a, b) {
        (Some(x), Some(y)) => x.max_replicas == y.max_replicas && text::same_opt(
            &x.max_memory,
            &y.max_memory,
        ) && text::same_all(&x.denied_commands, &y.denied_commands),
        (None, None) => true,
        _ => false,
    }
}

/// Tells whether two resources ask for the same.
pub fn specs_equal(a: &AIResourceSpec, b: &AIResourceSpec) -> (r: bool)
    ensures
        r == same_spec(*a, *b),
{
    text::same(a.skill.as_str(), b.skill.as_str()) && text::same(a.goal.as_str(), b.goal.as_str())
        && text::same(a.image.as_str(), b.image.as_str()) && eq_requirements(
        &a.resources,
        &b.resources,
    ) && eq_agents(&a.agent, &b.agent) && eq_guardrails(&a.guardrails, &b.guardrails)
}

} // verus!
