//! The tools of the agents, and which of them an agent gets.
use std::sync::Arc;
use vstd::prelude::*;
use crate::agent::tool::{Tool, ToolSafety};
use crate::crd::GuardrailSpec;
use crate::crd;
use crate::json::{Json, JsonView};
use crate::skill::types::LoadedSkill;
use crate::text;

pub mod desired_state;
pub mod fs;
pub mod helm;
pub mod k8s;
pub mod runtime;
pub mod schema;
pub mod state;
pub mod template;
pub mod valkey;

verus! {

/// A kind of tool that an agent can have.
#[derive(Debug, Clone, Copy, PartialEq, Eq, Structural)]
pub enum ToolKind {
    GetState,
    UpdateStatus,
    GetPodLogs,
    GetEvents,
    WaitForReady,
    KubectlDescribe,
    KubectlGet,
    KubectlScale,
    KubectlPatch,
    KubectlExec,
    RunAction,
    ApplyTemplate,
    HelmInstall,
    HelmUpgrade,
    HelmStatus,
    HelmGetValues,
    HelmShowValues,
}

/// A tool that an agent can have.
pub enum AnyTool {
    GetState(state::GetState),
    UpdateStatus(state::UpdateStatus),
    GetPodLogs(k8s::GetPodLogs),
    GetEvents(k8s::GetEvents),
    WaitForReady(k8s::WaitForReady),
    KubectlDescribe(k8s::KubectlDescribe),
    KubectlGet(k8s::KubectlGet),
    KubectlScale(k8s::KubectlScale),
    KubectlPatch(k8s::KubectlPatch),
    KubectlExec(k8s::KubectlExec),
    RunAction(runtime::RunAction),
    ApplyTemplate(runtime::ApplyTemplate),
    HelmInstall(helm::HelmInstall),
    HelmUpgrade(helm::HelmUpgrade),
    HelmStatus(helm::HelmStatus),
    HelmGetValues(helm::HelmGetValues),
    HelmShowValues(helm::HelmShowValues),
}

/// The kind of a tool.
pub open spec fn kind_of(tool: AnyTool) -> ToolKind {
    match tool {
        AnyTool::GetState(_) => ToolKind::GetState,
        AnyTool::UpdateStatus(_) => ToolKind::UpdateStatus,
        AnyTool::GetPodLogs(_) => ToolKind::GetPodLogs,
        AnyTool::GetEvents(_) => ToolKind::GetEvents,
        AnyTool::WaitForReady(_) => ToolKind::WaitForReady,
        AnyTool::KubectlDescribe(_) => ToolKind::KubectlDescribe,
        AnyTool::KubectlGet(_) => ToolKind::KubectlGet,
        AnyTool::KubectlScale(_) => ToolKind::KubectlScale,
        AnyTool::KubectlPatch(_) => ToolKind::KubectlPatch,
        AnyTool::KubectlExec(_) => ToolKind::KubectlExec,
        AnyTool::RunAction(_) => ToolKind::RunAction,
        AnyTool::ApplyTemplate(_) => ToolKind::ApplyTemplate,
        AnyTool::HelmInstall(_) => ToolKind::HelmInstall,
        AnyTool::HelmUpgrade(_) => ToolKind::HelmUpgrade,
        AnyTool::HelmStatus(_) => ToolKind::HelmStatus,
        AnyTool::HelmGetValues(_) => ToolKind::HelmGetValues,
        AnyTool::HelmShowValues(_) => ToolKind::HelmShowValues,
    }
}

/// The name that the tools of a kind have.
pub open spec fn kind_name(kind: ToolKind) -> Seq<char> {
    match kind {
        ToolKind::GetState => "get_state"@,
        ToolKind::UpdateStatus => "update_status"@,
        ToolKind::GetPodLogs => "get_pod_logs"@,
        ToolKind::GetEvents => "get_events"@,
        ToolKind::WaitForReady => "wait_for_ready"@,
        ToolKind::KubectlDescribe => "kubectl_describe"@,
        ToolKind::KubectlGet => "kubectl_get"@,
        ToolKind::KubectlScale => "kubectl_scale"@,
        ToolKind::KubectlPatch => "kubectl_patch"@,
        ToolKind::KubectlExec => "kubectl_exec"@,
        ToolKind::RunAction => "run_action"@,
        ToolKind::ApplyTemplate => "apply_template"@,
        ToolKind::HelmInstall => "helm_install"@,
        ToolKind::HelmUpgrade => "helm_upgrade"@,
        ToolKind::HelmStatus => "helm_status"@,
        ToolKind::HelmGetValues => "helm_get_values"@,
        ToolKind::HelmShowValues => "helm_show_values"@,
    }
}

impl ToolKind {
    /// The name that the tools of the kind have.
    pub fn name(&self) -> (r: &'static str)
        ensures
            r@ == kind_name(*self),
    {
        match self {
            ToolKind::GetState => "get_state",
            ToolKind::UpdateStatus => "update_status",
            ToolKind::GetPodLogs => "get_pod_logs",
            ToolKind::GetEvents => "get_events",
            ToolKind::WaitForReady => "wait_for_ready",
            ToolKind::KubectlDescribe => "kubectl_describe",
            ToolKind::KubectlGet => "kubectl_get",
            ToolKind::KubectlScale => "kubectl_scale",
            ToolKind::KubectlPatch => "kubectl_patch",
            ToolKind::KubectlExec => "kubectl_exec",
            ToolKind::RunAction => "run_action",
            ToolKind::ApplyTemplate => "apply_template",
            ToolKind::HelmInstall => "helm_install",
            ToolKind::HelmUpgrade => "helm_upgrade",
            ToolKind::HelmStatus => "helm_status",
            ToolKind::HelmGetValues => "helm_get_values",
            ToolKind::HelmShowValues => "helm_show_values",
        }
    }
}

impl Tool for AnyTool {
    open spec fn tool_name(&self) -> Seq<char> {
        match self {
            AnyTool::GetState(t) => t.tool_name(),
            AnyTool::UpdateStatus(t) => t.tool_name(),
            AnyTool::GetPodLogs(t) => t.tool_name(),
            AnyTool::GetEvents(t) => t.tool_name(),
            AnyTool::WaitForReady(t) => t.tool_name(),
            AnyTool::KubectlDescribe(t) => t.tool_name(),
            AnyTool::KubectlGet(t) => t.tool_name(),
            AnyTool::KubectlScale(t) => t.tool_name(),
            AnyTool::KubectlPatch(t) => t.tool_name(),
            AnyTool::KubectlExec(t) => t.tool_name(),
            AnyTool::RunAction(t) => t.tool_name(),
            AnyTool::ApplyTemplate(t) => t.tool_name(),
            AnyTool::HelmInstall(t) => t.tool_name(),
            AnyTool::HelmUpgrade(t) => t.tool_name(),
            AnyTool::HelmStatus(t) => t.tool_name(),
            AnyTool::HelmGetValues(t) => t.tool_name(),
            AnyTool::HelmShowValues(t) => t.tool_name(),
        }
    }

    open spec fn tool_description(&self) -> Seq<char> {
        match self {
            AnyTool::GetState(t) => t.tool_description(),
            AnyTool::UpdateStatus(t) => t.tool_description(),
            AnyTool::GetPodLogs(t) => t.tool_description(),
            AnyTool::GetEvents(t) => t.tool_description(),
            AnyTool::WaitForReady(t) => t.tool_description(),
            AnyTool::KubectlDescribe(t) => t.tool_description(),
            AnyTool::KubectlGet(t) => t.tool_description(),
            AnyTool::KubectlScale(t) => t.tool_description(),
            AnyTool::KubectlPatch(t) => t.tool_description(),
            AnyTool::KubectlExec(t) => t.tool_description(),
            AnyTool::RunAction(t) => t.tool_description(),
            AnyTool::ApplyTemplate(t) => t.tool_description(),
            AnyTool::HelmInstall(t) => t.tool_description(),
            AnyTool::HelmUpgrade(t) => t.tool_description(),
            AnyTool::HelmStatus(t) => t.tool_description(),
            AnyTool::HelmGetValues(t) => t.tool_description(),
            AnyTool::HelmShowValues(t) => t.tool_description(),
        }
    }

    open spec fn tool_schema(&self) -> JsonView {
        match self {
            AnyTool::GetState(t) => t.tool_schema(),
            AnyTool::UpdateStatus(t) => t.tool_schema(),
            AnyTool::GetPodLogs(t) => t.tool_schema(),
            AnyTool::GetEvents(t) => t.tool_schema(),
            AnyTool::WaitForReady(t) => t.tool_schema(),
            AnyTool::KubectlDescribe(t) => t.tool_schema(),
            AnyTool::KubectlGet(t) => t.tool_schema(),
            AnyTool::KubectlScale(t) => t.tool_schema(),
            AnyTool::KubectlPatch(t) => t.tool_schema(),
            AnyTool::KubectlExec(t) => t.tool_schema(),
            AnyTool::RunAction(t) => t.tool_schema(),
            AnyTool::ApplyTemplate(t) => t.tool_schema(),
            AnyTool::HelmInstall(t) => t.tool_schema(),
            AnyTool::HelmUpgrade(t) => t.tool_schema(),
            AnyTool::HelmStatus(t) => t.tool_schema(),
            AnyTool::HelmGetValues(t) => t.tool_schema(),
            AnyTool::HelmShowValues(t) => t.tool_schema(),
        }
    }

    open spec fn tool_safety(&self) -> ToolSafety {
        match self {
            AnyTool::GetState(t) => t.tool_safety(),
            AnyTool::UpdateStatus(t) => t.tool_safety(),
            AnyTool::GetPodLogs(t) => t.tool_safety(),
            AnyTool::GetEvents(t) => t.tool_safety(),
            AnyTool::WaitForReady(t) => t.tool_safety(),
            AnyTool::KubectlDescribe(t) => t.tool_safety(),
            AnyTool::KubectlGet(t) => t.tool_safety(),
            AnyTool::KubectlScale(t) => t.tool_safety(),
            AnyTool::KubectlPatch(t) => t.tool_safety(),
            AnyTool::KubectlExec(t) => t.tool_safety(),
            AnyTool::RunAction(t) => t.tool_safety(),
            AnyTool::ApplyTemplate(t) => t.tool_safety(),
            AnyTool::HelmInstall(t) => t.tool_safety(),
            AnyTool::HelmUpgrade(t) => t.tool_safety(),
            AnyTool::HelmStatus(t) => t.tool_safety(),
            AnyTool::HelmGetValues(t) => t.tool_safety(),
            AnyTool::HelmShowValues(t) => t.tool_safety(),
        }
    }

    fn name(&self) -> &str {
        match self {
            AnyTool::GetState(t) => t.name(),
            AnyTool::UpdateStatus(t) => t.name(),
            AnyTool::GetPodLogs(t) => t.name(),
            AnyTool::GetEvents(t) => t.name(),
            AnyTool::WaitForReady(t) => t.name(),
            AnyTool::KubectlDescribe(t) => t.name(),
            AnyTool::KubectlGet(t) => t.name(),
            AnyTool::KubectlScale(t) => t.name(),
            AnyTool::KubectlPatch(t) => t.name(),
            AnyTool::KubectlExec(t) => t.name(),
            AnyTool::RunAction(t) => t.name(),
            AnyTool::ApplyTemplate(t) => t.name(),
            AnyTool::HelmInstall(t) => t.name(),
            AnyTool::HelmUpgrade(t) => t.name(),
            AnyTool::HelmStatus(t) => t.name(),
            AnyTool::HelmGetValues(t) => t.name(),
            AnyTool::HelmShowValues(t) => t.name(),
        }
    }

    fn description(&self) -> &str {
        match self {
            AnyTool::GetState(t) => t.description(),
            AnyTool::UpdateStatus(t) => t.description(),
            AnyTool::GetPodLogs(t) => t.description(),
            AnyTool::GetEvents(t) => t.description(),
            AnyTool::WaitForReady(t) => t.description(),
            AnyTool::KubectlDescribe(t) => t.description(),
            AnyTool::KubectlGet(t) => t.description(),
            AnyTool::KubectlScale(t) => t.description(),
            AnyTool::KubectlPatch(t) => t.description(),
            AnyTool::KubectlExec(t) => t.description(),
            AnyTool::RunAction(t) => t.description(),
            AnyTool::ApplyTemplate(t) => t.description(),
            AnyTool::HelmInstall(t) => t.description(),
            AnyTool::HelmUpgrade(t) => t.description(),
            AnyTool::HelmStatus(t) => t.description(),
            AnyTool::HelmGetValues(t) => t.description(),
            AnyTool::HelmShowValues(t) => t.description(),
        }
    }

    fn parameters_schema(&self) -> Json {
        match self {
            AnyTool::GetState(t) => t.parameters_schema(),
            AnyTool::UpdateStatus(t) => t.parameters_schema(),
            AnyTool::GetPodLogs(t) => t.parameters_schema(),
            AnyTool::GetEvents(t) => t.parameters_schema(),
            AnyTool::WaitForReady(t) => t.parameters_schema(),
            AnyTool::KubectlDescribe(t) => t.parameters_schema(),
            AnyTool::KubectlGet(t) => t.parameters_schema(),
            AnyTool::KubectlScale(t) => t.parameters_schema(),
            AnyTool::KubectlPatch(t) => t.parameters_schema(),
            AnyTool::KubectlExec(t) => t.parameters_schema(),
            AnyTool::RunAction(t) => t.parameters_schema(),
            AnyTool::ApplyTemplate(t) => t.parameters_schema(),
            AnyTool::HelmInstall(t) => t.parameters_schema(),
            AnyTool::HelmUpgrade(t) => t.parameters_schema(),
            AnyTool::HelmStatus(t) => t.parameters_schema(),
            AnyTool::HelmGetValues(t) => t.parameters_schema(),
            AnyTool::HelmShowValues(t) => t.parameters_schema(),
        }
    }

    fn safety(&self) -> ToolSafety {
        match self {
            AnyTool::GetState(t) => t.safety(),
            AnyTool::UpdateStatus(t) => t.safety(),
            AnyTool::GetPodLogs(t) => t.safety(),
            AnyTool::GetEvents(t) => t.safety(),
            AnyTool::WaitForReady(t) => t.safety(),
            AnyTool::KubectlDescribe(t) => t.safety(),
            AnyTool::KubectlGet(t) => t.safety(),
            AnyTool::KubectlScale(t) => t.safety(),
            AnyTool::KubectlPatch(t) => t.safety(),
            AnyTool::KubectlExec(t) => t.safety(),
            AnyTool::RunAction(t) => t.safety(),
            AnyTool::ApplyTemplate(t) => t.safety(),
            AnyTool::HelmInstall(t) => t.safety(),
            AnyTool::HelmUpgrade(t) => t.safety(),
            AnyTool::HelmStatus(t) => t.safety(),
            AnyTool::HelmGetValues(t) => t.safety(),
            AnyTool::HelmShowValues(t) => t.safety(),
        }
    }
}

impl AnyTool {
    /// The kind of the tool.
    pub fn kind(&self) -> (r: ToolKind)
        ensures
            r == kind_of(*self),
    {
        match self {
            AnyTool::GetState(_) => ToolKind::GetState,
            AnyTool::UpdateStatus(_) => ToolKind::UpdateStatus,
            AnyTool::GetPodLogs(_) => ToolKind::GetPodLogs,
            AnyTool::GetEvents(_) => ToolKind::GetEvents,
            AnyTool::WaitForReady(_) => ToolKind::WaitForReady,
            AnyTool::KubectlDescribe(_) => ToolKind::KubectlDescribe,
            AnyTool::KubectlGet(_) => ToolKind::KubectlGet,
            AnyTool::KubectlScale(_) => ToolKind::KubectlScale,
            AnyTool::KubectlPatch(_) => ToolKind::KubectlPatch,
            AnyTool::KubectlExec(_) => ToolKind::KubectlExec,
            AnyTool::RunAction(_) => ToolKind::RunAction,
            AnyTool::ApplyTemplate(_) => ToolKind::ApplyTemplate,
            AnyTool::HelmInstall(_) => ToolKind::HelmInstall,
            AnyTool::HelmUpgrade(_) => ToolKind::HelmUpgrade,
            AnyTool::HelmStatus(_) => ToolKind::HelmStatus,
            AnyTool::HelmGetValues(_) => ToolKind::HelmGetValues,
            AnyTool::HelmShowValues(_) => ToolKind::HelmShowValues,
        }
    }
}

/// Every tool has the name of its kind.
pub proof fn lemma_tools_are_named(tool: AnyTool)
    ensures
        tool.tool_name() == kind_name(kind_of(tool)),
{
}

/// The kinds of tools that an agent in a role has, before the skill narrows them down.
pub open spec fn role_kinds(role: Seq<char>) -> Seq<ToolKind> {
    if role == "planner"@ || role == "simulator"@ {
        seq![
            ToolKind::GetState,
            ToolKind::GetEvents,
            ToolKind::KubectlDescribe,
            ToolKind::KubectlGet,
            ToolKind::HelmStatus,
            ToolKind::HelmGetValues,
            ToolKind::HelmShowValues,
        ]
    } else if role == "executor"@ {
        seq![
            ToolKind::RunAction,
            ToolKind::ApplyTemplate,
            ToolKind::GetState,
            ToolKind::UpdateStatus,
            ToolKind::GetPodLogs,
            ToolKind::WaitForReady,
            ToolKind::GetEvents,
            ToolKind::KubectlDescribe,
            ToolKind::KubectlGet,
            ToolKind::KubectlScale,
            ToolKind::KubectlPatch,
            ToolKind::KubectlExec,
            ToolKind::HelmInstall,
            ToolKind::HelmUpgrade,
            ToolKind::HelmStatus,
            ToolKind::HelmGetValues,
            ToolKind::HelmShowValues,
        ]
    } else if role == "verifier"@ {
        seq![
            ToolKind::GetState,
            ToolKind::UpdateStatus,
            ToolKind::GetEvents,
            ToolKind::KubectlDescribe,
            ToolKind::KubectlGet,
            ToolKind::GetPodLogs,
            ToolKind::HelmStatus,
            ToolKind::HelmGetValues,
        ]
    } else {
        seq![]
    }
}

/// Whether a skill's list of tools, separated by commas, holds a name. A skill without a list
/// allows all.
pub open spec fn allows(list: Option<Seq<char>>, name: Seq<char>) -> bool {
    match list {
        Some(l) => lists(text::pieces(l, ","@), text::pieces(l, ","@).len() as int, name),
        None => true,
    }
}

/// Whether one of the first `n` parts, without the white space around it, is a name.
pub open spec fn lists(parts: Seq<Seq<char>>, n: int, name: Seq<char>) -> bool {
    exists|i: int| 0 <= i < n && text::trimmed(#[trigger] parts[i]) == name
}

/// Those of the first `n` kinds that a list allows, in order.
pub open spec fn allowed_kinds(kinds: Seq<ToolKind>, n: int, list: Option<Seq<char>>) -> Seq<
    ToolKind,
>
    decreases n,
{
    if n <= 0 {
        seq![]
    } else if allows(list, kind_name(kinds[n - 1])) {
        allowed_kinds(kinds, n - 1, list).push(kinds[n - 1])
    } else {
        allowed_kinds(kinds, n - 1, list)
    }
}

/// The kinds of tools.
pub open spec fn kinds(tools: Seq<AnyTool>) -> Seq<ToolKind> {
    tools.map_values(|t: AnyTool| kind_of(t))
}

/// The commands that guardrails deny.
pub open spec fn denied_by(guardrails: Option<GuardrailSpec>) -> Seq<Seq<char>> {
    match guardrails {
        Some(g) => text::views(g.denied_commands@),
        None => seq![],
    }
}

/// What tools are made for: a resource, its skill and its guardrails.
pub struct ToolSetup {
    pub skill: Arc<LoadedSkill>,
    pub resource_name: String,
    pub resource_namespace: String,
    pub image: String,
    pub goal: String,
    pub guardrails: Option<GuardrailSpec>,
}

/// Whether a tool is made for a resource: it works in its namespace, on it, and under its
/// guardrails.
pub open spec fn is_made_for(tool: AnyTool, s: ToolSetup) -> bool {
    let ns = s.resource_namespace@;
    let name = s.resource_name@;
    match tool {
        AnyTool::GetState(t) => t.namespace@ == ns && t.resource_name@ == name && t.skill_name@
            == s.skill.config.name@ && t.goal@ == s.goal@ && t.image@ == s.image@,
        AnyTool::UpdateStatus(t) => t.namespace@ == ns && t.resource_name@ == name,
        AnyTool::GetPodLogs(t) => t.namespace@ == ns,
        AnyTool::GetEvents(t) => t.namespace@ == ns && t.resource_name@ == name,
        AnyTool::WaitForReady(t) => t.namespace@ == ns && t.resource_name@ == name,
        AnyTool::KubectlDescribe(t) => t.namespace@ == ns,
        AnyTool::KubectlGet(t) => t.namespace@ == ns,
        AnyTool::KubectlScale(t) => t.namespace@ == ns && crd::same_guardrails(
            t.guardrails,
            s.guardrails,
        ),
        AnyTool::KubectlPatch(t) => t.namespace@ == ns && crd::same_guardrails(
            t.guardrails,
            s.guardrails,
        ),
        AnyTool::KubectlExec(t) => t.namespace@ == ns && text::views(t.denied_commands@)
            == denied_by(s.guardrails),
        AnyTool::RunAction(t) => t.skill == s.skill && t.namespace@ == ns && t.resource_name@
            == name && text::views(t.denied_commands@) == denied_by(s.guardrails),
        AnyTool::ApplyTemplate(t) => t.skill == s.skill && t.namespace@ == ns && t.resource_name@
            == name && t.image@ == s.image@,
        AnyTool::HelmInstall(t) => t.namespace@ == ns,
        AnyTool::HelmUpgrade(t) => t.namespace@ == ns,
        AnyTool::HelmStatus(t) => t.namespace@ == ns,
        AnyTool::HelmGetValues(t) => t.namespace@ == ns,
        AnyTool::HelmShowValues(t) => true,
    }
}

fn list_role_kinds(role: &str) -> (r: Vec<ToolKind>)
    ensures
        r@ == role_kinds(role@),
{
    let list: Vec<ToolKind> = if text::same(role, "planner") || text::same(role, "simulator") {
        vec![
            ToolKind::GetState,
            ToolKind::GetEvents,
            ToolKind::KubectlDescribe,
            ToolKind::KubectlGet,
            ToolKind::HelmStatus,
            ToolKind::HelmGetValues,
            ToolKind::HelmShowValues,
        ]
    } else if text::same(role, "executor") {
        vec![
            ToolKind::RunAction,
            ToolKind::ApplyTemplate,
            ToolKind::GetState,
            ToolKind::UpdateStatus,
            ToolKind::GetPodLogs,
            ToolKind::WaitForReady,
            ToolKind::GetEvents,
            ToolKind::KubectlDescribe,
            ToolKind::KubectlGet,
            ToolKind::KubectlScale,
            ToolKind::KubectlPatch,
            ToolKind::KubectlExec,
            ToolKind::HelmInstall,
            ToolKind::HelmUpgrade,
            ToolKind::HelmStatus,
            ToolKind::HelmGetValues,
            ToolKind::HelmShowValues,
        ]
    } else if text::same(role, "verifier") {
        vec![
            ToolKind::GetState,
            ToolKind::UpdateStatus,
            ToolKind::GetEvents,
            ToolKind::KubectlDescribe,
            ToolKind::KubectlGet,
            ToolKind::GetPodLogs,
            ToolKind::HelmStatus,
            ToolKind::HelmGetValues,
        ]
    } else {
        Vec::new()
    };
    assert(list@ =~= role_kinds(role@));
    list
}

fn is_allowed(list: &Option<String>, name: &str) -> (r: bool)
    ensures
        r == allows(text::opt(*list), name@),
{
    let l = match list {
        Some(l) => l,
        None => {
            return true;
        },
    };
    proof {
        reveal_strlit(",");
    }
    let parts = text::split(l.as_str(), ",");
    let ghost views = text::pieces(l@, ","@);
    let mut i: usize = 0;
    while i < parts.len()
        invariant
            i <= parts@.len(),
            text::views(parts@) == views,
            views == text::pieces(l@, ","@),
            list == Some(*l),
            !lists(views, i as int, name@),
        decreases parts@.len() - i,
    {
        assert(views[i as int] == parts@[i as int]@);
        if text::same(text::trim(parts[i].as_str()).as_str(), name) {
            return true;
        }
        i = i + 1;
    }
    assert(views.len() == parts@.len());
    false
}

fn copy_denied(guardrails: &Option<GuardrailSpec>) -> (r: Vec<String>)
    ensures
        text::views(r@) == denied_by(*guardrails),
{
    match guardrails {
        Some(g) => text::copy_all(&g.denied_commands),
        None => {
            let none: Vec<String> = Vec::new();
            assert(text::views(none@) =~= seq![]);
            none
        },
    }
}

fn make_tool(kind: ToolKind, s: &ToolSetup) -> (r: AnyTool)
    ensures
        kind_of(r) == kind,
        is_made_for(r, *s),
{
    let ns = s.resource_namespace.as_str();
    let name = s.resource_name.as_str();
    match kind {
        ToolKind::GetState => AnyTool::GetState(
            state::GetState::new(
                ns,
                name,
                s.skill.config.name.as_str(),
                s.goal.as_str(),
                s.image.as_str(),
            ),
        ),
        ToolKind::UpdateStatus => AnyTool::UpdateStatus(state::UpdateStatus::new(ns, name)),
        ToolKind::GetPodLogs => AnyTool::GetPodLogs(k8s::GetPodLogs::new(ns)),
        ToolKind::GetEvents => AnyTool::GetEvents(k8s::GetEvents::new(ns, name)),
        ToolKind::WaitForReady => AnyTool::WaitForReady(k8s::WaitForReady::new(ns, name)),
        ToolKind::KubectlDescribe => AnyTool::KubectlDescribe(k8s::KubectlDescribe::new(ns)),
        ToolKind::KubectlGet => AnyTool::KubectlGet(k8s::KubectlGet::new(ns)),
        ToolKind::KubectlScale => AnyTool::KubectlScale(
            k8s::KubectlScale::new(ns, crd::copy_guardrails(&s.guardrails)),
        ),
        ToolKind::KubectlPatch => AnyTool::KubectlPatch(
            k8s::KubectlPatch::new(ns, crd::copy_guardrails(&s.guardrails)),
        ),
        ToolKind::KubectlExec => AnyTool::KubectlExec(
            k8s::KubectlExec::new(ns, copy_denied(&s.guardrails)),
        ),
        ToolKind::RunAction => AnyTool::RunAction(
            runtime::RunAction::new(s.skill.clone(), ns, name, copy_denied(&s.guardrails)),
        ),
        ToolKind::ApplyTemplate => AnyTool::ApplyTemplate(
            runtime::ApplyTemplate::new(s.skill.clone(), ns, name, s.image.as_str()),
        ),
        ToolKind::HelmInstall => AnyTool::HelmInstall(helm::HelmInstall::new(ns)),
        ToolKind::HelmUpgrade => AnyTool::HelmUpgrade(helm::HelmUpgrade::new(ns)),
        ToolKind::HelmStatus => AnyTool::HelmStatus(helm::HelmStatus::new(ns)),
        ToolKind::HelmGetValues => AnyTool::HelmGetValues(helm::HelmGetValues::new(ns)),
        ToolKind::HelmShowValues => AnyTool::HelmShowValues(helm::HelmShowValues::new()),
    }
}

/// Makes the tools of an agent: those of its role that the skill allows, in order.
pub fn register_tools_for_role(role: &str, s: &ToolSetup) -> (r: Vec<AnyTool>)
    ensures
        kinds(r@) == allowed_kinds(
            role_kinds(role@),
            role_kinds(role@).len() as int,
            text::opt(s.skill.config.allowed_tools),
        ),
        forall|i: int| 0 <= i < r@.len() ==> is_made_for(#[trigger] r@[i], *s),
{
    let all = list_role_kinds(role);
    let allowed = &s.skill.config.allowed_tools;
    let ghost list = text::opt(*allowed);
    let mut tools: Vec<AnyTool> = Vec::new();
    let mut i: usize = 0;
    assert(kinds(tools@) =~= allowed_kinds(all@, 0, list));
    while i < all.len()
        invariant
            i <= all@.len(),
            list == text::opt(*allowed),
            kinds(tools@) == allowed_kinds(all@, i as int, list),
            forall|j: int| 0 <= j < tools@.len() ==> is_made_for(#[trigger] tools@[j], *s),
        decreases all@.len() - i,
    {
        let ghost before = tools@;
        if is_allowed(allowed, all[i].name()) {
            let tool = make_tool(all[i], s);
            let ghost made = tool;
            tools.push(tool);
            assert(kinds(tools@) =~= kinds(before).push(kind_of(made)));
        }
        i = i + 1;
    }
    tools
}

/// A tool that a list allows is one of the kinds, and the list names it.
pub proof fn lemma_allowed_are_listed(kinds: Seq<ToolKind>, n: int, list: Option<Seq<char>>, j: int)
    requires
        0 <= n <= kinds.len(),
        0 <= j < allowed_kinds(kinds, n, list).len(),
    ensures
        kinds.contains(allowed_kinds(kinds, n, list)[j]),
        allows(list, kind_name(allowed_kinds(kinds, n, list)[j])),
    decreases n,
{
    if n > 0 {
        let rest = allowed_kinds(kinds, n - 1, list);
        if j < rest.len() {
            lemma_allowed_are_listed(kinds, n - 1, list, j);
            assert(allowed_kinds(kinds, n, list)[j] == rest[j]);
        } else {
            assert(allowed_kinds(kinds, n, list)[j] == kinds[n - 1]);
        }
    }
}

/// A planner and a simulator have tools that change nothing, whatever the skill allows.
pub proof fn lemma_planning_only_reads(role: Seq<char>, list: Option<Seq<char>>, tool: AnyTool)
    requires
        role == "planner"@ || role == "simulator"@,
        allowed_kinds(role_kinds(role), role_kinds(role).len() as int, list).contains(
            kind_of(tool),
        ),
    ensures
        tool.tool_safety() == ToolSafety::ReadOnly,
{
    let all = role_kinds(role);
    let kept = allowed_kinds(all, all.len() as int, list);
    let j = choose|j: int| 0 <= j < kept.len() && kept[j] == kind_of(tool);
    lemma_allowed_are_listed(all, all.len() as int, list, j);
}

/// The names by which the model calls the tools.
pub proof fn lemma_names_of_tools()
    ensures
        kind_name(ToolKind::GetState) == "get_state"@,
        kind_name(ToolKind::UpdateStatus) == "update_status"@,
        kind_name(ToolKind::GetPodLogs) == "get_pod_logs"@,
        kind_name(ToolKind::GetEvents) == "get_events"@,
        kind_name(ToolKind::WaitForReady) == "wait_for_ready"@,
        kind_name(ToolKind::KubectlDescribe) == "kubectl_describe"@,
        kind_name(ToolKind::KubectlGet) == "kubectl_get"@,
        kind_name(ToolKind::KubectlScale) == "kubectl_scale"@,
        kind_name(ToolKind::KubectlPatch) == "kubectl_patch"@,
        kind_name(ToolKind::KubectlExec) == "kubectl_exec"@,
        kind_name(ToolKind::RunAction) == "run_action"@,
        kind_name(ToolKind::ApplyTemplate) == "apply_template"@,
        kind_name(ToolKind::HelmInstall) == "helm_install"@,
        kind_name(ToolKind::HelmUpgrade) == "helm_upgrade"@,
        kind_name(ToolKind::HelmStatus) == "helm_status"@,
        kind_name(ToolKind::HelmGetValues) == "helm_get_values"@,
        kind_name(ToolKind::HelmShowValues) == "helm_show_values"@,
{
}

/// A tool that changes something checks its arguments, and a tool that does not is read-only.
pub proof fn lemma_changes_are_validated(tool: AnyTool)
    ensures
        tool.tool_safety() == ToolSafety::Validated <==> (tool is UpdateStatus || tool is KubectlScale || tool is KubectlPatch || tool is KubectlExec || tool is RunAction || tool is ApplyTemplate || tool is HelmInstall || tool is HelmUpgrade),
{
}

/// An executor can have every tool; planner and simulator have those that read the state, the
/// events, the objects and the releases; a verifier can set the status beside reading; no other
/// role has tools.
pub proof fn lemma_roles_have_their_tools(role: Seq<char>, kind: ToolKind)
    ensures
        role_kinds("executor"@).contains(kind),
        role_kinds("planner"@).contains(kind) <==> (kind == ToolKind::GetState || kind == ToolKind::GetEvents || kind == ToolKind::KubectlDescribe || kind == ToolKind::KubectlGet || kind == ToolKind::HelmStatus || kind == ToolKind::HelmGetValues || kind == ToolKind::HelmShowValues),
        role_kinds("simulator"@) == role_kinds("planner"@),
        role_kinds("verifier"@).contains(kind) <==> (kind == ToolKind::GetState || kind == ToolKind::UpdateStatus || kind == ToolKind::GetEvents || kind == ToolKind::KubectlDescribe || kind == ToolKind::KubectlGet || kind == ToolKind::GetPodLogs || kind == ToolKind::HelmStatus || kind == ToolKind::HelmGetValues),
        role != "executor"@ && role != "planner"@ && role != "simulator"@ && role != "verifier"@
            ==> role_kinds(role).len() == 0,
{
    reveal_strlit("executor");
    reveal_strlit("planner");
    reveal_strlit("simulator");
    reveal_strlit("verifier");
    assert("executor"@[0] == 'e' && "planner"@[0] == 'p' && "simulator"@[0] == 's'
        && "verifier"@[0] == 'v');
    let e = role_kinds("executor"@);
    assert(e[0] == ToolKind::RunAction && e[1] == ToolKind::ApplyTemplate && e[2] == ToolKind::GetState && e[3] == ToolKind::UpdateStatus && e[4] == ToolKind::GetPodLogs && e[5] == ToolKind::WaitForReady && e[6] == ToolKind::GetEvents && e[7] == ToolKind::KubectlDescribe && e[8] == ToolKind::KubectlGet && e[9] == ToolKind::KubectlScale && e[10] == ToolKind::KubectlPatch && e[11] == ToolKind::KubectlExec && e[12] == ToolKind::HelmInstall && e[13] == ToolKind::HelmUpgrade && e[14] == ToolKind::HelmStatus && e[15] == ToolKind::HelmGetValues && e[16] == ToolKind::HelmShowValues);
    let p = role_kinds("planner"@);
    assert(p[0] == ToolKind::GetState && p[1] == ToolKind::GetEvents && p[2] == ToolKind::KubectlDescribe && p[3] == ToolKind::KubectlGet && p[4] == ToolKind::HelmStatus && p[5] == ToolKind::HelmGetValues && p[6] == ToolKind::HelmShowValues);
    let v = role_kinds("verifier"@);
    assert(v[0] == ToolKind::GetState && v[1] == ToolKind::UpdateStatus && v[2] == ToolKind::GetEvents && v[3] == ToolKind::KubectlDescribe && v[4] == ToolKind::KubectlGet && v[5] == ToolKind::GetPodLogs && v[6] == ToolKind::HelmStatus && v[7] == ToolKind::HelmGetValues);
}

proof fn lemma_allowed_prefix(a: Seq<ToolKind>, b: Seq<ToolKind>, n: int, list: Option<Seq<char>>)
    requires
        n <= a.len(),
        n <= b.len(),
        forall|k: int| 0 <= k < n ==> #[trigger] a[k] == b[k],
    ensures
        allowed_kinds(a, n, list) == allowed_kinds(b, n, list),
    decreases n,
{
    if n > 0 {
        lemma_allowed_prefix(a, b, n - 1, list);
    }
}

/// Of the tools of a role exactly those stay that the skill allows, in their order.
pub proof fn lemma_allowed_tools_stay(
    kinds: Seq<ToolKind>,
    kind: ToolKind,
    list: Option<Seq<char>>,
)
    ensures
        allowed_kinds(kinds, 0, list) == Seq::<ToolKind>::empty(),
        allows(list, kind_name(kind)) ==> allowed_kinds(kinds.push(kind), kinds.len() as int + 1, list)
            == allowed_kinds(kinds, kinds.len() as int, list).push(kind),
        !allows(list, kind_name(kind)) ==> allowed_kinds(
            kinds.push(kind),
            kinds.len() as int + 1,
            list,
        ) == allowed_kinds(kinds, kinds.len() as int, list),
        allows(None, kind_name(kind)),
{
    lemma_allowed_prefix(kinds, kinds.push(kind), kinds.len() as int, list);
    assert(kinds.push(kind)[kinds.len() as int] == kind);
}

/// A list allows a tool that stands in it between commas, whatever white space is around the name,
/// and no tool whose name it does not hold.
pub proof fn lemma_lists_name_their_tools(
    before: Seq<char>,
    a: Seq<char>,
    name: Seq<char>,
    b: Seq<char>,
    other: Seq<char>,
)
    requires
        text::is_word(name),
        !name.contains(','),
        name.len() > 0,
        text::all_white(a),
        text::all_white(b),
        !a.contains(','),
        !b.contains(','),
    ensures
        allows(Some(before + seq![','] + (a + name + b)), name),
        allows(Some(a + name + b), name),
        !text::has(other, name) ==> !allows(Some(other), name),
{
    reveal_strlit(",");
    assert(","@ =~= seq![',']);
    let part = a + name + b;
    assert(!part.contains(',')) by {
        assert forall|k: int| 0 <= k < part.len() implies part[k] != ',' by {
            if k < a.len() {
                assert(part[k] == a[k] && a.contains(a[k]));
            } else if k < a.len() + name.len() {
                assert(part[k] == name[k - a.len()] && name.contains(name[k - a.len()]));
            } else {
                let j = k - a.len() - name.len();
                assert(part[k] == b[j] && b.contains(b[j]));
            }
        }
    }
    text::lemma_trimmed_is(a, name, b);
    text::lemma_last_piece(before, ',', part);
    let parts = text::pieces(before, ","@).push(part);
    assert(parts[parts.len() - 1] == part);
    assert(lists(parts, parts.len() as int, name));
    assert(seq![part][0] == part);
    assert(lists(seq![part], 1, name));
    if allows(Some(other), name) {
        let ps = text::pieces(other, ","@);
        let i = choose|i: int| 0 <= i < ps.len() && text::trimmed(#[trigger] ps[i]) == name;
        text::lemma_pieces_join(other, ","@);
        let r = text::lemma_joined_holds_every_part(ps, ","@, i);
        let w = text::lemma_trimmed(ps[i]);
        let k = (r.0 + w.0).len() as int;
        assert(other =~= (r.0 + w.0) + name + (w.1 + r.1));
        assert(other.subrange(k, k + name.len()) =~= name);
        assert(text::occurs_at(other, name, k));
        text::lemma_found_from(other, name, 0);
    }
}

/// A tool works in the namespace of its resource and is bound by its guardrails: it allows no more
/// replicas and denies the same commands.
pub proof fn lemma_tools_are_bound_by_guardrails(s: ToolSetup, tool: AnyTool)
    requires
        is_made_for(tool, s),
    ensures
        tool matches AnyTool::KubectlScale(t) ==> t.namespace@ == s.resource_namespace@
            && k8s::max_replicas(t.guardrails) == k8s::max_replicas(s.guardrails),
        tool matches AnyTool::KubectlPatch(t) ==> t.namespace@ == s.resource_namespace@
            && k8s::max_replicas(t.guardrails) == k8s::max_replicas(s.guardrails),
        tool matches AnyTool::KubectlExec(t) ==> t.namespace@ == s.resource_namespace@ && (
        s.guardrails matches Some(g) ==> text::views(t.denied_commands@) == text::views(
            g.denied_commands@,
        )),
        tool matches AnyTool::RunAction(t) ==> t.namespace@ == s.resource_namespace@ && t.skill
            == s.skill && (s.guardrails matches Some(g) ==> text::views(t.denied_commands@)
            == text::views(g.denied_commands@)),
        tool matches AnyTool::ApplyTemplate(t) ==> t.namespace@ == s.resource_namespace@ && t.skill
            == s.skill && t.resource_name@ == s.resource_name@ && t.image@ == s.image@,
        tool matches AnyTool::GetState(t) ==> t.namespace@ == s.resource_namespace@
            && t.resource_name@ == s.resource_name@ && t.goal@ == s.goal@ && t.image@ == s.image@
            && t.skill_name@ == s.skill.config.name@,
        tool matches AnyTool::UpdateStatus(t) ==> t.namespace@ == s.resource_namespace@
            && t.resource_name@ == s.resource_name@,
        tool matches AnyTool::GetPodLogs(t) ==> t.namespace@ == s.resource_namespace@,
        tool matches AnyTool::GetEvents(t) ==> t.namespace@ == s.resource_namespace@
            && t.resource_name@ == s.resource_name@,
        tool matches AnyTool::WaitForReady(t) ==> t.namespace@ == s.resource_namespace@
            && t.resource_name@ == s.resource_name@,
        tool matches AnyTool::KubectlDescribe(t) ==> t.namespace@ == s.resource_namespace@,
        tool matches AnyTool::KubectlGet(t) ==> t.namespace@ == s.resource_namespace@,
        tool matches AnyTool::HelmInstall(t) ==> t.namespace@ == s.resource_namespace@,
        tool matches AnyTool::HelmUpgrade(t) ==> t.namespace@ == s.resource_namespace@,
        tool matches AnyTool::HelmStatus(t) ==> t.namespace@ == s.resource_namespace@,
        tool matches AnyTool::HelmGetValues(t) ==> t.namespace@ == s.resource_namespace@,
        s.guardrails is None ==> denied_by(s.guardrails) == Seq::<Seq<char>>::empty(),
{
}

} // verus!
