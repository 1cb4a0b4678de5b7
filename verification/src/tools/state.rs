//! The tools that read a resource's state and update its status.
use vstd::prelude::*;
use crate::agent::tool::{Tool, ToolSafety};
use crate::agent::types::{ResultView, ToolResult};
use crate::controller::{PodFacts, StatefulSetFacts};
use crate::controller;
use crate::controller::status;
use crate::crd::ResourcePhase;
use crate::crd;
use crate::json::{Json, JsonObject, JsonView};
use crate::json;
use crate::text;
use crate::tools::schema;
use crate::types::{
    K8sState, PodInfo, ResourceInfo, StateSnapshot, StatefulSetInfo, TriggerInfo,
};

verus! {

// ---------------------------------------------------------------------------
// Reading the state
// ---------------------------------------------------------------------------
/// Reads the state of a resource: its monitors and its objects in the cluster.
pub struct GetState {
    pub namespace: String,
    pub resource_name: String,
    pub skill_name: String,
    pub goal: String,
    pub image: String,
}

impl Tool for GetState {
    open spec fn tool_name(&self) -> Seq<char> {
        "get_state"@
    }

    open spec fn tool_description(&self) -> Seq<char> {
        "Get current state: monitor data + K8s resources."@
    }

    open spec fn tool_schema(&self) -> JsonView {
        schema::arguments(
            Map::empty(),
            None,
        )
    }

    open spec fn tool_safety(&self) -> ToolSafety {
        ToolSafety::ReadOnly
    }

    fn name(&self) -> &str {
        "get_state"
    }

    fn description(&self) -> &str {
        "Get current state: monitor data + K8s resources."
    }

    fn parameters_schema(&self) -> Json {
        let props = JsonObject::new();
        schema::make_open_arguments(props)
    }

    fn safety(&self) -> ToolSafety {
        ToolSafety::ReadOnly
    }
}

/// The restarts of the first `n` containers.
pub open spec fn restarts_to(counts: Seq<i32>, n: int) -> int
    decreases n,
{
    if n <= 0 {
        0
    } else {
        restarts_to(counts, n - 1) + (counts[n - 1] as u32)
    }
}

/// Whether the restarts of a pod fit.
pub open spec fn restarts_fit(pod: PodFacts) -> bool {
    restarts_to(pod.restart_counts@, pod.restart_counts@.len() as int) <= u32::MAX
}

/// Whether the information says of a pod what the cluster says: name, phase, readiness, and the
/// restarts of all its containers.
pub open spec fn informs_fully(info: PodInfo, pod: PodFacts) -> bool {
    &&& info.name@ == controller::or_default(pod.name, ""@)
    &&& info.phase@ == controller::or_default(pod.phase, "Unknown"@)
    &&& info.ready == controller::says_ready(pod.conditions@)
    &&& info.restarts == restarts_to(pod.restart_counts@, pod.restart_counts@.len() as int)
}

proof fn lemma_restarts_grow(counts: Seq<i32>, i: int, n: int)
    requires
        i <= n,
    ensures
        restarts_to(counts, i) <= restarts_to(counts, n),
    decreases n - i,
{
    if i < n {
        lemma_restarts_grow(counts, i, n - 1);
    }
}

/// Makes the information on a pod.
pub fn full_pod_info(pod: &PodFacts) -> (r: PodInfo)
    requires
        restarts_fit(*pod),
    ensures
        informs_fully(r, *pod),
{
    let counts = &pod.restart_counts;
    let mut restarts: u32 = 0;
    let mut i: usize = 0;
    while i < counts.len()
        invariant
            i <= counts@.len(),
            counts@ == pod.restart_counts@,
            restarts_fit(*pod),
            restarts == restarts_to(counts@, i as int),
        decreases counts@.len() - i,
    {
        proof {
            lemma_restarts_grow(counts@, i + 1, counts@.len() as int);
        }
        let count: u32 = #[verifier::truncate]
        (counts[i] as u32);
        restarts = restarts + count;
        i = i + 1;
    }
    PodInfo {
        name: controller::text_or(&pod.name, ""),
        phase: controller::text_or(&pod.phase, "Unknown"),
        ready: controller::is_ready(&pod.conditions),
        restarts,
    }
}

/// Tells whether the restarts of a pod fit.
pub fn do_restarts_fit(pod: &PodFacts) -> (r: bool)
    ensures
        r == restarts_fit(*pod),
{
    let counts = &pod.restart_counts;
    let mut restarts: u32 = 0;
    let mut i: usize = 0;
    while i < counts.len()
        invariant
            i <= counts@.len(),
            counts@ == pod.restart_counts@,
            restarts == restarts_to(counts@, i as int),
        decreases counts@.len() - i,
    {
        proof {
            lemma_restarts_grow(counts@, i + 1, counts@.len() as int);
        }
        let count: u32 = #[verifier::truncate]
        (counts[i] as u32);
        if count > u32::MAX - restarts {
            return false;
        }
        restarts = restarts + count;
        i = i + 1;
    }
    true
}

impl GetState {
    /// A tool for the state of a resource.
    pub fn new(namespace: &str, resource_name: &str, skill_name: &str, goal: &str, image: &str) -> (r:
        GetState)
        ensures
            r.namespace@ == namespace@,
            r.resource_name@ == resource_name@,
            r.skill_name@ == skill_name@,
            r.goal@ == goal@,
            r.image@ == image@,
    {
        GetState {
            namespace: namespace.to_string(),
            resource_name: resource_name.to_string(),
            skill_name: skill_name.to_string(),
            goal: goal.to_string(),
            image: image.to_string(),
        }
    }

    /// The label by which the objects of the resource are found.
    pub fn label_selector(&self) -> (r: String)
        ensures
            r@ == "app="@ + self.resource_name@,
    {
        controller::app_label(self.resource_name.as_str())
    }

    /// Makes the snapshot that the agent is told.
    pub fn snapshot(
        &self,
        pods: &Vec<PodFacts>,
        sets: &Vec<StatefulSetFacts>,
        monitors: JsonObject,
        timestamp: &str,
    ) -> (r: StateSnapshot)
        requires
            forall|i: int| 0 <= i < pods@.len() ==> restarts_fit(#[trigger] pods@[i]),
        ensures
            r.resource.name@ == self.resource_name@,
            r.resource.namespace@ == self.namespace@,
            r.resource.skill@ == self.skill_name@,
            r.resource.goal@ == self.goal@,
            r.resource.image@ == self.image@,
            r.monitors == monitors,
            r.k8s.pods@.len() == pods@.len(),
            forall|i: int|
                0 <= i < pods@.len() ==> informs_fully(#[trigger] r.k8s.pods@[i], pods@[i]),
            r.k8s.statefulsets@.len() == sets@.len(),
            forall|i: int|
                0 <= i < sets@.len() ==> controller::informs_set(
                    #[trigger] r.k8s.statefulsets@[i],
                    sets@[i],
                ),
            r.trigger.source@ == "agent"@,
            r.trigger.reason@ == "get_state called"@,
            r.trigger.timestamp@ == timestamp@,
    {
        let mut pod_infos: Vec<PodInfo> = Vec::new();
        let mut i: usize = 0;
        while i < pods.len()
            invariant
                i <= pods@.len(),
                forall|k: int| 0 <= k < pods@.len() ==> restarts_fit(#[trigger] pods@[k]),
                pod_infos@.len() == i,
                forall|k: int| 0 <= k < i ==> informs_fully(#[trigger] pod_infos@[k], pods@[k]),
            decreases pods@.len() - i,
        {
            pod_infos.push(full_pod_info(&pods[i]));
            i = i + 1;
        }
        let mut set_infos: Vec<StatefulSetInfo> = Vec::new();
        let mut j: usize = 0;
        while j < sets.len()
            invariant
                j <= sets@.len(),
                set_infos@.len() == j,
                forall|k: int|
                    0 <= k < j ==> controller::informs_set(#[trigger] set_infos@[k], sets@[k]),
            decreases sets@.len() - j,
        {
            set_infos.push(controller::statefulset_info(&sets[j]));
            j = j + 1;
        }
        StateSnapshot {
            resource: ResourceInfo {
                name: self.resource_name.clone(),
                namespace: self.namespace.clone(),
                skill: self.skill_name.clone(),
                goal: self.goal.clone(),
                image: self.image.clone(),
            },
            monitors,
            k8s: K8sState { pods: pod_infos, statefulsets: set_infos },
            trigger: TriggerInfo {
                source: "agent".to_string(),
                reason: "get_state called".to_string(),
                timestamp: timestamp.to_string(),
            },
        }
    }
}

// ---------------------------------------------------------------------------
// Updating the status
// ---------------------------------------------------------------------------
/// Updates the status of a resource.
pub struct UpdateStatus {
    pub namespace: String,
    pub resource_name: String,
}

impl Tool for UpdateStatus {
    open spec fn tool_name(&self) -> Seq<char> {
        "update_status"@
    }

    open spec fn tool_description(&self) -> Seq<char> {
        "Update AIResource status (phase, message)."@
    }

    open spec fn tool_schema(&self) -> JsonView {
        schema::arguments(
            map![
                "phase"@ => schema::choice(seq!["Pending"@, "Initializing"@, "Running"@, "Healing"@, "Failed"@], "Lifecycle phase to set"@),
                "message"@ => schema::prop("string"@, "Optional human-readable status message"@),
            ],
            Some(seq!["phase"@]),
        )
    }

    open spec fn tool_safety(&self) -> ToolSafety {
        ToolSafety::Validated
    }

    fn name(&self) -> &str {
        "update_status"
    }

    fn description(&self) -> &str {
        "Update AIResource status (phase, message)."
    }

    fn parameters_schema(&self) -> Json {
        let mut props = JsonObject::new();
        let values: Vec<&str> = vec!["Pending", "Initializing", "Running", "Healing", "Failed"];
        assert(values@.map_values(|p: &str| p@) =~= seq!["Pending"@, "Initializing"@, "Running"@, "Healing"@, "Failed"@]);
        props.put("phase", schema::make_choice(values, "Lifecycle phase to set"));
        props.put("message", schema::make_prop("string", "Optional human-readable status message"));
        let required: Vec<&str> = vec!["phase"];
        assert(required@.map_values(|p: &str| p@) =~= seq!["phase"@]);
        schema::make_arguments(props, required)
    }

    fn safety(&self) -> ToolSafety {
        ToolSafety::Validated
    }
}

/// The phase of a name.
pub open spec fn phase_named(name: Seq<char>) -> Option<ResourcePhase> {
    if name == "Pending"@ {
        Some(ResourcePhase::Pending)
    } else if name == "Initializing"@ {
        Some(ResourcePhase::Initializing)
    } else if name == "Running"@ {
        Some(ResourcePhase::Running)
    } else if name == "Healing"@ {
        Some(ResourcePhase::Healing)
    } else if name == "Failed"@ {
        Some(ResourcePhase::Failed)
    } else {
        None
    }
}

/// Finds the phase of a name.
pub fn parse_phase(name: &str) -> (r: Option<ResourcePhase>)
    ensures
        r == phase_named(name@),
{
    if text::same(name, "Pending") {
        Some(ResourcePhase::Pending)
    } else if text::same(name, "Initializing") {
        Some(ResourcePhase::Initializing)
    } else if text::same(name, "Running") {
        Some(ResourcePhase::Running)
    } else if text::same(name, "Healing") {
        Some(ResourcePhase::Healing)
    } else if text::same(name, "Failed") {
        Some(ResourcePhase::Failed)
    } else {
        None
    }
}

/// Every phase is found by its name, and no other name is a phase.
pub proof fn lemma_phase_names(name: Seq<char>, p: ResourcePhase)
    ensures
        phase_named(crd::phase_name(p)) == Some(p),
        phase_named(name) == Some(p) ==> name == crd::phase_name(p),
{
    reveal_strlit("Pending");
    reveal_strlit("Initializing");
    reveal_strlit("Running");
    reveal_strlit("Healing");
    reveal_strlit("Failed");
    assert("Running"@[0] == 'R');
    assert("Pending"@[0] == 'P');
    assert("Healing"@[0] == 'H');
    assert("Failed"@[0] == 'F');
    assert("Initializing"@[0] == 'I');
}

/// A patch of the status that a call asks for.
pub struct StatusUpdate {
    pub phase: String,
    pub patch: Json,
}

/// Why a call is refused.
pub open spec fn status_refusal(args: JsonView) -> Option<Seq<char>> {
    match json::str_member(args, "phase"@) {
        None => Some("missing phase"@),
        Some(p) => match phase_named(p) {
            None => Some(
                "invalid phase '"@ + p
                    + "': must be one of Pending/Initializing/Running/Healing/Failed"@,
            ),
            Some(_) => None,
        },
    }
}

/// The status that a call sets.
pub open spec fn status_set(phase: Seq<char>, now: Seq<char>, message: Option<Seq<char>>) -> Map<
    Seq<char>,
    JsonView,
> {
    let base = map![
        "phase"@ => JsonView::Str(phase),
        "lastAgentActionTime"@ => JsonView::Str(now),
    ];
    match message {
        Some(m) => base.insert("message"@, JsonView::Str(m)),
        None => base,
    }
}

impl UpdateStatus {
    /// A tool for the status of a resource.
    pub fn new(namespace: &str, resource_name: &str) -> (r: UpdateStatus)
        ensures
            r.namespace@ == namespace@,
            r.resource_name@ == resource_name@,
    {
        UpdateStatus {
            namespace: namespace.to_string(),
            resource_name: resource_name.to_string(),
        }
    }

    /// Checks a call, and makes the patch that it asks for.
    pub fn plan(&self, args: &Json, now: &str) -> (r: Result<StatusUpdate, ToolResult>)
        ensures
            match r {
                Ok(u) => status_refusal(args@) is None && json::str_member(args@, "phase"@) == Some(
                    u.phase@,
                ) && u.patch@ == status::status_patch(
                    status_set(u.phase@, now@, json::str_member(args@, "message"@)),
                ),
                Err(e) => !e.success && status_refusal(args@) == Some(e.output@),
            },
    {
        let phase = match args.str_at("phase") {
            Some(p) => p,
            None => {
                return Err(ToolResult::failure("missing phase".to_string()));
            },
        };
        if parse_phase(phase).is_none() {
            let mut out = "invalid phase '".to_string();
            out.append(phase);
            out.append("': must be one of Pending/Initializing/Running/Healing/Failed");
            return Err(ToolResult::failure(out));
        }
        let mut o = JsonObject::new();
        o.put("phase", Json::string(phase));
        o.put("lastAgentActionTime", Json::string(now));
        if let Some(message) = args.str_at("message") {
            o.put("message", Json::string(message));
        }
        Ok(StatusUpdate { phase: phase.to_string(), patch: status::make_status_patch(o) })
    }

    /// Reports a status that was updated.
    pub fn report(phase: &str) -> (r: ToolResult)
        ensures
            r@ == (ResultView {
                success: true,
                output: json::json_written(
                    JsonView::Object(
                        map!["updated"@ => JsonView::Bool(true), "phase"@ => JsonView::Str(phase@)],
                    ),
                ),
            }),
    {
        let mut o = JsonObject::new();
        o.put("updated", Json::Bool(true));
        o.put("phase", Json::string(phase));
        ToolResult::success(Json::object(o).to_text())
    }
}

/// What is told of a pod is what the cluster says of it; its restarts are those of all its
/// containers together.
pub proof fn lemma_pods_are_told_fully(info: PodInfo, pod: PodFacts)
    requires
        informs_fully(info, pod),
    ensures
        pod.name matches Some(n) ==> info.name@ == n@,
        pod.phase matches Some(p) ==> info.phase@ == p@,
        pod.phase is None ==> info.phase@ == "Unknown"@,
        info.ready == controller::says_ready(pod.conditions@),
        pod.restart_counts@.len() == 0 ==> info.restarts == 0,
        pod.restart_counts@.len() == 1 && pod.restart_counts@[0] >= 0 ==> info.restarts
            == pod.restart_counts@[0],
{
    if pod.restart_counts@.len() == 1 {
        assert(restarts_to(pod.restart_counts@, 0) == 0);
    }
}

/// Every container counts: one more container adds its restarts to those of the others.
pub proof fn lemma_restarts_add_up(counts: Seq<i32>, count: i32)
    requires
        count >= 0,
    ensures
        restarts_to(counts.push(count), counts.len() as int + 1) == restarts_to(
            counts,
            counts.len() as int,
        ) + count,
        restarts_to(counts, 0) == 0,
{
    lemma_restarts_prefix(counts, counts.push(count), counts.len() as int);
}

proof fn lemma_restarts_prefix(a: Seq<i32>, b: Seq<i32>, n: int)
    requires
        n <= a.len(),
        n <= b.len(),
        forall|k: int| 0 <= k < n ==> #[trigger] a[k] == b[k],
    ensures
        restarts_to(a, n) == restarts_to(b, n),
    decreases n,
{
    if n > 0 {
        lemma_restarts_prefix(a, b, n - 1);
    }
}

/// A call is refused exactly where its phase is none of the five.
pub proof fn lemma_only_phases_are_set(args: JsonView)
    ensures
        status_refusal(args) is None <==> (json::str_member(args, "phase"@) matches Some(p) && (p
            == "Pending"@ || p == "Initializing"@ || p == "Running"@ || p == "Healing"@ || p
            == "Failed"@)),
        crd::phase_name(ResourcePhase::Pending) == "Pending"@,
        crd::phase_name(ResourcePhase::Initializing) == "Initializing"@,
        crd::phase_name(ResourcePhase::Running) == "Running"@,
        crd::phase_name(ResourcePhase::Healing) == "Healing"@,
        crd::phase_name(ResourcePhase::Failed) == "Failed"@,
{
}

/// The status that a call sets holds the phase, the time, and the message where there is one.
pub proof fn lemma_status_holds_what_was_asked(
    phase: Seq<char>,
    now: Seq<char>,
    message: Option<Seq<char>>,
)
    ensures
        ({
            let s = JsonView::Object(status_set(phase, now, message));
            &&& json::str_member(s, "phase"@) == Some(phase)
            &&& json::str_member(s, "lastAgentActionTime"@) == Some(now)
            &&& json::str_member(s, "message"@) == message
            &&& message is None ==> json::member(s, "message"@) is None
        }),
{
    reveal_strlit("phase");
    reveal_strlit("lastAgentActionTime");
    reveal_strlit("message");
    assert("phase"@.len() == 5 && "lastAgentActionTime"@.len() == 19 && "message"@.len() == 7);
}

/// What the model is told of the tool get_state: its arguments, their types, and which it must give.
pub proof fn lemma_arguments_of_get_state(tool: GetState)
    ensures
        tool.tool_name() == "get_state"@,
        tool.tool_safety() == ToolSafety::ReadOnly,
        json::member(tool.tool_schema(), "required"@) is None,
{
    reveal_strlit("type");
    reveal_strlit("properties");
    reveal_strlit("required");
    reveal_strlit("description");
    reveal_strlit("enum");
    reveal_strlit("items");
    assert("type"@.len() == 4 && "properties"@.len() == 10 && "required"@.len() == 8 && "description"@.len() == 11 && "enum"@.len() == 4 && "items"@.len() == 5);
    assert("enum"@[0] == 'e' && "type"@[0] == 't');
}

/// What the model is told of the tool update_status: its arguments, their types, and which it must give.
pub proof fn lemma_arguments_of_update_status(tool: UpdateStatus)
    ensures
        tool.tool_name() == "update_status"@,
        tool.tool_safety() == ToolSafety::Validated,
        json::member_in(tool.tool_schema(), "properties"@, "phase"@) matches Some(p)
            && json::str_member(p, "type"@) == Some("string"@),
        json::member_in(tool.tool_schema(), "properties"@, "message"@) matches Some(p)
            && json::str_member(p, "type"@) == Some("string"@),
        json::member(tool.tool_schema(), "required"@) == Some(schema::texts(seq!["phase"@])),
{
    reveal_strlit("type");
    reveal_strlit("properties");
    reveal_strlit("required");
    reveal_strlit("description");
    reveal_strlit("enum");
    reveal_strlit("items");
    reveal_strlit("phase");
    reveal_strlit("message");
    assert("type"@.len() == 4 && "properties"@.len() == 10 && "required"@.len() == 8 && "description"@.len() == 11 && "enum"@.len() == 4 && "items"@.len() == 5 && "phase"@.len() == 5 && "message"@.len() == 7);
    assert("enum"@[0] == 'e' && "items"@[0] == 'i' && "phase"@[0] == 'p' && "type"@[0] == 't');
}

/// A call without a phase, or with a phase that is none, is told so.
pub proof fn lemma_refused_phases_are_told(args: JsonView)
    ensures
        json::str_member(args, "phase"@) is None ==> status_refusal(args) == Some(
            "missing phase"@,
        ),
        json::str_member(args, "phase"@) matches Some(p) ==> (p != "Pending"@ && p
            != "Initializing"@ && p != "Running"@ && p != "Healing"@ && p != "Failed"@
            ==> status_refusal(args) == Some(
            "invalid phase '"@ + p
                + "': must be one of Pending/Initializing/Running/Healing/Failed"@,
        )),
{
}

} // verus!
