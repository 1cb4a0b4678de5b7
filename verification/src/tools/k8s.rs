//! The tools that read and change objects of the cluster.
use vstd::prelude::*;
use crate::agent::tool::{Tool, ToolSafety};
use crate::agent::types::{ResultView, ToolResult};
use crate::controller::PodFacts;
use crate::controller;
use crate::controller::status;
use crate::crd::GuardrailSpec;
use crate::json::{Json, JsonObject, JsonView, NumberView};
use crate::json;
use crate::monitor::runner;
use crate::text;
use crate::tools::runtime;
use crate::tools::schema;

verus! {

// ---------------------------------------------------------------------------
// Guardrails
// ---------------------------------------------------------------------------
/// The number before a unit, times the unit.
pub open spec fn scaled(s: Seq<char>, suffix: Seq<char>, unit: nat) -> Option<nat> {
    match text::parsed_unsigned(s.take(s.len() - suffix.len()), u64::MAX as nat) {
        Some(n) => Some(n * unit),
        None => None,
    }
}

/// An amount of memory in bytes: a number with a unit of `Gi`, `Mi`, `Ki`, `G`, `M` or none.
pub open spec fn memory_bytes(s: Seq<char>) -> Option<nat> {
    let t = text::trimmed(s);
    if text::ends(t, "Gi"@) {
        scaled(t, "Gi"@, 1073741824)
    } else if text::ends(t, "Mi"@) {
        scaled(t, "Mi"@, 1048576)
    } else if text::ends(t, "Ki"@) {
        scaled(t, "Ki"@, 1024)
    } else if text::ends(t, "G"@) {
        scaled(t, "G"@, 1000000000)
    } else if text::ends(t, "M"@) {
        scaled(t, "M"@, 1000000)
    } else {
        text::parsed_unsigned(t, u64::MAX as nat)
    }
}

/// Whether an amount of memory, where it can be read, fits in bytes.
pub open spec fn memory_fits(s: Seq<char>) -> bool {
    memory_bytes(s) matches Some(n) ==> n <= u64::MAX
}

fn times(number: &str, unit: u64) -> (r: Option<u128>)
    ensures
        match r {
            Some(n) => text::parsed_unsigned(number@, u64::MAX as nat) is Some && n
                == text::parsed_unsigned(number@, u64::MAX as nat)->0 * unit,
            None => text::parsed_unsigned(number@, u64::MAX as nat) is None,
        },
{
    match text::parse_u64(number) {
        Some(n) => {
            assert(n * unit <= u64::MAX * u64::MAX) by (nonlinear_arith)
                requires
                    0 <= n <= u64::MAX,
                    0 <= unit <= u64::MAX,
            ;
            Some(n as u128 * unit as u128)
        },
        None => None,
    }
}

fn memory_amount(s: &str) -> (r: Option<u128>)
    ensures
        match r {
            Some(n) => memory_bytes(s@) == Some(n as nat),
            None => memory_bytes(s@) is None,
        },
{
    let t = text::trim(s);
    if let Some(n) = text::strip_suffix(t.as_str(), "Gi") {
        times(n.as_str(), 1073741824)
    } else if let Some(n) = text::strip_suffix(t.as_str(), "Mi") {
        times(n.as_str(), 1048576)
    } else if let Some(n) = text::strip_suffix(t.as_str(), "Ki") {
        times(n.as_str(), 1024)
    } else if let Some(n) = text::strip_suffix(t.as_str(), "G") {
        times(n.as_str(), 1000000000)
    } else if let Some(n) = text::strip_suffix(t.as_str(), "M") {
        times(n.as_str(), 1000000)
    } else {
        times(t.as_str(), 1)
    }
}

/// Tells whether an amount of memory, where it can be read, fits in bytes.
pub fn does_memory_fit(s: &str) -> (r: bool)
    ensures
        r == memory_fits(s@),
{
    match memory_amount(s) {
        Some(n) => n <= u64::MAX as u128,
        None => true,
    }
}

/// Reads an amount of memory in bytes.
pub fn parse_memory_to_bytes(s: &str) -> (r: Option<u64>)
    requires
        memory_fits(s@),
    ensures
        match r {
            Some(n) => memory_bytes(s@) == Some(n as nat),
            None => memory_bytes(s@) is None,
        },
{
    match memory_amount(s) {
        Some(n) => Some(n as u64),
        None => None,
    }
}

/// Why a request for memory is refused. `max_allowed` is the limit times the factor, in bytes.
pub open spec fn memory_refusal(
    requested: Seq<char>,
    spec_limit: Seq<char>,
    scale_factor: Seq<char>,
    max_allowed: u64,
) -> Option<Seq<char>> {
    match (memory_bytes(requested), memory_bytes(spec_limit)) {
        (None, _) => Some("cannot parse requested memory: "@ + requested),
        (Some(_), None) => Some("cannot parse spec memory limit: "@ + spec_limit),
        (Some(req), Some(_)) => if req > max_allowed {
            Some(
                "requested memory "@ + requested + " ("@ + text::decimal(req)
                    + " bytes) exceeds guardrail ("@ + spec_limit + " * "@ + scale_factor + " = "@
                    + text::decimal(max_allowed as nat) + " bytes)"@,
            )
        } else {
            None
        },
    }
}

/// The outcome of a check.
pub open spec fn refusal_of(r: Result<(), String>) -> Option<Seq<char>> {
    match r {
        Ok(_) => None,
        Err(e) => Some(e@),
    }
}

/// Refuses a request for more memory than a limit times a factor. The product, in bytes, and the
/// factor as text are given.
pub fn validate_memory_guardrail(
    requested: &str,
    spec_limit: &str,
    scale_factor: &str,
    max_allowed: u64,
) -> (r: Result<(), String>)
    requires
        memory_fits(requested@),
        memory_bytes(requested@) is Some ==> memory_fits(spec_limit@),
    ensures
        refusal_of(r) == memory_refusal(requested@, spec_limit@, scale_factor@, max_allowed),
{
    let req: u64 = match parse_memory_to_bytes(requested) {
        Some(n) => n,
        None => {
            let mut out = "cannot parse requested memory: ".to_string();
            out.append(requested);
            return Err(out);
        },
    };
    if parse_memory_to_bytes(spec_limit).is_none() {
        let mut out = "cannot parse spec memory limit: ".to_string();
        out.append(spec_limit);
        return Err(out);
    }
    if req > max_allowed {
        let mut out = "requested memory ".to_string();
        out.append(requested);
        out.append(" (");
        out.append(text::decimal_of(req as u128).as_str());
        out.append(" bytes) exceeds guardrail (");
        out.append(spec_limit);
        out.append(" * ");
        out.append(scale_factor);
        out.append(" = ");
        out.append(text::decimal_of(max_allowed as u128).as_str());
        out.append(" bytes)");
        Err(out)
    } else {
        Ok(())
    }
}

/// Refuses fewer replicas than there must be masters.
pub fn validate_scale_guardrail(requested_replicas: u32, min_masters: u32) -> (r: Result<
    (),
    String,
>)
    ensures
        refusal_of(r) == (if requested_replicas < min_masters {
            Some(
                "requested replicas "@ + text::decimal(requested_replicas as nat)
                    + " is below minimum masters "@ + text::decimal(min_masters as nat),
            )
        } else {
            None
        }),
{
    if requested_replicas < min_masters {
        let mut out = "requested replicas ".to_string();
        out.append(text::decimal_of(requested_replicas as u128).as_str());
        out.append(" is below minimum masters ");
        out.append(text::decimal_of(min_masters as u128).as_str());
        Err(out)
    } else {
        Ok(())
    }
}

// ---------------------------------------------------------------------------
// Kinds of objects
// ---------------------------------------------------------------------------
/// A kind of objects that the tools know.
#[derive(Debug, Clone, Copy, PartialEq, Eq, Structural)]
pub enum ResourceKind {
    Pod,
    Service,
    StatefulSet,
    ConfigMap,
    Deployment,
}

/// The kind of a name: its own, in lower case, or its short form.
pub open spec fn kind_named(name: Seq<char>) -> Option<ResourceKind> {
    if name == "Pod"@ || name == "pod"@ {
        Some(ResourceKind::Pod)
    } else if name == "Service"@ || name == "service"@ || name == "svc"@ {
        Some(ResourceKind::Service)
    } else if name == "StatefulSet"@ || name == "statefulset"@ || name == "sts"@ {
        Some(ResourceKind::StatefulSet)
    } else if name == "ConfigMap"@ || name == "configmap"@ || name == "cm"@ {
        Some(ResourceKind::ConfigMap)
    } else if name == "Deployment"@ || name == "deployment"@ || name == "deploy"@ {
        Some(ResourceKind::Deployment)
    } else {
        None
    }
}

/// Finds the kind of a name.
pub fn parse_kind(name: &str) -> (r: Option<ResourceKind>)
    ensures
        r == kind_named(name@),
{
    if text::same(name, "Pod") || text::same(name, "pod") {
        Some(ResourceKind::Pod)
    } else if text::same(name, "Service") || text::same(name, "service") || text::same(
        name,
        "svc",
    ) {
        Some(ResourceKind::Service)
    } else if text::same(name, "StatefulSet") || text::same(name, "statefulset") || text::same(
        name,
        "sts",
    ) {
        Some(ResourceKind::StatefulSet)
    } else if text::same(name, "ConfigMap") || text::same(name, "configmap") || text::same(
        name,
        "cm",
    ) {
        Some(ResourceKind::ConfigMap)
    } else if text::same(name, "Deployment") || text::same(name, "deployment") || text::same(
        name,
        "deploy",
    ) {
        Some(ResourceKind::Deployment)
    } else {
        None
    }
}

/// The refusal of a kind that the tools do not know.
pub open spec fn unsupported_kind(kind: Seq<char>) -> Seq<char> {
    "unsupported kind '"@ + kind
        + "'. Supported: Pod, Service, StatefulSet, ConfigMap, Deployment"@
}

fn refuse_kind(kind: &str) -> (r: ToolResult)
    ensures
        r@ == (ResultView { success: false, output: unsupported_kind(kind@) }),
{
    let mut out = "unsupported kind '".to_string();
    out.append(kind);
    out.append("'. Supported: Pod, Service, StatefulSet, ConfigMap, Deployment");
    ToolResult::failure(out)
}

/// An object in words: its kind and its name.
pub open spec fn object_name(kind: Seq<char>, name: Seq<char>) -> Seq<char> {
    kind + "/"@ + name
}

fn name_object(kind: &str, name: &str) -> (r: String)
    ensures
        r@ == object_name(kind@, name@),
{
    let mut out = kind.to_string();
    out.append("/");
    out.append(name);
    out
}

// ---------------------------------------------------------------------------
// Applying a manifest
// ---------------------------------------------------------------------------
/// How a manifest is applied.
pub struct ApplyPlan {
    pub kind: ResourceKind,
    pub kind_name: String,
    pub name: String,
    /// The manifest, which is applied where the object is new, or no stateful set.
    pub manifest: Json,
    /// What may change of a stateful set that is there.
    pub merge_patch: Json,
}

/// A manifest that belongs to an owner, where there is one.
pub open spec fn owned(manifest: JsonView, owner: Option<JsonView>) -> JsonView {
    match (manifest, owner) {
        (JsonView::Object(m), Some(o)) => match m["metadata"@] {
            JsonView::Object(meta) => JsonView::Object(
                m.insert(
                    "metadata"@,
                    JsonView::Object(
                        meta.insert("ownerReferences"@, JsonView::Array(seq![o])),
                    ),
                ),
            ),
            _ => manifest,
        },
        _ => manifest,
    }
}

/// A map with a member of another document, where that has it.
pub open spec fn with_member(
    m: Map<Seq<char>, JsonView>,
    key: Seq<char>,
    value: Option<JsonView>,
) -> Map<Seq<char>, JsonView> {
    match value {
        Some(v) => m.insert(key, v),
        None => m,
    }
}

/// The part of a stateful set's manifest that may change, and the owner where there is one.
pub open spec fn mutable_part(manifest: JsonView, owner: Option<JsonView>) -> JsonView {
    let spec = with_member(
        with_member(
            with_member(
                Map::empty(),
                "replicas"@,
                json::member_in(manifest, "spec"@, "replicas"@),
            ),
            "template"@,
            json::member_in(manifest, "spec"@, "template"@),
        ),
        "updateStrategy"@,
        json::member_in(manifest, "spec"@, "updateStrategy"@),
    );
    let base = map!["spec"@ => JsonView::Object(spec)];
    JsonView::Object(
        match owner {
            Some(o) => base.insert(
                "metadata"@,
                JsonView::Object(map!["ownerReferences"@ => JsonView::Array(seq![o])]),
            ),
            None => base,
        },
    )
}

/// The kinds that can be applied.
pub open spec fn applicable(kind: Seq<char>) -> Option<ResourceKind> {
    if kind == "StatefulSet"@ {
        Some(ResourceKind::StatefulSet)
    } else if kind == "Service"@ {
        Some(ResourceKind::Service)
    } else if kind == "ConfigMap"@ {
        Some(ResourceKind::ConfigMap)
    } else {
        None
    }
}

/// The name in a manifest's metadata.
pub open spec fn manifest_name(manifest: JsonView) -> Option<Seq<char>> {
    match json::member_in(manifest, "metadata"@, "name"@) {
        Some(j) => json::str_of(j),
        None => None,
    }
}

/// Why a manifest cannot be applied.
pub open spec fn apply_refusal(manifest: JsonView) -> Option<Seq<char>> {
    match (json::str_member(manifest, "kind"@), manifest_name(manifest)) {
        (None, _) => Some("manifest missing 'kind'"@),
        (Some(_), None) => Some("manifest missing 'metadata.name'"@),
        (Some(kind), Some(_)) => match applicable(kind) {
            Some(_) => None,
            None => Some("unsupported kind for server-side apply: "@ + kind),
        },
    }
}

fn one_item(item: &Json) -> (r: Json)
    ensures
        r@ == JsonView::Array(seq![item@]),
{
    let mut list: Vec<Json> = Vec::new();
    list.push(item.clone());
    assert(json::views_of(list@) =~= seq![item@]);
    Json::array(list)
}

fn set_owner(manifest: &Json, owner: Option<&Json>) -> (r: Json)
    requires
        manifest_name(manifest@) is Some,
    ensures
        r@ == owned(
            manifest@,
            (match owner {
                Some(o) => Some(o@),
                None => None,
            }),
        ),
{
    if let Some(o) = owner {
        if let Json::Object(object) = manifest {
            assert(manifest@ == JsonView::Object(object@));
            if let Some(Json::Object(meta)) = object.get("metadata") {
                let mut new_meta = meta.copy();
                new_meta.put("ownerReferences", one_item(o));
                let mut copy = object.copy();
                copy.put("metadata", Json::object(new_meta));
                return Json::object(copy);
            }
        }
    }
    manifest.clone()
}

fn take_mutable_part(manifest: &Json, owner: Option<&Json>) -> (r: Json)
    ensures
        r@ == mutable_part(
            manifest@,
            (match owner {
                Some(o) => Some(o@),
                None => None,
            }),
        ),
{
    let mut spec = JsonObject::new();
    if let Some(v) = manifest.get_in("spec", "replicas") {
        spec.put("replicas", v.clone());
    }
    if let Some(v) = manifest.get_in("spec", "template") {
        spec.put("template", v.clone());
    }
    if let Some(v) = manifest.get_in("spec", "updateStrategy") {
        spec.put("updateStrategy", v.clone());
    }
    let mut o = JsonObject::new();
    o.put("spec", Json::object(spec));
    if let Some(owner) = owner {
        let mut meta = JsonObject::new();
        meta.put("ownerReferences", one_item(owner));
        o.put("metadata", Json::object(meta));
    }
    Json::object(o)
}

/// Checks a manifest and plans how it is applied. A stateful set that is there already gets a
/// patch of what may change; everything else is applied whole.
pub fn plan_apply(manifest: &Json, owner: Option<&Json>) -> (r: Result<ApplyPlan, String>)
    ensures
        ({
            let o: Option<JsonView> = match owner {
                Some(x) => Some(x@),
                None => None,
            };
            match r {
                Ok(plan) => {
                    &&& apply_refusal(manifest@) is None
                    &&& json::str_member(manifest@, "kind"@) == Some(plan.kind_name@)
                    &&& applicable(plan.kind_name@) == Some(plan.kind)
                    &&& manifest_name(manifest@) == Some(plan.name@)
                    &&& plan.manifest@ == owned(manifest@, o)
                    &&& plan.merge_patch@ == mutable_part(manifest@, o)
                },
                Err(e) => apply_refusal(manifest@) == Some(e@),
            }
        }),
{
    let kind = match manifest.str_at("kind") {
        Some(k) => k,
        None => {
            return Err("manifest missing 'kind'".to_string());
        },
    };
    let name = match manifest.get_in("metadata", "name") {
        Some(j) => j.as_str(),
        None => None,
    };
    let name = match name {
        Some(n) => n,
        None => {
            return Err("manifest missing 'metadata.name'".to_string());
        },
    };
    let known = if text::same(kind, "StatefulSet") {
        ResourceKind::StatefulSet
    } else if text::same(kind, "Service") {
        ResourceKind::Service
    } else if text::same(kind, "ConfigMap") {
        ResourceKind::ConfigMap
    } else {
        let mut out = "unsupported kind for server-side apply: ".to_string();
        out.append(kind);
        return Err(out);
    };
    Ok(
        ApplyPlan {
            kind: known,
            kind_name: kind.to_string(),
            name: name.to_string(),
            manifest: set_owner(manifest, owner),
            merge_patch: take_mutable_part(manifest, owner),
        },
    )
}

/// A patch of a stateful set that is there touches nothing but its replicas, its template, its
/// update strategy and its owner.
pub proof fn lemma_merge_patch_touches_mutable_only(
    manifest: JsonView,
    owner: Option<JsonView>,
    key: Seq<char>,
)
    ensures
        json::member(mutable_part(manifest, owner), key) is Some ==> key == "spec"@ || key
            == "metadata"@,
        json::member_in(mutable_part(manifest, owner), "spec"@, key) is Some ==> key == "replicas"@
            || key == "template"@ || key == "updateStrategy"@,
{
    reveal_strlit("spec");
    reveal_strlit("metadata");
    assert("spec"@.len() != "metadata"@.len());
}

/// The message of a manifest that was applied.
pub fn applied_message(kind: &str, name: &str) -> (r: String)
    ensures
        r@ == object_name(kind@, name@) + " applied"@,
{
    let mut out = name_object(kind, name);
    out.append(" applied");
    out
}

// ---------------------------------------------------------------------------
// The status of a pod
// ---------------------------------------------------------------------------
/// Reads the status of a pod.
pub struct GetPodStatus {
    pub namespace: String,
}

impl Tool for GetPodStatus {
    open spec fn tool_name(&self) -> Seq<char> {
        "get_pod_status"@
    }

    open spec fn tool_description(&self) -> Seq<char> {
        "Get the phase, conditions, and restart count of a specific pod."@
    }

    open spec fn tool_schema(&self) -> JsonView {
        schema::arguments(
            map![
                "pod_name"@ => schema::prop("string"@, "Name of the pod"@),
            ],
            Some(seq!["pod_name"@]),
        )
    }

    open spec fn tool_safety(&self) -> ToolSafety {
        ToolSafety::ReadOnly
    }

    fn name(&self) -> &str {
        "get_pod_status"
    }

    fn description(&self) -> &str {
        "Get the phase, conditions, and restart count of a specific pod."
    }

    fn parameters_schema(&self) -> Json {
        let mut props = JsonObject::new();
        props.put("pod_name", schema::make_prop("string", "Name of the pod"));
        let required: Vec<&str> = vec!["pod_name"];
        assert(required@.map_values(|p: &str| p@) =~= seq!["pod_name"@]);
        schema::make_arguments(props, required)
    }

    fn safety(&self) -> ToolSafety {
        ToolSafety::ReadOnly
    }
}

/// The restarts of the first `n` containers.
pub open spec fn restart_sum_to(counts: Seq<i32>, n: int) -> int
    decreases n,
{
    if n <= 0 {
        0
    } else {
        restart_sum_to(counts, n - 1) + counts[n - 1]
    }
}

/// Whether the sum of restarts fits at every container.
pub open spec fn restart_sums_fit(counts: Seq<i32>) -> bool {
    forall|n: int|
        0 <= n <= counts.len() ==> i32::MIN <= #[trigger] restart_sum_to(counts, n) <= i32::MAX
}

/// The conditions of a pod in words.
pub open spec fn conditions_shown(conditions: Seq<(String, String)>) -> Seq<Seq<char>> {
    conditions.map_values(|c: (String, String)| c.0@ + "="@ + c.1@)
}

/// The name of the pod that a call asks for, or its refusal.
pub fn required_text(args: &Json, key: &str, refusal: &str) -> (r: Result<String, ToolResult>)
    ensures
        match (r, json::str_member(args@, key@)) {
            (Ok(v), Some(s)) => v@ == s,
            (Err(e), None) => e@ == (ResultView { success: false, output: refusal@ }),
            _ => false,
        },
{
    match args.str_at(key) {
        Some(v) => Ok(v.to_string()),
        None => Err(ToolResult::failure(refusal.to_string())),
    }
}

impl GetPodStatus {
    /// A tool for the pods of a namespace.
    pub fn new(namespace: &str) -> (r: GetPodStatus)
        ensures
            r.namespace@ == namespace@,
    {
        GetPodStatus { namespace: namespace.to_string() }
    }

    /// Checks a call, and says which pod it is about.
    pub fn plan(&self, args: &Json) -> (r: Result<String, ToolResult>)
        ensures
            match (r, json::str_member(args@, "pod_name"@)) {
                (Ok(v), Some(s)) => v@ == s,
                (Err(e), None) => e@ == (ResultView {
                    success: false,
                    output: "missing pod_name"@,
                }),
                _ => false,
            },
    {
        required_text(args, "pod_name", "missing pod_name")
    }

    /// Reports the status of a pod.
    pub fn report(pod_name: &str, pod: &PodFacts) -> (r: ToolResult)
        requires
            restart_sums_fit(pod.restart_counts@),
        ensures
            r@ == (ResultView {
                success: true,
                output: json::json_written(
                    JsonView::Object(
                        map![
                            "pod"@ => JsonView::Str(pod_name@),
                            "phase"@ => JsonView::Str(
                                controller::or_default(pod.phase, "Unknown"@),
                            ),
                            "conditions"@ => schema::texts(conditions_shown(pod.conditions@)),
                            "restart_count"@ => JsonView::Number(
                                runner::number_of_i32(
                                    restart_sum_to(
                                        pod.restart_counts@,
                                        pod.restart_counts@.len() as int,
                                    ) as i32,
                                ),
                            ),
                        ],
                    ),
                ),
            }),
    {
        let counts = &pod.restart_counts;
        let mut restarts: i32 = 0;
        let mut i: usize = 0;
        while i < counts.len()
            invariant
                i <= counts@.len(),
                restart_sums_fit(counts@),
                restarts == restart_sum_to(counts@, i as int),
            decreases counts@.len() - i,
        {
            assert(i32::MIN <= restart_sum_to(counts@, i + 1) <= i32::MAX);
            restarts = restarts + counts[i];
            i = i + 1;
        }
        let ghost want = conditions_shown(pod.conditions@).map_values(
            |p: Seq<char>| JsonView::Str(p),
        );
        let mut conditions: Vec<Json> = Vec::new();
        let mut j: usize = 0;
        while j < pod.conditions.len()
            invariant
                j <= pod.conditions@.len(),
                want == conditions_shown(pod.conditions@).map_values(
                    |p: Seq<char>| JsonView::Str(p),
                ),
                json::views_of(conditions@) =~= want.take(j as int),
            decreases pod.conditions@.len() - j,
        {
            let mut shown = pod.conditions[j].0.clone();
            shown.append("=");
            shown.append(pod.conditions[j].1.as_str());
            let ghost before = conditions@;
            let item = Json::Str(shown);
            conditions.push(item);
            assert(json::views_of(conditions@) =~= json::views_of(before).push(item@));
            j = j + 1;
        }
        assert(json::views_of(conditions@) =~= want);
        let mut o = JsonObject::new();
        o.put("pod", Json::string(pod_name));
        o.put("phase", Json::Str(controller::text_or(&pod.phase, "Unknown")));
        o.put("conditions", Json::array(conditions));
        o.put("restart_count", runner::exit_number(restarts));
        ToolResult::success(Json::object(o).to_text())
    }
}

// ---------------------------------------------------------------------------
// The logs of a pod
// ---------------------------------------------------------------------------
/// Reads the logs of a pod.
pub struct GetPodLogs {
    pub namespace: String,
}

impl Tool for GetPodLogs {
    open spec fn tool_name(&self) -> Seq<char> {
        "get_pod_logs"@
    }

    open spec fn tool_description(&self) -> Seq<char> {
        "Get logs from a pod. Supports previous container, time filtering, container selection, and tail lines."@
    }

    open spec fn tool_schema(&self) -> JsonView {
        schema::arguments(
            map![
                "pod_name"@ => schema::prop("string"@, "Name of the pod"@),
                "container"@ => schema::prop("string"@, "Container name (optional, defaults to first container)"@),
                "previous"@ => schema::prop("boolean"@, "Get logs from previous terminated container (useful for crash analysis)"@),
                "since_seconds"@ => schema::prop("integer"@, "Only return logs newer than this many seconds"@),
                "tail_lines"@ => schema::prop("integer"@, "Number of lines from the end (default: 100)"@),
            ],
            Some(seq!["pod_name"@]),
        )
    }

    open spec fn tool_safety(&self) -> ToolSafety {
        ToolSafety::ReadOnly
    }

    fn name(&self) -> &str {
        "get_pod_logs"
    }

    fn description(&self) -> &str {
        "Get logs from a pod. Supports previous container, time filtering, container selection, and tail lines."
    }

    fn parameters_schema(&self) -> Json {
        let mut props = JsonObject::new();
        props.put("pod_name", schema::make_prop("string", "Name of the pod"));
        props.put("container", schema::make_prop("string", "Container name (optional, defaults to first container)"));
        props.put("previous", schema::make_prop("boolean", "Get logs from previous terminated container (useful for crash analysis)"));
        props.put("since_seconds", schema::make_prop("integer", "Only return logs newer than this many seconds"));
        props.put("tail_lines", schema::make_prop("integer", "Number of lines from the end (default: 100)"));
        let required: Vec<&str> = vec!["pod_name"];
        assert(required@.map_values(|p: &str| p@) =~= seq!["pod_name"@]);
        schema::make_arguments(props, required)
    }

    fn safety(&self) -> ToolSafety {
        ToolSafety::ReadOnly
    }
}

/// What a call for logs asks for.
pub struct LogRequest {
    pub pod_name: String,
    pub tail_lines: i64,
    pub previous: bool,
    pub since_seconds: Option<i64>,
    pub container: Option<String>,
}

impl GetPodLogs {
    /// A tool for the pods of a namespace.
    pub fn new(namespace: &str) -> (r: GetPodLogs)
        ensures
            r.namespace@ == namespace@,
    {
        GetPodLogs { namespace: namespace.to_string() }
    }

    /// Checks a call, and says which logs it asks for: the last hundred lines where it does not
    /// say.
    pub fn plan(&self, args: &Json) -> (r: Result<LogRequest, ToolResult>)
        ensures
            match (r, json::str_member(args@, "pod_name"@)) {
                (Ok(q), Some(name)) => {
                    &&& q.pod_name@ == name
                    &&& q.tail_lines == (match json::i64_member(args@, "tail_lines"@) {
                        Some(n) => n,
                        None => 100,
                    })
                    &&& q.previous == (json::bool_member(args@, "previous"@) == Some(true))
                    &&& q.since_seconds == json::i64_member(args@, "since_seconds"@)
                    &&& text::opt(q.container) == json::str_member(args@, "container"@)
                },
                (Err(e), None) => e@ == (ResultView {
                    success: false,
                    output: "missing pod_name"@,
                }),
                _ => false,
            },
    {
        let pod_name = match required_text(args, "pod_name", "missing pod_name") {
            Ok(v) => v,
            Err(e) => {
                return Err(e);
            },
        };
        Ok(
            LogRequest {
                pod_name,
                tail_lines: match args.i64_at("tail_lines") {
                    Some(n) => n,
                    None => 100,
                },
                previous: match args.bool_at("previous") {
                    Some(b) => b,
                    None => false,
                },
                since_seconds: args.i64_at("since_seconds"),
                container: match args.str_at("container") {
                    Some(c) => Some(c.to_string()),
                    None => None,
                },
            },
        )
    }
}

// ---------------------------------------------------------------------------
// Events
// ---------------------------------------------------------------------------
/// Lists the events of an object.
pub struct GetEvents {
    pub namespace: String,
    pub resource_name: String,
}

impl Tool for GetEvents {
    open spec fn tool_name(&self) -> Seq<char> {
        "get_events"@
    }

    open spec fn tool_description(&self) -> Seq<char> {
        "List Kubernetes events for a specific resource."@
    }

    open spec fn tool_schema(&self) -> JsonView {
        schema::arguments(
            map![
                "resource_name"@ => schema::prop("string"@, "Name of the resource to get events for (defaults to the current AIResource)"@),
            ],
            None,
        )
    }

    open spec fn tool_safety(&self) -> ToolSafety {
        ToolSafety::ReadOnly
    }

    fn name(&self) -> &str {
        "get_events"
    }

    fn description(&self) -> &str {
        "List Kubernetes events for a specific resource."
    }

    fn parameters_schema(&self) -> Json {
        let mut props = JsonObject::new();
        props.put("resource_name", schema::make_prop("string", "Name of the resource to get events for (defaults to the current AIResource)"));
        schema::make_open_arguments(props)
    }

    fn safety(&self) -> ToolSafety {
        ToolSafety::ReadOnly
    }
}

/// What the cluster says of an event.
pub struct EventFacts {
    pub reason: Option<String>,
    pub message: Option<String>,
    pub event_type: Option<String>,
    pub count: Option<i32>,
    pub last_timestamp: Option<String>,
}

/// An event as a document.
pub open spec fn event_json(e: EventFacts) -> JsonView {
    JsonView::Object(
        map![
            "reason"@ => status::text_or_null(text::opt(e.reason)),
            "message"@ => status::text_or_null(text::opt(e.message)),
            "type"@ => status::text_or_null(text::opt(e.event_type)),
            "count"@ => match e.count {
                Some(n) => JsonView::Number(runner::number_of_i32(n)),
                None => JsonView::Null,
            },
            "last_timestamp"@ => status::text_or_null(text::opt(e.last_timestamp)),
        ],
    )
}

fn make_text_or_null(s: &Option<String>) -> (r: Json)
    ensures
        r@ == status::text_or_null(text::opt(*s)),
{
    match s {
        Some(t) => Json::string(t.as_str()),
        None => Json::Null,
    }
}

impl GetEvents {
    /// A tool for the events of a resource.
    pub fn new(namespace: &str, resource_name: &str) -> (r: GetEvents)
        ensures
            r.namespace@ == namespace@,
            r.resource_name@ == resource_name@,
    {
        GetEvents { namespace: namespace.to_string(), resource_name: resource_name.to_string() }
    }

    /// The selector of the events that a call asks for: those of the tool's resource where it does
    /// not say.
    pub fn field_selector(&self, args: &Json) -> (r: String)
        ensures
            r@ == "involvedObject.name="@ + (match json::str_member(args@, "resource_name"@) {
                Some(name) => name,
                None => self.resource_name@,
            }),
    {
        let mut out = "involvedObject.name=".to_string();
        out.append(
            match args.str_at("resource_name") {
                Some(name) => name,
                None => self.resource_name.as_str(),
            },
        );
        out
    }

    /// Reports events.
    pub fn report(events: &Vec<EventFacts>) -> (r: ToolResult)
        ensures
            r@ == (ResultView {
                success: true,
                output: json::json_written(
                    JsonView::Array(events@.map_values(|e: EventFacts| event_json(e))),
                ),
            }),
    {
        let ghost want = events@.map_values(|e: EventFacts| event_json(e));
        let mut list: Vec<Json> = Vec::new();
        let mut i: usize = 0;
        while i < events.len()
            invariant
                i <= events@.len(),
                want == events@.map_values(|e: EventFacts| event_json(e)),
                json::views_of(list@) =~= want.take(i as int),
            decreases events@.len() - i,
        {
            let e = &events[i];
            let mut o = JsonObject::new();
            o.put("reason", make_text_or_null(&e.reason));
            o.put("message", make_text_or_null(&e.message));
            o.put("type", make_text_or_null(&e.event_type));
            o.put(
                "count",
                match e.count {
                    Some(n) => runner::exit_number(n),
                    None => Json::Null,
                },
            );
            o.put("last_timestamp", make_text_or_null(&e.last_timestamp));
            let ghost before = list@;
            let item = Json::object(o);
            assert(item@ == want[i as int]);
            list.push(item);
            assert(json::views_of(list@) =~= json::views_of(before).push(item@));
            i = i + 1;
        }
        assert(json::views_of(list@) =~= want);
        ToolResult::success(Json::array(list).to_text())
    }
}

// ---------------------------------------------------------------------------
// Waiting
// ---------------------------------------------------------------------------
/// Waits until pods are ready.
pub struct WaitForReady {
    pub namespace: String,
    pub resource_name: String,
}

impl Tool for WaitForReady {
    open spec fn tool_name(&self) -> Seq<char> {
        "wait_for_ready"@
    }

    open spec fn tool_description(&self) -> Seq<char> {
        "Poll until pods matching a label selector are Ready, with a timeout."@
    }

    open spec fn tool_schema(&self) -> JsonView {
        schema::arguments(
            map![
                "expected_count"@ => schema::prop("integer"@, "Number of ready pods expected"@),
                "timeout_seconds"@ => schema::prop("integer"@, "Timeout in seconds (default: 120)"@),
                "label_selector"@ => schema::prop("string"@, "Custom label selector (default: app.kubernetes.io/instance=<resource_name>)"@),
            ],
            Some(seq!["expected_count"@]),
        )
    }

    open spec fn tool_safety(&self) -> ToolSafety {
        ToolSafety::ReadOnly
    }

    fn name(&self) -> &str {
        "wait_for_ready"
    }

    fn description(&self) -> &str {
        "Poll until pods matching a label selector are Ready, with a timeout."
    }

    fn parameters_schema(&self) -> Json {
        let mut props = JsonObject::new();
        props.put("expected_count", schema::make_prop("integer", "Number of ready pods expected"));
        props.put("timeout_seconds", schema::make_prop("integer", "Timeout in seconds (default: 120)"));
        props.put("label_selector", schema::make_prop("string", "Custom label selector (default: app.kubernetes.io/instance=<resource_name>)"));
        let required: Vec<&str> = vec!["expected_count"];
        assert(required@.map_values(|p: &str| p@) =~= seq!["expected_count"@]);
        schema::make_arguments(props, required)
    }

    fn safety(&self) -> ToolSafety {
        ToolSafety::ReadOnly
    }
}

/// What a call waits for.
pub struct WaitRequest {
    pub expected_count: u64,
    pub timeout_seconds: u64,
    pub label_selector: String,
}

/// The seconds between two looks.
pub const POLL_SECS: u64 = 2;

/// How many of the first `n` pods are ready.
pub open spec fn ready_to(pods: Seq<PodFacts>, n: int) -> nat
    decreases n,
{
    if n <= 0 {
        0
    } else if controller::says_ready(pods[n - 1].conditions@) {
        ready_to(pods, n - 1) + 1
    } else {
        ready_to(pods, n - 1)
    }
}

/// What is reported of a wait.
pub open spec fn wait_json(ready: bool, actual: u64, expected: u64) -> JsonView {
    JsonView::Object(
        map![
            "ready"@ => JsonView::Bool(ready),
            "actual"@ => JsonView::Number(NumberView::Unsigned(actual)),
            "expected"@ => JsonView::Number(NumberView::Unsigned(expected)),
        ],
    )
}

/// What a wait comes to after a look: it ends where enough pods are ready or the time is over.
pub open spec fn wait_outcome(
    expected: u64,
    look: Result<Vec<PodFacts>, String>,
    time_over: bool,
) -> Option<ResultView> {
    match look {
        Ok(pods) => {
            let actual = ready_to(pods@, pods@.len() as int);
            if actual >= expected {
                Some(
                    ResultView {
                        success: true,
                        output: json::json_written(wait_json(true, actual as u64, expected)),
                    },
                )
            } else if time_over {
                Some(
                    ResultView {
                        success: false,
                        output: json::json_written(wait_json(false, actual as u64, expected)),
                    },
                )
            } else {
                None
            }
        },
        Err(e) => if time_over {
            Some(ResultView { success: false, output: "error: "@ + e@ })
        } else {
            None
        },
    }
}

fn make_wait_report(ready: bool, actual: u64, expected: u64) -> (r: String)
    ensures
        r@ == json::json_written(wait_json(ready, actual, expected)),
{
    let mut o = JsonObject::new();
    o.put("ready", Json::Bool(ready));
    o.put("actual", Json::unsigned(actual));
    o.put("expected", Json::unsigned(expected));
    Json::object(o).to_text()
}

impl WaitForReady {
    /// A tool for the pods of a resource.
    pub fn new(namespace: &str, resource_name: &str) -> (r: WaitForReady)
        ensures
            r.namespace@ == namespace@,
            r.resource_name@ == resource_name@,
    {
        WaitForReady { namespace: namespace.to_string(), resource_name: resource_name.to_string() }
    }

    /// What a call waits for: one pod, two minutes and the resource's own pods where it does not
    /// say.
    pub fn plan(&self, args: &Json) -> (r: WaitRequest)
        ensures
            r.expected_count == (match json::u64_member(args@, "expected_count"@) {
                Some(n) => n,
                None => 1,
            }),
            r.timeout_seconds == (match json::u64_member(args@, "timeout_seconds"@) {
                Some(n) => n,
                None => 120,
            }),
            r.label_selector@ == (match json::str_member(args@, "label_selector"@) {
                Some(s) => s,
                None => "app.kubernetes.io/instance="@ + self.resource_name@,
            }),
    {
        WaitRequest {
            expected_count: match args.u64_at("expected_count") {
                Some(n) => n,
                None => 1,
            },
            timeout_seconds: match args.u64_at("timeout_seconds") {
                Some(n) => n,
                None => 120,
            },
            label_selector: match args.str_at("label_selector") {
                Some(s) => s.to_string(),
                None => {
                    let mut out = "app.kubernetes.io/instance=".to_string();
                    out.append(self.resource_name.as_str());
                    out
                },
            },
        }
    }

    /// Decides after a look whether the wait is over, and with which report.
    pub fn step(expected: u64, look: &Result<Vec<PodFacts>, String>, time_over: bool) -> (r: Option<
        ToolResult,
    >)
        ensures
            match r {
                Some(t) => wait_outcome(expected, *look, time_over) == Some(t@),
                None => wait_outcome(expected, *look, time_over) is None,
            },
    {
        match look {
            Ok(pods) => {
                let mut actual: u64 = 0;
                let mut i: usize = 0;
                while i < pods.len()
                    invariant
                        i <= pods@.len(),
                        actual == ready_to(pods@, i as int),
                        actual <= i,
                    decreases pods@.len() - i,
                {
                    if controller::is_ready(&pods[i].conditions) {
                        actual = actual + 1;
                    }
                    i = i + 1;
                }
                if actual >= expected {
                    Some(ToolResult::success(make_wait_report(true, actual, expected)))
                } else if time_over {
                    Some(ToolResult::failure(make_wait_report(false, actual, expected)))
                } else {
                    None
                }
            },
            Err(e) => {
                if time_over {
                    Some(runtime::outside_error("error: ", e.as_str()))
                } else {
                    None
                }
            },
        }
    }
}

/// A wait is over at the latest at the first look after its time, and succeeds only with enough
/// pods ready.
pub proof fn lemma_wait_ends(expected: u64, look: Result<Vec<PodFacts>, String>, time_over: bool)
    ensures
        time_over ==> wait_outcome(expected, look, time_over) is Some,
        wait_outcome(expected, look, time_over) matches Some(t) ==> (t.success ==> look is Ok
            && ready_to(look->Ok_0@, look->Ok_0@.len() as int) >= expected),
{
}

// ---------------------------------------------------------------------------
// Reading objects
// ---------------------------------------------------------------------------
/// Describes an object.
pub struct KubectlDescribe {
    pub namespace: String,
}

impl Tool for KubectlDescribe {
    open spec fn tool_name(&self) -> Seq<char> {
        "kubectl_describe"@
    }

    open spec fn tool_description(&self) -> Seq<char> {
        "Describe a Kubernetes resource in detail (like kubectl describe). Returns spec, status, conditions, events."@
    }

    open spec fn tool_schema(&self) -> JsonView {
        schema::arguments(
            map![
                "kind"@ => schema::prop("string"@, "Resource kind: Pod, Service, StatefulSet, ConfigMap, Deployment, Event"@),
                "name"@ => schema::prop("string"@, "Name of the resource"@),
            ],
            Some(seq!["kind"@, "name"@]),
        )
    }

    open spec fn tool_safety(&self) -> ToolSafety {
        ToolSafety::ReadOnly
    }

    fn name(&self) -> &str {
        "kubectl_describe"
    }

    fn description(&self) -> &str {
        "Describe a Kubernetes resource in detail (like kubectl describe). Returns spec, status, conditions, events."
    }

    fn parameters_schema(&self) -> Json {
        let mut props = JsonObject::new();
        props.put("kind", schema::make_prop("string", "Resource kind: Pod, Service, StatefulSet, ConfigMap, Deployment, Event"));
        props.put("name", schema::make_prop("string", "Name of the resource"));
        let required: Vec<&str> = vec!["kind", "name"];
        assert(required@.map_values(|p: &str| p@) =~= seq!["kind"@, "name"@]);
        schema::make_arguments(props, required)
    }

    fn safety(&self) -> ToolSafety {
        ToolSafety::ReadOnly
    }
}

/// An object that a call asks for.
pub struct ObjectRequest {
    pub kind: ResourceKind,
    pub name: String,
}

/// Why a call for one object is refused.
pub open spec fn object_refusal(args: JsonView) -> Option<Seq<char>> {
    match (json::str_member(args, "kind"@), json::str_member(args, "name"@)) {
        (None, _) => Some("missing kind"@),
        (Some(_), None) => Some("missing name"@),
        (Some(kind), Some(_)) => match kind_named(kind) {
            Some(_) => None,
            None => Some(unsupported_kind(kind)),
        },
    }
}

impl KubectlDescribe {
    /// A tool for the objects of a namespace.
    pub fn new(namespace: &str) -> (r: KubectlDescribe)
        ensures
            r.namespace@ == namespace@,
    {
        KubectlDescribe { namespace: namespace.to_string() }
    }

    /// Checks a call, and says which object it is about.
    pub fn plan(&self, args: &Json) -> (r: Result<ObjectRequest, ToolResult>)
        ensures
            match r {
                Ok(q) => object_refusal(args@) is None && kind_named(
                    json::str_member(args@, "kind"@)->0,
                ) == Some(q.kind) && json::str_member(args@, "name"@) == Some(q.name@),
                Err(e) => !e.success && object_refusal(args@) == Some(e.output@),
            },
    {
        let kind = match args.str_at("kind") {
            Some(v) => v,
            None => {
                return Err(ToolResult::failure("missing kind".to_string()));
            },
        };
        let name = match args.str_at("name") {
            Some(v) => v,
            None => {
                return Err(ToolResult::failure("missing name".to_string()));
            },
        };
        match parse_kind(kind) {
            Some(k) => Ok(ObjectRequest { kind: k, name: name.to_string() }),
            None => Err(refuse_kind(kind)),
        }
    }

    /// Reports an object.
    pub fn report(object: &Json) -> (r: ToolResult)
        ensures
            r@ == (ResultView { success: true, output: json::json_written_pretty(object@) }),
    {
        ToolResult::success(object.to_text_pretty())
    }
}

/// Gets an object, or lists the objects of a kind.
pub struct KubectlGet {
    pub namespace: String,
}

impl Tool for KubectlGet {
    open spec fn tool_name(&self) -> Seq<char> {
        "kubectl_get"@
    }

    open spec fn tool_description(&self) -> Seq<char> {
        "Get a Kubernetes resource or list resources of a kind. Supports jsonpath to extract specific fields."@
    }

    open spec fn tool_schema(&self) -> JsonView {
        schema::arguments(
            map![
                "kind"@ => schema::prop("string"@, "Resource kind: Pod, Service, StatefulSet, ConfigMap, Deployment"@),
                "name"@ => schema::prop("string"@, "Name of the resource (omit to list all of this kind)"@),
                "jsonpath"@ => schema::prop("string"@, "Dot-separated path to extract specific fields (e.g. 'spec.replicas', 'status.phase')"@),
                "label_selector"@ => schema::prop("string"@, "Label selector to filter resources (e.g. 'app=my-app')"@),
            ],
            Some(seq!["kind"@]),
        )
    }

    open spec fn tool_safety(&self) -> ToolSafety {
        ToolSafety::ReadOnly
    }

    fn name(&self) -> &str {
        "kubectl_get"
    }

    fn description(&self) -> &str {
        "Get a Kubernetes resource or list resources of a kind. Supports jsonpath to extract specific fields."
    }

    fn parameters_schema(&self) -> Json {
        let mut props = JsonObject::new();
        props.put("kind", schema::make_prop("string", "Resource kind: Pod, Service, StatefulSet, ConfigMap, Deployment"));
        props.put("name", schema::make_prop("string", "Name of the resource (omit to list all of this kind)"));
        props.put("jsonpath", schema::make_prop("string", "Dot-separated path to extract specific fields (e.g. 'spec.replicas', 'status.phase')"));
        props.put("label_selector", schema::make_prop("string", "Label selector to filter resources (e.g. 'app=my-app')"));
        let required: Vec<&str> = vec!["kind"];
        assert(required@.map_values(|p: &str| p@) =~= seq!["kind"@]);
        schema::make_arguments(props, required)
    }

    fn safety(&self) -> ToolSafety {
        ToolSafety::ReadOnly
    }
}

/// One step of a path: an item by its index, or a member by its key.
pub open spec fn path_step(v: JsonView, segment: Seq<char>) -> Option<JsonView> {
    match text::parsed_unsigned(segment, usize::MAX as nat) {
        Some(n) => match v {
            JsonView::Array(items) => if n < items.len() {
                Some(items[n as int])
            } else {
                None
            },
            _ => None,
        },
        None => json::member(v, segment),
    }
}

/// What a path leads to, from its segment `i` on; null where it leads nowhere.
pub open spec fn path_from(v: JsonView, segments: Seq<Seq<char>>, i: int) -> JsonView
    decreases segments.len() - i,
{
    if i < 0 || i >= segments.len() {
        v
    } else {
        match path_step(v, segments[i]) {
            Some(next) => path_from(next, segments, i + 1),
            None => JsonView::Null,
        }
    }
}

/// What a dotted path leads to.
pub open spec fn path_value(v: JsonView, path: Seq<char>) -> JsonView {
    path_from(v, text::pieces(path, "."@), 0)
}

fn step_into<'a>(v: &'a Json, segment: &str) -> (r: Option<&'a Json>)
    ensures
        match r {
            Some(j) => path_step(v@, segment@) == Some(j@),
            None => path_step(v@, segment@) is None,
        },
{
    let index: Option<u64> = text::parse_u64(segment);
    match index {
        Some(n) => {
            if n <= usize::MAX as u64 {
                if let Json::Array(items) = v {
                    proof {
                        json::lemma_array_view(*items);
                    }
                    if (n as usize) < items.len() {
                        return Some(&items[n as usize]);
                    }
                }
                return None;
            }
        },
        None => {},
    }
    v.get(segment)
}

/// Extracts what a dotted path leads to, such as `spec.replicas`; null where it leads nowhere.
pub fn jsonpath_extract(value: &Json, path: &str) -> (r: Json)
    ensures
        r@ == path_value(value@, path@),
{
    proof {
        reveal_strlit(".");
    }
    let segments = text::split(path, ".");
    let ghost views = text::pieces(path@, "."@);
    let mut current = value;
    let mut i: usize = 0;
    while i < segments.len()
        invariant
            i <= segments@.len(),
            text::views(segments@) == views,
            views == text::pieces(path@, "."@),
            path_value(value@, path@) == path_from(current@, views, i as int),
        decreases segments@.len() - i,
    {
        assert(views[i as int] == segments@[i as int]@);
        match step_into(current, segments[i].as_str()) {
            Some(next) => {
                current = next;
            },
            None => {
                return Json::Null;
            },
        }
        i = i + 1;
    }
    assert(views.len() == segments@.len());
    current.clone()
}

/// What a call for objects asks for.
pub struct GetRequest {
    pub kind: ResourceKind,
    pub name: Option<String>,
    pub jsonpath: Option<String>,
    pub label_selector: Option<String>,
}

/// Why a call for objects is refused.
pub open spec fn get_refusal(args: JsonView) -> Option<Seq<char>> {
    match json::str_member(args, "kind"@) {
        None => Some("missing kind"@),
        Some(kind) => match kind_named(kind) {
            Some(_) => None,
            None => Some(unsupported_kind(kind)),
        },
    }
}

/// What is shown of an object: all of it, or what a path leads to.
pub open spec fn shown_part(object: JsonView, jsonpath: Option<Seq<char>>) -> JsonView {
    match jsonpath {
        Some(p) => path_value(object, p),
        None => object,
    }
}

fn show_part(object: &Json, jsonpath: &Option<String>) -> (r: Json)
    ensures
        r@ == shown_part(object@, text::opt(*jsonpath)),
{
    match jsonpath {
        Some(p) => jsonpath_extract(object, p.as_str()),
        None => object.clone(),
    }
}

fn text_at(args: &Json, key: &str) -> (r: Option<String>)
    ensures
        text::opt(r) == json::str_member(args@, key@),
{
    match args.str_at(key) {
        Some(s) => Some(s.to_string()),
        None => None,
    }
}

impl KubectlGet {
    /// A tool for the objects of a namespace.
    pub fn new(namespace: &str) -> (r: KubectlGet)
        ensures
            r.namespace@ == namespace@,
    {
        KubectlGet { namespace: namespace.to_string() }
    }

    /// Checks a call, and says which objects it asks for.
    pub fn plan(&self, args: &Json) -> (r: Result<GetRequest, ToolResult>)
        ensures
            match r {
                Ok(q) => {
                    &&& get_refusal(args@) is None
                    &&& kind_named(json::str_member(args@, "kind"@)->0) == Some(q.kind)
                    &&& text::opt(q.name) == json::str_member(args@, "name"@)
                    &&& text::opt(q.jsonpath) == json::str_member(args@, "jsonpath"@)
                    &&& text::opt(q.label_selector) == json::str_member(args@, "label_selector"@)
                },
                Err(e) => !e.success && get_refusal(args@) == Some(e.output@),
            },
    {
        let kind = match args.str_at("kind") {
            Some(v) => v,
            None => {
                return Err(ToolResult::failure("missing kind".to_string()));
            },
        };
        match parse_kind(kind) {
            Some(k) => Ok(
                GetRequest {
                    kind: k,
                    name: text_at(args, "name"),
                    jsonpath: text_at(args, "jsonpath"),
                    label_selector: text_at(args, "label_selector"),
                },
            ),
            None => Err(refuse_kind(kind)),
        }
    }

    /// Reports an object.
    pub fn report_one(object: &Json, jsonpath: &Option<String>) -> (r: ToolResult)
        ensures
            r@ == (ResultView {
                success: true,
                output: json::json_written_pretty(shown_part(object@, text::opt(*jsonpath))),
            }),
    {
        ToolResult::success(show_part(object, jsonpath).to_text_pretty())
    }

    /// Reports a list of objects.
    pub fn report_list(objects: &Vec<Json>, jsonpath: &Option<String>) -> (r: ToolResult)
        ensures
            r@ == (ResultView {
                success: true,
                output: json::json_written_pretty(
                    JsonView::Array(
                        json::views_of(objects@).map_values(
                            |o: JsonView| shown_part(o, text::opt(*jsonpath)),
                        ),
                    ),
                ),
            }),
    {
        let ghost want = json::views_of(objects@).map_values(
            |o: JsonView| shown_part(o, text::opt(*jsonpath)),
        );
        let mut list: Vec<Json> = Vec::new();
        let mut i: usize = 0;
        while i < objects.len()
            invariant
                i <= objects@.len(),
                want == json::views_of(objects@).map_values(
                    |o: JsonView| shown_part(o, text::opt(*jsonpath)),
                ),
                json::views_of(list@) =~= want.take(i as int),
            decreases objects@.len() - i,
        {
            let ghost before = list@;
            let item = show_part(&objects[i], jsonpath);
            assert(json::views_of(objects@)[i as int] == objects@[i as int]@);
            list.push(item);
            assert(json::views_of(list@) =~= json::views_of(before).push(item@));
            i = i + 1;
        }
        assert(json::views_of(list@) =~= want);
        ToolResult::success(Json::array(list).to_text_pretty())
    }
}

// ---------------------------------------------------------------------------
// Scaling
// ---------------------------------------------------------------------------
/// Scales a stateful set or a deployment.
pub struct KubectlScale {
    pub namespace: String,
    pub guardrails: Option<GuardrailSpec>,
}

impl Tool for KubectlScale {
    open spec fn tool_name(&self) -> Seq<char> {
        "kubectl_scale"@
    }

    open spec fn tool_description(&self) -> Seq<char> {
        "Scale a StatefulSet or Deployment to the specified number of replicas."@
    }

    open spec fn tool_schema(&self) -> JsonView {
        schema::arguments(
            map![
                "kind"@ => schema::prop("string"@, "Resource kind: StatefulSet or Deployment"@),
                "name"@ => schema::prop("string"@, "Name of the resource to scale"@),
                "replicas"@ => schema::prop("integer"@, "Desired number of replicas"@),
            ],
            Some(seq!["kind"@, "name"@, "replicas"@]),
        )
    }

    open spec fn tool_safety(&self) -> ToolSafety {
        ToolSafety::Validated
    }

    fn name(&self) -> &str {
        "kubectl_scale"
    }

    fn description(&self) -> &str {
        "Scale a StatefulSet or Deployment to the specified number of replicas."
    }

    fn parameters_schema(&self) -> Json {
        let mut props = JsonObject::new();
        props.put("kind", schema::make_prop("string", "Resource kind: StatefulSet or Deployment"));
        props.put("name", schema::make_prop("string", "Name of the resource to scale"));
        props.put("replicas", schema::make_prop("integer", "Desired number of replicas"));
        let required: Vec<&str> = vec!["kind", "name", "replicas"];
        assert(required@.map_values(|p: &str| p@) =~= seq!["kind"@, "name"@, "replicas"@]);
        schema::make_arguments(props, required)
    }

    fn safety(&self) -> ToolSafety {
        ToolSafety::Validated
    }
}

/// The most replicas that guardrails allow, where they say.
pub open spec fn max_replicas(guardrails: Option<GuardrailSpec>) -> Option<u32> {
    match guardrails {
        Some(g) => g.max_replicas,
        None => None,
    }
}

/// The kinds that can be scaled.
pub open spec fn scalable(kind: Seq<char>) -> Option<ResourceKind> {
    match kind_named(kind) {
        Some(ResourceKind::StatefulSet) => Some(ResourceKind::StatefulSet),
        Some(ResourceKind::Deployment) => Some(ResourceKind::Deployment),
        _ => None,
    }
}

/// What a call for scaling asks for.
pub struct ScaleRequest {
    pub kind: ResourceKind,
    pub kind_name: String,
    pub name: String,
    pub replicas: u32,
    pub patch: Json,
}

/// Why a call for scaling is refused.
pub open spec fn scale_refusal(args: JsonView, max: Option<u32>) -> Option<Seq<char>> {
    match (
        json::str_member(args, "kind"@),
        json::str_member(args, "name"@),
        json::u32_member(args, "replicas"@),
    ) {
        (None, _, _) => Some("missing kind"@),
        (Some(_), None, _) => Some("missing name"@),
        (Some(_), Some(_), None) => Some("missing or invalid replicas"@),
        (Some(kind), Some(_), Some(n)) => if max is Some && n > max->0 {
            Some(
                "guardrail: requested "@ + text::decimal(n as nat)
                    + " replicas exceeds max_replicas "@ + text::decimal(max->0 as nat),
            )
        } else if scalable(kind) is None {
            Some(
                "unsupported kind '"@ + kind + "' for scale. Use StatefulSet or Deployment"@,
            )
        } else {
            None
        },
    }
}

/// The patch that sets the replicas.
pub open spec fn replicas_patch(replicas: u32) -> JsonView {
    JsonView::Object(
        map![
            "spec"@ => JsonView::Object(
                map!["replicas"@ => JsonView::Number(NumberView::Unsigned(replicas as u64))],
            ),
        ],
    )
}

impl KubectlScale {
    /// A tool for the objects of a namespace, within guardrails.
    pub fn new(namespace: &str, guardrails: Option<GuardrailSpec>) -> (r: KubectlScale)
        ensures
            r.namespace@ == namespace@,
            r.guardrails == guardrails,
    {
        KubectlScale { namespace: namespace.to_string(), guardrails }
    }

    /// Checks a call, and makes the patch that it asks for.
    pub fn plan(&self, args: &Json) -> (r: Result<ScaleRequest, ToolResult>)
        ensures
            match r {
                Ok(q) => {
                    &&& scale_refusal(args@, max_replicas(self.guardrails)) is None
                    &&& json::str_member(args@, "kind"@) == Some(q.kind_name@)
                    &&& scalable(q.kind_name@) == Some(q.kind)
                    &&& json::str_member(args@, "name"@) == Some(q.name@)
                    &&& json::u32_member(args@, "replicas"@) == Some(q.replicas)
                    &&& q.patch@ == replicas_patch(q.replicas)
                    &&& max_replicas(self.guardrails) matches Some(max) ==> q.replicas <= max
                },
                Err(e) => !e.success && scale_refusal(args@, max_replicas(self.guardrails)) == Some(
                    e.output@,
                ),
            },
    {
        let kind = match args.str_at("kind") {
            Some(v) => v,
            None => {
                return Err(ToolResult::failure("missing kind".to_string()));
            },
        };
        let name = match args.str_at("name") {
            Some(v) => v,
            None => {
                return Err(ToolResult::failure("missing name".to_string()));
            },
        };
        let replicas: u32 = match args.u32_at("replicas") {
            Some(n) => n,
            None => {
                return Err(ToolResult::failure("missing or invalid replicas".to_string()));
            },
        };
        if let Some(g) = &self.guardrails {
            if let Some(max) = g.max_replicas {
                if replicas > max {
                    let mut out = "guardrail: requested ".to_string();
                    out.append(text::decimal_of(replicas as u128).as_str());
                    out.append(" replicas exceeds max_replicas ");
                    out.append(text::decimal_of(max as u128).as_str());
                    return Err(ToolResult::failure(out));
                }
            }
        }
        let known = match parse_kind(kind) {
            Some(ResourceKind::StatefulSet) => ResourceKind::StatefulSet,
            Some(ResourceKind::Deployment) => ResourceKind::Deployment,
            _ => {
                let mut out = "unsupported kind '".to_string();
                out.append(kind);
                out.append("' for scale. Use StatefulSet or Deployment");
                return Err(ToolResult::failure(out));
            },
        };
        let mut spec = JsonObject::new();
        spec.put("replicas", Json::unsigned(replicas as u64));
        let mut o = JsonObject::new();
        o.put("spec", Json::object(spec));
        Ok(
            ScaleRequest {
                kind: known,
                kind_name: kind.to_string(),
                name: name.to_string(),
                replicas,
                patch: Json::object(o),
            },
        )
    }

    /// Reports an object that was scaled.
    pub fn report(kind: &str, name: &str, replicas: u32) -> (r: ToolResult)
        ensures
            r@ == (ResultView {
                success: true,
                output: object_name(kind@, name@) + " scaled to "@ + text::decimal(replicas as nat)
                    + " replicas"@,
            }),
    {
        let mut out = name_object(kind, name);
        out.append(" scaled to ");
        out.append(text::decimal_of(replicas as u128).as_str());
        out.append(" replicas");
        ToolResult::success(out)
    }
}

// ---------------------------------------------------------------------------
// Patching
// ---------------------------------------------------------------------------
/// Patches an object.
pub struct KubectlPatch {
    pub namespace: String,
    pub guardrails: Option<GuardrailSpec>,
}

/// The parts of the metadata that agents never patch.
pub open spec fn blocked_fields() -> Seq<Seq<char>> {
    seq!["ownerReferences"@, "finalizers"@, "namespace"@, "uid"@, "deletionTimestamp"@]
}

/// The first of the blocked parts, from index `i` on, that a patch holds.
pub open spec fn blocked_from(patch: JsonView, i: int) -> Option<Seq<char>>
    decreases blocked_fields().len() - i,
{
    if i < 0 || i >= blocked_fields().len() {
        None
    } else if json::member_in(patch, "metadata"@, blocked_fields()[i]) is Some {
        Some(blocked_fields()[i])
    } else {
        blocked_from(patch, i + 1)
    }
}

/// Why the fields of a patch are refused.
pub open spec fn patch_fault(patch: JsonView) -> Option<Seq<char>> {
    match blocked_from(patch, 0) {
        Some(field) => Some("patching 'metadata."@ + field + "' is not allowed"@),
        None => None,
    }
}

/// Refuses a patch of what agents never patch.
pub fn validate_patch_fields(patch: &Json) -> (r: Result<(), String>)
    ensures
        refusal_of(r) == patch_fault(patch@),
{
    let fields: Vec<&str> = vec![
        "ownerReferences",
        "finalizers",
        "namespace",
        "uid",
        "deletionTimestamp",
    ];
    assert(fields@.map_values(|f: &str| f@) =~= blocked_fields());
    let mut i: usize = 0;
    while i < fields.len()
        invariant
            i <= fields@.len(),
            fields@.map_values(|f: &str| f@) =~= blocked_fields(),
            blocked_from(patch@, 0) == blocked_from(patch@, i as int),
        decreases fields@.len() - i,
    {
        assert(blocked_fields()[i as int] == fields@[i as int]@);
        if patch.get_in("metadata", fields[i]).is_some() {
            let mut out = "patching 'metadata.".to_string();
            out.append(fields[i]);
            out.append("' is not allowed");
            return Err(out);
        }
        i = i + 1;
    }
    assert(blocked_fields().len() == fields@.len());
    Ok(())
}

/// A patch that passes holds none of the blocked parts.
pub proof fn lemma_passing_patch_holds_nothing_blocked(patch: JsonView, k: int)
    requires
        patch_fault(patch) is None,
        0 <= k < blocked_fields().len(),
    ensures
        json::member_in(patch, "metadata"@, blocked_fields()[k]) is None,
{
    lemma_blocked_from(patch, 0, k);
}

proof fn lemma_blocked_from(patch: JsonView, i: int, k: int)
    requires
        blocked_from(patch, i) is None,
        0 <= i <= k < blocked_fields().len(),
    ensures
        json::member_in(patch, "metadata"@, blocked_fields()[k]) is None,
    decreases k - i,
{
    if i < k {
        lemma_blocked_from(patch, i + 1, k);
    }
}

impl Tool for KubectlPatch {
    open spec fn tool_name(&self) -> Seq<char> {
        "kubectl_patch"@
    }

    open spec fn tool_description(&self) -> Seq<char> {
        "Patch a Kubernetes resource using JSON merge patch. Cannot modify ownerReferences, finalizers, or namespace."@
    }

    open spec fn tool_schema(&self) -> JsonView {
        schema::arguments(
            map![
                "kind"@ => schema::prop("string"@, "Resource kind: Pod, Service, StatefulSet, ConfigMap, Deployment"@),
                "name"@ => schema::prop("string"@, "Name of the resource to patch"@),
                "patch"@ => schema::prop("object"@, "JSON merge patch object"@),
            ],
            Some(seq!["kind"@, "name"@, "patch"@]),
        )
    }

    open spec fn tool_safety(&self) -> ToolSafety {
        ToolSafety::Validated
    }

    fn name(&self) -> &str {
        "kubectl_patch"
    }

    fn description(&self) -> &str {
        "Patch a Kubernetes resource using JSON merge patch. Cannot modify ownerReferences, finalizers, or namespace."
    }

    fn parameters_schema(&self) -> Json {
        let mut props = JsonObject::new();
        props.put("kind", schema::make_prop("string", "Resource kind: Pod, Service, StatefulSet, ConfigMap, Deployment"));
        props.put("name", schema::make_prop("string", "Name of the resource to patch"));
        props.put("patch", schema::make_prop("object", "JSON merge patch object"));
        let required: Vec<&str> = vec!["kind", "name", "patch"];
        assert(required@.map_values(|p: &str| p@) =~= seq!["kind"@, "name"@, "patch"@]);
        schema::make_arguments(props, required)
    }

    fn safety(&self) -> ToolSafety {
        ToolSafety::Validated
    }
}

/// The replicas that a patch sets.
pub open spec fn patched_replicas(patch: JsonView) -> Option<u64> {
    match json::member_in(patch, "spec"@, "replicas"@) {
        Some(v) => json::u64_of(v),
        None => None,
    }
}

/// What a call for a patch asks for.
pub struct PatchRequest {
    pub kind: ResourceKind,
    pub kind_name: String,
    pub name: String,
    pub patch: Json,
}

/// The patch of a call, where it is an object.
pub open spec fn patch_of(args: JsonView) -> Option<JsonView> {
    match json::member(args, "patch"@) {
        Some(JsonView::Object(m)) => Some(JsonView::Object(m)),
        _ => None,
    }
}

/// Why a call for a patch is refused.
pub open spec fn patch_refusal(args: JsonView, max: Option<u32>) -> Option<Seq<char>> {
    match (
        json::str_member(args, "kind"@),
        json::str_member(args, "name"@),
        patch_of(args),
    ) {
        (None, _, _) => Some("missing kind"@),
        (Some(_), None, _) => Some("missing name"@),
        (Some(_), Some(_), None) => Some("missing or invalid patch object"@),
        (Some(kind), Some(_), Some(patch)) => if patch_fault(patch) is Some {
            Some("guardrail: "@ + patch_fault(patch)->0)
        } else if max is Some && patched_replicas(patch) is Some && patched_replicas(patch)->0
            > max->0 {
            Some(
                "guardrail: patch replicas "@ + text::decimal(patched_replicas(patch)->0 as nat)
                    + " exceeds max_replicas "@ + text::decimal(max->0 as nat),
            )
        } else if kind_named(kind) is None {
            Some(unsupported_kind(kind))
        } else {
            None
        },
    }
}

impl KubectlPatch {
    /// A tool for the objects of a namespace, within guardrails.
    pub fn new(namespace: &str, guardrails: Option<GuardrailSpec>) -> (r: KubectlPatch)
        ensures
            r.namespace@ == namespace@,
            r.guardrails == guardrails,
    {
        KubectlPatch { namespace: namespace.to_string(), guardrails }
    }

    /// Checks a call, and says what is patched, and how.
    pub fn plan(&self, args: &Json) -> (r: Result<PatchRequest, ToolResult>)
        ensures
            match r {
                Ok(q) => {
                    &&& patch_refusal(args@, max_replicas(self.guardrails)) is None
                    &&& json::str_member(args@, "kind"@) == Some(q.kind_name@)
                    &&& kind_named(q.kind_name@) == Some(q.kind)
                    &&& json::str_member(args@, "name"@) == Some(q.name@)
                    &&& patch_of(args@) == Some(q.patch@)
                    &&& patch_fault(q.patch@) is None
                    &&& max_replicas(self.guardrails) matches Some(max) ==> (patched_replicas(
                        q.patch@,
                    ) matches Some(n) ==> n <= max)
                },
                Err(e) => !e.success && patch_refusal(args@, max_replicas(self.guardrails)) == Some(
                    e.output@,
                ),
            },
    {
        let kind = match args.str_at("kind") {
            Some(v) => v,
            None => {
                return Err(ToolResult::failure("missing kind".to_string()));
            },
        };
        let name = match args.str_at("name") {
            Some(v) => v,
            None => {
                return Err(ToolResult::failure("missing name".to_string()));
            },
        };
        let object = match args.object_at("patch") {
            Some(o) => o,
            None => {
                return Err(ToolResult::failure("missing or invalid patch object".to_string()));
            },
        };
        let patch = Json::object(object.copy());
        if let Err(e) = validate_patch_fields(&patch) {
            let mut out = "guardrail: ".to_string();
            out.append(e.as_str());
            return Err(ToolResult::failure(out));
        }
        if let Some(g) = &self.guardrails {
            if let Some(max) = g.max_replicas {
                let replicas: Option<u64> = match patch.get_in("spec", "replicas") {
                    Some(v) => v.as_u64(),
                    None => None,
                };
                if let Some(n) = replicas {
                    if n > max as u64 {
                        let mut out = "guardrail: patch replicas ".to_string();
                        out.append(text::decimal_of(n as u128).as_str());
                        out.append(" exceeds max_replicas ");
                        out.append(text::decimal_of(max as u128).as_str());
                        return Err(ToolResult::failure(out));
                    }
                }
            }
        }
        match parse_kind(kind) {
            Some(k) => Ok(
                PatchRequest {
                    kind: k,
                    kind_name: kind.to_string(),
                    name: name.to_string(),
                    patch,
                },
            ),
            None => Err(refuse_kind(kind)),
        }
    }

    /// Reports an object that was patched.
    pub fn report(kind: &str, name: &str) -> (r: ToolResult)
        ensures
            r@ == (ResultView {
                success: true,
                output: object_name(kind@, name@) + " patched successfully"@,
            }),
    {
        let mut out = name_object(kind, name);
        out.append(" patched successfully");
        ToolResult::success(out)
    }
}

// ---------------------------------------------------------------------------
// Running a command
// ---------------------------------------------------------------------------
/// Runs a command in a pod.
pub struct KubectlExec {
    pub namespace: String,
    pub denied_commands: Vec<String>,
}

/// What no command may hold, whatever the guardrails say.
pub open spec fn always_blocked() -> Seq<Seq<char>> {
    seq![
        "rm -rf /"@,
        "dd if="@,
        "mkfs"@,
        "shutdown"@,
        "reboot"@,
        "kubectl delete"@,
        "kill -9 1"@,
    ]
}

/// What no command may hold, whatever the guardrails say.
pub fn always_blocked_commands() -> (r: Vec<String>)
    ensures
        text::views(r@) == always_blocked(),
{
    let mut out: Vec<String> = Vec::new();
    out.push("rm -rf /".to_string());
    out.push("dd if=".to_string());
    out.push("mkfs".to_string());
    out.push("shutdown".to_string());
    out.push("reboot".to_string());
    out.push("kubectl delete".to_string());
    out.push("kill -9 1".to_string());
    assert(text::views(out@) =~= always_blocked());
    out
}

impl Tool for KubectlExec {
    open spec fn tool_name(&self) -> Seq<char> {
        "kubectl_exec"@
    }

    open spec fn tool_description(&self) -> Seq<char> {
        "Run a command in a running pod for diagnostics. Cannot run destructive commands."@
    }

    open spec fn tool_schema(&self) -> JsonView {
        schema::arguments(
            map![
                "pod_name"@ => schema::prop("string"@, "Name of the pod"@),
                "command"@ => schema::text_list("Command to run as array (e.g. ['pg_isready', '-h', 'localhost'])"@),
                "container"@ => schema::prop("string"@, "Container name (optional, defaults to first container)"@),
                "timeout_seconds"@ => schema::prop("integer"@, "Timeout in seconds (default: 30)"@),
            ],
            Some(seq!["pod_name"@, "command"@]),
        )
    }

    open spec fn tool_safety(&self) -> ToolSafety {
        ToolSafety::Validated
    }

    fn name(&self) -> &str {
        "kubectl_exec"
    }

    fn description(&self) -> &str {
        "Run a command in a running pod for diagnostics. Cannot run destructive commands."
    }

    fn parameters_schema(&self) -> Json {
        let mut props = JsonObject::new();
        props.put("pod_name", schema::make_prop("string", "Name of the pod"));
        props.put("command", schema::make_text_list("Command to run as array (e.g. ['pg_isready', '-h', 'localhost'])"));
        props.put("container", schema::make_prop("string", "Container name (optional, defaults to first container)"));
        props.put("timeout_seconds", schema::make_prop("integer", "Timeout in seconds (default: 30)"));
        let required: Vec<&str> = vec!["pod_name", "command"];
        assert(required@.map_values(|p: &str| p@) =~= seq!["pod_name"@, "command"@]);
        schema::make_arguments(props, required)
    }

    fn safety(&self) -> ToolSafety {
        ToolSafety::Validated
    }
}

/// The texts among the first `n` items.
pub open spec fn texts_to(items: Seq<JsonView>, n: int) -> Seq<Seq<char>>
    decreases n,
{
    if n <= 0 {
        seq![]
    } else {
        match items[n - 1] {
            JsonView::Str(s) => texts_to(items, n - 1).push(s),
            _ => texts_to(items, n - 1),
        }
    }
}

/// The words of the command of a call.
pub open spec fn command_of(args: JsonView) -> Option<Seq<Seq<char>>> {
    match json::array_member(args, "command"@) {
        Some(items) => Some(texts_to(items, items.len() as int)),
        None => None,
    }
}

/// What a call for a command asks for.
pub struct ExecRequest {
    pub pod_name: String,
    pub command: Vec<String>,
    pub container: Option<String>,
    pub timeout_secs: u64,
}

/// Why a command is refused.
pub open spec fn command_refusal(command: Seq<Seq<char>>, denied: Seq<Seq<char>>) -> Option<
    Seq<char>,
> {
    let line = text::joined(command, " "@);
    match runtime::denied_in(line, always_blocked(), 0) {
        Some(b) => Some(
            "blocked: command contains '"@ + b + "' which is never allowed"@,
        ),
        None => match runtime::denied_in(line, denied, 0) {
            Some(d) => Some("guardrail: command contains denied command '"@ + d + "'"@),
            None => None,
        },
    }
}

/// Why a call for a command is refused.
pub open spec fn exec_refusal(args: JsonView, denied: Seq<Seq<char>>) -> Option<Seq<char>> {
    match (json::str_member(args, "pod_name"@), command_of(args)) {
        (None, _) => Some("missing pod_name"@),
        (Some(_), None) => Some("missing or invalid command array"@),
        (Some(_), Some(command)) => if command.len() == 0 {
            Some("command array is empty"@)
        } else {
            command_refusal(command, denied)
        },
    }
}

/// A command that passes holds nothing that is blocked and nothing that is denied.
pub proof fn lemma_passing_command_is_clean(
    command: Seq<Seq<char>>,
    denied: Seq<Seq<char>>,
    k: int,
)
    requires
        command_refusal(command, denied) is None,
    ensures
        0 <= k < always_blocked().len() ==> !text::has(
            text::joined(command, " "@),
            always_blocked()[k],
        ),
        0 <= k < denied.len() ==> !text::has(text::joined(command, " "@), denied[k]),
{
    let line = text::joined(command, " "@);
    if 0 <= k < always_blocked().len() {
        runtime::lemma_allowed_holds_none(line, always_blocked(), k);
    }
    if 0 <= k < denied.len() {
        runtime::lemma_allowed_holds_none(line, denied, k);
    }
}

fn collect_texts(items: &Vec<Json>) -> (r: Vec<String>)
    ensures
        text::views(r@) == texts_to(json::views_of(items@), items@.len() as int),
{
    let ghost views = json::views_of(items@);
    let mut out: Vec<String> = Vec::new();
    let mut i: usize = 0;
    while i < items.len()
        invariant
            i <= items@.len(),
            views == json::views_of(items@),
            text::views(out@) =~= texts_to(views, i as int),
        decreases items@.len() - i,
    {
        assert(views[i as int] == items@[i as int]@);
        let ghost before = out@;
        if let Some(s) = items[i].as_str() {
            out.push(s.to_string());
            assert(text::views(out@) =~= text::views(before).push(s@));
        }
        i = i + 1;
    }
    out
}

impl KubectlExec {
    /// A tool for the pods of a namespace that runs none of the denied commands.
    pub fn new(namespace: &str, denied_commands: Vec<String>) -> (r: KubectlExec)
        ensures
            r.namespace@ == namespace@,
            r.denied_commands == denied_commands,
    {
        KubectlExec { namespace: namespace.to_string(), denied_commands }
    }

    /// Checks a call, and says what runs where.
    pub fn plan(&self, args: &Json) -> (r: Result<ExecRequest, ToolResult>)
        ensures
            match r {
                Ok(q) => {
                    &&& exec_refusal(args@, text::views(self.denied_commands@)) is None
                    &&& json::str_member(args@, "pod_name"@) == Some(q.pod_name@)
                    &&& command_of(args@) == Some(text::views(q.command@))
                    &&& text::opt(q.container) == json::str_member(args@, "container"@)
                    &&& q.timeout_secs == (match json::u64_member(args@, "timeout_seconds"@) {
                        Some(n) => n,
                        None => 30,
                    })
                },
                Err(e) => !e.success && exec_refusal(args@, text::views(self.denied_commands@))
                    == Some(e.output@),
            },
    {
        let pod_name = match args.str_at("pod_name") {
            Some(v) => v,
            None => {
                return Err(ToolResult::failure("missing pod_name".to_string()));
            },
        };
        let command = match args.array_at("command") {
            Some(items) => {
                assert(json::views_of(items@).len() == items@.len());
                collect_texts(items)
            },
            None => {
                return Err(ToolResult::failure("missing or invalid command array".to_string()));
            },
        };
        assert(text::views(command@).len() == command@.len());
        if command.len() == 0 {
            return Err(ToolResult::failure("command array is empty".to_string()));
        }
        let line = text::join(&command, " ");
        if let Some(b) = runtime::find_denied(line.as_str(), &always_blocked_commands()) {
            let mut out = "blocked: command contains '".to_string();
            out.append(b.as_str());
            out.append("' which is never allowed");
            return Err(ToolResult::failure(out));
        }
        if let Some(d) = runtime::find_denied(line.as_str(), &self.denied_commands) {
            let mut out = "guardrail: command contains denied command '".to_string();
            out.append(d.as_str());
            out.append("'");
            return Err(ToolResult::failure(out));
        }
        Ok(
            ExecRequest {
                pod_name: pod_name.to_string(),
                command,
                container: text_at(args, "container"),
                timeout_secs: match args.u64_at("timeout_seconds") {
                    Some(n) => n,
                    None => 30,
                },
            },
        )
    }

    /// Reports a command that ran.
    pub fn report(exit_code: i32, stdout: &str, stderr: &str) -> (r: ToolResult)
        ensures
            r.success == (exit_code == 0),
            r.output@ == json::json_written(
                JsonView::Object(runtime::script_report(exit_code, stdout@, stderr@)),
            ),
    {
        let o = runtime::make_script_report(exit_code, stdout, stderr);
        ToolResult { success: exit_code == 0, output: Json::object(o).to_text() }
    }

    /// Reports a command that did not end in time.
    pub fn report_timeout(timeout_secs: u64) -> (r: ToolResult)
        ensures
            r@ == (ResultView {
                success: false,
                output: "timeout: command did not complete within "@ + text::decimal(
                    timeout_secs as nat,
                ) + "s"@,
            }),
    {
        let mut out = "timeout: command did not complete within ".to_string();
        out.append(text::decimal_of(timeout_secs as u128).as_str());
        out.append("s");
        ToolResult::failure(out)
    }
}

// ---------------------------------------------------------------------------
// What is applied
// ---------------------------------------------------------------------------
/// The patch of a stateful set that is there carries what the manifest says of its replicas, its
/// template and its update strategy, each with its value, and its owner where there is one.
pub proof fn lemma_merge_patch_carries_mutable_fields(
    manifest: JsonView,
    owner: Option<JsonView>,
    key: Seq<char>,
)
    ensures
        key == "replicas"@ || key == "template"@ || key == "updateStrategy"@ ==> json::member_in(
            mutable_part(manifest, owner),
            "spec"@,
            key,
        ) == json::member_in(manifest, "spec"@, key),
        owner matches Some(o) ==> json::member_in(
            mutable_part(manifest, owner),
            "metadata"@,
            "ownerReferences"@,
        ) == Some(JsonView::Array(seq![o])),
        owner is None ==> json::member(mutable_part(manifest, owner), "metadata"@) is None,
{
    reveal_strlit("spec");
    reveal_strlit("metadata");
    reveal_strlit("replicas");
    reveal_strlit("template");
    reveal_strlit("updateStrategy");
    assert("spec"@.len() != "metadata"@.len());
    assert("replicas"@[0] != "template"@[0]);
    assert("replicas"@.len() != "updateStrategy"@.len());
    assert("template"@.len() != "updateStrategy"@.len());
}

/// A manifest that is applied whole is the manifest, in every member, but for its owner.
pub proof fn lemma_owned_is_the_manifest(
    manifest: JsonView,
    owner: Option<JsonView>,
    key: Seq<char>,
)
    requires
        manifest_name(manifest) is Some,
    ensures
        owner is None ==> owned(manifest, owner) == manifest,
        key != "metadata"@ ==> json::member(owned(manifest, owner), key) == json::member(
            manifest,
            key,
        ),
        key != "ownerReferences"@ ==> json::member_in(owned(manifest, owner), "metadata"@, key)
            == json::member_in(manifest, "metadata"@, key),
        owner matches Some(o) ==> json::member_in(
            owned(manifest, owner),
            "metadata"@,
            "ownerReferences"@,
        ) == Some(JsonView::Array(seq![o])),
{
}

/// A manifest is applied exactly when it has a kind, a name and one of the three kinds; the first of
/// these that it lacks is said.
pub proof fn lemma_what_can_be_applied(manifest: JsonView)
    ensures
        ({
            let kind = json::member(manifest, "kind"@);
            let name = json::member_in(manifest, "metadata"@, "name"@);
            let known = kind matches Some(JsonView::Str(k)) && (k == "StatefulSet"@ || k
                == "Service"@ || k == "ConfigMap"@);
            &&& apply_refusal(manifest) is None <==> known && name is Some && name->0 is Str
            &&& !(kind is Some && kind->0 is Str) ==> apply_refusal(manifest) == Some(
                "manifest missing 'kind'"@,
            )
            &&& kind is Some && kind->0 is Str && !(name is Some && name->0 is Str)
                ==> apply_refusal(manifest) == Some("manifest missing 'metadata.name'"@)
            &&& kind matches Some(JsonView::Str(k)) ==> (apply_refusal(manifest) is Some && name is Some
                && name->0 is Str ==> apply_refusal(manifest) == Some(
                "unsupported kind for server-side apply: "@ + k,
            ))
        }),
{
}

/// Each kind that can be applied is applied as that kind.
pub proof fn lemma_kinds_that_are_applied()
    ensures
        applicable("StatefulSet"@) == Some(ResourceKind::StatefulSet),
        applicable("Service"@) == Some(ResourceKind::Service),
        applicable("ConfigMap"@) == Some(ResourceKind::ConfigMap),
{
    reveal_strlit("StatefulSet");
    reveal_strlit("Service");
    reveal_strlit("ConfigMap");
    assert("StatefulSet"@.len() == 11 && "Service"@.len() == 7 && "ConfigMap"@.len() == 9);
}

// ---------------------------------------------------------------------------
// Amounts, kinds and guardrails
// ---------------------------------------------------------------------------
proof fn lemma_not_ending(t: Seq<char>, suffix: Seq<char>)
    requires
        suffix.len() > 0,
        t.len() > 0,
        t.last() != suffix.last() || (suffix.len() == 2 && t.len() >= 2 && t[t.len() - 2]
            != suffix[0]),
    ensures
        !text::ends(t, suffix),
{
    if text::ends(t, suffix) {
        let i = t.len() - suffix.len();
        assert(t.subrange(i, i + suffix.len()).last() == suffix.last());
        assert(t.subrange(i, i + suffix.len())[0] == suffix[0]);
    }
}

proof fn lemma_amount_is_word(n: nat, unit: Seq<char>)
    requires
        text::is_word(unit),
    ensures
        text::trimmed(text::decimal(n) + unit) == text::decimal(n) + unit,
        text::decimal(n).len() > 0,
        text::is_digit(text::decimal(n).last()),
        (text::decimal(n) + unit).take(text::decimal(n).len() as int) == text::decimal(n),
        text::ends(text::decimal(n) + unit, unit),
{
    let d = text::decimal(n);
    let t = d + unit;
    text::lemma_decimal_is_word(n);
    text::lemma_decimal_parses(n, n);
    assert(text::all_digits(text::unsigned_part(d)));
    assert forall|k: int| 0 <= k < t.len() implies !text::white(#[trigger] t[k]) by {
        if k < d.len() {
            assert(t[k] == d[k]);
        } else {
            assert(t[k] == unit[k - d.len()]);
        }
    }
    text::lemma_word_is_trimmed(t);
    assert(t.take(d.len() as int) =~= d);
    assert(t.subrange(d.len() as int, t.len() as int) =~= unit);
    assert(d.last() == text::unsigned_part(d).last());
}

/// An amount of memory is its number, times 1024 to the third, second or first power for `Gi`, `Mi`
/// and `Ki`, times a thousand million or a million for `G` and `M`, and bytes without a unit.
pub proof fn lemma_memory_units(n: nat)
    requires
        n <= u64::MAX,
    ensures
        memory_bytes(text::decimal(n) + "Gi"@) == Some(n * 1073741824),
        memory_bytes(text::decimal(n) + "Mi"@) == Some(n * 1048576),
        memory_bytes(text::decimal(n) + "Ki"@) == Some(n * 1024),
        memory_bytes(text::decimal(n) + "G"@) == Some(n * 1000000000),
        memory_bytes(text::decimal(n) + "M"@) == Some(n * 1000000),
        memory_bytes(text::decimal(n)) == Some(n),
{
    reveal_strlit("Gi");
    reveal_strlit("Mi");
    reveal_strlit("Ki");
    reveal_strlit("G");
    reveal_strlit("M");
    let d = text::decimal(n);
    text::lemma_decimal_parses(n, u64::MAX as nat);
    lemma_amount_is_word(n, "Gi"@);
    lemma_amount_is_word(n, "Mi"@);
    lemma_amount_is_word(n, "Ki"@);
    lemma_amount_is_word(n, "G"@);
    lemma_amount_is_word(n, "M"@);
    lemma_amount_is_word(n, seq![]);
    assert(d + Seq::<char>::empty() =~= d);
    lemma_not_ending(d + "Mi"@, "Gi"@);
    lemma_not_ending(d + "Ki"@, "Gi"@);
    lemma_not_ending(d + "Ki"@, "Mi"@);
    lemma_not_ending(d + "G"@, "Gi"@);
    lemma_not_ending(d + "G"@, "Mi"@);
    lemma_not_ending(d + "G"@, "Ki"@);
    lemma_not_ending(d + "M"@, "Gi"@);
    lemma_not_ending(d + "M"@, "Mi"@);
    lemma_not_ending(d + "M"@, "Ki"@);
    lemma_not_ending(d + "M"@, "G"@);
    lemma_not_ending(d, "Gi"@);
    lemma_not_ending(d, "Mi"@);
    lemma_not_ending(d, "Ki"@);
    lemma_not_ending(d, "G"@);
    lemma_not_ending(d, "M"@);
}

/// White space around an amount of memory does not count.
pub proof fn lemma_memory_is_trimmed(before: Seq<char>, amount: Seq<char>, after: Seq<char>)
    requires
        text::all_white(before),
        text::all_white(after),
    ensures
        memory_bytes(before + amount + after) == memory_bytes(amount),
{
    text::lemma_trimmed_between(before, amount, after);
}

/// A request for memory is granted exactly where both amounts can be read and the request is no
/// more than what is allowed.
pub proof fn lemma_memory_is_granted_up_to_the_limit(
    requested: Seq<char>,
    spec_limit: Seq<char>,
    scale_factor: Seq<char>,
    max_allowed: u64,
)
    ensures
        memory_refusal(requested, spec_limit, scale_factor, max_allowed) is None <==> memory_bytes(
            spec_limit,
        ) is Some && (memory_bytes(requested) matches Some(n) && n <= max_allowed),
{
}

/// A kind is known by its own name, by that name in lower case, and by its short form, and by
/// nothing else.
pub proof fn lemma_kinds_go_by_name(name: Seq<char>)
    ensures
        kind_named("Pod"@) == Some(ResourceKind::Pod),
        kind_named("pod"@) == Some(ResourceKind::Pod),
        kind_named("Service"@) == Some(ResourceKind::Service),
        kind_named("service"@) == Some(ResourceKind::Service),
        kind_named("svc"@) == Some(ResourceKind::Service),
        kind_named("StatefulSet"@) == Some(ResourceKind::StatefulSet),
        kind_named("statefulset"@) == Some(ResourceKind::StatefulSet),
        kind_named("sts"@) == Some(ResourceKind::StatefulSet),
        kind_named("ConfigMap"@) == Some(ResourceKind::ConfigMap),
        kind_named("configmap"@) == Some(ResourceKind::ConfigMap),
        kind_named("cm"@) == Some(ResourceKind::ConfigMap),
        kind_named("Deployment"@) == Some(ResourceKind::Deployment),
        kind_named("deployment"@) == Some(ResourceKind::Deployment),
        kind_named("deploy"@) == Some(ResourceKind::Deployment),
        kind_named(name) is Some ==> name == "Pod"@ || name == "pod"@ || name == "Service"@ || name == "service"@ || name == "svc"@ || name == "StatefulSet"@ || name == "statefulset"@ || name == "sts"@ || name == "ConfigMap"@ || name == "configmap"@ || name == "cm"@ || name == "Deployment"@ || name == "deployment"@ || name == "deploy"@,
{
    reveal_strlit("Pod");
    reveal_strlit("pod");
    reveal_strlit("Service");
    reveal_strlit("service");
    reveal_strlit("svc");
    reveal_strlit("StatefulSet");
    reveal_strlit("statefulset");
    reveal_strlit("sts");
    reveal_strlit("ConfigMap");
    reveal_strlit("configmap");
    reveal_strlit("cm");
    reveal_strlit("Deployment");
    reveal_strlit("deployment");
    reveal_strlit("deploy");
    assert("Pod"@.len() == 3 && "pod"@.len() == 3 && "Service"@.len() == 7 && "service"@.len() == 7 && "svc"@.len() == 3 && "StatefulSet"@.len() == 11 && "statefulset"@.len() == 11 && "sts"@.len() == 3 && "ConfigMap"@.len() == 9 && "configmap"@.len() == 9 && "cm"@.len() == 2 && "Deployment"@.len() == 10 && "deployment"@.len() == 10 && "deploy"@.len() == 6);
    assert("Pod"@[0] == 'P' && "pod"@[0] == 'p' && "svc"@[1] == 'v' && "sts"@[1] == 't' && "pod"@[1] == 'o');
}

/// A call for one object is refused exactly where its kind or its name is missing, or its kind is
/// not known.
pub proof fn lemma_objects_are_asked_for_by_kind_and_name(args: JsonView)
    ensures
        object_refusal(args) is None <==> json::str_member(args, "name"@) is Some && (
        json::str_member(args, "kind"@) matches Some(k) && kind_named(k) is Some),
        get_refusal(args) is None <==> (json::str_member(args, "kind"@) matches Some(k)
            && kind_named(k) is Some),
{
}

proof fn lemma_sums_prefix(a: Seq<i32>, b: Seq<i32>, n: int)
    requires
        n <= a.len(),
        n <= b.len(),
        forall|k: int| 0 <= k < n ==> #[trigger] a[k] == b[k],
    ensures
        restart_sum_to(a, n) == restart_sum_to(b, n),
    decreases n,
{
    if n > 0 {
        lemma_sums_prefix(a, b, n - 1);
    }
}

/// Every container's restarts count: one more container adds its own to the sum.
pub proof fn lemma_restart_sums_add_up(counts: Seq<i32>, count: i32)
    ensures
        restart_sum_to(counts, 0) == 0,
        restart_sum_to(counts.push(count), counts.len() as int + 1) == restart_sum_to(
            counts,
            counts.len() as int,
        ) + count,
{
    lemma_sums_prefix(counts, counts.push(count), counts.len() as int);
}

/// Every condition of a pod is shown in its place, with its name and its value.
pub proof fn lemma_conditions_are_shown(conditions: Seq<(String, String)>, i: int)
    requires
        0 <= i < conditions.len(),
    ensures
        conditions_shown(conditions).len() == conditions.len(),
        conditions_shown(conditions)[i] == conditions[i].0@ + seq!['='] + conditions[i].1@,
{
    reveal_strlit("=");
    assert("="@ =~= seq!['=']);
}

/// An event is told with everything that the cluster says of it; what it does not say is null.
pub proof fn lemma_events_are_told_whole(e: EventFacts)
    ensures
        e.reason matches Some(t) ==> json::str_member(event_json(e), "reason"@) == Some(t@),
        e.message matches Some(t) ==> json::str_member(event_json(e), "message"@) == Some(t@),
        e.event_type matches Some(t) ==> json::str_member(event_json(e), "type"@) == Some(t@),
        e.count matches Some(n) ==> json::i64_member(event_json(e), "count"@) == Some(n as i64),
        e.last_timestamp matches Some(t) ==> json::str_member(event_json(e), "last_timestamp"@)
            == Some(t@),
        e.reason is None ==> json::member(event_json(e), "reason"@) == Some(JsonView::Null),
        e.message is None ==> json::member(event_json(e), "message"@) == Some(JsonView::Null),
        e.event_type is None ==> json::member(event_json(e), "type"@) == Some(JsonView::Null),
        e.count is None ==> json::member(event_json(e), "count"@) == Some(JsonView::Null),
        e.last_timestamp is None ==> json::member(event_json(e), "last_timestamp"@) == Some(
            JsonView::Null,
        ),
{
    reveal_strlit("reason");
    reveal_strlit("message");
    reveal_strlit("type");
    reveal_strlit("count");
    reveal_strlit("last_timestamp");
    assert("reason"@.len() == 6 && "message"@.len() == 7 && "type"@.len() == 4 && "count"@.len()
        == 5 && "last_timestamp"@.len() == 14);
}

proof fn lemma_ready_prefix(a: Seq<PodFacts>, b: Seq<PodFacts>, n: int)
    requires
        n <= a.len(),
        n <= b.len(),
        forall|k: int| 0 <= k < n ==> #[trigger] a[k] == b[k],
    ensures
        ready_to(a, n) == ready_to(b, n),
    decreases n,
{
    if n > 0 {
        lemma_ready_prefix(a, b, n - 1);
    }
}

/// A pod counts as ready exactly where one of its conditions is `Ready` and `True`.
pub proof fn lemma_ready_pods_are_counted(pods: Seq<PodFacts>, pod: PodFacts)
    ensures
        ready_to(pods, 0) == 0,
        (exists|i: int|
            0 <= i < pod.conditions@.len() && (#[trigger] pod.conditions@[i]).0@ == "Ready"@
                && pod.conditions@[i].1@ == "True"@) ==> ready_to(
            pods.push(pod),
            pods.len() as int + 1,
        ) == ready_to(pods, pods.len() as int) + 1,
        (forall|i: int|
            0 <= i < pod.conditions@.len() ==> !((#[trigger] pod.conditions@[i]).0@ == "Ready"@
                && pod.conditions@[i].1@ == "True"@)) ==> ready_to(
            pods.push(pod),
            pods.len() as int + 1,
        ) == ready_to(pods, pods.len() as int),
{
    lemma_ready_prefix(pods, pods.push(pod), pods.len() as int);
}

/// A wait ends in success as soon as enough pods are ready, in failure when the time is over before
/// that, and goes on otherwise. Its report tells how many are ready and how many are expected.
pub proof fn lemma_wait_goes_on_until_ready(
    expected: u64,
    look: Result<Vec<PodFacts>, String>,
    time_over: bool,
)
    ensures
        look matches Ok(pods) ==> {
            let n = ready_to(pods@, pods@.len() as int);
            let enough = n >= expected;
            &&& wait_outcome(expected, look, time_over) is None <==> !enough && !time_over
            &&& enough || time_over ==> wait_outcome(expected, look, time_over) == Some(
                ResultView {
                    success: enough,
                    output: json::json_written(wait_json(enough, n as u64, expected)),
                },
            )
        },
        look matches Err(e) ==> {
            &&& !time_over ==> wait_outcome(expected, look, time_over) is None
            &&& time_over ==> wait_outcome(expected, look, time_over) == Some(
                ResultView { success: false, output: "error: "@ + e@ },
            )
        },
{
}

/// The report of a wait holds whether it was met, and both numbers.
pub proof fn lemma_wait_report_holds_the_numbers(ready: bool, actual: u64, expected: u64)
    ensures
        json::bool_member(wait_json(ready, actual, expected), "ready"@) == Some(ready),
        json::u64_member(wait_json(ready, actual, expected), "actual"@) == Some(actual),
        json::u64_member(wait_json(ready, actual, expected), "expected"@) == Some(expected),
{
    reveal_strlit("ready");
    reveal_strlit("actual");
    reveal_strlit("expected");
    assert("ready"@.len() == 5 && "actual"@.len() == 6 && "expected"@.len() == 8);
}

proof fn lemma_path_push(v: JsonView, segments: Seq<Seq<char>>, last: Seq<char>, i: int)
    requires
        0 <= i <= segments.len(),
    ensures
        path_from(v, segments.push(last), i) == (match path_step(path_from(v, segments, i), last) {
            Some(next) => next,
            None => JsonView::Null,
        }),
    decreases segments.len() - i,
{
    let all = segments.push(last);
    if i < segments.len() {
        assert(all[i] == segments[i]);
        match path_step(v, segments[i]) {
            Some(next) => {
                lemma_path_push(next, segments, last, i + 1);
            },
            None => {},
        }
    } else {
        assert(all[i] == last);
        match path_step(v, last) {
            Some(next) => {
                assert(path_from(next, all, i + 1) == next);
            },
            None => {},
        }
    }
}

/// A path leads step by step: its last step, where it is a key, leads to the member under the key,
/// and where it is a number, to the item at that index, of what the path before it leads to. Where
/// there is no such member or item, it leads to null.
pub proof fn lemma_paths_lead_step_by_step(v: JsonView, path: Seq<char>, step: Seq<char>)
    requires
        !step.contains('.'),
    ensures
        ({
            let at = path_value(v, path);
            let to = path_value(v, path + seq!['.'] + step);
            match text::parsed_unsigned(step, usize::MAX as nat) {
                None => match json::member(at, step) {
                    Some(next) => to == next,
                    None => to == JsonView::Null,
                },
                Some(n) => if at is Array && n < at->Array_0.len() {
                    to == at->Array_0[n as int]
                } else {
                    to == JsonView::Null
                },
            }
        }),
        text::parsed_unsigned(step, usize::MAX as nat) is None ==> match json::member(v, step) {
            Some(next) => path_value(v, step) == next,
            None => path_value(v, step) == JsonView::Null,
        },
        shown_part(v, None) == v,
        shown_part(v, Some(path)) == path_value(v, path),
{
    reveal_strlit(".");
    assert("."@ =~= seq!['.']);
    text::lemma_last_piece(path, '.', step);
    lemma_path_push(v, text::pieces(path, "."@), step, 0);
    lemma_path_push(v, seq![], step, 0);
    assert(Seq::<Seq<char>>::empty().push(step) =~= seq![step]);
}

/// An object is scaled exactly where its kind, its name and the replicas are given, the replicas are
/// no more than the guardrails allow, and it is a stateful set or a deployment.
pub proof fn lemma_scaling_stays_within_guardrails(args: JsonView, g: Option<GuardrailSpec>)
    ensures
        scale_refusal(args, max_replicas(g)) is None <==> {
            &&& json::str_member(args, "name"@) is Some
            &&& json::str_member(args, "kind"@) matches Some(k) && (kind_named(k) == Some(
                ResourceKind::StatefulSet,
            ) || kind_named(k) == Some(ResourceKind::Deployment))
            &&& json::u32_member(args, "replicas"@) matches Some(n) && (g matches Some(s) ==> (
            s.max_replicas matches Some(max) ==> n <= max))
        },
{
}

/// The patch of a scaling sets the replicas, and nothing else.
pub proof fn lemma_scaling_sets_the_replicas(replicas: u32, key: Seq<char>)
    ensures
        json::member_in(replicas_patch(replicas), "spec"@, "replicas"@) matches Some(v)
            && json::u64_of(v) == Some(replicas as u64),
        key != "spec"@ ==> json::member(replicas_patch(replicas), key) is None,
        key != "replicas"@ ==> json::member_in(replicas_patch(replicas), "spec"@, key) is None,
{
}

/// A patch of any of the blocked parts of the metadata is refused.
pub proof fn lemma_blocked_parts_are_refused(patch: JsonView)
    ensures
        json::member_in(patch, "metadata"@, "ownerReferences"@) is Some ==> patch_fault(patch) is Some,
        json::member_in(patch, "metadata"@, "finalizers"@) is Some ==> patch_fault(patch) is Some,
        json::member_in(patch, "metadata"@, "namespace"@) is Some ==> patch_fault(patch) is Some,
        json::member_in(patch, "metadata"@, "uid"@) is Some ==> patch_fault(patch) is Some,
        json::member_in(patch, "metadata"@, "deletionTimestamp"@) is Some ==> patch_fault(patch) is Some,
        patch_fault(patch) is Some ==> json::member_in(patch, "metadata"@, "ownerReferences"@) is Some || json::member_in(patch, "metadata"@, "finalizers"@) is Some || json::member_in(patch, "metadata"@, "namespace"@) is Some || json::member_in(patch, "metadata"@, "uid"@) is Some || json::member_in(patch, "metadata"@, "deletionTimestamp"@) is Some,
{
    let fields = blocked_fields();
    assert(fields.len() == 5);
    assert(fields[0] == "ownerReferences"@ && fields[1] == "finalizers"@ && fields[2] == "namespace"@ && fields[3] == "uid"@ && fields[4] == "deletionTimestamp"@);
    assert(blocked_from(patch, 5) is None);
    reveal_with_fuel(blocked_from, 6);
}

/// A patch is made exactly where the kind is known, the name and an object are given, none of the
/// blocked parts is in it, and it sets no more replicas than the guardrails allow.
pub proof fn lemma_patching_stays_within_guardrails(args: JsonView, g: Option<GuardrailSpec>)
    ensures
        patch_refusal(args, max_replicas(g)) is None <==> {
            &&& json::str_member(args, "name"@) is Some
            &&& json::str_member(args, "kind"@) matches Some(k) && kind_named(k) is Some
            &&& json::member(args, "patch"@) matches Some(patch) && patch is Object && patch_fault(
                patch,
            ) is None && (g matches Some(s) ==> (s.max_replicas matches Some(max) ==> (
            json::member_in(patch, "spec"@, "replicas"@) matches Some(v) ==> (json::u64_of(v) matches
                Some(n) ==> n <= max))))
        },
        json::member(args, "patch"@) matches Some(patch) ==> (patch is Object ==> patch_of(args)
            == Some(patch)),
{
}

proof fn lemma_texts_prefix(a: Seq<JsonView>, b: Seq<JsonView>, n: int)
    requires
        n <= a.len(),
        n <= b.len(),
        forall|k: int| 0 <= k < n ==> #[trigger] a[k] == b[k],
    ensures
        texts_to(a, n) == texts_to(b, n),
    decreases n,
{
    if n > 0 {
        lemma_texts_prefix(a, b, n - 1);
    }
}

/// The command is the texts of its array, in their order; what is no text is left out.
pub proof fn lemma_commands_are_their_texts(items: Seq<JsonView>, item: JsonView)
    ensures
        texts_to(items, 0) == Seq::<Seq<char>>::empty(),
        item matches JsonView::Str(s) ==> texts_to(items.push(item), items.len() as int + 1)
            == texts_to(items, items.len() as int).push(s),
        !(item is Str) ==> texts_to(items.push(item), items.len() as int + 1) == texts_to(
            items,
            items.len() as int,
        ),
        forall|args: JsonView|
            json::array_member(args, "command"@) == Some(items) ==> #[trigger] command_of(args)
                == Some(texts_to(items, items.len() as int)),
{
    lemma_texts_prefix(items, items.push(item), items.len() as int);
    assert(items.push(item)[items.len() as int] == item);
}

/// A command that holds what is never allowed is refused, whatever the guardrails say, and so is
/// one that holds a denied command. Any other is run.
pub proof fn lemma_commands_are_refused_for_what_they_hold(
    command: Seq<Seq<char>>,
    denied: Seq<Seq<char>>,
    k: int,
)
    ensures
        ({
            let line = text::joined(command, " "@);
            &&& text::has(line, "rm -rf /"@) ==> command_refusal(command, denied) is Some
            &&& text::has(line, "dd if="@) ==> command_refusal(command, denied) is Some
            &&& text::has(line, "mkfs"@) ==> command_refusal(command, denied) is Some
            &&& text::has(line, "shutdown"@) ==> command_refusal(command, denied) is Some
            &&& text::has(line, "reboot"@) ==> command_refusal(command, denied) is Some
            &&& text::has(line, "kubectl delete"@) ==> command_refusal(command, denied) is Some
            &&& text::has(line, "kill -9 1"@) ==> command_refusal(command, denied) is Some
            &&& 0 <= k < denied.len() && text::has(line, denied[k]) ==> command_refusal(
                command,
                denied,
            ) is Some
            &&& !text::has(line, "rm -rf /"@) && !text::has(line, "dd if="@) && !text::has(line, "mkfs"@) && !text::has(line, "shutdown"@) && !text::has(line, "reboot"@) && !text::has(line, "kubectl delete"@) && !text::has(line, "kill -9 1"@) && (forall|j: int|
                0 <= j < denied.len() ==> !text::has(line, #[trigger] denied[j]))
                ==> command_refusal(command, denied) is None
        }),
{
    let line = text::joined(command, " "@);
    let never = always_blocked();
    assert(never.len() == 7);
    assert(never[0] == "rm -rf /"@ && never[1] == "dd if="@ && never[2] == "mkfs"@ && never[3] == "shutdown"@ && never[4] == "reboot"@ && never[5] == "kubectl delete"@ && never[6] == "kill -9 1"@);
    runtime::lemma_denied_exactly(line, never);
    runtime::lemma_denied_exactly(line, denied);
}

/// A call runs a command exactly where it names a pod, its array holds a text, and the command is
/// not refused.
pub proof fn lemma_calls_run_their_command(args: JsonView, denied: Seq<Seq<char>>)
    ensures
        exec_refusal(args, denied) is None <==> json::str_member(args, "pod_name"@) is Some && (
        command_of(args) matches Some(c) && c.len() > 0 && command_refusal(c, denied) is None),
{
}

/// An object is named by its kind and its name, with a slash between them.
pub proof fn lemma_objects_are_named(kind: Seq<char>, name: Seq<char>)
    ensures
        object_name(kind, name) == kind + seq!['/'] + name,
        POLL_SECS == 2,
{
    reveal_strlit("/");
    assert("/"@ =~= seq!['/']);
}

/// What the model is told of the tool get_pod_status: its arguments, their types, and which it must give.
pub proof fn lemma_arguments_of_get_pod_status(tool: GetPodStatus)
    ensures
        tool.tool_name() == "get_pod_status"@,
        tool.tool_safety() == ToolSafety::ReadOnly,
        json::member_in(tool.tool_schema(), "properties"@, "pod_name"@) matches Some(p)
            && json::str_member(p, "type"@) == Some("string"@),
        json::member(tool.tool_schema(), "required"@) == Some(schema::texts(seq!["pod_name"@])),
{
    reveal_strlit("type");
    reveal_strlit("properties");
    reveal_strlit("required");
    reveal_strlit("description");
    reveal_strlit("enum");
    reveal_strlit("items");
    reveal_strlit("pod_name");
    assert("type"@.len() == 4 && "properties"@.len() == 10 && "required"@.len() == 8 && "description"@.len() == 11 && "enum"@.len() == 4 && "items"@.len() == 5 && "pod_name"@.len() == 8);
    assert("enum"@[0] == 'e' && "pod_name"@[0] == 'p' && "required"@[0] == 'r' && "type"@[0] == 't');
}

/// What the model is told of the tool get_pod_logs: its arguments, their types, and which it must give.
pub proof fn lemma_arguments_of_get_pod_logs(tool: GetPodLogs)
    ensures
        tool.tool_name() == "get_pod_logs"@,
        tool.tool_safety() == ToolSafety::ReadOnly,
        json::member_in(tool.tool_schema(), "properties"@, "pod_name"@) matches Some(p)
            && json::str_member(p, "type"@) == Some("string"@),
        json::member_in(tool.tool_schema(), "properties"@, "container"@) matches Some(p)
            && json::str_member(p, "type"@) == Some("string"@),
        json::member_in(tool.tool_schema(), "properties"@, "previous"@) matches Some(p)
            && json::str_member(p, "type"@) == Some("boolean"@),
        json::member_in(tool.tool_schema(), "properties"@, "since_seconds"@) matches Some(p)
            && json::str_member(p, "type"@) == Some("integer"@),
        json::member_in(tool.tool_schema(), "properties"@, "tail_lines"@) matches Some(p)
            && json::str_member(p, "type"@) == Some("integer"@),
        json::member(tool.tool_schema(), "required"@) == Some(schema::texts(seq!["pod_name"@])),
{
    reveal_strlit("type");
    reveal_strlit("properties");
    reveal_strlit("required");
    reveal_strlit("description");
    reveal_strlit("enum");
    reveal_strlit("items");
    reveal_strlit("pod_name");
    reveal_strlit("container");
    reveal_strlit("previous");
    reveal_strlit("since_seconds");
    reveal_strlit("tail_lines");
    assert("type"@.len() == 4 && "properties"@.len() == 10 && "required"@.len() == 8 && "description"@.len() == 11 && "enum"@.len() == 4 && "items"@.len() == 5 && "pod_name"@.len() == 8 && "container"@.len() == 9 && "previous"@.len() == 8 && "since_seconds"@.len() == 13 && "tail_lines"@.len() == 10);
    assert("enum"@[0] == 'e' && "pod_name"@[0] == 'p' && "pod_name"@[1] == 'o' && "previous"@[0] == 'p' && "previous"@[1] == 'r' && "properties"@[0] == 'p' && "required"@[0] == 'r' && "tail_lines"@[0] == 't' && "type"@[0] == 't');
}

/// What the model is told of the tool get_events: its arguments, their types, and which it must give.
pub proof fn lemma_arguments_of_get_events(tool: GetEvents)
    ensures
        tool.tool_name() == "get_events"@,
        tool.tool_safety() == ToolSafety::ReadOnly,
        json::member_in(tool.tool_schema(), "properties"@, "resource_name"@) matches Some(p)
            && json::str_member(p, "type"@) == Some("string"@),
        json::member(tool.tool_schema(), "required"@) is None,
{
    reveal_strlit("type");
    reveal_strlit("properties");
    reveal_strlit("required");
    reveal_strlit("description");
    reveal_strlit("enum");
    reveal_strlit("items");
    reveal_strlit("resource_name");
    assert("type"@.len() == 4 && "properties"@.len() == 10 && "required"@.len() == 8 && "description"@.len() == 11 && "enum"@.len() == 4 && "items"@.len() == 5 && "resource_name"@.len() == 13);
    assert("enum"@[0] == 'e' && "type"@[0] == 't');
}

/// What the model is told of the tool wait_for_ready: its arguments, their types, and which it must give.
pub proof fn lemma_arguments_of_wait_for_ready(tool: WaitForReady)
    ensures
        tool.tool_name() == "wait_for_ready"@,
        tool.tool_safety() == ToolSafety::ReadOnly,
        json::member_in(tool.tool_schema(), "properties"@, "expected_count"@) matches Some(p)
            && json::str_member(p, "type"@) == Some("integer"@),
        json::member_in(tool.tool_schema(), "properties"@, "timeout_seconds"@) matches Some(p)
            && json::str_member(p, "type"@) == Some("integer"@),
        json::member_in(tool.tool_schema(), "properties"@, "label_selector"@) matches Some(p)
            && json::str_member(p, "type"@) == Some("string"@),
        json::member(tool.tool_schema(), "required"@) == Some(schema::texts(seq!["expected_count"@])),
{
    reveal_strlit("type");
    reveal_strlit("properties");
    reveal_strlit("required");
    reveal_strlit("description");
    reveal_strlit("enum");
    reveal_strlit("items");
    reveal_strlit("expected_count");
    reveal_strlit("timeout_seconds");
    reveal_strlit("label_selector");
    assert("type"@.len() == 4 && "properties"@.len() == 10 && "required"@.len() == 8 && "description"@.len() == 11 && "enum"@.len() == 4 && "items"@.len() == 5 && "expected_count"@.len() == 14 && "timeout_seconds"@.len() == 15 && "label_selector"@.len() == 14);
    assert("enum"@[0] == 'e' && "expected_count"@[0] == 'e' && "label_selector"@[0] == 'l' && "type"@[0] == 't');
}

/// What the model is told of the tool kubectl_describe: its arguments, their types, and which it must give.
pub proof fn lemma_arguments_of_kubectl_describe(tool: KubectlDescribe)
    ensures
        tool.tool_name() == "kubectl_describe"@,
        tool.tool_safety() == ToolSafety::ReadOnly,
        json::member_in(tool.tool_schema(), "properties"@, "kind"@) matches Some(p)
            && json::str_member(p, "type"@) == Some("string"@),
        json::member_in(tool.tool_schema(), "properties"@, "name"@) matches Some(p)
            && json::str_member(p, "type"@) == Some("string"@),
        json::member(tool.tool_schema(), "required"@) == Some(schema::texts(seq!["kind"@, "name"@])),
{
    reveal_strlit("type");
    reveal_strlit("properties");
    reveal_strlit("required");
    reveal_strlit("description");
    reveal_strlit("enum");
    reveal_strlit("items");
    reveal_strlit("kind");
    reveal_strlit("name");
    assert("type"@.len() == 4 && "properties"@.len() == 10 && "required"@.len() == 8 && "description"@.len() == 11 && "enum"@.len() == 4 && "items"@.len() == 5 && "kind"@.len() == 4 && "name"@.len() == 4);
    assert("enum"@[0] == 'e' && "kind"@[0] == 'k' && "name"@[0] == 'n' && "type"@[0] == 't');
}

/// What the model is told of the tool kubectl_get: its arguments, their types, and which it must give.
pub proof fn lemma_arguments_of_kubectl_get(tool: KubectlGet)
    ensures
        tool.tool_name() == "kubectl_get"@,
        tool.tool_safety() == ToolSafety::ReadOnly,
        json::member_in(tool.tool_schema(), "properties"@, "kind"@) matches Some(p)
            && json::str_member(p, "type"@) == Some("string"@),
        json::member_in(tool.tool_schema(), "properties"@, "name"@) matches Some(p)
            && json::str_member(p, "type"@) == Some("string"@),
        json::member_in(tool.tool_schema(), "properties"@, "jsonpath"@) matches Some(p)
            && json::str_member(p, "type"@) == Some("string"@),
        json::member_in(tool.tool_schema(), "properties"@, "label_selector"@) matches Some(p)
            && json::str_member(p, "type"@) == Some("string"@),
        json::member(tool.tool_schema(), "required"@) == Some(schema::texts(seq!["kind"@])),
{
    reveal_strlit("type");
    reveal_strlit("properties");
    reveal_strlit("required");
    reveal_strlit("description");
    reveal_strlit("enum");
    reveal_strlit("items");
    reveal_strlit("kind");
    reveal_strlit("name");
    reveal_strlit("jsonpath");
    reveal_strlit("label_selector");
    assert("type"@.len() == 4 && "properties"@.len() == 10 && "required"@.len() == 8 && "description"@.len() == 11 && "enum"@.len() == 4 && "items"@.len() == 5 && "kind"@.len() == 4 && "name"@.len() == 4 && "jsonpath"@.len() == 8 && "label_selector"@.len() == 14);
    assert("enum"@[0] == 'e' && "jsonpath"@[0] == 'j' && "kind"@[0] == 'k' && "name"@[0] == 'n' && "required"@[0] == 'r' && "type"@[0] == 't');
}

/// What the model is told of the tool kubectl_scale: its arguments, their types, and which it must give.
pub proof fn lemma_arguments_of_kubectl_scale(tool: KubectlScale)
    ensures
        tool.tool_name() == "kubectl_scale"@,
        tool.tool_safety() == ToolSafety::Validated,
        json::member_in(tool.tool_schema(), "properties"@, "kind"@) matches Some(p)
            && json::str_member(p, "type"@) == Some("string"@),
        json::member_in(tool.tool_schema(), "properties"@, "name"@) matches Some(p)
            && json::str_member(p, "type"@) == Some("string"@),
        json::member_in(tool.tool_schema(), "properties"@, "replicas"@) matches Some(p)
            && json::str_member(p, "type"@) == Some("integer"@),
        json::member(tool.tool_schema(), "required"@) == Some(schema::texts(seq!["kind"@, "name"@, "replicas"@])),
{
    reveal_strlit("type");
    reveal_strlit("properties");
    reveal_strlit("required");
    reveal_strlit("description");
    reveal_strlit("enum");
    reveal_strlit("items");
    reveal_strlit("kind");
    reveal_strlit("name");
    reveal_strlit("replicas");
    assert("type"@.len() == 4 && "properties"@.len() == 10 && "required"@.len() == 8 && "description"@.len() == 11 && "enum"@.len() == 4 && "items"@.len() == 5 && "kind"@.len() == 4 && "name"@.len() == 4 && "replicas"@.len() == 8);
    assert("enum"@[0] == 'e' && "kind"@[0] == 'k' && "name"@[0] == 'n' && "replicas"@[2] == 'p' && "required"@[2] == 'q' && "type"@[0] == 't');
}

/// What the model is told of the tool kubectl_patch: its arguments, their types, and which it must give.
pub proof fn lemma_arguments_of_kubectl_patch(tool: KubectlPatch)
    ensures
        tool.tool_name() == "kubectl_patch"@,
        tool.tool_safety() == ToolSafety::Validated,
        json::member_in(tool.tool_schema(), "properties"@, "kind"@) matches Some(p)
            && json::str_member(p, "type"@) == Some("string"@),
        json::member_in(tool.tool_schema(), "properties"@, "name"@) matches Some(p)
            && json::str_member(p, "type"@) == Some("string"@),
        json::member_in(tool.tool_schema(), "properties"@, "patch"@) matches Some(p)
            && json::str_member(p, "type"@) == Some("object"@),
        json::member(tool.tool_schema(), "required"@) == Some(schema::texts(seq!["kind"@, "name"@, "patch"@])),
{
    reveal_strlit("type");
    reveal_strlit("properties");
    reveal_strlit("required");
    reveal_strlit("description");
    reveal_strlit("enum");
    reveal_strlit("items");
    reveal_strlit("kind");
    reveal_strlit("name");
    reveal_strlit("patch");
    assert("type"@.len() == 4 && "properties"@.len() == 10 && "required"@.len() == 8 && "description"@.len() == 11 && "enum"@.len() == 4 && "items"@.len() == 5 && "kind"@.len() == 4 && "name"@.len() == 4 && "patch"@.len() == 5);
    assert("enum"@[0] == 'e' && "items"@[0] == 'i' && "kind"@[0] == 'k' && "name"@[0] == 'n' && "patch"@[0] == 'p' && "type"@[0] == 't');
}

/// What the model is told of the tool kubectl_exec: its arguments, their types, and which it must give.
pub proof fn lemma_arguments_of_kubectl_exec(tool: KubectlExec)
    ensures
        tool.tool_name() == "kubectl_exec"@,
        tool.tool_safety() == ToolSafety::Validated,
        json::member_in(tool.tool_schema(), "properties"@, "pod_name"@) matches Some(p)
            && json::str_member(p, "type"@) == Some("string"@),
        json::member_in(tool.tool_schema(), "properties"@, "command"@) matches Some(p)
            && json::str_member(p, "type"@) == Some("array"@),
        json::member_in(tool.tool_schema(), "properties"@, "container"@) matches Some(p)
            && json::str_member(p, "type"@) == Some("string"@),
        json::member_in(tool.tool_schema(), "properties"@, "timeout_seconds"@) matches Some(p)
            && json::str_member(p, "type"@) == Some("integer"@),
        json::member(tool.tool_schema(), "required"@) == Some(schema::texts(seq!["pod_name"@, "command"@])),
{
    reveal_strlit("type");
    reveal_strlit("properties");
    reveal_strlit("required");
    reveal_strlit("description");
    reveal_strlit("enum");
    reveal_strlit("items");
    reveal_strlit("pod_name");
    reveal_strlit("command");
    reveal_strlit("container");
    reveal_strlit("timeout_seconds");
    assert("type"@.len() == 4 && "properties"@.len() == 10 && "required"@.len() == 8 && "description"@.len() == 11 && "enum"@.len() == 4 && "items"@.len() == 5 && "pod_name"@.len() == 8 && "command"@.len() == 7 && "container"@.len() == 9 && "timeout_seconds"@.len() == 15);
    assert("enum"@[0] == 'e' && "pod_name"@[0] == 'p' && "required"@[0] == 'r' && "type"@[0] == 't');
}

/// A call that is refused is told the first thing that it lacks, or the limit that it exceeds.
pub proof fn lemma_refusals_say_why(args: JsonView, g: Option<GuardrailSpec>, denied: Seq<Seq<char>>)
    ensures
        json::str_member(args, "kind"@) is None ==> {
            &&& object_refusal(args) == Some("missing kind"@)
            &&& get_refusal(args) == Some("missing kind"@)
            &&& scale_refusal(args, max_replicas(g)) == Some("missing kind"@)
            &&& patch_refusal(args, max_replicas(g)) == Some("missing kind"@)
        },
        json::str_member(args, "kind"@) is Some && json::str_member(args, "name"@) is None ==> {
            &&& object_refusal(args) == Some("missing name"@)
            &&& scale_refusal(args, max_replicas(g)) == Some("missing name"@)
            &&& patch_refusal(args, max_replicas(g)) == Some("missing name"@)
        },
        json::str_member(args, "kind"@) is Some && json::str_member(args, "name"@) is Some ==> {
            &&& json::u32_member(args, "replicas"@) is None ==> scale_refusal(args, max_replicas(g))
                == Some("missing or invalid replicas"@)
            &&& patch_of(args) is None ==> patch_refusal(args, max_replicas(g)) == Some(
                "missing or invalid patch object"@,
            )
            &&& json::u32_member(args, "replicas"@) matches Some(n) ==> (g matches Some(s) ==> (
            s.max_replicas matches Some(max) ==> (n > max ==> scale_refusal(args, max_replicas(g))
                == Some(
                "guardrail: requested "@ + text::decimal(n as nat)
                    + " replicas exceeds max_replicas "@ + text::decimal(max as nat),
            ))))
        },
        json::str_member(args, "kind"@) matches Some(k) ==> (kind_named(k) is None ==> get_refusal(args)
            == Some(
            "unsupported kind '"@ + k
                + "'. Supported: Pod, Service, StatefulSet, ConfigMap, Deployment"@,
        )),
        json::str_member(args, "pod_name"@) is None ==> exec_refusal(args, denied) == Some(
            "missing pod_name"@,
        ),
        json::str_member(args, "pod_name"@) is Some && command_of(args) is None ==> exec_refusal(
            args,
            denied,
        ) == Some("missing or invalid command array"@),
        json::str_member(args, "pod_name"@) is Some && command_of(args) is Some && command_of(args)->0.len()
            == 0 ==> exec_refusal(args, denied) == Some("command array is empty"@),
{
}

/// A command that is refused is told which word it was refused for.
pub proof fn lemma_refused_commands_are_told(
    command: Seq<Seq<char>>,
    denied: Seq<Seq<char>>,
    k: int,
)
    requires
        0 <= k < denied.len(),
        text::has(text::joined(command, " "@), denied[k]),
        forall|j: int|
            0 <= j < k ==> !text::has(text::joined(command, " "@), #[trigger] denied[j]),
    ensures
        (forall|j: int|
            0 <= j < 7 ==> !text::has(text::joined(command, " "@), #[trigger] always_blocked()[j]))
            ==> command_refusal(command, denied) == Some(
            "guardrail: command contains denied command '"@ + denied[k] + "'"@,
        ),
{
    let line = text::joined(command, " "@);
    runtime::lemma_denied_is_found(line, denied, k);
    runtime::lemma_denied_exactly(line, always_blocked());
    assert(always_blocked().len() == 7);
}

/// A request for memory that is refused is told what cannot be read, or both amounts.
pub proof fn lemma_refused_memory_is_told(
    requested: Seq<char>,
    spec_limit: Seq<char>,
    scale_factor: Seq<char>,
    max_allowed: u64,
)
    ensures
        memory_bytes(requested) is None ==> memory_refusal(
            requested,
            spec_limit,
            scale_factor,
            max_allowed,
        ) == Some("cannot parse requested memory: "@ + requested),
        memory_bytes(requested) is Some && memory_bytes(spec_limit) is None ==> memory_refusal(
            requested,
            spec_limit,
            scale_factor,
            max_allowed,
        ) == Some("cannot parse spec memory limit: "@ + spec_limit),
        memory_bytes(requested) is Some && memory_bytes(spec_limit) is Some && memory_bytes(
            requested,
        )->0 > max_allowed ==> memory_refusal(requested, spec_limit, scale_factor, max_allowed)
            == Some(
            "requested memory "@ + requested + " ("@ + text::decimal(memory_bytes(requested)->0)
                + " bytes) exceeds guardrail ("@ + spec_limit + " * "@ + scale_factor + " = "@
                + text::decimal(max_allowed as nat) + " bytes)"@,
        ),
{
}

/// A check that passes refuses nothing, and one that fails refuses with its message.
pub proof fn lemma_checks_refuse_with_their_message(e: String)
    ensures
        refusal_of(Ok(())) is None,
        refusal_of(Err(e)) == Some(e@),
{
}

/// A patch that sets too many replicas is told both numbers, one of a blocked part which part it is.
pub proof fn lemma_refused_patches_are_told(args: JsonView, g: Option<GuardrailSpec>, n: u64, max: u32)
    requires
        json::str_member(args, "kind"@) is Some,
        json::str_member(args, "name"@) is Some,
        patch_of(args) is Some,
    ensures
        patch_fault(patch_of(args)->0) matches Some(f) ==> patch_refusal(args, max_replicas(g))
            == Some("guardrail: "@ + f),
        patch_fault(patch_of(args)->0) is None && patched_replicas(patch_of(args)->0) == Some(n)
            && max_replicas(g) == Some(max) && n > max ==> patch_refusal(args, max_replicas(g))
            == Some(
            "guardrail: patch replicas "@ + text::decimal(n as nat) + " exceeds max_replicas "@
                + text::decimal(max as nat),
        ),
        blocked_from(patch_of(args)->0, 0) matches Some(f) ==> patch_fault(patch_of(args)->0) == Some(
            "patching 'metadata."@ + f + "' is not allowed"@,
        ),
{
}

} // verus!
