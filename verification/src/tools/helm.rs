//! The tools that install and read Helm charts. Each makes the arguments of a `helm` command.
use vstd::prelude::*;
use crate::agent::tool::{Tool, ToolSafety};
use crate::agent::types::{ResultView, ToolResult};
use crate::json::{Json, JsonObject, JsonView};
use crate::json;
use crate::text;
use crate::tools::schema;

verus! {

// ---------------------------------------------------------------------------
// Values
// ---------------------------------------------------------------------------
/// The dotted key of a member below a prefix.
pub open spec fn dotted(prefix: Seq<char>, key: Seq<char>) -> Seq<char> {
    if prefix.len() == 0 {
        key
    } else {
        prefix + "."@ + key
    }
}

/// A value below a prefix as pairs of a dotted key and a text: an object becomes the pairs of its
/// members, in ascending order of their keys.
pub open spec fn flattened(prefix: Seq<char>, v: JsonView) -> Seq<(Seq<char>, Seq<char>)>
    decreases v, 0nat,
{
    match v {
        JsonView::Object(m) => members_flattened(prefix, m, json::listing(m).len()),
        _ => seq![(prefix, json::shown(v))],
    }
}

/// The pairs of the first `n` members of an object below a prefix.
pub open spec fn members_flattened(
    prefix: Seq<char>,
    m: Map<Seq<char>, JsonView>,
    n: nat,
) -> Seq<(Seq<char>, Seq<char>)>
    decreases m, n,
{
    if n == 0 {
        seq![]
    } else {
        let key = json::listing(m)[n - 1].0;
        members_flattened(prefix, m, (n - 1) as nat) + (if m.dom().finite() && m.contains_key(key) {
            flattened(dotted(prefix, key), m[key])
        } else {
            seq![]
        })
    }
}

/// The pairs of the members of an object, each below its own key.
pub open spec fn all_flattened(m: Map<Seq<char>, JsonView>) -> Seq<(Seq<char>, Seq<char>)> {
    members_flattened(seq![], m, json::listing(m).len())
}

fn flatten_members(prefix: &str, object: &JsonObject, out: &mut Vec<(String, String)>)
    ensures
        text::pair_views(final(out)@) == text::pair_views(old(out)@) + members_flattened(
            prefix@,
            object@,
            json::listing(object@).len(),
        ),
    decreases object@, json::listing(object@).len(),
{
    let entries = object.entries();
    let ghost l = json::listing(object@);
    let ghost start = out@;
    assert(l.len() == entries@.len());
    let mut i: usize = 0;
    assert(text::pair_views(out@) =~= text::pair_views(start) + members_flattened(
        prefix@,
        object@,
        0,
    ));
    while i < entries.len()
        invariant
            i <= entries@.len(),
            l == json::listing(object@),
            l == json::pairs_view(entries@),
            json::is_listing(l, object@),
            text::pair_views(out@) == text::pair_views(start) + members_flattened(
                prefix@,
                object@,
                i as nat,
            ),
        decreases entries@.len() - i,
    {
        proof {
            assert(l[i as int] == (entries@[i as int].0@, entries@[i as int].1@));
            assert(object@.contains_key(l[i as int].0));
            json::lemma_object_finite(*object);
            assert(decreases_to!(object@ => object@[l[i as int].0]));
        }
        let key = if text::char_count(prefix) == 0 {
            entries[i].0.clone()
        } else {
            let mut k = prefix.to_string();
            k.append(".");
            k.append(entries[i].0.as_str());
            k
        };
        let ghost before = out@;
        flatten_values(key.as_str(), &entries[i].1, out);
        i = i + 1;
        assert(text::pair_views(out@) =~= text::pair_views(start) + members_flattened(
            prefix@,
            object@,
            i as nat,
        ));
    }
}

/// Flattens a value below a prefix, and adds its pairs to a list.
pub fn flatten_values(prefix: &str, value: &Json, out: &mut Vec<(String, String)>)
    ensures
        text::pair_views(final(out)@) == text::pair_views(old(out)@) + flattened(
            prefix@,
            value@,
        ),
    decreases value@, 0nat,
{
    if let Json::Object(object) = value {
        assert(value@ == JsonView::Object(object@));
        assert(decreases_to!(value@ => value@->Object_0));
        flatten_members(prefix, object, out);
    } else {
        let ghost before = out@;
        let shown = value.show();
        out.push((prefix.to_string(), shown));
        assert(text::pair_views(out@) =~= text::pair_views(before) + flattened(
            prefix@,
            value@,
        ));
    }
}

/// The arguments that set the first `n` pairs.
pub open spec fn set_args_to(pairs: Seq<(Seq<char>, Seq<char>)>, n: int) -> Seq<Seq<char>>
    decreases n,
{
    if n <= 0 {
        seq![]
    } else {
        set_args_to(pairs, n - 1).push("--set"@).push(pairs[n - 1].0 + "="@ + pairs[n - 1].1)
    }
}

/// The arguments that set the values of a call.
pub open spec fn value_args(args: JsonView) -> Seq<Seq<char>> {
    match json::object_member(args, "values"@) {
        Some(m) => set_args_to(all_flattened(m), all_flattened(m).len() as int),
        None => seq![],
    }
}

fn add_arg(out: &mut Vec<String>, arg: &str)
    ensures
        text::views(final(out)@) == text::views(old(out)@).push(arg@),
{
    let ghost before = out@;
    out.push(arg.to_string());
    assert(text::views(out@) =~= text::views(before).push(arg@));
}

fn apply_values(out: &mut Vec<String>, args: &Json)
    ensures
        text::views(final(out)@) == text::views(old(out)@) + value_args(args@),
{
    let ghost start = text::views(out@);
    assert(text::views(out@) =~= start + Seq::<Seq<char>>::empty());
    if let Some(object) = args.object_at("values") {
        let mut flat: Vec<(String, String)> = Vec::new();
        flatten_members("", object, &mut flat);
        let ghost pairs = text::pair_views(flat@);
        proof {
            reveal_strlit("");
            assert(""@ =~= seq![]);
            assert(pairs =~= all_flattened(object@));
        }
        let mut i: usize = 0;
        while i < flat.len()
            invariant
                i <= flat@.len(),
                pairs == text::pair_views(flat@),
                text::views(out@) == start + set_args_to(pairs, i as int),
            decreases flat@.len() - i,
        {
            assert(pairs[i as int] == (flat@[i as int].0@, flat@[i as int].1@));
            let mut setting = flat[i].0.clone();
            setting.append("=");
            setting.append(flat[i].1.as_str());
            add_arg(out, "--set");
            add_arg(out, setting.as_str());
            i = i + 1;
            assert(text::views(out@) =~= start + set_args_to(pairs, i as int));
        }
        assert(pairs.len() == flat@.len());
    }
}

// ---------------------------------------------------------------------------
// Installing and upgrading
// ---------------------------------------------------------------------------
/// Installs a chart.
pub struct HelmInstall {
    pub namespace: String,
}

impl Tool for HelmInstall {
    open spec fn tool_name(&self) -> Seq<char> {
        "helm_install"@
    }

    open spec fn tool_description(&self) -> Seq<char> {
        "Install a Helm chart release."@
    }

    open spec fn tool_schema(&self) -> JsonView {
        schema::arguments(
            map![
                "release_name"@ => schema::prop("string"@, "Helm release name"@),
                "chart"@ => schema::prop("string"@, "Chart reference (e.g. oci://registry-1.docker.io/bitnamicharts/valkey-cluster)"@),
                "values"@ => schema::prop("object"@, "Helm values as key=value pairs (supports nested keys like cluster.nodes=6)"@),
                "wait"@ => schema::prop("boolean"@, "Wait for all resources to be ready (default: true)"@),
                "timeout"@ => schema::prop("string"@, "Timeout for --wait (default: 600s)"@),
            ],
            Some(seq!["release_name"@, "chart"@]),
        )
    }

    open spec fn tool_safety(&self) -> ToolSafety {
        ToolSafety::Validated
    }

    fn name(&self) -> &str {
        "helm_install"
    }

    fn description(&self) -> &str {
        "Install a Helm chart release."
    }

    fn parameters_schema(&self) -> Json {
        let mut props = JsonObject::new();
        props.put("release_name", schema::make_prop("string", "Helm release name"));
        props.put("chart", schema::make_prop("string", "Chart reference (e.g. oci://registry-1.docker.io/bitnamicharts/valkey-cluster)"));
        props.put("values", schema::make_prop("object", "Helm values as key=value pairs (supports nested keys like cluster.nodes=6)"));
        props.put("wait", schema::make_prop("boolean", "Wait for all resources to be ready (default: true)"));
        props.put("timeout", schema::make_prop("string", "Timeout for --wait (default: 600s)"));
        let required: Vec<&str> = vec!["release_name", "chart"];
        assert(required@.map_values(|p: &str| p@) =~= seq!["release_name"@, "chart"@]);
        schema::make_arguments(props, required)
    }

    fn safety(&self) -> ToolSafety {
        ToolSafety::Validated
    }
}

/// Why a call on a release and a chart is refused.
pub open spec fn chart_refusal(args: JsonView) -> Option<Seq<char>> {
    if json::str_member(args, "release_name"@) is None {
        Some("missing release_name"@)
    } else if json::str_member(args, "chart"@) is None {
        Some("missing chart"@)
    } else {
        None
    }
}

/// The arguments that wait for the resources: ten minutes where the call does not say otherwise.
pub open spec fn wait_args(args: JsonView) -> Seq<Seq<char>> {
    if json::bool_member(args, "wait"@) == Some(false) {
        seq![]
    } else {
        seq![
            "--wait"@,
            "--timeout"@,
            match json::str_member(args, "timeout"@) {
                Some(t) => t,
                None => "600s"@,
            },
        ]
    }
}

fn add_wait(out: &mut Vec<String>, args: &Json)
    ensures
        text::views(final(out)@) == text::views(old(out)@) + wait_args(args@),
{
    let ghost start = text::views(out@);
    let wait = match args.bool_at("wait") {
        Some(b) => b,
        None => true,
    };
    if wait {
        add_arg(out, "--wait");
        add_arg(out, "--timeout");
        add_arg(
            out,
            match args.str_at("timeout") {
                Some(t) => t,
                None => "600s",
            },
        );
    }
    assert(text::views(out@) =~= start + wait_args(args@));
}

fn release_and_chart(args: &Json) -> (r: Result<(String, String), ToolResult>)
    ensures
        match r {
            Ok(p) => chart_refusal(args@) is None && json::str_member(args@, "release_name"@)
                == Some(p.0@) && json::str_member(args@, "chart"@) == Some(p.1@),
            Err(e) => !e.success && chart_refusal(args@) == Some(e.output@),
        },
{
    let release = match args.str_at("release_name") {
        Some(v) => v,
        None => {
            return Err(ToolResult::failure("missing release_name".to_string()));
        },
    };
    let chart = match args.str_at("chart") {
        Some(v) => v,
        None => {
            return Err(ToolResult::failure("missing chart".to_string()));
        },
    };
    Ok((release.to_string(), chart.to_string()))
}

impl HelmInstall {
    /// A tool for the releases of a namespace.
    pub fn new(namespace: &str) -> (r: HelmInstall)
        ensures
            r.namespace@ == namespace@,
    {
        HelmInstall { namespace: namespace.to_string() }
    }

    /// Checks a call, and makes the arguments of `helm`.
    pub fn plan(&self, args: &Json) -> (r: Result<Vec<String>, ToolResult>)
        ensures
            match r {
                Ok(command) => chart_refusal(args@) is None && text::views(command@) == seq![
                    "install"@,
                    json::str_member(args@, "release_name"@)->0,
                    json::str_member(args@, "chart"@)->0,
                    "--namespace"@,
                    self.namespace@,
                    "--create-namespace"@,
                ] + value_args(args@) + wait_args(args@),
                Err(e) => !e.success && chart_refusal(args@) == Some(e.output@),
            },
    {
        let named = match release_and_chart(args) {
            Ok(p) => p,
            Err(e) => {
                return Err(e);
            },
        };
        let mut out: Vec<String> = Vec::new();
        add_arg(&mut out, "install");
        add_arg(&mut out, named.0.as_str());
        add_arg(&mut out, named.1.as_str());
        add_arg(&mut out, "--namespace");
        add_arg(&mut out, self.namespace.as_str());
        add_arg(&mut out, "--create-namespace");
        assert(text::views(out@) =~= seq![
            "install"@,
            named.0@,
            named.1@,
            "--namespace"@,
            self.namespace@,
            "--create-namespace"@,
        ]);
        apply_values(&mut out, args);
        add_wait(&mut out, args);
        Ok(out)
    }
}

/// Upgrades a release.
pub struct HelmUpgrade {
    pub namespace: String,
}

impl Tool for HelmUpgrade {
    open spec fn tool_name(&self) -> Seq<char> {
        "helm_upgrade"@
    }

    open spec fn tool_description(&self) -> Seq<char> {
        "Upgrade an existing Helm chart release with new values."@
    }

    open spec fn tool_schema(&self) -> JsonView {
        schema::arguments(
            map![
                "release_name"@ => schema::prop("string"@, "Helm release name"@),
                "chart"@ => schema::prop("string"@, "Chart reference (e.g. oci://registry-1.docker.io/bitnamicharts/valkey-cluster)"@),
                "values"@ => schema::prop("object"@, "Helm values to set/override (supports nested keys like cluster.nodes=6)"@),
                "reuse_values"@ => schema::prop("boolean"@, "Reuse existing values and merge with new ones (default: true)"@),
                "wait"@ => schema::prop("boolean"@, "Wait for all resources to be ready (default: true)"@),
                "timeout"@ => schema::prop("string"@, "Timeout for --wait (default: 600s)"@),
            ],
            Some(seq!["release_name"@, "chart"@]),
        )
    }

    open spec fn tool_safety(&self) -> ToolSafety {
        ToolSafety::Validated
    }

    fn name(&self) -> &str {
        "helm_upgrade"
    }

    fn description(&self) -> &str {
        "Upgrade an existing Helm chart release with new values."
    }

    fn parameters_schema(&self) -> Json {
        let mut props = JsonObject::new();
        props.put("release_name", schema::make_prop("string", "Helm release name"));
        props.put("chart", schema::make_prop("string", "Chart reference (e.g. oci://registry-1.docker.io/bitnamicharts/valkey-cluster)"));
        props.put("values", schema::make_prop("object", "Helm values to set/override (supports nested keys like cluster.nodes=6)"));
        props.put("reuse_values", schema::make_prop("boolean", "Reuse existing values and merge with new ones (default: true)"));
        props.put("wait", schema::make_prop("boolean", "Wait for all resources to be ready (default: true)"));
        props.put("timeout", schema::make_prop("string", "Timeout for --wait (default: 600s)"));
        let required: Vec<&str> = vec!["release_name", "chart"];
        assert(required@.map_values(|p: &str| p@) =~= seq!["release_name"@, "chart"@]);
        schema::make_arguments(props, required)
    }

    fn safety(&self) -> ToolSafety {
        ToolSafety::Validated
    }
}

/// The argument that keeps the values of a release, unless the call says otherwise.
pub open spec fn reuse_args(args: JsonView) -> Seq<Seq<char>> {
    if json::bool_member(args, "reuse_values"@) == Some(false) {
        seq![]
    } else {
        seq!["--reuse-values"@]
    }
}

impl HelmUpgrade {
    /// A tool for the releases of a namespace.
    pub fn new(namespace: &str) -> (r: HelmUpgrade)
        ensures
            r.namespace@ == namespace@,
    {
        HelmUpgrade { namespace: namespace.to_string() }
    }

    /// Checks a call, and makes the arguments of `helm`.
    pub fn plan(&self, args: &Json) -> (r: Result<Vec<String>, ToolResult>)
        ensures
            match r {
                Ok(command) => chart_refusal(args@) is None && text::views(command@) == seq![
                    "upgrade"@,
                    json::str_member(args@, "release_name"@)->0,
                    json::str_member(args@, "chart"@)->0,
                    "--namespace"@,
                    self.namespace@,
                ] + reuse_args(args@) + value_args(args@) + wait_args(args@),
                Err(e) => !e.success && chart_refusal(args@) == Some(e.output@),
            },
    {
        let named = match release_and_chart(args) {
            Ok(p) => p,
            Err(e) => {
                return Err(e);
            },
        };
        let mut out: Vec<String> = Vec::new();
        add_arg(&mut out, "upgrade");
        add_arg(&mut out, named.0.as_str());
        add_arg(&mut out, named.1.as_str());
        add_arg(&mut out, "--namespace");
        add_arg(&mut out, self.namespace.as_str());
        let ghost base = seq![
            "upgrade"@,
            named.0@,
            named.1@,
            "--namespace"@,
            self.namespace@,
        ];
        assert(text::views(out@) =~= base);
        let reuse = match args.bool_at("reuse_values") {
            Some(b) => b,
            None => true,
        };
        if reuse {
            add_arg(&mut out, "--reuse-values");
        }
        assert(text::views(out@) =~= base + reuse_args(args@));
        apply_values(&mut out, args);
        add_wait(&mut out, args);
        Ok(out)
    }
}

// ---------------------------------------------------------------------------
// Reading
// ---------------------------------------------------------------------------
/// Reads the status of a release.
pub struct HelmStatus {
    pub namespace: String,
}

impl Tool for HelmStatus {
    open spec fn tool_name(&self) -> Seq<char> {
        "helm_status"@
    }

    open spec fn tool_description(&self) -> Seq<char> {
        "Get the status of a Helm release."@
    }

    open spec fn tool_schema(&self) -> JsonView {
        schema::arguments(
            map![
                "release_name"@ => schema::prop("string"@, "Helm release name"@),
            ],
            Some(seq!["release_name"@]),
        )
    }

    open spec fn tool_safety(&self) -> ToolSafety {
        ToolSafety::ReadOnly
    }

    fn name(&self) -> &str {
        "helm_status"
    }

    fn description(&self) -> &str {
        "Get the status of a Helm release."
    }

    fn parameters_schema(&self) -> Json {
        let mut props = JsonObject::new();
        props.put("release_name", schema::make_prop("string", "Helm release name"));
        let required: Vec<&str> = vec!["release_name"];
        assert(required@.map_values(|p: &str| p@) =~= seq!["release_name"@]);
        schema::make_arguments(props, required)
    }

    fn safety(&self) -> ToolSafety {
        ToolSafety::ReadOnly
    }
}

impl HelmStatus {
    /// A tool for the releases of a namespace.
    pub fn new(namespace: &str) -> (r: HelmStatus)
        ensures
            r.namespace@ == namespace@,
    {
        HelmStatus { namespace: namespace.to_string() }
    }

    /// Checks a call, and makes the arguments of `helm`.
    pub fn plan(&self, args: &Json) -> (r: Result<Vec<String>, ToolResult>)
        ensures
            match (r, json::str_member(args@, "release_name"@)) {
                (Ok(command), Some(release)) => text::views(command@) == seq![
                    "status"@,
                    release,
                    "--namespace"@,
                    self.namespace@,
                    "-o"@,
                    "json"@,
                ],
                (Err(e), None) => e@ == (ResultView {
                    success: false,
                    output: "missing release_name"@,
                }),
                _ => false,
            },
    {
        let release = match args.str_at("release_name") {
            Some(v) => v,
            None => {
                return Err(ToolResult::failure("missing release_name".to_string()));
            },
        };
        let mut out: Vec<String> = Vec::new();
        add_arg(&mut out, "status");
        add_arg(&mut out, release);
        add_arg(&mut out, "--namespace");
        add_arg(&mut out, self.namespace.as_str());
        add_arg(&mut out, "-o");
        add_arg(&mut out, "json");
        assert(text::views(out@) =~= seq![
            "status"@,
            release@,
            "--namespace"@,
            self.namespace@,
            "-o"@,
            "json"@,
        ]);
        Ok(out)
    }
}

/// Reads the values of a release.
pub struct HelmGetValues {
    pub namespace: String,
}

impl Tool for HelmGetValues {
    open spec fn tool_name(&self) -> Seq<char> {
        "helm_get_values"@
    }

    open spec fn tool_description(&self) -> Seq<char> {
        "Get the current values of a Helm release."@
    }

    open spec fn tool_schema(&self) -> JsonView {
        schema::arguments(
            map![
                "release_name"@ => schema::prop("string"@, "Helm release name"@),
                "all"@ => schema::prop("boolean"@, "Show all values including defaults (default: false)"@),
            ],
            Some(seq!["release_name"@]),
        )
    }

    open spec fn tool_safety(&self) -> ToolSafety {
        ToolSafety::ReadOnly
    }

    fn name(&self) -> &str {
        "helm_get_values"
    }

    fn description(&self) -> &str {
        "Get the current values of a Helm release."
    }

    fn parameters_schema(&self) -> Json {
        let mut props = JsonObject::new();
        props.put("release_name", schema::make_prop("string", "Helm release name"));
        props.put("all", schema::make_prop("boolean", "Show all values including defaults (default: false)"));
        let required: Vec<&str> = vec!["release_name"];
        assert(required@.map_values(|p: &str| p@) =~= seq!["release_name"@]);
        schema::make_arguments(props, required)
    }

    fn safety(&self) -> ToolSafety {
        ToolSafety::ReadOnly
    }
}

impl HelmGetValues {
    /// A tool for the releases of a namespace.
    pub fn new(namespace: &str) -> (r: HelmGetValues)
        ensures
            r.namespace@ == namespace@,
    {
        HelmGetValues { namespace: namespace.to_string() }
    }

    /// Checks a call, and makes the arguments of `helm`.
    pub fn plan(&self, args: &Json) -> (r: Result<Vec<String>, ToolResult>)
        ensures
            match (r, json::str_member(args@, "release_name"@)) {
                (Ok(command), Some(release)) => text::views(command@) == seq![
                    "get"@,
                    "values"@,
                    release,
                    "--namespace"@,
                    self.namespace@,
                    "-o"@,
                    "json"@,
                ] + (if json::bool_member(args@, "all"@) == Some(true) {
                    seq!["--all"@]
                } else {
                    seq![]
                }),
                (Err(e), None) => e@ == (ResultView {
                    success: false,
                    output: "missing release_name"@,
                }),
                _ => false,
            },
    {
        let release = match args.str_at("release_name") {
            Some(v) => v,
            None => {
                return Err(ToolResult::failure("missing release_name".to_string()));
            },
        };
        let mut out: Vec<String> = Vec::new();
        add_arg(&mut out, "get");
        add_arg(&mut out, "values");
        add_arg(&mut out, release);
        add_arg(&mut out, "--namespace");
        add_arg(&mut out, self.namespace.as_str());
        add_arg(&mut out, "-o");
        add_arg(&mut out, "json");
        let ghost base = seq![
            "get"@,
            "values"@,
            release@,
            "--namespace"@,
            self.namespace@,
            "-o"@,
            "json"@,
        ];
        assert(text::views(out@) =~= base);
        let all = match args.bool_at("all") {
            Some(b) => b,
            None => false,
        };
        if all {
            add_arg(&mut out, "--all");
            assert(text::views(out@) =~= base + seq!["--all"@]);
        } else {
            assert(text::views(out@) =~= base + Seq::<Seq<char>>::empty());
        }
        Ok(out)
    }
}

/// Reads the default values of a chart.
pub struct HelmShowValues;

impl Tool for HelmShowValues {
    open spec fn tool_name(&self) -> Seq<char> {
        "helm_show_values"@
    }

    open spec fn tool_description(&self) -> Seq<char> {
        "Show the default values of a Helm chart (before installing)."@
    }

    open spec fn tool_schema(&self) -> JsonView {
        schema::arguments(
            map![
                "chart"@ => schema::prop("string"@, "Chart reference (e.g. oci://registry-1.docker.io/bitnamicharts/valkey-cluster)"@),
            ],
            Some(seq!["chart"@]),
        )
    }

    open spec fn tool_safety(&self) -> ToolSafety {
        ToolSafety::ReadOnly
    }

    fn name(&self) -> &str {
        "helm_show_values"
    }

    fn description(&self) -> &str {
        "Show the default values of a Helm chart (before installing)."
    }

    fn parameters_schema(&self) -> Json {
        let mut props = JsonObject::new();
        props.put("chart", schema::make_prop("string", "Chart reference (e.g. oci://registry-1.docker.io/bitnamicharts/valkey-cluster)"));
        let required: Vec<&str> = vec!["chart"];
        assert(required@.map_values(|p: &str| p@) =~= seq!["chart"@]);
        schema::make_arguments(props, required)
    }

    fn safety(&self) -> ToolSafety {
        ToolSafety::ReadOnly
    }
}

impl HelmShowValues {
    /// A tool for charts.
    pub fn new() -> (r: HelmShowValues)
        ensures
            r == HelmShowValues,
    {
        HelmShowValues
    }

    /// Checks a call, and makes the arguments of `helm`.
    pub fn plan(&self, args: &Json) -> (r: Result<Vec<String>, ToolResult>)
        ensures
            match (r, json::str_member(args@, "chart"@)) {
                (Ok(command), Some(chart)) => text::views(command@) == seq![
                    "show"@,
                    "values"@,
                    chart,
                ],
                (Err(e), None) => e@ == (ResultView { success: false, output: "missing chart"@ }),
                _ => false,
            },
    {
        let chart = match args.str_at("chart") {
            Some(v) => v,
            None => {
                return Err(ToolResult::failure("missing chart".to_string()));
            },
        };
        let mut out: Vec<String> = Vec::new();
        add_arg(&mut out, "show");
        add_arg(&mut out, "values");
        add_arg(&mut out, chart);
        assert(text::views(out@) =~= seq!["show"@, "values"@, chart@]);
        Ok(out)
    }
}

/// What a command printed: its output, its errors, or both with a line feed between them.
pub open spec fn combined(stdout: Seq<char>, stderr: Seq<char>) -> Seq<char> {
    if stderr.len() == 0 {
        stdout
    } else if stdout.len() == 0 {
        stderr
    } else {
        stdout + "\n"@ + stderr
    }
}

/// Reports a command that ran.
pub fn report_helm(success: bool, stdout: &str, stderr: &str) -> (r: ToolResult)
    ensures
        r@ == (ResultView { success, output: combined(stdout@, stderr@) }),
{
    let output = if text::char_count(stderr) == 0 {
        stdout.to_string()
    } else if text::char_count(stdout) == 0 {
        stderr.to_string()
    } else {
        let mut out = stdout.to_string();
        out.append("\n");
        out.append(stderr);
        out
    };
    ToolResult { success, output }
}

/// Reports a command that could not be run.
pub fn report_helm_missing(error: &str) -> (r: ToolResult)
    ensures
        r@ == (ResultView {
            success: false,
            output: "failed to execute helm: "@ + error@ + " (is helm installed?)"@,
        }),
{
    let mut out = "failed to execute helm: ".to_string();
    out.append(error);
    out.append(" (is helm installed?)");
    ToolResult::failure(out)
}

// ---------------------------------------------------------------------------
// What a command is told
// ---------------------------------------------------------------------------
/// Every pair becomes an argument `--set` and the argument that follows it, in the order of the
/// pairs.
pub proof fn lemma_every_pair_is_set(pairs: Seq<(Seq<char>, Seq<char>)>, n: int, i: int)
    requires
        0 <= i < n <= pairs.len(),
    ensures
        set_args_to(pairs, n).len() == 2 * n,
        set_args_to(pairs, n)[2 * i] == "--set"@,
        set_args_to(pairs, n)[2 * i + 1] == pairs[i].0 + seq!['='] + pairs[i].1,
    decreases n,
{
    reveal_strlit("=");
    assert("="@ =~= seq!['=']);
    if n == 1 {
        assert(set_args_to(pairs, 0).len() == 0);
    } else if i < n - 1 {
        lemma_every_pair_is_set(pairs, n - 1, i);
    } else {
        lemma_every_pair_is_set(pairs, n - 1, 0);
    }
}

/// The values of a call are set, all of them; without values nothing is.
pub proof fn lemma_values_of_calls_are_set(args: JsonView, m: Map<Seq<char>, JsonView>)
    ensures
        json::object_member(args, "values"@) == Some(m) ==> value_args(args) == set_args_to(
            all_flattened(m),
            all_flattened(m).len() as int,
        ),
        json::object_member(args, "values"@) is None ==> value_args(args) == Seq::<
            Seq<char>,
        >::empty(),
{
}

/// A value that is no object is set under its key, as it is shown.
pub proof fn lemma_plain_values_are_shown(key: Seq<char>, v: JsonView)
    requires
        !(v is Object),
    ensures
        flattened(key, v) == seq![(key, json::shown(v))],
{
}

proof fn lemma_member_is_among(
    prefix: Seq<char>,
    m: Map<Seq<char>, JsonView>,
    n: nat,
    i: int,
) -> (r: (Seq<(Seq<char>, Seq<char>)>, Seq<(Seq<char>, Seq<char>)>))
    requires
        0 <= i < n <= json::listing(m).len(),
        m.dom().finite(),
        m.contains_key(json::listing(m)[i].0),
    ensures
        members_flattened(prefix, m, n) == r.0 + flattened(
            dotted(prefix, json::listing(m)[i].0),
            m[json::listing(m)[i].0],
        ) + r.1,
    decreases n,
{
    let before = members_flattened(prefix, m, (n - 1) as nat);
    let key = json::listing(m)[i].0;
    let mine = flattened(dotted(prefix, key), m[key]);
    if i == n - 1 {
        assert(members_flattened(prefix, m, n) =~= before + mine + seq![]);
        (before, seq![])
    } else {
        let r = lemma_member_is_among(prefix, m, (n - 1) as nat, i);
        let last = json::listing(m)[n - 1].0;
        let more: Seq<(Seq<char>, Seq<char>)> = if m.dom().finite() && m.contains_key(last) {
            flattened(dotted(prefix, last), m[last])
        } else {
            seq![]
        };
        assert(members_flattened(prefix, m, n) =~= r.0 + mine + (r.1 + more));
        (r.0, r.1 + more)
    }
}

/// Every member of the values is set: under its own key at the top, and below another key under
/// both keys with a dot between them.
pub proof fn lemma_every_value_is_set(
    prefix: Seq<char>,
    m: Map<Seq<char>, JsonView>,
    l: Seq<(Seq<char>, JsonView)>,
    key: Seq<char>,
) -> (r: (
    Seq<(Seq<char>, Seq<char>)>,
    Seq<(Seq<char>, Seq<char>)>,
    Seq<(Seq<char>, Seq<char>)>,
    Seq<(Seq<char>, Seq<char>)>,
))
    requires
        prefix.len() > 0,
        m.dom().finite(),
        json::is_listing(l, m),
        m.dom().contains(key),
    ensures
        all_flattened(m) == r.0 + flattened(key, m[key]) + r.1,
        flattened(prefix, JsonView::Object(m)) == r.2 + flattened(
            prefix + seq!['.'] + key,
            m[key],
        ) + r.3,
{
    reveal_strlit(".");
    assert("."@ =~= seq!['.']);
    json::lemma_listing_unique(l, m);
    assert(m.contains_key(key));
    let i = choose|i: int| 0 <= i < l.len() && (#[trigger] l[i]).0 == key;
    let a = lemma_member_is_among(seq![], m, l.len(), i);
    let b = lemma_member_is_among(prefix, m, l.len(), i);
    (a.0, a.1, b.0, b.1)
}

/// A chart is installed or upgraded exactly where the release and the chart are named.
pub proof fn lemma_release_and_chart_are_required(args: JsonView)
    ensures
        chart_refusal(args) is None <==> json::str_member(args, "release_name"@) is Some
            && json::str_member(args, "chart"@) is Some,
        json::str_member(args, "release_name"@) is None ==> chart_refusal(args) == Some(
            "missing release_name"@,
        ),
        json::str_member(args, "release_name"@) is Some && json::str_member(args, "chart"@) is None
            ==> chart_refusal(args) == Some("missing chart"@),
{
}

/// A command waits for its resources, for the time that is given or ten minutes, and keeps the
/// values of the release, unless it is told not to.
pub proof fn lemma_commands_wait_and_keep_values(args: JsonView, t: Seq<char>)
    ensures
        json::bool_member(args, "wait"@) == Some(false) ==> wait_args(args) == Seq::<
            Seq<char>,
        >::empty(),
        json::bool_member(args, "wait"@) != Some(false) && json::str_member(args, "timeout"@)
            == Some(t) ==> wait_args(args) == seq!["--wait"@, "--timeout"@, t],
        json::bool_member(args, "wait"@) != Some(false) && json::str_member(args, "timeout"@)
            is None ==> wait_args(args) == seq!["--wait"@, "--timeout"@, "600s"@],
        json::bool_member(args, "reuse_values"@) == Some(false) <==> reuse_args(args) == Seq::<
            Seq<char>,
        >::empty(),
        json::bool_member(args, "reuse_values"@) != Some(false) ==> reuse_args(args)
            == seq!["--reuse-values"@],
{
    assert(seq!["--reuse-values"@].len() == 1);
}

/// Nothing that a command printed is lost: its output comes first, then its errors.
pub proof fn lemma_prints_are_combined(stdout: Seq<char>, stderr: Seq<char>)
    ensures
        stderr.len() == 0 ==> combined(stdout, stderr) == stdout,
        stdout.len() == 0 ==> combined(stdout, stderr) == stderr,
        stdout.len() > 0 && stderr.len() > 0 ==> combined(stdout, stderr) == stdout + seq!['\n']
            + stderr,
{
    reveal_strlit("\n");
    assert("\n"@ =~= seq!['\n']);
    if stdout.len() == 0 && stderr.len() == 0 {
        assert(stdout =~= stderr);
    }
}

/// What the model is told of the tool helm_install: its arguments, their types, and which it must give.
pub proof fn lemma_arguments_of_helm_install(tool: HelmInstall)
    ensures
        tool.tool_name() == "helm_install"@,
        tool.tool_safety() == ToolSafety::Validated,
        json::member_in(tool.tool_schema(), "properties"@, "release_name"@) matches Some(p)
            && json::str_member(p, "type"@) == Some("string"@),
        json::member_in(tool.tool_schema(), "properties"@, "chart"@) matches Some(p)
            && json::str_member(p, "type"@) == Some("string"@),
        json::member_in(tool.tool_schema(), "properties"@, "values"@) matches Some(p)
            && json::str_member(p, "type"@) == Some("object"@),
        json::member_in(tool.tool_schema(), "properties"@, "wait"@) matches Some(p)
            && json::str_member(p, "type"@) == Some("boolean"@),
        json::member_in(tool.tool_schema(), "properties"@, "timeout"@) matches Some(p)
            && json::str_member(p, "type"@) == Some("string"@),
        json::member(tool.tool_schema(), "required"@) == Some(schema::texts(seq!["release_name"@, "chart"@])),
{
    reveal_strlit("type");
    reveal_strlit("properties");
    reveal_strlit("required");
    reveal_strlit("description");
    reveal_strlit("enum");
    reveal_strlit("items");
    reveal_strlit("release_name");
    reveal_strlit("chart");
    reveal_strlit("values");
    reveal_strlit("wait");
    reveal_strlit("timeout");
    assert("type"@.len() == 4 && "properties"@.len() == 10 && "required"@.len() == 8 && "description"@.len() == 11 && "enum"@.len() == 4 && "items"@.len() == 5 && "release_name"@.len() == 12 && "chart"@.len() == 5 && "values"@.len() == 6 && "wait"@.len() == 4 && "timeout"@.len() == 7);
    assert("chart"@[0] == 'c' && "enum"@[0] == 'e' && "items"@[0] == 'i' && "type"@[0] == 't' && "wait"@[0] == 'w');
}

/// What the model is told of the tool helm_upgrade: its arguments, their types, and which it must give.
pub proof fn lemma_arguments_of_helm_upgrade(tool: HelmUpgrade)
    ensures
        tool.tool_name() == "helm_upgrade"@,
        tool.tool_safety() == ToolSafety::Validated,
        json::member_in(tool.tool_schema(), "properties"@, "release_name"@) matches Some(p)
            && json::str_member(p, "type"@) == Some("string"@),
        json::member_in(tool.tool_schema(), "properties"@, "chart"@) matches Some(p)
            && json::str_member(p, "type"@) == Some("string"@),
        json::member_in(tool.tool_schema(), "properties"@, "values"@) matches Some(p)
            && json::str_member(p, "type"@) == Some("object"@),
        json::member_in(tool.tool_schema(), "properties"@, "reuse_values"@) matches Some(p)
            && json::str_member(p, "type"@) == Some("boolean"@),
        json::member_in(tool.tool_schema(), "properties"@, "wait"@) matches Some(p)
            && json::str_member(p, "type"@) == Some("boolean"@),
        json::member_in(tool.tool_schema(), "properties"@, "timeout"@) matches Some(p)
            && json::str_member(p, "type"@) == Some("string"@),
        json::member(tool.tool_schema(), "required"@) == Some(schema::texts(seq!["release_name"@, "chart"@])),
{
    reveal_strlit("type");
    reveal_strlit("properties");
    reveal_strlit("required");
    reveal_strlit("description");
    reveal_strlit("enum");
    reveal_strlit("items");
    reveal_strlit("release_name");
    reveal_strlit("chart");
    reveal_strlit("values");
    reveal_strlit("reuse_values");
    reveal_strlit("wait");
    reveal_strlit("timeout");
    assert("type"@.len() == 4 && "properties"@.len() == 10 && "required"@.len() == 8 && "description"@.len() == 11 && "enum"@.len() == 4 && "items"@.len() == 5 && "release_name"@.len() == 12 && "chart"@.len() == 5 && "values"@.len() == 6 && "reuse_values"@.len() == 12 && "wait"@.len() == 4 && "timeout"@.len() == 7);
    assert("chart"@[0] == 'c' && "enum"@[0] == 'e' && "items"@[0] == 'i' && "release_name"@[2] == 'l' && "reuse_values"@[2] == 'u' && "type"@[0] == 't' && "wait"@[0] == 'w');
}

/// What the model is told of the tool helm_status: its arguments, their types, and which it must give.
pub proof fn lemma_arguments_of_helm_status(tool: HelmStatus)
    ensures
        tool.tool_name() == "helm_status"@,
        tool.tool_safety() == ToolSafety::ReadOnly,
        json::member_in(tool.tool_schema(), "properties"@, "release_name"@) matches Some(p)
            && json::str_member(p, "type"@) == Some("string"@),
        json::member(tool.tool_schema(), "required"@) == Some(schema::texts(seq!["release_name"@])),
{
    reveal_strlit("type");
    reveal_strlit("properties");
    reveal_strlit("required");
    reveal_strlit("description");
    reveal_strlit("enum");
    reveal_strlit("items");
    reveal_strlit("release_name");
    assert("type"@.len() == 4 && "properties"@.len() == 10 && "required"@.len() == 8 && "description"@.len() == 11 && "enum"@.len() == 4 && "items"@.len() == 5 && "release_name"@.len() == 12);
    assert("enum"@[0] == 'e' && "type"@[0] == 't');
}

/// What the model is told of the tool helm_get_values: its arguments, their types, and which it must give.
pub proof fn lemma_arguments_of_helm_get_values(tool: HelmGetValues)
    ensures
        tool.tool_name() == "helm_get_values"@,
        tool.tool_safety() == ToolSafety::ReadOnly,
        json::member_in(tool.tool_schema(), "properties"@, "release_name"@) matches Some(p)
            && json::str_member(p, "type"@) == Some("string"@),
        json::member_in(tool.tool_schema(), "properties"@, "all"@) matches Some(p)
            && json::str_member(p, "type"@) == Some("boolean"@),
        json::member(tool.tool_schema(), "required"@) == Some(schema::texts(seq!["release_name"@])),
{
    reveal_strlit("type");
    reveal_strlit("properties");
    reveal_strlit("required");
    reveal_strlit("description");
    reveal_strlit("enum");
    reveal_strlit("items");
    reveal_strlit("release_name");
    reveal_strlit("all");
    assert("type"@.len() == 4 && "properties"@.len() == 10 && "required"@.len() == 8 && "description"@.len() == 11 && "enum"@.len() == 4 && "items"@.len() == 5 && "release_name"@.len() == 12 && "all"@.len() == 3);
    assert("enum"@[0] == 'e' && "type"@[0] == 't');
}

/// What the model is told of the tool helm_show_values: its arguments, their types, and which it must give.
pub proof fn lemma_arguments_of_helm_show_values(tool: HelmShowValues)
    ensures
        tool.tool_name() == "helm_show_values"@,
        tool.tool_safety() == ToolSafety::ReadOnly,
        json::member_in(tool.tool_schema(), "properties"@, "chart"@) matches Some(p)
            && json::str_member(p, "type"@) == Some("string"@),
        json::member(tool.tool_schema(), "required"@) == Some(schema::texts(seq!["chart"@])),
{
    reveal_strlit("type");
    reveal_strlit("properties");
    reveal_strlit("required");
    reveal_strlit("description");
    reveal_strlit("enum");
    reveal_strlit("items");
    reveal_strlit("chart");
    assert("type"@.len() == 4 && "properties"@.len() == 10 && "required"@.len() == 8 && "description"@.len() == 11 && "enum"@.len() == 4 && "items"@.len() == 5 && "chart"@.len() == 5);
    assert("chart"@[0] == 'c' && "enum"@[0] == 'e' && "items"@[0] == 'i' && "type"@[0] == 't');
}

} // verus!
