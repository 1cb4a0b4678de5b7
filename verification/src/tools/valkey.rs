//! The tools that look after a Valkey cluster.
use vstd::prelude::*;
use crate::agent::tool::{Tool, ToolSafety};
use crate::agent::types::{ResultView, ToolResult};
use crate::json::{Json, JsonObject, JsonView, NumberView};
use crate::json;
use crate::table::Table;
use crate::table;
use crate::text;
use crate::tools::runtime;
use crate::tools::schema;

verus! {

// ---------------------------------------------------------------------------
// Commands
// ---------------------------------------------------------------------------
/// What a command sets, where its words say `CONFIG SET`: what follows those.
pub open spec fn setting(words: Seq<Seq<char>>) -> Option<Seq<char>> {
    if words.len() >= 2 && words[0] == "CONFIG"@ && text::begins(words[1], "SET"@) {
        if words[1].len() > 3 {
            Some(words[1].skip(3))
        } else if words.len() >= 3 {
            Some(words[2])
        } else {
            Some(""@)
        }
    } else {
        None
    }
}

/// Whether a command, as its words in capitals, is denied: of the settings only those of the memory
/// limit may be changed, and nothing that empties, debugs or stops the server may run.
pub open spec fn denied_words(words: Seq<Seq<char>>) -> bool {
    match setting(words) {
        Some(what) => !text::begins(what, "MAXMEMORY"@),
        None => words.len() > 0 && (text::begins(words[0], "FLUSHALL"@) || text::begins(
            words[0],
            "FLUSHDB"@,
        ) || text::begins(words[0], "DEBUG"@) || text::begins(words[0], "SHUTDOWN"@)),
    }
}

/// Whether a command in capitals is denied. It is judged by its words, as the server is handed
/// them.
pub open spec fn denied_capitals(upper: Seq<char>) -> bool {
    denied_words(text::words_from(upper, 0))
}

fn find_setting(words: &Vec<String>) -> (r: Option<String>)
    ensures
        text::opt(r) == setting(text::views(words@)),
{
    let ghost views = text::views(words@);
    assert(views.len() == words@.len());
    if words.len() < 2 {
        return None;
    }
    assert(views[0] == words@[0]@ && views[1] == words@[1]@);
    if !text::same(words[0].as_str(), "CONFIG") {
        return None;
    }
    proof {
        reveal_strlit("SET");
    }
    match text::strip_prefix(words[1].as_str(), "SET") {
        Some(rest) => {
            if text::char_count(rest.as_str()) > 0 {
                Some(rest)
            } else if words.len() >= 3 {
                assert(views[2] == words@[2]@);
                Some(words[2].clone())
            } else {
                Some("".to_string())
            }
        },
        None => None,
    }
}

/// Tells whether a command, as its words in capitals, is denied.
pub fn are_words_denied(words: &Vec<String>) -> (r: bool)
    ensures
        r == denied_words(text::views(words@)),
{
    assert(text::views(words@).len() == words@.len());
    if let Some(what) = find_setting(words) {
        return !text::starts_with(what.as_str(), "MAXMEMORY");
    }
    if words.len() == 0 {
        return false;
    }
    assert(text::views(words@)[0] == words@[0]@);
    let first = words[0].as_str();
    text::starts_with(first, "FLUSHALL") || text::starts_with(first, "FLUSHDB")
        || text::starts_with(first, "DEBUG") || text::starts_with(first, "SHUTDOWN")
}

/// Tells whether a command is denied, in whatever case it is written and however its words are
/// set apart.
pub fn is_command_denied(cmd: &str) -> (r: bool)
    ensures
        r == denied_capitals(text::uppercased(text::trimmed(cmd@))),
        text::ascii(text::trimmed(cmd@)) ==> r == denied_capitals(
            text::trimmed(cmd@).map_values(|c: char| text::ascii_upper(c)),
        ),
{
    let trimmed = text::trim(cmd);
    let upper = text::to_uppercase(trimmed.as_str());
    are_words_denied(&text::words(upper.as_str()))
}

/// The table of the first `n` lines: each line with a colon sets an entry.
pub open spec fn info_to(lines: Seq<Seq<char>>, n: int) -> Map<Seq<char>, Seq<char>>
    decreases n,
{
    if n <= 0 {
        Map::empty()
    } else {
        match text::parted(text::trimmed(lines[n - 1]), ":"@) {
            Some(p) => info_to(lines, n - 1).insert(text::trimmed(p.0), text::trimmed(p.1)),
            None => info_to(lines, n - 1),
        }
    }
}

/// What a server says of its cluster.
pub open spec fn cluster_info(raw: Seq<char>) -> Map<Seq<char>, Seq<char>> {
    info_to(text::text_lines(raw), text::text_lines(raw).len() as int)
}

/// Reads what a server says of its cluster.
pub fn parse_cluster_info(raw: &str) -> (r: Table<String>)
    ensures
        table::texts(r@) == cluster_info(raw@),
{
    let lines = text::lines(raw);
    let ghost views = text::text_lines(raw@);
    let mut out: Table<String> = Table::new();
    let mut i: usize = 0;
    assert(table::texts(out@) =~= Map::<Seq<char>, Seq<char>>::empty());
    while i < lines.len()
        invariant
            i <= lines@.len(),
            text::views(lines@) == views,
            table::texts(out@) =~= info_to(views, i as int),
        decreases lines@.len() - i,
    {
        assert(views[i as int] == lines@[i as int]@);
        let ghost before = out@;
        let line = text::trim(lines[i].as_str());
        if let Some(p) = text::split_once(line.as_str(), ":") {
            let key = text::trim(p.0.as_str());
            let value = text::trim(p.1.as_str());
            let ghost shown = value@;
            out.insert(key.as_str(), value);
            assert(table::texts(out@) =~= table::texts(before).insert(key@, shown));
        }
        i = i + 1;
    }
    assert(views.len() == lines@.len());
    out
}

/// The pod of a cluster at an index.
pub open spec fn pod_at(cluster: Seq<char>, index: nat) -> Seq<char> {
    cluster + "-"@ + text::decimal(index)
}

/// The name of the pod of a cluster at an index.
pub fn pod_name(cluster_name: &str, pod_index: u32) -> (r: String)
    ensures
        r@ == pod_at(cluster_name@, pod_index as nat),
{
    let mut out = cluster_name.to_string();
    out.append("-");
    out.append(text::decimal_of(pod_index as u128).as_str());
    out
}

/// The arguments that run a command of the server.
pub fn cli_args(command: &str) -> (r: Vec<String>)
    ensures
        text::views(r@) == seq!["valkey-cli"@] + text::words_from(command@, 0),
{
    let mut out: Vec<String> = Vec::new();
    out.push("valkey-cli".to_string());
    let ghost first = out@;
    let mut words = text::words(command);
    let ghost rest = words@;
    out.append(&mut words);
    assert(text::views(out@) =~= text::views(first) + text::views(rest));
    assert(text::views(first) =~= seq!["valkey-cli"@]);
    out
}

/// How a command of the server ended.
pub struct CliStatus {
    pub status: Option<String>,
    pub reason: Option<String>,
}

/// What a command of the server came to: its output, or why it failed. A command that printed
/// errors only gives those.
pub open spec fn cli_result(
    status: Option<CliStatus>,
    stdout: Seq<char>,
    stderr: Seq<char>,
) -> Result<Seq<char>, Seq<char>> {
    if status is Some && text::opt(status->0.status) != Some("Success"@) {
        Err(
            "valkey-cli failed: "@ + (if stderr.len() > 0 {
                text::trimmed(stderr)
            } else {
                match status->0.reason {
                    Some(reason) => reason@,
                    None => ""@,
                }
            }),
        )
    } else if text::trimmed(stdout).len() == 0 && text::trimmed(stderr).len() > 0 {
        Ok(text::trimmed(stderr))
    } else {
        Ok(text::trimmed(stdout))
    }
}

/// Says what a command of the server came to.
pub fn cli_outcome(status: &Option<CliStatus>, stdout: &str, stderr: &str) -> (r: Result<
    String,
    String,
>)
    ensures
        match r {
            Ok(t) => cli_result(*status, stdout@, stderr@) == Ok::<Seq<char>, Seq<char>>(t@),
            Err(e) => cli_result(*status, stdout@, stderr@) == Err::<Seq<char>, Seq<char>>(e@),
        },
{
    if let Some(s) = status {
        let fine = match &s.status {
            Some(word) => text::same(word.as_str(), "Success"),
            None => false,
        };
        if !fine {
            let mut out = "valkey-cli failed: ".to_string();
            if text::char_count(stderr) > 0 {
                out.append(text::trim(stderr).as_str());
            } else {
                out.append(
                    match &s.reason {
                        Some(reason) => reason.as_str(),
                        None => "",
                    },
                );
            }
            return Err(out);
        }
    }
    let output = text::trim(stdout);
    let errors = text::trim(stderr);
    if text::char_count(output.as_str()) == 0 && text::char_count(errors.as_str()) > 0 {
        Ok(errors)
    } else {
        Ok(output)
    }
}

/// Reports a command of the server.
pub fn report_cli(outcome: Result<String, String>) -> (r: ToolResult)
    ensures
        r@ == (match outcome {
            Ok(t) => ResultView { success: true, output: t@ },
            Err(e) => ResultView { success: false, output: "error: "@ + e@ },
        }),
{
    match outcome {
        Ok(t) => ToolResult::success(t),
        Err(e) => runtime::outside_error("error: ", e.as_str()),
    }
}

/// Takes the address of a pod from what its host printed.
pub fn pod_ip_of(stdout: &str, pod: &str) -> (r: Result<String, String>)
    ensures
        match r {
            Ok(ip) => text::trimmed(stdout@).len() > 0 && ip@ == text::trimmed(stdout@),
            Err(e) => text::trimmed(stdout@).len() == 0 && e@ == "empty IP for pod "@ + pod@,
        },
{
    let ip = text::trim(stdout);
    if text::char_count(ip.as_str()) == 0 {
        let mut out = "empty IP for pod ".to_string();
        out.append(pod);
        Err(out)
    } else {
        Ok(ip)
    }
}

/// The output of a command, or its errors where it printed nothing else.
pub open spec fn printed(stdout: Seq<char>, stderr: Seq<char>) -> Seq<char> {
    if text::trimmed(stdout).len() > 0 {
        text::trimmed(stdout)
    } else {
        text::trimmed(stderr)
    }
}

fn take_printed(stdout: &str, stderr: &str) -> (r: String)
    ensures
        r@ == printed(stdout@, stderr@),
{
    let output = text::trim(stdout);
    if text::char_count(output.as_str()) > 0 {
        output
    } else {
        text::trim(stderr)
    }
}

fn endpoint_of(ip: &str) -> (r: String)
    ensures
        r@ == ip@ + ":6379"@,
{
    let mut out = ip.to_string();
    out.append(":6379");
    out
}

// ---------------------------------------------------------------------------
// Running a command
// ---------------------------------------------------------------------------
/// Runs a command of the server in a pod.
pub struct ValkeyCli {
    pub cluster_name: String,
    pub namespace: String,
}

impl Tool for ValkeyCli {
    open spec fn tool_name(&self) -> Seq<char> {
        "valkey_cli"@
    }

    open spec fn tool_description(&self) -> Seq<char> {
        "Run a Valkey command on the specified pod via kubectl exec. Dangerous commands are blocked."@
    }

    open spec fn tool_schema(&self) -> JsonView {
        schema::arguments(
            map![
                "pod_index"@ => schema::prop("integer"@, "Pod index (0-based)"@),
                "command"@ => schema::prop("string"@, "Valkey command to run"@),
            ],
            Some(seq!["pod_index"@, "command"@]),
        )
    }

    open spec fn tool_safety(&self) -> ToolSafety {
        ToolSafety::Validated
    }

    fn name(&self) -> &str {
        "valkey_cli"
    }

    fn description(&self) -> &str {
        "Run a Valkey command on the specified pod via kubectl exec. Dangerous commands are blocked."
    }

    fn parameters_schema(&self) -> Json {
        let mut props = JsonObject::new();
        props.put("pod_index", schema::make_prop("integer", "Pod index (0-based)"));
        props.put("command", schema::make_prop("string", "Valkey command to run"));
        let required: Vec<&str> = vec!["pod_index", "command"];
        assert(required@.map_values(|p: &str| p@) =~= seq!["pod_index"@, "command"@]);
        schema::make_arguments(props, required)
    }

    fn safety(&self) -> ToolSafety {
        ToolSafety::Validated
    }
}

/// What a call asks for.
pub struct CliRequest {
    pub pod: String,
    pub command: String,
}

impl ValkeyCli {
    /// A tool for a cluster.
    pub fn new(cluster_name: String, namespace: String) -> (r: ValkeyCli)
        ensures
            r.cluster_name == cluster_name,
            r.namespace == namespace,
    {
        ValkeyCli { cluster_name, namespace }
    }

    /// Checks a call, and says what runs in which pod.
    pub fn plan(&self, args: &Json) -> (r: Result<CliRequest, ToolResult>)
        ensures
            match (json::u32_member(args@, "pod_index"@), json::str_member(args@, "command"@), r) {
                (None, _, Err(e)) => e@ == (ResultView {
                    success: false,
                    output: "missing pod_index"@,
                }),
                (Some(_), None, Err(e)) => e@ == (ResultView {
                    success: false,
                    output: "missing command"@,
                }),
                (Some(_), Some(command), Err(e)) => denied_capitals(
                    text::uppercased(text::trimmed(command)),
                ) && e@ == (ResultView { success: false, output: "command denied: "@ + command }),
                (Some(n), Some(command), Ok(q)) => !denied_capitals(
                    text::uppercased(text::trimmed(command)),
                ) && q.command@ == command && q.pod@ == pod_at(self.cluster_name@, n as nat),
                _ => false,
            },
    {
        let pod_index: u32 = match args.u32_at("pod_index") {
            Some(n) => n,
            None => {
                return Err(ToolResult::failure("missing pod_index".to_string()));
            },
        };
        let command = match args.str_at("command") {
            Some(c) => c,
            None => {
                return Err(ToolResult::failure("missing command".to_string()));
            },
        };
        if is_command_denied(command) {
            return Err(runtime::outside_error("command denied: ", command));
        }
        Ok(
            CliRequest {
                pod: pod_name(self.cluster_name.as_str(), pod_index),
                command: command.to_string(),
            },
        )
    }
}

// ---------------------------------------------------------------------------
// Looking at the cluster
// ---------------------------------------------------------------------------
/// Lists the nodes of a cluster.
pub struct ClusterNodes {
    pub cluster_name: String,
    pub namespace: String,
}

impl Tool for ClusterNodes {
    open spec fn tool_name(&self) -> Seq<char> {
        "cluster_nodes"@
    }

    open spec fn tool_description(&self) -> Seq<char> {
        "Run CLUSTER NODES on pod-0 and return the cluster topology."@
    }

    open spec fn tool_schema(&self) -> JsonView {
        schema::arguments(
            Map::empty(),
            Some(seq![]),
        )
    }

    open spec fn tool_safety(&self) -> ToolSafety {
        ToolSafety::ReadOnly
    }

    fn name(&self) -> &str {
        "cluster_nodes"
    }

    fn description(&self) -> &str {
        "Run CLUSTER NODES on pod-0 and return the cluster topology."
    }

    fn parameters_schema(&self) -> Json {
        let props = JsonObject::new();
        let required: Vec<&str> = Vec::new();
        assert(required@.map_values(|p: &str| p@) =~= seq![]);
        schema::make_arguments(props, required)
    }

    fn safety(&self) -> ToolSafety {
        ToolSafety::ReadOnly
    }
}

impl ClusterNodes {
    /// A tool for a cluster.
    pub fn new(cluster_name: String, namespace: String) -> (r: ClusterNodes)
        ensures
            r.cluster_name == cluster_name,
            r.namespace == namespace,
    {
        ClusterNodes { cluster_name, namespace }
    }

    /// What runs in which pod.
    pub fn plan(&self) -> (r: CliRequest)
        ensures
            r.pod@ == pod_at(self.cluster_name@, 0),
            r.command@ == "CLUSTER NODES"@,
    {
        CliRequest {
            pod: pod_name(self.cluster_name.as_str(), 0),
            command: "CLUSTER NODES".to_string(),
        }
    }
}

/// Reads the state of a cluster.
pub struct ClusterInfo {
    pub cluster_name: String,
    pub namespace: String,
}

impl Tool for ClusterInfo {
    open spec fn tool_name(&self) -> Seq<char> {
        "cluster_info"@
    }

    open spec fn tool_description(&self) -> Seq<char> {
        "Run CLUSTER INFO on pod-0 and return parsed cluster state."@
    }

    open spec fn tool_schema(&self) -> JsonView {
        schema::arguments(
            Map::empty(),
            Some(seq![]),
        )
    }

    open spec fn tool_safety(&self) -> ToolSafety {
        ToolSafety::ReadOnly
    }

    fn name(&self) -> &str {
        "cluster_info"
    }

    fn description(&self) -> &str {
        "Run CLUSTER INFO on pod-0 and return parsed cluster state."
    }

    fn parameters_schema(&self) -> Json {
        let props = JsonObject::new();
        let required: Vec<&str> = Vec::new();
        assert(required@.map_values(|p: &str| p@) =~= seq![]);
        schema::make_arguments(props, required)
    }

    fn safety(&self) -> ToolSafety {
        ToolSafety::ReadOnly
    }
}

/// A table of texts as an object.
pub open spec fn texts_json(m: Map<Seq<char>, Seq<char>>) -> JsonView {
    JsonView::Object(m.map_values(|v: Seq<char>| JsonView::Str(v)))
}

fn make_texts_json(t: &Table<String>) -> (r: Json)
    ensures
        r@ == texts_json(table::texts(t@)),
{
    let mut o = JsonObject::new();
    let mut i: usize = 0;
    while i < t.rows.len()
        invariant
            i <= t.rows@.len(),
            o@ =~= table::rows_view(t.rows@, i as int).map_values(
                |v: String| JsonView::Str(v@),
            ),
        decreases t.rows@.len() - i,
    {
        o.put(t.rows[i].0.as_str(), Json::string(t.rows[i].1.as_str()));
        i = i + 1;
    }
    assert(o@ =~= table::texts(t@).map_values(|v: Seq<char>| JsonView::Str(v)));
    Json::object(o)
}

impl ClusterInfo {
    /// A tool for a cluster.
    pub fn new(cluster_name: String, namespace: String) -> (r: ClusterInfo)
        ensures
            r.cluster_name == cluster_name,
            r.namespace == namespace,
    {
        ClusterInfo { cluster_name, namespace }
    }

    /// What runs in which pod.
    pub fn plan(&self) -> (r: CliRequest)
        ensures
            r.pod@ == pod_at(self.cluster_name@, 0),
            r.command@ == "CLUSTER INFO"@,
    {
        CliRequest {
            pod: pod_name(self.cluster_name.as_str(), 0),
            command: "CLUSTER INFO".to_string(),
        }
    }

    /// Reports the state of a cluster.
    pub fn report(outcome: Result<String, String>) -> (r: ToolResult)
        ensures
            r@ == (match outcome {
                Ok(raw) => ResultView {
                    success: true,
                    output: json::json_written(texts_json(cluster_info(raw@))),
                },
                Err(e) => ResultView { success: false, output: "error: "@ + e@ },
            }),
    {
        match outcome {
            Ok(raw) => {
                let parsed = parse_cluster_info(raw.as_str());
                ToolResult::success(make_texts_json(&parsed).to_text())
            },
            Err(e) => runtime::outside_error("error: ", e.as_str()),
        }
    }
}

/// Asks every node of a cluster whether it is alive.
pub struct HealthCheck {
    pub cluster_name: String,
    pub namespace: String,
    pub total_pods: u32,
}

impl Tool for HealthCheck {
    open spec fn tool_name(&self) -> Seq<char> {
        "health_check"@
    }

    open spec fn tool_description(&self) -> Seq<char> {
        "PING all Valkey nodes via kubectl exec and report latency and healthy node count."@
    }

    open spec fn tool_schema(&self) -> JsonView {
        schema::arguments(
            Map::empty(),
            Some(seq![]),
        )
    }

    open spec fn tool_safety(&self) -> ToolSafety {
        ToolSafety::ReadOnly
    }

    fn name(&self) -> &str {
        "health_check"
    }

    fn description(&self) -> &str {
        "PING all Valkey nodes via kubectl exec and report latency and healthy node count."
    }

    fn parameters_schema(&self) -> Json {
        let props = JsonObject::new();
        let required: Vec<&str> = Vec::new();
        assert(required@.map_values(|p: &str| p@) =~= seq![]);
        schema::make_arguments(props, required)
    }

    fn safety(&self) -> ToolSafety {
        ToolSafety::ReadOnly
    }
}

/// What a node answered: its reply and the milliseconds that it took, or an error.
pub type Ping = Result<(String, u64), String>;

/// A node's answer as a document.
pub open spec fn ping_json(cluster: Seq<char>, index: nat, ping: Ping) -> JsonView {
    let base = map![
        "pod_index"@ => JsonView::Number(NumberView::Unsigned(index as u64)),
        "pod"@ => JsonView::Str(pod_at(cluster, index)),
    ];
    JsonView::Object(
        match ping {
            Ok(p) => base.insert("status"@, JsonView::Str("healthy"@)).insert(
                "response"@,
                JsonView::Str(p.0@),
            ).insert("latency_ms"@, JsonView::Number(NumberView::Unsigned(p.1))),
            Err(e) => base.insert("status"@, JsonView::Str("unhealthy"@)).insert(
                "error"@,
                JsonView::Str(e@),
            ),
        },
    )
}

/// How many of the first `n` nodes answered.
pub open spec fn healthy_to(pings: Seq<Ping>, n: int) -> nat
    decreases n,
{
    if n <= 0 {
        0
    } else if pings[n - 1] is Ok {
        healthy_to(pings, n - 1) + 1
    } else {
        healthy_to(pings, n - 1)
    }
}

impl HealthCheck {
    /// A tool for a cluster of some pods.
    pub fn new(cluster_name: String, namespace: String, total_pods: u32) -> (r: HealthCheck)
        ensures
            r.cluster_name == cluster_name,
            r.namespace == namespace,
            r.total_pods == total_pods,
    {
        HealthCheck { cluster_name, namespace, total_pods }
    }

    /// Reports what the nodes answered, one answer each: the cluster is healthy where all did.
    pub fn report(&self, pings: &Vec<Ping>) -> (r: ToolResult)
        requires
            pings@.len() == self.total_pods,
        ensures
            ({
                let healthy = healthy_to(pings@, pings@.len() as int);
                &&& r.success == (healthy == self.total_pods)
                &&& r.output@ == json::json_written(
                    JsonView::Object(
                        map![
                            "healthy"@ => JsonView::Number(NumberView::Unsigned(healthy as u64)),
                            "total"@ => JsonView::Number(
                                NumberView::Unsigned(self.total_pods as u64),
                            ),
                            "nodes"@ => JsonView::Array(
                                Seq::new(
                                    pings@.len(),
                                    |i: int| ping_json(self.cluster_name@, i as nat, pings@[i]),
                                ),
                            ),
                        ],
                    ),
                )
            }),
    {
        let ghost want = Seq::new(
            pings@.len(),
            |i: int| ping_json(self.cluster_name@, i as nat, pings@[i]),
        );
        let mut nodes: Vec<Json> = Vec::new();
        let mut healthy: u32 = 0;
        let mut i: u32 = 0;
        while i < self.total_pods
            invariant
                i <= self.total_pods,
                pings@.len() == self.total_pods,
                want == Seq::new(
                    pings@.len(),
                    |i: int| ping_json(self.cluster_name@, i as nat, pings@[i]),
                ),
                healthy == healthy_to(pings@, i as int),
                healthy <= i,
                json::views_of(nodes@) =~= want.take(i as int),
            decreases self.total_pods - i,
        {
            let mut o = JsonObject::new();
            o.put("pod_index", Json::unsigned(i as u64));
            o.put("pod", Json::Str(pod_name(self.cluster_name.as_str(), i)));
            match &pings[i as usize] {
                Ok(p) => {
                    o.put("status", Json::string("healthy"));
                    o.put("response", Json::string(p.0.as_str()));
                    o.put("latency_ms", Json::unsigned(p.1));
                    healthy = healthy + 1;
                },
                Err(e) => {
                    o.put("status", Json::string("unhealthy"));
                    o.put("error", Json::string(e.as_str()));
                },
            }
            let ghost before = nodes@;
            let node = Json::object(o);
            assert(node@ == want[i as int]);
            nodes.push(node);
            assert(json::views_of(nodes@) =~= json::views_of(before).push(node@));
            i = i + 1;
        }
        assert(json::views_of(nodes@) =~= want);
        let mut o = JsonObject::new();
        o.put("healthy", Json::unsigned(healthy as u64));
        o.put("total", Json::unsigned(self.total_pods as u64));
        o.put("nodes", Json::array(nodes));
        ToolResult { success: healthy == self.total_pods, output: Json::object(o).to_text() }
    }
}

/// A health check succeeds exactly when every node answered.
pub proof fn lemma_healthy_means_all(pings: Seq<Ping>)
    ensures
        healthy_to(pings, pings.len() as int) == pings.len() <==> forall|i: int|
            0 <= i < pings.len() ==> (#[trigger] pings[i]) is Ok,
{
    lemma_healthy_to(pings, pings.len() as int);
}

proof fn lemma_healthy_to(pings: Seq<Ping>, n: int)
    requires
        0 <= n <= pings.len(),
    ensures
        healthy_to(pings, n) <= n,
        healthy_to(pings, n) == n <==> forall|i: int| 0 <= i < n ==> (#[trigger] pings[i]) is Ok,
    decreases n,
{
    if n > 0 {
        lemma_healthy_to(pings, n - 1);
        assert(pings[n - 1] == pings[n - 1]);
    }
}

// ---------------------------------------------------------------------------
// Making a cluster
// ---------------------------------------------------------------------------
/// Makes a new cluster of the pods. Only for pods that hold no slots yet.
pub struct ClusterMeetAll {
    pub cluster_name: String,
    pub namespace: String,
    pub total_pods: u32,
    pub replicas_per_master: u32,
}

impl Tool for ClusterMeetAll {
    open spec fn tool_name(&self) -> Seq<char> {
        "cluster_init"@
    }

    open spec fn tool_description(&self) -> Seq<char> {
        "Create a NEW Valkey cluster from scratch using 'valkey-cli --cluster create'. WARNING: ONLY use when cluster has NO slots assigned (new cluster). Do NOT use on a running cluster with existing data — use cluster_add_node instead."@
    }

    open spec fn tool_schema(&self) -> JsonView {
        schema::arguments(
            Map::empty(),
            Some(seq![]),
        )
    }

    open spec fn tool_safety(&self) -> ToolSafety {
        ToolSafety::Validated
    }

    fn name(&self) -> &str {
        "cluster_init"
    }

    fn description(&self) -> &str {
        "Create a NEW Valkey cluster from scratch using 'valkey-cli --cluster create'. WARNING: ONLY use when cluster has NO slots assigned (new cluster). Do NOT use on a running cluster with existing data — use cluster_add_node instead."
    }

    fn parameters_schema(&self) -> Json {
        let props = JsonObject::new();
        let required: Vec<&str> = Vec::new();
        assert(required@.map_values(|p: &str| p@) =~= seq![]);
        schema::make_arguments(props, required)
    }

    fn safety(&self) -> ToolSafety {
        ToolSafety::Validated
    }
}

/// The first pod, from index `i` on, whose address could not be found, and why.
pub open spec fn lost_pod(ips: Seq<Result<String, String>>, i: int) -> Option<(int, Seq<char>)>
    decreases ips.len() - i,
{
    if i < 0 || i >= ips.len() {
        None
    } else {
        match ips[i] {
            Err(e) => Some((i, e@)),
            Ok(_) => lost_pod(ips, i + 1),
        }
    }
}

/// The endpoint of a pod.
pub open spec fn endpoint(ip: Result<String, String>) -> Seq<char> {
    ip->Ok_0@ + ":6379"@
}

/// The report of an operation on the cluster, with the state after it.
pub open spec fn cluster_summary(
    title: Seq<char>,
    output: Seq<char>,
    info: Seq<char>,
    nodes: Seq<char>,
) -> Seq<char> {
    title + output + "\n\nCLUSTER INFO:\n"@ + info + "\n\nCLUSTER NODES:\n"@ + nodes
}

fn report_cluster(title: &str, output: &str, info: &str, nodes: &str) -> (r: ToolResult)
    ensures
        r@ == (ResultView {
            success: text::has(info@, "cluster_state:ok"@),
            output: cluster_summary(title@, output@, info@, nodes@),
        }),
{
    let mut out = title.to_string();
    out.append(output);
    out.append("\n\nCLUSTER INFO:\n");
    out.append(info);
    out.append("\n\nCLUSTER NODES:\n");
    out.append(nodes);
    ToolResult { success: text::contains(info, "cluster_state:ok"), output: out }
}

impl ClusterMeetAll {
    /// A tool for a cluster of some pods.
    pub fn new(
        cluster_name: String,
        namespace: String,
        total_pods: u32,
        replicas_per_master: u32,
    ) -> (r: ClusterMeetAll)
        ensures
            r.cluster_name == cluster_name,
            r.namespace == namespace,
            r.total_pods == total_pods,
            r.replicas_per_master == replicas_per_master,
    {
        ClusterMeetAll { cluster_name, namespace, total_pods, replicas_per_master }
    }

    /// Makes the command that makes the cluster, from the addresses of its pods; the addresses
    /// after one that could not be found do not matter.
    pub fn plan(&self, ips: &Vec<Result<String, String>>) -> (r: Result<Vec<String>, ToolResult>)
        requires
            ips@.len() <= self.total_pods,
            ips@.len() < self.total_pods ==> lost_pod(ips@, 0) is Some,
        ensures
            match (lost_pod(ips@, 0), r) {
                (Some(lost), Err(e)) => e@ == (ResultView {
                    success: false,
                    output: "Failed to get IP for "@ + pod_at(self.cluster_name@, lost.0 as nat)
                        + ": "@ + lost.1,
                }),
                (None, Ok(command)) => text::views(command@) == seq![
                    "valkey-cli"@,
                    "--cluster"@,
                    "create"@,
                ] + ips@.map_values(|ip: Result<String, String>| endpoint(ip)) + seq![
                    "--cluster-replicas"@,
                    text::decimal(self.replicas_per_master as nat),
                    "--cluster-yes"@,
                ],
                _ => false,
            },
    {
        let mut out: Vec<String> = Vec::new();
        out.push("valkey-cli".to_string());
        out.push("--cluster".to_string());
        out.push("create".to_string());
        let ghost head = seq!["valkey-cli"@, "--cluster"@, "create"@];
        let ghost ends = ips@.map_values(|ip: Result<String, String>| endpoint(ip));
        assert(text::views(out@) =~= head + ends.take(0));
        let mut i: usize = 0;
        while i < ips.len()
            invariant
                i <= ips@.len(),
                ips@.len() <= self.total_pods,
                ends == ips@.map_values(|ip: Result<String, String>| endpoint(ip)),
                lost_pod(ips@, 0) == lost_pod(ips@, i as int),
                text::views(out@) =~= head + ends.take(i as int),
            decreases ips@.len() - i,
        {
            match &ips[i] {
                Ok(ip) => {
                    let ghost before = out@;
                    out.push(endpoint_of(ip.as_str()));
                    assert(text::views(out@) =~= text::views(before).push(ends[i as int]));
                },
                Err(e) => {
                    let mut message = "Failed to get IP for ".to_string();
                    message.append(pod_name(self.cluster_name.as_str(), i as u32).as_str());
                    message.append(": ");
                    message.append(e.as_str());
                    return Err(ToolResult::failure(message));
                },
            }
            i = i + 1;
        }
        let ghost before = out@;
        out.push("--cluster-replicas".to_string());
        out.push(text::decimal_of(self.replicas_per_master as u128));
        out.push("--cluster-yes".to_string());
        assert(ends.take(ips@.len() as int) =~= ends);
        assert(text::views(before) =~= head + ends);
        assert(text::views(out@) =~= text::views(before) + seq![
            "--cluster-replicas"@,
            text::decimal(self.replicas_per_master as nat),
            "--cluster-yes"@,
        ]);
        Ok(out)
    }

    /// Reports a cluster that was made, with its state after.
    pub fn report(stdout: &str, stderr: &str, info: &str, nodes: &str) -> (r: ToolResult)
        ensures
            r@ == (ResultView {
                success: text::has(info@, "cluster_state:ok"@),
                output: cluster_summary(
                    "cluster create output:\n"@,
                    printed(stdout@, stderr@),
                    info@,
                    nodes@,
                ),
            }),
    {
        report_cluster(
            "cluster create output:\n",
            take_printed(stdout, stderr).as_str(),
            info,
            nodes,
        )
    }
}

/// Adds a pod to a running cluster.
pub struct ClusterAddNode {
    pub cluster_name: String,
    pub namespace: String,
}

impl Tool for ClusterAddNode {
    open spec fn tool_name(&self) -> Seq<char> {
        "cluster_add_node"@
    }

    open spec fn tool_description(&self) -> Seq<char> {
        "Add a new pod to an EXISTING running cluster using 'valkey-cli --cluster add-node'. Use this for scaling up. After adding nodes, call cluster_rebalance to distribute slots. Args: {\"pod_index\": number} — the index of the new pod to add."@
    }

    open spec fn tool_schema(&self) -> JsonView {
        schema::arguments(
            map![
                "pod_index"@ => schema::prop("integer"@, "Index of the new pod to add to the cluster"@),
            ],
            Some(seq!["pod_index"@]),
        )
    }

    open spec fn tool_safety(&self) -> ToolSafety {
        ToolSafety::Validated
    }

    fn name(&self) -> &str {
        "cluster_add_node"
    }

    fn description(&self) -> &str {
        "Add a new pod to an EXISTING running cluster using 'valkey-cli --cluster add-node'. Use this for scaling up. After adding nodes, call cluster_rebalance to distribute slots. Args: {\"pod_index\": number} — the index of the new pod to add."
    }

    fn parameters_schema(&self) -> Json {
        let mut props = JsonObject::new();
        props.put("pod_index", schema::make_prop("integer", "Index of the new pod to add to the cluster"));
        let required: Vec<&str> = vec!["pod_index"];
        assert(required@.map_values(|p: &str| p@) =~= seq!["pod_index"@]);
        schema::make_arguments(props, required)
    }

    fn safety(&self) -> ToolSafety {
        ToolSafety::Validated
    }
}

impl ClusterAddNode {
    /// A tool for a cluster.
    pub fn new(cluster_name: String, namespace: String) -> (r: ClusterAddNode)
        ensures
            r.cluster_name == cluster_name,
            r.namespace == namespace,
    {
        ClusterAddNode { cluster_name, namespace }
    }

    /// Checks a call, and names the pod that is added.
    pub fn plan(&self, args: &Json) -> (r: Result<String, ToolResult>)
        ensures
            match (json::u32_member(args@, "pod_index"@), r) {
                (Some(n), Ok(pod)) => pod@ == pod_at(self.cluster_name@, n as nat),
                (None, Err(e)) => e@ == (ResultView {
                    success: false,
                    output: "missing pod_index"@,
                }),
                _ => false,
            },
    {
        match args.u32_at("pod_index") {
            Some(n) => Ok(pod_name(self.cluster_name.as_str(), n)),
            None => Err(ToolResult::failure("missing pod_index".to_string())),
        }
    }

    /// Reports an address that could not be found.
    pub fn report_lost(pod: &str, error: &str) -> (r: ToolResult)
        ensures
            r@ == (ResultView {
                success: false,
                output: "Failed to get "@ + pod@ + " IP: "@ + error@,
            }),
    {
        let mut out = "Failed to get ".to_string();
        out.append(pod);
        out.append(" IP: ");
        out.append(error);
        ToolResult::failure(out)
    }

    /// Makes the command that adds a pod, from its address and that of a pod of the cluster.
    pub fn command(new_ip: &str, existing_ip: &str) -> (r: Vec<String>)
        ensures
            text::views(r@) == seq![
                "valkey-cli"@,
                "--cluster"@,
                "add-node"@,
                new_ip@ + ":6379"@,
                existing_ip@ + ":6379"@,
            ],
    {
        let mut out: Vec<String> = Vec::new();
        out.push("valkey-cli".to_string());
        out.push("--cluster".to_string());
        out.push("add-node".to_string());
        out.push(endpoint_of(new_ip));
        out.push(endpoint_of(existing_ip));
        assert(text::views(out@) =~= seq![
            "valkey-cli"@,
            "--cluster"@,
            "add-node"@,
            new_ip@ + ":6379"@,
            existing_ip@ + ":6379"@,
        ]);
        out
    }

    /// Reports a pod that was to be added.
    pub fn report(stdout: &str, stderr: &str) -> (r: ToolResult)
        ensures
            r@ == (ResultView {
                success: text::has(printed(stdout@, stderr@), "[OK]"@) || text::has(
                    printed(stdout@, stderr@),
                    "added"@,
                ),
                output: printed(stdout@, stderr@),
            }),
    {
        let output = take_printed(stdout, stderr);
        let success = text::contains(output.as_str(), "[OK]") || text::contains(
            output.as_str(),
            "added",
        );
        ToolResult { success, output }
    }
}

/// Spreads the slots of a cluster over its masters.
pub struct ClusterRebalance {
    pub cluster_name: String,
    pub namespace: String,
}

impl Tool for ClusterRebalance {
    open spec fn tool_name(&self) -> Seq<char> {
        "cluster_rebalance"@
    }

    open spec fn tool_description(&self) -> Seq<char> {
        "Rebalance hash slots evenly across all current master nodes using 'valkey-cli --cluster rebalance'. Use after adding new masters to redistribute slots. No args needed."@
    }

    open spec fn tool_schema(&self) -> JsonView {
        schema::arguments(
            Map::empty(),
            Some(seq![]),
        )
    }

    open spec fn tool_safety(&self) -> ToolSafety {
        ToolSafety::Validated
    }

    fn name(&self) -> &str {
        "cluster_rebalance"
    }

    fn description(&self) -> &str {
        "Rebalance hash slots evenly across all current master nodes using 'valkey-cli --cluster rebalance'. Use after adding new masters to redistribute slots. No args needed."
    }

    fn parameters_schema(&self) -> Json {
        let props = JsonObject::new();
        let required: Vec<&str> = Vec::new();
        assert(required@.map_values(|p: &str| p@) =~= seq![]);
        schema::make_arguments(props, required)
    }

    fn safety(&self) -> ToolSafety {
        ToolSafety::Validated
    }
}

impl ClusterRebalance {
    /// A tool for a cluster.
    pub fn new(cluster_name: String, namespace: String) -> (r: ClusterRebalance)
        ensures
            r.cluster_name == cluster_name,
            r.namespace == namespace,
    {
        ClusterRebalance { cluster_name, namespace }
    }

    /// The pod from which the slots are spread.
    pub fn plan(&self) -> (r: String)
        ensures
            r@ == pod_at(self.cluster_name@, 0),
    {
        pod_name(self.cluster_name.as_str(), 0)
    }

    /// Makes the command that spreads the slots, from the address of a pod of the cluster.
    pub fn command(ip: &str) -> (r: Vec<String>)
        ensures
            text::views(r@) == seq![
                "valkey-cli"@,
                "--cluster"@,
                "rebalance"@,
                ip@ + ":6379"@,
                "--cluster-use-empty-masters"@,
            ],
    {
        let mut out: Vec<String> = Vec::new();
        out.push("valkey-cli".to_string());
        out.push("--cluster".to_string());
        out.push("rebalance".to_string());
        out.push(endpoint_of(ip));
        out.push("--cluster-use-empty-masters".to_string());
        assert(text::views(out@) =~= seq![
            "valkey-cli"@,
            "--cluster"@,
            "rebalance"@,
            ip@ + ":6379"@,
            "--cluster-use-empty-masters"@,
        ]);
        out
    }

    /// Reports slots that were spread, with the state of the cluster after.
    pub fn report(stdout: &str, stderr: &str, info: &str, nodes: &str) -> (r: ToolResult)
        ensures
            r@ == (ResultView {
                success: text::has(info@, "cluster_state:ok"@),
                output: cluster_summary(
                    "Rebalance output:\n"@,
                    printed(stdout@, stderr@),
                    info@,
                    nodes@,
                ),
            }),
    {
        report_cluster(
            "Rebalance output:\n",
            take_printed(stdout, stderr).as_str(),
            info,
            nodes,
        )
    }
}

// ---------------------------------------------------------------------------
// What the tools run and tell
// ---------------------------------------------------------------------------
proof fn lemma_first_word_denied(words: Seq<Seq<char>>, name: Seq<char>, rest: Seq<char>)
    requires
        words.len() > 0,
        words[0] == name + rest,
        name.len() > 0,
        name[0] != 'C',
    ensures
        setting(words) is None,
        text::begins(words[0], name),
{
    reveal_strlit("CONFIG");
    assert(words[0][0] == name[0]);
    assert("CONFIG"@[0] == 'C');
    assert(words[0].subrange(0, name.len() as int) =~= name);
}

/// A command that empties, debugs or stops the server is denied, whatever follows its name.
pub proof fn lemma_destructive_commands_are_denied(words: Seq<Seq<char>>, rest: Seq<char>)
    requires
        words.len() > 0,
    ensures
        words[0] == "FLUSHALL"@ + rest ==> denied_words(words),
        words[0] == "FLUSHDB"@ + rest ==> denied_words(words),
        words[0] == "DEBUG"@ + rest ==> denied_words(words),
        words[0] == "SHUTDOWN"@ + rest ==> denied_words(words),
{
    reveal_strlit("FLUSHALL");
    reveal_strlit("FLUSHDB");
    reveal_strlit("DEBUG");
    reveal_strlit("SHUTDOWN");
    if words[0] == "FLUSHALL"@ + rest {
        lemma_first_word_denied(words, "FLUSHALL"@, rest);
    }
    if words[0] == "FLUSHDB"@ + rest {
        lemma_first_word_denied(words, "FLUSHDB"@, rest);
    }
    if words[0] == "DEBUG"@ + rest {
        lemma_first_word_denied(words, "DEBUG"@, rest);
    }
    if words[0] == "SHUTDOWN"@ + rest {
        lemma_first_word_denied(words, "SHUTDOWN"@, rest);
    }
}

/// Of the settings only those of the memory limit may be changed.
pub proof fn lemma_only_memory_may_be_set(words: Seq<Seq<char>>, rest: Seq<char>)
    requires
        words.len() >= 2,
        words[0] == "CONFIG"@,
        words[1] == "SET"@,
    ensures
        words.len() == 2 ==> denied_words(words),
        words.len() > 2 && words[2] == "MAXMEMORY"@ + rest ==> !denied_words(words),
        words.len() > 2 && !text::begins(words[2], "MAXMEMORY"@) ==> denied_words(words),
{
    reveal_strlit("SET");
    reveal_strlit("MAXMEMORY");
    reveal_strlit("");
    assert(words[1].subrange(0, 3) =~= "SET"@);
    if words.len() > 2 && words[2] == "MAXMEMORY"@ + rest {
        assert(words[2].subrange(0, 9) =~= "MAXMEMORY"@);
    }
}

/// A command of any other name is run.
pub proof fn lemma_other_commands_are_run(words: Seq<Seq<char>>)
    requires
        words.len() > 0,
        words[0] != "CONFIG"@,
        !text::begins(words[0], "FLUSHALL"@),
        !text::begins(words[0], "FLUSHDB"@),
        !text::begins(words[0], "DEBUG"@),
        !text::begins(words[0], "SHUTDOWN"@),
    ensures
        !denied_words(words),
{
}

/// A command in capitals is judged by its words: by the first, however much white space stands
/// before it.
pub proof fn lemma_commands_are_judged_by_words(
    blank: Seq<char>,
    word: Seq<char>,
    rest: Seq<char>,
)
    requires
        text::all_white(blank),
        text::is_word(word),
        word.len() > 0,
        rest.len() == 0 || text::white(rest[0]),
    ensures
        denied_capitals(blank + word + rest) == denied_words(
            seq![word] + text::words_from(rest, 0),
        ),
{
    text::lemma_words_are_set_apart(blank, word, rest);
}

/// Every line of the form `key:value` tells its key's value, both without the white space around
/// them, unless a later line tells it again.
pub proof fn lemma_cluster_info_is_read_line_by_line(
    raw: Seq<char>,
    key: Seq<char>,
    value: Seq<char>,
    i: int,
)
    requires
        0 <= i < text::text_lines(raw).len(),
        !key.contains(':'),
        text::trimmed(text::text_lines(raw)[i]) == key + seq![':'] + value,
        forall|j: int|
            i < j < text::text_lines(raw).len() ==> !(text::parted(
                text::trimmed(#[trigger] text::text_lines(raw)[j]),
                ":"@,
            ) matches Some(p) && text::trimmed(p.0) == text::trimmed(key)),
    ensures
        cluster_info(raw).dom().contains(text::trimmed(key)),
        cluster_info(raw)[text::trimmed(key)] == text::trimmed(value),
        json::str_member(texts_json(cluster_info(raw)), text::trimmed(key)) == Some(
            text::trimmed(value),
        ),
{
    let lines = text::text_lines(raw);
    lemma_info_holds(lines, lines.len() as int, key, value, i);
}

proof fn lemma_info_holds(
    lines: Seq<Seq<char>>,
    n: int,
    key: Seq<char>,
    value: Seq<char>,
    i: int,
)
    requires
        0 <= i < n <= lines.len(),
        !key.contains(':'),
        text::trimmed(lines[i]) == key + seq![':'] + value,
        forall|j: int|
            i < j < n ==> !(text::parted(text::trimmed(#[trigger] lines[j]), ":"@) matches Some(p)
                && text::trimmed(p.0) == text::trimmed(key)),
    ensures
        info_to(lines, n).dom().contains(text::trimmed(key)),
        info_to(lines, n)[text::trimmed(key)] == text::trimmed(value),
    decreases n,
{
    reveal_strlit(":");
    assert(":"@ =~= seq![':']);
    text::lemma_parted_at(key, ':', value);
    if i < n - 1 {
        lemma_info_holds(lines, n - 1, key, value, i);
        assert(!(text::parted(text::trimmed(lines[n - 1]), ":"@) matches Some(p) && text::trimmed(
            p.0,
        ) == text::trimmed(key)));
    }
}

/// The pods of a cluster are named by it and by their index, with a dash between them; a pod is
/// reached at its address, on the server's port.
pub proof fn lemma_pods_are_named_by_index(
    cluster: Seq<char>,
    index: nat,
    ip: Result<String, String>,
)
    ensures
        pod_at(cluster, index) == cluster + seq!['-'] + text::decimal(index),
        ip matches Ok(a) ==> endpoint(ip) == a@ + ":6379"@,
{
    reveal_strlit("-");
    assert("-"@ =~= seq!['-']);
}

/// A command that the server reports as failed is an error, with what it printed as errors, else
/// with the reason. Any other gives what it printed: its output, or its errors where there is no
/// output.
pub proof fn lemma_cli_outcomes(status: Option<CliStatus>, stdout: Seq<char>, stderr: Seq<char>)
    ensures
        status matches Some(s) ==> (!(s.status matches Some(w) && w@ == "Success"@) ==> (match cli_result(
            status,
            stdout,
            stderr,
        ) {
            Err(e) => if stderr.len() > 0 {
                e == "valkey-cli failed: "@ + text::trimmed(stderr)
            } else {
                s.reason matches Some(r) ==> e == "valkey-cli failed: "@ + r@
            },
            Ok(_) => false,
        })),
        (status is None || (status->0.status matches Some(w) && w@ == "Success"@)) ==> {
            &&& !text::all_white(stdout) ==> cli_result(status, stdout, stderr) == Ok::<
                Seq<char>,
                Seq<char>,
            >(text::trimmed(stdout))
            &&& text::all_white(stdout) ==> cli_result(status, stdout, stderr) == Ok::<
                Seq<char>,
                Seq<char>,
            >(text::trimmed(stderr))
        },
        !text::all_white(stdout) ==> printed(stdout, stderr) == text::trimmed(stdout),
        text::all_white(stdout) ==> printed(stdout, stderr) == text::trimmed(stderr),
{
    text::lemma_blank_is_white(stdout);
    text::lemma_blank_is_white(stderr);
    if text::trimmed(stdout).len() == 0 && text::trimmed(stderr).len() == 0 {
        assert(text::trimmed(stdout) =~= text::trimmed(stderr));
    }
}

/// What a node answered is told with its index, its pod and its answer: one that answered is
/// healthy, with its reply and its latency, one that did not is not, with the error.
pub proof fn lemma_answers_of_nodes_are_told(cluster: Seq<char>, index: u32, ping: Ping)
    ensures
        ({
            let j = ping_json(cluster, index as nat, ping);
            &&& json::u64_member(j, "pod_index"@) == Some(index as u64)
            &&& json::str_member(j, "pod"@) == Some(pod_at(cluster, index as nat))
            &&& ping matches Ok(p) ==> {
                &&& json::str_member(j, "status"@) == Some("healthy"@)
                &&& json::str_member(j, "response"@) == Some(p.0@)
                &&& json::u64_member(j, "latency_ms"@) == Some(p.1)
                &&& json::member(j, "error"@) is None
            }
            &&& ping matches Err(e) ==> {
                &&& json::str_member(j, "status"@) == Some("unhealthy"@)
                &&& json::str_member(j, "error"@) == Some(e@)
                &&& json::member(j, "response"@) is None
            }
        }),
{
    reveal_strlit("pod_index");
    reveal_strlit("pod");
    reveal_strlit("status");
    reveal_strlit("response");
    reveal_strlit("latency_ms");
    reveal_strlit("error");
    assert("pod_index"@.len() == 9 && "pod"@.len() == 3 && "status"@.len() == 6
        && "response"@.len() == 8 && "latency_ms"@.len() == 10 && "error"@.len() == 5);
}

proof fn lemma_healthy_prefix(a: Seq<Ping>, b: Seq<Ping>, n: int)
    requires
        n <= a.len(),
        n <= b.len(),
        forall|k: int| 0 <= k < n ==> #[trigger] a[k] == b[k],
    ensures
        healthy_to(a, n) == healthy_to(b, n),
    decreases n,
{
    if n > 0 {
        lemma_healthy_prefix(a, b, n - 1);
    }
}

/// Every node that answered counts as healthy, and no other.
pub proof fn lemma_healthy_nodes_are_counted(pings: Seq<Ping>, ping: Ping)
    ensures
        healthy_to(pings, 0) == 0,
        ping is Ok ==> healthy_to(pings.push(ping), pings.len() as int + 1) == healthy_to(
            pings,
            pings.len() as int,
        ) + 1,
        ping is Err ==> healthy_to(pings.push(ping), pings.len() as int + 1) == healthy_to(
            pings,
            pings.len() as int,
        ),
{
    lemma_healthy_prefix(pings, pings.push(ping), pings.len() as int);
}

proof fn lemma_lost_from(ips: Seq<Result<String, String>>, i: int, k: int)
    requires
        0 <= i,
    ensures
        lost_pod(ips, i) matches Some(l) ==> i <= l.0 < ips.len() && ips[l.0] is Err
            && ips[l.0]->Err_0@ == l.1 && (i <= k < l.0 ==> ips[k] is Ok),
        lost_pod(ips, i) is None && i <= k < ips.len() ==> ips[k] is Ok,
    decreases ips.len() - i,
{
    if i < ips.len() && ips[i] is Ok {
        lemma_lost_from(ips, i + 1, k);
    }
}

/// A cluster is made only where every address was found; the first that was not is told.
pub proof fn lemma_lost_pods_are_told(ips: Seq<Result<String, String>>, k: int)
    ensures
        lost_pod(ips, 0) matches Some(l) ==> 0 <= l.0 < ips.len() && ips[l.0] is Err
            && ips[l.0]->Err_0@ == l.1 && (0 <= k < l.0 ==> ips[k] is Ok),
        lost_pod(ips, 0) is None && 0 <= k < ips.len() ==> ips[k] is Ok,
{
    lemma_lost_from(ips, 0, k);
}

/// The report of an operation holds its output and the state of the cluster after it.
pub proof fn lemma_summary_holds_output_and_state(
    title: Seq<char>,
    output: Seq<char>,
    info: Seq<char>,
    nodes: Seq<char>,
) -> (r: (Seq<char>, Seq<char>))
    ensures
        cluster_summary(title, output, info, nodes) == title + output + r.0 + info + r.1 + nodes,
{
    ("\n\nCLUSTER INFO:\n"@, "\n\nCLUSTER NODES:\n"@)
}

/// What the model is told of the tool valkey_cli: its arguments, their types, and which it must give.
pub proof fn lemma_arguments_of_valkey_cli(tool: ValkeyCli)
    ensures
        tool.tool_name() == "valkey_cli"@,
        tool.tool_safety() == ToolSafety::Validated,
        json::member_in(tool.tool_schema(), "properties"@, "pod_index"@) matches Some(p)
            && json::str_member(p, "type"@) == Some("integer"@),
        json::member_in(tool.tool_schema(), "properties"@, "command"@) matches Some(p)
            && json::str_member(p, "type"@) == Some("string"@),
        json::member(tool.tool_schema(), "required"@) == Some(schema::texts(seq!["pod_index"@, "command"@])),
{
    reveal_strlit("type");
    reveal_strlit("properties");
    reveal_strlit("required");
    reveal_strlit("description");
    reveal_strlit("enum");
    reveal_strlit("items");
    reveal_strlit("pod_index");
    reveal_strlit("command");
    assert("type"@.len() == 4 && "properties"@.len() == 10 && "required"@.len() == 8 && "description"@.len() == 11 && "enum"@.len() == 4 && "items"@.len() == 5 && "pod_index"@.len() == 9 && "command"@.len() == 7);
    assert("enum"@[0] == 'e' && "type"@[0] == 't');
}

/// What the model is told of the tool cluster_nodes: its arguments, their types, and which it must give.
pub proof fn lemma_arguments_of_cluster_nodes(tool: ClusterNodes)
    ensures
        tool.tool_name() == "cluster_nodes"@,
        tool.tool_safety() == ToolSafety::ReadOnly,
        json::member(tool.tool_schema(), "required"@) == Some(schema::texts(seq![])),
{
    reveal_strlit("type");
    reveal_strlit("properties");
    reveal_strlit("required");
    reveal_strlit("description");
    reveal_strlit("enum");
    reveal_strlit("items");
    assert("type"@.len() == 4 && "properties"@.len() == 10 && "required"@.len() == 8 && "description"@.len() == 11 && "enum"@.len() == 4 && "items"@.len() == 5);
    assert("enum"@[0] == 'e' && "type"@[0] == 't');
}

/// What the model is told of the tool cluster_info: its arguments, their types, and which it must give.
pub proof fn lemma_arguments_of_cluster_info(tool: ClusterInfo)
    ensures
        tool.tool_name() == "cluster_info"@,
        tool.tool_safety() == ToolSafety::ReadOnly,
        json::member(tool.tool_schema(), "required"@) == Some(schema::texts(seq![])),
{
    reveal_strlit("type");
    reveal_strlit("properties");
    reveal_strlit("required");
    reveal_strlit("description");
    reveal_strlit("enum");
    reveal_strlit("items");
    assert("type"@.len() == 4 && "properties"@.len() == 10 && "required"@.len() == 8 && "description"@.len() == 11 && "enum"@.len() == 4 && "items"@.len() == 5);
    assert("enum"@[0] == 'e' && "type"@[0] == 't');
}

/// What the model is told of the tool health_check: its arguments, their types, and which it must give.
pub proof fn lemma_arguments_of_health_check(tool: HealthCheck)
    ensures
        tool.tool_name() == "health_check"@,
        tool.tool_safety() == ToolSafety::ReadOnly,
        json::member(tool.tool_schema(), "required"@) == Some(schema::texts(seq![])),
{
    reveal_strlit("type");
    reveal_strlit("properties");
    reveal_strlit("required");
    reveal_strlit("description");
    reveal_strlit("enum");
    reveal_strlit("items");
    assert("type"@.len() == 4 && "properties"@.len() == 10 && "required"@.len() == 8 && "description"@.len() == 11 && "enum"@.len() == 4 && "items"@.len() == 5);
    assert("enum"@[0] == 'e' && "type"@[0] == 't');
}

/// What the model is told of the tool cluster_init: its arguments, their types, and which it must give.
pub proof fn lemma_arguments_of_cluster_meet_all(tool: ClusterMeetAll)
    ensures
        tool.tool_name() == "cluster_init"@,
        tool.tool_safety() == ToolSafety::Validated,
        json::member(tool.tool_schema(), "required"@) == Some(schema::texts(seq![])),
{
    reveal_strlit("type");
    reveal_strlit("properties");
    reveal_strlit("required");
    reveal_strlit("description");
    reveal_strlit("enum");
    reveal_strlit("items");
    assert("type"@.len() == 4 && "properties"@.len() == 10 && "required"@.len() == 8 && "description"@.len() == 11 && "enum"@.len() == 4 && "items"@.len() == 5);
    assert("enum"@[0] == 'e' && "type"@[0] == 't');
}

/// What the model is told of the tool cluster_add_node: its arguments, their types, and which it must give.
pub proof fn lemma_arguments_of_cluster_add_node(tool: ClusterAddNode)
    ensures
        tool.tool_name() == "cluster_add_node"@,
        tool.tool_safety() == ToolSafety::Validated,
        json::member_in(tool.tool_schema(), "properties"@, "pod_index"@) matches Some(p)
            && json::str_member(p, "type"@) == Some("integer"@),
        json::member(tool.tool_schema(), "required"@) == Some(schema::texts(seq!["pod_index"@])),
{
    reveal_strlit("type");
    reveal_strlit("properties");
    reveal_strlit("required");
    reveal_strlit("description");
    reveal_strlit("enum");
    reveal_strlit("items");
    reveal_strlit("pod_index");
    assert("type"@.len() == 4 && "properties"@.len() == 10 && "required"@.len() == 8 && "description"@.len() == 11 && "enum"@.len() == 4 && "items"@.len() == 5 && "pod_index"@.len() == 9);
    assert("enum"@[0] == 'e' && "type"@[0] == 't');
}

/// What the model is told of the tool cluster_rebalance: its arguments, their types, and which it must give.
pub proof fn lemma_arguments_of_cluster_rebalance(tool: ClusterRebalance)
    ensures
        tool.tool_name() == "cluster_rebalance"@,
        tool.tool_safety() == ToolSafety::Validated,
        json::member(tool.tool_schema(), "required"@) == Some(schema::texts(seq![])),
{
    reveal_strlit("type");
    reveal_strlit("properties");
    reveal_strlit("required");
    reveal_strlit("description");
    reveal_strlit("enum");
    reveal_strlit("items");
    assert("type"@.len() == 4 && "properties"@.len() == 10 && "required"@.len() == 8 && "description"@.len() == 11 && "enum"@.len() == 4 && "items"@.len() == 5);
    assert("enum"@[0] == 'e' && "type"@[0] == 't');
}

/// A setting that is written together with its command is judged like one that is set apart.
pub proof fn lemma_settings_are_found(words: Seq<Seq<char>>, what: Seq<char>)
    requires
        words.len() >= 2,
        words[0] == "CONFIG"@,
        what.len() > 0,
        words[1] == "SET"@ + what,
    ensures
        denied_words(words) == !text::begins(what, "MAXMEMORY"@),
{
    reveal_strlit("SET");
    assert(words[1].subrange(0, 3) =~= "SET"@);
    assert(words[1].skip(3) =~= what);
}

} // verus!
