//! The tools that run a skill's actions and apply its templates.
use vstd::prelude::*;
use std::sync::Arc;
use crate::agent::tool::{Tool, ToolSafety};
use crate::agent::types::{ResultView, ToolResult};
use crate::json::{Json, JsonObject, JsonView, NumberView};
use crate::json;
use crate::monitor::runner;
use crate::path;
use crate::skill::types::{ActionDef, LoadedSkill};
use crate::table::Table;
use crate::table;
use crate::text;
use crate::tools::schema;
use crate::tools::template;

verus! {

// ---------------------------------------------------------------------------
// Shell words
// ---------------------------------------------------------------------------
/// Whether a character stands for itself in a shell word.
pub open spec fn plain_char(c: char) -> bool {
    text::letter_or_digit(c) || ".-_/:@,"@.contains(c)
}

/// Whether every character stands for itself.
pub open spec fn plain_word(s: Seq<char>) -> bool {
    forall|i: int| 0 <= i < s.len() ==> plain_char(#[trigger] s[i])
}

/// A text as one shell word: as it is where every character stands for itself, else in single
/// quotes.
pub open spec fn shell_word(s: Seq<char>) -> Seq<char> {
    if plain_word(s) {
        s
    } else {
        "'"@ + text::replaced(s, "'"@, "'\\''"@) + "'"@
    }
}

fn is_plain_char(c: char) -> (r: bool)
    ensures
        r == plain_char(c),
{
    if text::is_alphanumeric(c) {
        return true;
    }
    let marks = text::chars_of(".-_/:@,");
    let mut i: usize = 0;
    while i < marks.len()
        invariant
            marks@ == ".-_/:@,"@,
            i <= marks@.len(),
            forall|k: int| 0 <= k < i ==> marks@[k] != c,
        decreases marks@.len() - i,
    {
        if marks[i] == c {
            assert(".-_/:@,"@[i as int] == c);
            return true;
        }
        i = i + 1;
    }
    false
}

/// Makes a text one shell word.
pub fn shell_escape(s: &str) -> (r: String)
    ensures
        r@ == shell_word(s@),
{
    let cs = text::chars_of(s);
    let mut i: usize = 0;
    while i < cs.len()
        invariant
            cs@ == s@,
            i <= cs@.len(),
            forall|k: int| 0 <= k < i ==> plain_char(#[trigger] s@[k]),
        decreases cs@.len() - i,
    {
        if !is_plain_char(cs[i]) {
            proof {
                reveal_strlit("'");
                assert(!plain_char(s@[i as int]));
            }
            let mut out = "'".to_string();
            out.append(text::replace(s, "'", "'\\''").as_str());
            out.append("'");
            return out;
        }
        i = i + 1;
    }
    s.to_string()
}

/// What a shell reads from a word as the value of a variable, from index `i` on: text in single
/// quotes stands for itself, and so does a character after a backslash outside of them; plain
/// characters stand for themselves. `None` where the word does not end or holds anything else.
pub open spec fn shell_reads(w: Seq<char>, i: int, in_quotes: bool) -> Option<Seq<char>>
    decreases w.len() - i,
{
    if i < 0 || i > w.len() {
        None
    } else if i == w.len() {
        if in_quotes {
            None
        } else {
            Some(seq![])
        }
    } else if w[i] == '\'' {
        shell_reads(w, i + 1, !in_quotes)
    } else if in_quotes || plain_char(w[i]) {
        match shell_reads(w, i + 1, in_quotes) {
            Some(rest) => Some(seq![w[i]] + rest),
            None => None,
        }
    } else if w[i] == '\\' && i + 1 < w.len() {
        match shell_reads(w, i + 2, false) {
            Some(rest) => Some(seq![w[i + 1]] + rest),
            None => None,
        }
    } else {
        None
    }
}

/// A text with each single quote written as a closed quote, an escaped quote and an opened quote,
/// from index `i` on.
spec fn requoted(s: Seq<char>, i: int) -> Seq<char>
    decreases s.len() - i,
{
    if i < 0 || i >= s.len() {
        seq![]
    } else if s[i] == '\'' {
        seq!['\'', '\\', '\'', '\''] + requoted(s, i + 1)
    } else {
        seq![s[i]] + requoted(s, i + 1)
    }
}

proof fn lemma_requoted(s: Seq<char>, i: int)
    requires
        0 <= i <= s.len(),
    ensures
        text::replaced_from(s, "'"@, "'\\''"@, i) == requoted(s, i),
    decreases s.len() - i,
{
    reveal_strlit("'");
    reveal_strlit("'\\''");
    let pat = "'"@;
    let to = "'\\''"@;
    assert(pat =~= seq!['\'']);
    assert(to =~= seq!['\'', '\\', '\'', '\'']);
    if i < s.len() {
        lemma_requoted(s, i + 1);
        assert(s.subrange(i, i + 1) =~= seq![s[i]]);
        if s[i] == '\'' {
            assert(text::occurs_at(s, pat, i));
            assert(s.subrange(i, i) + to + text::replaced_from(s, pat, to, i + 1) =~= to
                + text::replaced_from(s, pat, to, i + 1));
        } else {
            assert(!text::occurs_at(s, pat, i)) by {
                if s.subrange(i, i + 1) == pat {
                    assert(seq![s[i]][0] == pat[0]);
                }
            }
            text::lemma_found_from(s, pat, i + 1);
            match text::found_from(s, pat, i + 1) {
                Some(j) => {
                    let rest = text::replaced_from(s, pat, to, j + 1);
                    assert(s.subrange(i, j) + to + rest =~= seq![s[i]] + (s.subrange(i + 1, j) + to
                        + rest));
                },
                None => {
                    assert(s.skip(i) =~= seq![s[i]] + s.skip(i + 1));
                },
            }
        }
    } else {
        assert(text::found_from(s, pat, i) is None);
        assert(s.skip(i) =~= seq![]);
    }
}

proof fn lemma_reads_quoted(s: Seq<char>, i: int, w: Seq<char>, p: int)
    requires
        0 <= i <= s.len(),
        0 <= p <= w.len(),
        w.skip(p) == requoted(s, i) + seq!['\''],
    ensures
        shell_reads(w, p, true) == Some(s.skip(i)),
    decreases s.len() - i,
{
    let tail = requoted(s, i) + seq!['\''];
    assert(w.len() == p + tail.len());
    assert(forall|k: int| 0 <= k < tail.len() ==> w[p + k] == #[trigger] tail[k]);
    if i == s.len() {
        assert(tail =~= seq!['\'']);
        assert(w[p + 0] == tail[0]);
        assert(shell_reads(w, p + 1, false) == Some(Seq::<char>::empty()));
        assert(s.skip(i) =~= seq![]);
    } else if s[i] == '\'' {
        let rest = requoted(s, i + 1) + seq!['\''];
        assert(tail =~= seq!['\'', '\\', '\'', '\''] + rest);
        assert(w[p + 0] == tail[0] && w[p + 1] == tail[1] && w[p + 2] == tail[2] && w[p + 3]
            == tail[3]);
        assert(w.skip(p + 4) =~= w.skip(p).skip(4));
        assert(tail.skip(4) =~= rest);
        lemma_reads_quoted(s, i + 1, w, p + 4);
        assert(!plain_char('\\')) by {
            reveal_strlit(".-_/:@,");
        }
        assert(shell_reads(w, p + 3, false) == shell_reads(w, p + 4, true));
        assert(shell_reads(w, p + 1, false) == Some(seq!['\''] + s.skip(i + 1)));
        assert(shell_reads(w, p, true) == shell_reads(w, p + 1, false));
        assert(s.skip(i) =~= seq!['\''] + s.skip(i + 1));
    } else {
        let rest = requoted(s, i + 1) + seq!['\''];
        assert(tail =~= seq![s[i]] + rest);
        assert(w[p + 0] == tail[0]);
        assert(w.skip(p + 1) =~= w.skip(p).skip(1));
        assert(tail.skip(1) =~= rest);
        lemma_reads_quoted(s, i + 1, w, p + 1);
        assert(s.skip(i) =~= seq![s[i]] + s.skip(i + 1));
    }
}

proof fn lemma_reads_plain(s: Seq<char>, i: int)
    requires
        0 <= i <= s.len(),
        plain_word(s),
    ensures
        shell_reads(s, i, false) == Some(s.skip(i)),
    decreases s.len() - i,
{
    if i < s.len() {
        lemma_reads_plain(s, i + 1);
        assert(plain_char(s[i]));
        assert(s[i] != '\'') by {
            reveal_strlit(".-_/:@,");
        }
        assert(s.skip(i) =~= seq![s[i]] + s.skip(i + 1));
    } else {
        assert(s.skip(i) =~= seq![]);
    }
}

/// A shell that reads a word as the value of a variable gets exactly the text that was made the
/// word, whatever that text holds.
pub proof fn lemma_shell_reads_word(s: Seq<char>)
    ensures
        shell_reads(shell_word(s), 0, false) == Some(s),
{
    assert(s.skip(0) =~= s);
    if plain_word(s) {
        lemma_reads_plain(s, 0);
    } else {
        reveal_strlit("'");
        let w = shell_word(s);
        lemma_requoted(s, 0);
        assert(w =~= seq!['\''] + requoted(s, 0) + seq!['\'']);
        assert(w.skip(1) =~= requoted(s, 0) + seq!['\'']);
        lemma_reads_quoted(s, 0, w, 1);
        assert(w[0] == '\'');
    }
}

// ---------------------------------------------------------------------------
// Running an action
// ---------------------------------------------------------------------------
/// Runs an action of a skill in a pod.
pub struct RunAction {
    pub skill: Arc<LoadedSkill>,
    pub namespace: String,
    pub resource_name: String,
    pub denied_commands: Vec<String>,
}

/// What is said of the parameters of an action.
pub open spec fn params_help(params: Seq<String>) -> Seq<char> {
    if params.len() == 0 {
        "none"@
    } else {
        text::joined(text::views(params), ", "@)
    }
}

/// What is said of an action.
pub open spec fn action_help(a: ActionDef) -> Seq<char> {
    "- "@ + a.name@ + ": "@ + (match a.description {
        Some(d) => d@,
        None => ""@,
    }) + " (params: "@ + params_help(a.params@) + ")"@
}

/// What is said of the actions of a skill.
pub open spec fn actions_help(actions: Seq<ActionDef>) -> Seq<char> {
    "Key-value arguments passed as env vars. Available actions:\n"@ + text::joined(
        actions.map_values(|a: ActionDef| action_help(a)),
        "\n"@,
    )
}

fn help_on_actions(actions: &Vec<ActionDef>) -> (r: String)
    ensures
        r@ == actions_help(actions@),
{
    let ghost want = actions@.map_values(|a: ActionDef| action_help(a));
    let mut lines: Vec<String> = Vec::new();
    let mut i: usize = 0;
    while i < actions.len()
        invariant
            i <= actions@.len(),
            want == actions@.map_values(|a: ActionDef| action_help(a)),
            text::views(lines@) =~= want.take(i as int),
        decreases actions@.len() - i,
    {
        let action = &actions[i];
        let mut line = "- ".to_string();
        line.append(action.name.as_str());
        line.append(": ");
        line.append(
            match &action.description {
                Some(d) => d.as_str(),
                None => "",
            },
        );
        line.append(" (params: ");
        if action.params.len() == 0 {
            line.append("none");
        } else {
            line.append(text::join(&action.params, ", ").as_str());
        }
        line.append(")");
        let ghost before = lines@;
        assert(line@ == want[i as int]);
        lines.push(line);
        assert(text::views(lines@) =~= text::views(before).push(want[i as int]));
        i = i + 1;
    }
    assert(text::views(lines@) =~= want);
    let mut out = "Key-value arguments passed as env vars. Available actions:\n".to_string();
    out.append(text::join(&lines, "\n").as_str());
    out
}

impl Tool for RunAction {
    open spec fn tool_name(&self) -> Seq<char> {
        "run_action"@
    }

    open spec fn tool_description(&self) -> Seq<char> {
        "Execute a skill-defined action script in a pod."@
    }

    open spec fn tool_schema(&self) -> JsonView {
        schema::arguments(
            map![
                "name"@ => schema::prop("string"@, "Action name as defined in the skill config"@),
                "args"@ => schema::prop("object"@, actions_help(self.skill.config.actions@)),
                "pod_name"@ => schema::prop("string"@, "Name of the pod in which to execute the action"@),
            ],
            Some(seq!["name"@, "pod_name"@]),
        )
    }

    open spec fn tool_safety(&self) -> ToolSafety {
        ToolSafety::Validated
    }

    fn name(&self) -> &str {
        "run_action"
    }

    fn description(&self) -> &str {
        "Execute a skill-defined action script in a pod."
    }

    fn parameters_schema(&self) -> Json {
        let mut props = JsonObject::new();
        props.put("name", schema::make_prop("string", "Action name as defined in the skill config"));
        props.put("args", schema::make_prop("object", help_on_actions(&self.skill.config.actions).as_str()));
        props.put("pod_name", schema::make_prop("string", "Name of the pod in which to execute the action"));
        let required: Vec<&str> = vec!["name", "pod_name"];
        assert(required@.map_values(|p: &str| p@) =~= seq!["name"@, "pod_name"@]);
        schema::make_arguments(props, required)
    }

    fn safety(&self) -> ToolSafety {
        ToolSafety::Validated
    }
}

/// The first action from index `i` on with the given name.
pub open spec fn action_named(actions: Seq<ActionDef>, name: Seq<char>, i: int) -> Option<int>
    decreases actions.len() - i,
{
    if i < 0 || i >= actions.len() {
        None
    } else if actions[i].name@ == name {
        Some(i)
    } else {
        action_named(actions, name, i + 1)
    }
}

/// The first of the denied commands from index `i` on that a text holds.
pub open spec fn denied_in(t: Seq<char>, denied: Seq<Seq<char>>, i: int) -> Option<Seq<char>>
    decreases denied.len() - i,
{
    if i < 0 || i >= denied.len() {
        None
    } else if text::has(t, denied[i]) {
        Some(denied[i])
    } else {
        denied_in(t, denied, i + 1)
    }
}

/// Finds the first of the denied commands that a text holds.
pub fn find_denied(t: &str, denied: &Vec<String>) -> (r: Option<String>)
    ensures
        text::opt(r) == denied_in(t@, text::views(denied@), 0),
{
    let ghost names = text::views(denied@);
    let mut i: usize = 0;
    while i < denied.len()
        invariant
            i <= denied@.len(),
            names == text::views(denied@),
            denied_in(t@, names, 0) == denied_in(t@, names, i as int),
        decreases denied@.len() - i,
    {
        assert(names[i as int] == denied@[i as int]@);
        if text::contains(t, denied[i].as_str()) {
            return Some(denied[i].clone());
        }
        i = i + 1;
    }
    assert(names.len() == denied@.len());
    None
}

/// A text in which no denied command was found holds none of them.
pub proof fn lemma_allowed_holds_none(t: Seq<char>, denied: Seq<Seq<char>>, k: int)
    requires
        denied_in(t, denied, 0) is None,
        0 <= k < denied.len(),
    ensures
        !text::has(t, denied[k]),
{
    lemma_allowed_from(t, denied, 0, k);
}

proof fn lemma_allowed_from(t: Seq<char>, denied: Seq<Seq<char>>, i: int, k: int)
    requires
        denied_in(t, denied, i) is None,
        0 <= i <= k < denied.len(),
    ensures
        !text::has(t, denied[k]),
    decreases k - i,
{
    if i < k {
        lemma_allowed_from(t, denied, i + 1, k);
    }
}

/// The first denied command that a text among the arguments from index `i` on holds.
pub open spec fn denied_argument(
    entries: Seq<(Seq<char>, JsonView)>,
    denied: Seq<Seq<char>>,
    i: int,
) -> Option<Seq<char>>
    decreases entries.len() - i,
{
    if i < 0 || i >= entries.len() {
        None
    } else {
        match entries[i].1 {
            JsonView::Str(s) => match denied_in(s, denied, 0) {
                Some(d) => Some(d),
                None => denied_argument(entries, denied, i + 1),
            },
            _ => denied_argument(entries, denied, i + 1),
        }
    }
}

/// The arguments of an action, in ascending order of their names; none where there is no object.
pub open spec fn arguments_of(args: JsonView) -> Seq<(Seq<char>, JsonView)> {
    match json::object_member(args, "args"@) {
        Some(m) => json::listing(m),
        None => seq![],
    }
}

/// What a call of the tool asks for.
pub struct ActionRequest {
    pub action_name: String,
    pub pod_name: String,
    pub script_path: String,
}

/// Why a call of the tool is refused: the first of the reasons that holds.
pub open spec fn action_refusal(
    args: JsonView,
    skill: LoadedSkill,
    denied: Seq<Seq<char>>,
) -> Option<Seq<char>> {
    match (json::str_member(args, "name"@), json::str_member(args, "pod_name"@)) {
        (None, _) => Some("missing action name"@),
        (Some(_), None) => Some("missing pod_name"@),
        (Some(name), Some(_)) => match action_named(skill.config.actions@, name, 0) {
            None => Some(
                "action '"@ + name + "' not found in skill '"@ + skill.config.name@ + "'"@,
            ),
            Some(_) => match denied_argument(arguments_of(args), denied, 0) {
                Some(d) => Some("guardrail: argument contains denied command '"@ + d + "'"@),
                None => None,
            },
        },
    }
}

/// The lines that set the first `n` arguments for a script. Arguments that are no plain values
/// have none.
pub open spec fn exports_to(entries: Seq<(Seq<char>, JsonView)>, n: int) -> Seq<Seq<char>>
    decreases n,
{
    if n <= 0 {
        seq![]
    } else {
        match json::plain_text(entries[n - 1].1) {
            Some(v) => exports_to(entries, n - 1).push(
                "export "@ + text::uppercased(entries[n - 1].0) + "="@ + shell_word(v),
            ),
            None => exports_to(entries, n - 1),
        }
    }
}

/// The script that runs in the pod: the arguments are set, then the action's script follows.
pub open spec fn full_script(args: JsonView, script: Seq<char>) -> Seq<char> {
    let entries = arguments_of(args);
    text::joined(exports_to(entries, entries.len() as int).push(script), "\n"@)
}

/// A script that ran, as a document.
pub open spec fn script_report(
    exit_code: i32,
    stdout: Seq<char>,
    stderr: Seq<char>,
) -> Map<Seq<char>, JsonView> {
    map![
        "exit_code"@ => JsonView::Number(runner::number_of_i32(exit_code)),
        "stdout"@ => JsonView::Str(text::trimmed(stdout)),
        "stderr"@ => JsonView::Str(text::trimmed(stderr)),
    ]
}

/// Makes the document of a script that ran.
pub fn make_script_report(exit_code: i32, stdout: &str, stderr: &str) -> (r: JsonObject)
    ensures
        r@ == script_report(exit_code, stdout@, stderr@),
{
    let mut o = JsonObject::new();
    o.put("exit_code", runner::exit_number(exit_code));
    o.put("stdout", Json::Str(text::trim(stdout)));
    o.put("stderr", Json::Str(text::trim(stderr)));
    o
}

/// The report of something that failed outside.
pub fn outside_error(prefix: &str, error: &str) -> (r: ToolResult)
    ensures
        r@ == (ResultView { success: false, output: prefix@ + error@ }),
{
    let mut out = prefix.to_string();
    out.append(error);
    ToolResult::failure(out)
}

/// The report of a file that could not be read.
pub fn unreadable(what: &str, path: &str, error: &str) -> (r: ToolResult)
    ensures
        r@ == (ResultView {
            success: false,
            output: "failed to read "@ + what@ + " '"@ + path@ + "': "@ + error@,
        }),
{
    let mut out = "failed to read ".to_string();
    out.append(what);
    out.append(" '");
    out.append(path);
    out.append("': ");
    out.append(error);
    ToolResult::failure(out)
}

impl RunAction {
    /// A tool for the actions of a skill.
    pub fn new(
        skill: Arc<LoadedSkill>,
        namespace: &str,
        resource_name: &str,
        denied_commands: Vec<String>,
    ) -> (r: RunAction)
        ensures
            r.skill == skill,
            r.namespace@ == namespace@,
            r.resource_name@ == resource_name@,
            r.denied_commands == denied_commands,
    {
        RunAction {
            skill,
            namespace: namespace.to_string(),
            resource_name: resource_name.to_string(),
            denied_commands,
        }
    }

    /// Checks a call, and says which script is to run in which pod.
    pub fn plan(&self, args: &Json) -> (r: Result<ActionRequest, ToolResult>)
        ensures
            match r {
                Ok(request) => {
                    let actions = self.skill.config.actions@;
                    let at = action_named(actions, request.action_name@, 0);
                    &&& action_refusal(
                        args@,
                        *self.skill,
                        text::views(self.denied_commands@),
                    ) is None
                    &&& json::str_member(args@, "name"@) == Some(request.action_name@)
                    &&& json::str_member(args@, "pod_name"@) == Some(request.pod_name@)
                    &&& at is Some
                    &&& request.script_path@ == path::below(
                        self.skill.skill_dir@,
                        actions[at->0].script@,
                    )
                },
                Err(e) => !e.success && action_refusal(
                    args@,
                    *self.skill,
                    text::views(self.denied_commands@),
                ) == Some(e.output@),
            },
    {
        let action_name = match args.str_at("name") {
            Some(v) => v,
            None => {
                return Err(ToolResult::failure("missing action name".to_string()));
            },
        };
        let pod_name = match args.str_at("pod_name") {
            Some(v) => v,
            None => {
                return Err(ToolResult::failure("missing pod_name".to_string()));
            },
        };
        let actions = &self.skill.config.actions;
        let at: usize = match find_action(actions, action_name) {
            Some(i) => i,
            None => {
                let mut out = "action '".to_string();
                out.append(action_name);
                out.append("' not found in skill '");
                out.append(self.skill.config.name.as_str());
                out.append("'");
                return Err(ToolResult::failure(out));
            },
        };
        if let Some(denied) = find_denied_argument(args, &self.denied_commands) {
            let mut out = "guardrail: argument contains denied command '".to_string();
            out.append(denied.as_str());
            out.append("'");
            return Err(ToolResult::failure(out));
        }
        Ok(
            ActionRequest {
                action_name: action_name.to_string(),
                pod_name: pod_name.to_string(),
                script_path: path::join(
                    self.skill.skill_dir.as_str(),
                    actions[at].script.as_str(),
                ),
            },
        )
    }

    /// The command that runs a script with the arguments of a call.
    pub fn command(&self, args: &Json, script: &str) -> (r: Vec<String>)
        ensures
            text::views(r@) == seq!["bash"@, "-c"@, full_script(args@, script@)],
    {
        let entries = list_arguments(args);
        let ghost l = arguments_of(args@);
        let mut lines: Vec<String> = Vec::new();
        let mut i: usize = 0;
        while i < entries.len()
            invariant
                i <= entries@.len(),
                l == json::pairs_view(entries@),
                text::views(lines@) =~= exports_to(l, i as int),
            decreases entries@.len() - i,
        {
            assert(l[i as int] == (entries@[i as int].0@, entries@[i as int].1@));
            let ghost before = lines@;
            if let Some(value) = entries[i].1.to_plain_text() {
                let mut line = "export ".to_string();
                line.append(text::to_uppercase(entries[i].0.as_str()).as_str());
                line.append("=");
                line.append(shell_escape(value.as_str()).as_str());
                let ghost shown = line@;
                lines.push(line);
                assert(text::views(lines@) =~= text::views(before).push(shown));
            }
            i = i + 1;
        }
        let ghost before = lines@;
        lines.push(script.to_string());
        assert(text::views(lines@) =~= text::views(before).push(script@));
        assert(l.len() == entries@.len());
        let mut out: Vec<String> = Vec::new();
        out.push("bash".to_string());
        out.push("-c".to_string());
        out.push(text::join(&lines, "\n"));
        assert(text::views(out@) =~= seq!["bash"@, "-c"@, full_script(args@, script@)]);
        out
    }

    /// Reports a script that ran.
    pub fn report(exit_code: i32, stdout: &str, stderr: &str, duration_ms: u64) -> (r: ToolResult)
        ensures
            r.success == (exit_code == 0),
            r.output@ == json::json_written(
                JsonView::Object(
                    script_report(exit_code, stdout@, stderr@).insert(
                        "duration_ms"@,
                        JsonView::Number(NumberView::Unsigned(duration_ms)),
                    ),
                ),
            ),
    {
        let mut o = make_script_report(exit_code, stdout, stderr);
        o.put("duration_ms", Json::unsigned(duration_ms));
        ToolResult { success: exit_code == 0, output: Json::object(o).to_text() }
    }
}

fn find_action(actions: &Vec<ActionDef>, name: &str) -> (r: Option<usize>)
    ensures
        match r {
            Some(i) => i < actions@.len() && action_named(actions@, name@, 0) == Some(i as int),
            None => action_named(actions@, name@, 0) is None,
        },
{
    let mut i: usize = 0;
    while i < actions.len()
        invariant
            i <= actions@.len(),
            action_named(actions@, name@, 0) == action_named(actions@, name@, i as int),
        decreases actions@.len() - i,
    {
        if text::same(actions[i].name.as_str(), name) {
            return Some(i);
        }
        i = i + 1;
    }
    None
}

fn list_arguments(args: &Json) -> (r: Vec<(String, Json)>)
    ensures
        json::pairs_view(r@) == arguments_of(args@),
{
    match args.object_at("args") {
        Some(object) => object.entries(),
        None => {
            let none: Vec<(String, Json)> = Vec::new();
            assert(json::pairs_view(none@) =~= seq![]);
            none
        },
    }
}

fn find_denied_argument(args: &Json, denied: &Vec<String>) -> (r: Option<String>)
    ensures
        text::opt(r) == denied_argument(arguments_of(args@), text::views(denied@), 0),
{
    let entries = list_arguments(args);
    let ghost l = arguments_of(args@);
    let ghost names = text::views(denied@);
    let mut i: usize = 0;
    while i < entries.len()
        invariant
            i <= entries@.len(),
            l == json::pairs_view(entries@),
            l == arguments_of(args@),
            names == text::views(denied@),
            denied_argument(l, names, 0) == denied_argument(l, names, i as int),
        decreases entries@.len() - i,
    {
        assert(l[i as int] == (entries@[i as int].0@, entries@[i as int].1@));
        if let Some(s) = entries[i].1.as_str() {
            if let Some(d) = find_denied(s, denied) {
                return Some(d);
            }
        }
        i = i + 1;
    }
    assert(l.len() == entries@.len());
    None
}

// ---------------------------------------------------------------------------
// Applying a template
// ---------------------------------------------------------------------------
/// Renders a template of a skill and applies it to the cluster.
pub struct ApplyTemplate {
    pub skill: Arc<LoadedSkill>,
    pub namespace: String,
    pub resource_name: String,
    pub image: String,
}

impl Tool for ApplyTemplate {
    open spec fn tool_name(&self) -> Seq<char> {
        "apply_template"@
    }

    open spec fn tool_description(&self) -> Seq<char> {
        "Render and apply a skill template to Kubernetes."@
    }

    open spec fn tool_schema(&self) -> JsonView {
        schema::arguments(
            map![
                "template"@ => schema::prop("string"@, "Template filename (without path) in the skill's templates/ directory"@),
                "vars"@ => schema::prop("object"@, "Additional template variables (name, namespace, image are auto-injected)"@),
            ],
            Some(seq!["template"@]),
        )
    }

    open spec fn tool_safety(&self) -> ToolSafety {
        ToolSafety::Validated
    }

    fn name(&self) -> &str {
        "apply_template"
    }

    fn description(&self) -> &str {
        "Render and apply a skill template to Kubernetes."
    }

    fn parameters_schema(&self) -> Json {
        let mut props = JsonObject::new();
        props.put("template", schema::make_prop("string", "Template filename (without path) in the skill's templates/ directory"));
        props.put("vars", schema::make_prop("object", "Additional template variables (name, namespace, image are auto-injected)"));
        let required: Vec<&str> = vec!["template"];
        assert(required@.map_values(|p: &str| p@) =~= seq!["template"@]);
        schema::make_arguments(props, required)
    }

    fn safety(&self) -> ToolSafety {
        ToolSafety::Validated
    }
}

/// The variables after the first `n` of the caller's: plain values are taken as text.
pub open spec fn vars_to(
    base: Map<Seq<char>, Seq<char>>,
    entries: Seq<(Seq<char>, JsonView)>,
    n: int,
) -> Map<Seq<char>, Seq<char>>
    decreases n,
{
    if n <= 0 {
        base
    } else {
        match json::plain_text(entries[n - 1].1) {
            Some(v) => vars_to(base, entries, n - 1).insert(entries[n - 1].0, v),
            None => vars_to(base, entries, n - 1),
        }
    }
}

/// The variables of the caller, in ascending order of their names; none where there is no object.
pub open spec fn caller_vars(args: JsonView) -> Seq<(Seq<char>, JsonView)> {
    match json::object_member(args, "vars"@) {
        Some(m) => json::listing(m),
        None => seq![],
    }
}

impl ApplyTemplate {
    /// A tool for the templates of a skill.
    pub fn new(skill: Arc<LoadedSkill>, namespace: &str, resource_name: &str, image: &str) -> (r:
        ApplyTemplate)
        ensures
            r.skill == skill,
            r.namespace@ == namespace@,
            r.resource_name@ == resource_name@,
            r.image@ == image@,
    {
        ApplyTemplate {
            skill,
            namespace: namespace.to_string(),
            resource_name: resource_name.to_string(),
            image: image.to_string(),
        }
    }

    /// The variables of a template: name, namespace and image of the resource, and those of the
    /// caller, which come before them.
    pub open spec fn template_vars(&self, args: JsonView) -> Map<Seq<char>, Seq<char>> {
        let base = map![
            "name"@ => self.resource_name@,
            "namespace"@ => self.namespace@,
            "image"@ => self.image@,
        ];
        let entries = caller_vars(args);
        vars_to(base, entries, entries.len() as int)
    }

    /// Checks a call, and says where its template stands.
    pub fn template_path(&self, args: &Json) -> (r: Result<String, ToolResult>)
        ensures
            match (r, json::str_member(args@, "template"@)) {
                (Ok(p), Some(name)) => p@ == path::below(
                    path::below(self.skill.skill_dir@, "templates"@),
                    name,
                ),
                (Err(e), None) => e@ == (ResultView {
                    success: false,
                    output: "missing template name"@,
                }),
                _ => false,
            },
    {
        match args.str_at("template") {
            Some(name) => Ok(
                path::join(path::join(self.skill.skill_dir.as_str(), "templates").as_str(), name),
            ),
            None => Err(ToolResult::failure("missing template name".to_string())),
        }
    }

    /// Collects the variables of a template.
    pub fn vars(&self, args: &Json) -> (r: Table<String>)
        ensures
            table::texts(r@) == self.template_vars(args@),
    {
        let mut vars: Table<String> = Table::new();
        vars.insert("name", self.resource_name.clone());
        vars.insert("namespace", self.namespace.clone());
        vars.insert("image", self.image.clone());
        let ghost base = map![
            "name"@ => self.resource_name@,
            "namespace"@ => self.namespace@,
            "image"@ => self.image@,
        ];
        let entries = match args.object_at("vars") {
            Some(object) => object.entries(),
            None => {
                let none: Vec<(String, Json)> = Vec::new();
                assert(json::pairs_view(none@) =~= seq![]);
                none
            },
        };
        let ghost l = caller_vars(args@);
        let mut i: usize = 0;
        assert(table::texts(vars@) =~= base);
        while i < entries.len()
            invariant
                i <= entries@.len(),
                l == json::pairs_view(entries@),
                table::texts(vars@) =~= vars_to(base, l, i as int),
            decreases entries@.len() - i,
        {
            assert(l[i as int] == (entries@[i as int].0@, entries@[i as int].1@));
            let ghost before = vars@;
            if let Some(value) = entries[i].1.to_plain_text() {
                let ghost shown = value@;
                vars.insert(entries[i].0.as_str(), value);
                assert(table::texts(vars@) =~= table::texts(before).insert(l[i as int].0, shown));
            }
            i = i + 1;
        }
        assert(l.len() == entries@.len());
        vars
    }

    /// Renders a template and reads the manifest that it gives.
    pub fn manifest(&self, args: &Json, content: &str) -> (r: Result<Json, ToolResult>)
        ensures
            ({
                let vars = self.template_vars(args@);
                let missing = template::missing_vars(content@, vars);
                let read = json::yaml_read(template::rendered(content@, vars));
                match r {
                    Ok(j) => missing.len() == 0 && read == Ok::<JsonView, Seq<char>>(j@),
                    Err(e) => !e.success && if missing.len() > 0 {
                        e.output@ == "template render error: "@ + (
                        "Missing template variables: "@ + text::quoted_list(missing))
                    } else {
                        read is Err && e.output@ == "YAML parse error: "@ + read->Err_0
                    },
                }
            }),
    {
        let vars = self.vars(args);
        let rendered = match template::render_template(content, &vars) {
            Ok(t) => t,
            Err(e) => {
                return Err(outside_error("template render error: ", e.message().as_str()));
            },
        };
        match Json::parse_yaml(rendered.as_str()) {
            Ok(j) => Ok(j),
            Err(e) => Err(outside_error("YAML parse error: ", e.as_str())),
        }
    }

    /// Reports a manifest that was applied.
    pub fn report(message: &str) -> (r: ToolResult)
        ensures
            r@ == (ResultView {
                success: true,
                output: json::json_written(
                    JsonView::Object(
                        map![
                            "applied"@ => JsonView::Bool(true),
                            "message"@ => JsonView::Str(message@),
                        ],
                    ),
                ),
            }),
    {
        let mut o = JsonObject::new();
        o.put("applied", Json::Bool(true));
        o.put("message", Json::string(message));
        ToolResult::success(Json::object(o).to_text())
    }
}

// ---------------------------------------------------------------------------
// What is run and what is refused
// ---------------------------------------------------------------------------
/// A text that holds a denied command is denied for the first of the commands that it holds.
pub proof fn lemma_denied_is_found(t: Seq<char>, denied: Seq<Seq<char>>, k: int)
    requires
        0 <= k < denied.len(),
        text::has(t, denied[k]),
        forall|j: int| 0 <= j < k ==> !text::has(t, #[trigger] denied[j]),
    ensures
        denied_in(t, denied, 0) == Some(denied[k]),
{
    lemma_denied_from(t, denied, 0, k);
}

proof fn lemma_denied_from(t: Seq<char>, denied: Seq<Seq<char>>, i: int, k: int)
    requires
        0 <= i <= k < denied.len(),
        text::has(t, denied[k]),
        forall|j: int| i <= j < k ==> !text::has(t, #[trigger] denied[j]),
    ensures
        denied_in(t, denied, i) == Some(denied[k]),
    decreases k - i,
{
    if i < k {
        assert(!text::has(t, denied[i]));
        lemma_denied_from(t, denied, i + 1, k);
    }
}

proof fn lemma_any_denied_from(t: Seq<char>, denied: Seq<Seq<char>>, i: int, k: int)
    requires
        0 <= i <= k < denied.len(),
        text::has(t, denied[k]),
    ensures
        denied_in(t, denied, i) is Some,
    decreases k - i,
{
    if i < k && !text::has(t, denied[i]) {
        lemma_any_denied_from(t, denied, i + 1, k);
    }
}

/// A text is denied exactly where it holds one of the denied commands.
pub proof fn lemma_denied_exactly(t: Seq<char>, denied: Seq<Seq<char>>)
    ensures
        denied_in(t, denied, 0) is Some <==> exists|k: int|
            0 <= k < denied.len() && text::has(t, #[trigger] denied[k]),
{
    if denied_in(t, denied, 0) is None {
        assert forall|k: int| 0 <= k < denied.len() implies !text::has(t, #[trigger] denied[k]) by {
            lemma_allowed_holds_none(t, denied, k);
        }
    } else if forall|k: int| 0 <= k < denied.len() ==> !text::has(t, #[trigger] denied[k]) {
        lemma_none_denied(t, denied, 0);
    }
}

proof fn lemma_none_denied(t: Seq<char>, denied: Seq<Seq<char>>, i: int)
    requires
        0 <= i,
        forall|k: int| 0 <= k < denied.len() ==> !text::has(t, #[trigger] denied[k]),
    ensures
        denied_in(t, denied, i) is None,
    decreases denied.len() - i,
{
    if i < denied.len() {
        lemma_none_denied(t, denied, i + 1);
    }
}

/// The action of a name is the first that has the name, and there is none only where no action has
/// it.
pub proof fn lemma_actions_are_found_by_name(actions: Seq<ActionDef>, name: Seq<char>, k: int)
    ensures
        action_named(actions, name, 0) matches Some(i) ==> {
            &&& 0 <= i < actions.len()
            &&& actions[i].name@ == name
            &&& 0 <= k < i ==> actions[k].name@ != name
        },
        action_named(actions, name, 0) is None && 0 <= k < actions.len() ==> actions[k].name@
            != name,
{
    lemma_actions_from(actions, name, 0, k);
}

proof fn lemma_actions_from(actions: Seq<ActionDef>, name: Seq<char>, i: int, k: int)
    requires
        0 <= i,
    ensures
        action_named(actions, name, i) matches Some(j) ==> {
            &&& i <= j < actions.len()
            &&& actions[j].name@ == name
            &&& i <= k < j ==> actions[k].name@ != name
        },
        action_named(actions, name, i) is None && i <= k < actions.len() ==> actions[k].name@
            != name,
    decreases actions.len() - i,
{
    if i < actions.len() && actions[i].name@ != name {
        lemma_actions_from(actions, name, i + 1, k);
    }
}

proof fn lemma_argument_denied_from(
    entries: Seq<(Seq<char>, JsonView)>,
    denied: Seq<Seq<char>>,
    i: int,
    e: int,
    k: int,
)
    requires
        0 <= i <= e < entries.len(),
        0 <= k < denied.len(),
    ensures
        entries[e].1 matches JsonView::Str(s) ==> (text::has(s, denied[k]) ==> denied_argument(
            entries,
            denied,
            i,
        ) is Some),
    decreases e - i,
{
    if i < e {
        lemma_argument_denied_from(entries, denied, i + 1, e, k);
    } else if let JsonView::Str(s) = entries[e].1 {
        if text::has(s, denied[k]) {
            lemma_any_denied_from(s, denied, 0, k);
        }
    }
}

proof fn lemma_no_argument_denied(
    entries: Seq<(Seq<char>, JsonView)>,
    denied: Seq<Seq<char>>,
    i: int,
)
    requires
        0 <= i,
        forall|e: int, k: int|
            0 <= e < entries.len() && 0 <= k < denied.len() ==> ((#[trigger] entries[e]).1 matches
                JsonView::Str(s) ==> !text::has(s, #[trigger] denied[k])),
    ensures
        denied_argument(entries, denied, i) is None,
    decreases entries.len() - i,
{
    if i < entries.len() {
        lemma_no_argument_denied(entries, denied, i + 1);
        if let JsonView::Str(s) = entries[i].1 {
            assert forall|k: int| 0 <= k < denied.len() implies !text::has(s, #[trigger] denied[k]) by {
                assert(entries[i].1 == JsonView::Str(s));
            }
            lemma_none_denied(s, denied, 0);
        }
    }
}

/// An action whose arguments hold a denied command in a text is refused, whichever the argument and
/// whichever the command.
pub proof fn lemma_denied_arguments_are_refused(
    args: JsonView,
    skill: LoadedSkill,
    denied: Seq<Seq<char>>,
    m: Map<Seq<char>, JsonView>,
    l: Seq<(Seq<char>, JsonView)>,
    key: Seq<char>,
    s: Seq<char>,
    k: int,
)
    requires
        json::object_member(args, "args"@) == Some(m),
        json::is_listing(l, m),
        m.dom().contains(key),
        m[key] == JsonView::Str(s),
        0 <= k < denied.len(),
        text::has(s, denied[k]),
    ensures
        action_refusal(args, skill, denied) is Some,
{
    json::lemma_listing_unique(l, m);
    assert(m.contains_key(key));
    let e = choose|e: int| 0 <= e < l.len() && (#[trigger] l[e]).0 == key;
    assert(l[e].1 == m[key]);
    lemma_argument_denied_from(l, denied, 0, e, k);
}

/// An action that the skill has, for a pod that is named, is run where no text among its arguments
/// holds a denied command; without a name or a pod, or under a name that no action has, nothing is
/// run.
pub proof fn lemma_allowed_actions_are_run(
    args: JsonView,
    skill: LoadedSkill,
    denied: Seq<Seq<char>>,
    i: int,
)
    ensures
        json::str_member(args, "name"@) is None || json::str_member(args, "pod_name"@) is None
            ==> action_refusal(args, skill, denied) is Some,
        json::str_member(args, "name"@) matches Some(name) ==> {
            &&& (forall|j: int|
                0 <= j < skill.config.actions@.len() ==> (
                #[trigger] skill.config.actions@[j]).name@ != name) ==> action_refusal(
                args,
                skill,
                denied,
            ) is Some
            &&& json::str_member(args, "pod_name"@) is Some && 0 <= i < skill.config.actions@.len()
                && skill.config.actions@[i].name@ == name && denied.len() == 0 ==> action_refusal(
                args,
                skill,
                denied,
            ) is None
            &&& json::str_member(args, "pod_name"@) is Some && 0 <= i < skill.config.actions@.len()
                && skill.config.actions@[i].name@ == name && (forall|e: int, k: int|
                0 <= e < arguments_of(args).len() && 0 <= k < denied.len() ==> ((
                #[trigger] arguments_of(args)[e]).1 matches JsonView::Str(s) ==> !text::has(
                    s,
                    #[trigger] denied[k],
                ))) ==> action_refusal(args, skill, denied) is None
        },
{
    if let Some(name) = json::str_member(args, "name"@) {
        lemma_actions_are_found_by_name(skill.config.actions@, name, i);
        let entries = arguments_of(args);
        if forall|e: int, k: int|
            0 <= e < entries.len() && 0 <= k < denied.len() ==> ((#[trigger] entries[e]).1 matches
                JsonView::Str(s) ==> !text::has(s, #[trigger] denied[k])) {
            lemma_no_argument_denied(entries, denied, 0);
        }
        if denied.len() == 0 {
            assert forall|e: int, k: int|
                0 <= e < entries.len() && 0 <= k < denied.len() implies ((#[trigger] entries[e]).1 matches
                JsonView::Str(s) ==> !text::has(s, #[trigger] denied[k])) by {}
            lemma_no_argument_denied(entries, denied, 0);
        }
    }
}

/// The arguments of a call are the members of its object, all of them.
pub proof fn lemma_arguments_are_the_members(
    args: JsonView,
    m: Map<Seq<char>, JsonView>,
    l: Seq<(Seq<char>, JsonView)>,
)
    requires
        json::is_listing(l, m),
    ensures
        json::object_member(args, "args"@) == Some(m) ==> arguments_of(args) == l,
        json::object_member(args, "args"@) is None ==> arguments_of(args) == Seq::<
            (Seq<char>, JsonView),
        >::empty(),
        json::object_member(args, "vars"@) == Some(m) ==> caller_vars(args) == l,
        json::object_member(args, "vars"@) is None ==> caller_vars(args) == Seq::<
            (Seq<char>, JsonView),
        >::empty(),
{
    json::lemma_listing_unique(l, m);
}

/// A script runs after its arguments are set: its text ends the whole script, and each argument that
/// is a plain value stands before it, under its name in upper case, as a word from which a shell
/// reads the value.
pub proof fn lemma_scripts_get_their_arguments(
    args: JsonView,
    script: Seq<char>,
    i: int,
    value: Seq<char>,
) -> (r: (Seq<char>, Seq<char>, Seq<char>))
    requires
        0 <= i < arguments_of(args).len(),
        json::plain_text(arguments_of(args)[i].1) == Some(value),
    ensures
        full_script(args, script) == r.0 + ("export "@ + text::uppercased(arguments_of(args)[i].0)
            + "="@ + r.1) + r.2 + "\n"@ + script,
        shell_reads(r.1, 0, false) == Some(value),
{
    let entries = arguments_of(args);
    let n = entries.len() as int;
    let lines = exports_to(entries, n);
    let word = shell_word(value);
    let line = "export "@ + text::uppercased(entries[i].0) + "="@ + word;
    lemma_shell_reads_word(value);
    let k = lemma_argument_has_line(entries, n, i, value);
    text::lemma_joined_by_parts(lines, script, "\n"@);
    let r = text::lemma_joined_holds_every_part(lines, "\n"@, k);
    assert(text::joined(lines, "\n"@) == r.0 + line + r.1);
    assert(full_script(args, script) =~= r.0 + line + r.1 + "\n"@ + script);
    (r.0, word, r.1)
}

proof fn lemma_argument_has_line(
    entries: Seq<(Seq<char>, JsonView)>,
    n: int,
    i: int,
    value: Seq<char>,
) -> (k: int)
    requires
        0 <= i < n <= entries.len(),
        json::plain_text(entries[i].1) == Some(value),
    ensures
        0 <= k < exports_to(entries, n).len(),
        exports_to(entries, n)[k] == "export "@ + text::uppercased(entries[i].0) + "="@
            + shell_word(value),
    decreases n,
{
    if i == n - 1 {
        exports_to(entries, n).len() - 1
    } else {
        lemma_argument_has_line(entries, n - 1, i, value)
    }
}

/// A script without arguments runs as it is.
pub proof fn lemma_script_without_arguments(args: JsonView, script: Seq<char>)
    requires
        arguments_of(args).len() == 0,
    ensures
        full_script(args, script) == script,
{
    assert(exports_to(arguments_of(args), 0).push(script) =~= seq![script]);
    text::lemma_joined_by_parts(seq![], script, "\n"@);
}

/// What is reported of a script is its exit code and what it wrote, without the white space around
/// it.
pub proof fn lemma_script_report_is_complete(exit_code: i32, stdout: Seq<char>, stderr: Seq<char>)
    ensures
        ({
            let r = JsonView::Object(script_report(exit_code, stdout, stderr));
            &&& json::i64_member(r, "exit_code"@) == Some(exit_code as i64)
            &&& json::str_member(r, "stdout"@) == Some(text::trimmed(stdout))
            &&& json::str_member(r, "stderr"@) == Some(text::trimmed(stderr))
        }),
{
    reveal_strlit("exit_code");
    reveal_strlit("stdout");
    reveal_strlit("stderr");
    assert("exit_code"@.len() == 9 && "stdout"@[3] == 'o' && "stderr"@[3] == 'e');
}

proof fn lemma_vars_hold(
    base: Map<Seq<char>, Seq<char>>,
    entries: Seq<(Seq<char>, JsonView)>,
    n: int,
    key: Seq<char>,
    i: int,
)
    requires
        0 <= n <= entries.len(),
        forall|a: int, b: int|
            0 <= a < b < entries.len() ==> (#[trigger] entries[a]).0 != (#[trigger] entries[b]).0,
    ensures
        0 <= i < n && json::plain_text(entries[i].1) is Some ==> {
            &&& vars_to(base, entries, n).dom().contains(entries[i].0)
            &&& vars_to(base, entries, n)[entries[i].0] == json::plain_text(entries[i].1)->0
        },
        (forall|j: int| 0 <= j < n ==> (#[trigger] entries[j]).0 != key) ==> {
            &&& vars_to(base, entries, n).dom().contains(key) == base.dom().contains(key)
            &&& base.dom().contains(key) ==> vars_to(base, entries, n)[key] == base[key]
        },
    decreases n,
{
    if n > 0 {
        lemma_vars_hold(base, entries, n - 1, key, i);
        if 0 <= i < n - 1 {
            assert(entries[i].0 != entries[n - 1].0);
        }
    }
}

/// A template has the variables of the caller, each with its own value, and the resource's name,
/// namespace and image where the caller does not set them.
pub proof fn lemma_templates_have_their_variables(
    tool: ApplyTemplate,
    args: JsonView,
    m: Map<Seq<char>, JsonView>,
    l: Seq<(Seq<char>, JsonView)>,
    key: Seq<char>,
)
    requires
        json::object_member(args, "vars"@) == Some(m),
        json::is_listing(l, m),
    ensures
        ({
            let vars = tool.template_vars(args);
            &&& m.dom().contains(key) && json::plain_text(m[key]) is Some ==> vars.dom().contains(
                key,
            ) && vars[key] == json::plain_text(m[key])->0
            &&& !m.dom().contains("name"@) ==> vars.dom().contains("name"@) && vars["name"@]
                == tool.resource_name@
            &&& !m.dom().contains("namespace"@) ==> vars.dom().contains("namespace"@)
                && vars["namespace"@] == tool.namespace@
            &&& !m.dom().contains("image"@) ==> vars.dom().contains("image"@) && vars["image"@]
                == tool.image@
            &&& !m.dom().contains(key) && key != "name"@ && key != "namespace"@ && key != "image"@
                ==> !vars.dom().contains(key)
        }),
{
    json::lemma_listing_unique(l, m);
    reveal_strlit("name");
    reveal_strlit("namespace");
    reveal_strlit("image");
    assert("name"@.len() == 4 && "namespace"@.len() == 9 && "image"@.len() == 5);
    let base = map![
        "name"@ => tool.resource_name@,
        "namespace"@ => tool.namespace@,
        "image"@ => tool.image@,
    ];
    let n = l.len() as int;
    assert forall|a: int, b: int| 0 <= a < b < l.len() implies (#[trigger] l[a]).0 != (
    #[trigger] l[b]).0 by {
        json::lemma_listing_holds_every_member(l, m, key, a, b);
    }
    assert forall|j: int, k: Seq<char>|
        0 <= j < l.len() && !(#[trigger] m.dom().contains(k)) implies (#[trigger] l[j]).0 != k by {
        json::lemma_listing_holds_every_member(l, m, k, j, j);
    }
    if m.dom().contains(key) {
        assert(m.contains_key(key));
        let e = choose|e: int| 0 <= e < l.len() && (#[trigger] l[e]).0 == key;
        assert(l[e].1 == m[key]);
        lemma_vars_hold(base, l, n, key, e);
    } else {
        lemma_vars_hold(base, l, n, key, -1);
    }
    lemma_vars_hold(base, l, n, "name"@, -1);
    lemma_vars_hold(base, l, n, "namespace"@, -1);
    lemma_vars_hold(base, l, n, "image"@, -1);
}

/// What the model is told of the tool run_action: its arguments, their types, and which it must give.
pub proof fn lemma_arguments_of_run_action(tool: RunAction)
    ensures
        tool.tool_name() == "run_action"@,
        tool.tool_safety() == ToolSafety::Validated,
        json::member_in(tool.tool_schema(), "properties"@, "name"@) matches Some(p)
            && json::str_member(p, "type"@) == Some("string"@),
        json::member_in(tool.tool_schema(), "properties"@, "args"@) matches Some(p)
            && json::str_member(p, "type"@) == Some("object"@),
        json::member_in(tool.tool_schema(), "properties"@, "pod_name"@) matches Some(p)
            && json::str_member(p, "type"@) == Some("string"@),
        json::member(tool.tool_schema(), "required"@) == Some(schema::texts(seq!["name"@, "pod_name"@])),
{
    reveal_strlit("type");
    reveal_strlit("properties");
    reveal_strlit("required");
    reveal_strlit("description");
    reveal_strlit("enum");
    reveal_strlit("items");
    reveal_strlit("name");
    reveal_strlit("args");
    reveal_strlit("pod_name");
    assert("type"@.len() == 4 && "properties"@.len() == 10 && "required"@.len() == 8 && "description"@.len() == 11 && "enum"@.len() == 4 && "items"@.len() == 5 && "name"@.len() == 4 && "args"@.len() == 4 && "pod_name"@.len() == 8);
    assert("args"@[0] == 'a' && "enum"@[0] == 'e' && "name"@[0] == 'n' && "pod_name"@[0] == 'p' && "required"@[0] == 'r' && "type"@[0] == 't');
}

/// What the model is told of the tool apply_template: its arguments, their types, and which it must give.
pub proof fn lemma_arguments_of_apply_template(tool: ApplyTemplate)
    ensures
        tool.tool_name() == "apply_template"@,
        tool.tool_safety() == ToolSafety::Validated,
        json::member_in(tool.tool_schema(), "properties"@, "template"@) matches Some(p)
            && json::str_member(p, "type"@) == Some("string"@),
        json::member_in(tool.tool_schema(), "properties"@, "vars"@) matches Some(p)
            && json::str_member(p, "type"@) == Some("object"@),
        json::member(tool.tool_schema(), "required"@) == Some(schema::texts(seq!["template"@])),
{
    reveal_strlit("type");
    reveal_strlit("properties");
    reveal_strlit("required");
    reveal_strlit("description");
    reveal_strlit("enum");
    reveal_strlit("items");
    reveal_strlit("template");
    reveal_strlit("vars");
    assert("type"@.len() == 4 && "properties"@.len() == 10 && "required"@.len() == 8 && "description"@.len() == 11 && "enum"@.len() == 4 && "items"@.len() == 5 && "template"@.len() == 8 && "vars"@.len() == 4);
    assert("enum"@[0] == 'e' && "required"@[0] == 'r' && "template"@[0] == 't' && "type"@[0] == 't' && "vars"@[0] == 'v');
}

/// The model is told of every action of a skill: its name, its description and its parameters.
pub proof fn lemma_actions_are_told(actions: Seq<ActionDef>, i: int) -> (r: (
    Seq<char>,
    Seq<char>,
))
    requires
        0 <= i < actions.len(),
    ensures
        actions_help(actions) == r.0 + action_help(actions[i]) + r.1,
        action_help(actions[i]) == "- "@ + actions[i].name@ + ": "@ + (match actions[i].description {
            Some(d) => d@,
            None => ""@,
        }) + " (params: "@ + params_help(actions[i].params@) + ")"@,
        actions[i].params@.len() == 0 ==> params_help(actions[i].params@) == "none"@,
        actions[i].params@.len() > 0 ==> params_help(actions[i].params@) == text::joined(
            text::views(actions[i].params@),
            ", "@,
        ),
{
    let lines = actions.map_values(|a: ActionDef| action_help(a));
    let r = text::lemma_joined_holds_every_part(lines, "\n"@, i);
    let head = "Key-value arguments passed as env vars. Available actions:\n"@ + r.0;
    assert(actions_help(actions) =~= head + action_help(actions[i]) + r.1);
    (head, r.1)
}

/// An action that is refused is told what is missing, that it is not known, or what was denied.
pub proof fn lemma_refused_actions_are_told(
    args: JsonView,
    skill: LoadedSkill,
    denied: Seq<Seq<char>>,
)
    ensures
        json::str_member(args, "name"@) is None ==> action_refusal(args, skill, denied) == Some(
            "missing action name"@,
        ),
        json::str_member(args, "name"@) is Some && json::str_member(args, "pod_name"@) is None
            ==> action_refusal(args, skill, denied) == Some("missing pod_name"@),
        json::str_member(args, "pod_name"@) is Some ==> (json::str_member(args, "name"@) matches Some(
            name,
        ) ==> {
            &&& (forall|j: int|
                0 <= j < skill.config.actions@.len() ==> (
                #[trigger] skill.config.actions@[j]).name@ != name) ==> action_refusal(
                args,
                skill,
                denied,
            ) == Some("action '"@ + name + "' not found in skill '"@ + skill.config.name@ + "'"@)
            &&& action_named(skill.config.actions@, name, 0) is Some ==> (denied_argument(
                arguments_of(args),
                denied,
                0,
            ) matches Some(d) ==> action_refusal(args, skill, denied) == Some(
                "guardrail: argument contains denied command '"@ + d + "'"@,
            ))
        }),
{
    if let Some(name) = json::str_member(args, "name"@) {
        if forall|j: int|
            0 <= j < skill.config.actions@.len() ==> (#[trigger] skill.config.actions@[j]).name@
                != name {
            let at = action_named(skill.config.actions@, name, 0);
            if let Some(i) = at {
                lemma_actions_are_found_by_name(skill.config.actions@, name, i);
            }
        }
    }
}

} // verus!
