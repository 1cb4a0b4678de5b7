//! The files of a skill.
use vstd::prelude::*;
use crate::path;
use crate::skill::types::{ActionDef, AgentDef, MonitorDef, SkillConfig};
use crate::text;

verus! {

/// What is wrong with the front matter of a skill file.
#[derive(Debug, Clone, Copy, PartialEq, Eq, Structural)]
pub enum FrontmatterError {
    /// The file does not begin with a line that is `---` alone.
    Missing,
    /// There is no closing line that is `---` alone.
    Unclosed,
}

impl FrontmatterError {
    /// The error in words.
    pub fn message(&self) -> (r: &'static str)
        ensures
            r@ == (match self {
                FrontmatterError::Missing =>
                    "SKILL.md missing YAML frontmatter (expected leading '---')"@,
                FrontmatterError::Unclosed => "SKILL.md frontmatter is not closed with '---'"@,
            }),
    {
        match self {
            FrontmatterError::Missing =>
                "SKILL.md missing YAML frontmatter (expected leading '---')",
            FrontmatterError::Unclosed => "SKILL.md frontmatter is not closed with '---'",
        }
    }
}

/// Whether a character is a blank or a tab.
pub open spec fn is_blank(c: char) -> bool {
    c == ' ' || c == '\t'
}

/// Whether a line holds nothing more from index `i` on: after blanks comes a line end or the end of
/// the text.
pub open spec fn line_ends(s: Seq<char>, i: int) -> bool
    decreases s.len() - i,
{
    if 0 <= i < s.len() && is_blank(s[i]) {
        line_ends(s, i + 1)
    } else {
        i >= s.len() || s[i] == '\n' || (s[i] == '\r' && i + 1 < s.len() && s[i + 1] == '\n')
    }
}

/// Where, from index `i` on, a line end stands before the first line that is `---` alone.
pub open spec fn closing_from(s: Seq<char>, i: int) -> Option<int>
    decreases s.len() - i,
{
    if i < 0 || i >= s.len() {
        None
    } else if text::occurs_at(s, "\n---"@, i) && line_ends(s, i + 4) {
        Some(i)
    } else {
        closing_from(s, i + 1)
    }
}

/// The front matter and the body of a skill file.
pub open spec fn divided(content: Seq<char>) -> Result<(Seq<char>, Seq<char>), FrontmatterError> {
    let c = text::trimmed_start(content);
    let rest = c.skip(3);
    if !text::begins(c, "---"@) || !line_ends(rest, 0) {
        Err(FrontmatterError::Missing)
    } else {
        match closing_from(rest, 0) {
            Some(i) => Ok(
                (
                    text::trimmed_start_of(rest.take(i), '\n'),
                    text::trimmed_start_of(rest.skip(i + 4), '\n'),
                ),
            ),
            None => Err(FrontmatterError::Unclosed),
        }
    }
}

fn is_line_end(cs: &Vec<char>, i: usize) -> (r: bool)
    requires
        i <= cs@.len(),
    ensures
        r == line_ends(cs@, i as int),
{
    let n: usize = cs.len();
    let mut j: usize = i;
    while j < n && (cs[j] == ' ' || cs[j] == '\t')
        invariant
            n == cs@.len(),
            i <= j <= n,
            line_ends(cs@, i as int) == line_ends(cs@, j as int),
        decreases n - j,
    {
        j = j + 1;
    }
    j == n || cs[j] == '\n' || (cs[j] == '\r' && n - j > 1 && cs[j + 1] == '\n')
}

fn find_closing(cs: &Vec<char>) -> (r: Option<usize>)
    ensures
        match r {
            Some(i) => closing_from(cs@, 0) == Some(i as int) && i + 4 <= cs@.len(),
            None => closing_from(cs@, 0) is None,
        },
{
    proof {
        reveal_strlit("\n---");
    }
    let fence = text::chars_of("\n---");
    let n: usize = cs.len();
    let mut i: usize = 0;
    while i < n
        invariant
            n == cs@.len(),
            i <= n,
            fence@ == "\n---"@,
            fence@.len() == 4,
            closing_from(cs@, 0) == closing_from(cs@, i as int),
        decreases n - i,
    {
        if text::at(cs, &fence, i) && is_line_end(cs, i + 4) {
            return Some(i);
        }
        i = i + 1;
    }
    None
}

/// Splits a skill file into its YAML front matter and its body. The front matter stands at the
/// start, between a line that is `---` alone and the next such line.
pub fn split_skill_md(content: &str) -> (r: Result<(String, String), FrontmatterError>)
    ensures
        match r {
            Ok(p) => divided(content@) == Ok::<(Seq<char>, Seq<char>), FrontmatterError>(
                (p.0@, p.1@),
            ),
            Err(e) => divided(content@) == Err::<(Seq<char>, Seq<char>), FrontmatterError>(e),
        },
{
    proof {
        reveal_strlit("---");
    }
    let c = text::trim_start(content);
    let rest = match text::strip_prefix(c.as_str(), "---") {
        Some(rest) => rest,
        None => {
            return Err(FrontmatterError::Missing);
        },
    };
    let cs = text::chars_of(rest.as_str());
    if !is_line_end(&cs, 0) {
        return Err(FrontmatterError::Missing);
    }
    match find_closing(&cs) {
        Some(i) => {
            let front = text::slice_of(&cs, 0, i);
            let body = text::slice_of(&cs, i + 4, cs.len());
            assert(front@ =~= rest@.take(i as int));
            assert(body@ =~= rest@.skip(i + 4));
            Ok(
                (
                    text::trim_start_of(front.as_str(), '\n'),
                    text::trim_start_of(body.as_str(), '\n'),
                ),
            )
        },
        None => Err(FrontmatterError::Unclosed),
    }
}

/// A file that a skill refers to and that is not there.
#[derive(Debug)]
pub enum MissingFile {
    Monitor { name: String, path: String },
    Action { name: String, path: String },
    Agent { name: String, path: String },
}

/// The view of a [`MissingFile`].
pub enum MissingView {
    Monitor { name: Seq<char>, path: Seq<char> },
    Action { name: Seq<char>, path: Seq<char> },
    Agent { name: Seq<char>, path: Seq<char> },
}

impl View for MissingFile {
    type V = MissingView;

    open spec fn view(&self) -> MissingView {
        match self {
            MissingFile::Monitor { name, path } => MissingView::Monitor {
                name: name@,
                path: path@,
            },
            MissingFile::Action { name, path } => MissingView::Action { name: name@, path: path@ },
            MissingFile::Agent { name, path } => MissingView::Agent { name: name@, path: path@ },
        }
    }
}

/// What is said of a file that is not there: whose it is, and where it should be.
pub open spec fn missing_message(m: MissingView) -> Seq<char> {
    match m {
        MissingView::Monitor { name, path } => "Monitor '"@ + name
            + "' references missing script: "@ + text::quoted(path),
        MissingView::Action { name, path } => "Action '"@ + name + "' references missing script: "@
            + text::quoted(path),
        MissingView::Agent { name, path } => "Agent '"@ + name
            + "' references missing prompt file: "@ + text::quoted(path),
    }
}

impl MissingFile {
    /// The error in words.
    pub fn message(&self) -> (r: String)
        ensures
            r@ == missing_message(self@),
    {
        match self {
            MissingFile::Monitor { name, path } => {
                let mut out = "Monitor '".to_string();
                out.append(name.as_str());
                out.append("' references missing script: ");
                out.append(text::quote(path.as_str()).as_str());
                out
            },
            MissingFile::Action { name, path } => {
                let mut out = "Action '".to_string();
                out.append(name.as_str());
                out.append("' references missing script: ");
                out.append(text::quote(path.as_str()).as_str());
                out
            },
            MissingFile::Agent { name, path } => {
                let mut out = "Agent '".to_string();
                out.append(name.as_str());
                out.append("' references missing prompt file: ");
                out.append(text::quote(path.as_str()).as_str());
                out
            },
        }
    }
}

/// The place of a script of a skill.
pub open spec fn script_path(skill_dir: Seq<char>, script: Seq<char>) -> Seq<char> {
    path::below(path::below(skill_dir, "scripts"@), script)
}

/// The place of a prompt of a skill.
pub open spec fn prompt_path(skill_dir: Seq<char>, file: Seq<char>) -> Seq<char> {
    path::below(path::below(skill_dir, "prompts"@), file)
}

/// The place of a script of a skill.
pub fn script_path_of(skill_dir: &str, script: &str) -> (r: String)
    ensures
        r@ == script_path(skill_dir@, script@),
{
    path::join(path::join(skill_dir, "scripts").as_str(), script)
}

/// The place of a prompt of a skill.
pub fn prompt_path_of(skill_dir: &str, file: &str) -> (r: String)
    ensures
        r@ == prompt_path(skill_dir@, file@),
{
    path::join(path::join(skill_dir, "prompts").as_str(), file)
}

/// The first monitor from index `i` on whose script is not there.
pub open spec fn missing_monitor(
    dir: Seq<char>,
    monitors: Seq<MonitorDef>,
    existing: Seq<Seq<char>>,
    i: int,
) -> Option<MissingView>
    decreases monitors.len() - i,
{
    if i < 0 || i >= monitors.len() {
        None
    } else if !existing.contains(script_path(dir, monitors[i].script@)) {
        Some(
            MissingView::Monitor {
                name: monitors[i].name@,
                path: script_path(dir, monitors[i].script@),
            },
        )
    } else {
        missing_monitor(dir, monitors, existing, i + 1)
    }
}

/// The first action from index `i` on whose script is not there.
pub open spec fn missing_action(
    dir: Seq<char>,
    actions: Seq<ActionDef>,
    existing: Seq<Seq<char>>,
    i: int,
) -> Option<MissingView>
    decreases actions.len() - i,
{
    if i < 0 || i >= actions.len() {
        None
    } else if !existing.contains(script_path(dir, actions[i].script@)) {
        Some(
            MissingView::Action {
                name: actions[i].name@,
                path: script_path(dir, actions[i].script@),
            },
        )
    } else {
        missing_action(dir, actions, existing, i + 1)
    }
}

/// The first agent from index `i` on whose prompt is not there.
pub open spec fn missing_agent(
    dir: Seq<char>,
    agents: Seq<(String, AgentDef)>,
    existing: Seq<Seq<char>>,
    i: int,
) -> Option<MissingView>
    decreases agents.len() - i,
{
    if i < 0 || i >= agents.len() {
        None
    } else if !existing.contains(prompt_path(dir, agents[i].1.system_prompt_file@)) {
        Some(
            MissingView::Agent {
                name: agents[i].0@,
                path: prompt_path(dir, agents[i].1.system_prompt_file@),
            },
        )
    } else {
        missing_agent(dir, agents, existing, i + 1)
    }
}

/// The first file that a skill refers to and that is not there: scripts of monitors, then scripts
/// of actions, then prompts of agents.
pub open spec fn missing_file(
    dir: Seq<char>,
    config: SkillConfig,
    existing: Seq<Seq<char>>,
) -> Option<MissingView> {
    match missing_monitor(dir, config.monitors@, existing, 0) {
        Some(m) => Some(m),
        None => match missing_action(dir, config.actions@, existing, 0) {
            Some(m) => Some(m),
            None => missing_agent(dir, config.agents.rows@, existing, 0),
        },
    }
}

fn is_listed(existing: &Vec<String>, path: &str) -> (r: bool)
    ensures
        r == text::views(existing@).contains(path@),
{
    let mut i: usize = 0;
    while i < existing.len()
        invariant
            i <= existing@.len(),
            forall|k: int| 0 <= k < i ==> text::views(existing@)[k] != path@,
        decreases existing@.len() - i,
    {
        if text::same(existing[i].as_str(), path) {
            assert(text::views(existing@)[i as int] == path@);
            return true;
        }
        i = i + 1;
    }
    false
}

/// Checks that every file that a skill refers to is among the existing ones.
pub fn validate_skill_files(skill_dir: &str, config: &SkillConfig, existing: &Vec<String>) -> (r:
    Result<(), MissingFile>)
    ensures
        match r {
            Ok(_) => missing_file(skill_dir@, *config, text::views(existing@)) is None,
            Err(e) => missing_file(skill_dir@, *config, text::views(existing@)) == Some(e@),
        },
{
    let ghost there = text::views(existing@);
    let mut i: usize = 0;
    while i < config.monitors.len()
        invariant
            i <= config.monitors@.len(),
            there == text::views(existing@),
            missing_monitor(skill_dir@, config.monitors@, there, 0) == missing_monitor(
                skill_dir@,
                config.monitors@,
                there,
                i as int,
            ),
        decreases config.monitors@.len() - i,
    {
        let path = script_path_of(skill_dir, config.monitors[i].script.as_str());
        if !is_listed(existing, path.as_str()) {
            return Err(MissingFile::Monitor { name: config.monitors[i].name.clone(), path });
        }
        i = i + 1;
    }
    let mut j: usize = 0;
    while j < config.actions.len()
        invariant
            j <= config.actions@.len(),
            there == text::views(existing@),
            missing_monitor(skill_dir@, config.monitors@, there, 0) is None,
            missing_action(skill_dir@, config.actions@, there, 0) == missing_action(
                skill_dir@,
                config.actions@,
                there,
                j as int,
            ),
        decreases config.actions@.len() - j,
    {
        let path = script_path_of(skill_dir, config.actions[j].script.as_str());
        if !is_listed(existing, path.as_str()) {
            return Err(MissingFile::Action { name: config.actions[j].name.clone(), path });
        }
        j = j + 1;
    }
    let mut k: usize = 0;
    while k < config.agents.rows.len()
        invariant
            k <= config.agents.rows@.len(),
            there == text::views(existing@),
            missing_monitor(skill_dir@, config.monitors@, there, 0) is None,
            missing_action(skill_dir@, config.actions@, there, 0) is None,
            missing_agent(skill_dir@, config.agents.rows@, there, 0) == missing_agent(
                skill_dir@,
                config.agents.rows@,
                there,
                k as int,
            ),
        decreases config.agents.rows@.len() - k,
    {
        let row = &config.agents.rows[k];
        let path = prompt_path_of(skill_dir, row.1.system_prompt_file.as_str());
        if !is_listed(existing, path.as_str()) {
            return Err(MissingFile::Agent { name: row.0.clone(), path });
        }
        k = k + 1;
    }
    Ok(())
}

/// A skill passes exactly when all its scripts and prompts are there.
pub proof fn lemma_valid_means_complete(
    dir: Seq<char>,
    config: SkillConfig,
    existing: Seq<Seq<char>>,
)
    ensures
        missing_file(dir, config, existing) is None <==> {
            &&& forall|i: int|
                0 <= i < config.monitors@.len() ==> existing.contains(
                    script_path(dir, (#[trigger] config.monitors@[i]).script@),
                )
            &&& forall|i: int|
                0 <= i < config.actions@.len() ==> existing.contains(
                    script_path(dir, (#[trigger] config.actions@[i]).script@),
                )
            &&& forall|i: int|
                0 <= i < config.agents.rows@.len() ==> existing.contains(
                    prompt_path(dir, (#[trigger] config.agents.rows@[i]).1.system_prompt_file@),
                )
        },
{
    lemma_monitors_complete(dir, config.monitors@, existing, 0);
    lemma_actions_complete(dir, config.actions@, existing, 0);
    lemma_agents_complete(dir, config.agents.rows@, existing, 0);
}

proof fn lemma_monitors_complete(
    dir: Seq<char>,
    monitors: Seq<MonitorDef>,
    existing: Seq<Seq<char>>,
    n: int,
)
    requires
        0 <= n <= monitors.len(),
    ensures
        missing_monitor(dir, monitors, existing, n) is None <==> forall|i: int|
            n <= i < monitors.len() ==> existing.contains(
                script_path(dir, (#[trigger] monitors[i]).script@),
            ),
    decreases monitors.len() - n,
{
    if n < monitors.len() {
        lemma_monitors_complete(dir, monitors, existing, n + 1);
        assert(monitors[n] == monitors[n]);
    }
}

proof fn lemma_actions_complete(
    dir: Seq<char>,
    actions: Seq<ActionDef>,
    existing: Seq<Seq<char>>,
    n: int,
)
    requires
        0 <= n <= actions.len(),
    ensures
        missing_action(dir, actions, existing, n) is None <==> forall|i: int|
            n <= i < actions.len() ==> existing.contains(
                script_path(dir, (#[trigger] actions[i]).script@),
            ),
    decreases actions.len() - n,
{
    if n < actions.len() {
        lemma_actions_complete(dir, actions, existing, n + 1);
        assert(actions[n] == actions[n]);
    }
}

proof fn lemma_agents_complete(
    dir: Seq<char>,
    agents: Seq<(String, AgentDef)>,
    existing: Seq<Seq<char>>,
    n: int,
)
    requires
        0 <= n <= agents.len(),
    ensures
        missing_agent(dir, agents, existing, n) is None <==> forall|i: int|
            n <= i < agents.len() ==> existing.contains(
                prompt_path(dir, (#[trigger] agents[i]).1.system_prompt_file@),
            ),
    decreases agents.len() - n,
{
    if n < agents.len() {
        lemma_agents_complete(dir, agents, existing, n + 1);
        assert(agents[n] == agents[n]);
    }
}

proof fn lemma_closing_at(s: Seq<char>, i: int, n: int)
    requires
        0 <= i <= n < s.len(),
        text::occurs_at(s, "\n---"@, n),
        line_ends(s, n + 4),
        forall|k: int| i <= k < n ==> !text::occurs_at(s, "\n---"@, k),
    ensures
        closing_from(s, i) == Some(n),
    decreases n - i,
{
    if i < n {
        lemma_closing_at(s, i + 1, n);
    }
}

proof fn lemma_not_closed(s: Seq<char>, i: int)
    requires
        0 <= i,
        forall|k: int| i <= k ==> !text::occurs_at(s, "\n---"@, k),
    ensures
        closing_from(s, i) is None,
    decreases s.len() - i,
{
    if i < s.len() {
        lemma_not_closed(s, i + 1);
    }
}

proof fn lemma_one_feed_is_dropped(s: Seq<char>)
    requires
        s.len() == 0 || s[0] != '\n',
    ensures
        text::trimmed_start_of(seq!['\n'] + s, '\n') == s,
{
    let t = seq!['\n'] + s;
    assert(t[0] == '\n');
    if s.len() > 0 {
        assert(t[1] == s[0]);
    }
    assert(text::char_run(t, '\n', 1) == 1);
    assert(t.skip(1) =~= s);
}

/// A file that begins with front matter between two lines `---` is divided at them: what stands
/// between is the front matter, and what follows is the body.
pub proof fn lemma_front_matter_and_body_are_kept(front: Seq<char>, body: Seq<char>)
    requires
        front.len() == 0 || front[0] != '\n',
        body.len() == 0 || body[0] != '\n',
        !text::has(seq!['\n'] + front, "\n---"@),
    ensures
        divided("---"@ + (seq!['\n'] + front + "\n---"@ + seq!['\n'] + body)) == Ok::<
            (Seq<char>, Seq<char>),
            FrontmatterError,
        >((front, body)),
{
    reveal_strlit("---");
    reveal_strlit("\n---");
    let fence = "---"@;
    let close = "\n---"@;
    let rest = seq!['\n'] + front + close + seq!['\n'] + body;
    let c = fence + rest;
    assert(c[0] == '-');
    assert(!text::white('-'));
    assert(text::white_run(c, 0) == 0);
    assert(text::trimmed_start(c) =~= c);
    assert(c.subrange(0, 3) =~= fence);
    assert(c.skip(3) =~= rest);
    assert(rest[0] == '\n');
    assert(line_ends(rest, 0));
    let n = front.len() as int + 1;
    assert(rest.subrange(n, n + 4) =~= close);
    assert(rest[n + 4] == '\n');
    assert(line_ends(rest, n + 4));
    let head = seq!['\n'] + front;
    text::lemma_found_from(head, close, 0);
    assert forall|k: int| 0 <= k < n implies !text::occurs_at(rest, close, k) by {
        if text::occurs_at(rest, close, k) {
            if k + 4 <= n {
                assert(rest.subrange(k, k + 4) =~= head.subrange(k, k + 4));
                assert(text::occurs_at(head, close, k));
            } else {
                assert(rest.subrange(k, k + 4)[n - k] == close[n - k]);
                assert(rest[n] == '\n');
            }
        }
    }
    lemma_closing_at(rest, 0, n);
    assert(rest.take(n) =~= head);
    assert(rest.skip(n + 4) =~= seq!['\n'] + body);
    lemma_one_feed_is_dropped(front);
    lemma_one_feed_is_dropped(body);
}

/// A file that does not begin with `---` has no front matter, and where no later line begins so,
/// the front matter is not closed.
pub proof fn lemma_front_matter_is_required(first: char, rest: Seq<char>)
    requires
        !text::white(first),
        first != '-',
        !text::has(seq!['\n'] + rest, "\n---"@),
    ensures
        divided(seq![first] + rest) == Err::<(Seq<char>, Seq<char>), FrontmatterError>(
            FrontmatterError::Missing,
        ),
        divided("---"@ + (seq!['\n'] + rest)) == Err::<(Seq<char>, Seq<char>), FrontmatterError>(
            FrontmatterError::Unclosed,
        ),
{
    reveal_strlit("---");
    let c = seq![first] + rest;
    assert(c[0] == first);
    assert(text::white_run(c, 0) == 0);
    assert(text::trimmed_start(c) =~= c);
    if text::begins(c, "---"@) {
        assert(c.subrange(0, 3)[0] == "---"@[0]);
    }
    let tail = seq!['\n'] + rest;
    let d = "---"@ + tail;
    assert(d[0] == '-' && !text::white('-'));
    assert(text::white_run(d, 0) == 0);
    assert(text::trimmed_start(d) =~= d);
    assert(d.subrange(0, 3) =~= "---"@);
    assert(d.skip(3) =~= tail);
    assert(tail[0] == '\n');
    assert(line_ends(tail, 0));
    text::lemma_found_from(tail, "\n---"@, 0);
    lemma_not_closed(tail, 0);
}

/// Scripts and prompts stand in their own directories below that of the skill.
pub proof fn lemma_files_stand_below_the_skill(dir: Seq<char>, file: Seq<char>)
    requires
        dir.len() > 0,
        dir.last() != '/',
        file.len() > 0,
        file[0] != '/',
    ensures
        script_path(dir, file) == dir + "/scripts/"@ + file,
        prompt_path(dir, file) == dir + "/prompts/"@ + file,
{
    reveal_strlit("scripts");
    reveal_strlit("prompts");
    reveal_strlit("/scripts/");
    reveal_strlit("/prompts/");
    let s = "scripts"@;
    let p = "prompts"@;
    path::lemma_below_follows_base(dir, s);
    path::lemma_below_follows_base(dir, p);
    let ds = dir + seq!['/'] + s;
    let dp = dir + seq!['/'] + p;
    assert(ds.last() == 's' && dp.last() == 's');
    path::lemma_below_follows_base(ds, file);
    path::lemma_below_follows_base(dp, file);
    assert("/scripts/"@ =~= seq!['/'] + s + seq!['/']);
    assert("/prompts/"@ =~= seq!['/'] + p + seq!['/']);
    assert(script_path(dir, file) =~= dir + "/scripts/"@ + file);
    assert(prompt_path(dir, file) =~= dir + "/prompts/"@ + file);
}

proof fn lemma_missing_monitor_is(
    dir: Seq<char>,
    monitors: Seq<MonitorDef>,
    existing: Seq<Seq<char>>,
    i: int,
    k: int,
)
    requires
        0 <= i <= k < monitors.len(),
        !existing.contains(script_path(dir, monitors[k].script@)),
        forall|j: int|
            i <= j < k ==> existing.contains(script_path(dir, (#[trigger] monitors[j]).script@)),
    ensures
        missing_monitor(dir, monitors, existing, i) == Some(
            MissingView::Monitor {
                name: monitors[k].name@,
                path: script_path(dir, monitors[k].script@),
            },
        ),
    decreases k - i,
{
    if i < k {
        assert(existing.contains(script_path(dir, monitors[i].script@)));
        lemma_missing_monitor_is(dir, monitors, existing, i + 1, k);
    }
}

/// The file that is said to be missing is the first that is: a monitor's script, then an action's,
/// then an agent's prompt, by the name of its owner and its place.
pub proof fn lemma_first_missing_file_is_told(
    dir: Seq<char>,
    config: SkillConfig,
    existing: Seq<Seq<char>>,
    k: int,
)
    requires
        0 <= k < config.monitors@.len(),
        !existing.contains(script_path(dir, config.monitors@[k].script@)),
        forall|j: int|
            0 <= j < k ==> existing.contains(
                script_path(dir, (#[trigger] config.monitors@[j]).script@),
            ),
    ensures
        missing_file(dir, config, existing) == Some(
            MissingView::Monitor {
                name: config.monitors@[k].name@,
                path: script_path(dir, config.monitors@[k].script@),
            },
        ),
{
    lemma_missing_monitor_is(dir, config.monitors@, existing, 0, k);
}

/// A file that is missing is told with its owner's kind and name and with its place.
pub proof fn lemma_missing_files_are_told(name: Seq<char>, place: Seq<char>)
    ensures
        missing_message(MissingView::Monitor { name, path: place }) == "Monitor '"@ + name
            + "' references missing script: "@ + text::quoted(place),
        missing_message(MissingView::Action { name, path: place }) == "Action '"@ + name
            + "' references missing script: "@ + text::quoted(place),
        missing_message(MissingView::Agent { name, path: place }) == "Agent '"@ + name
            + "' references missing prompt file: "@ + text::quoted(place),
{
}

/// Blanks and tabs at the end of a line that is `---` do not count, nor does a carriage return
/// before the line feed; any other character does.
pub proof fn lemma_line_ends_after_blanks(rest: Seq<char>, c: char)
    ensures
        line_ends(seq!['\n'] + rest, 0),
        line_ends(seq!['\r', '\n'] + rest, 0),
        line_ends(Seq::<char>::empty(), 0),
        line_ends(seq![' '] + rest, 0) == line_ends(rest, 0),
        line_ends(seq!['\t'] + rest, 0) == line_ends(rest, 0),
        c != ' ' && c != '\t' && c != '\n' && c != '\r' ==> !line_ends(seq![c] + rest, 0),
{
    let s = seq![' '] + rest;
    let t = seq!['\t'] + rest;
    assert(s[0] == ' ' && t[0] == '\t');
    lemma_line_ends_shift(seq![' '], rest, 0);
    lemma_line_ends_shift(seq!['\t'], rest, 0);
    let a = seq!['\n'] + rest;
    let b = seq!['\r', '\n'] + rest;
    assert(a[0] == '\n' && b[0] == '\r' && b[1] == '\n');
    let d = seq![c] + rest;
    assert(d[0] == c);
}

proof fn lemma_line_ends_shift(a: Seq<char>, b: Seq<char>, i: int)
    requires
        0 <= i <= b.len(),
    ensures
        line_ends(a + b, a.len() + i) == line_ends(b, i),
    decreases b.len() - i,
{
    if i < b.len() {
        assert((a + b)[a.len() + i] == b[i]);
        if i + 1 < b.len() {
            assert((a + b)[a.len() + i + 1] == b[i + 1]);
        }
        lemma_line_ends_shift(a, b, i + 1);
    }
}

/// The view of a missing file leaves nothing out.
pub proof fn lemma_missing_view_holds_the_fields(m: MissingFile)
    ensures
        m matches MissingFile::Monitor { name, path } ==> m@ == (MissingView::Monitor {
            name: name@,
            path: path@,
        }),
        m matches MissingFile::Action { name, path } ==> m@ == (MissingView::Action {
            name: name@,
            path: path@,
        }),
        m matches MissingFile::Agent { name, path } ==> m@ == (MissingView::Agent {
            name: name@,
            path: path@,
        }),
{
}

} // verus!
