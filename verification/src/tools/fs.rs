//! The tools that read the files of a skill. Each is confined to a base directory.
use vstd::prelude::*;
use crate::agent::tool::{Tool, ToolSafety};
use crate::agent::types::{ResultView, ToolResult};
use crate::json::{Json, JsonObject, JsonView};
use crate::json;
use crate::path;
use crate::text;
use crate::tools::runtime;
use crate::tools::schema;

verus! {

/// The largest file that is read, in bytes.
pub const MAX_FILE_SIZE: u64 = 1_048_576;

/// The most entries that a listing shows.
pub const MAX_RESULTS: usize = 500;

/// The most output of a search that is shown, in bytes.
pub const MAX_OUTPUT_BYTES: usize = 512_000;

// ---------------------------------------------------------------------------
// Staying inside the base directory
// ---------------------------------------------------------------------------
/// What the file system says of the parent of a path.
pub enum ParentFacts {
    /// The path has no parent.
    NoParent,
    /// The parent does not exist.
    Missing,
    /// The parent's canonical path, or the error of finding it.
    Present(Result<String, String>),
}

/// What the file system says of a path and of the base directory.
pub struct PathFacts {
    /// The canonical path of the base directory, or the error of finding it.
    pub base: Result<String, String>,
    pub exists: bool,
    /// The canonical path, where it exists, or the error of finding it.
    pub canonical: Result<String, String>,
    pub parent: ParentFacts,
}

/// Whether a canonical path is a directory or lies below it.
pub open spec fn within(dir: Seq<char>, p: Seq<char>) -> bool {
    p == dir || text::begins(p, dir + "/"@) || (dir == "/"@ && text::begins(p, "/"@))
}

fn is_within(dir: &str, p: &str) -> (r: bool)
    ensures
        r == within(dir@, p@),
{
    if text::same(p, dir) {
        return true;
    }
    let mut prefix = dir.to_string();
    prefix.append("/");
    text::starts_with(p, prefix.as_str()) || (text::same(dir, "/") && text::starts_with(p, "/"))
}

/// Where a request leads: what exists, to its canonical path; something new, to its name in its
/// canonical parent; something whose parent is missing, by its text, to a place seen from the base
/// directory. `None` where the file system gives no such path.
pub open spec fn leads_to(base: Seq<char>, t: Seq<char>, facts: PathFacts) -> Option<Seq<char>> {
    if facts.exists {
        match facts.canonical {
            Ok(p) => Some(p@),
            Err(_) => None,
        }
    } else {
        match facts.parent {
            ParentFacts::Present(Ok(p)) => Some(path::lexical(path::below(p@, path::last(t)))),
            ParentFacts::Missing => Some(path::lexical(path::below(base, t))),
            _ => None,
        }
    }
}

/// What a request is resolved to: the base directory where nothing is requested, else the path,
/// where it leads to the base directory or below it. Something new must have its parent there too,
/// where that exists.
pub open spec fn resolved(base_dir: Seq<char>, requested: Seq<char>, facts: PathFacts) -> Result<
    Seq<char>,
    Seq<char>,
> {
    let t = text::trimmed(requested);
    let outside = "path outside allowed directory: "@ + t;
    if t.len() == 0 {
        Ok(base_dir)
    } else {
        match facts.base {
            Err(e) => Err("base directory error: "@ + e@),
            Ok(base) => match leads_to(base@, t, facts) {
                Some(place) => if !within(base@, place) {
                    Err(outside)
                } else if facts.exists {
                    Ok(place)
                } else if facts.parent matches ParentFacts::Present(Ok(p)) && !within(
                    base@,
                    p@,
                ) {
                    Err(outside)
                } else {
                    Ok(path::below(base_dir, t))
                },
                None => if facts.exists {
                    Err("path error: "@ + facts.canonical->Err_0@)
                } else {
                    match facts.parent {
                        ParentFacts::Present(Err(e)) => Err("path error: "@ + e@),
                        _ => Err("invalid path"@),
                    }
                },
            },
        }
    }
}

/// The path that is looked up for a request; `None` where the base directory is meant.
pub fn candidate_path(base_dir: &str, requested: &str) -> (r: Option<String>)
    ensures
        text::opt(r) == (if text::trimmed(requested@).len() == 0 {
            None
        } else {
            Some(path::below(base_dir@, text::trimmed(requested@)))
        }),
{
    let t = text::trim(requested);
    if text::char_count(t.as_str()) == 0 {
        None
    } else {
        Some(path::join(base_dir, t.as_str()))
    }
}

/// Resolves a requested path. A path that leads out of the base directory is refused.
pub fn resolve_safe_path(base_dir: &str, requested: &str, facts: &PathFacts) -> (r: Result<
    String,
    String,
>)
    ensures
        match r {
            Ok(p) => resolved(base_dir@, requested@, *facts) == Ok::<Seq<char>, Seq<char>>(p@),
            Err(e) => resolved(base_dir@, requested@, *facts) == Err::<Seq<char>, Seq<char>>(e@),
        },
{
    let t = text::trim(requested);
    if text::char_count(t.as_str()) == 0 {
        return Ok(base_dir.to_string());
    }
    let base = match &facts.base {
        Ok(b) => b,
        Err(e) => {
            let mut out = "base directory error: ".to_string();
            out.append(e.as_str());
            return Err(out);
        },
    };
    let mut outside = "path outside allowed directory: ".to_string();
    outside.append(t.as_str());
    if facts.exists {
        match &facts.canonical {
            Ok(p) => {
                if is_within(base.as_str(), p.as_str()) {
                    Ok(p.clone())
                } else {
                    Err(outside)
                }
            },
            Err(e) => {
                let mut out = "path error: ".to_string();
                out.append(e.as_str());
                Err(out)
            },
        }
    } else {
        match &facts.parent {
            ParentFacts::NoParent => Err("invalid path".to_string()),
            ParentFacts::Missing => {
                let place = path::resolve_lexically(path::join(base.as_str(), t.as_str()).as_str());
                if is_within(base.as_str(), place.as_str()) {
                    Ok(path::join(base_dir, t.as_str()))
                } else {
                    Err(outside)
                }
            },
            ParentFacts::Present(Ok(p)) => {
                let name = path::last_step(t.as_str());
                let place = path::resolve_lexically(path::join(p.as_str(), name.as_str()).as_str());
                if is_within(base.as_str(), place.as_str()) && is_within(
                    base.as_str(),
                    p.as_str(),
                ) {
                    Ok(path::join(base_dir, t.as_str()))
                } else {
                    Err(outside)
                }
            },
            ParentFacts::Present(Err(e)) => {
                let mut out = "path error: ".to_string();
                out.append(e.as_str());
                Err(out)
            },
        }
    }
}

/// Whatever a request is resolved to, it leads to the base directory or below it, whether or not
/// anything is there: path traversal is refused.
pub proof fn lemma_resolved_stays_inside(
    base_dir: Seq<char>,
    requested: Seq<char>,
    facts: PathFacts,
)
    requires
        resolved(base_dir, requested, facts) is Ok,
    ensures
        text::trimmed(requested).len() == 0 ==> resolved(base_dir, requested, facts)->Ok_0
            == base_dir,
        text::trimmed(requested).len() > 0 ==> facts.base is Ok && (leads_to(
            facts.base->Ok_0@,
            text::trimmed(requested),
            facts,
        ) matches Some(place) && within(facts.base->Ok_0@, place)),
        text::trimmed(requested).len() > 0 && facts.exists ==> Some(
            resolved(base_dir, requested, facts)->Ok_0,
        ) == leads_to(facts.base->Ok_0@, text::trimmed(requested), facts),
        text::trimmed(requested).len() > 0 && !facts.exists ==> resolved(
            base_dir,
            requested,
            facts,
        )->Ok_0 == path::below(base_dir, text::trimmed(requested)),
{
}

// ---------------------------------------------------------------------------
// Reading a file
// ---------------------------------------------------------------------------
/// Reads a file.
pub struct FileRead {
    pub base_dir: String,
}

impl Tool for FileRead {
    open spec fn tool_name(&self) -> Seq<char> {
        "file_read"@
    }

    open spec fn tool_description(&self) -> Seq<char> {
        "Read file contents with optional line offset and limit. Paths are relative to the skill directory."@
    }

    open spec fn tool_schema(&self) -> JsonView {
        schema::arguments(
            map![
                "path"@ => schema::prop("string"@, "File path (relative to skill directory)"@),
                "offset"@ => schema::prop("integer"@, "Starting line number, 1-based (default: 1)"@),
                "limit"@ => schema::prop("integer"@, "Max lines to return (default: all)"@),
            ],
            Some(seq!["path"@]),
        )
    }

    open spec fn tool_safety(&self) -> ToolSafety {
        ToolSafety::ReadOnly
    }

    fn name(&self) -> &str {
        "file_read"
    }

    fn description(&self) -> &str {
        "Read file contents with optional line offset and limit. Paths are relative to the skill directory."
    }

    fn parameters_schema(&self) -> Json {
        let mut props = JsonObject::new();
        props.put("path", schema::make_prop("string", "File path (relative to skill directory)"));
        props.put("offset", schema::make_prop("integer", "Starting line number, 1-based (default: 1)"));
        props.put("limit", schema::make_prop("integer", "Max lines to return (default: all)"));
        let required: Vec<&str> = vec!["path"];
        assert(required@.map_values(|p: &str| p@) =~= seq!["path"@]);
        schema::make_arguments(props, required)
    }

    fn safety(&self) -> ToolSafety {
        ToolSafety::ReadOnly
    }
}

/// What the file system says of a file.
pub struct FileFacts {
    pub exists: bool,
    pub is_file: bool,
    pub size: Option<u64>,
    /// The content, or the error of reading it.
    pub content: Result<String, String>,
}

/// The index of the first line that is shown of `count` lines.
pub open spec fn first_line(args: JsonView, count: nat) -> nat {
    let offset = match json::u64_member(args, "offset"@) {
        Some(n) => if n >= 1 {
            n as int
        } else {
            1
        },
        None => 1,
    };
    if offset - 1 < count {
        (offset - 1) as nat
    } else {
        count
    }
}

/// The index after the last line that is shown of `count` lines.
pub open spec fn end_line(args: JsonView, count: nat) -> nat {
    match json::u64_member(args, "limit"@) {
        Some(l) => if first_line(args, count) + l < count {
            first_line(args, count) + l as nat
        } else {
            count
        },
        None => count,
    }
}

/// Whether the lines that a call asks for can be counted.
pub open spec fn window_fits(args: JsonView, count: nat) -> bool {
    json::u64_member(args, "limit"@) matches Some(l) ==> first_line(args, count) + l <= usize::MAX
}

/// A number of spaces.
pub open spec fn spaces(n: nat) -> Seq<char> {
    Seq::new(n, |i: int| ' ')
}

/// A number, at least five characters wide.
pub open spec fn line_number(n: nat) -> Seq<char> {
    let d = text::decimal(n);
    if d.len() < 5 {
        spaces((5 - d.len()) as nat) + d
    } else {
        d
    }
}

/// The lines from index `start` on, each with its number, up to before index `end`.
pub open spec fn numbered(lines: Seq<Seq<char>>, start: int, end: int) -> Seq<char>
    decreases end - start,
{
    if end <= start {
        seq![]
    } else {
        numbered(lines, start, end - 1) + (line_number(end as nat) + "│"@ + lines[end - 1] + "\n"@)
    }
}

/// What is shown of a file's content.
pub open spec fn file_shown(content: Seq<char>, args: JsonView) -> Seq<char> {
    let lines = text::text_lines(content);
    let shown = numbered(
        lines,
        first_line(args, lines.len()) as int,
        end_line(args, lines.len()) as int,
    );
    if shown.len() == 0 {
        "(empty file)"@
    } else {
        shown
    }
}

fn make_spaces(n: usize) -> (r: String)
    ensures
        r@ == spaces(n as nat),
{
    proof {
        reveal_strlit(" ");
    }
    let mut out = String::new();
    let mut i: usize = 0;
    assert(out@ =~= spaces(0));
    while i < n
        invariant
            i <= n,
            out@ =~= spaces(i as nat),
            " "@ =~= seq![' '],
        decreases n - i,
    {
        out.append(" ");
        i = i + 1;
    }
    out
}

fn show_line_number(n: usize) -> (r: String)
    ensures
        r@ == line_number(n as nat),
{
    let d = text::decimal_of(n as u128);
    let width: usize = text::char_count(d.as_str());
    if width < 5 {
        let mut out = make_spaces(5 - width);
        out.append(d.as_str());
        out
    } else {
        d
    }
}

/// Tells whether the lines that a call asks for can be counted.
pub fn does_window_fit(args: &Json, content: &str) -> (r: bool)
    ensures
        r == window_fits(args@, text::text_lines(content@).len()),
{
    let lines = text::lines(content);
    assert(text::views(lines@).len() == lines@.len());
    let start: usize = find_first_line(args, lines.len());
    match args.u64_at("limit") {
        Some(l) => l <= (usize::MAX - start) as u64,
        None => true,
    }
}

fn find_first_line(args: &Json, count: usize) -> (r: usize)
    ensures
        r == first_line(args@, count as nat),
{
    let offset: u64 = match args.u64_at("offset") {
        Some(n) => if n >= 1 {
            n
        } else {
            1
        },
        None => 1,
    };
    if offset - 1 < count as u64 {
        (offset - 1) as usize
    } else {
        count
    }
}

fn show_file(content: &str, args: &Json) -> (r: String)
    requires
        window_fits(args@, text::text_lines(content@).len()),
    ensures
        r@ == file_shown(content@, args@),
{
    let lines = text::lines(content);
    let ghost views = text::text_lines(content@);
    assert(views.len() == lines@.len());
    let start: usize = find_first_line(args, lines.len());
    let end: usize = match args.u64_at("limit") {
        Some(l) => if l < (lines.len() - start) as u64 {
            start + l as usize
        } else {
            lines.len()
        },
        None => lines.len(),
    };
    let mut out = String::new();
    let mut i: usize = start;
    while i < end
        invariant
            start <= i <= end <= lines@.len(),
            text::views(lines@) == views,
            out@ == numbered(views, start as int, i as int),
        decreases end - i,
    {
        assert(views[i as int] == lines@[i as int]@);
        let mut line = show_line_number(i + 1);
        line.append("│");
        line.append(lines[i].as_str());
        line.append("\n");
        out.append(line.as_str());
        i = i + 1;
    }
    if text::char_count(out.as_str()) == 0 {
        "(empty file)".to_string()
    } else {
        out
    }
}

/// What a call to read a file comes to.
pub open spec fn read_outcome(path_str: Seq<char>, facts: FileFacts, args: JsonView) -> ResultView {
    if !facts.exists {
        ResultView { success: false, output: "file not found: "@ + path_str }
    } else if !facts.is_file {
        ResultView {
            success: false,
            output: "not a file: "@ + path_str + " (use ls to list directories)"@,
        }
    } else if facts.size is Some && facts.size->0 > MAX_FILE_SIZE {
        ResultView {
            success: false,
            output: "file too large: "@ + text::decimal(facts.size->0 as nat) + " bytes (max "@
                + text::decimal(MAX_FILE_SIZE as nat)
                + "). Use offset/limit to read portions."@,
        }
    } else {
        match facts.content {
            Err(e) => ResultView { success: false, output: "read error: "@ + e@ },
            Ok(content) => ResultView { success: true, output: file_shown(content@, args) },
        }
    }
}

impl FileRead {
    /// A tool for the files below a directory.
    pub fn new(base_dir: &str) -> (r: FileRead)
        ensures
            r.base_dir@ == base_dir@,
    {
        FileRead { base_dir: base_dir.to_string() }
    }

    /// Checks a call, and says which path it is about.
    pub fn plan(&self, args: &Json) -> (r: Result<String, ToolResult>)
        ensures
            match (r, json::str_member(args@, "path"@)) {
                (Ok(p), Some(s)) => p@ == s,
                (Err(e), None) => e@ == (ResultView { success: false, output: "missing path"@ }),
                _ => false,
            },
    {
        match args.str_at("path") {
            Some(p) => Ok(p.to_string()),
            None => Err(ToolResult::failure("missing path".to_string())),
        }
    }

    /// Reports a file.
    pub fn report(path_str: &str, facts: &FileFacts, args: &Json) -> (r: ToolResult)
        requires
            facts.content matches Ok(c) ==> window_fits(args@, text::text_lines(c@).len()),
        ensures
            r@ == read_outcome(path_str@, *facts, args@),
    {
        if !facts.exists {
            return runtime::outside_error("file not found: ", path_str);
        }
        if !facts.is_file {
            let mut out = "not a file: ".to_string();
            out.append(path_str);
            out.append(" (use ls to list directories)");
            return ToolResult::failure(out);
        }
        if let Some(size) = facts.size {
            if size > MAX_FILE_SIZE {
                let mut out = "file too large: ".to_string();
                out.append(text::decimal_of(size as u128).as_str());
                out.append(" bytes (max ");
                out.append(text::decimal_of(MAX_FILE_SIZE as u128).as_str());
                out.append("). Use offset/limit to read portions.");
                return ToolResult::failure(out);
            }
        }
        match &facts.content {
            Ok(content) => ToolResult::success(show_file(content.as_str(), args)),
            Err(e) => runtime::outside_error("read error: ", e.as_str()),
        }
    }
}

// ---------------------------------------------------------------------------
// Listing a directory
// ---------------------------------------------------------------------------
/// Lists a directory.
pub struct Ls {
    pub base_dir: String,
}

impl Tool for Ls {
    open spec fn tool_name(&self) -> Seq<char> {
        "ls"@
    }

    open spec fn tool_description(&self) -> Seq<char> {
        "List files and directories. Paths are relative to the skill directory."@
    }

    open spec fn tool_schema(&self) -> JsonView {
        schema::arguments(
            map![
                "path"@ => schema::prop("string"@, "Directory path (default: skill root directory)"@),
            ],
            None,
        )
    }

    open spec fn tool_safety(&self) -> ToolSafety {
        ToolSafety::ReadOnly
    }

    fn name(&self) -> &str {
        "ls"
    }

    fn description(&self) -> &str {
        "List files and directories. Paths are relative to the skill directory."
    }

    fn parameters_schema(&self) -> Json {
        let mut props = JsonObject::new();
        props.put("path", schema::make_prop("string", "Directory path (default: skill root directory)"));
        schema::make_open_arguments(props)
    }

    fn safety(&self) -> ToolSafety {
        ToolSafety::ReadOnly
    }
}

/// What the file system says of an entry of a directory.
pub struct EntryFacts {
    pub name: String,
    pub is_dir: bool,
    pub is_file: bool,
    pub size: Option<u64>,
}

/// A size in words.
pub open spec fn size_shown(size: nat) -> Seq<char> {
    "  ("@ + text::decimal(size) + " bytes)"@
}

/// An entry as a listing shows it.
pub open spec fn entry_shown(e: EntryFacts) -> Seq<char> {
    e.name@ + (if e.is_dir {
        "/"@
    } else {
        ""@
    }) + (if e.is_file && e.size is Some {
        size_shown(e.size->0 as nat)
    } else {
        ""@
    })
}

/// The entries of a listing: the first of them, and a note where there are more.
pub open spec fn entries_shown(entries: Seq<EntryFacts>) -> Seq<Seq<char>> {
    let shown = entries.map_values(|e: EntryFacts| entry_shown(e));
    if shown.len() > MAX_RESULTS {
        shown.take(MAX_RESULTS as int).push(
            "... (truncated at "@ + text::decimal(MAX_RESULTS as nat) + " entries)"@,
        )
    } else {
        shown
    }
}

fn show_size(size: u64) -> (r: String)
    ensures
        r@ == size_shown(size as nat),
{
    let mut out = "  (".to_string();
    out.append(text::decimal_of(size as u128).as_str());
    out.append(" bytes)");
    out
}

fn show_entries(entries: &Vec<EntryFacts>) -> (r: Vec<String>)
    ensures
        text::views(r@) == entries_shown(entries@),
{
    let ghost want = entries@.map_values(|e: EntryFacts| entry_shown(e));
    let mut items: Vec<String> = Vec::new();
    let mut i: usize = 0;
    while i < entries.len()
        invariant
            i <= entries@.len(),
            i <= MAX_RESULTS,
            want == entries@.map_values(|e: EntryFacts| entry_shown(e)),
            text::views(items@) =~= want.take(i as int),
        decreases entries@.len() - i,
    {
        let ghost before = items@;
        if i >= MAX_RESULTS {
            let mut note = "... (truncated at ".to_string();
            note.append(text::decimal_of(MAX_RESULTS as u128).as_str());
            note.append(" entries)");
            let ghost shown = note@;
            items.push(note);
            assert(text::views(items@) =~= text::views(before).push(shown));
            return items;
        }
        let e = &entries[i];
        let mut item = e.name.clone();
        item.append(
            if e.is_dir {
                "/"
            } else {
                ""
            },
        );
        let mut size = "".to_string();
        if e.is_file {
            if let Some(n) = e.size {
                size = show_size(n);
            }
        }
        item.append(size.as_str());
        assert(item@ == want[i as int]);
        items.push(item);
        assert(text::views(items@) =~= text::views(before).push(want[i as int]));
        i = i + 1;
    }
    assert(text::views(items@) =~= want);
    items
}

/// What a call to list a directory comes to.
pub open spec fn ls_outcome(
    path_str: Seq<char>,
    exists: bool,
    is_dir: bool,
    entries: Result<Vec<EntryFacts>, String>,
) -> ResultView {
    if !exists {
        ResultView { success: false, output: "directory not found: "@ + path_str }
    } else if !is_dir {
        ResultView {
            success: false,
            output: "not a directory: "@ + path_str + " (use file_read to read files)"@,
        }
    } else {
        match entries {
            Err(e) => ResultView { success: false, output: "read_dir error: "@ + e@ },
            Ok(list) => ResultView {
                success: true,
                output: if list@.len() == 0 {
                    "(empty directory)"@
                } else {
                    text::joined(text::sorted(entries_shown(list@)), "\n"@)
                },
            },
        }
    }
}

/// The path of a call, or the base directory itself.
pub open spec fn path_or_dot(args: JsonView) -> Seq<char> {
    match json::str_member(args, "path"@) {
        Some(p) => p,
        None => "."@,
    }
}

fn take_path(args: &Json) -> (r: String)
    ensures
        r@ == path_or_dot(args@),
{
    match args.str_at("path") {
        Some(p) => p.to_string(),
        None => ".".to_string(),
    }
}

impl Ls {
    /// A tool for the directories below a directory.
    pub fn new(base_dir: &str) -> (r: Ls)
        ensures
            r.base_dir@ == base_dir@,
    {
        Ls { base_dir: base_dir.to_string() }
    }

    /// The path that a call is about.
    pub fn plan(&self, args: &Json) -> (r: String)
        ensures
            r@ == path_or_dot(args@),
    {
        take_path(args)
    }

    /// Reports a directory.
    pub fn report(
        path_str: &str,
        exists: bool,
        is_dir: bool,
        entries: &Result<Vec<EntryFacts>, String>,
    ) -> (r: ToolResult)
        ensures
            r@ == ls_outcome(path_str@, exists, is_dir, *entries),
    {
        if !exists {
            return runtime::outside_error("directory not found: ", path_str);
        }
        if !is_dir {
            let mut out = "not a directory: ".to_string();
            out.append(path_str);
            out.append(" (use file_read to read files)");
            return ToolResult::failure(out);
        }
        match entries {
            Ok(list) => {
                if list.len() == 0 {
                    return ToolResult::success("(empty directory)".to_string());
                }
                let items = text::sort(&show_entries(list));
                ToolResult::success(text::join(&items, "\n"))
            },
            Err(e) => runtime::outside_error("read_dir error: ", e.as_str()),
        }
    }
}

// ---------------------------------------------------------------------------
// Matching names
// ---------------------------------------------------------------------------
/// Finds files by a pattern of their names.
pub struct Glob {
    pub base_dir: String,
}

impl Tool for Glob {
    open spec fn tool_name(&self) -> Seq<char> {
        "glob"@
    }

    open spec fn tool_description(&self) -> Seq<char> {
        "Find files matching a glob pattern within the skill directory. Examples: '**/*.md', 'prompts/*.md', '**/*.sh'"@
    }

    open spec fn tool_schema(&self) -> JsonView {
        schema::arguments(
            map![
                "pattern"@ => schema::prop("string"@, "Glob pattern (e.g. '**/*.md', 'scripts/**/*.sh')"@),
            ],
            Some(seq!["pattern"@]),
        )
    }

    open spec fn tool_safety(&self) -> ToolSafety {
        ToolSafety::ReadOnly
    }

    fn name(&self) -> &str {
        "glob"
    }

    fn description(&self) -> &str {
        "Find files matching a glob pattern within the skill directory. Examples: '**/*.md', 'prompts/*.md', '**/*.sh'"
    }

    fn parameters_schema(&self) -> Json {
        let mut props = JsonObject::new();
        props.put("pattern", schema::make_prop("string", "Glob pattern (e.g. '**/*.md', 'scripts/**/*.sh')"));
        let required: Vec<&str> = vec!["pattern"];
        assert(required@.map_values(|p: &str| p@) =~= seq!["pattern"@]);
        schema::make_arguments(props, required)
    }

    fn safety(&self) -> ToolSafety {
        ToolSafety::ReadOnly
    }
}

/// Whether a pattern goes up somewhere.
pub open spec fn goes_up(p: Seq<char>) -> bool {
    text::has(p, "../"@) || text::has(p, "..\\"@) || p == ".."@ || text::ends(p, "/.."@)
        || text::ends(p, "\\.."@)
}

fn does_go_up(p: &str) -> (r: bool)
    ensures
        r == goes_up(p@),
{
    text::contains(p, "../") || text::contains(p, "..\\") || text::same(p, "..")
        || text::strip_suffix(p, "/..").is_some() || text::strip_suffix(p, "\\..").is_some()
}

/// Why a pattern is refused.
pub open spec fn glob_refusal(args: JsonView) -> Option<Seq<char>> {
    match json::str_member(args, "pattern"@) {
        None => Some("missing pattern"@),
        Some(p) => if goes_up(p) {
            Some("path traversal not allowed"@)
        } else {
            None
        },
    }
}

/// The first of a list of texts, at most as many as a listing shows.
pub open spec fn first_results(parts: Seq<Seq<char>>) -> Seq<Seq<char>> {
    if parts.len() > MAX_RESULTS {
        parts.take(MAX_RESULTS as int)
    } else {
        parts
    }
}

fn take_results(parts: &Vec<String>) -> (r: Vec<String>)
    ensures
        text::views(r@) == first_results(text::views(parts@)),
{
    let mut out: Vec<String> = Vec::new();
    let mut i: usize = 0;
    while i < parts.len() && i < MAX_RESULTS
        invariant
            i <= parts@.len(),
            i <= MAX_RESULTS,
            text::views(out@) =~= text::views(parts@).take(i as int),
        decreases parts@.len() - i,
    {
        let ghost before = out@;
        out.push(parts[i].clone());
        assert(text::views(out@) =~= text::views(before).push(text::views(parts@)[i as int]));
        i = i + 1;
    }
    assert(text::views(out@) =~= first_results(text::views(parts@)));
    out
}

/// A list of results, or a note that there are none.
pub open spec fn results_shown(parts: Seq<Seq<char>>) -> Seq<char> {
    if parts.len() == 0 {
        "(no matches)"@
    } else {
        text::joined(first_results(parts), "\n"@)
    }
}

impl Glob {
    /// A tool for the files below a directory.
    pub fn new(base_dir: &str) -> (r: Glob)
        ensures
            r.base_dir@ == base_dir@,
    {
        Glob { base_dir: base_dir.to_string() }
    }

    /// Checks a call, and makes the pattern below the base directory.
    pub fn plan(&self, args: &Json) -> (r: Result<String, ToolResult>)
        ensures
            match r {
                Ok(p) => glob_refusal(args@) is None && p@ == path::below(
                    self.base_dir@,
                    json::str_member(args@, "pattern"@)->0,
                ),
                Err(e) => !e.success && glob_refusal(args@) == Some(e.output@),
            },
    {
        let pattern = match args.str_at("pattern") {
            Some(p) => p,
            None => {
                return Err(ToolResult::failure("missing pattern".to_string()));
            },
        };
        if does_go_up(pattern) {
            return Err(ToolResult::failure("path traversal not allowed".to_string()));
        }
        Ok(path::join(self.base_dir.as_str(), pattern))
    }

    /// Reports matches, by their paths below the base directory.
    pub fn report(matches: &Vec<String>) -> (r: ToolResult)
        ensures
            r@ == (ResultView { success: true, output: results_shown(text::views(matches@)) }),
    {
        assert(text::views(matches@).len() == matches@.len());
        if matches.len() == 0 {
            return ToolResult::success("(no matches)".to_string());
        }
        ToolResult::success(text::join(&take_results(matches), "\n"))
    }
}

// ---------------------------------------------------------------------------
// Searching contents
// ---------------------------------------------------------------------------
/// Searches the contents of files.
pub struct Grep {
    pub base_dir: String,
}

impl Tool for Grep {
    open spec fn tool_name(&self) -> Seq<char> {
        "grep"@
    }

    open spec fn tool_description(&self) -> Seq<char> {
        "Search file contents by regex pattern within the skill directory. Returns matching lines with file paths and line numbers."@
    }

    open spec fn tool_schema(&self) -> JsonView {
        schema::arguments(
            map![
                "pattern"@ => schema::prop("string"@, "Regex pattern to search for"@),
                "path"@ => schema::prop("string"@, "Directory or file to search in (default: skill root)"@),
                "include"@ => schema::prop("string"@, "File glob filter (e.g. '*.md', '*.rs')"@),
                "context"@ => schema::prop("integer"@, "Lines of context before and after each match (default: 0)"@),
            ],
            Some(seq!["pattern"@]),
        )
    }

    open spec fn tool_safety(&self) -> ToolSafety {
        ToolSafety::ReadOnly
    }

    fn name(&self) -> &str {
        "grep"
    }

    fn description(&self) -> &str {
        "Search file contents by regex pattern within the skill directory. Returns matching lines with file paths and line numbers."
    }

    fn parameters_schema(&self) -> Json {
        let mut props = JsonObject::new();
        props.put("pattern", schema::make_prop("string", "Regex pattern to search for"));
        props.put("path", schema::make_prop("string", "Directory or file to search in (default: skill root)"));
        props.put("include", schema::make_prop("string", "File glob filter (e.g. '*.md', '*.rs')"));
        props.put("context", schema::make_prop("integer", "Lines of context before and after each match (default: 0)"));
        let required: Vec<&str> = vec!["pattern"];
        assert(required@.map_values(|p: &str| p@) =~= seq!["pattern"@]);
        schema::make_arguments(props, required)
    }

    fn safety(&self) -> ToolSafety {
        ToolSafety::ReadOnly
    }
}

/// A program and its arguments.
pub struct SearchCommand {
    pub program: String,
    pub args: Vec<String>,
}

/// The arguments of an option with a value, where there is one.
pub open spec fn option_args(flag: Seq<char>, value: Option<Seq<char>>) -> Seq<Seq<char>> {
    match value {
        Some(v) => seq![flag, v],
        None => seq![],
    }
}

/// The argument that asks for lines of context, where there are any.
pub open spec fn context_args(args: JsonView) -> Seq<Seq<char>> {
    match json::u64_member(args, "context"@) {
        Some(n) => if n > 0 {
            seq!["-C"@ + text::decimal(n as nat)]
        } else {
            seq![]
        },
        None => seq![],
    }
}

/// The arguments of a search, by whether the faster program is there.
pub open spec fn grep_args(fast: bool, args: JsonView, pattern: Seq<char>, p: Seq<char>) -> Seq<
    Seq<char>,
> {
    let filter = json::str_member(args, "include"@);
    if fast {
        seq!["--no-heading"@, "--line-number"@, "--color=never"@, "--max-count=100"@]
            + context_args(args) + option_args("--glob"@, filter) + seq![pattern, p]
    } else {
        seq!["-rn"@, "-E"@] + context_args(args) + option_args("--include"@, filter) + seq![
            pattern,
            p,
        ]
    }
}

fn add_word(out: &mut Vec<String>, word: &str)
    ensures
        text::views(final(out)@) == text::views(old(out)@).push(word@),
{
    let ghost before = out@;
    out.push(word.to_string());
    assert(text::views(out@) =~= text::views(before).push(word@));
}

fn add_option(out: &mut Vec<String>, flag: &str, value: Option<&str>)
    ensures
        text::views(final(out)@) == text::views(old(out)@) + option_args(
            flag@,
            json::opt_view(value),
        ),
{
    let ghost before = text::views(out@);
    if let Some(v) = value {
        add_word(out, flag);
        add_word(out, v);
    }
    assert(text::views(out@) =~= before + option_args(flag@, json::opt_view(value)));
}

fn add_context(out: &mut Vec<String>, args: &Json)
    ensures
        text::views(final(out)@) == text::views(old(out)@) + context_args(args@),
{
    let ghost before = text::views(out@);
    let lines: u64 = match args.u64_at("context") {
        Some(n) => n,
        None => 0,
    };
    if lines > 0 {
        let mut flag = "-C".to_string();
        flag.append(text::decimal_of(lines as u128).as_str());
        add_word(out, flag.as_str());
    }
    assert(text::views(out@) =~= before + context_args(args@));
}

/// The output of a search without the base directory in its paths.
pub open spec fn cleaned(base_dir: Seq<char>, stdout: Seq<char>) -> Seq<char> {
    let first = text::replaced(stdout, base_dir + "/"@, ""@);
    if base_dir.len() == 0 {
        first
    } else {
        text::replaced(first, base_dir, ""@)
    }
}

/// The output of a search as far as it is shown.
pub open spec fn search_shown(clean: Seq<char>) -> Seq<char> {
    if text::byte_len(clean) > MAX_OUTPUT_BYTES {
        text::byte_prefix(clean, MAX_OUTPUT_BYTES as nat) + "...\n(truncated at "@ + text::decimal(
            MAX_OUTPUT_BYTES as nat,
        ) + " bytes)"@
    } else {
        clean
    }
}

/// Whether the output of a search can be shown: a long one has a character that ends at the cut.
pub open spec fn search_showable(clean: Seq<char>) -> bool {
    text::byte_len(clean) > MAX_OUTPUT_BYTES ==> text::ends_char(clean, MAX_OUTPUT_BYTES as nat)
}

/// What a search comes to. The exit code one says that nothing matched.
pub open spec fn grep_outcome(
    base_dir: Seq<char>,
    success: bool,
    code: Option<i32>,
    stdout: Seq<char>,
    stderr: Seq<char>,
) -> ResultView {
    if !success && code != Some(1i32) {
        ResultView { success: false, output: "grep failed: "@ + stderr }
    } else if stdout.len() == 0 {
        ResultView { success: true, output: "(no matches)"@ }
    } else {
        ResultView { success: true, output: search_shown(cleaned(base_dir, stdout)) }
    }
}

fn clean(base_dir: &str, stdout: &str) -> (r: String)
    ensures
        r@ == cleaned(base_dir@, stdout@),
{
    let mut prefix = base_dir.to_string();
    prefix.append("/");
    proof {
        reveal_strlit("/");
        assert(prefix@.len() == base_dir@.len() + 1);
    }
    let first = text::replace(stdout, prefix.as_str(), "");
    if text::char_count(base_dir) == 0 {
        first
    } else {
        text::replace(first.as_str(), base_dir, "")
    }
}

impl Grep {
    /// A tool for the files below a directory.
    pub fn new(base_dir: &str) -> (r: Grep)
        ensures
            r.base_dir@ == base_dir@,
    {
        Grep { base_dir: base_dir.to_string() }
    }

    /// Checks a call: the pattern, and the path that is searched.
    pub fn plan(&self, args: &Json) -> (r: Result<(String, String), ToolResult>)
        ensures
            match (r, json::str_member(args@, "pattern"@)) {
                (Ok(q), Some(p)) => q.0@ == p && q.1@ == path_or_dot(args@),
                (Err(e), None) => e@ == (ResultView { success: false, output: "missing pattern"@ }),
                _ => false,
            },
    {
        match args.str_at("pattern") {
            Some(p) => Ok((p.to_string(), take_path(args))),
            None => Err(ToolResult::failure("missing pattern".to_string())),
        }
    }

    /// Makes the command of a search, by whether the faster program is there.
    pub fn command(fast: bool, args: &Json, pattern: &str, resolved: &str) -> (r: SearchCommand)
        ensures
            r.program@ == (if fast {
                "rg"@
            } else {
                "grep"@
            }),
            text::views(r.args@) == grep_args(fast, args@, pattern@, resolved@),
    {
        let mut out: Vec<String> = Vec::new();
        let program = if fast {
            add_word(&mut out, "--no-heading");
            add_word(&mut out, "--line-number");
            add_word(&mut out, "--color=never");
            add_word(&mut out, "--max-count=100");
            assert(text::views(out@) =~= seq![
                "--no-heading"@,
                "--line-number"@,
                "--color=never"@,
                "--max-count=100"@,
            ]);
            add_context(&mut out, args);
            add_option(&mut out, "--glob", args.str_at("include"));
            "rg"
        } else {
            add_word(&mut out, "-rn");
            add_word(&mut out, "-E");
            assert(text::views(out@) =~= seq!["-rn"@, "-E"@]);
            add_context(&mut out, args);
            add_option(&mut out, "--include", args.str_at("include"));
            "grep"
        };
        let ghost before = text::views(out@);
        add_word(&mut out, pattern);
        add_word(&mut out, resolved);
        assert(text::views(out@) =~= before + seq![pattern@, resolved@]);
        SearchCommand { program: program.to_string(), args: out }
    }

    /// Tells whether the output of a search can be shown.
    pub fn can_report(&self, stdout: &str) -> (r: bool)
        ensures
            r == search_showable(cleaned(self.base_dir@, stdout@)),
    {
        let c = clean(self.base_dir.as_str(), stdout);
        !text::longer_than_bytes(c.as_str(), MAX_OUTPUT_BYTES) || text::take_bytes(
            c.as_str(),
            MAX_OUTPUT_BYTES,
        ).is_some()
    }

    /// Reports a search.
    pub fn report(&self, success: bool, code: Option<i32>, stdout: &str, stderr: &str) -> (r:
        ToolResult)
        requires
            search_showable(cleaned(self.base_dir@, stdout@)),
        ensures
            r@ == grep_outcome(self.base_dir@, success, code, stdout@, stderr@),
    {
        let none_matched = match code {
            Some(c) => c == 1,
            None => false,
        };
        if !success && !none_matched {
            return runtime::outside_error("grep failed: ", stderr);
        }
        if text::char_count(stdout) == 0 {
            return ToolResult::success("(no matches)".to_string());
        }
        let c = clean(self.base_dir.as_str(), stdout);
        if text::longer_than_bytes(c.as_str(), MAX_OUTPUT_BYTES) {
            match text::take_bytes(c.as_str(), MAX_OUTPUT_BYTES) {
                Some(start) => {
                    let mut out = start;
                    out.append("...\n(truncated at ");
                    out.append(text::decimal_of(MAX_OUTPUT_BYTES as u128).as_str());
                    out.append(" bytes)");
                    ToolResult::success(out)
                },
                None => {
                    assert(false);
                    ToolResult::success(c)
                },
            }
        } else {
            ToolResult::success(c)
        }
    }
}

/// Finds the files whose contents match.
pub struct ContentSearch {
    pub base_dir: String,
}

impl Tool for ContentSearch {
    open spec fn tool_name(&self) -> Seq<char> {
        "content_search"@
    }

    open spec fn tool_description(&self) -> Seq<char> {
        "Search for text across all files in the skill directory. Returns file paths containing matches. Use for finding which files mention a topic."@
    }

    open spec fn tool_schema(&self) -> JsonView {
        schema::arguments(
            map![
                "query"@ => schema::prop("string"@, "Text or regex to search for"@),
                "include"@ => schema::prop("string"@, "File glob filter (e.g. '*.md', '*.yaml')"@),
            ],
            Some(seq!["query"@]),
        )
    }

    open spec fn tool_safety(&self) -> ToolSafety {
        ToolSafety::ReadOnly
    }

    fn name(&self) -> &str {
        "content_search"
    }

    fn description(&self) -> &str {
        "Search for text across all files in the skill directory. Returns file paths containing matches. Use for finding which files mention a topic."
    }

    fn parameters_schema(&self) -> Json {
        let mut props = JsonObject::new();
        props.put("query", schema::make_prop("string", "Text or regex to search for"));
        props.put("include", schema::make_prop("string", "File glob filter (e.g. '*.md', '*.yaml')"));
        let required: Vec<&str> = vec!["query"];
        assert(required@.map_values(|p: &str| p@) =~= seq!["query"@]);
        schema::make_arguments(props, required)
    }

    fn safety(&self) -> ToolSafety {
        ToolSafety::ReadOnly
    }
}

/// The arguments of a search for files, by whether the faster program is there.
pub open spec fn search_args(fast: bool, args: JsonView, query: Seq<char>, base: Seq<char>) -> Seq<
    Seq<char>,
> {
    let filter = json::str_member(args, "include"@);
    if fast {
        seq!["--files-with-matches"@, "--color=never"@] + option_args("--glob"@, filter) + seq![
            query,
            base,
        ]
    } else {
        seq!["-rl"@, "-E"@] + option_args("--include"@, filter) + seq![query, base]
    }
}

/// A line without a prefix, where it has it.
pub open spec fn without_prefix(line: Seq<char>, prefix: Seq<char>) -> Seq<char> {
    if text::begins(line, prefix) {
        line.skip(prefix.len() as int)
    } else {
        line
    }
}

/// The files that a search found, by their paths below the base directory.
pub open spec fn found_files(base_dir: Seq<char>, stdout: Seq<char>) -> Seq<char> {
    if stdout.len() == 0 {
        "(no matches)"@
    } else {
        let files = text::text_lines(stdout).map_values(
            |l: Seq<char>| without_prefix(l, base_dir + "/"@),
        );
        text::joined(first_results(files), "\n"@)
    }
}

impl ContentSearch {
    /// A tool for the files below a directory.
    pub fn new(base_dir: &str) -> (r: ContentSearch)
        ensures
            r.base_dir@ == base_dir@,
    {
        ContentSearch { base_dir: base_dir.to_string() }
    }

    /// Checks a call: what is searched for.
    pub fn plan(&self, args: &Json) -> (r: Result<String, ToolResult>)
        ensures
            match (r, json::str_member(args@, "query"@)) {
                (Ok(q), Some(s)) => q@ == s,
                (Err(e), None) => e@ == (ResultView { success: false, output: "missing query"@ }),
                _ => false,
            },
    {
        match args.str_at("query") {
            Some(q) => Ok(q.to_string()),
            None => Err(ToolResult::failure("missing query".to_string())),
        }
    }

    /// Makes the command of a search, by whether the faster program is there.
    pub fn command(&self, fast: bool, args: &Json, query: &str) -> (r: SearchCommand)
        ensures
            r.program@ == (if fast {
                "rg"@
            } else {
                "grep"@
            }),
            text::views(r.args@) == search_args(fast, args@, query@, self.base_dir@),
    {
        let mut out: Vec<String> = Vec::new();
        let program = if fast {
            add_word(&mut out, "--files-with-matches");
            add_word(&mut out, "--color=never");
            assert(text::views(out@) =~= seq!["--files-with-matches"@, "--color=never"@]);
            add_option(&mut out, "--glob", args.str_at("include"));
            "rg"
        } else {
            add_word(&mut out, "-rl");
            add_word(&mut out, "-E");
            assert(text::views(out@) =~= seq!["-rl"@, "-E"@]);
            add_option(&mut out, "--include", args.str_at("include"));
            "grep"
        };
        let ghost before = text::views(out@);
        add_word(&mut out, query);
        add_word(&mut out, self.base_dir.as_str());
        assert(text::views(out@) =~= before + seq![query@, self.base_dir@]);
        SearchCommand { program: program.to_string(), args: out }
    }

    /// Reports a search.
    pub fn report(&self, stdout: &str) -> (r: ToolResult)
        ensures
            r@ == (ResultView { success: true, output: found_files(self.base_dir@, stdout@) }),
    {
        if text::char_count(stdout) == 0 {
            return ToolResult::success("(no matches)".to_string());
        }
        let mut prefix = self.base_dir.clone();
        prefix.append("/");
        let lines = text::lines(stdout);
        let ghost views = text::text_lines(stdout@);
        let ghost want = views.map_values(|l: Seq<char>| without_prefix(l, prefix@));
        let mut files: Vec<String> = Vec::new();
        let mut i: usize = 0;
        while i < lines.len()
            invariant
                i <= lines@.len(),
                text::views(lines@) == views,
                want == views.map_values(|l: Seq<char>| without_prefix(l, prefix@)),
                text::views(files@) =~= want.take(i as int),
            decreases lines@.len() - i,
        {
            assert(views[i as int] == lines@[i as int]@);
            let ghost before = files@;
            let file = match text::strip_prefix(lines[i].as_str(), prefix.as_str()) {
                Some(rest) => rest,
                None => lines[i].clone(),
            };
            assert(file@ == want[i as int]);
            files.push(file);
            assert(text::views(files@) =~= text::views(before).push(want[i as int]));
            i = i + 1;
        }
        assert(views.len() == lines@.len());
        assert(text::views(files@) =~= want);
        ToolResult::success(text::join(&take_results(&files), "\n"))
    }
}

// ---------------------------------------------------------------------------
// Listing a tree
// ---------------------------------------------------------------------------
/// Lists all files below a directory.
pub struct FileList {
    pub base_dir: String,
}

impl Tool for FileList {
    open spec fn tool_name(&self) -> Seq<char> {
        "file_list"@
    }

    open spec fn tool_description(&self) -> Seq<char> {
        "Recursively list all files in a directory with sizes. Useful for understanding skill structure."@
    }

    open spec fn tool_schema(&self) -> JsonView {
        schema::arguments(
            map![
                "path"@ => schema::prop("string"@, "Directory path (default: skill root)"@),
                "max_depth"@ => schema::prop("integer"@, "Max directory depth (default: 5)"@),
            ],
            None,
        )
    }

    open spec fn tool_safety(&self) -> ToolSafety {
        ToolSafety::ReadOnly
    }

    fn name(&self) -> &str {
        "file_list"
    }

    fn description(&self) -> &str {
        "Recursively list all files in a directory with sizes. Useful for understanding skill structure."
    }

    fn parameters_schema(&self) -> Json {
        let mut props = JsonObject::new();
        props.put("path", schema::make_prop("string", "Directory path (default: skill root)"));
        props.put("max_depth", schema::make_prop("integer", "Max directory depth (default: 5)"));
        schema::make_open_arguments(props)
    }

    fn safety(&self) -> ToolSafety {
        ToolSafety::ReadOnly
    }
}

/// An entry of a tree of files.
pub enum FileNode {
    /// A directory and its entries, in ascending order of their names; `None` where it cannot be
    /// read.
    Dir { name: String, entries: Option<Vec<FileNode>> },
    File { name: String, size: u64 },
    /// Neither a directory nor a file.
    Other { name: String },
}

/// The name of an entry.
pub open spec fn node_name(n: FileNode) -> Seq<char> {
    match n {
        FileNode::Dir { name, entries } => name@,
        FileNode::File { name, size } => name@,
        FileNode::Other { name } => name@,
    }
}

/// The names of entries.
pub open spec fn node_names(nodes: Seq<FileNode>) -> Seq<Seq<char>> {
    nodes.map_values(|n: FileNode| node_name(n))
}

impl FileNode {
    /// The name of the entry.
    pub fn name(&self) -> (r: &str)
        ensures
            r@ == node_name(*self),
    {
        match self {
            FileNode::Dir { name, entries } => name.as_str(),
            FileNode::File { name, size } => name.as_str(),
            FileNode::Other { name } => name.as_str(),
        }
    }
}

/// Sorts entries by their names.
pub fn sort_nodes(nodes: Vec<FileNode>) -> (r: Vec<FileNode>)
    ensures
        r@.to_multiset() == nodes@.to_multiset(),
        text::is_sorted(node_names(r@)),
{
    broadcast use vstd::seq_lib::group_to_multiset_ensures;

    let ghost all = nodes@.to_multiset();
    let mut rest = nodes;
    let mut out: Vec<FileNode> = Vec::new();
    assert(out@.to_multiset().add(rest@.to_multiset()) =~= all);
    while rest.len() > 0
        invariant
            out@.to_multiset().add(rest@.to_multiset()) == all,
            text::is_sorted(node_names(out@)),
        decreases rest@.len(),
    {
        let ghost before = rest@;
        match rest.pop() {
            Some(node) => {
                proof {
                    broadcast use vstd::seq_lib::group_to_multiset_ensures;

                    assert(before =~= rest@.push(node));
                    assert(before.to_multiset() =~= rest@.to_multiset().insert(node));
                }
                let ghost sorted = out@;
                insert_node(&mut out, node);
                assert(out@.to_multiset().add(rest@.to_multiset()) =~= sorted.to_multiset().add(
                    before.to_multiset(),
                ));
            },
            None => {},
        }
    }
    proof {
        assert(rest@ =~= seq![]);
        assert(out@.to_multiset() =~= all);
    }
    out
}

fn insert_node(out: &mut Vec<FileNode>, node: FileNode)
    requires
        text::is_sorted(node_names(old(out)@)),
    ensures
        text::is_sorted(node_names(final(out)@)),
        final(out)@.to_multiset() == old(out)@.to_multiset().insert(node),
{
    broadcast use vstd::seq_lib::group_to_multiset_ensures;

    let ghost all = out@;
    let ghost names = node_names(all);
    let ghost name = node_name(node);
    let mut at: usize = 0;
    while at < out.len() && text::is_before(out[at].name(), node.name())
        invariant
            at <= out@.len(),
            out@ == all,
            names == node_names(all),
            name == node_name(node),
            forall|k: int| 0 <= k < at ==> text::precedes(#[trigger] names[k], name),
        decreases out@.len() - at,
    {
        assert(names[at as int] == node_name(all[at as int]));
        at = at + 1;
    }
    proof {
        if at < all.len() {
            assert(names[at as int] == node_name(all[at as int]));
        }
    }
    out.insert(at, node);
    proof {
        let new = node_names(out@);
        assert(new =~= names.insert(at as int, name));
        assert forall|i: int, j: int| 0 <= i < j < new.len() implies !text::precedes(
            #[trigger] new[j],
            #[trigger] new[i],
        ) by {
            if i < at && j == at {
                assert(text::precedes(names[i], name));
                if text::precedes(name, names[i]) {
                    text::lemma_precedes_transitive(name, names[i], name);
                    text::lemma_precedes_irreflexive(name);
                }
            } else if i == at && j > at {
                assert(new[j] == names[j - 1]);
                if text::precedes(names[j - 1], name) {
                    if j - 1 > at {
                        assert(!text::precedes(names[j - 1], names[at as int]));
                        text::lemma_precedes_total(names[at as int], name);
                        text::lemma_precedes_total(names[j - 1], names[at as int]);
                        if names[at as int] == name {
                        } else {
                            text::lemma_precedes_transitive(names[j - 1], name, names[at as int]);
                        }
                    }
                }
            } else {
                let a = if i < at {
                    i
                } else {
                    i - 1
                };
                let b = if j < at {
                    j
                } else {
                    j - 1
                };
                assert(new[i] == names[a]);
                assert(new[j] == names[b]);
            }
        }
        assert(out@ =~= all.insert(at as int, node));
    }
}

/// The lines of a listing, from the entry `i` of a directory on, after those in `out`. Hidden
/// entries are left out, and so is what lies deeper than `max_depth`; a listing that is full gets
/// a note instead of more entries.
pub open spec fn listed(
    entries: Seq<FileNode>,
    i: nat,
    depth: nat,
    max_depth: nat,
    out: Seq<Seq<char>>,
) -> Seq<Seq<char>>
    decreases entries, entries.len() - i,
{
    let indent = spaces(2 * depth);
    if i >= entries.len() {
        out
    } else if out.len() >= MAX_RESULTS {
        out.push(indent + "... (truncated)"@)
    } else if text::begins(node_name(entries[i as int]), "."@) {
        listed(entries, i + 1, depth, max_depth, out)
    } else {
        match entries[i as int] {
            FileNode::Dir { name, entries: inner } => {
                let here = out.push(indent + name@ + "/"@);
                let below = match inner {
                    Some(list) => if depth < max_depth && here.len() < MAX_RESULTS {
                        listed(list@, 0, depth + 1, max_depth, here)
                    } else {
                        here
                    },
                    None => here,
                };
                listed(entries, i + 1, depth, max_depth, below)
            },
            FileNode::File { name, size } => listed(
                entries,
                i + 1,
                depth,
                max_depth,
                out.push(indent + name@ + size_shown(size as nat)),
            ),
            FileNode::Other { name } => listed(entries, i + 1, depth, max_depth, out),
        }
    }
}

/// A listing shows at most as many entries as there may be, and besides at most one note for each
/// level of directories.
pub proof fn lemma_listing_is_bounded(
    entries: Seq<FileNode>,
    i: nat,
    depth: nat,
    max_depth: nat,
    out: Seq<Seq<char>>,
)
    requires
        depth <= max_depth,
        out.len() <= MAX_RESULTS + (max_depth - depth),
    ensures
        listed(entries, i, depth, max_depth, out).len() <= MAX_RESULTS + (max_depth - depth) + 1,
    decreases entries, entries.len() - i,
{
    if i < entries.len() && out.len() < MAX_RESULTS {
        let indent = spaces(2 * depth);
        if text::begins(node_name(entries[i as int]), "."@) {
            lemma_listing_is_bounded(entries, i + 1, depth, max_depth, out);
        } else {
            match entries[i as int] {
                FileNode::Dir { name, entries: inner } => {
                    let here = out.push(indent + name@ + "/"@);
                    let below = match inner {
                        Some(list) => if depth < max_depth && here.len() < MAX_RESULTS {
                            listed(list@, 0, depth + 1, max_depth, here)
                        } else {
                            here
                        },
                        None => here,
                    };
                    if let Some(list) = inner {
                        if depth < max_depth && here.len() < MAX_RESULTS {
                            lemma_listing_is_bounded(list@, 0, depth + 1, max_depth, here);
                        }
                    }
                    lemma_listing_is_bounded(entries, i + 1, depth, max_depth, below);
                },
                FileNode::File { name, size } => {
                    lemma_listing_is_bounded(
                        entries,
                        i + 1,
                        depth,
                        max_depth,
                        out.push(indent + name@ + size_shown(size as nat)),
                    );
                },
                FileNode::Other { name } => {
                    lemma_listing_is_bounded(entries, i + 1, depth, max_depth, out);
                },
            }
        }
    }
}

fn make_indent(depth: u64) -> (r: String)
    ensures
        r@ == spaces(2 * depth as nat),
{
    proof {
        reveal_strlit("  ");
    }
    let mut out = String::new();
    let mut i: u64 = 0;
    assert(out@ =~= spaces(0));
    while i < depth
        invariant
            i <= depth,
            out@ =~= spaces(2 * i as nat),
            "  "@ =~= seq![' ', ' '],
        decreases depth - i,
    {
        out.append("  ");
        i = i + 1;
    }
    out
}

/// Adds the lines of a directory's entries to a listing.
pub fn collect_files(entries: &Vec<FileNode>, depth: u64, max_depth: u64, out: &mut Vec<String>)
    requires
        depth <= max_depth,
    ensures
        text::views(final(out)@) == listed(
            entries@,
            0,
            depth as nat,
            max_depth as nat,
            text::views(old(out)@),
        ),
    decreases entries@,
{
    let ghost want = listed(entries@, 0, depth as nat, max_depth as nat, text::views(out@));
    let indent = make_indent(depth);
    let mut i: usize = 0;
    while i < entries.len()
        invariant
            i <= entries@.len(),
            depth <= max_depth,
            indent@ == spaces(2 * depth as nat),
            want == listed(
                entries@,
                0,
                depth as nat,
                max_depth as nat,
                text::views(old(out)@),
            ),
            want == listed(
                entries@,
                i as nat,
                depth as nat,
                max_depth as nat,
                text::views(out@),
            ),
        decreases entries@.len() - i,
    {
        assert(text::views(out@).len() == out@.len());
        if out.len() >= MAX_RESULTS {
            let mut note = indent.clone();
            note.append("... (truncated)");
            add_word(out, note.as_str());
            return;
        }
        let node = &entries[i];
        if !text::starts_with(node.name(), ".") {
            match node {
                FileNode::Dir { name, entries: inner } => {
                    let mut line = indent.clone();
                    line.append(name.as_str());
                    line.append("/");
                    add_word(out, line.as_str());
                    assert(text::views(out@).len() == out@.len());
                    if let Some(list) = inner {
                        if depth < max_depth && out.len() < MAX_RESULTS {
                            proof {
                                let n = entries@[i as int];
                                assert(decreases_to!(entries@ => n));
                                assert(decreases_to!(n => n->entries));
                                assert(decreases_to!(n->entries => n->entries->0));
                                assert(decreases_to!(n->entries->0 => n->entries->0@));
                            }
                            collect_files(list, depth + 1, max_depth, out);
                        }
                    }
                },
                FileNode::File { name, size } => {
                    let mut line = indent.clone();
                    line.append(name.as_str());
                    line.append(show_size(*size).as_str());
                    add_word(out, line.as_str());
                },
                FileNode::Other { name } => {},
            }
        }
        i = i + 1;
    }
}

/// The deepest level of directories that a call asks for.
pub open spec fn max_depth_of(args: JsonView) -> u64 {
    match json::u64_member(args, "max_depth"@) {
        Some(n) => n,
        None => 5,
    }
}

/// What a call to list a tree comes to.
pub open spec fn list_outcome(
    path_str: Seq<char>,
    is_dir: bool,
    entries: Option<Vec<FileNode>>,
    max_depth: u64,
) -> ResultView {
    if !is_dir {
        ResultView { success: false, output: "not a directory: "@ + path_str }
    } else {
        let lines = match entries {
            Some(list) => listed(list@, 0, 0, max_depth as nat, seq![]),
            None => seq![],
        };
        ResultView {
            success: true,
            output: if lines.len() == 0 {
                "(empty)"@
            } else {
                text::joined(lines, "\n"@)
            },
        }
    }
}

impl FileList {
    /// A tool for the files below a directory.
    pub fn new(base_dir: &str) -> (r: FileList)
        ensures
            r.base_dir@ == base_dir@,
    {
        FileList { base_dir: base_dir.to_string() }
    }

    /// The path that a call is about, and the deepest level that it asks for.
    pub fn plan(&self, args: &Json) -> (r: (String, u64))
        ensures
            r.0@ == path_or_dot(args@),
            r.1 == max_depth_of(args@),
    {
        let max_depth: u64 = match args.u64_at("max_depth") {
            Some(n) => n,
            None => 5,
        };
        (take_path(args), max_depth)
    }

    /// Reports a tree. The entries are those of the directory, `None` where it cannot be read.
    pub fn report(
        path_str: &str,
        is_dir: bool,
        entries: &Option<Vec<FileNode>>,
        max_depth: u64,
    ) -> (r: ToolResult)
        ensures
            r@ == list_outcome(path_str@, is_dir, *entries, max_depth),
    {
        if !is_dir {
            return runtime::outside_error("not a directory: ", path_str);
        }
        let mut lines: Vec<String> = Vec::new();
        assert(text::views(lines@) =~= seq![]);
        if let Some(list) = entries {
            collect_files(list, 0, max_depth, &mut lines);
        }
        assert(text::views(lines@).len() == lines@.len());
        if lines.len() == 0 {
            return ToolResult::success("(empty)".to_string());
        }
        ToolResult::success(text::join(&lines, "\n"))
    }
}

// ---------------------------------------------------------------------------
// What is let in and what is shown
// ---------------------------------------------------------------------------
/// A path lies within a directory where it is the directory, or the directory and a slash begin it;
/// a name that only begins like the directory's does not.
pub proof fn lemma_within_goes_by_whole_steps(
    dir: Seq<char>,
    name: Seq<char>,
    p: Seq<char>,
    c: char,
)
    requires
        dir.len() > 0,
        dir != seq!['/'],
    ensures
        within(dir, dir),
        within(dir, dir + seq!['/'] + name),
        c != '/' ==> !within(dir, dir + seq![c] + name),
        within(dir, p) && p != dir ==> p.len() > dir.len() && p.take(dir.len() as int) == dir && p[
        dir.len() as int] == '/',
        p.len() < dir.len() ==> !within(dir, p),
{
    reveal_strlit("/");
    assert("/"@ =~= seq!['/']);
    let prefix = dir + "/"@;
    let n = dir.len() as int;
    let q = dir + seq!['/'] + name;
    assert(q.subrange(0, n + 1) =~= prefix);
    let r = dir + seq![c] + name;
    if c != '/' && within(dir, r) {
        assert(r.len() > dir.len());
        assert(r.subrange(0, n + 1)[n] == prefix[n]);
        assert(r[n] == c);
    }
    if within(dir, p) && p != dir {
        assert(p.subrange(0, n + 1) == prefix);
        assert(p.take(n) =~= prefix.take(n));
        assert(prefix.take(n) =~= dir);
        assert(p[n] == p.subrange(0, n + 1)[n]);
        assert(prefix[n] == '/');
    }
}

/// What exists is resolved to its canonical path, exactly where that lies within the base directory.
/// What does not exist is resolved to its place below the base directory, exactly where it leads
/// there and its parent, if there is one, lies there too.
pub proof fn lemma_inside_is_let_in(
    base_dir: Seq<char>,
    requested: Seq<char>,
    facts: PathFacts,
    base: String,
    place: String,
)
    requires
        !text::all_white(requested),
        facts.base == Ok::<String, String>(base),
    ensures
        facts.exists && facts.canonical == Ok::<String, String>(place) ==> {
            &&& within(base@, place@) ==> resolved(base_dir, requested, facts) == Ok::<
                Seq<char>,
                Seq<char>,
            >(place@)
            &&& !within(base@, place@) ==> resolved(base_dir, requested, facts) is Err
        },
        !facts.exists && facts.parent == ParentFacts::Present(Ok(place)) ==> {
            let t = text::trimmed(requested);
            let inside = within(base@, place@) && within(
                base@,
                path::lexical(path::below(place@, path::last(t))),
            );
            &&& inside ==> resolved(base_dir, requested, facts) == Ok::<Seq<char>, Seq<char>>(
                path::below(base_dir, t),
            )
            &&& !inside ==> resolved(base_dir, requested, facts) is Err
        },
        !facts.exists && facts.parent is Missing ==> {
            let t = text::trimmed(requested);
            let inside = within(base@, path::lexical(path::below(base@, t)));
            &&& inside ==> resolved(base_dir, requested, facts) == Ok::<Seq<char>, Seq<char>>(
                path::below(base_dir, t),
            )
            &&& !inside ==> resolved(base_dir, requested, facts) is Err
        },
        !facts.exists && facts.parent is NoParent ==> resolved(base_dir, requested, facts) is Err,
{
    text::lemma_blank_is_white(requested);
}

/// Nothing is resolved where the base directory cannot be found, and white space stands for the
/// base directory itself.
pub proof fn lemma_base_directory_is_needed(
    base_dir: Seq<char>,
    requested: Seq<char>,
    facts: PathFacts,
)
    ensures
        text::all_white(requested) ==> resolved(base_dir, requested, facts) == Ok::<
            Seq<char>,
            Seq<char>,
        >(base_dir),
        !text::all_white(requested) && facts.base is Err ==> resolved(base_dir, requested, facts)
            is Err,
{
    text::lemma_blank_is_white(requested);
}

/// A file is shown from the line that is asked for, counted from one, and as many lines as are asked
/// for, as far as there are any; from the first to the last where nothing is asked for.
pub proof fn lemma_lines_that_are_asked_for(args: JsonView, count: nat, offset: u64, limit: u64)
    ensures
        json::u64_member(args, "offset"@) is None ==> first_line(args, count) == 0,
        json::u64_member(args, "offset"@) == Some(offset) && 1 <= offset <= count ==> first_line(
            args,
            count,
        ) == offset - 1,
        json::u64_member(args, "offset"@) == Some(offset) && offset > count ==> first_line(args, count)
            == count,
        json::u64_member(args, "offset"@) == Some(0u64) ==> first_line(args, count) == 0,
        json::u64_member(args, "limit"@) is None ==> end_line(args, count) == count,
        json::u64_member(args, "limit"@) == Some(limit) && first_line(args, count) + limit <= count
            ==> end_line(args, count) == first_line(args, count) + limit,
        json::u64_member(args, "limit"@) == Some(limit) && first_line(args, count) + limit > count
            ==> end_line(args, count) == count,
{
}

/// A line's number ends with its decimal notation, after spaces that make it five characters wide.
pub proof fn lemma_line_numbers_are_padded(n: nat)
    ensures
        line_number(n).len() >= 5,
        line_number(n).len() >= text::decimal(n).len(),
        line_number(n).skip(line_number(n).len() - text::decimal(n).len()) == text::decimal(n),
        forall|k: int|
            0 <= k < line_number(n).len() - text::decimal(n).len() ==> #[trigger] line_number(n)[k]
                == ' ',
        text::decimal(n).len() >= 5 ==> line_number(n) == text::decimal(n),
{
    let d = text::decimal(n);
    assert(line_number(n).skip(line_number(n).len() - d.len()) =~= d);
}

/// Every line between the first and the last is shown, with its number, and ends with a line feed.
pub proof fn lemma_every_line_is_shown(lines: Seq<Seq<char>>, start: int, end: int, i: int) -> (r: (
    Seq<char>,
    Seq<char>,
))
    requires
        0 <= start <= i < end <= lines.len(),
    ensures
        numbered(lines, start, end) == r.0 + (line_number((i + 1) as nat) + "│"@ + lines[i]
            + seq!['\n']) + r.1,
        i == start ==> r.0.len() == 0,
        i == end - 1 ==> r.1.len() == 0,
    decreases end - start,
{
    reveal_strlit("\n");
    assert("\n"@ =~= seq!['\n']);
    let last = line_number(end as nat) + "│"@ + lines[end - 1] + "\n"@;
    if i == end - 1 {
        let a = numbered(lines, start, end - 1);
        assert(numbered(lines, start, end) =~= a + last + seq![]);
        (a, seq![])
    } else {
        let r = lemma_every_line_is_shown(lines, start, end - 1, i);
        let mine = line_number((i + 1) as nat) + "│"@ + lines[i] + seq!['\n'];
        assert(numbered(lines, start, end) =~= r.0 + mine + (r.1 + last));
        (r.0, r.1 + last)
    }
}

/// A file is read exactly where it exists, is a file, is no larger than a mebibyte, and its content
/// could be read; what is shown of it are its lines.
pub proof fn lemma_files_are_read(path_str: Seq<char>, facts: FileFacts, args: JsonView)
    ensures
        read_outcome(path_str, facts, args).success <==> facts.exists && facts.is_file && (
        facts.size matches Some(n) ==> n <= 1048576) && facts.content is Ok,
        read_outcome(path_str, facts, args).success ==> {
            let lines = text::text_lines(facts.content->Ok_0@);
            let shown = numbered(
                lines,
                first_line(args, lines.len()) as int,
                end_line(args, lines.len()) as int,
            );
            read_outcome(path_str, facts, args).output == (if shown.len() == 0 {
                "(empty file)"@
            } else {
                shown
            })
        },
{
}

/// An entry is shown by its name, a directory with a slash, a file with its size.
pub proof fn lemma_entries_are_shown(e: EntryFacts)
    ensures
        e.is_dir && !e.is_file ==> entry_shown(e) == e.name@ + seq!['/'],
        !e.is_dir && e.is_file && e.size is Some ==> entry_shown(e) == e.name@ + ("  ("@
            + text::decimal(e.size->0 as nat) + " bytes)"@),
        !e.is_dir && (!e.is_file || e.size is None) ==> entry_shown(e) == e.name@,
{
    reveal_strlit("/");
    reveal_strlit("");
    assert("/"@ =~= seq!['/']);
    assert(""@ =~= seq![]);
    assert(e.name@ + ""@ =~= e.name@);
    assert(e.name@ + ""@ + ""@ =~= e.name@);
    assert(e.name@ + "/"@ + ""@ =~= e.name@ + seq!['/']);
}

/// A listing shows every entry up to five hundred, each in its place, and a note where there are
/// more.
pub proof fn lemma_listings_show_every_entry(entries: Seq<EntryFacts>, i: int)
    ensures
        entries.len() <= 500 ==> entries_shown(entries).len() == entries.len(),
        entries.len() > 500 ==> entries_shown(entries).len() == 501,
        0 <= i < entries.len() && i < 500 ==> entries_shown(entries)[i] == entry_shown(entries[i]),
{
}

/// A directory is listed exactly where it exists, is a directory and could be read; what is shown of
/// it are its entries, in order.
pub proof fn lemma_directories_are_listed(
    path_str: Seq<char>,
    exists: bool,
    is_dir: bool,
    entries: Result<Vec<EntryFacts>, String>,
)
    ensures
        ls_outcome(path_str, exists, is_dir, entries).success <==> exists && is_dir && entries is Ok,
        exists && is_dir && entries is Ok && entries->Ok_0@.len() > 0 ==> ls_outcome(
            path_str,
            exists,
            is_dir,
            entries,
        ).output == text::joined(text::sorted(entries_shown(entries->Ok_0@)), "\n"@),
        exists && is_dir && entries is Ok && entries->Ok_0@.len() == 0 ==> ls_outcome(
            path_str,
            exists,
            is_dir,
            entries,
        ).output == "(empty directory)"@,
{
}

/// A path that is not given is the base directory itself, and a depth that is not given is five.
pub proof fn lemma_defaults_of_listings(args: JsonView)
    ensures
        json::str_member(args, "path"@) matches Some(p) ==> path_or_dot(args) == p,
        json::str_member(args, "path"@) is None ==> path_or_dot(args) == "."@,
        json::u64_member(args, "max_depth"@) matches Some(n) ==> max_depth_of(args) == n,
        json::u64_member(args, "max_depth"@) is None ==> max_depth_of(args) == 5,
{
}

/// A pattern that goes up is refused, wherever in it that is; any other is taken.
pub proof fn lemma_patterns_do_not_go_up(args: JsonView, before: Seq<char>, after: Seq<char>)
    ensures
        json::str_member(args, "pattern"@) == Some(before + "../"@ + after) ==> glob_refusal(args)
            == Some("path traversal not allowed"@),
        json::str_member(args, "pattern"@) == Some(before + "/.."@) ==> glob_refusal(args) == Some(
            "path traversal not allowed"@,
        ),
        json::str_member(args, "pattern"@) == Some(".."@) ==> glob_refusal(args) == Some(
            "path traversal not allowed"@,
        ),
        json::str_member(args, "pattern"@) matches Some(p) ==> (!text::has(p, ".."@)
            ==> glob_refusal(args) is None),
        json::str_member(args, "pattern"@) is None ==> glob_refusal(args) is Some,
{
    reveal_strlit("../");
    reveal_strlit("/..");
    let up = "../"@;
    let s = before + up + after;
    let n = before.len() as int;
    assert(s.subrange(n, n + 3) =~= up);
    assert(text::occurs_at(s, up, n));
    text::lemma_found_from(s, up, 0);
    let e = before + "/.."@;
    assert(e.subrange(n, n + 3) =~= "/.."@);
    if let Some(p) = json::str_member(args, "pattern"@) {
        if !text::has(p, ".."@) {
            lemma_nothing_goes_up(p);
        }
    }
}

proof fn lemma_nothing_goes_up(p: Seq<char>)
    requires
        !text::has(p, ".."@),
    ensures
        !goes_up(p),
{
    reveal_strlit("..");
    reveal_strlit("../");
    reveal_strlit("..\\");
    reveal_strlit("/..");
    reveal_strlit("\\..");
    text::lemma_found_from(p, ".."@, 0);
    assert("../"@.subrange(0, 2) =~= ".."@);
    lemma_holds_dots(p, "../"@, 0);
    assert("..\\"@.subrange(0, 2) =~= ".."@);
    lemma_holds_dots(p, "..\\"@, 0);
    assert("/.."@.subrange(1, 3) =~= ".."@);
    lemma_holds_dots(p, "/.."@, 1);
    assert("\\.."@.subrange(1, 3) =~= ".."@);
    lemma_holds_dots(p, "\\.."@, 1);
    assert(".."@.subrange(0, 2) =~= ".."@);
    if p == ".."@ {
        assert(text::occurs_at(p, ".."@, 0));
    }
    text::lemma_found_from(p, "../"@, 0);
    text::lemma_found_from(p, "..\\"@, 0);
}

proof fn lemma_holds_dots(p: Seq<char>, pat: Seq<char>, at: int)
    requires
        pat.len() == 3,
        0 <= at <= 1,
        pat.subrange(at, at + 2) =~= ".."@,
        forall|k: int| 0 <= k ==> !text::occurs_at(p, ".."@, k),
    ensures
        forall|k: int| 0 <= k ==> !text::occurs_at(p, pat, k),
{
    reveal_strlit("..");
    assert forall|k: int| 0 <= k implies !text::occurs_at(p, pat, k) by {
        if text::occurs_at(p, pat, k) {
            assert(p.subrange(k, k + 3).subrange(at, at + 2) =~= p.subrange(k + at, k + at + 2));
            assert(text::occurs_at(p, ".."@, k + at));
        }
    }
}

/// Up to five hundred results are shown, in their order; where there are none, that is said.
pub proof fn lemma_results_are_shown(parts: Seq<Seq<char>>)
    ensures
        parts.len() <= 500 ==> first_results(parts) == parts,
        parts.len() > 500 ==> first_results(parts) == parts.take(500),
        parts.len() == 0 ==> results_shown(parts) == "(no matches)"@,
        0 < parts.len() <= 500 ==> results_shown(parts) == text::joined(parts, "\n"@),
{
}

/// A search is told its pattern and its path last, after its filter and its lines of context where
/// they are given.
pub proof fn lemma_searches_are_told_what_to_find(
    fast: bool,
    args: JsonView,
    pattern: Seq<char>,
    p: Seq<char>,
)
    ensures
        ({
            let a = grep_args(fast, args, pattern, p);
            &&& a.len() >= 4
            &&& a[a.len() - 1] == p
            &&& a[a.len() - 2] == pattern
            &&& json::str_member(args, "include"@) matches Some(f) ==> a.len() >= 6 && a[a.len() - 3]
                == f && a[a.len() - 4] == (if fast {
                "--glob"@
            } else {
                "--include"@
            })
        }),
        ({
            let a = search_args(fast, args, pattern, p);
            &&& a.len() >= 4
            &&& a[a.len() - 1] == p
            &&& a[a.len() - 2] == pattern
            &&& json::str_member(args, "include"@) matches Some(f) ==> a.len() >= 6 && a[a.len() - 3]
                == f && a[a.len() - 4] == (if fast {
                "--glob"@
            } else {
                "--include"@
            })
        }),
        json::u64_member(args, "context"@) matches Some(n) ==> (n > 0 ==> context_args(args) == seq![
            "-C"@ + text::decimal(n as nat),
        ]),
        json::u64_member(args, "context"@) is None ==> context_args(args) == Seq::<
            Seq<char>,
        >::empty(),
{
}

/// A search that failed is an error with what it printed; one that found nothing says so; what was
/// found is shown, all of it where it is not too long.
pub proof fn lemma_searches_are_reported(
    base_dir: Seq<char>,
    success: bool,
    code: Option<i32>,
    stdout: Seq<char>,
    stderr: Seq<char>,
)
    ensures
        grep_outcome(base_dir, success, code, stdout, stderr).success <==> success || code == Some(
            1i32,
        ),
        !success && code != Some(1i32) ==> grep_outcome(base_dir, success, code, stdout, stderr).output
            == "grep failed: "@ + stderr,
        (success || code == Some(1i32)) && stdout.len() == 0 ==> grep_outcome(
            base_dir,
            success,
            code,
            stdout,
            stderr,
        ).output == "(no matches)"@,
        (success || code == Some(1i32)) && stdout.len() > 0 && text::byte_len(
            cleaned(base_dir, stdout),
        ) <= 512000 ==> grep_outcome(base_dir, success, code, stdout, stderr).output == cleaned(
            base_dir,
            stdout,
        ),
{
}

/// The output of a search that does not hold the base directory is shown as it is.
pub proof fn lemma_only_the_base_is_left_out(base_dir: Seq<char>, stdout: Seq<char>)
    requires
        base_dir.len() > 0,
        !text::has(stdout, base_dir),
    ensures
        cleaned(base_dir, stdout) == stdout,
{
    reveal_strlit("/");
    let prefix = base_dir + "/"@;
    text::lemma_found_from(stdout, base_dir, 0);
    text::lemma_found_from(stdout, prefix, 0);
    if let Some(k) = text::found(stdout, prefix) {
        let n = base_dir.len() as int;
        assert(stdout.subrange(k, k + n) =~= stdout.subrange(k, k + prefix.len()).take(n));
        assert(prefix.take(n) =~= base_dir);
        assert(text::occurs_at(stdout, base_dir, k));
    }
    assert(stdout.skip(0) =~= stdout);
}

/// A file that was found is told by its path below the base directory.
pub proof fn lemma_found_files_are_told(base_dir: Seq<char>, rest: Seq<char>, other: Seq<char>)
    ensures
        without_prefix(base_dir + seq!['/'] + rest, base_dir + "/"@) == rest,
        !text::begins(other, base_dir + "/"@) ==> without_prefix(other, base_dir + "/"@) == other,
{
    reveal_strlit("/");
    assert("/"@ =~= seq!['/']);
    let prefix = base_dir + "/"@;
    let s = base_dir + seq!['/'] + rest;
    assert(s.subrange(0, prefix.len() as int) =~= prefix);
    assert(s.skip(prefix.len() as int) =~= rest);
}

proof fn lemma_listed_extends(
    entries: Seq<FileNode>,
    i: nat,
    depth: nat,
    max_depth: nat,
    out: Seq<Seq<char>>,
)
    ensures
        listed(entries, i, depth, max_depth, out).len() >= out.len(),
        listed(entries, i, depth, max_depth, out).take(out.len() as int) == out,
    decreases entries, entries.len() - i,
{
    let all = listed(entries, i, depth, max_depth, out);
    let n = out.len() as int;
    let indent = spaces(2 * depth);
    if i >= entries.len() {
        assert(all.take(n) =~= out);
    } else if out.len() >= MAX_RESULTS {
        assert(all.take(n) =~= out);
    } else if text::begins(node_name(entries[i as int]), "."@) {
        lemma_listed_extends(entries, i + 1, depth, max_depth, out);
    } else {
        match entries[i as int] {
            FileNode::Dir { name, entries: inner } => {
                let here = out.push(indent + name@ + "/"@);
                let below = match inner {
                    Some(list) => if depth < max_depth && here.len() < MAX_RESULTS {
                        listed(list@, 0, depth + 1, max_depth, here)
                    } else {
                        here
                    },
                    None => here,
                };
                if let Some(list) = inner {
                    if depth < max_depth && here.len() < MAX_RESULTS {
                        lemma_listed_extends(list@, 0, depth + 1, max_depth, here);
                    }
                }
                assert(below.take(here.len() as int) =~= here);
                lemma_listed_extends(entries, i + 1, depth, max_depth, below);
                assert(all.take(n) =~= all.take(below.len() as int).take(n));
                assert(below.take(n) =~= below.take(here.len() as int).take(n));
                assert(here.take(n) =~= out);
            },
            FileNode::File { name, size } => {
                let here = out.push(indent + name@ + size_shown(size as nat));
                lemma_listed_extends(entries, i + 1, depth, max_depth, here);
                assert(all.take(n) =~= all.take(here.len() as int).take(n));
                assert(here.take(n) =~= out);
            },
            FileNode::Other { name } => {
                lemma_listed_extends(entries, i + 1, depth, max_depth, out);
            },
        }
    }
}

/// An entry of a tree that is not hidden is the next line of the listing, two spaces further in for
/// each level: a file with its size, a directory with a slash and, after it, its own entries unless
/// they lie too deep. Hidden entries have no line.
pub proof fn lemma_trees_are_listed_entry_by_entry(
    entries: Seq<FileNode>,
    i: nat,
    depth: nat,
    max_depth: nat,
    out: Seq<Seq<char>>,
    hidden: Seq<char>,
)
    requires
        i < entries.len(),
        out.len() < 499,
    ensures
        ({
            let name = node_name(entries[i as int]);
            let all = listed(entries, i, depth, max_depth, out);
            let n = out.len() as int;
            &&& name == seq!['.'] + hidden ==> all == listed(entries, i + 1, depth, max_depth, out)
            &&& (name.len() == 0 || name[0] != '.') ==> match entries[i as int] {
                FileNode::File { name: f, size } => {
                    &&& all.len() > n
                    &&& all.take(n) == out
                    &&& all[n] == spaces(2 * depth) + f@ + ("  ("@ + text::decimal(size as nat)
                        + " bytes)"@)
                },
                FileNode::Dir { name: f, entries: inner } => {
                    let here = out.push(spaces(2 * depth) + f@ + seq!['/']);
                    &&& all.len() > n
                    &&& all.take(n + 1) == here
                    &&& inner is Some && depth < max_depth ==> all == listed(
                        entries,
                        i + 1,
                        depth,
                        max_depth,
                        listed(inner->0@, 0, depth + 1, max_depth, here),
                    )
                    &&& inner is None || depth >= max_depth ==> all == listed(
                        entries,
                        i + 1,
                        depth,
                        max_depth,
                        here,
                    )
                },
                FileNode::Other { name: f } => all == listed(
                    entries,
                    i + 1,
                    depth,
                    max_depth,
                    out,
                ),
            }
        }),
        listed(entries, entries.len(), depth, max_depth, out) == out,
{
    reveal_strlit(".");
    reveal_strlit("/");
    assert("/"@ =~= seq!['/']);
    let name = node_name(entries[i as int]);
    let all = listed(entries, i, depth, max_depth, out);
    let n = out.len() as int;
    if name.len() > 0 {
        assert(name.subrange(0, 1) =~= seq![name[0]]);
        assert(name.subrange(0, 1)[0] == name[0]);
        assert("."@ =~= seq!['.']);
        assert("."@[0] == '.');
    }
    if name == seq!['.'] + hidden {
        assert(name[0] == '.');
        assert(text::begins(name, "."@));
    }
    if name.len() == 0 || name[0] != '.' {
        assert(!text::begins(name, "."@));
        match entries[i as int] {
            FileNode::File { name: f, size } => {
                let here = out.push(spaces(2 * depth) + f@ + size_shown(size as nat));
                lemma_listed_extends(entries, i + 1, depth, max_depth, here);
                assert(all.take(n) =~= all.take(n + 1).take(n));
                assert(here.take(n) =~= out);
                assert(all[n] == all.take(n + 1)[n]);
            },
            FileNode::Dir { name: f, entries: inner } => {
                let here = out.push(spaces(2 * depth) + f@ + seq!['/']);
                match inner {
                    Some(list) => {
                        if depth < max_depth {
                            let below = listed(list@, 0, depth + 1, max_depth, here);
                            lemma_listed_extends(list@, 0, depth + 1, max_depth, here);
                            lemma_listed_extends(entries, i + 1, depth, max_depth, below);
                            assert(all.take(n + 1) =~= all.take(below.len() as int).take(n + 1));
                        } else {
                            lemma_listed_extends(entries, i + 1, depth, max_depth, here);
                        }
                    },
                    None => {
                        lemma_listed_extends(entries, i + 1, depth, max_depth, here);
                    },
                }
            },
            FileNode::Other { name: f } => {},
        }
    }
}

/// A tree is listed where the path is a directory: its lines, or a note that there are none.
pub proof fn lemma_trees_are_listed(
    path_str: Seq<char>,
    is_dir: bool,
    entries: Option<Vec<FileNode>>,
    max_depth: u64,
)
    ensures
        list_outcome(path_str, is_dir, entries, max_depth).success == is_dir,
        is_dir && entries is Some ==> {
            let lines = listed(entries->0@, 0, 0, max_depth as nat, seq![]);
            list_outcome(path_str, is_dir, entries, max_depth).output == (if lines.len() == 0 {
                "(empty)"@
            } else {
                text::joined(lines, "\n"@)
            })
        },
{
}

/// What the model is told of the tool file_read: its arguments, their types, and which it must give.
pub proof fn lemma_arguments_of_file_read(tool: FileRead)
    ensures
        tool.tool_name() == "file_read"@,
        tool.tool_safety() == ToolSafety::ReadOnly,
        json::member_in(tool.tool_schema(), "properties"@, "path"@) matches Some(p)
            && json::str_member(p, "type"@) == Some("string"@),
        json::member_in(tool.tool_schema(), "properties"@, "offset"@) matches Some(p)
            && json::str_member(p, "type"@) == Some("integer"@),
        json::member_in(tool.tool_schema(), "properties"@, "limit"@) matches Some(p)
            && json::str_member(p, "type"@) == Some("integer"@),
        json::member(tool.tool_schema(), "required"@) == Some(schema::texts(seq!["path"@])),
{
    reveal_strlit("type");
    reveal_strlit("properties");
    reveal_strlit("required");
    reveal_strlit("description");
    reveal_strlit("enum");
    reveal_strlit("items");
    reveal_strlit("path");
    reveal_strlit("offset");
    reveal_strlit("limit");
    assert("type"@.len() == 4 && "properties"@.len() == 10 && "required"@.len() == 8 && "description"@.len() == 11 && "enum"@.len() == 4 && "items"@.len() == 5 && "path"@.len() == 4 && "offset"@.len() == 6 && "limit"@.len() == 5);
    assert("enum"@[0] == 'e' && "items"@[0] == 'i' && "limit"@[0] == 'l' && "path"@[0] == 'p' && "type"@[0] == 't');
}

/// What the model is told of the tool ls: its arguments, their types, and which it must give.
pub proof fn lemma_arguments_of_ls(tool: Ls)
    ensures
        tool.tool_name() == "ls"@,
        tool.tool_safety() == ToolSafety::ReadOnly,
        json::member_in(tool.tool_schema(), "properties"@, "path"@) matches Some(p)
            && json::str_member(p, "type"@) == Some("string"@),
        json::member(tool.tool_schema(), "required"@) is None,
{
    reveal_strlit("type");
    reveal_strlit("properties");
    reveal_strlit("required");
    reveal_strlit("description");
    reveal_strlit("enum");
    reveal_strlit("items");
    reveal_strlit("path");
    assert("type"@.len() == 4 && "properties"@.len() == 10 && "required"@.len() == 8 && "description"@.len() == 11 && "enum"@.len() == 4 && "items"@.len() == 5 && "path"@.len() == 4);
    assert("enum"@[0] == 'e' && "path"@[0] == 'p' && "type"@[0] == 't');
}

/// What the model is told of the tool glob: its arguments, their types, and which it must give.
pub proof fn lemma_arguments_of_glob(tool: Glob)
    ensures
        tool.tool_name() == "glob"@,
        tool.tool_safety() == ToolSafety::ReadOnly,
        json::member_in(tool.tool_schema(), "properties"@, "pattern"@) matches Some(p)
            && json::str_member(p, "type"@) == Some("string"@),
        json::member(tool.tool_schema(), "required"@) == Some(schema::texts(seq!["pattern"@])),
{
    reveal_strlit("type");
    reveal_strlit("properties");
    reveal_strlit("required");
    reveal_strlit("description");
    reveal_strlit("enum");
    reveal_strlit("items");
    reveal_strlit("pattern");
    assert("type"@.len() == 4 && "properties"@.len() == 10 && "required"@.len() == 8 && "description"@.len() == 11 && "enum"@.len() == 4 && "items"@.len() == 5 && "pattern"@.len() == 7);
    assert("enum"@[0] == 'e' && "type"@[0] == 't');
}

/// What the model is told of the tool grep: its arguments, their types, and which it must give.
pub proof fn lemma_arguments_of_grep(tool: Grep)
    ensures
        tool.tool_name() == "grep"@,
        tool.tool_safety() == ToolSafety::ReadOnly,
        json::member_in(tool.tool_schema(), "properties"@, "pattern"@) matches Some(p)
            && json::str_member(p, "type"@) == Some("string"@),
        json::member_in(tool.tool_schema(), "properties"@, "path"@) matches Some(p)
            && json::str_member(p, "type"@) == Some("string"@),
        json::member_in(tool.tool_schema(), "properties"@, "include"@) matches Some(p)
            && json::str_member(p, "type"@) == Some("string"@),
        json::member_in(tool.tool_schema(), "properties"@, "context"@) matches Some(p)
            && json::str_member(p, "type"@) == Some("integer"@),
        json::member(tool.tool_schema(), "required"@) == Some(schema::texts(seq!["pattern"@])),
{
    reveal_strlit("type");
    reveal_strlit("properties");
    reveal_strlit("required");
    reveal_strlit("description");
    reveal_strlit("enum");
    reveal_strlit("items");
    reveal_strlit("pattern");
    reveal_strlit("path");
    reveal_strlit("include");
    reveal_strlit("context");
    assert("type"@.len() == 4 && "properties"@.len() == 10 && "required"@.len() == 8 && "description"@.len() == 11 && "enum"@.len() == 4 && "items"@.len() == 5 && "pattern"@.len() == 7 && "path"@.len() == 4 && "include"@.len() == 7 && "context"@.len() == 7);
    assert("context"@[0] == 'c' && "enum"@[0] == 'e' && "include"@[0] == 'i' && "path"@[0] == 'p' && "pattern"@[0] == 'p' && "type"@[0] == 't');
}

/// What the model is told of the tool content_search: its arguments, their types, and which it must give.
pub proof fn lemma_arguments_of_content_search(tool: ContentSearch)
    ensures
        tool.tool_name() == "content_search"@,
        tool.tool_safety() == ToolSafety::ReadOnly,
        json::member_in(tool.tool_schema(), "properties"@, "query"@) matches Some(p)
            && json::str_member(p, "type"@) == Some("string"@),
        json::member_in(tool.tool_schema(), "properties"@, "include"@) matches Some(p)
            && json::str_member(p, "type"@) == Some("string"@),
        json::member(tool.tool_schema(), "required"@) == Some(schema::texts(seq!["query"@])),
{
    reveal_strlit("type");
    reveal_strlit("properties");
    reveal_strlit("required");
    reveal_strlit("description");
    reveal_strlit("enum");
    reveal_strlit("items");
    reveal_strlit("query");
    reveal_strlit("include");
    assert("type"@.len() == 4 && "properties"@.len() == 10 && "required"@.len() == 8 && "description"@.len() == 11 && "enum"@.len() == 4 && "items"@.len() == 5 && "query"@.len() == 5 && "include"@.len() == 7);
    assert("enum"@[0] == 'e' && "items"@[0] == 'i' && "query"@[0] == 'q' && "type"@[0] == 't');
}

/// What the model is told of the tool file_list: its arguments, their types, and which it must give.
pub proof fn lemma_arguments_of_file_list(tool: FileList)
    ensures
        tool.tool_name() == "file_list"@,
        tool.tool_safety() == ToolSafety::ReadOnly,
        json::member_in(tool.tool_schema(), "properties"@, "path"@) matches Some(p)
            && json::str_member(p, "type"@) == Some("string"@),
        json::member_in(tool.tool_schema(), "properties"@, "max_depth"@) matches Some(p)
            && json::str_member(p, "type"@) == Some("integer"@),
        json::member(tool.tool_schema(), "required"@) is None,
{
    reveal_strlit("type");
    reveal_strlit("properties");
    reveal_strlit("required");
    reveal_strlit("description");
    reveal_strlit("enum");
    reveal_strlit("items");
    reveal_strlit("path");
    reveal_strlit("max_depth");
    assert("type"@.len() == 4 && "properties"@.len() == 10 && "required"@.len() == 8 && "description"@.len() == 11 && "enum"@.len() == 4 && "items"@.len() == 5 && "path"@.len() == 4 && "max_depth"@.len() == 9);
    assert("enum"@[0] == 'e' && "path"@[0] == 'p' && "type"@[0] == 't');
}

/// The base directory is left out of every path of a search's output.
pub proof fn lemma_base_is_left_out(base_dir: Seq<char>, rest: Seq<char>)
    requires
        base_dir.len() > 0,
        !text::has(rest, base_dir),
    ensures
        cleaned(base_dir, base_dir + seq!['/'] + rest) == rest,
{
    reveal_strlit("/");
    reveal_strlit("");
    assert("/"@ =~= seq!['/']);
    assert(""@ =~= seq![]);
    let prefix = base_dir + "/"@;
    let s = base_dir + seq!['/'] + rest;
    let none = Seq::<char>::empty();
    assert(none + prefix + rest =~= s);
    text::lemma_found_from(s, prefix, 0);
    assert(s.subrange(0, prefix.len() as int) =~= prefix);
    assert(text::occurs_at(s, prefix, 0));
    text::lemma_replaced_in_place(none, rest, prefix, ""@);
    lemma_no_base_no_prefix(base_dir, rest);
    assert(none + ""@ + rest =~= rest);
    assert(rest.skip(0) =~= rest);
}

proof fn lemma_no_base_no_prefix(base_dir: Seq<char>, s: Seq<char>)
    requires
        base_dir.len() > 0,
        !text::has(s, base_dir),
    ensures
        !text::has(s, base_dir + "/"@),
        text::replaced(s, base_dir, ""@) == s,
        text::replaced(s, base_dir + "/"@, ""@) == s,
{
    reveal_strlit("/");
    let prefix = base_dir + "/"@;
    text::lemma_found_from(s, base_dir, 0);
    text::lemma_found_from(s, prefix, 0);
    if let Some(k) = text::found(s, prefix) {
        let n = base_dir.len() as int;
        assert(s.subrange(k, k + n) =~= s.subrange(k, k + prefix.len()).take(n));
        assert(prefix.take(n) =~= base_dir);
        assert(text::occurs_at(s, base_dir, k));
    }
    assert(s.skip(0) =~= s);
}

/// In the root directory lies every absolute path.
pub proof fn lemma_root_holds_everything(rest: Seq<char>, c: char)
    ensures
        within(seq!['/'], seq!['/'] + rest),
        c != '/' ==> !within(seq!['/'], seq![c] + rest),
{
    reveal_strlit("/");
    assert("/"@ =~= seq!['/']);
    let p = seq!['/'] + rest;
    assert(p.subrange(0, 1) =~= "/"@);
    let q = seq![c] + rest;
    let two = seq!['/'] + "/"@;
    if c != '/' && within(seq!['/'], q) {
        assert(q[0] == c);
        if q == seq!['/'] {
            assert(q[0] == '/');
        } else if text::begins(q, two) {
            assert(q.subrange(0, 2)[0] == two[0]);
        } else {
            assert(q.subrange(0, 1)[0] == "/"@[0]);
        }
    }
}

/// What cannot be read, listed or resolved is told with the reason.
pub proof fn lemma_failures_say_why(
    path_str: Seq<char>,
    facts: FileFacts,
    args: JsonView,
    entries: Result<Vec<EntryFacts>, String>,
    base_dir: Seq<char>,
    requested: Seq<char>,
    places: PathFacts,
)
    ensures
        !facts.exists ==> read_outcome(path_str, facts, args).output == "file not found: "@
            + path_str,
        facts.exists && !facts.is_file ==> read_outcome(path_str, facts, args).output
            == "not a file: "@ + path_str + " (use ls to list directories)"@,
        facts.exists && facts.is_file && facts.size is None ==> (facts.content matches Err(e)
            ==> read_outcome(path_str, facts, args).output == "read error: "@ + e@),
        facts.exists && facts.is_file ==> (facts.size matches Some(n) ==> (n > 1048576
            ==> read_outcome(path_str, facts, args).output == "file too large: "@ + text::decimal(
            n as nat,
        ) + " bytes (max "@ + text::decimal(1048576)
            + "). Use offset/limit to read portions."@)),
        ls_outcome(path_str, false, true, entries).output == "directory not found: "@ + path_str,
        ls_outcome(path_str, true, false, entries).output == "not a directory: "@ + path_str
            + " (use file_read to read files)"@,
        entries matches Err(e) ==> ls_outcome(path_str, true, true, entries).output
            == "read_dir error: "@ + e@,
        !text::all_white(requested) ==> {
            &&& places.base matches Err(e) ==> resolved(base_dir, requested, places) == Err::<
                Seq<char>,
                Seq<char>,
            >("base directory error: "@ + e@)
            &&& places.base is Ok && !places.exists && places.parent is NoParent ==> resolved(
                base_dir,
                requested,
                places,
            ) == Err::<Seq<char>, Seq<char>>("invalid path"@)
            &&& places.base matches Ok(b) ==> (places.exists ==> (places.canonical matches Ok(p) ==> (
            !within(b@, p@) ==> resolved(base_dir, requested, places) == Err::<Seq<char>, Seq<char>>(
                "path outside allowed directory: "@ + text::trimmed(requested),
            ))))
        },
        list_outcome(path_str, false, None, 0).output == "not a directory: "@ + path_str,
{
    text::lemma_blank_is_white(requested);
}

/// A search of lines asks for line numbers and, of the faster program, for at most a hundred lines
/// of a file; a search of files asks for their names only.
pub proof fn lemma_searches_are_run_with_their_options(
    args: JsonView,
    pattern: Seq<char>,
    p: Seq<char>,
)
    ensures
        grep_args(true, args, pattern, p).take(4) == seq![
            "--no-heading"@,
            "--line-number"@,
            "--color=never"@,
            "--max-count=100"@,
        ],
        grep_args(false, args, pattern, p).take(2) == seq!["-rn"@, "-E"@],
        search_args(true, args, pattern, p).take(2) == seq![
            "--files-with-matches"@,
            "--color=never"@,
        ],
        search_args(false, args, pattern, p).take(2) == seq!["-rl"@, "-E"@],
        json::u64_member(args, "context"@) matches Some(n) ==> (n > 0 ==> grep_args(
            true,
            args,
            pattern,
            p,
        )[4] == "-C"@ + text::decimal(n as nat) && grep_args(false, args, pattern, p)[2] == "-C"@
            + text::decimal(n as nat)),
{
    assert(grep_args(true, args, pattern, p).take(4) =~= seq![
        "--no-heading"@,
        "--line-number"@,
        "--color=never"@,
        "--max-count=100"@,
    ]);
    assert(grep_args(false, args, pattern, p).take(2) =~= seq!["-rn"@, "-E"@]);
    assert(search_args(true, args, pattern, p).take(2) =~= seq![
        "--files-with-matches"@,
        "--color=never"@,
    ]);
    assert(search_args(false, args, pattern, p).take(2) =~= seq!["-rl"@, "-E"@]);
}

/// A listing that is cut short says so: a tree where it is full, a directory and a search with the
/// limit that was reached.
pub proof fn lemma_cut_listings_say_so(
    nodes: Seq<FileNode>,
    i: nat,
    depth: nat,
    max_depth: nat,
    out: Seq<Seq<char>>,
    entries: Seq<EntryFacts>,
    clean: Seq<char>,
)
    ensures
        i < nodes.len() && out.len() >= 500 ==> listed(nodes, i, depth, max_depth, out) == out.push(
            spaces(2 * depth) + "... (truncated)"@,
        ),
        entries.len() > 500 ==> entries_shown(entries)[500] == "... (truncated at "@
            + text::decimal(500) + " entries)"@,
        text::byte_len(clean) > 512000 ==> search_shown(clean) == text::byte_prefix(clean, 512000)
            + "...\n(truncated at "@ + text::decimal(512000) + " bytes)"@,
{
}

} // verus!
