//! The tools that read files.
use krust_operator::json::Json;
use krust_operator::tools::fs::{
    candidate_path, does_window_fit, resolve_safe_path, sort_nodes, ContentSearch, EntryFacts,
    FileFacts, FileList, FileNode, FileRead, Glob, Grep, Ls, ParentFacts, PathFacts,
};

fn read(s: &str) -> Json {
    match Json::parse(s) {
        Ok(j) => j,
        Err(e) => panic!("{}", e),
    }
}

fn facts(exists: bool, canonical: &str, parent: ParentFacts) -> PathFacts {
    PathFacts {
        base: Ok("/skill".to_string()),
        exists,
        canonical: Ok(canonical.to_string()),
        parent,
    }
}

#[test]
fn paths_stay_inside() {
    let resolve = |p: &str, f: PathFacts| resolve_safe_path("/skill", p, &f);
    let inside = || ParentFacts::Present(Ok("/skill".to_string()));
    assert_eq!(candidate_path("/skill", " "), None);
    assert_eq!(candidate_path("/skill", "a/b"), Some("/skill/a/b".to_string()));
    assert_eq!(candidate_path("/skill", "/etc"), Some("/etc".to_string()));
    assert_eq!(resolve("", facts(true, "/x", inside())), Ok("/skill".to_string()));
    assert_eq!(resolve("a", facts(true, "/skill/a", inside())), Ok("/skill/a".to_string()));
    assert_eq!(
        resolve("../etc", facts(true, "/etc", inside())),
        Err("path outside allowed directory: ../etc".to_string())
    );
    assert_eq!(
        resolve("../skill2", facts(true, "/skill2", inside())),
        Err("path outside allowed directory: ../skill2".to_string())
    );
    assert_eq!(resolve("new", facts(false, "", inside())), Ok("/skill/new".to_string()));
    assert_eq!(resolve("x/new", facts(false, "", ParentFacts::Missing)), Ok("/skill/x/new".to_string()));
    for escape in ["../no-such-dir/x", "a/../../x/y", "/no/such", "/skill/../x/y", "/skill2/x/y"] {
        assert_eq!(
            resolve(escape, facts(false, "", ParentFacts::Missing)),
            Err(format!("path outside allowed directory: {}", escape))
        );
    }
    for stay in ["a/../x/y", "./a//b", "../skill/x/y"] {
        assert_eq!(
            resolve(stay, facts(false, "", ParentFacts::Missing)),
            Ok(format!("/skill/{}", stay))
        );
    }
    assert_eq!(
        resolve("/skill/x/y", facts(false, "", ParentFacts::Missing)),
        Ok("/skill/x/y".to_string())
    );
    assert_eq!(
        resolve("..", facts(false, "", inside())),
        Err("path outside allowed directory: ..".to_string())
    );
    assert_eq!(resolve("/", facts(false, "", ParentFacts::NoParent)), Err("invalid path".to_string()));
    assert_eq!(
        resolve("../new", facts(false, "", ParentFacts::Present(Ok("/".to_string())))),
        Err("path outside allowed directory: ../new".to_string())
    );
    assert_eq!(
        resolve("p", facts(false, "", ParentFacts::Present(Err("denied".to_string())))),
        Err("path error: denied".to_string())
    );
    let mut bad = facts(true, "", inside());
    bad.base = Err("gone".to_string());
    assert_eq!(resolve("p", bad), Err("base directory error: gone".to_string()));
    let mut bad = facts(true, "", inside());
    bad.canonical = Err("loop".to_string());
    assert_eq!(resolve("p", bad), Err("path error: loop".to_string()));
}

fn file(content: &str) -> FileFacts {
    FileFacts {
        exists: true,
        is_file: true,
        size: Some(content.len() as u64),
        content: Ok(content.to_string()),
    }
}

#[test]
fn files_are_shown_with_line_numbers() {
    let tool = FileRead::new("/skill");
    assert!(tool.plan(&read("{}")).is_err());
    assert!(matches!(tool.plan(&read(r#"{"path": "a"}"#)), Ok(p) if p == "a"));
    let args = read(r#"{"offset": 2, "limit": 1}"#);
    assert!(does_window_fit(&args, "a\nb\nc\n"));
    assert_eq!(FileRead::report("f", &file("a\nb\nc\n"), &args).output, "    2│b\n");
    assert_eq!(FileRead::report("f", &file("a\nb\n"), &read("{}")).output, "    1│a\n    2│b\n");
    assert_eq!(FileRead::report("f", &file(""), &read("{}")).output, "(empty file)");
    assert_eq!(FileRead::report("f", &file("a"), &read(r#"{"offset": 9}"#)).output, "(empty file)");
    assert!(!does_window_fit(&read(r#"{"offset": 2, "limit": 18446744073709551615}"#), "a\nb"));
}

#[test]
fn files_that_are_not_read() {
    let args = read("{}");
    let mut f = file("x");
    f.exists = false;
    assert_eq!(FileRead::report("f", &f, &args).output, "file not found: f");
    let mut f = file("x");
    f.is_file = false;
    assert_eq!(FileRead::report("f", &f, &args).output, "not a file: f (use ls to list directories)");
    let mut f = file("x");
    f.size = Some(1_048_577);
    assert_eq!(
        FileRead::report("f", &f, &args).output,
        "file too large: 1048577 bytes (max 1048576). Use offset/limit to read portions."
    );
    let mut f = file("x");
    f.content = Err("e".to_string());
    assert_eq!(FileRead::report("f", &f, &args).output, "read error: e");
}

fn entry(name: &str, is_dir: bool) -> EntryFacts {
    EntryFacts { name: name.to_string(), is_dir, is_file: !is_dir, size: Some(3) }
}

#[test]
fn directories_are_listed() {
    assert_eq!(Ls::new("/skill").plan(&read("{}")), ".");
    let list = Ok(vec![entry("b", false), entry("a", true)]);
    assert_eq!(Ls::report("d", true, true, &list).output, "a/\nb  (3 bytes)");
    assert_eq!(Ls::report("d", true, true, &Ok(vec![])).output, "(empty directory)");
    assert_eq!(Ls::report("d", false, true, &list).output, "directory not found: d");
    assert_eq!(
        Ls::report("d", true, false, &list).output,
        "not a directory: d (use file_read to read files)"
    );
    assert_eq!(Ls::report("d", true, true, &Err("e".to_string())).output, "read_dir error: e");
    let many = Ok((0..501).map(|i| entry(&format!("f{:03}", i), true)).collect());
    let lines: Vec<String> =
        Ls::report("d", true, true, &many).output.lines().map(|l| l.to_string()).collect();
    assert_eq!(lines.len(), 501);
    assert!(lines.contains(&"... (truncated at 500 entries)".to_string()));
    assert!(!lines.contains(&"f500/".to_string()));
}

#[test]
fn names_are_matched() {
    let tool = Glob::new("/skill");
    assert!(matches!(tool.plan(&read(r#"{"pattern": "**/*.md"}"#)), Ok(p) if p == "/skill/**/*.md"));
    assert!(tool.plan(&read(r#"{"pattern": "../x"}"#)).is_err());
    for up in ["..", "a/..", "a/../b"] {
        match tool.plan(&read(&format!(r#"{{"pattern": "{}"}}"#, up))) {
            Ok(p) => panic!("{}", p),
            Err(e) => assert_eq!(e.output, "path traversal not allowed"),
        }
    }
    assert!(tool.plan(&read(r#"{"pattern": "a..b"}"#)).is_ok());
    assert!(tool.plan(&read("{}")).is_err());
    assert_eq!(Glob::report(&vec![]).output, "(no matches)");
    assert_eq!(Glob::report(&vec!["a".to_string(), "b".to_string()]).output, "a\nb");
}

#[test]
fn contents_are_searched() {
    let tool = Grep::new("/skill");
    let args = read(r#"{"pattern": "p", "context": 2, "include": "*.md"}"#);
    assert!(matches!(tool.plan(&args), Ok((p, d)) if p == "p" && d == "."));
    assert!(tool.plan(&read("{}")).is_err());
    let fast = Grep::command(true, &args, "p", "/skill");
    assert_eq!(fast.program, "rg");
    assert_eq!(
        fast.args,
        vec![
            "--no-heading",
            "--line-number",
            "--color=never",
            "--max-count=100",
            "-C2",
            "--glob",
            "*.md",
            "p",
            "/skill"
        ]
    );
    let slow = Grep::command(false, &read(r#"{"pattern": "p"}"#), "p", "/skill");
    assert_eq!(slow.program, "grep");
    assert_eq!(slow.args, vec!["-rn", "-E", "p", "/skill"]);
    assert!(tool.can_report("/skill/a.md:1:p\n"));
    assert_eq!(tool.report(true, Some(0), "/skill/a.md:1:p\n", "").output, "a.md:1:p\n");
    assert_eq!(tool.report(false, Some(1), "", "").output, "(no matches)");
    assert_eq!(tool.report(false, Some(2), "", "bad").output, "grep failed: bad");
    let long = "x".repeat(512_001);
    assert!(tool.report(true, Some(0), &long, "").output.ends_with("...\n(truncated at 512000 bytes)"));
    assert!(!tool.can_report(&format!("x{}", "ä".repeat(256_000))));
}

#[test]
fn files_are_found_by_their_contents() {
    let tool = ContentSearch::new("/skill");
    let args = read(r#"{"query": "q"}"#);
    assert!(matches!(tool.plan(&args), Ok(q) if q == "q"));
    assert!(tool.plan(&read("{}")).is_err());
    assert_eq!(
        tool.command(true, &args, "q").args,
        vec!["--files-with-matches", "--color=never", "q", "/skill"]
    );
    assert_eq!(tool.command(false, &args, "q").args, vec!["-rl", "-E", "q", "/skill"]);
    assert_eq!(tool.report("/skill/a\n/other/b\n").output, "a\n/other/b");
    assert_eq!(tool.report("").output, "(no matches)");
}

#[test]
fn trees_are_listed() {
    assert_eq!(FileList::new("/skill").plan(&read("{}")), (".".to_string(), 5));
    let inner = sort_nodes(vec![
        FileNode::File { name: "b".to_string(), size: 2 },
        FileNode::File { name: "a".to_string(), size: 1 },
    ]);
    let tree = Some(vec![
        FileNode::File { name: ".hidden".to_string(), size: 1 },
        FileNode::Dir { name: "d".to_string(), entries: Some(inner) },
        FileNode::Dir { name: "locked".to_string(), entries: None },
        FileNode::Other { name: "socket".to_string() },
        FileNode::File { name: "z".to_string(), size: 9 },
    ]);
    assert_eq!(
        FileList::report("p", true, &tree, 5).output,
        "d/\n  a  (1 bytes)\n  b  (2 bytes)\nlocked/\nz  (9 bytes)"
    );
    assert_eq!(FileList::report("p", true, &tree, 0).output, "d/\nlocked/\nz  (9 bytes)");
    assert_eq!(FileList::report("p", true, &Some(vec![]), 5).output, "(empty)");
    assert_eq!(FileList::report("p", false, &None, 5).output, "not a directory: p");
    let many = Some((0..600).map(|i| FileNode::File { name: format!("f{}", i), size: 0 }).collect());
    let output = FileList::report("p", true, &many, 5).output;
    assert_eq!(output.lines().count(), 501);
    assert!(output.ends_with("... (truncated)"));
}
