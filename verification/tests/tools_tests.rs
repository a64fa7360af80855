use codey::tools::list_files::ListFiles;
use codey::tools::read_file::ReadFile;
use codey::tools::run_command::{CommandOutcome, CommandPlan, CommandRun, RunCommand};
use codey::tools::search_text_in_files::{SearchPlan, SearchRequest, SearchTextInFiles, MAX_DEPTH};
use codey::tools::walk::{DirEntry, DirWalk, EntryKind, Listing, WalkAction, WalkStatus};
use codey::tools::write_file::{WriteFile, WriteOutcome};
use codey::tools::{
    has_parent_dir, ArgEntry, ArgValue, ParamType, Tool, ToolArgs, ToolKind, ToolRegistry,
};

fn args(pairs: Vec<(&str, ArgValue)>, text: &str) -> ToolArgs {
    ToolArgs {
        entries: pairs
            .into_iter()
            .map(|(k, v)| ArgEntry { key: k.to_string(), value: v })
            .collect(),
        text: text.to_string(),
    }
}

fn text(s: &str) -> ArgValue {
    ArgValue::Text(s.to_string())
}

// ---- list_files

#[test]
fn name_returns_list_files() {
    assert_eq!(ListFiles.name(), "list_files");
}

#[test]
fn list_files_description_not_empty() {
    assert!(!ListFiles.description().is_empty());
}

#[test]
fn input_schema_has_optional_root() {
    let schema = ListFiles.input_schema();
    assert_eq!(schema.schema_type(), "object");
    assert!(schema.property("root").is_some());
    assert!(schema.required.is_none());
}

#[test]
fn list_files_root_defaults_to_current_dir() {
    assert_eq!(ListFiles::root(&ToolArgs::empty()), ".");
    let a = args(vec![("root", text("/tmp/x"))], r#"{"root":"/tmp/x"}"#);
    assert_eq!(ListFiles::root(&a), "/tmp/x");
    let b = args(vec![("root", ArgValue::Count(3))], r#"{"root":3}"#);
    assert_eq!(ListFiles::root(&b), ".");
}

#[test]
fn list_files_finish_joins_paths() {
    let files = vec!["d/a.txt".to_string(), "d/b.txt".to_string(), "d/sub/c.txt".to_string()];
    assert_eq!(ListFiles::finish("d", Some(files)).unwrap(), "d/a.txt\nd/b.txt\nd/sub/c.txt");
    assert_eq!(ListFiles::finish("d", Some(vec![])).unwrap(), "");
    assert_eq!(ListFiles::finish("d", None).unwrap_err(), "failed to list files under \"d\"");
}

fn run_walk(root: &str, policy_for_list: bool, tree: &dyn Fn(&str) -> Listing) -> Option<(Vec<String>, Vec<(String, usize)>)> {
    let policy = if policy_for_list {
        ListFiles::walk_policy()
    } else {
        SearchTextInFiles::walk_policy()
    };
    let mut walk = DirWalk::new(root.to_string(), policy);
    let mut visited = Vec::new();
    let mut listed = Vec::new();
    loop {
        match walk.step() {
            WalkAction::List { path, depth } => {
                listed.push((path.clone(), depth));
                walk.on_listing(tree(&path));
            }
            WalkAction::Visit { path } => visited.push(path),
            WalkAction::Skip => {}
            WalkAction::Done => return Some((visited, listed)),
            WalkAction::Failed => return None,
        }
    }
}

fn entry(path: &str, kind: EntryKind) -> DirEntry {
    DirEntry { path: path.to_string(), kind }
}

#[test]
fn execute_with_root() {
    // root holds a.txt, b.txt and sub/, which holds c.txt
    let tree = |p: &str| match p {
        "root" => Listing::Entries(vec![
            entry("root/a.txt", EntryKind::File),
            entry("root/sub", EntryKind::Dir),
            entry("root/b.txt", EntryKind::File),
        ]),
        "root/sub" => Listing::Entries(vec![entry("root/sub/c.txt", EntryKind::File)]),
        _ => Listing::NotDir,
    };
    let (files, _) = run_walk("root", true, &tree).unwrap();
    let result = ListFiles::finish("root", Some(files)).unwrap();
    assert!(result.contains("a.txt"));
    assert!(result.contains("b.txt"));
    assert!(result.contains("c.txt"));
    // depth first, in listing order
    assert_eq!(result, "root/a.txt\nroot/sub/c.txt\nroot/b.txt");
}

#[test]
fn execute_with_nonexistent_root_returns_empty() {
    let tree = |_: &str| Listing::NotDir;
    let (files, _) = run_walk("/tmp/nonexistent_dir_98765", true, &tree).unwrap();
    let result = ListFiles::finish("/tmp/nonexistent_dir_98765", Some(files)).unwrap();
    assert_eq!(result, "");
}

#[test]
fn collect_files_skips_directories() {
    let tree = |p: &str| match p {
        "d" => Listing::Entries(vec![entry("d/emptydir", EntryKind::Dir)]),
        _ => Listing::Entries(vec![]),
    };
    let (files, _) = run_walk("d", true, &tree).unwrap();
    assert!(files.iter().all(|f| !f.ends_with("emptydir")));
}

#[test]
fn collect_files_empty_dir() {
    let tree = |_: &str| Listing::Entries(vec![]);
    let (files, _) = run_walk("d", true, &tree).unwrap();
    assert!(files.is_empty());
}

#[test]
fn list_walk_reports_other_entries_and_fails_on_unreadable() {
    let tree = |p: &str| match p {
        "d" => Listing::Entries(vec![entry("d/link", EntryKind::Other), entry("d/locked", EntryKind::Dir)]),
        _ => Listing::Unreadable,
    };
    assert!(run_walk("d", true, &tree).is_none());
    let tree2 = |p: &str| match p {
        "d" => Listing::Entries(vec![entry("d/link", EntryKind::Other)]),
        _ => Listing::NotDir,
    };
    let (files, _) = run_walk("d", true, &tree2).unwrap();
    assert_eq!(files, vec!["d/link".to_string()]);
}

#[test]
fn walk_fails_on_broken_listing() {
    let tree = |_: &str| Listing::Broken;
    assert!(run_walk("d", false, &tree).is_none());
    let mut walk = DirWalk::new("d".to_string(), ListFiles::walk_policy());
    assert_eq!(walk.status(), WalkStatus::Start);
    match walk.step() {
        WalkAction::List { path, depth } => {
            assert_eq!(path, "d");
            assert_eq!(depth, 0);
        }
        other => panic!("expected List, got {other:?}"),
    }
    walk.on_listing(Listing::Broken);
    assert!(matches!(walk.step(), WalkAction::Failed));
    assert!(matches!(walk.step(), WalkAction::Failed));
}

// ---- read_file

#[test]
fn name_returns_read_file() {
    assert_eq!(ReadFile.name(), "read_file");
}

#[test]
fn read_file_description_not_empty() {
    assert!(!ReadFile.description().is_empty());
}

#[test]
fn input_schema_has_path_required() {
    let schema = ReadFile.input_schema();
    assert_eq!(schema.schema_type(), "object");
    assert!(schema.required.unwrap().contains(&"path".to_string()));
}

#[test]
fn read_file_execute_missing_path_errors() {
    let result = ReadFile::target(&ToolArgs::empty());
    assert!(result.is_err());
    assert!(result.unwrap_err().contains("missing required argument"));
}

#[test]
fn read_file_execute_path_traversal_errors() {
    let a = args(vec![("path", text("../etc/passwd"))], r#"{"path":"../etc/passwd"}"#);
    let result = ReadFile::target(&a);
    assert!(result.is_err());
    assert!(result.unwrap_err().contains("path traversal"));
}

#[test]
fn execute_returns_content() {
    let a = args(vec![("path", text("/tmp/t/test.txt"))], r#"{"path":"/tmp/t/test.txt"}"#);
    let path = ReadFile::target(&a).unwrap();
    assert_eq!(path, "/tmp/t/test.txt");
    let result = ReadFile::finish(&path, Some("hello world".to_string()));
    assert_eq!(result.unwrap(), "hello world");
}

#[test]
fn execute_file_not_found() {
    let result = ReadFile::finish("/tmp/nonexistent_12345", None);
    assert!(result.is_err());
    assert_eq!(result.unwrap_err(), "failed to read \"/tmp/nonexistent_12345\"");
}

#[test]
fn parent_components_are_found() {
    assert!(has_parent_dir(".."));
    assert!(has_parent_dir("../etc/passwd"));
    assert!(has_parent_dir("a/../b"));
    assert!(has_parent_dir("a/b/.."));
    assert!(has_parent_dir("/.."));
    assert!(!has_parent_dir("a..b"));
    assert!(!has_parent_dir("..a/b"));
    assert!(!has_parent_dir("a/b..."));
    assert!(!has_parent_dir("./a/.b"));
    assert!(!has_parent_dir(""));
    assert!(!has_parent_dir("."));
}

// ---- write_file

#[test]
fn name_returns_write_file() {
    assert_eq!(WriteFile.name(), "write_file");
}

#[test]
fn write_file_description_not_empty() {
    assert!(!WriteFile.description().is_empty());
}

#[test]
fn input_schema_requires_path_and_content() {
    let schema = WriteFile.input_schema();
    assert_eq!(schema.schema_type(), "object");
    let required = schema.required.unwrap();
    assert!(required.contains(&"path".to_string()));
    assert!(required.contains(&"content".to_string()));
}

#[test]
fn write_file_execute_missing_path_errors() {
    let a = args(vec![("content", text("data"))], r#"{"content":"data"}"#);
    let result = WriteFile::target(&a);
    assert!(result.is_err());
    assert!(result.unwrap_err().contains("missing required argument"));
}

#[test]
fn write_file_execute_path_traversal_errors() {
    let a = args(
        vec![("path", text("../escape.txt")), ("content", text("x"))],
        r#"{"content":"x","path":"../escape.txt"}"#,
    );
    let result = WriteFile::target(&a);
    assert!(result.is_err());
    assert!(result.unwrap_err().contains("path traversal"));
}

#[test]
fn execute_writes_content() {
    let a = args(
        vec![("path", text("/tmp/w/out.txt")), ("content", text("hello"))],
        r#"{"content":"hello","path":"/tmp/w/out.txt"}"#,
    );
    let (path, content) = WriteFile::target(&a).unwrap();
    assert_eq!(path, "/tmp/w/out.txt");
    assert_eq!(content, "hello");
    assert!(WriteFile::finish(&path, &content, WriteOutcome::Written).is_ok());
}

#[test]
fn execute_returns_success_message() {
    let result = WriteFile::finish("/tmp/w/msg.txt", "abc", WriteOutcome::Written).unwrap();
    assert!(result.contains("wrote 3 bytes to"));
    assert_eq!(result, "wrote 3 bytes to /tmp/w/msg.txt");
    // bytes of the UTF-8 encoding, not characters
    let r2 = WriteFile::finish("f", "é€", WriteOutcome::Written).unwrap();
    assert_eq!(r2, "wrote 5 bytes to f");
}

#[test]
fn write_file_reports_failures() {
    assert_eq!(
        WriteFile::finish("a/b", "x", WriteOutcome::ParentNotCreated).unwrap_err(),
        "failed to create parent directories for \"a/b\""
    );
    assert_eq!(
        WriteFile::finish("a/b", "x", WriteOutcome::NotWritten).unwrap_err(),
        "failed to write \"a/b\""
    );
}

#[test]
fn write_file_content_defaults_to_empty() {
    let a = args(vec![("path", text("p.txt"))], r#"{"path":"p.txt"}"#);
    let (_, content) = WriteFile::target(&a).unwrap();
    assert_eq!(content, "");
}

// ---- search_text_in_files

#[test]
fn name_returns_search_text_in_files() {
    assert_eq!(SearchTextInFiles.name(), "search_text_in_files");
}

#[test]
fn search_text_in_files_description_not_empty() {
    assert!(!SearchTextInFiles.description().is_empty());
}

#[test]
fn input_schema_requires_query() {
    let schema = SearchTextInFiles.input_schema();
    assert_eq!(schema.schema_type(), "object");
    assert!(schema.property("query").is_some());
    assert!(schema.property("root").is_some());
    assert!(schema.property("case_insensitive").unwrap().kind == ParamType::Boolean);
    assert_eq!(schema.required.unwrap()[0], "query");
}

fn search(files: &[(&str, &str)], req: &SearchRequest) -> Vec<String> {
    let mut out = Vec::new();
    for (path, content) in files {
        out.extend(SearchTextInFiles::file_matches(req, path, Some(content.to_string())));
    }
    out
}

#[test]
fn execute_finds_matches() {
    let a = args(vec![("query", text("hello")), ("root", text("/d"))], r#"{"query":"hello","root":"/d"}"#);
    let req = match SearchTextInFiles::plan(&a) {
        SearchPlan::Search(r) => r,
        other => panic!("expected a search, got {other:?}"),
    };
    assert_eq!(req.root, "/d");
    assert!(!req.case_insensitive);
    let matches = search(
        &[("/d/a.txt", "hello world\nfoo bar"), ("/d/sub/b.txt", "another hello here")],
        &req,
    );
    let result = SearchTextInFiles::finish(&req.root, Some(matches)).unwrap();
    assert!(result.contains("a.txt:1: hello world"));
    assert!(result.contains("b.txt:1: another hello here"));
    assert!(!result.contains("foo bar"));
}

#[test]
fn execute_case_insensitive() {
    let a = args(
        vec![("query", text("hello")), ("root", text("/d")), ("case_insensitive", ArgValue::Flag(true))],
        r#"{"case_insensitive":true,"query":"hello","root":"/d"}"#,
    );
    let req = match SearchTextInFiles::plan(&a) {
        SearchPlan::Search(r) => r,
        other => panic!("expected a search, got {other:?}"),
    };
    assert!(req.case_insensitive);
    let result = SearchTextInFiles::finish(&req.root, Some(search(&[("/d/a.txt", "HELLO world")], &req))).unwrap();
    assert!(result.contains("HELLO world"));
    let sensitive = SearchRequest { query: "hello".to_string(), root: "/d".to_string(), case_insensitive: false };
    assert!(search(&[("/d/a.txt", "HELLO world")], &sensitive).is_empty());
}

#[test]
fn execute_empty_query_returns_empty() {
    let a = args(vec![("query", text("")), ("root", text("/d"))], r#"{"query":"","root":"/d"}"#);
    match SearchTextInFiles::plan(&a) {
        SearchPlan::Answer(t) => assert_eq!(t, ""),
        other => panic!("expected an answer, got {other:?}"),
    }
}

#[test]
fn search_dir_respects_max_depth() {
    // d0/d1/.../d14/deep.txt: the file lies 15 levels below the root
    let tree = |p: &str| {
        let depth = p.matches('/').count();
        if depth < 15 {
            Listing::Entries(vec![entry(&format!("{p}/d{depth}"), EntryKind::Dir)])
        } else {
            Listing::Entries(vec![entry(&format!("{p}/deep.txt"), EntryKind::File)])
        }
    };
    let (files, listed) = run_walk("r", false, &tree).unwrap();
    assert!(files.is_empty());
    assert!(listed.iter().all(|(_, d)| *d <= MAX_DEPTH));
    assert_eq!(listed.len(), MAX_DEPTH + 1);
}

#[test]
fn search_skips_unreadable_dirs_and_other_entries() {
    let tree = |p: &str| match p {
        "r" => Listing::Entries(vec![
            entry("r/locked", EntryKind::Dir),
            entry("r/fifo", EntryKind::Other),
            entry("r/a.txt", EntryKind::File),
        ]),
        _ => Listing::Unreadable,
    };
    let (files, _) = run_walk("r", false, &tree).unwrap();
    assert_eq!(files, vec!["r/a.txt".to_string()]);
}

#[test]
fn search_reports_line_numbers_and_skips_unreadable_files() {
    let req = SearchRequest { query: "x".to_string(), root: ".".to_string(), case_insensitive: false };
    let lines = SearchTextInFiles::matching_lines("f", "a\nxb\r\nc\nax", "x", false);
    assert_eq!(lines, vec!["f:2: xb".to_string(), "f:4: ax".to_string()]);
    assert!(SearchTextInFiles::file_matches(&req, "bin", None).is_empty());
    assert_eq!(
        SearchTextInFiles::finish("r", None).unwrap_err(),
        "failed to search files under \"r\""
    );
}

// ---- run_command

#[test]
fn name_returns_run_command() {
    assert_eq!(RunCommand.name(), "run_command");
}

#[test]
fn run_command_description_not_empty() {
    assert!(!RunCommand.description().is_empty());
}

#[test]
fn input_schema_requires_command() {
    let schema = RunCommand.input_schema();
    assert_eq!(schema.schema_type(), "object");
    assert!(schema.property("command").is_some());
    assert!(schema.property("cwd").is_some());
    assert!(schema.property("timeout_secs").is_some());
    assert_eq!(schema.required.unwrap()[0], "command");
}

fn run_of(a: &ToolArgs) -> CommandRun {
    match RunCommand::plan(a) {
        CommandPlan::Run(r) => r,
        other => panic!("expected a run, got {other:?}"),
    }
}

#[test]
fn execute_runs_simple_command() {
    let a = args(vec![("command", text("echo hello"))], r#"{"command":"echo hello"}"#);
    let run = run_of(&a);
    assert_eq!(run.timeout_secs, 30);
    assert!(run.cwd.is_none());
    let result = RunCommand::finish(
        &run,
        CommandOutcome::Exited { code: Some(0), stdout: "hello\n".to_string(), stderr: String::new() },
    )
    .unwrap();
    assert!(result.contains("exit_code: 0"));
    assert!(result.contains("hello"));
    assert_eq!(result, "exit_code: 0\n--- stdout ---\nhello\n\n--- stderr ---\n");
}

#[test]
fn execute_captures_nonzero_exit_code() {
    let a = args(vec![("command", text("exit 1"))], r#"{"command":"exit 1"}"#);
    let run = run_of(&a);
    let result = RunCommand::finish(
        &run,
        CommandOutcome::Exited { code: Some(1), stdout: String::new(), stderr: String::new() },
    )
    .unwrap();
    assert!(result.contains("exit_code: 1"));
    let killed = RunCommand::finish(
        &run,
        CommandOutcome::Exited { code: None, stdout: String::new(), stderr: String::new() },
    )
    .unwrap();
    assert!(killed.starts_with("exit_code: -1\n"));
}

#[test]
fn execute_respects_cwd() {
    let a = args(vec![("command", text("ls")), ("cwd", text("/tmp/x"))], r#"{"command":"ls","cwd":"/tmp/x"}"#);
    let run = run_of(&a);
    assert_eq!(run.cwd.as_deref(), Some("/tmp/x"));
    assert!(RunCommand::refuse_cwd(&run, true).is_none());
}

#[test]
fn execute_empty_command_returns_message() {
    let a = args(vec![("command", text(""))], r#"{"command":""}"#);
    match RunCommand::plan(&a) {
        CommandPlan::Reply(t) => assert_eq!(t, "no command provided"),
        other => panic!("expected a reply, got {other:?}"),
    }
    let b = args(vec![("command", text("  \t"))], r#"{"command":"  \t"}"#);
    assert!(matches!(RunCommand::plan(&b), CommandPlan::Reply(_)));
}

#[test]
fn execute_invalid_cwd_returns_message() {
    let a = args(
        vec![("command", text("echo hi")), ("cwd", text("/nonexistent/path/xyz"))],
        r#"{"command":"echo hi","cwd":"/nonexistent/path/xyz"}"#,
    );
    let run = run_of(&a);
    let result = RunCommand::refuse_cwd(&run, false).unwrap();
    assert!(result.contains("invalid working directory"));
    assert_eq!(result, "invalid working directory: /nonexistent/path/xyz");
}

#[test]
fn execute_times_out_for_long_running_command() {
    let a = args(
        vec![("command", text("sleep 5")), ("timeout_secs", ArgValue::Count(1))],
        r#"{"command":"sleep 5","timeout_secs":1}"#,
    );
    let run = run_of(&a);
    assert_eq!(run.timeout_secs, 1);
    let result = RunCommand::finish(&run, CommandOutcome::TimedOut);
    assert!(result.is_err());
    assert_eq!(result.unwrap_err(), "command timed out after 1s: sleep 5");
}

#[test]
fn run_command_reports_spawn_and_wait_failures() {
    let a = args(vec![("command", text("x"))], r#"{"command":"x"}"#);
    let run = run_of(&a);
    assert_eq!(RunCommand::finish(&run, CommandOutcome::NotSpawned).unwrap_err(), "failed to spawn command: x");
    assert_eq!(
        RunCommand::finish(&run, CommandOutcome::WaitFailed("broken pipe".to_string())).unwrap_err(),
        "broken pipe"
    );
}

// ---- registry

#[test]
fn new_contains_three_tools() {
    let reg = ToolRegistry::new();
    assert_eq!(reg.len(), 5);
}

#[test]
fn register_increases_len() {
    let mut reg = ToolRegistry::new();
    assert_eq!(reg.len(), 5);
    reg.register(ToolKind::ListFiles);
    assert_eq!(reg.len(), 6);
}

#[test]
fn get_returns_some_for_known_tools() {
    let reg = ToolRegistry::new();
    assert!(reg.get("read_file").is_some());
    assert!(reg.get("write_file").is_some());
    assert!(reg.get("list_files").is_some());
    assert_eq!(reg.get("run_command"), Some(ToolKind::RunCommand));
}

#[test]
fn get_returns_none_for_unknown() {
    let reg = ToolRegistry::new();
    assert!(reg.get("nonexistent").is_none());
}

#[test]
fn execute_unknown_tool_errors() {
    let reg = ToolRegistry::new();
    let result = reg.resolve("no_such_tool");
    assert!(result.is_err());
    assert!(result.unwrap_err().contains("unknown tool"));
    assert_eq!(reg.resolve("read_file").unwrap(), ToolKind::ReadFile);
}

#[test]
fn to_ai_tools_format() {
    let reg = ToolRegistry::new();
    let tools = reg.to_ai_tools();
    assert_eq!(tools.len(), 5);
    for tool in &tools {
        assert!(!tool.name.is_empty());
        assert!(!tool.description.is_empty());
        assert_eq!(tool.parameters.schema_type(), "object");
    }
    let names: Vec<&str> = tools.iter().map(|t| t.name.as_str()).collect();
    assert!(names.contains(&"read_file"));
    assert!(names.contains(&"write_file"));
    assert!(names.contains(&"list_files"));
    assert!(names.contains(&"search_text_in_files"));
    assert!(names.contains(&"run_command"));
    assert_eq!(names, vec!["list_files", "read_file", "write_file", "search_text_in_files", "run_command"]);
}

#[test]
fn tool_args_lookup_by_kind() {
    let a = args(
        vec![("n", ArgValue::Count(7)), ("b", ArgValue::Flag(true)), ("s", text("v")), ("o", ArgValue::Other)],
        r#"{"b":true,"n":7,"o":null,"s":"v"}"#,
    );
    assert_eq!(a.count("n"), Some(7));
    assert_eq!(a.flag("b"), Some(true));
    assert_eq!(a.text("s"), Some("v".to_string()));
    assert_eq!(a.text("n"), None);
    assert_eq!(a.count("s"), None);
    assert_eq!(a.flag("missing"), None);
    assert!(a.get("o").is_some());
    assert_eq!(ToolArgs::empty().text, "{}");
}

#[test]
fn registering_a_second_tool_of_a_name_keeps_the_first() {
    let mut reg = ToolRegistry::new();
    reg.register(ToolKind::ReadFile);
    assert_eq!(reg.len(), 6);
    assert_eq!(reg.get("read_file"), Some(ToolKind::ReadFile));
    let tools = reg.to_ai_tools();
    assert_eq!(tools[5].name, "read_file");
    for name in ["list_files", "read_file", "write_file", "search_text_in_files", "run_command"] {
        assert_eq!(reg.get(name).unwrap().name(), name);
    }
}

#[test]
fn collect_files_recursive() {
    let tree = |p: &str| match p {
        "d" => Listing::Entries(vec![entry("d/top.txt", EntryKind::File), entry("d/sub", EntryKind::Dir)]),
        "d/sub" => Listing::Entries(vec![entry("d/sub/nested.txt", EntryKind::File)]),
        _ => Listing::NotDir,
    };
    let (files, listed) = run_walk("d", true, &tree).unwrap();
    assert!(files.iter().any(|f| f.ends_with("top.txt")));
    assert!(files.iter().any(|f| f.ends_with("nested.txt")));
    assert_eq!(listed, vec![("d".to_string(), 0), ("d/sub".to_string(), 1)]);
}

#[test]
fn execute_known_tool_succeeds() {
    let reg = ToolRegistry::new();
    assert_eq!(reg.resolve("read_file").unwrap(), ToolKind::ReadFile);
    let a = args(vec![("path", text("/tmp/t/test.txt"))], r#"{"path":"/tmp/t/test.txt"}"#);
    let path = ReadFile::target(&a).unwrap();
    assert_eq!(ReadFile::finish(&path, Some("data".to_string())).unwrap(), "data");
}

#[test]
fn execute_creates_parent_dirs() {
    // the directories themselves are created by the program around the library;
    // the library accepts the nested path and reports the write
    let a = args(
        vec![("path", text("/tmp/w/a/b/c/deep.txt")), ("content", text("deep"))],
        r#"{"content":"deep","path":"/tmp/w/a/b/c/deep.txt"}"#,
    );
    let (path, content) = WriteFile::target(&a).unwrap();
    assert_eq!(path, "/tmp/w/a/b/c/deep.txt");
    assert_eq!(content, "deep");
    let result = WriteFile::finish(&path, &content, WriteOutcome::Written);
    assert!(result.is_ok());
    assert_eq!(result.unwrap(), "wrote 4 bytes to /tmp/w/a/b/c/deep.txt");
}
