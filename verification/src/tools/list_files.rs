//! `list_files`: recursively list the files under a directory.

use vstd::prelude::*;
use crate::text::{owned, push_str, debug_text, debug_quoted, join, join_strings, views};
use crate::tools::{
    Tool, ToolArgs, ToolArgsView, ParamSchema, ParamSchemaView, ParamType, ParamView, text_arg,
    param, schema,
};

use crate::tools::walk::{
    WalkPolicy, WalkView, WalkOutcome, WalkStatus, ListingView, walk_run, listing_outcome,
    reportable_entry, lemma_walk_reports_tree, lemma_reports_are_entries,
};

verus! {

/// Recursively list all files under a directory.
#[derive(Debug)]
pub struct ListFiles;

impl Tool for ListFiles {
    open spec fn tool_name(&self) -> Seq<char> {
        "list_files"@
    }

    open spec fn tool_description(&self) -> Seq<char> {
        "Recursively list all files under a directory. Takes an optional `root` argument (default: \".\"). Returns one file path per line."@
    }

    open spec fn tool_schema(&self) -> ParamSchemaView {
        ParamSchemaView {
            properties: seq![
                ParamView {
                    name: "root"@,
                    kind: ParamType::String,
                    description: "Root directory to list (default: current working directory)"@,
                },
            ],
            required: None,
        }
    }

    fn name(&self) -> (r: &'static str) {
        "list_files"
    }

    fn description(&self) -> (r: &'static str) {
        "Recursively list all files under a directory. Takes an optional `root` argument (default: \".\"). Returns one file path per line."
    }

    fn input_schema(&self) -> (r: ParamSchema) {
        let properties = vec![
            param(
                "root",
                ParamType::String,
                "Root directory to list (default: current working directory)",
            ),
        ];
        let r = schema(properties, None);
        assert(r@.properties =~= self.tool_schema().properties);
        r
    }
}

/// The directory to list: the `root` argument, or `.`.
pub open spec fn list_root(args: ToolArgsView) -> Seq<char> {
    match text_arg(args, "root"@) {
        Some(r) => r,
        None => "."@,
    }
}

/// The tool's answer once the files under `root` are collected (`None`
/// when collecting them failed): the paths one per line, or the error text.
pub open spec fn list_result(root: Seq<char>, files: Option<Seq<Seq<char>>>) -> Result<
    Seq<char>,
    Seq<char>,
> {
    match files {
        Some(f) => Ok(join(f, "\n"@)),
        None => Err("failed to list files under "@ + debug_quoted(root)),
    }
}

impl ListFiles {
    /// How the listing walks the tree: without a depth limit, failing on a
    /// directory it cannot open, and reporting every entry that is not a
    /// directory.
    pub fn walk_policy() -> (p: WalkPolicy)
        ensures
            p == (WalkPolicy { max_depth: None, skip_unreadable: false, report_others: true }),
    {
        WalkPolicy { max_depth: None, skip_unreadable: false, report_others: true }
    }

    /// The directory the call asks to list.
    pub fn root(args: &ToolArgs) -> (r: String)
        ensures
            r@ == list_root(args@),
    {
        match args.text("root") {
            Some(r) => r,
            None => owned("."),
        }
    }

    /// The tool's answer once the files under `root` are collected, or
    /// collecting them failed.
    pub fn finish(root: &str, files: Option<Vec<String>>) -> (r: Result<String, String>)
        ensures
            match list_result(
                root@,
                match files {
                    Some(f) => Some(views(f@)),
                    None => None,
                },
            ) {
                Ok(t) => r is Ok && r->Ok_0@ == t,
                Err(e) => r is Err && r->Err_0@ == e,
            },
    {
        match files {
            Some(f) => Ok(join_strings(&f, "\n")),
            None => {
                let mut msg = owned("failed to list files under ");
                let q = debug_text(root);
                push_str(&mut msg, q.as_str());
                Err(msg)
            },
        }
    }
}

/// Law: over a tree whose listings `fs` gives and whose directories lie at
/// most `h` levels below `root`, the listing walk completes after reporting
/// exactly the paths of the outcome for its policy (every entry that is not
/// a directory, each once, depth first, in listing order, no directory), or
/// fails where that outcome fails.
pub proof fn lemma_list_walk_visits_non_dirs(
    root: Seq<char>,
    fs: spec_fn(Seq<char>) -> ListingView,
    h: nat,
) -> (n: nat)
    requires
        !(listing_outcome(
            fs,
            WalkPolicy { max_depth: None, skip_unreadable: false, report_others: true },
            root,
            0,
            h,
        ) is TooDeep),
    ensures
        ({
            let policy = WalkPolicy { max_depth: None, skip_unreadable: false, report_others: true };
            let start = WalkView { root, frames: seq![], policy, status: WalkStatus::Start };
            match listing_outcome(fs, policy, root, 0, h) {
                WalkOutcome::Reports(o) => walk_run(start, fs, n).0.status == WalkStatus::Done
                    && walk_run(start, fs, n).1 == o && forall|k: int|
                    0 <= k < o.len() ==> reportable_entry(fs, policy, #[trigger] o[k]),
                WalkOutcome::Fails => walk_run(start, fs, n).0.status == WalkStatus::Failed,
                WalkOutcome::TooDeep => false,
            }
        }),
{
    let policy = WalkPolicy { max_depth: None, skip_unreadable: false, report_others: true };
    lemma_reports_are_entries(fs, policy, root, 0, h);
    lemma_walk_reports_tree(root, policy, fs, h)
}

} // verus!
