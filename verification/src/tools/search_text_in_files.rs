//! `search_text_in_files`: find the lines that contain a text in the files
//! under a directory, down to a bounded depth.

use vstd::prelude::*;
use crate::text::{
    owned, push_str, push_decimal, debug_text, debug_quoted, decimal, join, join_strings, views,
    lines, split_lines, contains, contains_text, lowercase, to_lowercase,
};
use crate::tools::{
    Tool, ToolArgs, ToolArgsView, ParamSchema, ParamSchemaView, ParamType, ParamView, text_arg,
    flag_arg, param, schema,
};
use crate::seqs::lemma_map_push;
use crate::tools::walk::{
    WalkPolicy, WalkView, WalkActionView, WalkOutcome, WalkStatus, ListingView, walk_step, walk_wf,
    walk_run, listing_outcome, reportable_entry, lemma_walk_respects_depth, lemma_walk_reports_tree,
    lemma_reports_are_entries, lemma_limited_walk_not_too_deep,
};

verus! {

/// How deep below the root directory the search goes.
pub const MAX_DEPTH: usize = 10;

/// Recursively search for a text in all files under a directory.
#[derive(Debug)]
pub struct SearchTextInFiles;

impl Tool for SearchTextInFiles {
    open spec fn tool_name(&self) -> Seq<char> {
        "search_text_in_files"@
    }

    open spec fn tool_description(&self) -> Seq<char> {
        "Recursively search for a text query in all files under a directory (default: current working directory), limiting recursion to a depth of 10. Optionally case-insensitive. Returns matching lines formatted as `path:line_number: line_content`."@
    }

    open spec fn tool_schema(&self) -> ParamSchemaView {
        ParamSchemaView {
            properties: seq![
                ParamView {
                    name: "query"@,
                    kind: ParamType::String,
                    description: "Text to search for in file contents"@,
                },
                ParamView {
                    name: "root"@,
                    kind: ParamType::String,
                    description: "Root directory to search (default: current working directory)"@,
                },
                ParamView {
                    name: "case_insensitive"@,
                    kind: ParamType::Boolean,
                    description: "Whether the search should ignore case (default: false)"@,
                },
            ],
            required: Some(seq!["query"@]),
        }
    }

    fn name(&self) -> (r: &'static str) {
        "search_text_in_files"
    }

    fn description(&self) -> (r: &'static str) {
        "Recursively search for a text query in all files under a directory (default: current working directory), limiting recursion to a depth of 10. Optionally case-insensitive. Returns matching lines formatted as `path:line_number: line_content`."
    }

    fn input_schema(&self) -> (r: ParamSchema) {
        let properties = vec![
            param("query", ParamType::String, "Text to search for in file contents"),
            param(
                "root",
                ParamType::String,
                "Root directory to search (default: current working directory)",
            ),
            param(
                "case_insensitive",
                ParamType::Boolean,
                "Whether the search should ignore case (default: false)",
            ),
        ];
        let required = vec![owned("query")];
        let r = schema(properties, Some(required));
        assert(r@.properties =~= self.tool_schema().properties);
        assert(r@.required->0 =~= seq!["query"@]);
        r
    }
}

/// A search to run.
#[derive(Debug)]
pub struct SearchRequest {
    /// The text to look for; never empty.
    pub query: String,
    /// The directory to search under.
    pub root: String,
    /// Whether case is ignored.
    pub case_insensitive: bool,
}

/// What a call of the tool comes to.
#[derive(Debug)]
pub enum SearchPlan {
    /// The answer, given at once: an empty query matches nothing.
    Answer(String),
    /// A search to run.
    Search(SearchRequest),
}

/// The text a call looks for: the `query` argument, or nothing.
pub open spec fn search_query(args: ToolArgsView) -> Seq<char> {
    match text_arg(args, "query"@) {
        Some(q) => q,
        None => seq![],
    }
}

/// The directory a call searches: the `root` argument, or `.`.
pub open spec fn search_root(args: ToolArgsView) -> Seq<char> {
    match text_arg(args, "root"@) {
        Some(r) => r,
        None => "."@,
    }
}

/// Whether a call ignores case: the `case_insensitive` argument, or no.
pub open spec fn search_ignores_case(args: ToolArgsView) -> bool {
    match flag_arg(args, "case_insensitive"@) {
        Some(b) => b,
        None => false,
    }
}

/// The text compared against each line.
pub open spec fn search_needle(query: Seq<char>, case_insensitive: bool) -> Seq<char> {
    if case_insensitive {
        lowercase(query)
    } else {
        query
    }
}

/// Whether a line matches.
pub open spec fn line_hits(line: Seq<char>, needle: Seq<char>, case_insensitive: bool) -> bool {
    contains_text(
        if case_insensitive {
            lowercase(line)
        } else {
            line
        },
        needle,
    )
}

/// How a matching line is reported: `path:line_number: line`, the lines
/// numbered from 1.
pub open spec fn match_report(path: Seq<char>, index: int, line: Seq<char>) -> Seq<char> {
    path + ":"@ + decimal((index + 1) as nat) + ": "@ + line
}

/// The reports of the matching lines among the first `n` lines, in order.
pub open spec fn matches_in(
    path: Seq<char>,
    ls: Seq<Seq<char>>,
    needle: Seq<char>,
    case_insensitive: bool,
    n: int,
) -> Seq<Seq<char>>
    decreases n,
{
    if n <= 0 {
        seq![]
    } else {
        let prev = matches_in(path, ls, needle, case_insensitive, n - 1);
        if line_hits(ls[n - 1], needle, case_insensitive) {
            prev.push(match_report(path, n - 1, ls[n - 1]))
        } else {
            prev
        }
    }
}

/// The reports of the matching lines of a file's contents, in order.
pub open spec fn search_matches(
    path: Seq<char>,
    content: Seq<char>,
    query: Seq<char>,
    case_insensitive: bool,
) -> Seq<Seq<char>> {
    let ls = lines(content);
    matches_in(path, ls, search_needle(query, case_insensitive), case_insensitive, ls.len() as int)
}

/// The tool's answer once the search under `root` is done (`None` when it
/// failed): the reports one per line, or the error text.
pub open spec fn search_result(root: Seq<char>, matches: Option<Seq<Seq<char>>>) -> Result<
    Seq<char>,
    Seq<char>,
> {
    match matches {
        Some(m) => Ok(join(m, "\n"@)),
        None => Err("failed to search files under "@ + debug_quoted(root)),
    }
}

/// Whether `report` reports the `i`-th line of `ls` as matching.
pub open spec fn reports_hit(
    path: Seq<char>,
    ls: Seq<Seq<char>>,
    needle: Seq<char>,
    case_insensitive: bool,
    i: int,
    report: Seq<char>,
) -> bool {
    &&& 0 <= i < ls.len()
    &&& line_hits(ls[i], needle, case_insensitive)
    &&& report == match_report(path, i, ls[i])
}

/// Whether `report` reports some line of `ls` as matching.
pub open spec fn is_hit_report(
    path: Seq<char>,
    ls: Seq<Seq<char>>,
    needle: Seq<char>,
    case_insensitive: bool,
    report: Seq<char>,
) -> bool {
    exists|i: int| reports_hit(path, ls, needle, case_insensitive, i, report)
}

/// Law: every report is of a line of the file that holds the query
/// (ignoring case when asked), with its number and the file's path.
pub proof fn lemma_reports_are_hits(
    path: Seq<char>,
    content: Seq<char>,
    query: Seq<char>,
    case_insensitive: bool,
)
    ensures
        forall|j: int|
            0 <= j < search_matches(path, content, query, case_insensitive).len()
                ==> is_hit_report(
                path,
                lines(content),
                search_needle(query, case_insensitive),
                case_insensitive,
                #[trigger] search_matches(path, content, query, case_insensitive)[j],
            ),
{
    let ls = lines(content);
    lemma_matches_in_hits(
        path,
        ls,
        search_needle(query, case_insensitive),
        case_insensitive,
        ls.len() as int,
    );
}

proof fn lemma_matches_in_hits(
    path: Seq<char>,
    ls: Seq<Seq<char>>,
    needle: Seq<char>,
    case_insensitive: bool,
    n: int,
)
    requires
        n <= ls.len(),
    ensures
        forall|j: int|
            0 <= j < matches_in(path, ls, needle, case_insensitive, n).len() ==> is_hit_report(
                path,
                ls,
                needle,
                case_insensitive,
                #[trigger] matches_in(path, ls, needle, case_insensitive, n)[j],
            ),
    decreases n,
{
    if n > 0 {
        lemma_matches_in_hits(path, ls, needle, case_insensitive, n - 1);
        let prev = matches_in(path, ls, needle, case_insensitive, n - 1);
        let m = matches_in(path, ls, needle, case_insensitive, n);
        assert forall|j: int| 0 <= j < m.len() implies is_hit_report(
            path,
            ls,
            needle,
            case_insensitive,
            #[trigger] m[j],
        ) by {
            if j < prev.len() {
                assert(m[j] == prev[j]);
                assert(is_hit_report(path, ls, needle, case_insensitive, prev[j]));
            } else {
                assert(reports_hit(path, ls, needle, case_insensitive, n - 1, m[j]));
            }
        }
    } else {
        assert(matches_in(path, ls, needle, case_insensitive, n) =~= seq![]);
    }
}

/// Whether the `i`-th line of a file's contents holds the query: as they
/// are, or, when case is ignored, both lowercased.
pub open spec fn line_holds_query(content: Seq<char>, query: Seq<char>, case_insensitive: bool, i: int) -> bool {
    if case_insensitive {
        contains_text(lowercase(lines(content)[i]), lowercase(query))
    } else {
        contains_text(lines(content)[i], query)
    }
}

proof fn lemma_matches_in_covers(
    path: Seq<char>,
    ls: Seq<Seq<char>>,
    needle: Seq<char>,
    case_insensitive: bool,
    n: int,
    i: int,
)
    requires
        0 <= i < n <= ls.len(),
        line_hits(ls[i], needle, case_insensitive),
    ensures
        exists|k: int|
            0 <= k < matches_in(path, ls, needle, case_insensitive, n).len()
                && #[trigger] matches_in(path, ls, needle, case_insensitive, n)[k]
                == match_report(path, i, ls[i]),
    decreases n,
{
    let m = matches_in(path, ls, needle, case_insensitive, n);
    let prev = matches_in(path, ls, needle, case_insensitive, n - 1);
    if i == n - 1 {
        assert(m[prev.len() as int] == match_report(path, i, ls[i]));
    } else {
        lemma_matches_in_covers(path, ls, needle, case_insensitive, n - 1, i);
        let k = choose|k: int|
            0 <= k < prev.len() && #[trigger] prev[k] == match_report(path, i, ls[i]);
        assert(m[k] == prev[k]);
    }
}

proof fn lemma_report_is_of_holding_line(
    path: Seq<char>,
    content: Seq<char>,
    query: Seq<char>,
    case_insensitive: bool,
    k: int,
)
    requires
        0 <= k < search_matches(path, content, query, case_insensitive).len(),
    ensures
        exists|i: int|
            #![trigger line_holds_query(content, query, case_insensitive, i)]
            0 <= i < lines(content).len() && line_holds_query(content, query, case_insensitive, i)
                && search_matches(path, content, query, case_insensitive)[k] == path + ":"@
                + decimal((i + 1) as nat) + ": "@ + lines(content)[i],
{
    let r = search_matches(path, content, query, case_insensitive);
    let ls = lines(content);
    let needle = search_needle(query, case_insensitive);
    lemma_reports_are_hits(path, content, query, case_insensitive);
    assert(is_hit_report(path, ls, needle, case_insensitive, r[k]));
    let i = choose|i: int| reports_hit(path, ls, needle, case_insensitive, i, r[k]);
    assert(line_holds_query(content, query, case_insensitive, i));
}

/// Whether `report` is `path:number: line` for a line of `content` that
/// holds the query, the lines numbered from 1.
pub open spec fn reports_holding_line(
    path: Seq<char>,
    content: Seq<char>,
    query: Seq<char>,
    case_insensitive: bool,
    report: Seq<char>,
) -> bool {
    exists|i: int|
        #![trigger line_holds_query(content, query, case_insensitive, i)]
        0 <= i < lines(content).len() && line_holds_query(content, query, case_insensitive, i)
            && report == path + ":"@ + decimal((i + 1) as nat) + ": "@ + lines(content)[i]
}

/// Whether `r` is exactly the reports of the lines of `content` that hold
/// the query: each report is of such a line, and each such line is
/// reported.
pub open spec fn reports_holding_lines(
    path: Seq<char>,
    content: Seq<char>,
    query: Seq<char>,
    case_insensitive: bool,
    r: Seq<Seq<char>>,
) -> bool {
    &&& forall|k: int|
        0 <= k < r.len() ==> reports_holding_line(path, content, query, case_insensitive, #[trigger] r[k])
    &&& forall|i: int|
        #![trigger line_holds_query(content, query, case_insensitive, i)]
        0 <= i < lines(content).len() && line_holds_query(content, query, case_insensitive, i)
            ==> r.contains(path + ":"@ + decimal((i + 1) as nat) + ": "@ + lines(content)[i])
}

proof fn lemma_matches_in_indices(
    path: Seq<char>,
    ls: Seq<Seq<char>>,
    needle: Seq<char>,
    case_insensitive: bool,
    n: int,
) -> (idx: Seq<int>)
    requires
        0 <= n <= ls.len(),
    ensures
        idx.len() == matches_in(path, ls, needle, case_insensitive, n).len(),
        forall|k: int|
            #![trigger idx[k]]
            0 <= k < idx.len() ==> {
                &&& 0 <= idx[k] < n
                &&& line_hits(ls[idx[k]], needle, case_insensitive)
                &&& matches_in(path, ls, needle, case_insensitive, n)[k] == match_report(
                    path,
                    idx[k],
                    ls[idx[k]],
                )
            },
        forall|k1: int, k2: int| 0 <= k1 < k2 < idx.len() ==> idx[k1] < idx[k2],
    decreases n,
{
    if n == 0 {
        Seq::<int>::empty()
    } else {
        let prev = lemma_matches_in_indices(path, ls, needle, case_insensitive, n - 1);
        let pm = matches_in(path, ls, needle, case_insensitive, n - 1);
        let m = matches_in(path, ls, needle, case_insensitive, n);
        if line_hits(ls[n - 1], needle, case_insensitive) {
            let idx = prev.push(n - 1);
            assert forall|k: int| #![trigger idx[k]] 0 <= k < idx.len() implies {
                &&& 0 <= idx[k] < n
                &&& line_hits(ls[idx[k]], needle, case_insensitive)
                &&& m[k] == match_report(path, idx[k], ls[idx[k]])
            } by {
                if k < prev.len() {
                    assert(idx[k] == prev[k]);
                    assert(m[k] == pm[k]);
                }
            }
            assert forall|k1: int, k2: int| 0 <= k1 < k2 < idx.len() implies idx[k1] < idx[k2] by {
                assert(idx[k1] == prev[k1]);
                if k2 < prev.len() {
                    assert(idx[k2] == prev[k2]);
                }
            }
            idx
        } else {
            assert forall|k: int| #![trigger prev[k]] 0 <= k < prev.len() implies m[k] == pm[k] by {}
            prev
        }
    }
}

/// Law: the reports of a file's matching lines are exactly those of the
/// lines that hold the query (with case ignored on both sides when asked),
/// each as `path:number: line` with the lines numbered from 1: every report
/// is of such a line, every such line is reported, and the reports come in
/// the order of the lines, each line at most once (the line numbers `idx`
/// of the reports rise strictly).
pub proof fn lemma_matches_are_the_lines_holding_the_query(
    path: Seq<char>,
    content: Seq<char>,
    query: Seq<char>,
    case_insensitive: bool,
) -> (idx: Seq<int>)
    ensures
        reports_holding_lines(
            path,
            content,
            query,
            case_insensitive,
            search_matches(path, content, query, case_insensitive),
        ),
        idx.len() == search_matches(path, content, query, case_insensitive).len(),
        forall|k: int|
            #![trigger idx[k]]
            0 <= k < idx.len() ==> {
                &&& 0 <= idx[k] < lines(content).len()
                &&& line_holds_query(content, query, case_insensitive, idx[k])
                &&& search_matches(path, content, query, case_insensitive)[k] == path + ":"@
                    + decimal((idx[k] + 1) as nat) + ": "@ + lines(content)[idx[k]]
            },
        forall|k1: int, k2: int| 0 <= k1 < k2 < idx.len() ==> idx[k1] < idx[k2],
{
    let r = search_matches(path, content, query, case_insensitive);
    let ls = lines(content);
    let needle = search_needle(query, case_insensitive);
    assert forall|k: int| 0 <= k < r.len() implies reports_holding_line(
        path,
        content,
        query,
        case_insensitive,
        #[trigger] r[k],
    ) by {
        lemma_report_is_of_holding_line(path, content, query, case_insensitive, k);
    }
    assert forall|i: int|
        #![trigger line_holds_query(content, query, case_insensitive, i)]
        0 <= i < ls.len() && line_holds_query(content, query, case_insensitive, i)
            implies r.contains(path + ":"@ + decimal((i + 1) as nat) + ": "@ + ls[i]) by {
        lemma_matches_in_covers(path, ls, needle, case_insensitive, ls.len() as int, i);
        let k = choose|k: int|
            0 <= k < r.len() && #[trigger] r[k] == match_report(path, i, ls[i]);
        assert(r[k] == path + ":"@ + decimal((i + 1) as nat) + ": "@ + ls[i]);
    }
    assert(reports_holding_lines(path, content, query, case_insensitive, r));
    let idx = lemma_matches_in_indices(path, ls, needle, case_insensitive, ls.len() as int);
    assert forall|k: int| #![trigger idx[k]] 0 <= k < idx.len() implies {
        &&& 0 <= idx[k] < lines(content).len()
        &&& line_holds_query(content, query, case_insensitive, idx[k])
        &&& r[k] == path + ":"@ + decimal((idx[k] + 1) as nat) + ": "@ + lines(content)[idx[k]]
    } by {
        assert(r[k] == match_report(path, idx[k], ls[idx[k]]));
    }
    idx
}

/// Law: the search's walk from `root`, its listings answered from `fs`,
/// descends at most `MAX_DEPTH` levels below the root and never further;
/// it completes after reporting exactly the paths of the outcome for its
/// policy (the regular files, each once, depth first, in listing order, no
/// directory), or fails where that outcome fails.
pub proof fn lemma_search_walk_visits_files(root: Seq<char>, fs: spec_fn(Seq<char>) -> ListingView) -> (n: nat)
    ensures
        ({
            let policy = WalkPolicy {
                max_depth: Some(MAX_DEPTH),
                skip_unreadable: true,
                report_others: false,
            };
            let start = WalkView { root, frames: seq![], policy, status: WalkStatus::Start };
            match listing_outcome(fs, policy, root, 0, MAX_DEPTH as nat) {
                WalkOutcome::Reports(o) => walk_run(start, fs, n).0.status == WalkStatus::Done
                    && walk_run(start, fs, n).1 == o && forall|k: int|
                    0 <= k < o.len() ==> reportable_entry(fs, policy, #[trigger] o[k]),
                WalkOutcome::Fails => walk_run(start, fs, n).0.status == WalkStatus::Failed,
                WalkOutcome::TooDeep => false,
            }
        }),
{
    let policy = WalkPolicy { max_depth: Some(MAX_DEPTH), skip_unreadable: true, report_others: false };
    lemma_limited_walk_not_too_deep(fs, policy, root, 0, MAX_DEPTH as nat);
    lemma_reports_are_entries(fs, policy, root, 0, MAX_DEPTH as nat);
    lemma_walk_reports_tree(root, policy, fs, MAX_DEPTH as nat)
}


/// Law: the search never asks to list a directory more than `MAX_DEPTH`
/// levels below its root, so files deeper than that are never searched.
pub proof fn lemma_search_depth_bounded(w: WalkView)
    requires
        walk_wf(w),
        w.policy == (WalkPolicy {
            max_depth: Some(MAX_DEPTH),
            skip_unreadable: true,
            report_others: false,
        }),
    ensures
        walk_wf(walk_step(w).0),
        walk_step(w).0.policy == w.policy,
        walk_step(w).1 matches WalkActionView::List { depth, .. } ==> depth <= MAX_DEPTH,
{
    lemma_walk_respects_depth(w);
}

impl SearchTextInFiles {
    /// What a call comes to: an empty query is answered at once with the
    /// empty text; any other is a search under the `root` argument (or `.`),
    /// ignoring case when `case_insensitive` is true.
    pub fn plan(args: &ToolArgs) -> (r: SearchPlan)
        ensures
            search_query(args@).len() == 0 ==> (r matches SearchPlan::Answer(a) && a@.len() == 0),
            search_query(args@).len() != 0 ==> (r matches SearchPlan::Search(s) && s.query@
                == search_query(args@) && s.root@ == search_root(args@) && s.case_insensitive
                == search_ignores_case(args@)),
    {
        let query = match args.text("query") {
            Some(q) => q,
            None => String::new(),
        };
        let root = match args.text("root") {
            Some(r) => r,
            None => owned("."),
        };
        let case_insensitive = match args.flag("case_insensitive") {
            Some(b) => b,
            None => false,
        };
        if query.as_str().is_empty() {
            return SearchPlan::Answer(String::new());
        }
        SearchPlan::Search(SearchRequest { query, root, case_insensitive })
    }

    /// How the search walks the tree: directories down to `MAX_DEPTH`
    /// levels below the root, passing over those it cannot open, and only
    /// regular files searched.
    pub fn walk_policy() -> (p: WalkPolicy)
        ensures
            p == (WalkPolicy {
                max_depth: Some(MAX_DEPTH),
                skip_unreadable: true,
                report_others: false,
            }),
    {
        WalkPolicy { max_depth: Some(MAX_DEPTH), skip_unreadable: true, report_others: false }
    }

    /// The reports for one file met by the search: none when its contents
    /// could not be read as text, else those of its matching lines.
    pub fn file_matches(request: &SearchRequest, path: &str, content: Option<String>) -> (r: Vec<
        String,
    >)
        ensures
            match content {
                Some(c) => views(r@) == search_matches(
                    path@,
                    c@,
                    request.query@,
                    request.case_insensitive,
                ),
                None => r@.len() == 0,
            },
    {
        match content {
            Some(c) => Self::matching_lines(
                path,
                c.as_str(),
                request.query.as_str(),
                request.case_insensitive,
            ),
            None => Vec::new(),
        }
    }

    /// The reports of the lines of a file's `content` that hold `query`,
    /// the file shown as `path`.
    pub fn matching_lines(path: &str, content: &str, query: &str, case_insensitive: bool) -> (r: Vec<
        String,
    >)
        ensures
            views(r@) == search_matches(path@, content@, query@, case_insensitive),
    {
        let ls = split_lines(content);
        let needle = if case_insensitive {
            to_lowercase(query)
        } else {
            owned(query)
        };
        let ghost lv = views(ls@);
        let mut out: Vec<String> = Vec::new();
        let mut i: usize = 0;
        while i < ls.len()
            invariant
                i <= ls.len(),
                lv == views(ls@),
                lv == lines(content@),
                needle@ == search_needle(query@, case_insensitive),
                views(out@) == matches_in(path@, lv, needle@, case_insensitive, i as int),
            decreases ls.len() - i,
        {
            let line = &ls[i];
            assert(lv[i as int] == line@);
            let hay = if case_insensitive {
                to_lowercase(line.as_str())
            } else {
                owned(line.as_str())
            };
            if contains(hay.as_str(), needle.as_str()) {
                let mut report = owned(path);
                push_str(&mut report, ":");
                push_decimal(&mut report, (i + 1) as u64);
                push_str(&mut report, ": ");
                push_str(&mut report, line.as_str());
                let ghost before = out@;
                out.push(report);
                proof {
                    lemma_map_push(before, report, |s: String| s@);
                }
            }
            i = i + 1;
        }
        out
    }

    /// The tool's answer once the search under `root` is done, or failed.
    pub fn finish(root: &str, matches: Option<Vec<String>>) -> (r: Result<String, String>)
        ensures
            match search_result(
                root@,
                match matches {
                    Some(m) => Some(views(m@)),
                    None => None,
                },
            ) {
                Ok(t) => r is Ok && r->Ok_0@ == t,
                Err(e) => r is Err && r->Err_0@ == e,
            },
    {
        match matches {
            Some(m) => Ok(join_strings(&m, "\n")),
            None => {
                let mut msg = owned("failed to search files under ");
                let q = debug_text(root);
                push_str(&mut msg, q.as_str());
                Err(msg)
            },
        }
    }
}

} // verus!
