//! A walk through a directory tree, depth first and in listing order, as
//! `list_files` and `search_text_in_files` make it. The walk decides; the
//! program around it lists the directories it asks for and handles the
//! files it reports.

use vstd::prelude::*;

verus! {

/// What a directory entry is.
#[derive(Debug, PartialEq, Eq, Structural, Clone, Copy)]
pub enum EntryKind {
    /// A directory (or a link to one).
    Dir,
    /// A regular file (or a link to one).
    File,
    /// Anything else, such as a dangling link.
    Other,
}

/// One entry of a directory listing.
#[derive(Debug)]
pub struct DirEntry {
    /// The entry's path, the listed directory's path joined with its name.
    pub path: String,
    pub kind: EntryKind,
}

/// A directory entry as plain data.
pub struct DirEntryView {
    pub path: Seq<char>,
    pub kind: EntryKind,
}

impl View for DirEntry {
    type V = DirEntryView;

    open spec fn view(&self) -> DirEntryView {
        DirEntryView { path: self.path@, kind: self.kind }
    }
}

/// The views of a listing's entries.
pub open spec fn entry_views(v: Seq<DirEntry>) -> Seq<DirEntryView> {
    v.map_values(|e: DirEntry| e@)
}

/// What listing a directory gave.
#[derive(Debug)]
pub enum Listing {
    /// The path is not a directory.
    NotDir,
    /// The directory could not be opened.
    Unreadable,
    /// Reading one of its entries failed.
    Broken,
    /// Its entries, in the order the system gave them.
    Entries(Vec<DirEntry>),
}

/// A listing as plain data.
pub enum ListingView {
    NotDir,
    Unreadable,
    Broken,
    Entries(Seq<DirEntryView>),
}

impl View for Listing {
    type V = ListingView;

    open spec fn view(&self) -> ListingView {
        match self {
            Listing::NotDir => ListingView::NotDir,
            Listing::Unreadable => ListingView::Unreadable,
            Listing::Broken => ListingView::Broken,
            Listing::Entries(v) => ListingView::Entries(entry_views(v@)),
        }
    }
}

/// How a walk treats what it meets.
#[derive(Debug, PartialEq, Eq, Structural, Clone, Copy)]
pub struct WalkPolicy {
    /// The deepest level whose directories are listed (the root is at level
    /// 0), or no limit.
    pub max_depth: Option<usize>,
    /// Whether a directory that cannot be opened is passed over (otherwise
    /// the walk fails).
    pub skip_unreadable: bool,
    /// Whether entries that are neither directories nor regular files are
    /// reported along with the files.
    pub report_others: bool,
}

/// What the program around the walk is to do next.
#[derive(Debug)]
pub enum WalkAction {
    /// List this directory and hand the listing to `on_listing`.
    List { path: String, depth: usize },
    /// Handle this file.
    Visit { path: String },
    /// Nothing this time; take the next step.
    Skip,
    /// The walk is complete.
    Done,
    /// The walk failed.
    Failed,
}

/// A walk action as plain data.
pub enum WalkActionView {
    List { path: Seq<char>, depth: usize },
    Visit { path: Seq<char> },
    Skip,
    Done,
    Failed,
}

impl View for WalkAction {
    type V = WalkActionView;

    open spec fn view(&self) -> WalkActionView {
        match self {
            WalkAction::List { path, depth } => WalkActionView::List { path: path@, depth: *depth },
            WalkAction::Visit { path } => WalkActionView::Visit { path: path@ },
            WalkAction::Skip => WalkActionView::Skip,
            WalkAction::Done => WalkActionView::Done,
            WalkAction::Failed => WalkActionView::Failed,
        }
    }
}

/// Where a walk stands.
#[derive(Debug, PartialEq, Eq, Structural, Clone, Copy)]
pub enum WalkStatus {
    /// The root is still to be listed.
    Start,
    /// Entries are being gone through.
    Running,
    /// A listing is awaited for a directory at this depth.
    Awaiting(usize),
    /// The walk is complete.
    Done,
    /// The walk failed.
    Failed,
}

/// A directory being gone through: its entries, the index of the next one,
/// and its depth.
#[derive(Debug)]
pub struct Frame {
    entries: Vec<DirEntry>,
    next: usize,
    depth: usize,
}

/// A frame as plain data.
pub struct FrameView {
    pub entries: Seq<DirEntryView>,
    pub next: int,
    pub depth: int,
}

impl View for Frame {
    type V = FrameView;

    closed spec fn view(&self) -> FrameView {
        FrameView {
            entries: entry_views(self.entries@),
            next: self.next as int,
            depth: self.depth as int,
        }
    }
}

/// A walk as plain data: the root, the stack of directories being gone
/// through (the innermost last), the policy and the status.
pub struct WalkView {
    pub root: Seq<char>,
    pub frames: Seq<FrameView>,
    pub policy: WalkPolicy,
    pub status: WalkStatus,
}

/// Whether a directory at `depth` is listed.
pub open spec fn depth_allowed(policy: WalkPolicy, depth: int) -> bool {
    match policy.max_depth {
        Some(m) => depth <= m,
        None => true,
    }
}

/// A walk's invariant: every directory gone through, and the one whose
/// listing is awaited, lies within the depth limit; and each frame's next
/// index is within its entries.
pub open spec fn walk_wf(w: WalkView) -> bool {
    &&& forall|i: int|
        0 <= i < w.frames.len() ==> {
            &&& 0 <= (#[trigger] w.frames[i]).next <= w.frames[i].entries.len()
            &&& 0 <= w.frames[i].depth
            &&& depth_allowed(w.policy, w.frames[i].depth)
        }
    &&& w.status matches WalkStatus::Awaiting(d) ==> depth_allowed(w.policy, d as int)
}

/// One step of a walk that is not awaiting a listing.
pub open spec fn walk_step(w: WalkView) -> (WalkView, WalkActionView) {
    match w.status {
        WalkStatus::Start => (
            WalkView { status: WalkStatus::Awaiting(0), ..w },
            WalkActionView::List { path: w.root, depth: 0 },
        ),
        WalkStatus::Done => (w, WalkActionView::Done),
        WalkStatus::Failed => (w, WalkActionView::Failed),
        WalkStatus::Awaiting(_) => (w, WalkActionView::Skip),
        WalkStatus::Running => if w.frames.len() == 0 {
            (WalkView { status: WalkStatus::Done, ..w }, WalkActionView::Done)
        } else {
            let top = w.frames.last();
            if top.next >= top.entries.len() {
                (WalkView { frames: w.frames.drop_last(), ..w }, WalkActionView::Skip)
            } else {
                let entry = top.entries[top.next];
                let frames = w.frames.update(
                    w.frames.len() - 1,
                    FrameView { next: top.next + 1, ..top },
                );
                let moved = WalkView { frames, ..w };
                match entry.kind {
                    EntryKind::Dir => if depth_allowed(w.policy, top.depth + 1) && top.depth + 1
                        <= usize::MAX {
                        (
                            WalkView { status: WalkStatus::Awaiting((top.depth + 1) as usize), ..moved },
                            WalkActionView::List { path: entry.path, depth: (top.depth + 1) as usize },
                        )
                    } else {
                        (moved, WalkActionView::Skip)
                    },
                    EntryKind::File => (moved, WalkActionView::Visit { path: entry.path }),
                    EntryKind::Other => if w.policy.report_others {
                        (moved, WalkActionView::Visit { path: entry.path })
                    } else {
                        (moved, WalkActionView::Skip)
                    },
                }
            }
        },
    }
}

/// What a walk does with the listing of the directory it awaits, at `depth`.
pub open spec fn listing_step(w: WalkView, depth: usize, listing: ListingView) -> WalkView {
    match listing {
        ListingView::NotDir => WalkView { status: WalkStatus::Running, ..w },
        ListingView::Unreadable => if w.policy.skip_unreadable {
            WalkView { status: WalkStatus::Running, ..w }
        } else {
            WalkView { status: WalkStatus::Failed, ..w }
        },
        ListingView::Broken => WalkView { status: WalkStatus::Failed, ..w },
        ListingView::Entries(v) => WalkView {
            frames: w.frames.push(FrameView { entries: v, next: 0, depth: depth as int }),
            status: WalkStatus::Running,
            ..w
        },
    }
}

/// A walk through the tree under a root directory.
#[derive(Debug)]
pub struct DirWalk {
    root: String,
    frames: Vec<Frame>,
    policy: WalkPolicy,
    status: WalkStatus,
}

impl View for DirWalk {
    type V = WalkView;

    closed spec fn view(&self) -> WalkView {
        WalkView {
            root: self.root@,
            frames: self.frames@.map_values(|f: Frame| f@),
            policy: self.policy,
            status: self.status,
        }
    }
}

impl DirWalk {
    /// A walk that starts by listing `root`.
    pub fn new(root: String, policy: WalkPolicy) -> (w: DirWalk)
        ensures
            w@ == (WalkView { root: root@, frames: seq![], policy, status: WalkStatus::Start }),
            walk_wf(w@),
    {
        let w = DirWalk { root, frames: Vec::new(), policy, status: WalkStatus::Start };
        assert(w@.frames =~= seq![]);
        w
    }

    /// Where the walk stands.
    pub fn status(&self) -> (s: WalkStatus)
        ensures
            s == self@.status,
    {
        self.status
    }

    fn allowed(&self, depth: usize) -> (r: bool)
        ensures
            r == depth_allowed(self.policy, depth as int),
    {
        match self.policy.max_depth {
            Some(m) => depth <= m,
            None => true,
        }
    }

    /// The walk's next step.
    pub fn step(&mut self) -> (a: WalkAction)
        requires
            walk_wf(old(self)@),
        ensures
            walk_wf(final(self)@),
            final(self)@ == walk_step(old(self)@).0,
            a@ == walk_step(old(self)@).1,
    {
        let ghost w = self@;
        match self.status {
            WalkStatus::Start => {
                self.status = WalkStatus::Awaiting(0);
                WalkAction::List { path: self.root.clone(), depth: 0 }
            },
            WalkStatus::Done => WalkAction::Done,
            WalkStatus::Failed => WalkAction::Failed,
            WalkStatus::Awaiting(_) => WalkAction::Skip,
            WalkStatus::Running => {
                let n = self.frames.len();
                if n == 0 {
                    self.status = WalkStatus::Done;
                    return WalkAction::Done;
                }
                assert(self.frames@[n - 1]@ == w.frames.last());
                let next = self.frames[n - 1].next;
                let count = self.frames[n - 1].entries.len();
                let depth = self.frames[n - 1].depth;
                if next >= count {
                    self.frames.pop();
                    assert(self@.frames =~= w.frames.drop_last());
                    return WalkAction::Skip;
                }
                let path = self.frames[n - 1].entries[next].path.clone();
                let kind = self.frames[n - 1].entries[next].kind;
                assert(self.frames@[n - 1].entries@[next as int]@ == w.frames.last().entries[next as int]);
                let mut frame = self.frames.pop().unwrap();
                frame.next = next + 1;
                self.frames.push(frame);
                assert(self@.frames =~= w.frames.update(
                    w.frames.len() - 1,
                    FrameView { next: next + 1, ..w.frames.last() },
                ));
                match kind {
                    EntryKind::Dir => {
                        if depth < usize::MAX && self.allowed(depth + 1) {
                            self.status = WalkStatus::Awaiting(depth + 1);
                            WalkAction::List { path, depth: depth + 1 }
                        } else {
                            WalkAction::Skip
                        }
                    },
                    EntryKind::File => WalkAction::Visit { path },
                    EntryKind::Other => {
                        if self.policy.report_others {
                            WalkAction::Visit { path }
                        } else {
                            WalkAction::Skip
                        }
                    },
                }
            },
        }
    }

    /// Hands the walk the listing of the directory it asked for.
    pub fn on_listing(&mut self, listing: Listing)
        requires
            walk_wf(old(self)@),
            old(self)@.status is Awaiting,
        ensures
            walk_wf(final(self)@),
            final(self)@ == listing_step(old(self)@, old(self)@.status->Awaiting_0, listing@),
    {
        let ghost w = self@;
        let depth = match self.status {
            WalkStatus::Awaiting(d) => d,
            _ => 0,
        };
        match listing {
            Listing::NotDir => {
                self.status = WalkStatus::Running;
            },
            Listing::Unreadable => {
                if self.policy.skip_unreadable {
                    self.status = WalkStatus::Running;
                } else {
                    self.status = WalkStatus::Failed;
                }
            },
            Listing::Broken => {
                self.status = WalkStatus::Failed;
            },
            Listing::Entries(entries) => {
                let frame = Frame { entries, next: 0, depth };
                self.frames.push(frame);
                self.status = WalkStatus::Running;
                assert(self@.frames =~= w.frames.push(
                    FrameView { entries: entry_views(entries@), next: 0, depth: depth as int },
                ));
            },
        }
    }
}

/// Law: a walk stays within its depth limit: it only ever asks to list a
/// directory at a depth the policy allows.
pub proof fn lemma_walk_respects_depth(w: WalkView)
    requires
        walk_wf(w),
    ensures
        walk_wf(walk_step(w).0),
        walk_step(w).1 matches WalkActionView::List { depth, .. } ==> depth_allowed(
            w.policy,
            depth as int,
        ),
{
}

/// Law: a walk fails only on a listing that is broken, or unreadable when
/// unreadable directories are not passed over; once done or failed it stays
/// so.
pub proof fn lemma_walk_failure(w: WalkView, depth: usize, listing: ListingView)
    ensures
        listing_step(w, depth, listing).status == WalkStatus::Failed ==> (listing
            is Broken || (listing is Unreadable && !w.policy.skip_unreadable)),
        w.status == WalkStatus::Done ==> walk_step(w).0 == w && walk_step(w).1 is Done,
        w.status == WalkStatus::Failed ==> walk_step(w).0 == w && walk_step(w).1 is Failed,
{
}


/// What a whole walk comes to.
pub enum WalkOutcome {
    /// It completes, having reported these paths in this order.
    Reports(Seq<Seq<char>>),
    /// It fails.
    Fails,
    /// The tree is deeper than the bound the outcome was computed to.
    TooDeep,
}

/// Whether the walk goes into a directory entry of a directory at `depth`.
pub open spec fn descends(policy: WalkPolicy, depth: int) -> bool {
    depth_allowed(policy, depth + 1) && depth + 1 <= usize::MAX
}

/// What walking the directory at `path`, `depth` levels below the root,
/// comes to, when `fs` gives the listing of each path and no directory lies
/// more than `h` levels below it: depth first, entries in listing order,
/// files (and, when the policy says so, other entries) reported, directories
/// walked when the policy allows their depth.
pub open spec fn listing_outcome(
    fs: spec_fn(Seq<char>) -> ListingView,
    policy: WalkPolicy,
    path: Seq<char>,
    depth: int,
    h: nat,
) -> WalkOutcome
    decreases h, 1nat, 0int,
{
    match fs(path) {
        ListingView::NotDir => WalkOutcome::Reports(seq![]),
        ListingView::Unreadable => if policy.skip_unreadable {
            WalkOutcome::Reports(seq![])
        } else {
            WalkOutcome::Fails
        },
        ListingView::Broken => WalkOutcome::Fails,
        ListingView::Entries(es) => entries_outcome(fs, policy, es, 0, depth, h),
    }
}

/// What going through the entries `es[i..]` of a directory at `depth`
/// comes to.
pub open spec fn entries_outcome(
    fs: spec_fn(Seq<char>) -> ListingView,
    policy: WalkPolicy,
    es: Seq<DirEntryView>,
    i: int,
    depth: int,
    h: nat,
) -> WalkOutcome
    decreases h, 0nat, es.len() - i,
{
    if i < 0 || i >= es.len() {
        WalkOutcome::Reports(seq![])
    } else {
        let e = es[i];
        let first = match e.kind {
            EntryKind::Dir => if descends(policy, depth) {
                if h == 0 {
                    WalkOutcome::TooDeep
                } else {
                    listing_outcome(fs, policy, e.path, depth + 1, (h - 1) as nat)
                }
            } else {
                WalkOutcome::Reports(seq![])
            },
            EntryKind::File => WalkOutcome::Reports(seq![e.path]),
            EntryKind::Other => if policy.report_others {
                WalkOutcome::Reports(seq![e.path])
            } else {
                WalkOutcome::Reports(seq![])
            },
        };
        match first {
            WalkOutcome::Reports(a) => match entries_outcome(fs, policy, es, i + 1, depth, h) {
                WalkOutcome::Reports(b) => WalkOutcome::Reports(a + b),
                other => other,
            },
            other => other,
        }
    }
}

/// One step of a walk whose `List` actions are answered from `fs`: the next
/// walk and the paths it reported.
pub open spec fn walk_turn(w: WalkView, fs: spec_fn(Seq<char>) -> ListingView) -> (
    WalkView,
    Seq<Seq<char>>,
) {
    let s = walk_step(w);
    match s.1 {
        WalkActionView::List { path, depth } => (listing_step(s.0, depth, fs(path)), seq![]),
        WalkActionView::Visit { path } => (s.0, seq![path]),
        _ => (s.0, seq![]),
    }
}

/// `n` steps of a walk answered from `fs`: the walk after them and the
/// paths reported, in order.
pub open spec fn walk_run(w: WalkView, fs: spec_fn(Seq<char>) -> ListingView, n: nat) -> (
    WalkView,
    Seq<Seq<char>>,
)
    decreases n,
{
    if n == 0 {
        (w, seq![])
    } else {
        let s = walk_turn(w, fs);
        let r = walk_run(s.0, fs, (n - 1) as nat);
        (r.0, s.1 + r.1)
    }
}

proof fn lemma_run_add(w: WalkView, fs: spec_fn(Seq<char>) -> ListingView, n1: nat, n2: nat)
    ensures
        walk_run(w, fs, n1 + n2).0 == walk_run(walk_run(w, fs, n1).0, fs, n2).0,
        walk_run(w, fs, n1 + n2).1 == walk_run(w, fs, n1).1 + walk_run(
            walk_run(w, fs, n1).0,
            fs,
            n2,
        ).1,
    decreases n1,
{
    if n1 == 0 {
        assert(seq![] + walk_run(w, fs, n2).1 =~= walk_run(w, fs, n2).1);
    } else {
        let s = walk_turn(w, fs);
        lemma_run_add(s.0, fs, (n1 - 1) as nat, n2);
        assert((n1 + n2 - 1) as nat == ((n1 - 1) as nat + n2) as nat);
        let a = s.1;
        let b = walk_run(s.0, fs, (n1 - 1) as nat).1;
        let c = walk_run(walk_run(s.0, fs, (n1 - 1) as nat).0, fs, n2).1;
        assert(a + (b + c) =~= (a + b) + c);
    }
}

proof fn lemma_run_one(w: WalkView, fs: spec_fn(Seq<char>) -> ListingView)
    ensures
        walk_run(w, fs, 1) == walk_turn(w, fs),
{
    let s = walk_turn(w, fs);
    assert(walk_run(s.0, fs, 0) == (s.0, Seq::<Seq<char>>::empty()));
    assert(s.1 + Seq::<Seq<char>>::empty() =~= s.1);
}

/// Going through the rest of the innermost directory: the walk reports what
/// `entries_outcome` says and comes back to the directories around it, or
/// fails when it says so.
proof fn lemma_frame_run(w: WalkView, fs: spec_fn(Seq<char>) -> ListingView, h: nat) -> (n: nat)
    requires
        w.status == WalkStatus::Running,
        w.frames.len() > 0,
        0 <= w.frames.last().next <= w.frames.last().entries.len(),
        0 <= w.frames.last().depth,
        !(entries_outcome(
            fs,
            w.policy,
            w.frames.last().entries,
            w.frames.last().next,
            w.frames.last().depth,
            h,
        ) is TooDeep),
    ensures
        match entries_outcome(
            fs,
            w.policy,
            w.frames.last().entries,
            w.frames.last().next,
            w.frames.last().depth,
            h,
        ) {
            WalkOutcome::Reports(o) => walk_run(w, fs, n) == (
                WalkView { frames: w.frames.drop_last(), ..w },
                o,
            ),
            WalkOutcome::Fails => walk_run(w, fs, n).0.status == WalkStatus::Failed,
            WalkOutcome::TooDeep => true,
        },
    decreases h, w.frames.last().entries.len() - w.frames.last().next,
{
    let top = w.frames.last();
    let es = top.entries;
    let i = top.next;
    let d = top.depth;
    let policy = w.policy;
    lemma_run_one(w, fs);
    if i >= es.len() {
        assert(walk_turn(w, fs).1 =~= Seq::<Seq<char>>::empty());
        return 1;
    }
    let e = es[i];
    let moved = WalkView {
        frames: w.frames.update(w.frames.len() - 1, FrameView { next: i + 1, ..top }),
        ..w
    };
    assert(moved.frames.last() == FrameView { next: i + 1, ..top });
    assert(moved.frames.drop_last() =~= w.frames.drop_last());
    let rest = entries_outcome(fs, policy, es, i + 1, d, h);
    match e.kind {
        EntryKind::Dir => {
            if descends(policy, d) {
                let sub = listing_outcome(fs, policy, e.path, d + 1, (h - 1) as nat);
                let awaiting = WalkView { status: WalkStatus::Awaiting((d + 1) as usize), ..moved };
                assert(walk_step(w) == (
                    awaiting,
                    WalkActionView::List { path: e.path, depth: (d + 1) as usize },
                ));
                let after = listing_step(awaiting, (d + 1) as usize, fs(e.path));
                assert(walk_turn(w, fs) == (after, Seq::<Seq<char>>::empty()));
                match fs(e.path) {
                    ListingView::NotDir => {
                        assert(after == moved);
                        assert(sub == WalkOutcome::Reports(Seq::<Seq<char>>::empty()));
                        let n2 = lemma_frame_run(moved, fs, h);
                        lemma_run_add(w, fs, 1, n2);
                        if let WalkOutcome::Reports(b) = rest {
                            assert(Seq::<Seq<char>>::empty() + b =~= b);
                        }
                        return 1 + n2;
                    },
                    ListingView::Unreadable => {
                        if policy.skip_unreadable {
                            assert(after == moved);
                            let n2 = lemma_frame_run(moved, fs, h);
                            lemma_run_add(w, fs, 1, n2);
                            if let WalkOutcome::Reports(b) = rest {
                                assert(Seq::<Seq<char>>::empty() + b =~= b);
                            }
                            return 1 + n2;
                        } else {
                            return 1;
                        }
                    },
                    ListingView::Broken => {
                        return 1;
                    },
                    ListingView::Entries(es2) => {
                        let child = WalkView {
                            frames: moved.frames.push(
                                FrameView { entries: es2, next: 0, depth: d + 1 },
                            ),
                            status: WalkStatus::Running,
                            ..moved
                        };
                        assert(after == child);
                        assert(child.frames.last() == FrameView {
                            entries: es2,
                            next: 0,
                            depth: d + 1,
                        });
                        assert(child.frames.drop_last() =~= moved.frames);
                        assert(sub == entries_outcome(fs, policy, es2, 0, d + 1, (h - 1) as nat));
                        let nc = lemma_frame_run(child, fs, (h - 1) as nat);
                        lemma_run_add(w, fs, 1, nc);
                        match sub {
                            WalkOutcome::Reports(a) => {
                                assert(WalkView { frames: child.frames.drop_last(), ..child }
                                    == moved);
                                let nr = lemma_frame_run(moved, fs, h);
                                lemma_run_add(w, fs, 1 + nc, nr);
                                if let WalkOutcome::Reports(b) = rest {
                                    assert(Seq::<Seq<char>>::empty() + a + b =~= a + b);
                                }
                                return 1 + nc + nr;
                            },
                            _ => {
                                return 1 + nc;
                            },
                        }
                    },
                }
            } else {
                assert(walk_turn(w, fs) == (moved, Seq::<Seq<char>>::empty()));
                let n2 = lemma_frame_run(moved, fs, h);
                lemma_run_add(w, fs, 1, n2);
                if let WalkOutcome::Reports(b) = rest {
                    assert(Seq::<Seq<char>>::empty() + b =~= b);
                }
                return 1 + n2;
            }
        },
        EntryKind::File => {
            assert(walk_turn(w, fs) == (moved, seq![e.path]));
            let n2 = lemma_frame_run(moved, fs, h);
            lemma_run_add(w, fs, 1, n2);
            return 1 + n2;
        },
        EntryKind::Other => {
            if policy.report_others {
                assert(walk_turn(w, fs) == (moved, seq![e.path]));
            } else {
                assert(walk_turn(w, fs) == (moved, Seq::<Seq<char>>::empty()));
            }
            let n2 = lemma_frame_run(moved, fs, h);
            lemma_run_add(w, fs, 1, n2);
            if let WalkOutcome::Reports(b) = rest {
                assert(Seq::<Seq<char>>::empty() + b =~= b);
            }
            return 1 + n2;
        },
    }
}

/// Whether `path` is the path of an entry that a walk with this policy
/// reports: a regular file, or another entry that is not a directory when
/// the policy reports those, in some listing that `fs` gives.
pub open spec fn reportable_entry(
    fs: spec_fn(Seq<char>) -> ListingView,
    policy: WalkPolicy,
    path: Seq<char>,
) -> bool {
    exists|q: Seq<char>, j: int|
        #![trigger fs(q), entry_at(fs(q), j)]
        entry_at(fs(q), j) matches Some(e) && e.path == path && (e.kind == EntryKind::File || (
        e.kind == EntryKind::Other && policy.report_others))
}

/// The `j`-th entry of a listing, if it has one.
pub open spec fn entry_at(l: ListingView, j: int) -> Option<DirEntryView> {
    match l {
        ListingView::Entries(es) => if 0 <= j < es.len() {
            Some(es[j])
        } else {
            None
        },
        _ => None,
    }
}

/// Law: everything a walk reports is the path of a reportable entry of a
/// listing: never a directory.
pub proof fn lemma_reports_are_entries(
    fs: spec_fn(Seq<char>) -> ListingView,
    policy: WalkPolicy,
    path: Seq<char>,
    depth: int,
    h: nat,
)
    ensures
        listing_outcome(fs, policy, path, depth, h) matches WalkOutcome::Reports(o) ==> forall|k: int|
            0 <= k < o.len() ==> reportable_entry(fs, policy, #[trigger] o[k]),
    decreases h, 1nat, 0int,
{
    if let ListingView::Entries(es) = fs(path) {
        lemma_entries_reports_are_entries(fs, policy, path, es, 0, depth, h);
    }
}

proof fn lemma_entries_reports_are_entries(
    fs: spec_fn(Seq<char>) -> ListingView,
    policy: WalkPolicy,
    dir: Seq<char>,
    es: Seq<DirEntryView>,
    i: int,
    depth: int,
    h: nat,
)
    requires
        fs(dir) == ListingView::Entries(es),
    ensures
        entries_outcome(fs, policy, es, i, depth, h) matches WalkOutcome::Reports(o) ==> forall|
            k: int,
        | 0 <= k < o.len() ==> reportable_entry(fs, policy, #[trigger] o[k]),
    decreases h, 0nat, es.len() - i,
{
    if 0 <= i < es.len() {
        let e = es[i];
        lemma_entries_reports_are_entries(fs, policy, dir, es, i + 1, depth, h);
        if e.kind == EntryKind::Dir && descends(policy, depth) && h > 0 {
            lemma_reports_are_entries(fs, policy, e.path, depth + 1, (h - 1) as nat);
        }
        if let WalkOutcome::Reports(o) = entries_outcome(fs, policy, es, i, depth, h) {
            assert(entry_at(fs(dir), i) == Some(e));
            assert forall|k: int| 0 <= k < o.len() implies reportable_entry(
                fs,
                policy,
                #[trigger] o[k],
            ) by {
                let rest = entries_outcome(fs, policy, es, i + 1, depth, h);
                if e.kind == EntryKind::Dir {
                    if descends(policy, depth) {
                        let a = listing_outcome(fs, policy, e.path, depth + 1, (h - 1) as nat)->Reports_0;
                        let b = rest->Reports_0;
                        assert(o == a + b);
                        if k < a.len() {
                            assert(o[k] == a[k]);
                        } else {
                            assert(o[k] == b[k - a.len()]);
                        }
                    } else {
                        let b = rest->Reports_0;
                        assert(o =~= b);
                    }
                } else {
                    let b = rest->Reports_0;
                    if e.kind == EntryKind::File || policy.report_others {
                        assert(o == seq![e.path] + b);
                        if k == 0 {
                            assert(o[k] == e.path);
                        } else {
                            assert(o[k] == b[k - 1]);
                        }
                    } else {
                        assert(o =~= b);
                    }
                }
            }
        }
    }
}

/// Law: a whole walk, its listings answered from `fs`, does what
/// `listing_outcome` says of the root: when no directory it descends into
/// lies more than `h` levels below the root, it completes after reporting
/// exactly the paths of the outcome, in its order (each reported entry
/// once, depth first, in listing order, no directory), or it fails when the
/// outcome fails.
pub proof fn lemma_walk_reports_tree(
    root: Seq<char>,
    policy: WalkPolicy,
    fs: spec_fn(Seq<char>) -> ListingView,
    h: nat,
) -> (n: nat)
    requires
        !(listing_outcome(fs, policy, root, 0, h) is TooDeep),
    ensures
        ({
            let start = WalkView { root, frames: seq![], policy, status: WalkStatus::Start };
            match listing_outcome(fs, policy, root, 0, h) {
                WalkOutcome::Reports(o) => walk_run(start, fs, n).0.status == WalkStatus::Done
                    && walk_run(start, fs, n).1 == o,
                WalkOutcome::Fails => walk_run(start, fs, n).0.status == WalkStatus::Failed,
                WalkOutcome::TooDeep => true,
            }
        }),
{
    let start = WalkView { root, frames: seq![], policy, status: WalkStatus::Start };
    let awaiting = WalkView { status: WalkStatus::Awaiting(0), ..start };
    assert(walk_step(start) == (awaiting, WalkActionView::List { path: root, depth: 0 }));
    let after = listing_step(awaiting, 0, fs(root));
    assert(walk_turn(start, fs) == (after, Seq::<Seq<char>>::empty()));
    lemma_run_one(start, fs);
    let empty_running = WalkView { status: WalkStatus::Running, ..start };
    let done = WalkView { status: WalkStatus::Done, ..start };
    assert(walk_turn(empty_running, fs) == (done, Seq::<Seq<char>>::empty()));
    lemma_run_one(empty_running, fs);
    match fs(root) {
        ListingView::NotDir => {
            lemma_run_add(start, fs, 1, 1);
            assert(walk_run(start, fs, 1).1 =~= Seq::<Seq<char>>::empty());
            return 2;
        },
        ListingView::Unreadable => {
            if policy.skip_unreadable {
                lemma_run_add(start, fs, 1, 1);
                assert(walk_run(start, fs, 1).1 =~= Seq::<Seq<char>>::empty());
                return 2;
            } else {
                return 1;
            }
        },
        ListingView::Broken => {
            return 1;
        },
        ListingView::Entries(es) => {
            let first = WalkView {
                frames: seq![FrameView { entries: es, next: 0, depth: 0 }],
                status: WalkStatus::Running,
                ..start
            };
            assert(after == first);
            assert(first.frames.last() == FrameView { entries: es, next: 0, depth: 0 });
            let n1 = lemma_frame_run(first, fs, h);
            lemma_run_add(start, fs, 1, n1);
            match listing_outcome(fs, policy, root, 0, h) {
                WalkOutcome::Reports(o) => {
                    assert(first.frames.drop_last() =~= Seq::<FrameView>::empty());
                    assert(WalkView { frames: first.frames.drop_last(), ..first } == empty_running);
                    lemma_run_add(start, fs, 1 + n1, 1);
                    assert(Seq::<Seq<char>>::empty() + o + Seq::<Seq<char>>::empty() =~= o);
                    return 1 + n1 + 1;
                },
                _ => {
                    return 1 + n1;
                },
            }
        },
    }
}

/// Law: with a depth limit, a walk never goes too deep for a bound of `h`
/// levels that reaches the limit: it descends into no directory below it.
pub proof fn lemma_limited_walk_not_too_deep(
    fs: spec_fn(Seq<char>) -> ListingView,
    policy: WalkPolicy,
    path: Seq<char>,
    depth: int,
    h: nat,
)
    requires
        policy.max_depth is Some,
        0 <= depth,
        h + depth >= policy.max_depth->0,
    ensures
        !(listing_outcome(fs, policy, path, depth, h) is TooDeep),
    decreases h, 1nat, 0int,
{
    if let ListingView::Entries(es) = fs(path) {
        lemma_limited_entries_not_too_deep(fs, policy, es, 0, depth, h);
    }
}

proof fn lemma_limited_entries_not_too_deep(
    fs: spec_fn(Seq<char>) -> ListingView,
    policy: WalkPolicy,
    es: Seq<DirEntryView>,
    i: int,
    depth: int,
    h: nat,
)
    requires
        policy.max_depth is Some,
        0 <= depth,
        h + depth >= policy.max_depth->0,
    ensures
        !(entries_outcome(fs, policy, es, i, depth, h) is TooDeep),
    decreases h, 0nat, es.len() - i,
{
    if 0 <= i < es.len() {
        lemma_limited_entries_not_too_deep(fs, policy, es, i + 1, depth, h);
        if es[i].kind == EntryKind::Dir && descends(policy, depth) {
            lemma_limited_walk_not_too_deep(fs, policy, es[i].path, depth + 1, (h - 1) as nat);
        }
    }
}

} // verus!
