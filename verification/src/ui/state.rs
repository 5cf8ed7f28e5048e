//! The interactive list's state machine: keys in, commands out. It never
//! touches the terminal, the disk or git; the event loop does what the
//! commands ask and feeds results back in.
use vstd::prelude::*;

use crate::actions::strings_view;
use crate::discover::Problem;
use crate::drift::{is_drifted, sort_by, Sort, SORT_COUNT};
use crate::status::RepoStatus;
use crate::text::{
    chars_of, find_char, owned, push_char, push_decimal, push_str, seq_lt, slice_chars, str_contains, str_eq,
    str_lt, string_from,
};
use crate::ui::model::{
    ActKind, AppView, CommandView, JobView, PendingView, act, advance_job, begin_job, begin_scan, clamp_selection,
    confirm, display_name_of, end_job, finish_scan, jobs_without, mark_all, mark_range, marked_visible, marks_present,
    push_status, sweep, targets, toggle_mark, warn_no_targets, detail_command, find_path, lemma_visible_idx_bounds,
    move_by, passes_filters, scroll_pane, selected_path, set_toast, shown, spec_namespace, spec_selected, spec_verb,
    spec_visible, visible_idx, visible_idx_upto, with, without, choice_position, choose_branch, choose_namespace,
    choose_sort, confirm_branch_delete, confirm_stash_drop, count_in, diff_highlighted_branch, head_position,
    move_picker, namespace_choices, namespaces, namespaces_upto, ns_insert, ns_pos, open_branch_picker, open_namespaces,
    open_sort, open_stash_picker, picker_index, sort_at, upstream_target, on_key_confirm, on_key_namespaces,
    on_key_branches, on_key_stashes, on_key_sort, on_key_pane, on_key_overlay, on_key_filtering, on_key_list,
    on_char_list, on_key, path_command,
};
use crate::ui::laws::{
    law_keys_keep_the_list_sound, law_other_calls_keep_the_list_sound, law_scans_keep_the_list_sound, list_ok,
};
use crate::ui::picker::Picker;

verus! {

/// What the event loop is asked to do.
#[derive(Debug, Clone, PartialEq, Eq)]
pub enum Command {
    /// Nothing for the loop to do.
    Nothing,
    Quit,
    /// Network and worktree actions apply to the marked set, or to the
    /// selected row when nothing is marked.
    Fetch(Vec<String>),
    FetchAll,
    Pull(Vec<String>),
    /// Prune remote refs, then delete local branches whose upstream is gone.
    /// Only ever reached via a confirmation.
    Prune(Vec<String>),
    Shell(String),
    Editor(String),
    Diff(String),
    Log(String),
    /// Diff against the repository's default branch, resolved by the caller
    /// from the loaded detail.
    AncestorDiff(String),
    Rescan,
    LoadDetail(String),
    OpenBranches,
    Checkout(String, String),
    /// Diff a branch from the picker against the default branch, without
    /// checking it out first.
    BranchDiff(String, String),
    /// Only ever reached via a confirmation.
    DeleteBranch(String, String),
    OpenStashes,
    ShowStash(String, usize),
    DropStash(String, usize),
}

impl View for Command {
    type V = CommandView;

    open spec fn view(&self) -> CommandView {
        match self {
            Command::Nothing => CommandView::Nothing,
            Command::Quit => CommandView::Quit,
            Command::Fetch(v) => CommandView::Fetch(strings_view(v@)),
            Command::FetchAll => CommandView::FetchAll,
            Command::Pull(v) => CommandView::Pull(strings_view(v@)),
            Command::Prune(v) => CommandView::Prune(strings_view(v@)),
            Command::Shell(p) => CommandView::Shell(p@),
            Command::Editor(p) => CommandView::Editor(p@),
            Command::Diff(p) => CommandView::Diff(p@),
            Command::Log(p) => CommandView::Log(p@),
            Command::AncestorDiff(p) => CommandView::AncestorDiff(p@),
            Command::Rescan => CommandView::Rescan,
            Command::LoadDetail(p) => CommandView::LoadDetail(p@),
            Command::OpenBranches => CommandView::OpenBranches,
            Command::Checkout(p, b) => CommandView::Checkout(p@, b@),
            Command::BranchDiff(p, b) => CommandView::BranchDiff(p@, b@),
            Command::DeleteBranch(p, b) => CommandView::DeleteBranch(p@, b@),
            Command::OpenStashes => CommandView::OpenStashes,
            Command::ShowStash(p, i) => CommandView::ShowStash(p@, *i as nat),
            Command::DropStash(p, i) => CommandView::DropStash(p@, *i as nat),
        }
    }
}

/// A destructive action waiting for the user to confirm it.
#[derive(Debug, Clone, PartialEq, Eq)]
pub struct Pending {
    pub kind: Destructive,
    pub targets: Vec<String>,
    /// The stash being dropped, for `Destructive::StashDrop` only.
    pub stash: Option<usize>,
    /// The branch being deleted, for `Destructive::BranchDelete` only.
    pub branch: Option<String>,
    /// What the user is about to lose, already counted up for display.
    pub summary: String,
}

impl View for Pending {
    type V = PendingView;

    open spec fn view(&self) -> PendingView {
        PendingView {
            kind: self.kind,
            targets: strings_view(self.targets@),
            stash: match self.stash {
                Some(i) => Some(i as nat),
                None => None,
            },
            branch: match self.branch {
                Some(b) => Some(b@),
                None => None,
            },
            summary: self.summary@,
        }
    }
}

#[derive(Debug, Clone, Copy, PartialEq, Eq, Structural)]
pub enum Destructive {
    Prune,
    StashDrop,
    BranchDelete,
}

impl Destructive {
    pub fn verb(self) -> (r: &'static str)
        ensures
            r@ == spec_verb(self),
    {
        match self {
            Destructive::Prune => "prune remotes and delete branches whose upstream is gone in",
            Destructive::StashDrop => "drop",
            Destructive::BranchDelete => "delete branch",
        }
    }
}

#[derive(Debug, Clone, Copy, PartialEq, Eq, Structural)]
pub enum Pane {
    List,
    Problems,
    Help,
    Confirm,
    Namespaces,
    Branches,
    Stashes,
    Sort,
}

/// One row of the branch picker, built by the event loop from the loaded
/// detail.
#[derive(Debug, Clone, PartialEq, Eq)]
pub struct BranchChoice {
    pub name: String,
    pub ahead: u32,
    pub behind: u32,
    pub has_upstream: bool,
    pub is_head: bool,
}

/// One row of the stash picker, built by the event loop from the loaded
/// detail.
#[derive(Debug, Clone, PartialEq, Eq)]
pub struct StashChoice {
    pub index: usize,
    pub message: String,
}

/// Background work in flight. `total == 0` means the size is not yet known.
#[derive(Debug, Clone, PartialEq, Eq)]
pub struct Job {
    pub id: u64,
    pub label: String,
    pub done: usize,
    pub total: usize,
}

pub open spec fn job_view(j: Job) -> JobView {
    JobView { id: j.id, label: j.label@, done: j.done as nat, total: j.total as nat }
}

/// The abstract list of jobs.
pub open spec fn jobs_view(s: Seq<Job>) -> Seq<JobView> {
    s.map_values(|j: Job| job_view(j))
}

/// A key as the terminal reports it.
#[derive(Debug, Clone, Copy, PartialEq, Eq, Structural)]
pub enum KeyCode {
    Char(char),
    Esc,
    Enter,
    Up,
    Down,
    PageUp,
    PageDown,
    Tab,
    Backspace,
    /// Any key the list has no binding for.
    Other,
}

/// The modifier keys held down with a key.
#[derive(Debug, Clone, Copy, PartialEq, Eq, Structural)]
pub struct Modifiers {
    pub shift: bool,
    pub control: bool,
    pub alt: bool,
    pub super_key: bool,
    pub hyper: bool,
    pub meta: bool,
}

impl Modifiers {
    pub fn none() -> (r: Modifiers)
        ensures
            !r.shift && !r.control && !r.alt && !r.super_key && !r.hyper && !r.meta,
    {
        Modifiers { shift: false, control: false, alt: false, super_key: false, hyper: false, meta: false }
    }

    pub fn shift() -> (r: Modifiers)
        ensures
            r.shift && !r.control && !r.alt && !r.super_key && !r.hyper && !r.meta,
    {
        Modifiers { shift: true, control: false, alt: false, super_key: false, hyper: false, meta: false }
    }

    pub fn control() -> (r: Modifiers)
        ensures
            !r.shift && r.control && !r.alt && !r.super_key && !r.hyper && !r.meta,
    {
        Modifiers { shift: false, control: true, alt: false, super_key: false, hyper: false, meta: false }
    }

    pub fn alt() -> (r: Modifiers)
        ensures
            !r.shift && !r.control && r.alt && !r.super_key && !r.hyper && !r.meta,
    {
        Modifiers { shift: false, control: false, alt: true, super_key: false, hyper: false, meta: false }
    }
}

/// A key press.
#[derive(Debug, Clone, Copy, PartialEq, Eq, Structural)]
pub struct Key {
    pub code: KeyCode,
    pub modifiers: Modifiers,
}

impl Key {
    pub fn new(code: KeyCode, modifiers: Modifiers) -> (r: Key)
        ensures
            r.code == code,
            r.modifiers == modifiers,
    {
        Key { code, modifiers }
    }

    /// A key pressed on its own.
    pub fn plain(code: KeyCode) -> (r: Key)
        ensures
            r.code == code,
            r.modifiers == Modifiers::spec_none(),
    {
        Key { code, modifiers: Modifiers::none() }
    }
}

impl Modifiers {
    pub open spec fn spec_none() -> Modifiers {
        Modifiers { shift: false, control: false, alt: false, super_key: false, hyper: false, meta: false }
    }
}

/// `std::time::Instant`, a reading of the monotonic clock; opaque here.
#[verifier::external_type_specification]
#[verifier::external_body]
pub struct ExInstant(std::time::Instant);

/// `Instant::now`: the monotonic clock's current reading. The clock is the
/// machine's, so nothing is claimed of it.
#[verifier::external_body]
fn instant_now() -> std::time::Instant {
    std::time::Instant::now()
}

/// `Instant::elapsed`: the time since `start` was read. It depends on the
/// clock, so nothing is claimed of it.
#[verifier::external_body]
fn elapsed_since(start: &std::time::Instant) -> std::time::Duration {
    start.elapsed()
}

/// `Duration::as_millis`: the whole milliseconds in `d`. A duration is
/// opaque here, so nothing is claimed of the count.
#[verifier::external_body]
fn whole_millis(d: &std::time::Duration) -> u128 {
    d.as_millis()
}

pub struct App {
    rows: Vec<RepoStatus>,
    problems: Vec<Problem>,
    selected: usize,
    filter: String,
    filtering: bool,
    drifted_only: bool,
    pane: Pane,
    jobs: Vec<Job>,
    next_job_id: u64,
    /// The scan's job, if one is running.
    scan_job: Option<u64>,
    /// The toast's text, when it was set, and for how many milliseconds
    /// from then it stays up.
    toast: Option<(String, std::time::Instant, u64)>,
    marked: Vec<String>,
    pending: Option<Pending>,
    default_branches: Vec<String>,
    sort: Sort,
    /// The repository the last `Space` landed on, and whether it marked or
    /// unmarked. Held by path so a background re-sort cannot shift it.
    anchor: Option<(String, bool)>,
    /// Namespace filter, chosen from the `n` picker. `None` shows every one.
    group: Option<String>,
    /// Cursor inside whichever popover is open.
    picker: Option<Picker>,
    branch_choices: Vec<BranchChoice>,
    stash_choices: Vec<StashChoice>,
    /// The repository the open popover describes. Actions taken from it use
    /// this, not the cursor: the cursor can move while the popover is up.
    picker_repo: Option<String>,
    /// How far the detail pane is scrolled, in lines.
    pane_scroll: u16,
    /// Flips the default visibility of the detail pane.
    detail_toggled: bool,
    /// The repository under the cursor when a scan began.
    pending_selection: Option<String>,
}

pub open spec fn opt_str(o: Option<String>) -> Option<Seq<char>> {
    match o {
        Some(s) => Some(s@),
        None => None,
    }
}

impl View for App {
    type V = AppView;

    closed spec fn view(&self) -> AppView {
        AppView {
            rows: self.rows@,
            problems: self.problems@,
            selected: self.selected as int,
            filter: self.filter@,
            filtering: self.filtering,
            drifted_only: self.drifted_only,
            pane: self.pane,
            jobs: jobs_view(self.jobs@),
            next_job_id: self.next_job_id as int,
            scan_job: self.scan_job,
            toast: match self.toast {
                Some(t) => Some(t.0@),
                None => None,
            },
            marked: strings_view(self.marked@),
            pending: match self.pending {
                Some(p) => Some(p@),
                None => None,
            },
            default_branches: self.default_branches@,
            sort: self.sort,
            anchor: match self.anchor {
                Some(a) => Some((a.0@, a.1)),
                None => None,
            },
            group: opt_str(self.group),
            picker: match self.picker {
                Some(p) => Some((p.spec_index(), p.spec_len())),
                None => None,
            },
            branch_choices: self.branch_choices@,
            stash_choices: self.stash_choices@,
            picker_repo: opt_str(self.picker_repo),
            pane_scroll: self.pane_scroll as int,
            detail_toggled: self.detail_toggled,
            pending_selection: opt_str(self.pending_selection),
        }
    }
}

/// Room left in the job counters: a new job id, and one more step for
/// every job. (The counters are 64-bit; running out means the numbering
/// would overflow.)
pub open spec fn counters_ok(v: AppView) -> bool {
    v.next_job_id < u64::MAX && forall|i: int| 0 <= i < v.jobs.len() ==> #[trigger] v.jobs[i].done < usize::MAX
}

/// The path of the first row whose path is `p`.
fn find_row(rows: &Vec<RepoStatus>, p: &str) -> (r: Option<usize>)
    ensures
        match r {
            Some(i) => find_path(rows@, p@) == Some(i as int) && i < rows@.len(),
            None => find_path(rows@, p@) is None,
        },
{
    let mut i: usize = 0;
    while i < rows.len()
        invariant
            i <= rows@.len(),
            forall|k: int| 0 <= k < i ==> #[trigger] rows@[k].path@ != p@,
        decreases rows.len() - i,
    {
        if str_eq(rows[i].path.as_str(), p) {
            proof {
                lemma_find_path_first(rows@, p@, i as int);
            }
            return Some(i);
        }
        i += 1;
    }
    proof {
        lemma_find_path_none(rows@, p@);
    }
    None
}

pub(crate) proof fn lemma_find_path_first(rows: Seq<RepoStatus>, p: Seq<char>, i: int)
    requires
        0 <= i < rows.len(),
        rows[i].path@ == p,
        forall|k: int| 0 <= k < i ==> #[trigger] rows[k].path@ != p,
    ensures
        find_path(rows, p) == Some(i),
    decreases i,
{
    if i > 0 {
        assert forall|k: int| 0 <= k < i - 1 implies #[trigger] rows.drop_first()[k].path@ != p by {
            assert(rows.drop_first()[k] == rows[k + 1]);
        }
        assert(rows[0].path@ != p);
        lemma_find_path_first(rows.drop_first(), p, i - 1);
    }
}

pub(crate) proof fn lemma_find_path_none(rows: Seq<RepoStatus>, p: Seq<char>)
    requires
        forall|k: int| 0 <= k < rows.len() ==> #[trigger] rows[k].path@ != p,
    ensures
        find_path(rows, p) is None,
    decreases rows.len(),
{
    if rows.len() > 0 {
        assert(rows[0].path@ != p);
        assert forall|k: int| 0 <= k < rows.len() - 1 implies #[trigger] rows.drop_first()[k].path@ != p by {
            assert(rows.drop_first()[k] == rows[k + 1]);
        }
        lemma_find_path_none(rows.drop_first(), p);
    }
}

/// Whether the list `m` holds the text `p`.
fn contains_str(m: &Vec<String>, p: &str) -> (r: bool)
    ensures
        r == strings_view(m@).contains(p@),
{
    let mut i: usize = 0;
    while i < m.len()
        invariant
            i <= m@.len(),
            forall|k: int| 0 <= k < i ==> strings_view(m@)[k] != p@,
        decreases m.len() - i,
    {
        if str_eq(m[i].as_str(), p) {
            assert(strings_view(m@)[i as int] == p@);
            return true;
        }
        i += 1;
    }
    false
}

/// Drops every entry equal to `p`.
fn remove_str(m: &mut Vec<String>, p: &str)
    ensures
        strings_view(final(m)@) == without(strings_view(old(m)@), p@),
{
    let mut out: Vec<String> = Vec::new();
    let ghost orig = strings_view(m@);
    let mut i: usize = 0;
    let n = m.len();
    while i < n
        invariant
            n == m@.len(),
            i <= n,
            orig == strings_view(m@),
            strings_view(out@) == without(orig.take(i as int), p@),
        decreases n - i,
    {
        assert(orig.take(i + 1).drop_last() =~= orig.take(i as int));
        assert(orig.take(i + 1).last() == m@[i as int]@);
        if !str_eq(m[i].as_str(), p) {
            let ghost before = strings_view(out@);
            out.push(owned(m[i].as_str()));
            assert(strings_view(out@) =~= before + seq![orig[i as int]]);
        } else {
            assert(without(orig.take(i + 1), p@) =~= without(orig.take(i as int), p@));
        }
        i += 1;
    }
    assert(orig.take(n as int) =~= orig);
    *m = out;
}

/// Adds `p` unless it is there already.
fn insert_str(m: &mut Vec<String>, p: &str)
    ensures
        strings_view(final(m)@) == with(strings_view(old(m)@), p@),
{
    if !contains_str(m, p) {
        let ghost before = strings_view(m@);
        m.push(owned(p));
        assert(strings_view(m@) =~= before.push(p@));
    }
}

/// The top-level path segment a repository lives under, e.g. `idp` for
/// `idp/run-plane/foo`. Repositories at a root have an empty namespace.
pub fn namespace(display_name: &str) -> (r: String)
    ensures
        r@ == spec_namespace(display_name@),
{
    let v = chars_of(display_name);
    match find_char(&v, '/') {
        Some(i) => {
            let head = slice_chars(&v, 0, i);
            assert(head@ =~= v@.take(i as int));
            string_from(&head)
        },
        None => String::new(),
    }
}

impl App {
    pub fn new() -> (r: App)
        ensures
            r@.rows.len() == 0 && r@.problems.len() == 0 && r@.selected == 0,
            r@.filter.len() == 0 && !r@.filtering && !r@.drifted_only,
            r@.pane == Pane::List,
            r@.jobs == seq![JobView { id: 1, label: "scanning"@, done: 0, total: 0 }],
            r@.next_job_id == 1,
            r@.scan_job == Some(1u64),
            r@.toast is None && r@.marked.len() == 0 && r@.pending is None,
            strings_view(r@.default_branches) == seq!["main"@, "master"@, "trunk"@, "develop"@],
            r@.sort == Sort::Drift,
            r@.anchor is None && r@.group is None && r@.picker is None,
            r@.branch_choices.len() == 0 && r@.stash_choices.len() == 0 && r@.picker_repo is None,
            r@.pane_scroll == 0 && !r@.detail_toggled && r@.pending_selection is None,
            list_ok(r@),
    {
        let defaults = crate::theme::default_branches();
        let mut jobs: Vec<Job> = Vec::new();
        jobs.push(Job { id: 1, label: owned("scanning"), done: 0, total: 0 });
        let app = App {
            rows: Vec::new(),
            problems: Vec::new(),
            selected: 0,
            filter: String::new(),
            filtering: false,
            drifted_only: false,
            pane: Pane::List,
            jobs,
            next_job_id: 1,
            scan_job: Some(1),
            toast: None,
            marked: Vec::new(),
            pending: None,
            default_branches: defaults,
            sort: Sort::Drift,
            anchor: None,
            group: None,
            picker: None,
            branch_choices: Vec::new(),
            stash_choices: Vec::new(),
            picker_repo: None,
            pane_scroll: 0,
            detail_toggled: false,
            pending_selection: None,
        };
        assert(app@.jobs =~= seq![JobView { id: 1, label: "scanning"@, done: 0, total: 0 }]);
        assert(strings_view(app@.default_branches) =~= seq!["main"@, "master"@, "trunk"@, "develop"@]);
        assert(app@.marked =~= seq![]);
        app
    }

    /// Whether there is room in the job counters for more work.
    pub fn has_counter_room(&self) -> (r: bool)
        ensures
            r == counters_ok(self@),
    {
        if self.next_job_id == u64::MAX {
            return false;
        }
        let mut i: usize = 0;
        while i < self.jobs.len()
            invariant
                i <= self.jobs@.len(),
                forall|k: int| 0 <= k < i ==> #[trigger] self@.jobs[k].done < usize::MAX,
            decreases self.jobs.len() - i,
        {
            if self.jobs[i].done == usize::MAX {
                assert(self@.jobs[i as int].done == usize::MAX);
                return false;
            }
            i += 1;
        }
        true
    }

    fn row_shown(&self, r: &RepoStatus) -> (b: bool)
        ensures
            b == shown(self@, *r),
    {
        if self.drifted_only && !is_drifted(r) {
            return false;
        }
        if chars_of(self.filter.as_str()).len() > 0 && !str_contains(r.display_name.as_str(), self.filter.as_str()) {
            return false;
        }
        match &self.group {
            Some(g) => str_eq(namespace(r.display_name.as_str()).as_str(), g.as_str()),
            None => true,
        }
    }

    fn visible_indices(&self) -> (r: Vec<usize>)
        ensures
            r@.len() == visible_idx(self@).len(),
            forall|k: int| 0 <= k < r@.len() ==> r@[k] as int == #[trigger] visible_idx(self@)[k],
            forall|k: int| 0 <= k < r@.len() ==> #[trigger] r@[k] < self@.rows.len(),
    {
        let mut r: Vec<usize> = Vec::new();
        let mut i: usize = 0;
        while i < self.rows.len()
            invariant
                i <= self@.rows.len(),
                r@.len() == visible_idx_upto(self@.rows, self@.drifted_only, self@.filter, self@.group, i as int).len(),
                forall|k: int|
                    0 <= k < r@.len() ==> r@[k] as int == #[trigger] visible_idx_upto(
                        self@.rows,
                        self@.drifted_only,
                        self@.filter,
                        self@.group,
                        i as int,
                    )[k],
            decreases self.rows.len() - i,
        {
            if self.row_shown(&self.rows[i]) {
                r.push(i);
            }
            i += 1;
        }
        proof {
            lemma_visible_idx_bounds(self@.rows, self@.drifted_only, self@.filter, self@.group, self@.rows.len() as int);
            assert forall|k: int| 0 <= k < r@.len() implies #[trigger] r@[k] < self@.rows.len() by {
                assert(r@[k] as int == visible_idx(self@)[k]);
            }
        }
        r
    }

    pub fn visible(&self) -> (r: Vec<&RepoStatus>)
        ensures
            r@.len() == spec_visible(self@).len(),
            forall|k: int| 0 <= k < r@.len() ==> *r@[k] == #[trigger] spec_visible(self@)[k],
    {
        let idx = self.visible_indices();
        let mut r: Vec<&RepoStatus> = Vec::new();
        let mut i: usize = 0;
        while i < idx.len()
            invariant
                i <= idx@.len(),
                idx@.len() == visible_idx(self@).len(),
                forall|k: int| 0 <= k < idx@.len() ==> idx@[k] as int == #[trigger] visible_idx(self@)[k],
                forall|k: int| 0 <= k < idx@.len() ==> #[trigger] idx@[k] < self@.rows.len(),
                r@.len() == i,
                forall|k: int| 0 <= k < i ==> *r@[k] == #[trigger] spec_visible(self@)[k],
            decreases idx.len() - i,
        {
            r.push(&self.rows[idx[i]]);
            i += 1;
        }
        r
    }

    fn visible_len(&self) -> (r: usize)
        ensures
            r == spec_visible(self@).len(),
    {
        self.visible_indices().len()
    }

    pub fn selected_index(&self) -> (r: usize)
        ensures
            r == self@.selected,
    {
        self.selected
    }

    /// The row under the cursor, if any.
    fn selected_row(&self) -> (r: Option<usize>)
        ensures
            match r {
                Some(i) => i < self@.rows.len() && spec_selected(self@) == Some(self@.rows[i as int]),
                None => spec_selected(self@) is None,
            },
    {
        let idx = self.visible_indices();
        if self.selected < idx.len() {
            Some(idx[self.selected])
        } else {
            None
        }
    }

    pub fn selected(&self) -> (r: Option<&RepoStatus>)
        ensures
            match r {
                Some(x) => spec_selected(self@) == Some(*x),
                None => spec_selected(self@) is None,
            },
    {
        match self.selected_row() {
            Some(i) => Some(&self.rows[i]),
            None => None,
        }
    }

    fn selected_path(&self) -> (r: Option<String>)
        ensures
            opt_str(r) == selected_path(self@),
    {
        match self.selected_row() {
            Some(i) => Some(owned(self.rows[i].path.as_str())),
            None => None,
        }
    }

    fn clamp_selection(&mut self)
        ensures
            toast_kept_or_renewed(*old(self), *final(self)),
            final(self)@ == clamp_selection(old(self)@),
    {
        let len = self.visible_len();
        self.selected = if len == 0 {
            0
        } else if self.selected < len - 1 {
            self.selected
        } else {
            len - 1
        };
        assert(self@ =~= clamp_selection(old(self)@));
    }

    /// A different repository starts at the top of its own detail.
    fn detail_command(&mut self) -> (r: Command)
        ensures
            toast_kept_or_renewed(*old(self), *final(self)),
            (final(self)@, r@) == detail_command(old(self)@),
    {
        self.pane_scroll = 0;
        let r = match self.selected_path() {
            Some(p) => Command::LoadDetail(p),
            None => Command::Nothing,
        };
        assert(self@ =~= detail_command(old(self)@).0);
        r
    }

    fn move_by(&mut self, delta: isize) -> (r: Command)
        ensures
            toast_kept_or_renewed(*old(self), *final(self)),
            (final(self)@, r@) == move_by(old(self)@, delta as int),
    {
        let len = self.visible_len();
        if len == 0 {
            return Command::Nothing;
        }
        let moved = self.selected as i128 + delta as i128;
        let max = (len - 1) as i128;
        self.selected = if moved < 0 {
            0
        } else if moved > max {
            (len - 1)
        } else {
            moved as usize
        };
        self.detail_command()
    }

    pub fn pane_scroll(&self) -> (r: u16)
        ensures
            r == self@.pane_scroll,
    {
        self.pane_scroll
    }

    pub fn detail_toggled(&self) -> (r: bool)
        ensures
            r == self@.detail_toggled,
    {
        self.detail_toggled
    }

    /// Whether the detail pane should be showing: shown by default when the
    /// name fits (`fits`), hidden when it doesn't; `Tab` flips that.
    pub fn detail_open(&self, fits: bool) -> (r: bool)
        ensures
            r == (fits != self@.detail_toggled),
    {
        fits != self.detail_toggled
    }

    fn scroll_pane(&mut self, delta: i16)
        ensures
            toast_kept_or_renewed(*old(self), *final(self)),
            final(self)@ == scroll_pane(old(self)@, delta as int),
    {
        let moved = self.pane_scroll as i32 + delta as i32;
        self.pane_scroll = if moved < 0 {
            0
        } else if moved > u16::MAX as i32 {
            u16::MAX
        } else {
            moved as u16
        };
        assert(self@ =~= scroll_pane(old(self)@, delta as int));
    }

    /// The wheel over a scrollable pane.
    pub fn scroll_pane_by(&mut self, delta: i16)
        ensures
            list_ok(old(self)@) ==> list_ok(final(self)@),
            toast_kept_or_renewed(*old(self), *final(self)),
            final(self)@ == scroll_pane(old(self)@, delta as int),
    {
        proof {
            if list_ok(self@) {
                law_other_calls_keep_the_list_sound(self@, arbitrary(), 0, 0, arbitrary(), arbitrary(), delta as int, 0, arbitrary(), arbitrary(), arbitrary(), arbitrary());
            }
        }
        self.scroll_pane(delta);
    }

    /// The wheel outside the detail pane: the list cursor, unless an overlay
    /// has taken over the screen (which then scrolls, at most 3 a notch).
    pub fn scroll_list_by(&mut self, delta: isize) -> (r: Command)
        ensures
            list_ok(old(self)@) ==> list_ok(final(self)@),
            toast_kept_or_renewed(*old(self), *final(self)),
            (old(self)@.pane == Pane::Problems || old(self)@.pane == Pane::Help) ==> final(self)@ == scroll_pane(
                old(self)@,
                crate::ui::picker::clamp_int(delta as int, -3, 3),
            ) && r@ == CommandView::Nothing,
            !(old(self)@.pane == Pane::Problems || old(self)@.pane == Pane::Help) ==> (final(self)@, r@) == move_by(
                old(self)@,
                delta as int,
            ),
    {
        proof {
            if list_ok(self@) {
                law_other_calls_keep_the_list_sound(self@, arbitrary(), 0, 0, arbitrary(), arbitrary(), delta as int, 0, arbitrary(), arbitrary(), arbitrary(), arbitrary());
            }
        }
        if self.pane == Pane::Problems || self.pane == Pane::Help {
            let d: i16 = if delta < -3 {
                -3
            } else if delta > 3 {
                3
            } else {
                delta as i16
            };
            self.scroll_pane(d);
            return Command::Nothing;
        }
        self.move_by(delta)
    }

    /// The view knows the rendered height; the bound arrives after the frame
    /// it applies to.
    pub fn clamp_pane_scroll(&mut self, max: u16)
        ensures
            list_ok(old(self)@) ==> list_ok(final(self)@),
            toast_kept_or_renewed(*old(self), *final(self)),
            final(self)@ == (AppView {
                pane_scroll: if old(self)@.pane_scroll < max { old(self)@.pane_scroll } else { max as int },
                ..old(self)@
            }),
    {
        proof {
            if list_ok(self@) {
                law_other_calls_keep_the_list_sound(self@, arbitrary(), 0, 0, arbitrary(), arbitrary(), 0, max as int, arbitrary(), arbitrary(), arbitrary(), arbitrary());
            }
        }
        if self.pane_scroll > max {
            self.pane_scroll = max;
        }
        assert(self@ =~= (AppView {
            pane_scroll: if old(self)@.pane_scroll < max { old(self)@.pane_scroll } else { max as int },
            ..old(self)@
        }));
    }

    /// For how many milliseconds the toast stays up from when it was set
    /// (0 with no toast).
    pub closed spec fn toast_ttl(&self) -> u64 {
        match self.toast {
            Some(t) => t.2,
            None => 0,
        }
    }

    /// When the toast was set, on the monotonic clock (none with no toast).
    pub closed spec fn toast_moment(&self) -> Option<std::time::Instant> {
        match self.toast {
            Some(t) => Some(t.1),
            None => None,
        }
    }

    /// Shows `text` for `ttl_ms` milliseconds from the moment `set_at`.
    pub fn set_toast_since(&mut self, text: String, ttl_ms: u64, set_at: std::time::Instant)
        ensures
            list_ok(old(self)@) ==> list_ok(final(self)@),
            final(self)@ == set_toast(old(self)@, text@),
            final(self).toast_ttl() == ttl_ms,
            final(self).toast_moment() == Some(set_at),
    {
        proof {
            if list_ok(self@) {
                law_other_calls_keep_the_list_sound(self@, arbitrary(), 0, 0, text@, arbitrary(), 0, 0, arbitrary(), arbitrary(), arbitrary(), arbitrary());
            }
        }
        self.toast = Some((text, set_at, ttl_ms));
        assert(self@ =~= set_toast(old(self)@, text@));
    }

    /// Shows `text` for `ttl_ms` milliseconds from now: the moment is read
    /// from the monotonic clock and kept with the toast.
    pub fn set_toast(&mut self, text: String, ttl_ms: u64)
        ensures
            list_ok(old(self)@) ==> list_ok(final(self)@),
            final(self)@ == set_toast(old(self)@, text@),
            final(self).toast_ttl() == ttl_ms,
            final(self).toast_moment() is Some,
    {
        proof {
            if list_ok(self@) {
                law_other_calls_keep_the_list_sound(self@, arbitrary(), 0, 0, text@, arbitrary(), 0, 0, arbitrary(), arbitrary(), arbitrary(), arbitrary());
            }
        }
        self.set_toast_since(text, ttl_ms, instant_now());
    }

    /// The toast's text once `elapsed_ms` milliseconds have passed since it
    /// was set, unless it has expired by then.
    pub fn toast_at(&self, elapsed_ms: u64) -> (r: Option<&str>)
        ensures
            match r {
                Some(t) => self@.toast == Some(t@) && elapsed_ms < self.toast_ttl(),
                None => self@.toast is None || elapsed_ms >= self.toast_ttl(),
            },
    {
        match &self.toast {
            Some((text, _, ttl)) => if elapsed_ms < *ttl {
                Some(text.as_str())
            } else {
                None
            },
            None => None,
        }
    }

    /// When the toast was set, if there is one.
    fn toast_started(&self) -> (r: Option<&std::time::Instant>)
        ensures
            match r {
                Some(i) => self.toast_moment() == Some(*i),
                None => self.toast_moment() is None,
            },
    {
        match &self.toast {
            Some((_, set_at, _)) => Some(set_at),
            None => None,
        }
    }

    /// The toast's text, unless it has expired: the whole milliseconds since
    /// the moment it was set are read from the monotonic clock and judged by
    /// `toast_at`.
    pub fn toast(&self) -> (r: Option<&str>)
        ensures
            match r {
                Some(t) => self@.toast == Some(t@) && self.toast_ttl() > 0,
                None => true,
            },
            self@.toast is None || self.toast_ttl() == 0 ==> r is None,
    {
        match self.toast_started() {
            Some(set_at) => self.toast_at(clamp_millis(whole_millis(&elapsed_since(set_at)))),
            None => None,
        }
    }
}

/// A count of milliseconds as 64 bits: one past what they hold stays at the
/// largest.
fn clamp_millis(ms: u128) -> (r: u64)
    ensures
        r == (if ms > u64::MAX { u64::MAX } else { ms as u64 }),
{
    if ms > u64::MAX as u128 {
        u64::MAX
    } else {
        ms as u64
    }
}

/// How long the list's own toasts stay up.
pub const TOAST_MS: u64 = 6000;

/// From `before` to `after` the toast is left as it was (text, moment and
/// duration), or was just set to stay up for `TOAST_MS`.
pub open spec fn toast_kept_or_renewed(before: App, after: App) -> bool {
    ||| (after@.toast == before@.toast && after.toast_moment() == before.toast_moment() && after.toast_ttl()
        == before.toast_ttl())
    ||| after.toast_ttl() == TOAST_MS
}

/// The position in `idx` whose row has path `p`.
fn find_visible(rows: &Vec<RepoStatus>, idx: &Vec<usize>, p: &str, vis: Ghost<Seq<RepoStatus>>) -> (r: Option<usize>)
    requires
        vis@.len() == idx@.len(),
        forall|k: int| 0 <= k < idx@.len() ==> #[trigger] idx@[k] < rows@.len(),
        forall|k: int| 0 <= k < idx@.len() ==> #[trigger] vis@[k] == rows@[idx@[k] as int],
    ensures
        match r {
            Some(i) => find_path(vis@, p@) == Some(i as int) && i < idx@.len(),
            None => find_path(vis@, p@) is None,
        },
{
    let mut i: usize = 0;
    while i < idx.len()
        invariant
            i <= idx@.len(),
            vis@.len() == idx@.len(),
            forall|k: int| 0 <= k < idx@.len() ==> #[trigger] idx@[k] < rows@.len(),
            forall|k: int| 0 <= k < idx@.len() ==> #[trigger] vis@[k] == rows@[idx@[k] as int],
            forall|k: int| 0 <= k < i ==> #[trigger] vis@[k].path@ != p@,
        decreases idx.len() - i,
    {
        if str_eq(rows[idx[i]].path.as_str(), p) {
            assert(vis@[i as int] == rows@[idx@[i as int] as int]);
            proof {
                lemma_find_path_first(vis@, p@, i as int);
            }
            return Some(i);
        }
        assert(vis@[i as int] == rows@[idx@[i as int] as int]);
        i += 1;
    }
    proof {
        lemma_find_path_none(vis@, p@);
    }
    None
}

impl App {
    pub fn is_scanning(&self) -> (r: bool)
        ensures
            r == (self@.scan_job is Some),
    {
        self.scan_job.is_some()
    }

    pub fn jobs(&self) -> (r: &[Job])
        ensures
            jobs_view(r@) == self@.jobs,
    {
        self.jobs.as_slice()
    }

    pub fn problems(&self) -> (r: &[Problem])
        ensures
            r@ == self@.problems,
    {
        self.problems.as_slice()
    }

    pub fn pane(&self) -> (r: Pane)
        ensures
            r == self@.pane,
    {
        self.pane
    }

    /// The in-progress filter text, or `None` when not filtering.
    pub fn filter_text(&self) -> (r: Option<&str>)
        ensures
            match r {
                Some(t) => self@.filtering && t@ == self@.filter,
                None => !self@.filtering,
            },
    {
        if self.filtering {
            Some(self.filter.as_str())
        } else {
            None
        }
    }

    pub fn sort_mode(&self) -> (r: Sort)
        ensures
            r == self@.sort,
    {
        self.sort
    }

    /// The active namespace filter, or `None` when every namespace is shown.
    pub fn group(&self) -> (r: Option<&str>)
        ensures
            match r {
                Some(g) => self@.group == Some(g@),
                None => self@.group is None,
            },
    {
        match &self.group {
            Some(g) => Some(g.as_str()),
            None => None,
        }
    }

    /// Starts a job with a label and a size (`0` when not yet known) and
    /// returns its id.
    pub fn begin_job(&mut self, label: String, total: usize) -> (r: u64)
        requires
            old(self)@.next_job_id < u64::MAX,
        ensures
            list_ok(old(self)@) ==> list_ok(final(self)@),
            toast_kept_or_renewed(*old(self), *final(self)),
            (final(self)@, r) == begin_job(old(self)@, label@, total as nat),
    {
        proof {
            if list_ok(self@) {
                law_other_calls_keep_the_list_sound(self@, label@, total as nat, 0, arbitrary(), arbitrary(), 0, 0, arbitrary(), arbitrary(), arbitrary(), arbitrary());
            }
        }
        self.next_job_id = self.next_job_id + 1;
        let id = self.next_job_id;
        self.jobs.push(Job { id, label, done: 0, total });
        assert(self@.jobs =~= old(self)@.jobs.push(JobView { id, label: label@, done: 0, total: total as nat }));
        assert(self@ =~= begin_job(old(self)@, label@, total as nat).0);
        id
    }

    /// One more step of the job, if it is still running.
    pub fn advance_job(&mut self, id: u64)
        requires
            counters_ok(old(self)@),
        ensures
            list_ok(old(self)@) ==> list_ok(final(self)@),
            toast_kept_or_renewed(*old(self), *final(self)),
            final(self)@ == advance_job(old(self)@, id),
    {
        proof {
            if list_ok(self@) {
                law_other_calls_keep_the_list_sound(self@, arbitrary(), 0, id, arbitrary(), arbitrary(), 0, 0, arbitrary(), arbitrary(), arbitrary(), arbitrary());
            }
        }
        let mut i: usize = 0;
        while i < self.jobs.len()
            invariant
                self.toast == old(self).toast,
                i <= self.jobs@.len(),
                self@ == old(self)@,
                counters_ok(self@),
                forall|k: int| 0 <= k < i ==> #[trigger] self.jobs@[k].id != id,
            decreases self.jobs.len() - i,
        {
            if self.jobs[i].id == id {
                proof {
                    lemma_find_job_first(self@.jobs, id, i as int);
                }
                assert(self@.jobs[i as int].done < usize::MAX);
                let ghost before = self@;
                let mut job = self.jobs.remove(i);
                job.done = job.done + 1;
                self.jobs.insert(i, job);
                assert(self@.jobs =~= before.jobs.update(i as int, JobView { done: before.jobs[i as int].done + 1, ..before.jobs[i as int] }));
                assert(self@ =~= advance_job(old(self)@, id));
                return;
            }
            i += 1;
        }
        proof {
            lemma_find_job_none(self@.jobs, id);
        }
    }

    /// The job is over; it leaves the list.
    pub fn end_job(&mut self, id: u64)
        ensures
            list_ok(old(self)@) ==> list_ok(final(self)@),
            toast_kept_or_renewed(*old(self), *final(self)),
            final(self)@ == end_job(old(self)@, id),
    {
        proof {
            if list_ok(self@) {
                law_other_calls_keep_the_list_sound(self@, arbitrary(), 0, id, arbitrary(), arbitrary(), 0, 0, arbitrary(), arbitrary(), arbitrary(), arbitrary());
            }
        }
        let mut rest: Vec<Job> = Vec::new();
        std::mem::swap(&mut rest, &mut self.jobs);
        let ghost orig = jobs_view(rest@);
        let mut taken: usize = 0;
        let n = rest.len();
        while rest.len() > 0
            invariant
                self.toast == old(self).toast,
                n == orig.len(),
                taken + rest@.len() == n,
                jobs_view(rest@) == orig.skip(taken as int),
                self@.jobs == jobs_without(orig.take(taken as int), id),
                self@ == (AppView { jobs: self@.jobs, ..old(self)@ }),
            decreases rest.len(),
        {
            let ghost old_rest = rest@;
            let ghost old_taken = taken;
            let j = rest.remove(0);
            assert(rest@ =~= old_rest.drop_first());
            assert forall|k: int| 0 <= k < rest@.len() implies #[trigger] jobs_view(rest@)[k] == orig.skip(old_taken + 1)[k] by {
                assert(rest@[k] == old_rest[k + 1]);
                assert(jobs_view(old_rest)[k + 1] == orig.skip(old_taken as int)[k + 1]);
            }
            assert(orig.take(taken + 1).drop_last() =~= orig.take(taken as int));
            assert(orig.skip(taken as int)[0] == job_view(j));
            assert(orig.take(taken + 1).last() == job_view(j));
            let ghost before = self@.jobs;
            if j.id != id {
                self.jobs.push(j);
                assert(self@.jobs =~= before.push(job_view(j)));
            }
            taken += 1;
            assert(jobs_view(rest@) =~= orig.skip(taken as int));
        }
        assert(orig.take(taken as int) =~= orig);
        assert(self@ =~= end_job(old(self)@, id));
    }

    /// Insert or replace a repository's status, keeping the list ordered.
    pub fn push_status(&mut self, s: RepoStatus)
        requires
            counters_ok(old(self)@),
        ensures
            list_ok(old(self)@) ==> list_ok(final(self)@),
            toast_kept_or_renewed(*old(self), *final(self)),
            final(self)@ == push_status(old(self)@, s),
    {
        proof {
            if list_ok(self@) {
                law_scans_keep_the_list_sound(self@, s);
            }
        }
        match find_row(&self.rows, s.path.as_str()) {
            Some(i) => self.rows.set(i, s),
            None => self.rows.push(s),
        }
        let mode = self.sort;
        sort_by(&mut self.rows, mode);
        self.clamp_selection();
        match self.scan_job {
            Some(id) => {
                assert(counters_ok(self@));
                self.advance_job(id);
            },
            None => {},
        }
    }

    pub fn push_problem(&mut self, p: Problem)
        ensures
            list_ok(old(self)@) ==> list_ok(final(self)@),
            toast_kept_or_renewed(*old(self), *final(self)),
            final(self)@ == (AppView { problems: old(self)@.problems.push(p), ..old(self)@ }),
    {
        proof {
            if list_ok(self@) {
                law_other_calls_keep_the_list_sound(self@, arbitrary(), 0, 0, arbitrary(), p, 0, 0, arbitrary(), arbitrary(), arbitrary(), arbitrary());
            }
        }
        self.problems.push(p);
        assert(self@ =~= (AppView { problems: old(self)@.problems.push(p), ..old(self)@ }));
    }

    /// Marks survive a rescan: a rescan is a refresh, not a reset. Marks
    /// for repositories that have gone away are dropped once it completes.
    pub fn begin_scan(&mut self)
        requires
            counters_ok(old(self)@),
        ensures
            list_ok(old(self)@) ==> list_ok(final(self)@),
            toast_kept_or_renewed(*old(self), *final(self)),
            final(self)@ == begin_scan(old(self)@),
    {
        proof {
            if list_ok(self@) {
                law_scans_keep_the_list_sound(self@, arbitrary());
            }
        }
        self.pending_selection = self.selected_path();
        let ghost v1 = self@;
        match self.scan_job.take() {
            Some(id) => self.end_job(id),
            None => {},
        }
        let id = self.begin_job(owned("scanning"), 0);
        self.scan_job = Some(id);
        self.rows = Vec::new();
        self.problems = Vec::new();
        self.selected = 0;
        self.anchor = None;
        if self.picker.is_some() {
            self.close_picker();
        }
        assert(self@ =~= begin_scan(old(self)@));
    }

    pub fn finish_scan(&mut self)
        ensures
            list_ok(old(self)@) ==> list_ok(final(self)@),
            toast_kept_or_renewed(*old(self), *final(self)),
            final(self)@ == finish_scan(old(self)@),
    {
        proof {
            if list_ok(self@) {
                law_scans_keep_the_list_sound(self@, arbitrary());
            }
        }
        match self.scan_job.take() {
            Some(id) => self.end_job(id),
            None => {},
        }
        let mut kept: Vec<String> = Vec::new();
        let mut i: usize = 0;
        let ghost m = self@.marked;
        while i < self.marked.len()
            invariant
                i <= self.marked@.len(),
                m == strings_view(self.marked@),
                strings_view(kept@) == marks_present(m.take(i as int), self@.rows),
            decreases self.marked.len() - i,
        {
            assert(m.take(i + 1).drop_last() =~= m.take(i as int));
            assert(m.take(i + 1).last() == self.marked@[i as int]@);
            if find_row(&self.rows, self.marked[i].as_str()).is_some() {
                let ghost before = strings_view(kept@);
                kept.push(owned(self.marked[i].as_str()));
                assert(strings_view(kept@) =~= before.push(m[i as int]));
            }
            i += 1;
        }
        assert(m.take(i as int) =~= m);
        self.marked = kept;
        let pending = self.pending_selection.take();
        let ghost v2 = self@;
        match pending {
            Some(path) => {
                let idx = self.visible_indices();
                match find_visible(&self.rows, &idx, path.as_str(), Ghost(spec_visible(self@))) {
                    Some(i) => {
                        self.selected = i;
                    },
                    None => {},
                }
            },
            None => {},
        }
        assert(self@ =~= finish_scan(old(self)@));
    }

    fn close_picker(&mut self)
        ensures
            toast_kept_or_renewed(*old(self), *final(self)),
            final(self)@ == crate::ui::model::close_picker(old(self)@),
    {
        self.pane = Pane::List;
        self.picker = None;
        self.picker_repo = None;
        assert(self@ =~= crate::ui::model::close_picker(old(self)@));
    }

    // --- marks -----------------------------------------------------------

    pub fn is_marked(&self, path: &str) -> (r: bool)
        ensures
            r == self@.marked.contains(path@),
    {
        contains_str(&self.marked, path)
    }

    pub fn marked_count(&self) -> (r: usize)
        ensures
            r == self@.marked.len(),
    {
        self.marked.len()
    }

    pub fn set_default_branches(&mut self, branches: Vec<String>)
        ensures
            list_ok(old(self)@) ==> list_ok(final(self)@),
            toast_kept_or_renewed(*old(self), *final(self)),
            final(self)@ == (AppView { default_branches: branches@, ..old(self)@ }),
    {
        proof {
            if list_ok(self@) {
                law_other_calls_keep_the_list_sound(self@, arbitrary(), 0, 0, arbitrary(), arbitrary(), 0, 0, branches@, arbitrary(), arbitrary(), arbitrary());
            }
        }
        self.default_branches = branches;
        assert(self@ =~= (AppView { default_branches: branches@, ..old(self)@ }));
    }

    pub fn default_branches(&self) -> (r: &Vec<String>)
        ensures
            r@ == self@.default_branches,
    {
        &self.default_branches
    }

    pub fn pending(&self) -> (r: Option<&Pending>)
        ensures
            match r {
                Some(p) => self@.pending == Some(p@),
                None => self@.pending is None,
            },
    {
        match &self.pending {
            Some(p) => Some(p),
            None => None,
        }
    }

    fn toggle_mark(&mut self)
        ensures
            toast_kept_or_renewed(*old(self), *final(self)),
            final(self)@ == toggle_mark(old(self)@),
    {
        match self.selected_path() {
            Some(path) => {
                let now_marked = !contains_str(&self.marked, path.as_str());
                if now_marked {
                    let ghost before = strings_view(self.marked@);
                    self.marked.push(owned(path.as_str()));
                    assert(strings_view(self.marked@) =~= before.push(path@));
                } else {
                    remove_str(&mut self.marked, path.as_str());
                }
                self.anchor = Some((path, now_marked));
                assert(self@ =~= toggle_mark(old(self)@));
            },
            None => {},
        }
    }

    /// Sweeps the anchor's own outcome (mark or unmark) across the range.
    fn mark_range(&mut self)
        ensures
            toast_kept_or_renewed(*old(self), *final(self)),
            final(self)@ == mark_range(old(self)@),
    {
        let idx = self.visible_indices();
        let ghost vis = spec_visible(self@);
        let (anchor, mark) = match &self.anchor {
            Some((path, m)) => {
                let at = match find_visible(&self.rows, &idx, path.as_str(), Ghost(vis)) {
                    Some(i) => i,
                    None => self.selected,
                };
                (at, *m)
            },
            None => (self.selected, true),
        };
        let (lo, hi) = if anchor <= self.selected {
            (anchor, self.selected)
        } else {
            (self.selected, anchor)
        };
        if hi < idx.len() {
            let mut k = lo;
            while k <= hi
                invariant
                    self.toast == old(self).toast,
                    lo <= k <= hi + 1,
                    hi < idx.len(),
                    idx.len() == idx@.len(),
                    idx@.len() == vis.len(),
                    forall|q: int| 0 <= q < idx@.len() ==> #[trigger] idx@[q] < self@.rows.len(),
                    forall|q: int| 0 <= q < idx@.len() ==> #[trigger] vis[q] == self@.rows[idx@[q] as int],
                    self@ == (AppView { marked: self@.marked, ..old(self)@ }),
                    self@.marked == sweep(old(self)@.marked, vis.subrange(lo as int, k as int), mark),
                decreases hi + 1 - k,
            {
                assert(vis.subrange(lo as int, k + 1).drop_last() =~= vis.subrange(lo as int, k as int));
                assert(vis.subrange(lo as int, k + 1).last() == vis[k as int]);
                assert(vis[k as int] == self@.rows[idx@[k as int] as int]);
                let p = owned(self.rows[idx[k]].path.as_str());
                if mark {
                    insert_str(&mut self.marked, p.as_str());
                } else {
                    remove_str(&mut self.marked, p.as_str());
                }
                k += 1;
            }
        }
        let sel = self.selected_path();
        self.anchor = match sel {
            Some(p) => Some((p, mark)),
            None => None,
        };
        assert(self@ =~= mark_range(old(self)@));
    }

    /// Mark every visible row, or clear the marks if there are any.
    fn mark_all(&mut self)
        ensures
            toast_kept_or_renewed(*old(self), *final(self)),
            final(self)@ == mark_all(old(self)@),
    {
        if self.marked.len() == 0 {
            let idx = self.visible_indices();
            let ghost vis = spec_visible(self@);
            let mut k: usize = 0;
            while k < idx.len()
                invariant
                    self.toast == old(self).toast,
                    k <= idx@.len(),
                    idx@.len() == vis.len(),
                    forall|q: int| 0 <= q < idx@.len() ==> #[trigger] idx@[q] < self@.rows.len(),
                    forall|q: int| 0 <= q < idx@.len() ==> #[trigger] vis[q] == self@.rows[idx@[q] as int],
                    self@ == (AppView { marked: self@.marked, ..old(self)@ }),
                    self@.marked == sweep(old(self)@.marked, vis.take(k as int), true),
                decreases idx.len() - k,
            {
                assert(vis.take(k + 1).drop_last() =~= vis.take(k as int));
                assert(vis[k as int] == self@.rows[idx@[k as int] as int]);
                let p = owned(self.rows[idx[k]].path.as_str());
                insert_str(&mut self.marked, p.as_str());
                k += 1;
            }
            assert(vis.take(k as int) =~= vis);
        } else {
            self.marked = Vec::new();
        }
        self.anchor = None;
        assert(self@ =~= mark_all(old(self)@));
    }

    /// What an action applies to: every marked repository still visible, or
    /// the selected row when nothing is marked.
    fn targets(&self) -> (r: Vec<String>)
        ensures
            strings_view(r@) == targets(self@),
    {
        let mut r: Vec<String> = Vec::new();
        if self.marked.len() == 0 {
            match self.selected_path() {
                Some(p) => {
                    r.push(p);
                    assert(strings_view(r@) =~= seq![p@]);
                },
                None => {
                    assert(strings_view(r@) =~= seq![]);
                },
            }
            return r;
        }
        let idx = self.visible_indices();
        let ghost vis = spec_visible(self@);
        let mut k: usize = 0;
        while k < idx.len()
            invariant
                k <= idx@.len(),
                idx@.len() == vis.len(),
                vis == spec_visible(self@),
                forall|q: int| 0 <= q < idx@.len() ==> #[trigger] idx@[q] < self@.rows.len(),
                forall|q: int| 0 <= q < idx@.len() ==> #[trigger] vis[q] == self@.rows[idx@[q] as int],
                strings_view(r@) == marked_visible(self@.marked, vis.take(k as int)),
            decreases idx.len() - k,
        {
            assert(vis.take(k + 1).drop_last() =~= vis.take(k as int));
            assert(vis[k as int] == self@.rows[idx@[k as int] as int]);
            let path = &self.rows[idx[k]].path;
            if contains_str(&self.marked, path.as_str()) {
                let ghost before = strings_view(r@);
                r.push(owned(path.as_str()));
                assert(strings_view(r@) =~= before.push(vis[k as int].path@));
            }
            k += 1;
        }
        assert(vis.take(k as int) =~= vis);
        r
    }

    fn warn_no_targets(&mut self)
        ensures
            toast_kept_or_renewed(*old(self), *final(self)),
            final(self)@ == warn_no_targets(old(self)@),
    {
        if self.marked.len() > 0 {
            let mut text = String::new();
            push_decimal(&mut text, self.marked.len() as u64);
            push_str(&mut text, " marked, none of them in this view");
            self.set_toast(text, TOAST_MS);
        }
    }

    /// Act on the marked-or-selected set, saying so when marks exist but the
    /// current view hides every one of them.
    fn act(&mut self, kind: ActKind) -> (r: Command)
        ensures
            toast_kept_or_renewed(*old(self), *final(self)),
            (final(self)@, r@) == act(old(self)@, kind),
    {
        let t = self.targets();
        if t.len() > 0 {
            match kind {
                ActKind::Fetch => Command::Fetch(t),
                ActKind::Pull => Command::Pull(t),
            }
        } else {
            self.warn_no_targets();
            Command::Nothing
        }
    }

    /// Stage a destructive action for confirmation. Nothing happens until
    /// the user confirms.
    fn confirm(&mut self, kind: Destructive) -> (r: Command)
        ensures
            toast_kept_or_renewed(*old(self), *final(self)),
            (final(self)@, r@) == confirm(old(self)@, kind),
    {
        let t = self.targets();
        if t.len() == 0 {
            self.warn_no_targets();
            return Command::Nothing;
        }
        let scope = if t.len() == 1 {
            let idx = self.visible_indices();
            let ghost vis = spec_visible(self@);
            assert forall|q: int| 0 <= q < idx@.len() implies #[trigger] vis[q] == self@.rows[idx@[q] as int] by {}
            assert(strings_view(t@)[0] == t@[0]@);
            match find_visible(&self.rows, &idx, t[0].as_str(), Ghost(vis)) {
                Some(i) => owned(self.rows[idx[i]].display_name.as_str()),
                None => owned(t[0].as_str()),
            }
        } else {
            let mut s = String::new();
            push_decimal(&mut s, t.len() as u64);
            push_str(&mut s, " repositories");
            s
        };
        let mut summary = owned(kind.verb());
        push_char(&mut summary, ' ');
        push_str(&mut summary, scope.as_str());
        self.pending = Some(Pending { kind, targets: t, stash: None, branch: None, summary });
        self.pane = Pane::Confirm;
        assert(self@ =~= confirm(old(self)@, kind).0);
        Command::Nothing
    }
}

/// The namespace picker's rows, as text and counts.
pub open spec fn choices_view(s: Seq<(String, usize)>) -> Seq<(Seq<char>, nat)> {
    s.map_values(|c: (String, usize)| (c.0@, c.1 as nat))
}

proof fn lemma_ns_pos(ns: Seq<Seq<char>>, x: Seq<char>, j: int)
    requires
        0 <= j <= ns.len(),
        forall|k: int| 0 <= k < j ==> seq_lt(#[trigger] ns[k], x),
        j < ns.len() ==> !seq_lt(ns[j], x),
    ensures
        ns_pos(ns, x) == j,
    decreases j,
{
    if j > 0 {
        assert(seq_lt(ns[0], x));
        assert forall|k: int| 0 <= k < j - 1 implies seq_lt(#[trigger] ns.drop_first()[k], x) by {
            assert(ns.drop_first()[k] == ns[k + 1]);
        }
        if j < ns.len() {
            assert(ns.drop_first()[j - 1] == ns[j]);
        }
        lemma_ns_pos(ns.drop_first(), x, j - 1);
    }
}

/// Adds `x` to the ordered list `ns` unless it is there already.
fn insert_namespace(ns: &mut Vec<String>, x: String)
    ensures
        strings_view(final(ns)@) == ns_insert(strings_view(old(ns)@), x@),
{
    let ghost s = strings_view(ns@);
    let mut j: usize = 0;
    let mut found = false;
    while !found && j < ns.len()
        invariant
            j <= ns@.len(),
            s == strings_view(ns@),
            forall|k: int| 0 <= k < j ==> seq_lt(#[trigger] s[k], x@),
            found ==> j < ns@.len() && !seq_lt(s[j as int], x@),
        decreases ns@.len() - j + if found { 0int } else { 1int },
    {
        if str_lt(ns[j].as_str(), x.as_str()) {
            j += 1;
        } else {
            found = true;
        }
    }
    proof {
        lemma_ns_pos(s, x@, j as int);
    }
    if j < ns.len() && str_eq(ns[j].as_str(), x.as_str()) {
        return;
    }
    ns.insert(j, x);
    assert(strings_view(ns@) =~= s.insert(j as int, x@));
}

proof fn lemma_choice_position_first(c: Seq<(Seq<char>, nat)>, name: Seq<char>, k: int)
    requires
        0 <= k < c.len(),
        c[k].0 == name,
        forall|j: int| 0 <= j < k ==> #[trigger] c[j].0 != name,
    ensures
        choice_position(c, name) == k,
    decreases k,
{
    if k > 0 {
        assert(c[0].0 != name);
        assert(c[k].0 == name);
        assert forall|j: int| 0 <= j < k - 1 implies #[trigger] c.drop_first()[j].0 != name by {
            assert(c.drop_first()[j] == c[j + 1]);
        }
        assert(c.drop_first()[k - 1] == c[k]);
        lemma_choice_position_first(c.drop_first(), name, k - 1);
    }
}

proof fn lemma_choice_position_none(c: Seq<(Seq<char>, nat)>, name: Seq<char>)
    requires
        forall|j: int| 0 <= j < c.len() ==> #[trigger] c[j].0 != name,
    ensures
        choice_position(c, name) == 0,
{
    if c.len() > 0 {
        assert(c[0].0 != name);
    }
}

proof fn lemma_head_position_first(rows: Seq<BranchChoice>, k: int)
    requires
        0 <= k < rows.len(),
        rows[k].is_head,
        forall|j: int| 0 <= j < k ==> !#[trigger] rows[j].is_head,
    ensures
        head_position(rows) == k,
    decreases k,
{
    if k > 0 {
        assert(!rows[0].is_head);
        assert(rows[k].is_head);
        assert forall|j: int| 0 <= j < k - 1 implies !#[trigger] rows.drop_first()[j].is_head by {
            assert(rows.drop_first()[j] == rows[j + 1]);
        }
        assert(rows.drop_first()[k - 1] == rows[k]);
        lemma_head_position_first(rows.drop_first(), k - 1);
    }
}

proof fn lemma_head_position_none(rows: Seq<BranchChoice>)
    requires
        forall|j: int| 0 <= j < rows.len() ==> !#[trigger] rows[j].is_head,
    ensures
        head_position(rows) == 0,
{
    if rows.len() > 0 {
        assert(!rows[0].is_head);
    }
}

/// The row of the first choice named `name`, or the top.
fn choice_index(choices: &Vec<(String, usize)>, name: &str) -> (r: usize)
    ensures
        r == choice_position(choices_view(choices@), name@),
{
    let ghost c = choices_view(choices@);
    let mut k: usize = 0;
    while k < choices.len()
        invariant
            k <= choices@.len(),
            c == choices_view(choices@),
            forall|j: int| 0 <= j < k ==> #[trigger] c[j].0 != name@,
        decreases choices.len() - k,
    {
        if str_eq(choices[k].0.as_str(), name) {
            proof {
                lemma_choice_position_first(c, name@, k as int);
            }
            return k;
        }
        assert(c[k as int].0 == choices@[k as int].0@);
        k += 1;
    }
    proof {
        lemma_choice_position_none(c, name@);
    }
    0
}

/// The row of the checked-out branch, or the top.
fn head_index(rows: &Vec<BranchChoice>) -> (r: usize)
    ensures
        r == head_position(rows@),
{
    let mut k: usize = 0;
    while k < rows.len()
        invariant
            k <= rows@.len(),
            forall|j: int| 0 <= j < k ==> !#[trigger] rows@[j].is_head,
        decreases rows.len() - k,
    {
        if rows[k].is_head {
            proof {
                lemma_head_position_first(rows@, k as int);
            }
            return k;
        }
        k += 1;
    }
    proof {
        lemma_head_position_none(rows@);
    }
    0
}

impl App {
    /// Shown by the drifted-only toggle and the text filter.
    fn passes_row(&self, r: &RepoStatus) -> (b: bool)
        ensures
            b == passes_filters(self@, *r),
    {
        if self.drifted_only && !is_drifted(r) {
            return false;
        }
        !(chars_of(self.filter.as_str()).len() > 0 && !str_contains(r.display_name.as_str(), self.filter.as_str()))
    }

    /// Every namespace among the rows the filters show, each once, in order.
    fn namespaces(&self) -> (r: Vec<String>)
        ensures
            strings_view(r@) == namespaces(self@),
    {
        let mut ns: Vec<String> = Vec::new();
        let mut i: usize = 0;
        while i < self.rows.len()
            invariant
                i <= self@.rows.len(),
                strings_view(ns@) == namespaces_upto(self@.rows, self@.drifted_only, self@.filter, i as int),
            decreases self.rows.len() - i,
        {
            if self.passes_row(&self.rows[i]) {
                insert_namespace(&mut ns, namespace(self.rows[i].display_name.as_str()));
            }
            i += 1;
        }
        ns
    }

    /// How many rows the filters show, within namespace `ns` when given.
    fn count_shown(&self, ns: &Option<String>) -> (r: usize)
        ensures
            r == count_in(self@.drifted_only, self@.filter, self@.rows, opt_str(*ns)),
    {
        let mut n: usize = 0;
        let mut i: usize = 0;
        while i < self.rows.len()
            invariant
                i <= self@.rows.len(),
                n <= i,
                n == count_in(self@.drifted_only, self@.filter, self@.rows.take(i as int), opt_str(*ns)),
            decreases self.rows.len() - i,
        {
            assert(self@.rows.take(i + 1).drop_last() =~= self@.rows.take(i as int));
            assert(self@.rows.take(i + 1).last() == self@.rows[i as int]);
            let hit = self.passes_row(&self.rows[i]) && match ns {
                Some(g) => str_eq(namespace(self.rows[i].display_name.as_str()).as_str(), g.as_str()),
                None => true,
            };
            if hit {
                n += 1;
            }
            i += 1;
        }
        assert(self@.rows.take(i as int) =~= self@.rows);
        n
    }

    /// The namespace picker's rows: "all" first, then each namespace, each
    /// with the number of repositories it would show.
    pub fn namespace_choices(&self) -> (r: Vec<(String, usize)>)
        ensures
            choices_view(r@) == namespace_choices(self@),
    {
        let mut out: Vec<(String, usize)> = Vec::new();
        let all = self.count_shown(&None);
        out.push((owned("all"), all));
        let ns = self.namespaces();
        let ghost nsv = strings_view(ns@);
        let ghost f = |n: Seq<char>| (n, count_in(self@.drifted_only, self@.filter, self@.rows, Some(n)));
        let mut k: usize = 0;
        while k < ns.len()
            invariant
                k <= ns@.len(),
                nsv == strings_view(ns@),
                nsv == namespaces(self@),
                f == (|n: Seq<char>| (n, count_in(self@.drifted_only, self@.filter, self@.rows, Some(n)))),
                choices_view(out@) == seq![("all"@, count_in(self@.drifted_only, self@.filter, self@.rows, None))]
                    + nsv.take(k as int).map_values(f),
            decreases ns.len() - k,
        {
            let name = owned(ns[k].as_str());
            let g = Some(owned(ns[k].as_str()));
            let c = self.count_shown(&g);
            let ghost before = choices_view(out@);
            out.push((name, c));
            assert(choices_view(out@) =~= before.push((nsv[k as int], c as nat)));
            assert(nsv.take(k + 1).map_values(f) =~= nsv.take(k as int).map_values(f).push(f(nsv[k as int])));
            k += 1;
        }
        assert(nsv.take(k as int) =~= nsv);
        out
    }

    /// The cursor's row in whichever popover is open.
    pub fn picker_index(&self) -> (r: usize)
        ensures
            r == picker_index(self@),
    {
        match &self.picker {
            Some(p) => p.index(),
            None => 0,
        }
    }

    fn move_picker(&mut self, delta: isize)
        ensures
            toast_kept_or_renewed(*old(self), *final(self)),
            final(self)@ == move_picker(old(self)@, delta as int),
    {
        match self.picker.take() {
            Some(p) => {
                let mut q = p;
                q.move_by(delta);
                self.picker = Some(q);
            },
            None => {},
        }
        assert(self@ =~= move_picker(old(self)@, delta as int));
    }

    /// `n`: the namespace picker, on the namespace already in force.
    fn open_namespaces(&mut self)
        ensures
            toast_kept_or_renewed(*old(self), *final(self)),
            final(self)@ == open_namespaces(old(self)@),
    {
        let choices = self.namespace_choices();
        let at: usize = match &self.group {
            None => 0,
            Some(g) => choice_index(&choices, g.as_str()),
        };
        self.picker = Some(Picker::open(choices.len(), at));
        self.pane = Pane::Namespaces;
        assert(self@ =~= open_namespaces(old(self)@));
    }

    /// Applies the picked namespace. The cursor returns to the top: an old
    /// index means nothing in another namespace.
    fn choose_namespace(&mut self) -> (r: Command)
        ensures
            toast_kept_or_renewed(*old(self), *final(self)),
            (final(self)@, r@) == choose_namespace(old(self)@),
    {
        let choices = self.namespace_choices();
        let index = self.picker_index();
        self.group = if 0 < index && index < choices.len() {
            Some(owned(choices[index].0.as_str()))
        } else {
            None
        };
        let ghost chosen = self@;
        self.close_picker();
        self.selected = 0;
        self.anchor = None;
        assert(self@ =~= (AppView { selected: 0, anchor: None, ..crate::ui::model::close_picker(chosen) }));
        self.clamp_selection();
        self.detail_command()
    }

    /// `S`: the sort picker, on the order in force.
    fn open_sort(&mut self)
        ensures
            toast_kept_or_renewed(*old(self), *final(self)),
            final(self)@ == open_sort(old(self)@),
    {
        self.picker = Some(Picker::open(SORT_COUNT, self.sort.index()));
        self.pane = Pane::Sort;
        assert(self@ =~= open_sort(old(self)@));
    }

    /// Applies the picked order and re-sorts.
    fn choose_sort(&mut self) -> (r: Command)
        ensures
            toast_kept_or_renewed(*old(self), *final(self)),
            (final(self)@, r@) == choose_sort(old(self)@),
    {
        let i = self.picker_index();
        let sort = if i < SORT_COUNT {
            Sort::from_index(i)
        } else {
            Sort::Stale
        };
        assert(sort == sort_at(i as int));
        self.sort = sort;
        sort_by(&mut self.rows, sort);
        let ghost sorted = self@;
        self.close_picker();
        self.selected = 0;
        self.anchor = None;
        assert(self@ =~= (AppView { selected: 0, anchor: None, ..crate::ui::model::close_picker(sorted) }));
        self.clamp_selection();
        self.detail_command()
    }

    /// The branch picker for `repo`, on the checked-out branch.
    pub fn open_branch_picker(&mut self, repo: String, rows: Vec<BranchChoice>)
        ensures
            list_ok(old(self)@) ==> list_ok(final(self)@),
            toast_kept_or_renewed(*old(self), *final(self)),
            final(self)@ == open_branch_picker(old(self)@, repo@, rows@),
    {
        proof {
            if list_ok(self@) {
                law_other_calls_keep_the_list_sound(self@, arbitrary(), 0, 0, arbitrary(), arbitrary(), 0, 0, arbitrary(), repo@, rows@, arbitrary());
            }
        }
        let at = head_index(&rows);
        self.picker = Some(Picker::open(rows.len(), at));
        self.branch_choices = rows;
        self.picker_repo = Some(repo);
        self.pane = Pane::Branches;
        assert(self@ =~= open_branch_picker(old(self)@, repo@, rows@));
    }

    pub fn branch_choices(&self) -> (r: &[BranchChoice])
        ensures
            r@ == self@.branch_choices,
    {
        self.branch_choices.as_slice()
    }

    /// The stash picker for `repo`; with no stashes the user is told so.
    pub fn open_stash_picker(&mut self, repo: String, rows: Vec<StashChoice>)
        ensures
            list_ok(old(self)@) ==> list_ok(final(self)@),
            toast_kept_or_renewed(*old(self), *final(self)),
            rows@.len() == 0 ==> final(self).toast_ttl() == TOAST_MS,
            final(self)@ == open_stash_picker(old(self)@, repo@, rows@),
    {
        proof {
            if list_ok(self@) {
                law_other_calls_keep_the_list_sound(self@, arbitrary(), 0, 0, arbitrary(), arbitrary(), 0, 0, arbitrary(), repo@, arbitrary(), rows@);
            }
        }
        if rows.len() == 0 {
            self.set_toast(owned("no stashes"), TOAST_MS);
            return;
        }
        self.picker = Some(Picker::open(rows.len(), 0));
        self.stash_choices = rows;
        self.picker_repo = Some(repo);
        self.pane = Pane::Stashes;
        assert(self@ =~= open_stash_picker(old(self)@, repo@, rows@));
    }

    pub fn stash_choices(&self) -> (r: &[StashChoice])
        ensures
            r@ == self@.stash_choices,
    {
        self.stash_choices.as_slice()
    }

    /// How a repository is named on screen, by path; the path itself for
    /// one the scan no longer lists.
    fn display_name_of(&self, p: &str) -> (r: String)
        ensures
            r@ == display_name_of(self@.rows, p@),
    {
        match find_row(&self.rows, p) {
            Some(i) => owned(self.rows[i].display_name.as_str()),
            None => owned(p),
        }
    }

    /// Enter in the branch picker: switch to the highlighted branch.
    fn choose_branch(&mut self) -> (r: Command)
        ensures
            toast_kept_or_renewed(*old(self), *final(self)),
            (final(self)@, r@) == choose_branch(old(self)@),
    {
        let i = self.picker_index();
        let cmd = if i < self.branch_choices.len() && !self.branch_choices[i].is_head {
            match &self.picker_repo {
                Some(p) => Command::Checkout(owned(p.as_str()), owned(self.branch_choices[i].name.as_str())),
                None => Command::Nothing,
            }
        } else {
            Command::Nothing
        };
        self.close_picker();
        cmd
    }

    /// `d` in the branch picker: diff the highlighted branch; the picker
    /// stays open, as there is nothing to re-pick when the pager returns.
    fn diff_highlighted_branch(&self) -> (r: Command)
        ensures
            r@ == diff_highlighted_branch(self@).1,
    {
        let i = self.picker_index();
        if i < self.branch_choices.len() {
            match &self.picker_repo {
                Some(p) => Command::BranchDiff(owned(p.as_str()), owned(self.branch_choices[i].name.as_str())),
                None => Command::Nothing,
            }
        } else {
            Command::Nothing
        }
    }

    /// `x` in the stash picker: asks before dropping the highlighted stash.
    fn confirm_stash_drop(&mut self) -> (r: Command)
        ensures
            toast_kept_or_renewed(*old(self), *final(self)),
            (final(self)@, r@) == confirm_stash_drop(old(self)@),
    {
        let i = self.picker_index();
        if i >= self.stash_choices.len() {
            return Command::Nothing;
        }
        let path = match &self.picker_repo {
            Some(p) => owned(p.as_str()),
            None => {
                return Command::Nothing;
            },
        };
        let index = self.stash_choices[i].index;
        let scope = self.display_name_of(path.as_str());
        let mut summary = owned("drop stash@{");
        push_decimal(&mut summary, index as u64);
        push_str(&mut summary, "} in ");
        push_str(&mut summary, scope.as_str());
        push_str(&mut summary, " — \"");
        push_str(&mut summary, self.stash_choices[i].message.as_str());
        push_char(&mut summary, '"');
        self.close_picker();
        let mut targets: Vec<String> = Vec::new();
        targets.push(path);
        assert(strings_view(targets@) =~= seq![path@]);
        self.pending = Some(
            Pending { kind: Destructive::StashDrop, targets, stash: Some(index), branch: None, summary },
        );
        self.pane = Pane::Confirm;
        assert(self@ =~= confirm_stash_drop(old(self)@).0);
        Command::Nothing
    }

    /// `x` in the branch picker: asks before deleting the highlighted
    /// branch. git refuses to delete the branch that is checked out, so
    /// that one is turned away here.
    fn confirm_branch_delete(&mut self) -> (r: Command)
        ensures
            toast_kept_or_renewed(*old(self), *final(self)),
            (final(self)@, r@) == confirm_branch_delete(old(self)@),
    {
        let i = self.picker_index();
        if i >= self.branch_choices.len() {
            return Command::Nothing;
        }
        let path = match &self.picker_repo {
            Some(p) => owned(p.as_str()),
            None => {
                return Command::Nothing;
            },
        };
        if self.branch_choices[i].is_head {
            self.set_toast(owned("cannot delete the current branch"), TOAST_MS);
            return Command::Nothing;
        }
        let name = owned(self.branch_choices[i].name.as_str());
        let scope = self.display_name_of(path.as_str());
        let mut summary = owned("delete branch ");
        push_str(&mut summary, name.as_str());
        push_str(&mut summary, " in ");
        push_str(&mut summary, scope.as_str());
        self.close_picker();
        let mut targets: Vec<String> = Vec::new();
        targets.push(path);
        assert(strings_view(targets@) =~= seq![path@]);
        self.pending = Some(
            Pending { kind: Destructive::BranchDelete, targets, stash: None, branch: Some(name), summary },
        );
        self.pane = Pane::Confirm;
        assert(self@ =~= confirm_branch_delete(old(self)@).0);
        Command::Nothing
    }
}

impl App {
    /// The selected repository, if it has an upstream to compare against;
    /// otherwise the user is told why nothing happens.
    fn upstream_target(&mut self) -> (r: Option<String>)
        ensures
            toast_kept_or_renewed(*old(self), *final(self)),
            (final(self)@, opt_str(r)) == upstream_target(old(self)@),
    {
        match self.selected_row() {
            Some(i) => if self.rows[i].upstream.is_some() {
                Some(owned(self.rows[i].path.as_str()))
            } else {
                self.set_toast(owned("branch has no upstream"), TOAST_MS);
                None
            },
            None => None,
        }
    }

    /// The answer to a confirmation: only `y` goes ahead.
    fn on_key_confirm(&mut self, key: Key) -> (r: Command)
        ensures
            toast_kept_or_renewed(*old(self), *final(self)),
            (final(self)@, r@) == on_key_confirm(old(self)@, key),
    {
        let confirmed = key.code == KeyCode::Char('y');
        let pending = self.pending.take();
        self.pane = Pane::List;
        match pending {
            Some(p) => if confirmed {
                match p.kind {
                    Destructive::Prune => Command::Prune(p.targets),
                    Destructive::StashDrop => match p.stash {
                        Some(i) => if p.targets.len() > 0 {
                            Command::DropStash(owned(p.targets[0].as_str()), i)
                        } else {
                            Command::Nothing
                        },
                        None => Command::Nothing,
                    },
                    Destructive::BranchDelete => match &p.branch {
                        Some(b) => if p.targets.len() > 0 {
                            Command::DeleteBranch(owned(p.targets[0].as_str()), owned(b.as_str()))
                        } else {
                            Command::Nothing
                        },
                        None => Command::Nothing,
                    },
                }
            } else {
                Command::Nothing
            },
            None => Command::Nothing,
        }
    }

    fn on_key_namespaces(&mut self, key: Key) -> (r: Command)
        ensures
            toast_kept_or_renewed(*old(self), *final(self)),
            (final(self)@, r@) == on_key_namespaces(old(self)@, key),
    {
        if key.code == KeyCode::Down {
            self.move_picker(1);
            Command::Nothing
        } else if key.code == KeyCode::Up {
            self.move_picker(-1);
            Command::Nothing
        } else if key.code == KeyCode::Enter {
            self.choose_namespace()
        } else if key.code == KeyCode::Esc || key.code == KeyCode::Char('q') || key.code == KeyCode::Char('n') {
            self.close_picker();
            Command::Nothing
        } else {
            Command::Nothing
        }
    }

    fn on_key_branches(&mut self, key: Key) -> (r: Command)
        ensures
            toast_kept_or_renewed(*old(self), *final(self)),
            (final(self)@, r@) == on_key_branches(old(self)@, key),
    {
        if key.code == KeyCode::Down {
            self.move_picker(1);
            Command::Nothing
        } else if key.code == KeyCode::Up {
            self.move_picker(-1);
            Command::Nothing
        } else if key.code == KeyCode::Enter {
            self.choose_branch()
        } else if key.code == KeyCode::Char('d') {
            self.diff_highlighted_branch()
        } else if key.code == KeyCode::Char('x') {
            self.confirm_branch_delete()
        } else if key.code == KeyCode::Esc || key.code == KeyCode::Char('q') || key.code == KeyCode::Char('b') {
            self.close_picker();
            Command::Nothing
        } else {
            Command::Nothing
        }
    }

    fn on_key_stashes(&mut self, key: Key) -> (r: Command)
        ensures
            toast_kept_or_renewed(*old(self), *final(self)),
            (final(self)@, r@) == on_key_stashes(old(self)@, key),
    {
        if key.code == KeyCode::Down {
            self.move_picker(1);
            Command::Nothing
        } else if key.code == KeyCode::Up {
            self.move_picker(-1);
            Command::Nothing
        } else if key.code == KeyCode::Enter {
            let i = self.picker_index();
            let cmd = if i < self.stash_choices.len() {
                match &self.picker_repo {
                    Some(p) => Command::ShowStash(owned(p.as_str()), self.stash_choices[i].index),
                    None => Command::Nothing,
                }
            } else {
                Command::Nothing
            };
            self.close_picker();
            cmd
        } else if key.code == KeyCode::Char('x') {
            self.confirm_stash_drop()
        } else if key.code == KeyCode::Esc || key.code == KeyCode::Char('q') || key.code == KeyCode::Char('s') {
            self.close_picker();
            Command::Nothing
        } else {
            Command::Nothing
        }
    }

    fn on_key_sort(&mut self, key: Key) -> (r: Command)
        ensures
            toast_kept_or_renewed(*old(self), *final(self)),
            (final(self)@, r@) == on_key_sort(old(self)@, key),
    {
        if key.code == KeyCode::Down {
            self.move_picker(1);
            Command::Nothing
        } else if key.code == KeyCode::Up {
            self.move_picker(-1);
            Command::Nothing
        } else if key.code == KeyCode::Enter {
            self.choose_sort()
        } else if key.code == KeyCode::Esc || key.code == KeyCode::Char('q') || key.code == KeyCode::Char('S') {
            self.close_picker();
            Command::Nothing
        } else {
            Command::Nothing
        }
    }

    /// The help and problems panes: scroll, toggle, or close.
    fn on_key_pane(&mut self, key: Key)
        ensures
            toast_kept_or_renewed(*old(self), *final(self)),
            final(self)@ == on_key_pane(old(self)@, key),
    {
        if key.code == KeyCode::Esc || key.code == KeyCode::Char('q') {
            self.pane = Pane::List;
            self.pane_scroll = 0;
        } else if key.code == KeyCode::Down || key.code == KeyCode::Char('J') {
            self.scroll_pane(1);
        } else if key.code == KeyCode::Up || key.code == KeyCode::Char('K') {
            self.scroll_pane(-1);
        } else if key.code == KeyCode::PageDown {
            self.scroll_pane(10);
        } else if key.code == KeyCode::PageUp {
            self.scroll_pane(-10);
        } else if key.code == KeyCode::Char('!') {
            self.pane = if self.pane == Pane::Problems {
                Pane::List
            } else {
                Pane::Problems
            };
        } else if key.code == KeyCode::Char('?') {
            self.pane = if self.pane == Pane::Help {
                Pane::List
            } else {
                Pane::Help
            };
        }
        assert(self@ =~= on_key_pane(old(self)@, key));
    }

    fn on_key_overlay(&mut self, key: Key) -> (r: Command)
        ensures
            toast_kept_or_renewed(*old(self), *final(self)),
            (final(self)@, r@) == on_key_overlay(old(self)@, key),
    {
        if self.pane == Pane::Confirm {
            self.on_key_confirm(key)
        } else if self.pane == Pane::Namespaces {
            self.on_key_namespaces(key)
        } else if self.pane == Pane::Branches {
            self.on_key_branches(key)
        } else if self.pane == Pane::Stashes {
            self.on_key_stashes(key)
        } else if self.pane == Pane::Sort {
            self.on_key_sort(key)
        } else {
            self.on_key_pane(key);
            Command::Nothing
        }
    }

    /// While typing a filter every character is text.
    fn on_key_filtering(&mut self, key: Key) -> (r: Command)
        ensures
            toast_kept_or_renewed(*old(self), *final(self)),
            (final(self)@, r@) == on_key_filtering(old(self)@, key),
    {
        match key.code {
            KeyCode::Esc => {
                self.filtering = false;
                self.filter = String::new();
                self.anchor = None;
                self.clamp_selection();
                self.detail_command()
            },
            KeyCode::Enter => {
                self.filtering = false;
                self.detail_command()
            },
            KeyCode::Backspace => {
                let mut v = chars_of(self.filter.as_str());
                if v.len() > 0 {
                    v.pop();
                }
                self.filter = string_from(&v);
                self.selected = 0;
                self.anchor = None;
                self.clamp_selection();
                self.detail_command()
            },
            KeyCode::Char(c) => {
                push_char(&mut self.filter, c);
                self.selected = 0;
                self.anchor = None;
                self.clamp_selection();
                self.detail_command()
            },
            _ => Command::Nothing,
        }
    }
}

impl App {
    /// The selected repository's path as a command, or nothing.
    fn selected_command(&self, kind: char) -> (r: Command)
        requires
            kind == 'S' || kind == 'E' || kind == 'M',
        ensures
            r@ == path_command(
                selected_path(self@),
                if kind == 'S' {
                    |p: Seq<char>| CommandView::Shell(p)
                } else if kind == 'E' {
                    |p: Seq<char>| CommandView::Editor(p)
                } else {
                    |p: Seq<char>| CommandView::AncestorDiff(p)
                },
            ),
    {
        match self.selected_path() {
            Some(p) => if kind == 'S' {
                Command::Shell(p)
            } else if kind == 'E' {
                Command::Editor(p)
            } else {
                Command::AncestorDiff(p)
            },
            None => Command::Nothing,
        }
    }

    /// Keys that move around the list or change what it shows.
    fn on_char_view(&mut self, c: char) -> (r: Command)
        requires
            c == 'g' || c == 'G' || c == 'd' || c == '/' || c == '!' || c == '?' || c == ' ' || c == 'J' || c == 'K'
                || c == 'V' || c == 'a' || c == 'n' || c == 'S',
        ensures
            toast_kept_or_renewed(*old(self), *final(self)),
            (final(self)@, r@) == on_char_list(old(self)@, c),
    {
        if c == 'g' {
            self.selected = 0;
            self.detail_command()
        } else if c == 'G' {
            let len = self.visible_len();
            self.selected = if len > 0 {
                len - 1
            } else {
                0
            };
            self.detail_command()
        } else if c == 'd' {
            self.drifted_only = !self.drifted_only;
            self.anchor = None;
            self.clamp_selection();
            self.detail_command()
        } else if c == '/' {
            self.filtering = true;
            Command::Nothing
        } else if c == '!' {
            self.pane = Pane::Problems;
            self.pane_scroll = 0;
            Command::Nothing
        } else if c == '?' {
            self.pane = Pane::Help;
            self.pane_scroll = 0;
            Command::Nothing
        } else if c == ' ' {
            self.toggle_mark();
            Command::Nothing
        } else if c == 'J' {
            self.scroll_pane(1);
            Command::Nothing
        } else if c == 'K' {
            self.scroll_pane(-1);
            Command::Nothing
        } else if c == 'V' {
            self.mark_range();
            Command::Nothing
        } else if c == 'a' {
            self.mark_all();
            Command::Nothing
        } else if c == 'n' {
            self.open_namespaces();
            Command::Nothing
        } else {
            self.open_sort();
            Command::Nothing
        }
    }

    /// Keys that ask the event loop to do something.
    fn on_char_act(&mut self, c: char) -> (r: Command)
        requires
            !(c == 'g' || c == 'G' || c == 'd' || c == '/' || c == '!' || c == '?' || c == ' ' || c == 'J' || c == 'K'
                || c == 'V' || c == 'a' || c == 'n' || c == 'S'),
        ensures
            toast_kept_or_renewed(*old(self), *final(self)),
            (final(self)@, r@) == on_char_list(old(self)@, c),
    {
        if c == 'q' {
            Command::Quit
        } else if c == 'r' {
            Command::Rescan
        } else if c == 'F' {
            Command::FetchAll
        } else if c == 's' {
            Command::OpenStashes
        } else if c == 'f' {
            self.act(ActKind::Fetch)
        } else if c == 'p' {
            let had_marks = self.marked.len() > 0;
            let cmd = self.act(ActKind::Pull);
            let acted = match &cmd {
                Command::Nothing => false,
                _ => true,
            };
            if had_marks && acted {
                self.marked = Vec::new();
                self.anchor = None;
                assert(self@.marked =~= seq![]);
            }
            cmd
        } else if c == 'X' {
            self.confirm(Destructive::Prune)
        } else if c == 'e' {
            self.selected_command('E')
        } else if c == 'U' {
            match self.upstream_target() {
                Some(p) => Command::Diff(p),
                None => Command::Nothing,
            }
        } else if c == 'L' {
            match self.upstream_target() {
                Some(p) => Command::Log(p),
                None => Command::Nothing,
            }
        } else if c == 'M' {
            self.selected_command('M')
        } else if c == 'b' {
            match self.selected_row() {
                Some(i) => if self.rows[i].is_dirty() {
                    self.set_toast(owned("worktree has uncommitted changes"), TOAST_MS);
                    Command::Nothing
                } else {
                    Command::OpenBranches
                },
                None => Command::Nothing,
            }
        } else {
            Command::Nothing
        }
    }

    /// The list's own keys.
    fn on_key_list(&mut self, key: Key) -> (r: Command)
        ensures
            toast_kept_or_renewed(*old(self), *final(self)),
            (final(self)@, r@) == on_key_list(old(self)@, key),
    {
        match key.code {
            KeyCode::Esc => Command::Quit,
            KeyCode::Down => self.move_by(1),
            KeyCode::Up => self.move_by(-1),
            KeyCode::PageDown => self.move_by(10),
            KeyCode::PageUp => self.move_by(-10),
            KeyCode::Tab => {
                self.detail_toggled = !self.detail_toggled;
                Command::Nothing
            },
            KeyCode::Enter => self.selected_command('S'),
            KeyCode::Char(c) => if c == 'g' || c == 'G' || c == 'd' || c == '/' || c == '!' || c == '?' || c == ' '
                || c == 'J' || c == 'K' || c == 'V' || c == 'a' || c == 'n' || c == 'S' {
                self.on_char_view(c)
            } else {
                self.on_char_act(c)
            },
            _ => Command::Nothing,
        }
    }

    /// A key press. Ctrl-C always quits; any other held modifier but Shift
    /// makes it a different key than the one bound (Ctrl-P is not `p`), which
    /// does nothing. Otherwise the key goes to the filter being typed, the
    /// open overlay, or the list.
    pub fn on_key(&mut self, key: Key) -> (r: Command)
        ensures
            list_ok(old(self)@) ==> list_ok(final(self)@),
            toast_kept_or_renewed(*old(self), *final(self)),
            final(self)@.toast != old(self)@.toast ==> final(self).toast_ttl() == TOAST_MS,
            (final(self)@, r@) == on_key(old(self)@, key),
    {
        proof {
            if list_ok(self@) {
                law_keys_keep_the_list_sound(self@, key);
            }
        }
        if key.modifiers.control && key.code == KeyCode::Char('c') {
            return Command::Quit;
        }
        if key.modifiers.control || key.modifiers.alt || key.modifiers.super_key || key.modifiers.meta {
            return Command::Nothing;
        }
        if self.filtering {
            return self.on_key_filtering(key);
        }
        if self.pane != Pane::List {
            return self.on_key_overlay(key);
        }
        self.on_key_list(key)
    }
}

proof fn lemma_find_job_first(jobs: Seq<JobView>, id: u64, i: int)
    requires
        0 <= i < jobs.len(),
        jobs[i].id == id,
        forall|k: int| 0 <= k < i ==> #[trigger] jobs[k].id != id,
    ensures
        crate::ui::model::find_job(jobs, id) == Some(i),
    decreases i,
{
    if i > 0 {
        assert forall|k: int| 0 <= k < i - 1 implies #[trigger] jobs.drop_first()[k].id != id by {
            assert(jobs.drop_first()[k] == jobs[k + 1]);
        }
        assert(jobs[0].id != id);
        lemma_find_job_first(jobs.drop_first(), id, i - 1);
    }
}

proof fn lemma_find_job_none(jobs: Seq<JobView>, id: u64)
    requires
        forall|k: int| 0 <= k < jobs.len() ==> #[trigger] jobs[k].id != id,
    ensures
        crate::ui::model::find_job(jobs, id) is None,
    decreases jobs.len(),
{
    if jobs.len() > 0 {
        assert(jobs[0].id != id);
        assert forall|k: int| 0 <= k < jobs.len() - 1 implies #[trigger] jobs.drop_first()[k].id != id by {
            assert(jobs.drop_first()[k] == jobs[k + 1]);
        }
        lemma_find_job_none(jobs.drop_first(), id);
    }
}

} // verus!
