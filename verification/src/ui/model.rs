//! The abstract state of the interactive list and what each input does to
//! it. `App` (in `state`) is proved to follow these definitions step by step.
use vstd::prelude::*;

use crate::actions::strings_view;
use crate::discover::Problem;
use crate::drift::{sorted_rows, spec_is_drifted, spec_sort_index, Sort};
use crate::status::{spec_is_dirty, RepoStatus};
use crate::text::{contains_seq, decimal, first_index_of, seq_lt};
use crate::ui::picker::clamp_int;
use crate::ui::state::{BranchChoice, Destructive, KeyCode, Key, Pane, StashChoice};

verus! {

/// A command as the event loop receives it, with paths as text.
pub enum CommandView {
    Nothing,
    Quit,
    Fetch(Seq<Seq<char>>),
    FetchAll,
    Pull(Seq<Seq<char>>),
    Prune(Seq<Seq<char>>),
    Shell(Seq<char>),
    Editor(Seq<char>),
    Diff(Seq<char>),
    Log(Seq<char>),
    AncestorDiff(Seq<char>),
    Rescan,
    LoadDetail(Seq<char>),
    OpenBranches,
    Checkout(Seq<char>, Seq<char>),
    BranchDiff(Seq<char>, Seq<char>),
    DeleteBranch(Seq<char>, Seq<char>),
    OpenStashes,
    ShowStash(Seq<char>, nat),
    DropStash(Seq<char>, nat),
}

/// A confirmation waiting on the user, as text.
#[verifier::ext_equal]
pub struct PendingView {
    pub kind: Destructive,
    pub targets: Seq<Seq<char>>,
    pub stash: Option<nat>,
    pub branch: Option<Seq<char>>,
    pub summary: Seq<char>,
}

/// A job in flight, as text.
#[verifier::ext_equal]
pub struct JobView {
    pub id: u64,
    pub label: Seq<char>,
    pub done: nat,
    pub total: nat,
}

/// Everything the list's behaviour depends on. The toast is its text
/// alone: when it expires is a matter of the clock.
#[verifier::ext_equal]
pub struct AppView {
    pub rows: Seq<RepoStatus>,
    pub problems: Seq<Problem>,
    pub selected: int,
    pub filter: Seq<char>,
    pub filtering: bool,
    pub drifted_only: bool,
    pub pane: Pane,
    pub jobs: Seq<JobView>,
    pub next_job_id: int,
    pub scan_job: Option<u64>,
    pub toast: Option<Seq<char>>,
    pub marked: Seq<Seq<char>>,
    pub pending: Option<PendingView>,
    pub default_branches: Seq<String>,
    pub sort: Sort,
    pub anchor: Option<(Seq<char>, bool)>,
    pub group: Option<Seq<char>>,
    /// The open popover's cursor and row count.
    pub picker: Option<(nat, nat)>,
    pub branch_choices: Seq<BranchChoice>,
    pub stash_choices: Seq<StashChoice>,
    pub picker_repo: Option<Seq<char>>,
    pub pane_scroll: int,
    pub detail_toggled: bool,
    pub pending_selection: Option<Seq<char>>,
}

// --- rows and what is visible -------------------------------------------

/// The top-level path segment a repository lives under, e.g. `idp` for
/// `idp/run-plane/foo`; empty for a repository at a root.
pub open spec fn spec_namespace(name: Seq<char>) -> Seq<char> {
    match first_index_of(name, '/') {
        Some(i) => name.take(i),
        None => seq![],
    }
}

/// Shown by the drifted-only toggle and the text filter (a substring of the
/// display name).
pub open spec fn passes(drifted_only: bool, filter: Seq<char>, r: RepoStatus) -> bool {
    (!drifted_only || spec_is_drifted(r)) && (filter.len() == 0 || contains_seq(r.display_name@, filter))
}

pub open spec fn passes_filters(v: AppView, r: RepoStatus) -> bool {
    passes(v.drifted_only, v.filter, r)
}

/// Shown in the list: passes the filters and sits in the chosen namespace.
pub open spec fn shown_by(drifted_only: bool, filter: Seq<char>, group: Option<Seq<char>>, r: RepoStatus) -> bool {
    passes(drifted_only, filter, r) && match group {
        Some(g) => spec_namespace(r.display_name@) == g,
        None => true,
    }
}

pub open spec fn shown(v: AppView, r: RepoStatus) -> bool {
    shown_by(v.drifted_only, v.filter, v.group, r)
}

pub open spec fn visible_idx_upto(
    rows: Seq<RepoStatus>,
    drifted_only: bool,
    filter: Seq<char>,
    group: Option<Seq<char>>,
    n: int,
) -> Seq<int>
    decreases n,
{
    if n <= 0 {
        seq![]
    } else {
        visible_idx_upto(rows, drifted_only, filter, group, n - 1) + if shown_by(
            drifted_only,
            filter,
            group,
            rows[n - 1],
        ) {
            seq![n - 1]
        } else {
            seq![]
        }
    }
}

/// Positions in `rows` of the rows the list shows, in order.
pub open spec fn visible_idx(v: AppView) -> Seq<int> {
    visible_idx_upto(v.rows, v.drifted_only, v.filter, v.group, v.rows.len() as int)
}

/// The rows the list shows, in order.
pub open spec fn spec_visible(v: AppView) -> Seq<RepoStatus> {
    visible_idx(v).map_values(|k: int| v.rows[k])
}

/// Every visible position is a row, and they only grow.
pub proof fn lemma_visible_idx_bounds(
    rows: Seq<RepoStatus>,
    drifted_only: bool,
    filter: Seq<char>,
    group: Option<Seq<char>>,
    n: int,
)
    requires
        0 <= n <= rows.len(),
    ensures
        forall|k: int|
            0 <= k < visible_idx_upto(rows, drifted_only, filter, group, n).len() ==> 0 <= #[trigger] visible_idx_upto(
                rows,
                drifted_only,
                filter,
                group,
                n,
            )[k] < n,
        visible_idx_upto(rows, drifted_only, filter, group, n).len() <= n,
    decreases n,
{
    if n > 0 {
        lemma_visible_idx_bounds(rows, drifted_only, filter, group, n - 1);
    }
}

pub open spec fn spec_selected(v: AppView) -> Option<RepoStatus> {
    if 0 <= v.selected < spec_visible(v).len() {
        Some(spec_visible(v)[v.selected])
    } else {
        None
    }
}

pub open spec fn selected_path(v: AppView) -> Option<Seq<char>> {
    match spec_selected(v) {
        Some(r) => Some(r.path@),
        None => None,
    }
}

/// The first row whose path is `p`.
pub open spec fn find_path(rows: Seq<RepoStatus>, p: Seq<char>) -> Option<int>
    decreases rows.len(),
{
    if rows.len() == 0 {
        None
    } else if rows[0].path@ == p {
        Some(0)
    } else {
        match find_path(rows.drop_first(), p) {
            Some(i) => Some(i + 1),
            None => None,
        }
    }
}

/// How a repository is named on screen: its row's display name, or the
/// path itself for one the scan no longer lists.
pub open spec fn display_name_of(rows: Seq<RepoStatus>, p: Seq<char>) -> Seq<char> {
    match find_path(rows, p) {
        Some(i) => if 0 <= i < rows.len() { rows[i].display_name@ } else { p },
        None => p,
    }
}

pub open spec fn clamp_selection(v: AppView) -> AppView {
    let len = spec_visible(v).len();
    AppView { selected: if len == 0 { 0 } else if v.selected < len - 1 { v.selected } else { len - 1 }, ..v }
}

/// A different repository starts at the top of its own detail, which the
/// loop is asked to load.
pub open spec fn detail_command(v: AppView) -> (AppView, CommandView) {
    (AppView { pane_scroll: 0, ..v }, match selected_path(v) {
        Some(p) => CommandView::LoadDetail(p),
        None => CommandView::Nothing,
    })
}

pub open spec fn move_by(v: AppView, delta: int) -> (AppView, CommandView) {
    let len = spec_visible(v).len();
    if len == 0 {
        (v, CommandView::Nothing)
    } else {
        detail_command(AppView { selected: clamp_int(v.selected + delta, 0, len - 1), ..v })
    }
}

pub open spec fn set_toast(v: AppView, text: Seq<char>) -> AppView {
    AppView { toast: Some(text), ..v }
}

/// The wheel and `J`/`K` scroll the pane, stopping at both ends of `u16`.
pub open spec fn scroll_pane(v: AppView, delta: int) -> AppView {
    AppView { pane_scroll: clamp_int(v.pane_scroll + delta, 0, u16::MAX as int), ..v }
}

// --- marks -------------------------------------------------------------

pub open spec fn without(m: Seq<Seq<char>>, p: Seq<char>) -> Seq<Seq<char>>
    decreases m.len(),
{
    if m.len() == 0 {
        seq![]
    } else {
        without(m.drop_last(), p) + if m.last() == p {
            seq![]
        } else {
            seq![m.last()]
        }
    }
}

pub open spec fn with(m: Seq<Seq<char>>, p: Seq<char>) -> Seq<Seq<char>> {
    if m.contains(p) {
        m
    } else {
        m.push(p)
    }
}

/// Space: flips the selected row's mark and remembers it, and which way it
/// went, as the anchor for a range.
pub open spec fn toggle_mark(v: AppView) -> AppView {
    match selected_path(v) {
        Some(p) => {
            let now_marked = !v.marked.contains(p);
            AppView {
                marked: if now_marked { v.marked.push(p) } else { without(v.marked, p) },
                anchor: Some((p, now_marked)),
                ..v
            }
        },
        None => v,
    }
}

/// Marks (or unmarks) every path of `rows`, in order.
pub open spec fn sweep(m: Seq<Seq<char>>, rows: Seq<RepoStatus>, mark: bool) -> Seq<Seq<char>>
    decreases rows.len(),
{
    if rows.len() == 0 {
        m
    } else {
        let m2 = sweep(m, rows.drop_last(), mark);
        if mark {
            with(m2, rows.last().path@)
        } else {
            without(m2, rows.last().path@)
        }
    }
}

/// Shift-V: sweeps the anchor's outcome (mark or unmark) across the rows
/// between the anchor and the cursor, inclusive. The anchor is a repository,
/// found again by path; without one, only the cursor's row is marked.
pub open spec fn mark_range(v: AppView) -> AppView {
    let vis = spec_visible(v);
    let (anchor, mark) = match v.anchor {
        Some((p, m)) => (
            match find_path(vis, p) {
                Some(i) => i,
                None => v.selected,
            },
            m,
        ),
        None => (v.selected, true),
    };
    let lo = if anchor <= v.selected { anchor } else { v.selected };
    let hi = if anchor <= v.selected { v.selected } else { anchor };
    let range = if 0 <= lo <= hi < vis.len() { vis.subrange(lo, hi + 1) } else { seq![] };
    AppView {
        marked: sweep(v.marked, range, mark),
        anchor: match selected_path(v) {
            Some(p) => Some((p, mark)),
            None => None,
        },
        ..v
    }
}

/// `a`: marks every visible row, or clears the marks if there are any.
pub open spec fn mark_all(v: AppView) -> AppView {
    AppView {
        marked: if v.marked.len() == 0 { sweep(v.marked, spec_visible(v), true) } else { seq![] },
        anchor: None,
        ..v
    }
}

pub open spec fn marked_visible(marked: Seq<Seq<char>>, rows: Seq<RepoStatus>) -> Seq<Seq<char>>
    decreases rows.len(),
{
    if rows.len() == 0 {
        seq![]
    } else {
        marked_visible(marked, rows.drop_last()) + if marked.contains(rows.last().path@) {
            seq![rows.last().path@]
        } else {
            seq![]
        }
    }
}

/// What an action applies to: every marked repository still visible, in
/// list order, or the selected row when nothing is marked.
pub open spec fn targets(v: AppView) -> Seq<Seq<char>> {
    if v.marked.len() == 0 {
        match selected_path(v) {
            Some(p) => seq![p],
            None => seq![],
        }
    } else {
        marked_visible(v.marked, spec_visible(v))
    }
}

/// Marks that the view hides every one of are said so, not silently ignored.
pub open spec fn warn_no_targets(v: AppView) -> AppView {
    if v.marked.len() > 0 {
        set_toast(v, decimal(v.marked.len()) + " marked, none of them in this view"@)
    } else {
        v
    }
}

pub enum ActKind {
    Fetch,
    Pull,
}

pub open spec fn act(v: AppView, kind: ActKind) -> (AppView, CommandView) {
    let t = targets(v);
    if t.len() > 0 {
        (v, match kind {
            ActKind::Fetch => CommandView::Fetch(t),
            ActKind::Pull => CommandView::Pull(t),
        })
    } else {
        (warn_no_targets(v), CommandView::Nothing)
    }
}

pub open spec fn spec_verb(kind: Destructive) -> Seq<char> {
    match kind {
        Destructive::Prune => "prune remotes and delete branches whose upstream is gone in"@,
        Destructive::StashDrop => "drop"@,
        Destructive::BranchDelete => "delete branch"@,
    }
}

/// Stages a destructive action for confirmation; nothing happens until the
/// user answers.
pub open spec fn confirm(v: AppView, kind: Destructive) -> (AppView, CommandView) {
    let t = targets(v);
    if t.len() == 0 {
        (warn_no_targets(v), CommandView::Nothing)
    } else {
        let scope = if t.len() == 1 {
            display_name_of(spec_visible(v), t[0])
        } else {
            decimal(t.len()) + " repositories"@
        };
        (
            AppView {
                pending: Some(
                    PendingView {
                        kind,
                        targets: t,
                        stash: None,
                        branch: None,
                        summary: spec_verb(kind) + seq![' '] + scope,
                    },
                ),
                pane: Pane::Confirm,
                ..v
            },
            CommandView::Nothing,
        )
    }
}

// --- popovers ----------------------------------------------------------

pub open spec fn picker_index(v: AppView) -> int {
    match v.picker {
        Some(p) => p.0 as int,
        None => 0,
    }
}

/// A cursor over `len` rows, on row `at` or the last row.
pub open spec fn open_picker(len: nat, at: int) -> (nat, nat) {
    (if len == 0 { 0 } else if at < len { at as nat } else { (len - 1) as nat }, len)
}

/// The popover's cursor moved by `delta`, held to its rows.
pub open spec fn move_picker(v: AppView, delta: int) -> AppView {
    match v.picker {
        Some(p) => if p.1 == 0 {
            v
        } else {
            AppView { picker: Some((clamp_int(p.0 + delta, 0, p.1 - 1) as nat, p.1)), ..v }
        },
        None => v,
    }
}

pub open spec fn close_picker(v: AppView) -> AppView {
    AppView { pane: Pane::List, picker: None, picker_repo: None, ..v }
}

/// Where `x` belongs in the ordered list `ns`: before the first entry not
/// below it.
pub open spec fn ns_pos(ns: Seq<Seq<char>>, x: Seq<char>) -> int
    decreases ns.len(),
{
    if ns.len() == 0 {
        0
    } else if !seq_lt(ns[0], x) {
        0
    } else {
        1 + ns_pos(ns.drop_first(), x)
    }
}

/// `ns` with `x` added in order, unless it is there already.
pub open spec fn ns_insert(ns: Seq<Seq<char>>, x: Seq<char>) -> Seq<Seq<char>> {
    let j = ns_pos(ns, x);
    if 0 <= j < ns.len() && ns[j] == x {
        ns
    } else {
        ns.insert(j, x)
    }
}

pub open spec fn namespaces_upto(rows: Seq<RepoStatus>, drifted_only: bool, filter: Seq<char>, n: int) -> Seq<
    Seq<char>,
>
    decreases n,
{
    if n <= 0 {
        seq![]
    } else {
        let ns = namespaces_upto(rows, drifted_only, filter, n - 1);
        if passes(drifted_only, filter, rows[n - 1]) {
            ns_insert(ns, spec_namespace(rows[n - 1].display_name@))
        } else {
            ns
        }
    }
}

/// Every namespace present among the rows the filters show (ignoring the
/// namespace filter itself, so the picker can always reach the next one),
/// each once, in order.
pub open spec fn namespaces(v: AppView) -> Seq<Seq<char>> {
    namespaces_upto(v.rows, v.drifted_only, v.filter, v.rows.len() as int)
}

/// How many of `rows` the filters show, within namespace `ns` when given.
pub open spec fn count_in(drifted_only: bool, filter: Seq<char>, rows: Seq<RepoStatus>, ns: Option<Seq<char>>) -> nat
    decreases rows.len(),
{
    if rows.len() == 0 {
        0
    } else {
        count_in(drifted_only, filter, rows.drop_last(), ns) + if passes(drifted_only, filter, rows.last()) && match ns {
            Some(n) => spec_namespace(rows.last().display_name@) == n,
            None => true,
        } {
            1nat
        } else {
            0nat
        }
    }
}

/// The namespace picker's rows: "all" with every row the filters show, then
/// each namespace with its own count.
pub open spec fn namespace_choices(v: AppView) -> Seq<(Seq<char>, nat)> {
    seq![("all"@, count_in(v.drifted_only, v.filter, v.rows, None))] + namespaces(v).map_values(
        |n: Seq<char>| (n, count_in(v.drifted_only, v.filter, v.rows, Some(n))),
    )
}

/// The position of `name` among the picker's rows, or the top.
pub open spec fn choice_position(choices: Seq<(Seq<char>, nat)>, name: Seq<char>) -> int
    decreases choices.len(),
{
    if choices.len() == 0 {
        0
    } else if choices[0].0 == name {
        0
    } else if exists|k: int| 1 <= k < choices.len() && #[trigger] choices[k].0 == name {
        1 + choice_position(choices.drop_first(), name)
    } else {
        0
    }
}

/// `n`: opens the namespace picker on the namespace already in force.
pub open spec fn open_namespaces(v: AppView) -> AppView {
    let choices = namespace_choices(v);
    let at = match v.group {
        None => 0,
        Some(g) => choice_position(choices, g),
    };
    AppView { picker: Some(open_picker(choices.len(), at)), pane: Pane::Namespaces, ..v }
}

/// Applies the picked namespace ("all" clears it). The cursor returns to
/// the top: an old index means nothing in another namespace.
pub open spec fn choose_namespace(v: AppView) -> (AppView, CommandView) {
    let choices = namespace_choices(v);
    let index = picker_index(v);
    let chosen = AppView {
        group: if 0 < index < choices.len() { Some(choices[index].0) } else { None },
        ..v
    };
    detail_command(clamp_selection(AppView { selected: 0, anchor: None, ..close_picker(chosen) }))
}

/// `S`: opens the sort picker on the order in force.
pub open spec fn open_sort(v: AppView) -> AppView {
    AppView { picker: Some(open_picker(4, spec_sort_index(v.sort))), pane: Pane::Sort, ..v }
}

pub open spec fn sort_at(i: int) -> Sort {
    if i == 0 {
        Sort::Drift
    } else if i == 1 {
        Sort::Name
    } else if i == 2 {
        Sort::Recent
    } else {
        Sort::Stale
    }
}

/// Applies the picked order and re-sorts; the cursor returns to the top.
pub open spec fn choose_sort(v: AppView) -> (AppView, CommandView) {
    let sort = sort_at(picker_index(v));
    detail_command(
        clamp_selection(
            AppView { selected: 0, anchor: None, ..close_picker(AppView { sort, rows: sorted_rows(v.rows, sort), ..v }) },
        ),
    )
}

/// The first branch row that is checked out, or the top.
pub open spec fn head_position(rows: Seq<BranchChoice>) -> int
    decreases rows.len(),
{
    if rows.len() == 0 {
        0
    } else if rows[0].is_head {
        0
    } else if exists|k: int| 1 <= k < rows.len() && #[trigger] rows[k].is_head {
        1 + head_position(rows.drop_first())
    } else {
        0
    }
}

pub open spec fn open_branch_picker(v: AppView, repo: Seq<char>, rows: Seq<BranchChoice>) -> AppView {
    AppView {
        picker: Some(open_picker(rows.len(), head_position(rows))),
        branch_choices: rows,
        picker_repo: Some(repo),
        pane: Pane::Branches,
        ..v
    }
}

pub open spec fn highlighted_branch(v: AppView) -> Option<BranchChoice> {
    if 0 <= picker_index(v) < v.branch_choices.len() {
        Some(v.branch_choices[picker_index(v)])
    } else {
        None
    }
}

pub open spec fn highlighted_stash(v: AppView) -> Option<StashChoice> {
    if 0 <= picker_index(v) < v.stash_choices.len() {
        Some(v.stash_choices[picker_index(v)])
    } else {
        None
    }
}

/// Enter in the branch picker: switch to the highlighted branch, in the
/// repository the picker lists; the checked-out branch needs no switch.
pub open spec fn choose_branch(v: AppView) -> (AppView, CommandView) {
    (close_picker(v), match (highlighted_branch(v), v.picker_repo) {
        (Some(c), Some(p)) => if !c.is_head {
            CommandView::Checkout(p, c.name@)
        } else {
            CommandView::Nothing
        },
        _ => CommandView::Nothing,
    })
}

/// `d` in the branch picker: diff the highlighted branch without switching;
/// the picker stays open.
pub open spec fn diff_highlighted_branch(v: AppView) -> (AppView, CommandView) {
    (v, match (highlighted_branch(v), v.picker_repo) {
        (Some(c), Some(p)) => CommandView::BranchDiff(p, c.name@),
        _ => CommandView::Nothing,
    })
}

pub open spec fn open_stash_picker(v: AppView, repo: Seq<char>, rows: Seq<StashChoice>) -> AppView {
    if rows.len() == 0 {
        set_toast(v, "no stashes"@)
    } else {
        AppView {
            picker: Some(open_picker(rows.len(), 0)),
            stash_choices: rows,
            picker_repo: Some(repo),
            pane: Pane::Stashes,
            ..v
        }
    }
}

/// `x` in the stash picker: asks before dropping the highlighted stash.
pub open spec fn confirm_stash_drop(v: AppView) -> (AppView, CommandView) {
    match (highlighted_stash(v), v.picker_repo) {
        (Some(c), Some(p)) => {
            let scope = display_name_of(v.rows, p);
            (
                AppView {
                    pending: Some(
                        PendingView {
                            kind: Destructive::StashDrop,
                            targets: seq![p],
                            stash: Some(c.index as nat),
                            branch: None,
                            summary: "drop stash@{"@ + decimal(c.index as nat) + "} in "@ + scope + " — \""@
                                + c.message@ + seq!['"'],
                        },
                    ),
                    pane: Pane::Confirm,
                    ..close_picker(v)
                },
                CommandView::Nothing,
            )
        },
        _ => (v, CommandView::Nothing),
    }
}

/// `x` in the branch picker: asks before deleting the highlighted branch;
/// the checked-out branch cannot be deleted.
pub open spec fn confirm_branch_delete(v: AppView) -> (AppView, CommandView) {
    match (highlighted_branch(v), v.picker_repo) {
        (Some(c), Some(p)) => if c.is_head {
            (set_toast(v, "cannot delete the current branch"@), CommandView::Nothing)
        } else {
            let scope = display_name_of(v.rows, p);
            (
                AppView {
                    pending: Some(
                        PendingView {
                            kind: Destructive::BranchDelete,
                            targets: seq![p],
                            stash: None,
                            branch: Some(c.name@),
                            summary: "delete branch "@ + c.name@ + " in "@ + scope,
                        },
                    ),
                    pane: Pane::Confirm,
                    ..close_picker(v)
                },
                CommandView::Nothing,
            )
        },
        _ => (v, CommandView::Nothing),
    }
}

// --- keys --------------------------------------------------------------

pub open spec fn is_char(k: Key, c: char) -> bool {
    k.code == KeyCode::Char(c)
}

/// The answer to a confirmation: only `y` goes ahead; any other key
/// cancels. Either way the confirmation closes.
pub open spec fn on_key_confirm(v: AppView, k: Key) -> (AppView, CommandView) {
    let next = AppView { pending: None, pane: Pane::List, ..v };
    (next, match v.pending {
        Some(p) => if is_char(k, 'y') {
            match p.kind {
                Destructive::Prune => CommandView::Prune(p.targets),
                Destructive::StashDrop => if p.targets.len() > 0 && p.stash is Some {
                    CommandView::DropStash(p.targets[0], p.stash->0)
                } else {
                    CommandView::Nothing
                },
                Destructive::BranchDelete => if p.targets.len() > 0 && p.branch is Some {
                    CommandView::DeleteBranch(p.targets[0], p.branch->0)
                } else {
                    CommandView::Nothing
                },
            }
        } else {
            CommandView::Nothing
        },
        None => CommandView::Nothing,
    })
}

pub open spec fn on_key_namespaces(v: AppView, k: Key) -> (AppView, CommandView) {
    if k.code == KeyCode::Down {
        (move_picker(v, 1), CommandView::Nothing)
    } else if k.code == KeyCode::Up {
        (move_picker(v, -1), CommandView::Nothing)
    } else if k.code == KeyCode::Enter {
        choose_namespace(v)
    } else if k.code == KeyCode::Esc || is_char(k, 'q') || is_char(k, 'n') {
        (close_picker(v), CommandView::Nothing)
    } else {
        (v, CommandView::Nothing)
    }
}

pub open spec fn on_key_branches(v: AppView, k: Key) -> (AppView, CommandView) {
    if k.code == KeyCode::Down {
        (move_picker(v, 1), CommandView::Nothing)
    } else if k.code == KeyCode::Up {
        (move_picker(v, -1), CommandView::Nothing)
    } else if k.code == KeyCode::Enter {
        choose_branch(v)
    } else if is_char(k, 'd') {
        diff_highlighted_branch(v)
    } else if is_char(k, 'x') {
        confirm_branch_delete(v)
    } else if k.code == KeyCode::Esc || is_char(k, 'q') || is_char(k, 'b') {
        (close_picker(v), CommandView::Nothing)
    } else {
        (v, CommandView::Nothing)
    }
}

pub open spec fn on_key_stashes(v: AppView, k: Key) -> (AppView, CommandView) {
    if k.code == KeyCode::Down {
        (move_picker(v, 1), CommandView::Nothing)
    } else if k.code == KeyCode::Up {
        (move_picker(v, -1), CommandView::Nothing)
    } else if k.code == KeyCode::Enter {
        (close_picker(v), match (v.picker_repo, highlighted_stash(v)) {
            (Some(p), Some(c)) => CommandView::ShowStash(p, c.index as nat),
            _ => CommandView::Nothing,
        })
    } else if is_char(k, 'x') {
        confirm_stash_drop(v)
    } else if k.code == KeyCode::Esc || is_char(k, 'q') || is_char(k, 's') {
        (close_picker(v), CommandView::Nothing)
    } else {
        (v, CommandView::Nothing)
    }
}

pub open spec fn on_key_sort(v: AppView, k: Key) -> (AppView, CommandView) {
    if k.code == KeyCode::Down {
        (move_picker(v, 1), CommandView::Nothing)
    } else if k.code == KeyCode::Up {
        (move_picker(v, -1), CommandView::Nothing)
    } else if k.code == KeyCode::Enter {
        choose_sort(v)
    } else if k.code == KeyCode::Esc || is_char(k, 'q') || is_char(k, 'S') {
        (close_picker(v), CommandView::Nothing)
    } else {
        (v, CommandView::Nothing)
    }
}

/// The help and problems panes: scroll, toggle, or close.
pub open spec fn on_key_pane(v: AppView, k: Key) -> AppView {
    if k.code == KeyCode::Esc || is_char(k, 'q') {
        AppView { pane: Pane::List, pane_scroll: 0, ..v }
    } else if k.code == KeyCode::Down || is_char(k, 'J') {
        scroll_pane(v, 1)
    } else if k.code == KeyCode::Up || is_char(k, 'K') {
        scroll_pane(v, -1)
    } else if k.code == KeyCode::PageDown {
        scroll_pane(v, 10)
    } else if k.code == KeyCode::PageUp {
        scroll_pane(v, -10)
    } else if is_char(k, '!') {
        AppView { pane: if v.pane == Pane::Problems { Pane::List } else { Pane::Problems }, ..v }
    } else if is_char(k, '?') {
        AppView { pane: if v.pane == Pane::Help { Pane::List } else { Pane::Help }, ..v }
    } else {
        v
    }
}

pub open spec fn on_key_overlay(v: AppView, k: Key) -> (AppView, CommandView) {
    if v.pane == Pane::Confirm {
        on_key_confirm(v, k)
    } else if v.pane == Pane::Namespaces {
        on_key_namespaces(v, k)
    } else if v.pane == Pane::Branches {
        on_key_branches(v, k)
    } else if v.pane == Pane::Stashes {
        on_key_stashes(v, k)
    } else if v.pane == Pane::Sort {
        on_key_sort(v, k)
    } else {
        (on_key_pane(v, k), CommandView::Nothing)
    }
}

/// While typing a filter every character is text; Esc clears the filter,
/// Enter keeps it, Backspace edits it.
pub open spec fn on_key_filtering(v: AppView, k: Key) -> (AppView, CommandView) {
    match k.code {
        KeyCode::Esc => detail_command(clamp_selection(AppView { filtering: false, filter: seq![], anchor: None, ..v })),
        KeyCode::Enter => detail_command(AppView { filtering: false, ..v }),
        KeyCode::Backspace => detail_command(
            clamp_selection(
                AppView {
                    filter: if v.filter.len() > 0 { v.filter.drop_last() } else { v.filter },
                    selected: 0,
                    anchor: None,
                    ..v
                },
            ),
        ),
        KeyCode::Char(c) => detail_command(
            clamp_selection(AppView { filter: v.filter.push(c), selected: 0, anchor: None, ..v }),
        ),
        _ => (v, CommandView::Nothing),
    }
}

/// The selected repository, if it has an upstream to compare against;
/// otherwise the user is told why nothing happens.
pub open spec fn upstream_target(v: AppView) -> (AppView, Option<Seq<char>>) {
    match spec_selected(v) {
        Some(r) => if r.upstream is Some {
            (v, Some(r.path@))
        } else {
            (set_toast(v, "branch has no upstream"@), None)
        },
        None => (v, None),
    }
}

pub open spec fn path_command(p: Option<Seq<char>>, make: spec_fn(Seq<char>) -> CommandView) -> CommandView {
    match p {
        Some(x) => make(x),
        None => CommandView::Nothing,
    }
}

/// The list's own keys.
pub open spec fn on_key_list(v: AppView, k: Key) -> (AppView, CommandView) {
    match k.code {
        KeyCode::Esc => (v, CommandView::Quit),
        KeyCode::Down => move_by(v, 1),
        KeyCode::Up => move_by(v, -1),
        KeyCode::PageDown => move_by(v, 10),
        KeyCode::PageUp => move_by(v, -10),
        KeyCode::Tab => (AppView { detail_toggled: !v.detail_toggled, ..v }, CommandView::Nothing),
        KeyCode::Enter => (v, path_command(selected_path(v), |p: Seq<char>| CommandView::Shell(p))),
        KeyCode::Char(c) => on_char_list(v, c),
        _ => (v, CommandView::Nothing),
    }
}

pub open spec fn on_char_list(v: AppView, c: char) -> (AppView, CommandView) {
    if c == 'q' {
        (v, CommandView::Quit)
    } else if c == 'g' {
        detail_command(AppView { selected: 0, ..v })
    } else if c == 'G' {
        detail_command(AppView { selected: if spec_visible(v).len() > 0 { spec_visible(v).len() - 1 } else { 0 }, ..v })
    } else if c == 'd' {
        detail_command(clamp_selection(AppView { drifted_only: !v.drifted_only, anchor: None, ..v }))
    } else if c == '/' {
        (AppView { filtering: true, ..v }, CommandView::Nothing)
    } else if c == '!' {
        (AppView { pane: Pane::Problems, pane_scroll: 0, ..v }, CommandView::Nothing)
    } else if c == '?' {
        (AppView { pane: Pane::Help, pane_scroll: 0, ..v }, CommandView::Nothing)
    } else if c == 'r' {
        (v, CommandView::Rescan)
    } else if c == 'F' {
        (v, CommandView::FetchAll)
    } else if c == ' ' {
        (toggle_mark(v), CommandView::Nothing)
    } else if c == 'J' {
        (scroll_pane(v, 1), CommandView::Nothing)
    } else if c == 'K' {
        (scroll_pane(v, -1), CommandView::Nothing)
    } else if c == 'V' {
        (mark_range(v), CommandView::Nothing)
    } else if c == 'a' {
        (mark_all(v), CommandView::Nothing)
    } else if c == 'n' {
        (open_namespaces(v), CommandView::Nothing)
    } else if c == 's' {
        (v, CommandView::OpenStashes)
    } else if c == 'S' {
        (open_sort(v), CommandView::Nothing)
    } else if c == 'f' {
        act(v, ActKind::Fetch)
    } else if c == 'p' {
        let (v2, cmd) = act(v, ActKind::Pull);
        if v.marked.len() > 0 && !(cmd is Nothing) {
            (AppView { marked: seq![], anchor: None, ..v2 }, cmd)
        } else {
            (v2, cmd)
        }
    } else if c == 'X' {
        confirm(v, Destructive::Prune)
    } else if c == 'e' {
        (v, path_command(selected_path(v), |p: Seq<char>| CommandView::Editor(p)))
    } else if c == 'U' {
        let (v2, t) = upstream_target(v);
        (v2, path_command(t, |p: Seq<char>| CommandView::Diff(p)))
    } else if c == 'L' {
        let (v2, t) = upstream_target(v);
        (v2, path_command(t, |p: Seq<char>| CommandView::Log(p)))
    } else if c == 'M' {
        (v, path_command(selected_path(v), |p: Seq<char>| CommandView::AncestorDiff(p)))
    } else if c == 'b' {
        match spec_selected(v) {
            Some(r) => if spec_is_dirty(r) {
                (set_toast(v, "worktree has uncommitted changes"@), CommandView::Nothing)
            } else {
                (v, CommandView::OpenBranches)
            },
            None => (v, CommandView::Nothing),
        }
    } else {
        (v, CommandView::Nothing)
    }
}

/// Ctrl-C always quits. Any other held modifier but Shift makes it a
/// different key than the one bound, which does nothing. Otherwise the key
/// goes to the filter being typed, the open overlay, or the list.
pub open spec fn on_key(v: AppView, k: Key) -> (AppView, CommandView) {
    if k.modifiers.control && is_char(k, 'c') {
        (v, CommandView::Quit)
    } else if k.modifiers.control || k.modifiers.alt || k.modifiers.super_key || k.modifiers.meta {
        (v, CommandView::Nothing)
    } else if v.filtering {
        on_key_filtering(v, k)
    } else if v.pane != Pane::List {
        on_key_overlay(v, k)
    } else {
        on_key_list(v, k)
    }
}

// --- ingestion and jobs ------------------------------------------------

pub open spec fn find_job(jobs: Seq<JobView>, id: u64) -> Option<int>
    decreases jobs.len(),
{
    if jobs.len() == 0 {
        None
    } else if jobs[0].id == id {
        Some(0)
    } else {
        match find_job(jobs.drop_first(), id) {
            Some(i) => Some(i + 1),
            None => None,
        }
    }
}

pub open spec fn begin_job(v: AppView, label: Seq<char>, total: nat) -> (AppView, u64) {
    let id = (v.next_job_id + 1) as u64;
    (AppView { next_job_id: v.next_job_id + 1, jobs: v.jobs.push(JobView { id, label, done: 0, total }), ..v }, id)
}

pub open spec fn advance_job(v: AppView, id: u64) -> AppView {
    match find_job(v.jobs, id) {
        Some(i) => if 0 <= i < v.jobs.len() {
            AppView { jobs: v.jobs.update(i, JobView { done: v.jobs[i].done + 1, ..v.jobs[i] }), ..v }
        } else {
            v
        },
        None => v,
    }
}

pub open spec fn jobs_without(jobs: Seq<JobView>, id: u64) -> Seq<JobView>
    decreases jobs.len(),
{
    if jobs.len() == 0 {
        seq![]
    } else {
        jobs_without(jobs.drop_last(), id) + if jobs.last().id == id {
            seq![]
        } else {
            seq![jobs.last()]
        }
    }
}

pub open spec fn end_job(v: AppView, id: u64) -> AppView {
    AppView { jobs: jobs_without(v.jobs, id), ..v }
}

/// A status arriving for a repository already listed replaces it; a new one
/// is added. The list stays in the chosen order and the scan's job counts
/// one more row.
pub open spec fn push_status(v: AppView, s: RepoStatus) -> AppView {
    let rows = match find_path(v.rows, s.path@) {
        Some(i) => v.rows.update(i, s),
        None => v.rows.push(s),
    };
    let v2 = clamp_selection(AppView { rows: sorted_rows(rows, v.sort), ..v });
    match v.scan_job {
        Some(id) => advance_job(v2, id),
        None => v2,
    }
}

/// A rescan is a refresh, not a reset: the results go, but the marks stay,
/// and the selected repository is remembered so the cursor can return to it.
pub open spec fn begin_scan(v: AppView) -> AppView {
    let v1 = AppView { pending_selection: selected_path(v), ..v };
    let v2 = match v1.scan_job {
        Some(id) => end_job(AppView { scan_job: None, ..v1 }, id),
        None => v1,
    };
    let (v3, id) = begin_job(v2, "scanning"@, 0);
    let v4 = AppView { scan_job: Some(id), rows: seq![], problems: seq![], selected: 0, anchor: None, ..v3 };
    if v4.picker is Some {
        close_picker(v4)
    } else {
        v4
    }
}

pub open spec fn marks_present(marked: Seq<Seq<char>>, rows: Seq<RepoStatus>) -> Seq<Seq<char>>
    decreases marked.len(),
{
    if marked.len() == 0 {
        seq![]
    } else {
        marks_present(marked.drop_last(), rows) + if find_path(rows, marked.last()) is Some {
            seq![marked.last()]
        } else {
            seq![]
        }
    }
}

/// The scan's job ends, marks for repositories that are gone are dropped,
/// and the cursor returns to the repository it was on, if still shown.
pub open spec fn finish_scan(v: AppView) -> AppView {
    let v1 = match v.scan_job {
        Some(id) => end_job(AppView { scan_job: None, ..v }, id),
        None => v,
    };
    let v2 = AppView { marked: marks_present(v1.marked, v1.rows), pending_selection: None, ..v1 };
    match v.pending_selection {
        Some(p) => match find_path(spec_visible(v2), p) {
            Some(i) => AppView { selected: i, ..v2 },
            None => v2,
        },
        None => v2,
    }
}

} // verus!
