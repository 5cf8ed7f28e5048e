//! The event loop's decisions. Messages from background work and commands
//! from the list come in; the state changes and the work to start next
//! goes out as effects. The loop performs the effects (threads, git, the
//! terminal) and feeds what they produce back in as messages.
use vstd::prelude::*;

use crate::actions::{can_pull, spec_error_text, strings_view, ActionError};
use crate::detail::{default_branch_of, spec_default_branch, BranchInfo, RepoDetail, StashEntry};
use crate::scan::Event;
use crate::status::{spec_is_dirty, RepoStatus};
use crate::text::{chars_of, decimal, owned, push_char, push_decimal, push_str, str_eq};
use crate::ui::view::derefs;
use crate::ui::model::{
    AppView, CommandView, advance_job, begin_job, move_by, scroll_pane, begin_scan, display_name_of, end_job, find_path, finish_scan, jobs_without,
    open_branch_picker, open_stash_picker, push_status, selected_path, set_toast, spec_selected, spec_visible,
};
use crate::ui::laws::list_ok;
use crate::ui::state::{
    lemma_find_path_first, lemma_find_path_none, App, BranchChoice, Command, Key, KeyCode, Modifiers, Pane, StashChoice,
    TOAST_MS, counters_ok, toast_kept_or_renewed,
};

verus! {

/// What background work reports back.
pub enum Msg {
    /// A scan's event, tagged with the scan's generation.
    Scan(Event, u64),
    /// A repository's detail, tagged with the generation it was asked in.
    Detail(String, u64, Box<RepoDetail>),
    /// An action finished; the text says how.
    ActionDone(String),
    /// An action re-inspected a repository: its fresh status and a toast.
    Refresh(RepoStatus, String),
    JobStep(u64),
    JobEnd(u64),
}

/// Work for the loop to start.
pub enum Effect {
    Quit,
    /// Scan the roots, tagging the events with this generation.
    Scan(u64),
    /// Read a repository's detail, tagging it with this generation.
    LoadDetail(String, u64),
    /// Fetch each (path, name), counting steps on the job.
    Fetch(Vec<(String, String)>, u64),
    /// Prune each (path, name), counting steps on the job.
    Prune(Vec<(String, String)>, u64),
    /// Pull one repository (path, name), already judged pullable.
    Pull(String, String),
    /// Suspend and open a shell in (path, name), then re-inspect it.
    Shell(String, String),
    /// Suspend and open the editor in (path, name), then re-inspect it.
    Editor(String, String),
    Diff(String),
    Log(String),
    /// Diff (path) against the base branch.
    AncestorDiff(String, String),
    /// Diff (path, base, branch).
    BranchDiff(String, String, String),
    ShowStash(String, usize),
    /// Switch (path, branch) in the background, named (name).
    Checkout(String, String, String),
    DropStash(String, usize, String),
    DeleteBranch(String, String, String),
}

/// An effect, with its text as character sequences.
pub enum EffectView {
    Quit,
    Scan(u64),
    LoadDetail(Seq<char>, u64),
    Fetch(Seq<(Seq<char>, Seq<char>)>, u64),
    Prune(Seq<(Seq<char>, Seq<char>)>, u64),
    Pull(Seq<char>, Seq<char>),
    Shell(Seq<char>, Seq<char>),
    Editor(Seq<char>, Seq<char>),
    Diff(Seq<char>),
    Log(Seq<char>),
    AncestorDiff(Seq<char>, Seq<char>),
    BranchDiff(Seq<char>, Seq<char>, Seq<char>),
    ShowStash(Seq<char>, nat),
    Checkout(Seq<char>, Seq<char>, Seq<char>),
    DropStash(Seq<char>, nat, Seq<char>),
    DeleteBranch(Seq<char>, Seq<char>, Seq<char>),
}

pub open spec fn targets_view(s: Seq<(String, String)>) -> Seq<(Seq<char>, Seq<char>)> {
    s.map_values(|t: (String, String)| (t.0@, t.1@))
}

impl View for Effect {
    type V = EffectView;

    open spec fn view(&self) -> EffectView {
        match self {
            Effect::Quit => EffectView::Quit,
            Effect::Scan(g) => EffectView::Scan(*g),
            Effect::LoadDetail(p, g) => EffectView::LoadDetail(p@, *g),
            Effect::Fetch(t, j) => EffectView::Fetch(targets_view(t@), *j),
            Effect::Prune(t, j) => EffectView::Prune(targets_view(t@), *j),
            Effect::Pull(p, n) => EffectView::Pull(p@, n@),
            Effect::Shell(p, n) => EffectView::Shell(p@, n@),
            Effect::Editor(p, n) => EffectView::Editor(p@, n@),
            Effect::Diff(p) => EffectView::Diff(p@),
            Effect::Log(p) => EffectView::Log(p@),
            Effect::AncestorDiff(p, b) => EffectView::AncestorDiff(p@, b@),
            Effect::BranchDiff(p, b, x) => EffectView::BranchDiff(p@, b@, x@),
            Effect::ShowStash(p, i) => EffectView::ShowStash(p@, *i as nat),
            Effect::Checkout(p, b, n) => EffectView::Checkout(p@, b@, n@),
            Effect::DropStash(p, i, n) => EffectView::DropStash(p@, *i as nat, n@),
            Effect::DeleteBranch(p, b, n) => EffectView::DeleteBranch(p@, b@, n@),
        }
    }
}

pub open spec fn effects_view(s: Seq<Effect>) -> Seq<EffectView> {
    s.map_values(|e: Effect| e@)
}

/// The loop's own state, as text.
#[verifier::ext_equal]
pub struct DriverView {
    /// Bumped by every rescan; results tagged with an older one are stale.
    pub generation: u64,
    /// The detail last loaded, and the repository it belongs to.
    pub detail: Option<(Seq<char>, RepoDetail)>,
    /// The job whose completion owes a full rescan, set by fetch-all.
    pub rescan_after: Option<u64>,
    /// The configured default branches, in order of preference.
    pub defaults: Seq<Seq<char>>,
}

/// The loop's own state.
pub struct Driver {
    generation: u64,
    detail: Option<(String, RepoDetail)>,
    rescan_after: Option<u64>,
    defaults: Vec<String>,
}

impl View for Driver {
    type V = DriverView;

    closed spec fn view(&self) -> DriverView {
        DriverView {
            generation: self.generation,
            detail: match self.detail {
                Some(d) => Some((d.0@, d.1)),
                None => None,
            },
            rescan_after: self.rescan_after,
            defaults: strings_view(self.defaults@),
        }
    }
}

// --- what each input does ----------------------------------------------

/// Whether the counters have room for one more step of everything: a new
/// job, a step of each job, and a rescan.
pub open spec fn ready(d: DriverView, v: AppView) -> bool {
    counters_ok(v) && d.generation < u64::MAX
}

/// Ask for the selected repository's detail, if a row is selected.
pub open spec fn request_detail(v: AppView, g: u64) -> Seq<EffectView> {
    match selected_path(v) {
        Some(p) => seq![EffectView::LoadDetail(p, g)],
        None => seq![],
    }
}

/// A rescan: the list refreshes, the old detail and every result of the
/// old generation are dropped.
pub open spec fn rescan(d: DriverView, v: AppView) -> (DriverView, AppView, Seq<EffectView>) {
    let v2 = begin_scan(v);
    let g = (d.generation + 1) as u64;
    (DriverView { generation: g, detail: None, ..d }, v2, seq![EffectView::Scan(g)] + request_detail(v2, g))
}

/// What background work's report does.
pub open spec fn on_msg(d: DriverView, v: AppView, msg: Msg) -> (DriverView, AppView, Seq<EffectView>) {
    match msg {
        Msg::Scan(ev, g) => if g != d.generation {
            (d, v, seq![])
        } else {
            match ev {
                Event::Status(s) => (d, push_status(v, *s), seq![]),
                Event::Problem(p) => (d, AppView { problems: v.problems.push(p), ..v }, seq![]),
                Event::Done => {
                    let v2 = finish_scan(v);
                    (d, v2, request_detail(v2, d.generation))
                },
            }
        },
        Msg::Detail(path, g, det) => if g == d.generation && selected_path(v) == Some(path@) {
            (DriverView { detail: Some((path@, *det)), ..d }, v, seq![])
        } else {
            (d, v, seq![])
        },
        Msg::ActionDone(text) => (d, set_toast(v, text@), seq![]),
        Msg::Refresh(s, text) => {
            let v2 = push_status(v, s);
            let v3 = if text@.len() > 0 {
                set_toast(v2, text@)
            } else {
                v2
            };
            (d, v3, if selected_path(v3) == Some(s.path@) {
                seq![EffectView::LoadDetail(s.path@, d.generation)]
            } else {
                seq![]
            })
        },
        Msg::JobStep(id) => (d, advance_job(v, id), seq![]),
        Msg::JobEnd(id) => {
            let v2 = end_job(v, id);
            if d.rescan_after == Some(id) {
                rescan(DriverView { rescan_after: None, ..d }, v2)
            } else {
                (d, v2, seq![])
            }
        },
    }
}

/// The name the list shows a path under; the path itself when no visible
/// row has it.
pub open spec fn visible_name(v: AppView, p: Seq<char>) -> Seq<char> {
    display_name_of(spec_visible(v), p)
}

/// Each path with the name the list shows it under: the worker re-inspects
/// the repository, and cannot recover that name itself.
pub open spec fn named(v: AppView, paths: Seq<Seq<char>>) -> Seq<(Seq<char>, Seq<char>)> {
    paths.map_values(|p: Seq<char>| (p, visible_name(v, p)))
}

pub open spec fn visible_paths(v: AppView) -> Seq<Seq<char>> {
    spec_visible(v).map_values(|r: RepoStatus| r.path@)
}

/// Why a repository may not be pulled, judged from its last status.
pub open spec fn refusal(s: RepoStatus) -> Option<Seq<char>> {
    if s.upstream is None {
        Some(spec_error_text(ActionError::NoUpstream))
    } else if spec_is_dirty(s) {
        Some(spec_error_text(ActionError::Dirty))
    } else if s.ahead > 0 && s.behind > 0 {
        Some(spec_error_text(ActionError::NotFastForward))
    } else {
        None
    }
}

/// The visible repositories among `paths` that may be pulled, in order.
pub open spec fn pull_ready(v: AppView, paths: Seq<Seq<char>>) -> Seq<RepoStatus>
    decreases paths.len(),
{
    if paths.len() == 0 {
        seq![]
    } else {
        pull_ready(v, paths.drop_last()) + match find_path(spec_visible(v), paths.last()) {
            Some(i) => if refusal(spec_visible(v)[i]) is None {
                seq![spec_visible(v)[i]]
            } else {
                seq![]
            },
            None => seq![],
        }
    }
}

/// Why each visible repository among `paths` that may not be pulled is
/// refused, by name, in order.
pub open spec fn pull_refused(v: AppView, paths: Seq<Seq<char>>) -> Seq<Seq<char>>
    decreases paths.len(),
{
    if paths.len() == 0 {
        seq![]
    } else {
        pull_refused(v, paths.drop_last()) + match find_path(spec_visible(v), paths.last()) {
            Some(i) => match refusal(spec_visible(v)[i]) {
                Some(why) => seq![spec_visible(v)[i].display_name@ + ": "@ + why],
                None => seq![],
            },
            None => seq![],
        }
    }
}

/// Pieces joined by `sep`.
pub open spec fn join_sep(s: Seq<Seq<char>>, sep: Seq<char>) -> Seq<char>
    decreases s.len(),
{
    if s.len() == 0 {
        seq![]
    } else if s.len() == 1 {
        s[0]
    } else {
        join_sep(s.drop_last(), sep) + sep + s.last()
    }
}

/// A pull says up front why anything is refused, so the user gets the
/// reason at once; otherwise how many pulls start.
pub open spec fn pull_toast(v: AppView, paths: Seq<Seq<char>>) -> Option<Seq<char>> {
    let refused = pull_refused(v, paths);
    let ready = pull_ready(v, paths);
    if refused.len() > 0 {
        Some(join_sep(refused, "  ·  "@))
    } else if ready.len() > 0 {
        Some("pulling "@ + decimal(ready.len()) + " repositories…"@)
    } else {
        None
    }
}

pub open spec fn pull_effects(ready: Seq<RepoStatus>) -> Seq<EffectView> {
    ready.map_values(|s: RepoStatus| EffectView::Pull(s.path@, s.display_name@))
}

pub open spec fn no_default_text(defaults: Seq<Seq<char>>) -> Seq<char> {
    "no default branch found locally ("@ + join_sep(defaults, "/"@) + ")"@
}

/// A diff against the default branch needs the repository's detail loaded
/// (to know which default branches exist there); `make` builds the diff
/// from the base branch.
pub open spec fn with_base(d: DriverView, v: AppView, p: Seq<char>, make: spec_fn(Seq<char>) -> EffectView) -> (
    AppView,
    Seq<EffectView>,
) {
    match d.detail {
        Some(loaded) => if loaded.0 == p {
            match spec_default_branch(d.defaults, loaded.1.branches@) {
                Some(base) => (v, seq![make(base)]),
                None => (set_toast(v, no_default_text(d.defaults)), seq![]),
            }
        } else {
            (set_toast(v, "still loading…"@), seq![])
        },
        None => (set_toast(v, "still loading…"@), seq![]),
    }
}

pub open spec fn branch_choices_of(bs: Seq<BranchInfo>) -> Seq<BranchChoice> {
    bs.map_values(
        |b: BranchInfo|
            BranchChoice {
                name: b.name,
                ahead: b.ahead,
                behind: b.behind,
                has_upstream: b.upstream is Some,
                is_head: b.is_head,
            },
    )
}

pub open spec fn stash_choices_of(ss: Seq<StashEntry>) -> Seq<StashChoice> {
    ss.map_values(|s: StashEntry| StashChoice { index: s.index, message: s.message })
}

/// The selected repository's loaded detail, when it is the one loaded.
pub open spec fn selected_detail(d: DriverView, v: AppView) -> Option<(Seq<char>, RepoDetail)> {
    match (spec_selected(v), d.detail) {
        (Some(sel), Some(loaded)) => if loaded.0 == sel.path@ {
            Some(loaded)
        } else {
            None
        },
        _ => None,
    }
}

/// What a command from the list does.
pub open spec fn on_command(d: DriverView, v: AppView, cmd: Command) -> (DriverView, AppView, Seq<EffectView>) {
    match cmd {
        Command::Nothing => (d, v, seq![]),
        Command::Quit => (d, v, seq![EffectView::Quit]),
        Command::LoadDetail(p) => (d, v, seq![EffectView::LoadDetail(p@, d.generation)]),
        Command::Rescan => rescan(d, v),
        Command::Fetch(paths) => {
            let t = named(v, strings_view(paths@));
            let (v2, job) = begin_job(v, "fetching"@, t.len());
            (d, v2, seq![EffectView::Fetch(t, job)])
        },
        Command::FetchAll => {
            let t = named(v, visible_paths(v));
            let (v2, job) = begin_job(v, "fetching"@, t.len());
            (DriverView { rescan_after: Some(job), ..d }, v2, seq![EffectView::Fetch(t, job)])
        },
        Command::Pull(paths) => {
            let ps = strings_view(paths@);
            let v2 = match pull_toast(v, ps) {
                Some(t) => set_toast(v, t),
                None => v,
            };
            (d, v2, pull_effects(pull_ready(v, ps)))
        },
        Command::Prune(paths) => {
            let t = named(v, strings_view(paths@));
            let (v2, job) = begin_job(v, "pruning"@, t.len());
            (d, v2, seq![EffectView::Prune(t, job)])
        },
        Command::Shell(p) => (d, v, seq![EffectView::Shell(p@, visible_name(v, p@))]),
        Command::Editor(p) => (d, v, seq![EffectView::Editor(p@, visible_name(v, p@))]),
        Command::Diff(p) => (d, v, seq![EffectView::Diff(p@)]),
        Command::Log(p) => (d, v, seq![EffectView::Log(p@)]),
        Command::AncestorDiff(p) => {
            let (v2, e) = with_base(d, v, p@, |base: Seq<char>| EffectView::AncestorDiff(p@, base));
            (d, v2, e)
        },
        Command::BranchDiff(p, b) => {
            let (v2, e) = with_base(d, v, p@, |base: Seq<char>| EffectView::BranchDiff(p@, base, b@));
            (d, v2, e)
        },
        Command::OpenBranches => match selected_detail(d, v) {
            Some(loaded) => (d, open_branch_picker(v, loaded.0, branch_choices_of(loaded.1.branches@)), seq![]),
            None => (d, set_toast(v, "still loading…"@), seq![]),
        },
        Command::Checkout(p, b) => (d, v, seq![EffectView::Checkout(p@, b@, visible_name(v, p@))]),
        Command::OpenStashes => match selected_detail(d, v) {
            Some(loaded) => (d, open_stash_picker(v, loaded.0, stash_choices_of(loaded.1.stashes@)), seq![]),
            None => (d, set_toast(v, "still loading…"@), seq![]),
        },
        Command::ShowStash(p, i) => (d, v, seq![EffectView::ShowStash(p@, i as nat)]),
        Command::DropStash(p, i) => (d, v, seq![EffectView::DropStash(p@, i as nat, visible_name(v, p@))]),
        Command::DeleteBranch(p, b) => (d, v, seq![EffectView::DeleteBranch(p@, b@, visible_name(v, p@))]),
    }
}

// --- carrying it out ---------------------------------------------------

/// Every job left after one ends was there before.
proof fn lemma_jobs_without_sub(jobs: Seq<crate::ui::model::JobView>, id: u64)
    ensures
        forall|i: int|
            0 <= i < jobs_without(jobs, id).len() ==> exists|k: int|
                0 <= k < jobs.len() && #[trigger] jobs_without(jobs, id)[i] == jobs[k],
    decreases jobs.len(),
{
    if jobs.len() > 0 {
        lemma_jobs_without_sub(jobs.drop_last(), id);
        let w = jobs_without(jobs, id);
        let w0 = jobs_without(jobs.drop_last(), id);
        assert forall|i: int| 0 <= i < w.len() implies exists|k: int| 0 <= k < jobs.len() && #[trigger] w[i] == jobs[k] by {
            if i < w0.len() {
                assert(w[i] == w0[i]);
                let k = choose|k: int| 0 <= k < jobs.drop_last().len() && w0[i] == jobs.drop_last()[k];
                assert(jobs.drop_last()[k] == jobs[k]);
            } else {
                assert(w[i] == jobs.last());
                assert(jobs.last() == jobs[jobs.len() - 1]);
            }
        }
    }
}

/// Ending a job leaves room in the counters.
proof fn lemma_end_job_keeps_room(v: AppView, id: u64)
    requires
        counters_ok(v),
    ensures
        counters_ok(end_job(v, id)),
{
    lemma_jobs_without_sub(v.jobs, id);
    let w = jobs_without(v.jobs, id);
    assert forall|i: int| 0 <= i < w.len() implies #[trigger] w[i].done < usize::MAX by {
        let k = choose|k: int| 0 <= k < v.jobs.len() && w[i] == v.jobs[k];
        assert(v.jobs[k].done < usize::MAX);
    }
}

/// The first row among `rows` whose path is `p`.
fn find_in(rows: &Vec<&RepoStatus>, p: &str) -> (r: Option<usize>)
    ensures
        match r {
            Some(i) => i < rows@.len() && find_path(derefs(rows@), p@) == Some(i as int),
            None => find_path(derefs(rows@), p@) is None,
        },
{
    let ghost rs = derefs(rows@);
    let mut i: usize = 0;
    while i < rows.len()
        invariant
            i <= rows@.len(),
            rs == derefs(rows@),
            forall|k: int| 0 <= k < i ==> #[trigger] rs[k].path@ != p@,
        decreases rows.len() - i,
    {
        assert(rs[i as int] == *rows@[i as int]);
        if str_eq(rows[i].path.as_str(), p) {
            proof {
                lemma_find_path_first(rs, p@, i as int);
            }
            return Some(i);
        }
        i += 1;
    }
    proof {
        lemma_find_path_none(rs, p@);
    }
    None
}

/// The rows the list shows, as references.
fn visible_rows(app: &App) -> (r: Vec<&RepoStatus>)
    ensures
        derefs(r@) == spec_visible(app@),
{
    let r = app.visible();
    assert(derefs(r@) =~= spec_visible(app@));
    r
}

fn visible_name_in(rows: &Vec<&RepoStatus>, p: &str) -> (r: String)
    ensures
        r@ == display_name_of(derefs(rows@), p@),
{
    match find_in(rows, p) {
        Some(i) => {
            assert(derefs(rows@)[i as int] == *rows@[i as int]);
            owned(rows[i].display_name.as_str())
        },
        None => owned(p),
    }
}

/// Each path with the name the list shows it under.
fn named_targets(app: &App, paths: &Vec<String>) -> (r: Vec<(String, String)>)
    ensures
        targets_view(r@) == named(app@, strings_view(paths@)),
{
    let rows = visible_rows(app);
    let mut out: Vec<(String, String)> = Vec::new();
    let mut i: usize = 0;
    while i < paths.len()
        invariant
            i <= paths@.len(),
            derefs(rows@) == spec_visible(app@),
            targets_view(out@) == named(app@, strings_view(paths@).take(i as int)),
        decreases paths.len() - i,
    {
        let name = visible_name_in(&rows, paths[i].as_str());
        let ghost before = targets_view(out@);
        out.push((owned(paths[i].as_str()), name));
        assert(targets_view(out@) =~= before.push((paths@[i as int]@, name@)));
        assert(named(app@, strings_view(paths@).take(i + 1)) =~= named(app@, strings_view(paths@).take(i as int)).push(
            (paths@[i as int]@, visible_name(app@, paths@[i as int]@)),
        ));
        i += 1;
    }
    assert(strings_view(paths@).take(i as int) =~= strings_view(paths@));
    out
}

/// The paths of the rows the list shows.
fn visible_path_list(app: &App) -> (r: Vec<String>)
    ensures
        strings_view(r@) == visible_paths(app@),
{
    let rows = visible_rows(app);
    let mut out: Vec<String> = Vec::new();
    let mut i: usize = 0;
    while i < rows.len()
        invariant
            i <= rows@.len(),
            derefs(rows@) == spec_visible(app@),
            strings_view(out@) == visible_paths(app@).take(i as int),
        decreases rows.len() - i,
    {
        assert(derefs(rows@)[i as int] == *rows@[i as int]);
        let ghost before = strings_view(out@);
        out.push(owned(rows[i].path.as_str()));
        assert(strings_view(out@) =~= before.push(rows@[i as int].path@));
        assert(visible_paths(app@).take(i + 1) =~= visible_paths(app@).take(i as int).push(rows@[i as int].path@));
        i += 1;
    }
    assert(visible_paths(app@).take(i as int) =~= visible_paths(app@));
    out
}

/// `pieces` joined by `sep`.
fn join_with(pieces: &Vec<String>, sep: &str) -> (r: String)
    ensures
        r@ == join_sep(strings_view(pieces@), sep@),
{
    let mut out = String::new();
    let mut i: usize = 0;
    while i < pieces.len()
        invariant
            i <= pieces@.len(),
            out@ == join_sep(strings_view(pieces@).take(i as int), sep@),
        decreases pieces.len() - i,
    {
        let ghost s = strings_view(pieces@).take(i + 1);
        assert(s.drop_last() =~= strings_view(pieces@).take(i as int));
        if i > 0 {
            push_str(&mut out, sep);
        }
        push_str(&mut out, pieces[i].as_str());
        assert(strings_view(pieces@).take(0) =~= seq![]);
        i += 1;
    }
    assert(strings_view(pieces@).take(i as int) =~= strings_view(pieces@));
    out
}

/// Which of `paths` may be pulled, as effects, and why the others may not.
fn pull_plan(app: &App, paths: &Vec<String>) -> (r: (Vec<Effect>, Vec<String>))
    ensures
        effects_view(r.0@) == pull_effects(pull_ready(app@, strings_view(paths@))),
        r.0@.len() == pull_ready(app@, strings_view(paths@)).len(),
        strings_view(r.1@) == pull_refused(app@, strings_view(paths@)),
{
    let rows = visible_rows(app);
    let ghost vis = spec_visible(app@);
    let ghost ps = strings_view(paths@);
    let mut ready: Vec<Effect> = Vec::new();
    let mut refused: Vec<String> = Vec::new();
    let mut i: usize = 0;
    while i < paths.len()
        invariant
            i <= paths@.len(),
            derefs(rows@) == vis,
            vis == spec_visible(app@),
            ps == strings_view(paths@),
            effects_view(ready@) == pull_effects(pull_ready(app@, ps.take(i as int))),
            ready@.len() == pull_ready(app@, ps.take(i as int)).len(),
            strings_view(refused@) == pull_refused(app@, ps.take(i as int)),
        decreases paths.len() - i,
    {
        let ghost t = ps.take(i + 1);
        assert(t.drop_last() =~= ps.take(i as int));
        assert(t.last() == paths@[i as int]@);
        match find_in(&rows, paths[i].as_str()) {
            Some(k) => {
                let row: &RepoStatus = rows[k];
                assert(vis[k as int] == *row);
                match can_pull(row) {
                    Ok(()) => {
                        let ghost before = effects_view(ready@);
                        ready.push(Effect::Pull(owned(row.path.as_str()), owned(row.display_name.as_str())));
                        assert(effects_view(ready@) =~= before.push(EffectView::Pull(row.path@, row.display_name@)));
                        assert(pull_effects(pull_ready(app@, t)) =~= pull_effects(pull_ready(app@, ps.take(i as int))).push(
                            EffectView::Pull(row.path@, row.display_name@),
                        ));
                    },
                    Err(e) => {
                        let mut msg = owned(row.display_name.as_str());
                        push_str(&mut msg, ": ");
                        let why = e.text();
                        push_str(&mut msg, why.as_str());
                        let ghost before = strings_view(refused@);
                        refused.push(msg);
                        assert(strings_view(refused@) =~= before.push(msg@));
                    },
                }
            },
            None => {},
        }
        i += 1;
    }
    assert(ps.take(i as int) =~= ps);
    (ready, refused)
}

impl Driver {
    /// A fresh loop: the first scan is generation 0.
    pub fn new(defaults: Vec<String>) -> (r: Driver)
        ensures
            r@.generation == 0,
            r@.detail is None,
            r@.rescan_after is None,
            r@.defaults == strings_view(defaults@),
    {
        Driver { generation: 0, detail: None, rescan_after: None, defaults }
    }

    /// Whether the counters have room for the next input.
    pub fn has_room(&self, app: &App) -> (r: bool)
        ensures
            r == ready(self@, app@),
    {
        self.generation < u64::MAX && app.has_counter_room()
    }

    /// The detail to show: only ever the selected repository's own.
    pub fn detail_for<'a>(&'a self, app: &App) -> (r: Option<&'a RepoDetail>)
        ensures
            match r {
                Some(x) => selected_detail(self@, app@) == Some((selected_path(app@)->0, *x)),
                None => selected_detail(self@, app@) is None,
            },
    {
        match (app.selected(), &self.detail) {
            (Some(sel), Some((path, d))) => if str_eq(sel.path.as_str(), path.as_str()) {
                Some(d)
            } else {
                None
            },
            _ => None,
        }
    }

    fn request_detail(&self, app: &App) -> (r: Vec<Effect>)
        ensures
            effects_view(r@) == request_detail(app@, self@.generation),
    {
        let mut r: Vec<Effect> = Vec::new();
        match app.selected() {
            Some(sel) => {
                r.push(Effect::LoadDetail(owned(sel.path.as_str()), self.generation));
                assert(effects_view(r@) =~= request_detail(app@, self@.generation));
            },
            None => {
                assert(effects_view(r@) =~= request_detail(app@, self@.generation));
            },
        }
        r
    }

    fn rescan(&mut self, app: &mut App) -> (r: Vec<Effect>)
        requires
            ready(old(self)@, old(app)@),
        ensures
            toast_kept_or_renewed(*old(app), *final(app)),
            list_ok(old(app)@) ==> list_ok(final(app)@),
            final(app)@.toast != old(app)@.toast ==> final(app).toast_ttl() == TOAST_MS,
            (final(self)@, final(app)@, effects_view(r@)) == rescan(old(self)@, old(app)@),
    {
        app.begin_scan();
        self.detail = None;
        self.generation = self.generation + 1;
        let mut r: Vec<Effect> = Vec::new();
        r.push(Effect::Scan(self.generation));
        let mut more = self.request_detail(app);
        let ghost first = effects_view(r@);
        r.append(&mut more);
        assert(effects_view(r@) =~= first + request_detail(app@, self@.generation));
        assert(self@ =~= rescan(old(self)@, old(app)@).0);
        r
    }
}

impl Driver {
    /// Takes in a report from background work. Results of a superseded scan
    /// generation, and detail for a row no longer selected, are dropped.
    pub fn on_msg(&mut self, app: &mut App, msg: Msg) -> (r: Vec<Effect>)
        requires
            ready(old(self)@, old(app)@),
        ensures
            toast_kept_or_renewed(*old(app), *final(app)),
            list_ok(old(app)@) ==> list_ok(final(app)@),
            final(app)@.toast != old(app)@.toast ==> final(app).toast_ttl() == TOAST_MS,
            (final(self)@, final(app)@, effects_view(r@)) == on_msg(old(self)@, old(app)@, msg),
    {
        match msg {
            Msg::Scan(ev, g) => {
                if g != self.generation {
                    return Vec::new();
                }
                match ev {
                    Event::Status(st) => {
                        app.push_status(*st);
                        Vec::new()
                    },
                    Event::Problem(p) => {
                        app.push_problem(p);
                        Vec::new()
                    },
                    Event::Done => {
                        app.finish_scan();
                        self.request_detail(app)
                    },
                }
            },
            Msg::Detail(path, g, d) => {
                let current = match app.selected() {
                    Some(sel) => str_eq(sel.path.as_str(), path.as_str()),
                    None => false,
                };
                if g == self.generation && current {
                    self.detail = Some((path, *d));
                }
                Vec::new()
            },
            Msg::ActionDone(text) => {
                app.set_toast(text, TOAST_MS);
                Vec::new()
            },
            Msg::Refresh(st, text) => {
                let path = owned(st.path.as_str());
                app.push_status(st);
                if chars_of(text.as_str()).len() > 0 {
                    app.set_toast(text, TOAST_MS);
                }
                let mut r: Vec<Effect> = Vec::new();
                let current = match app.selected() {
                    Some(sel) => str_eq(sel.path.as_str(), path.as_str()),
                    None => false,
                };
                if current {
                    r.push(Effect::LoadDetail(path, self.generation));
                }
                assert(effects_view(r@) =~= on_msg(old(self)@, old(app)@, msg).2);
                r
            },
            Msg::JobStep(id) => {
                app.advance_job(id);
                Vec::new()
            },
            Msg::JobEnd(id) => {
                app.end_job(id);
                proof {
                    lemma_end_job_keeps_room(old(app)@, id);
                }
                if self.rescan_after == Some(id) {
                    self.rescan_after = None;
                    self.rescan(app)
                } else {
                    Vec::new()
                }
            },
        }
    }

    /// A diff against the default branch of `path`, built by `make`.
    fn with_base(&self, app: &mut App, path: &String, kind: Option<&String>) -> (r: Vec<Effect>)
        ensures
            toast_kept_or_renewed(*old(app), *final(app)),
            list_ok(old(app)@) ==> list_ok(final(app)@),
            final(app)@.toast != old(app)@.toast ==> final(app).toast_ttl() == TOAST_MS,
            (final(app)@, effects_view(r@)) == with_base(
                self@,
                old(app)@,
                path@,
                match kind {
                    None => |base: Seq<char>| EffectView::AncestorDiff(path@, base),
                    Some(b) => |base: Seq<char>| EffectView::BranchDiff(path@, base, b@),
                },
            ),
    {
        let loaded = match &self.detail {
            Some((p, d)) => if str_eq(p.as_str(), path.as_str()) {
                Some(d)
            } else {
                None
            },
            None => None,
        };
        match loaded {
            Some(d) => match default_branch_of(&self.defaults, &d.branches) {
                Some(base) => {
                    let mut r: Vec<Effect> = Vec::new();
                    match kind {
                        None => r.push(Effect::AncestorDiff(owned(path.as_str()), base)),
                        Some(b) => r.push(Effect::BranchDiff(owned(path.as_str()), base, owned(b.as_str()))),
                    }
                    assert(effects_view(r@) =~= with_base(
                        self@,
                        old(app)@,
                        path@,
                        match kind {
                            None => |base: Seq<char>| EffectView::AncestorDiff(path@, base),
                            Some(b) => |base: Seq<char>| EffectView::BranchDiff(path@, base, b@),
                        },
                    ).1);
                    r
                },
                None => {
                    let mut text = owned("no default branch found locally (");
                    let joined = join_with(&self.defaults, "/");
                    push_str(&mut text, joined.as_str());
                    push_str(&mut text, ")");
                    app.set_toast(text, TOAST_MS);
                    Vec::new()
                },
            },
            None => {
                app.set_toast(owned("still loading…"), TOAST_MS);
                Vec::new()
            },
        }
    }
}

/// The branch picker's rows for the loaded branches.
fn branch_rows(bs: &Vec<BranchInfo>) -> (r: Vec<BranchChoice>)
    ensures
        r@ == branch_choices_of(bs@),
{
    let mut out: Vec<BranchChoice> = Vec::new();
    let mut i: usize = 0;
    while i < bs.len()
        invariant
            i <= bs@.len(),
            out@ == branch_choices_of(bs@.take(i as int)),
        decreases bs.len() - i,
    {
        let b = &bs[i];
        out.push(
            BranchChoice {
                name: b.name.clone(),
                ahead: b.ahead,
                behind: b.behind,
                has_upstream: b.upstream.is_some(),
                is_head: b.is_head,
            },
        );
        assert(bs@.take(i + 1).drop_last() =~= bs@.take(i as int));
        assert(branch_choices_of(bs@.take(i + 1)) =~= branch_choices_of(bs@.take(i as int)).push(
            branch_choices_of(bs@.take(i + 1)).last(),
        ));
        i += 1;
    }
    assert(bs@.take(i as int) =~= bs@);
    out
}

/// The stash picker's rows for the loaded stashes.
fn stash_rows(ss: &Vec<StashEntry>) -> (r: Vec<StashChoice>)
    ensures
        r@ == stash_choices_of(ss@),
{
    let mut out: Vec<StashChoice> = Vec::new();
    let mut i: usize = 0;
    while i < ss.len()
        invariant
            i <= ss@.len(),
            out@ == stash_choices_of(ss@.take(i as int)),
        decreases ss.len() - i,
    {
        out.push(StashChoice { index: ss[i].index, message: ss[i].message.clone() });
        assert(stash_choices_of(ss@.take(i + 1)) =~= stash_choices_of(ss@.take(i as int)).push(
            stash_choices_of(ss@.take(i + 1)).last(),
        ));
        i += 1;
    }
    assert(ss@.take(i as int) =~= ss@);
    out
}

/// One effect.
fn just(e: Effect) -> (r: Vec<Effect>)
    ensures
        effects_view(r@) == seq![e@],
{
    let mut r: Vec<Effect> = Vec::new();
    r.push(e);
    assert(effects_view(r@) =~= seq![e@]);
    r
}

impl Driver {
    /// Whether the selected repository's detail is the one loaded.
    fn selected_loaded(&self, app: &App) -> (r: bool)
        ensures
            r == (selected_detail(self@, app@) is Some),
    {
        match (app.selected(), &self.detail) {
            (Some(sel), Some((path, _))) => str_eq(sel.path.as_str(), path.as_str()),
            _ => false,
        }
    }

    /// Carries out a command from the list.
    pub fn on_command(&mut self, app: &mut App, cmd: Command) -> (r: Vec<Effect>)
        requires
            ready(old(self)@, old(app)@),
        ensures
            toast_kept_or_renewed(*old(app), *final(app)),
            list_ok(old(app)@) ==> list_ok(final(app)@),
            final(app)@.toast != old(app)@.toast ==> final(app).toast_ttl() == TOAST_MS,
            (final(self)@, final(app)@, effects_view(r@)) == on_command(old(self)@, old(app)@, cmd),
    {
        match cmd {
            Command::Nothing => Vec::new(),
            Command::Quit => just(Effect::Quit),
            Command::LoadDetail(p) => just(Effect::LoadDetail(p, self.generation)),
            Command::Rescan => self.rescan(app),
            Command::Fetch(paths) => {
                let t = named_targets(app, &paths);
                let job = app.begin_job(owned("fetching"), t.len());
                just(Effect::Fetch(t, job))
            },
            Command::FetchAll => {
                let paths = visible_path_list(app);
                let t = named_targets(app, &paths);
                let job = app.begin_job(owned("fetching"), t.len());
                self.rescan_after = Some(job);
                just(Effect::Fetch(t, job))
            },
            Command::Pull(paths) => {
                let (ready, refused) = pull_plan(app, &paths);
                if refused.len() > 0 {
                    let text = join_with(&refused, "  ·  ");
                    app.set_toast(text, TOAST_MS);
                } else if ready.len() > 0 {
                    let mut text = owned("pulling ");
                    push_decimal(&mut text, ready.len() as u64);
                    push_str(&mut text, " repositories…");
                    app.set_toast(text, TOAST_MS);
                }
                ready
            },
            Command::Prune(paths) => {
                let t = named_targets(app, &paths);
                let job = app.begin_job(owned("pruning"), t.len());
                just(Effect::Prune(t, job))
            },
            Command::Shell(p) => {
                let rows = visible_rows(app);
                let name = visible_name_in(&rows, p.as_str());
                just(Effect::Shell(p, name))
            },
            Command::Editor(p) => {
                let rows = visible_rows(app);
                let name = visible_name_in(&rows, p.as_str());
                just(Effect::Editor(p, name))
            },
            Command::Diff(p) => just(Effect::Diff(p)),
            Command::Log(p) => just(Effect::Log(p)),
            Command::AncestorDiff(p) => self.with_base(app, &p, None),
            Command::BranchDiff(p, b) => self.with_base(app, &p, Some(&b)),
            Command::OpenBranches => {
                if self.selected_loaded(app) {
                    match &self.detail {
                        Some((path, d)) => {
                            let rows = branch_rows(&d.branches);
                            app.open_branch_picker(path.clone(), rows);
                        },
                        None => {},
                    }
                } else {
                    app.set_toast(owned("still loading…"), TOAST_MS);
                }
                Vec::new()
            },
            Command::Checkout(p, b) => {
                let rows = visible_rows(app);
                let name = visible_name_in(&rows, p.as_str());
                just(Effect::Checkout(p, b, name))
            },
            Command::OpenStashes => {
                if self.selected_loaded(app) {
                    match &self.detail {
                        Some((path, d)) => {
                            let rows = stash_rows(&d.stashes);
                            app.open_stash_picker(path.clone(), rows);
                        },
                        None => {},
                    }
                } else {
                    app.set_toast(owned("still loading…"), TOAST_MS);
                }
                Vec::new()
            },
            Command::ShowStash(p, i) => just(Effect::ShowStash(p, i)),
            Command::DropStash(p, i) => {
                let rows = visible_rows(app);
                let name = visible_name_in(&rows, p.as_str());
                just(Effect::DropStash(p, i, name))
            },
            Command::DeleteBranch(p, b) => {
                let rows = visible_rows(app);
                let name = visible_name_in(&rows, p.as_str());
                just(Effect::DeleteBranch(p, b, name))
            },
        }
    }
}

/// The wheel, one notch down or up: over the detail pane it scrolls the
/// pane three lines; elsewhere it scrolls an overlay that has taken over
/// the screen, or moves the list's cursor (asking for the new row's
/// detail).
pub open spec fn on_wheel(d: DriverView, v: AppView, over_detail: bool, down: bool) -> (DriverView, AppView, Seq<
    EffectView,
>) {
    let delta: int = if down {
        1
    } else {
        -1
    };
    if over_detail {
        (d, scroll_pane(v, 3 * delta), seq![])
    } else if v.pane == Pane::Problems || v.pane == Pane::Help {
        (d, scroll_pane(v, delta), seq![])
    } else {
        let (v2, c) = move_by(v, delta);
        (d, v2, match c {
            CommandView::LoadDetail(p) => seq![EffectView::LoadDetail(p, d.generation)],
            _ => seq![],
        })
    }
}

/// The list as the loop starts it: the configured default branches, and
/// the drifted-only view when asked for on the command line.
pub open spec fn started(v: AppView, defaults: Seq<String>, drifted_only: bool) -> AppView {
    let v1 = AppView { default_branches: defaults, ..v };
    if drifted_only {
        crate::ui::model::on_key(v1, Key { code: KeyCode::Char('d'), modifiers: Modifiers::spec_none() }).0
    } else {
        v1
    }
}

impl Driver {
    /// Starts the loop on `app`: the first scan is asked for.
    pub fn start(app: &mut App, defaults: Vec<String>, drifted_only: bool) -> (r: (Driver, Vec<Effect>))
        ensures
            toast_kept_or_renewed(*old(app), *final(app)),
            list_ok(old(app)@) ==> list_ok(final(app)@),
            final(app)@.toast != old(app)@.toast ==> final(app).toast_ttl() == TOAST_MS,
            final(app)@ == started(old(app)@, defaults@, drifted_only),
            r.0@.generation == 0,
            r.0@.detail is None,
            r.0@.rescan_after is None,
            r.0@.defaults == strings_view(defaults@),
            effects_view(r.1@) == seq![EffectView::Scan(0)],
    {
        let mut copy: Vec<String> = Vec::new();
        let mut i: usize = 0;
        while i < defaults.len()
            invariant
                i <= defaults@.len(),
                copy@ == defaults@.take(i as int),
            decreases defaults.len() - i,
        {
            copy.push(defaults[i].clone());
            assert(copy@ =~= defaults@.take(i + 1));
            i += 1;
        }
        assert(copy@ =~= defaults@);
        app.set_default_branches(copy);
        if drifted_only {
            let _ = app.on_key(Key::plain(KeyCode::Char('d')));
        }
        (Driver::new(defaults), just(Effect::Scan(0)))
    }

    pub fn on_wheel(&mut self, app: &mut App, over_detail: bool, down: bool) -> (r: Vec<Effect>)
        ensures
            toast_kept_or_renewed(*old(app), *final(app)),
            list_ok(old(app)@) ==> list_ok(final(app)@),
            final(app)@.toast != old(app)@.toast ==> final(app).toast_ttl() == TOAST_MS,
            (final(self)@, final(app)@, effects_view(r@)) == on_wheel(old(self)@, old(app)@, over_detail, down),
    {
        if over_detail {
            app.scroll_pane_by(if down {
                3
            } else {
                -3
            });
            return Vec::new();
        }
        let cmd = app.scroll_list_by(if down {
            1
        } else {
            -1
        });
        match cmd {
            Command::LoadDetail(p) => just(Effect::LoadDetail(p, self.generation)),
            _ => Vec::new(),
        }
    }
}

/// How a batch of fetches or prunes ends: how many succeeded, and how many
/// failed when any did.
pub open spec fn spec_op_report(past_tense: Seq<char>, total: nat, failed: nat) -> Seq<char> {
    if failed == 0 {
        past_tense + seq![' '] + decimal(total) + " repositories"@
    } else {
        past_tense + seq![' '] + decimal((total - failed) as nat) + seq!['/'] + decimal(total) + " ("@ + decimal(failed)
            + " failed)"@
    }
}

pub fn op_report(past_tense: &str, total: usize, failed: usize) -> (r: String)
    requires
        failed <= total,
    ensures
        r@ == spec_op_report(past_tense@, total as nat, failed as nat),
{
    let mut s = owned(past_tense);
    push_char(&mut s, ' ');
    if failed == 0 {
        push_decimal(&mut s, total as u64);
        push_str(&mut s, " repositories");
    } else {
        push_decimal(&mut s, (total - failed) as u64);
        push_char(&mut s, '/');
        push_decimal(&mut s, total as u64);
        push_str(&mut s, " (");
        push_decimal(&mut s, failed as u64);
        push_str(&mut s, " failed)");
    }
    s
}

/// What the user is told when an action on a repository fails.
pub fn failure_text(name: &str, e: &ActionError) -> (r: String)
    ensures
        r@ == name@ + ": "@ + spec_error_text(*e),
{
    let mut s = owned(name);
    push_str(&mut s, ": ");
    let why = e.text();
    push_str(&mut s, why.as_str());
    s
}

/// What the user is told when a branch switch succeeds.
pub fn switched_text(branch: &str) -> (r: String)
    ensures
        r@ == "switched to "@ + branch@,
{
    let mut s = owned("switched to ");
    push_str(&mut s, branch);
    s
}

/// What the user is told when a pull succeeds.
pub fn pulled_text(name: &str) -> (r: String)
    ensures
        r@ == "pulled "@ + name@,
{
    let mut s = owned("pulled ");
    push_str(&mut s, name);
    s
}

} // verus!
