use gitdrift::actions::ActionError;
use gitdrift::detail::{BranchInfo, RepoDetail, StashEntry};
use gitdrift::scan::Event;
use gitdrift::status::{Head, RepoStatus};
use gitdrift::ui::driver::{failure_text, op_report, pulled_text, switched_text, Driver, Effect, Msg};
use gitdrift::ui::state::{App, Command, Key, KeyCode, Pane};

fn row(name: &str, ahead: u32) -> RepoStatus {
    let mut r = RepoStatus::blank(format!("/tmp/{name}"), name.to_string());
    r.head = Head::Branch("main".into());
    r.upstream = Some("origin/main".into());
    r.ahead = ahead;
    r.last_commit_time = Some(1);
    r
}

fn defaults() -> Vec<String> {
    vec!["main".to_string(), "master".to_string()]
}

/// A running loop with `rows` scanned in generation 0.
fn running(rows: Vec<RepoStatus>) -> (App, Driver) {
    let mut app = App::new();
    let (mut d, start) = Driver::start(&mut app, defaults(), false);
    assert!(matches!(start.as_slice(), [Effect::Scan(0)]));
    for r in rows {
        d.on_msg(&mut app, Msg::Scan(Event::Status(Box::new(r)), 0));
    }
    d.on_msg(&mut app, Msg::Scan(Event::Done, 0));
    (app, d)
}

fn detail_with(branches: Vec<BranchInfo>, stashes: Vec<StashEntry>) -> RepoDetail {
    let mut d = RepoDetail::empty();
    d.branches = branches;
    d.stashes = stashes;
    d
}

fn branch(name: &str, is_head: bool) -> BranchInfo {
    BranchInfo { name: name.into(), upstream: Some(format!("origin/{name}")), ahead: 0, behind: 0, is_head }
}

#[test]
fn a_finished_scan_asks_for_the_selected_rows_detail() {
    let mut app = App::new();
    let (mut d, _) = Driver::start(&mut app, defaults(), false);
    d.on_msg(&mut app, Msg::Scan(Event::Status(Box::new(row("a", 1))), 0));
    let effects = d.on_msg(&mut app, Msg::Scan(Event::Done, 0));
    assert!(matches!(effects.as_slice(), [Effect::LoadDetail(p, 0)] if p == "/tmp/a"));
    assert!(!app.is_scanning());
}

#[test]
fn results_of_a_superseded_scan_are_dropped() {
    let (mut app, mut d) = running(vec![row("a", 1)]);
    let effects = d.on_command(&mut app, Command::Rescan);
    assert!(matches!(effects.first(), Some(Effect::Scan(1))));
    d.on_msg(&mut app, Msg::Scan(Event::Status(Box::new(row("stale", 1))), 0));
    assert!(app.visible().is_empty(), "generation 0 is over");
    d.on_msg(&mut app, Msg::Scan(Event::Status(Box::new(row("fresh", 1))), 1));
    assert_eq!(app.visible().len(), 1);
}

#[test]
fn detail_is_only_kept_for_the_selected_row() {
    let (mut app, mut d) = running(vec![row("a", 2), row("b", 1)]);
    d.on_msg(&mut app, Msg::Detail("/tmp/b".into(), 0, Box::new(RepoDetail::empty())));
    assert!(d.detail_for(&app).is_none(), "b is not selected");
    d.on_msg(&mut app, Msg::Detail("/tmp/a".into(), 0, Box::new(RepoDetail::empty())));
    assert!(d.detail_for(&app).is_some());
    app.on_key(Key::plain(KeyCode::Down));
    assert!(d.detail_for(&app).is_none(), "it belongs to a, not to b");
}

#[test]
fn fetch_all_rescans_once_the_fetch_is_over() {
    let (mut app, mut d) = running(vec![row("a", 1), row("b", 1)]);
    let effects = d.on_command(&mut app, Command::FetchAll);
    let job = match effects.as_slice() {
        [Effect::Fetch(targets, job)] => {
            assert_eq!(targets.len(), 2);
            assert_eq!(targets[0].1, "a");
            *job
        },
        _ => panic!("expected one fetch"),
    };
    d.on_msg(&mut app, Msg::JobStep(job));
    assert_eq!(app.jobs()[0].done, 1);
    let effects = d.on_msg(&mut app, Msg::JobEnd(job));
    assert!(matches!(effects.first(), Some(Effect::Scan(1))), "the fetch owed a rescan");
    assert!(app.is_scanning());
}

#[test]
fn a_pull_refuses_up_front_and_says_why() {
    let mut dirty = row("dirty", 1);
    dirty.unstaged = 2;
    let (mut app, mut d) = running(vec![row("clean", 1), dirty]);
    let effects = d.on_command(&mut app, Command::Pull(vec!["/tmp/clean".into(), "/tmp/dirty".into()]));
    assert!(matches!(effects.as_slice(), [Effect::Pull(p, n)] if p == "/tmp/clean" && n == "clean"));
    assert_eq!(app.toast(), Some("dirty: worktree has uncommitted changes"));

    let effects = d.on_command(&mut app, Command::Pull(vec!["/tmp/clean".into()]));
    assert_eq!(effects.len(), 1);
    assert_eq!(app.toast(), Some("pulling 1 repositories…"));
}

#[test]
fn a_pull_names_a_diverged_repository_as_refused() {
    let mut diverged = row("split", 1);
    diverged.behind = 2;
    let (mut app, mut d) = running(vec![row("clean", 1), diverged]);
    let effects = d.on_command(&mut app, Command::Pull(vec!["/tmp/split".into()]));
    assert!(effects.is_empty());
    assert_eq!(app.toast(), Some("split: branch has diverged from its upstream; not a fast-forward"));
}

#[test]
fn diffs_against_the_default_branch_wait_for_the_detail() {
    let (mut app, mut d) = running(vec![row("a", 1)]);
    let effects = d.on_command(&mut app, Command::AncestorDiff("/tmp/a".into()));
    assert!(effects.is_empty());
    assert_eq!(app.toast(), Some("still loading…"));

    d.on_msg(&mut app, Msg::Detail("/tmp/a".into(), 0, Box::new(detail_with(vec![branch("master", true)], vec![]))));
    let effects = d.on_command(&mut app, Command::BranchDiff("/tmp/a".into(), "feat".into()));
    assert!(matches!(effects.as_slice(), [Effect::BranchDiff(p, base, b)] if p == "/tmp/a" && base == "master" && b == "feat"));

    d.on_msg(&mut app, Msg::Detail("/tmp/a".into(), 0, Box::new(detail_with(vec![branch("dev", true)], vec![]))));
    let effects = d.on_command(&mut app, Command::AncestorDiff("/tmp/a".into()));
    assert!(effects.is_empty());
    assert_eq!(app.toast(), Some("no default branch found locally (main/master)"));
}

#[test]
fn the_branch_and_stash_pickers_open_from_the_loaded_detail() {
    let (mut app, mut d) = running(vec![row("a", 1)]);
    assert!(d.on_command(&mut app, Command::OpenBranches).is_empty());
    assert_eq!(app.pane(), Pane::List, "nothing to pick from yet");

    let det = detail_with(
        vec![branch("main", true), branch("feat", false)],
        vec![StashEntry { index: 0, message: "wip".into() }],
    );
    d.on_msg(&mut app, Msg::Detail("/tmp/a".into(), 0, Box::new(det)));
    d.on_command(&mut app, Command::OpenBranches);
    assert_eq!(app.pane(), Pane::Branches);
    assert_eq!(app.branch_choices().len(), 2);
    assert!(app.branch_choices()[0].is_head);
    app.on_key(Key::plain(KeyCode::Esc));
    d.on_command(&mut app, Command::OpenStashes);
    assert_eq!(app.pane(), Pane::Stashes);
    assert_eq!(app.stash_choices()[0].message, "wip");
}

#[test]
fn background_results_refresh_the_row_and_say_so() {
    let (mut app, mut d) = running(vec![row("a", 1)]);
    let effects = d.on_msg(&mut app, Msg::Refresh(row("a", 0), "pulled a".into()));
    assert_eq!(app.visible()[0].ahead, 0);
    assert_eq!(app.toast(), Some("pulled a"));
    assert!(matches!(effects.as_slice(), [Effect::LoadDetail(p, 0)] if p == "/tmp/a"));
    d.on_msg(&mut app, Msg::ActionDone("fetched 1 repositories".into()));
    assert_eq!(app.toast(), Some("fetched 1 repositories"));
}

#[test]
fn commands_that_work_on_a_repository_carry_its_name() {
    let (mut app, mut d) = running(vec![row("idp/api", 1)]);
    let effects = d.on_command(&mut app, Command::Checkout("/tmp/idp/api".into(), "feat".into()));
    assert!(matches!(effects.as_slice(), [Effect::Checkout(p, b, n)] if p == "/tmp/idp/api" && b == "feat" && n == "idp/api"));
    let effects = d.on_command(&mut app, Command::DropStash("/tmp/gone".into(), 1));
    assert!(matches!(effects.as_slice(), [Effect::DropStash(p, 1, n)] if p == "/tmp/gone" && n == "/tmp/gone"));
    assert!(matches!(d.on_command(&mut app, Command::Quit).as_slice(), [Effect::Quit]));
    assert!(d.on_command(&mut app, Command::Nothing).is_empty());
}

#[test]
fn the_wheel_scrolls_what_it_is_over() {
    let (mut app, mut d) = running(vec![row("a", 2), row("b", 1)]);
    assert!(d.on_wheel(&mut app, true, true).is_empty());
    assert_eq!(app.pane_scroll(), 3);
    let effects = d.on_wheel(&mut app, false, true);
    assert!(matches!(effects.as_slice(), [Effect::LoadDetail(p, 0)] if p == "/tmp/b"));
    assert_eq!(app.selected_index(), 1);
}

#[test]
fn starting_drifted_only_hides_the_clean_rows() {
    let mut app = App::new();
    let (mut d, _) = Driver::start(&mut app, defaults(), true);
    d.on_msg(&mut app, Msg::Scan(Event::Status(Box::new(row("clean", 0))), 0));
    d.on_msg(&mut app, Msg::Scan(Event::Status(Box::new(row("drifted", 1))), 0));
    assert_eq!(app.visible().len(), 1);
    assert_eq!(app.default_branches(), &defaults());
}

#[test]
fn batch_reports_count_successes_and_failures() {
    assert_eq!(op_report("fetched", 3, 0), "fetched 3 repositories");
    assert_eq!(op_report("pruned", 3, 1), "pruned 2/3 (1 failed)");
    assert_eq!(failure_text("api", &ActionError::NoUpstream), "api: branch has no upstream");
    assert_eq!(switched_text("feat"), "switched to feat");
    assert_eq!(pulled_text("api"), "pulled api");
}
