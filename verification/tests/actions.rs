use gitdrift::actions::{
    can_pull, delete_branches_args, editor_invocation, git_outcome, gone_branches, pager, pager_setting,
    prune_report, ref_range, resolve_editor, stash_ref, ActionError,
};
use gitdrift::status::{Head, RepoStatus};

#[test]
fn gone_branches_picks_only_the_ones_whose_upstream_disappeared() {
    let listing = "\
* main       1a2b3c4 [origin/main] latest
  feat/old   5d6e7f8 [origin/feat/old: gone] older work
  feat/live  9a8b7c6 [origin/feat/live: ahead 2] in progress
  no-remote  1122334 local only
";
    assert_eq!(gone_branches(listing), vec!["feat/old".to_string()]);
}

#[test]
fn the_current_branch_is_never_offered_for_deletion() {
    let listing = "* main 1a2b3c4 [origin/main: gone] orphaned\n";
    assert!(gone_branches(listing).is_empty());
}

#[test]
fn a_commit_message_cannot_nominate_a_branch_for_deletion() {
    let listing = "  keep 1a2b3c4 [origin/keep] chore: drop the [thing: gone] marker\n";
    assert!(gone_branches(listing).is_empty(), "only the upstream field counts");
}

#[test]
fn a_branch_with_no_upstream_at_all_is_left_alone() {
    let listing = "  local 1a2b3c4 some commit message\n";
    assert!(gone_branches(listing).is_empty());
}

#[test]
fn a_branch_checked_out_in_another_worktree_is_skipped() {
    let listing = "+ wip 1a2b3c4 [origin/wip: gone] elsewhere\n";
    assert!(gone_branches(listing).is_empty());
}

#[test]
fn editor_resolution_prefers_the_configured_editor() {
    assert_eq!(resolve_editor(Some("nvim"), Some("code".into()), Some("emacs".into())), "nvim");
}

#[test]
fn editor_resolution_falls_back_to_vi_when_nothing_is_set() {
    assert!(!resolve_editor(None, None, None).is_empty());
    assert_eq!(resolve_editor(None, None, None), "vi");
    assert_eq!(resolve_editor(None, Some("".into()), Some("nano".into())), "nano");
    assert_eq!(resolve_editor(None, Some("hx".into()), Some("nano".into())), "hx");
}

#[test]
fn the_pager_falls_back_when_the_environment_offers_none() {
    assert_eq!(pager(None, Some("   ".into())), "less -R", "an empty PAGER must not be taken at its word");
    assert_eq!(pager(None, Some("bat".into())), "bat");
    assert_eq!(pager(Some("delta".into()), Some("bat".into())), "delta", "GIT_PAGER outranks PAGER");
}

fn status() -> RepoStatus {
    let mut r = RepoStatus::blank("/tmp/r".into(), "r".into());
    r.head = Head::Branch("main".into());
    r.upstream = Some("origin/main".into());
    r
}

#[test]
fn can_pull_refuses_without_an_upstream() {
    let mut s = status();
    s.upstream = None;
    assert!(matches!(can_pull(&s), Err(ActionError::NoUpstream)));
}

#[test]
fn can_pull_refuses_a_dirty_worktree() {
    let mut s = status();
    s.unstaged = 1;
    assert!(matches!(can_pull(&s), Err(ActionError::Dirty)));
}

#[test]
fn untracked_files_alone_do_not_block_a_pull() {
    let mut s = status();
    s.untracked = 3;
    assert!(can_pull(&s).is_ok());
}

#[test]
fn can_pull_is_allowed_when_already_up_to_date() {
    assert!(can_pull(&status()).is_ok());
}

#[test]
fn can_pull_allows_a_clean_behind_repository() {
    let mut s = status();
    s.behind = 2;
    assert!(can_pull(&s).is_ok());
}

#[test]
fn can_pull_refuses_when_not_fast_forwardable() {
    let mut s = status();
    s.ahead = 1;
    s.behind = 1;
    assert_eq!((s.ahead, s.behind), (1, 1), "the status must actually diverge");
    assert!(matches!(can_pull(&s), Err(ActionError::NotFastForward)));
}

#[test]
fn a_branch_only_ahead_may_still_be_pulled() {
    let mut s = status();
    s.ahead = 3;
    assert!(can_pull(&s).is_ok());
}

#[test]
fn errors_read_as_the_user_sees_them() {
    assert_eq!(
        ActionError::NotFastForward.text(),
        "branch has diverged from its upstream; not a fast-forward"
    );
    assert_eq!(ActionError::Dirty.text(), "worktree has uncommitted changes");
    assert_eq!(ActionError::NoUpstream.text(), "branch has no upstream");
    assert_eq!(ActionError::Git("fatal: nope".into()).text(), "git: fatal: nope");
    assert_eq!(ActionError::Spawn("could not run git".into()).text(), "could not run git");
}

#[test]
fn a_prune_deletes_the_gone_branches_by_name_and_says_how_many() {
    let names = vec!["feat/old".to_string(), "fix/gone".to_string()];
    assert_eq!(delete_branches_args(&names), vec!["branch", "-D", "feat/old", "fix/gone"]);
    assert_eq!(prune_report(2), "deleted 2 branches");
    assert_eq!(prune_report(0), "no branches to prune");
}

#[test]
fn stash_and_range_references_are_spelled_as_git_wants() {
    assert_eq!(stash_ref(0), "stash@{0}");
    assert_eq!(stash_ref(12), "stash@{12}");
    assert_eq!(ref_range("main", "HEAD"), "main...HEAD");
    assert_eq!(pager_setting("less -R"), "core.pager=less -R");
}

#[test]
fn an_editor_with_flags_is_split_into_program_and_arguments() {
    let (program, args) = editor_invocation("code -w");
    assert_eq!(program, "code");
    assert_eq!(args, vec!["-w", "."]);
    let (program, args) = editor_invocation("   ");
    assert_eq!(program, "vi");
    assert_eq!(args, vec!["."]);
}

#[test]
fn a_git_run_reads_as_its_trimmed_output_or_its_error() {
    assert_eq!(git_outcome(true, "done\n", "  warning\n").unwrap(), "done\n  warning");
    match git_outcome(false, "ignored", "  fatal: bad\n") {
        Err(ActionError::Git(m)) => assert_eq!(m, "fatal: bad"),
        _ => panic!("a failed run is a git error"),
    }
}
