use gitdrift::config::Config;
use gitdrift::discover::{display_name, is_pruned, missing_root};
use gitdrift::scan::{Collected, Event, ScanOptions};
use gitdrift::status::{Change, Head, RepoStatus};

fn row(name: &str, ahead: u32) -> RepoStatus {
    let mut r = RepoStatus::blank(format!("/tmp/{name}"), name.to_string());
    r.head = Head::Branch("main".into());
    r.upstream = Some("origin/main".into());
    r.ahead = ahead;
    r
}

#[test]
fn collects_every_repository_under_the_root_sorted_by_drift() {
    let mut c = Collected::new();
    assert!(c.absorb(Event::Status(Box::new(row("clean", 0)))));
    assert!(c.absorb(Event::Status(Box::new(row("dirty", 2)))));
    assert!(!c.absorb(Event::Done));
    assert!(!c.absorb(Event::Status(Box::new(row("late", 1)))), "nothing counts after Done");
    let (rows, problems) = c.finish();
    assert_eq!(rows.len(), 2);
    assert!(problems.is_empty());
    assert_eq!(rows[0].display_name, "dirty", "the drifted repo must sort first");
}

#[test]
fn a_missing_roots_problem_is_collected_under_its_own_path() {
    let mut c = Collected::new();
    c.absorb(Event::Problem(missing_root("/definitely/not/here")));
    c.absorb(Event::Done);
    let (rows, problems) = c.finish();
    assert!(rows.is_empty());
    assert_eq!(problems.len(), 1);
    assert_eq!(problems[0].path, "/definitely/not/here");
    assert_eq!(problems[0].reason, "root does not exist");
}

#[test]
fn scanning_uses_the_configured_roots_and_at_least_one_thread() {
    let cfg = Config::with_root("/srv/code".to_string());
    let opts = ScanOptions::from_config(&cfg);
    assert_eq!(opts.roots, vec!["/srv/code".to_string()]);
    assert_eq!(opts.prune, cfg.prune);
    assert!(opts.threads >= 1);
}

#[test]
fn a_repository_is_named_by_its_path_under_the_root() {
    assert_eq!(display_name("code", Some("sre/alpha"), "/srv/code/sre/alpha"), "sre/alpha");
    assert_eq!(display_name("code", Some(""), "/srv/code"), "code", "a root that is itself a repository");
    assert_eq!(display_name("code", None, "/elsewhere/x"), "/elsewhere/x");
}

#[test]
fn pruned_directories_are_matched_by_whole_name() {
    let prune = vec!["node_modules".to_string(), "target".to_string()];
    assert!(is_pruned("target", &prune));
    assert!(!is_pruned("targets", &prune));
}

#[test]
fn counts_staged_unstaged_and_untracked_separately() {
    let mut s = row("x", 0);
    s.count_change(Change::Staged);
    s.count_change(Change::Unstaged);
    s.count_change(Change::Unstaged);
    s.count_change(Change::Untracked);
    s.count_change(Change::Conflicted);
    s.count_change(Change::Other);
    assert_eq!((s.staged, s.unstaged, s.untracked, s.conflicted), (1, 2, 1, 1));
    assert!(s.is_dirty());
}

#[test]
fn a_scan_runs_one_thread_per_cpu_and_never_none() {
    let cfg = Config::with_root("/srv/code".to_string());
    assert_eq!(ScanOptions::with_threads(&cfg, 8).threads, 8);
    assert_eq!(ScanOptions::with_threads(&cfg, 0).threads, 1);
    let opts = ScanOptions::with_threads(&cfg, 3);
    assert_eq!(opts.roots, cfg.roots);
    assert_eq!(opts.prune, cfg.prune);
}
