use gitdrift::drift::{is_drifted, score, sort, sort_by, Sort};
use gitdrift::status::{Head, RepoStatus};

fn row(name: &str) -> RepoStatus {
    let mut r = RepoStatus::blank(format!("/tmp/{name}"), name.to_string());
    r.head = Head::Branch("main".into());
    r.upstream = Some("origin/main".into());
    r.last_commit_time = Some(1000);
    r
}

#[test]
fn a_clean_in_sync_repo_scores_zero_and_is_not_drifted() {
    let r = row("clean");
    assert_eq!(score(&r), 0);
    assert!(!is_drifted(&r));
}

#[test]
fn each_condition_contributes_its_documented_weight() {
    let mut r = row("x");
    r.conflicted = 3;
    assert_eq!(score(&r), 1000, "conflicts are flat-rated, not per-file");

    let mut r = row("x");
    r.ahead = 5;
    assert_eq!(score(&r), 100);

    let mut r = row("x");
    r.behind = 5;
    assert_eq!(score(&r), 25);

    let mut r = row("x");
    r.unstaged = 1;
    assert_eq!(score(&r), 50);

    let mut r = row("x");
    r.untracked = 1;
    assert_eq!(score(&r), 10);

    let mut r = row("x");
    r.stash_count = 1;
    assert_eq!(score(&r), 5);

    let mut r = row("x");
    r.head = Head::Detached("abc1234".into());
    assert_eq!(score(&r), 40);

    let mut r = row("x");
    r.upstream = None;
    assert_eq!(score(&r), 20);

    let mut r = row("x");
    r.error = Some("boom".into());
    assert_eq!(score(&r), 2000);
}

#[test]
fn an_unborn_repo_is_not_penalised_for_having_no_upstream() {
    let mut r = row("fresh");
    r.head = Head::Unborn;
    r.upstream = None;
    assert_eq!(score(&r), 0);
}

#[test]
fn diverged_adds_its_own_weight_on_top_of_ahead_and_behind() {
    let mut r = row("x");
    r.ahead = 1;
    r.behind = 1;
    assert_eq!(score(&r), 500 + 100 + 25);
}

#[test]
fn weights_are_additive() {
    let mut r = row("x");
    r.ahead = 1;
    r.unstaged = 1;
    r.untracked = 1;
    assert_eq!(score(&r), 100 + 50 + 10);
}

#[test]
fn sort_puts_drifted_first_then_breaks_ties_by_recency() {
    let mut clean_old = row("clean_old");
    clean_old.last_commit_time = Some(10);
    let mut clean_new = row("clean_new");
    clean_new.last_commit_time = Some(90);
    let mut dirty_old = row("dirty_old");
    dirty_old.unstaged = 1;
    dirty_old.last_commit_time = Some(10);
    let mut dirty_new = row("dirty_new");
    dirty_new.unstaged = 1;
    dirty_new.last_commit_time = Some(90);
    let mut ahead = row("ahead");
    ahead.ahead = 1;

    let mut rows = vec![clean_old, dirty_old, clean_new, ahead, dirty_new];
    sort(&mut rows);
    let names: Vec<&str> = rows.iter().map(|r| r.display_name.as_str()).collect();
    assert_eq!(names, vec!["ahead", "dirty_new", "dirty_old", "clean_new", "clean_old"]);
}

#[test]
fn rows_without_a_commit_time_sort_last_within_their_tier() {
    let mut with = row("with");
    with.last_commit_time = Some(5);
    let mut without = row("without");
    without.last_commit_time = None;
    let mut rows = vec![without, with];
    sort(&mut rows);
    assert_eq!(rows[0].display_name, "with");
}

#[test]
fn sorting_by_name_orders_alphabetically() {
    let mut rows = vec![row("b"), row("c"), row("a")];
    sort_by(&mut rows, Sort::Name);
    let names: Vec<&str> = rows.iter().map(|r| r.display_name.as_str()).collect();
    assert_eq!(names, vec!["a", "b", "c"]);
}

#[test]
fn the_sort_orders_cycle_back_after_four_steps() {
    let mut s = Sort::Drift;
    let mut seen = Vec::new();
    for _ in 0..4 {
        seen.push(s.index());
        s = s.next();
    }
    assert_eq!(s, Sort::Drift);
    assert_eq!(seen, vec![0, 1, 2, 3]);
    assert_eq!(Sort::from_index(2), Sort::Recent);
    assert_eq!(Sort::Stale.label(), "least recently fetched");
}

#[test]
fn the_least_recently_fetched_come_first_in_the_stale_order() {
    let mut fresh = row("fresh");
    fresh.fetch_age = Some(1_000);
    let mut stale = row("stale");
    stale.fetch_age = Some(90_000_000);
    let mut rows = vec![fresh, stale];
    sort_by(&mut rows, Sort::Stale);
    assert_eq!(rows[0].display_name, "stale");
}
