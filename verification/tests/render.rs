use gitdrift::render::{elide, plain, shorten_path, status_cells};
use gitdrift::status::{Head, RepoStatus};
use gitdrift::theme::{Facet, RESET};

fn row(name: &str) -> RepoStatus {
    let mut r = RepoStatus::blank(format!("/tmp/{name}"), name.to_string());
    r.head = Head::Branch("main".into());
    r.upstream = Some("origin/main".into());
    r.last_commit_time = Some(1);
    r
}

#[test]
fn shorten_path_collapses_the_middle_and_keeps_the_repository_name() {
    let p = "idp/developer-control-plane/workflow-automation-n8n/datatables";
    assert_eq!(shorten_path(p, 100), p, "it fits, leave it alone");
    assert_eq!(shorten_path(p, 45), "idp/developer-control-plane/…/datatables", "the middle goes first");
    assert_eq!(shorten_path(p, 20), "idp/…/datatables", "then the head, segment by segment");
    assert_eq!(shorten_path(p, 14), "…/datatables", "the repository name is the last thing standing");
}

#[test]
fn shorten_path_keeps_the_repository_name_even_when_it_alone_overflows() {
    assert_eq!(
        shorten_path("a/b/an-unusually-long-repository-name", 10),
        "…/an-unusually-long-repository-name",
        "a truncated name would be useless; overflow instead"
    );
    assert_eq!(
        shorten_path("no-slashes-at-all", 8),
        "…-at-all",
        "a path with no segments has nothing to collapse; elide it"
    );
}

#[test]
fn elide_keeps_the_tail_of_an_overlong_name() {
    assert_eq!(elide("short", 20), "short");
    assert_eq!(elide("abcdef", 6), "abcdef");
    assert_eq!(elide("abcdef", 4), "…def");
    assert_eq!(elide("abcdef", 1), "…");
    assert_eq!(elide("abcdef", 0), "");
}

#[test]
fn a_clean_repo_shows_only_the_clean_glyph() {
    let cells = status_cells(&row("x"));
    assert_eq!(cells.len(), 1);
    assert_eq!(cells[0].0, Facet::Clean);
    assert_eq!(cells[0].1, "✔");
}

#[test]
fn a_repo_with_nowhere_to_push_is_not_reported_as_clean() {
    let mut r = row("x");
    r.upstream = None;
    let glyphs: Vec<String> = status_cells(&r).into_iter().map(|(_, t)| t).collect();
    assert_eq!(glyphs, ["⊘"], "no upstream is a state, not cleanliness");

    r.head = Head::Detached("1a2b3c4".into());
    let glyphs: Vec<String> = status_cells(&r).into_iter().map(|(_, t)| t).collect();
    assert_eq!(glyphs, ["⌀", "⊘"]);

    r.head = Head::Unborn;
    let glyphs: Vec<String> = status_cells(&r).into_iter().map(|(_, t)| t).collect();
    assert_eq!(glyphs, ["✔"], "a repo with no commits has no upstream to lack");
}

#[test]
fn cells_carry_counts_next_to_their_glyph_in_a_fixed_order() {
    let mut r = row("x");
    r.ahead = 2;
    r.behind = 3;
    r.staged = 1;
    r.unstaged = 4;
    r.untracked = 5;
    r.stash_count = 6;
    let rendered: Vec<String> = status_cells(&r).into_iter().map(|(_, s)| s).collect();
    assert_eq!(rendered, vec!["↑2", "↓3", "✚1", "●4", "?5", "⚑6"]);
}

#[test]
fn an_error_row_shows_only_the_error_glyph() {
    let mut r = row("x");
    r.unstaged = 9;
    r.error = Some("bad".into());
    let cells = status_cells(&r);
    assert_eq!(cells.len(), 1);
    assert_eq!(cells[0].0, Facet::Error);
}

#[test]
fn plain_output_without_colour_contains_no_escape_sequences() {
    let mut r = row("sre/alpha");
    r.ahead = 1;
    let out = plain(&vec![r], false);
    assert!(!out.contains('\x1b'), "escapes leaked: {out:?}");
    assert!(out.contains("sre/alpha"));
    assert!(out.contains("↑1"));
}

#[test]
fn plain_output_with_colour_always_resets_what_it_opens() {
    let mut r = row("x");
    r.ahead = 1;
    let out = plain(&vec![r], true);
    assert!(out.contains('\x1b'));
    assert!(out.ends_with('\n'));
    let starts = out.matches("\x1b[").count();
    let resets = out.matches(RESET).count();
    assert!(resets > 0 && starts > resets, "starts={starts} resets={resets}");
}

#[test]
fn plain_renders_head_state_readably() {
    let mut detached = row("d");
    detached.head = Head::Detached("abc1234".into());
    assert!(plain(&vec![detached], false).contains("abc1234"));

    let mut unborn = row("u");
    unborn.head = Head::Unborn;
    assert!(plain(&vec![unborn], false).contains("(unborn)"));
}

#[test]
fn plain_shows_the_error_reason() {
    let mut r = row("broken");
    r.error = Some("not a repository".into());
    let out = plain(&vec![r], false);
    assert!(out.contains("not a repository"), "{out}");
}

#[test]
fn plain_on_an_empty_slice_is_empty_not_a_panic() {
    assert_eq!(plain(&vec![], false), "");
}
