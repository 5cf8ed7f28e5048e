use gitdrift::detail::{CommitInfo, FileDelta, Incoming, RemoteInfo, RepoDetail};
use gitdrift::theme::Facet;
use gitdrift::status::{Head, RepoStatus};
use gitdrift::ui::state::Job;
use gitdrift::ui::view::{
    activity, branch_marks, centered, confirm_listing, detail_sections, DetailSection, fetch_age_label, footer_content, footer_hints, help_rows, hint_rows, incoming_layout, incoming_summary, name_parts,
    namespace_label, scroll_marks, spinner_frame, stat_bar, Area, Cols, Footer, TAIL,
};

#[test]
fn the_activity_line_shows_the_label_and_its_progress() {
    let jobs = [Job { id: 1, label: "fetching".into(), done: 37, total: 511 }];
    assert_eq!(activity(&jobs, '⠹').unwrap(), "⠹ fetching 37/511");
}

#[test]
fn an_indeterminate_job_shows_only_what_it_has_done() {
    let jobs = [Job { id: 1, label: "scanning".into(), done: 214, total: 0 }];
    assert_eq!(activity(&jobs, '⠹').unwrap(), "⠹ scanning 214");
}

#[test]
fn extra_jobs_are_counted_not_listed() {
    let jobs = [
        Job { id: 1, label: "fetching".into(), done: 1, total: 2 },
        Job { id: 2, label: "pruning".into(), done: 0, total: 4 },
    ];
    assert_eq!(activity(&jobs, '⠹').unwrap(), "⠹ fetching 1/2 +1");
}

#[test]
fn there_is_no_activity_line_when_nothing_is_running() {
    assert!(activity(&[], '⠹').is_none());
}

#[test]
fn the_spinner_advances_over_time() {
    assert_ne!(spinner_frame(0), spinner_frame(100));
    assert_eq!(spinner_frame(0), spinner_frame(1000), "ten frames to a second, then round again");
}

#[test]
fn the_widest_file_fills_the_bar_and_the_rest_scale_to_it() {
    let big = FileDelta { added: 40, removed: 0, path: "big".into() };
    let small = FileDelta { added: 10, removed: 0, path: "small".into() };
    let cells = |d: &FileDelta| {
        let (plus, minus) = stat_bar(d, 40, 20);
        plus + minus
    };
    assert_eq!(cells(&big), 20);
    assert_eq!(cells(&small), 5);
}

#[test]
fn a_file_with_no_changed_lines_draws_no_bar() {
    let binary = FileDelta { added: 0, removed: 0, path: "logo.png".into() };
    assert_eq!(stat_bar(&binary, 40, 20), (0, 0));
}

#[test]
fn a_bar_splits_its_cells_between_additions_and_removals() {
    let d = FileDelta { added: 42, removed: 17, path: "src/api/users.rs".into() };
    assert_eq!(stat_bar(&d, 59, 24), (17, 7));
    let tiny = FileDelta { added: 0, removed: 1, path: "x".into() };
    assert_eq!(stat_bar(&tiny, 1000, 24), (0, 1), "every changed file gets at least one cell");
}

#[test]
fn every_footer_hint_is_a_key_the_help_pane_explains() {
    // Rows list key groups like "g / G"; a row whose whole key is "/" is the
    // filter key, not a separator.
    let help = help_rows();
    let helped: Vec<&str> = help
        .iter()
        .flat_map(|(keys, _)| {
            if *keys == "/" {
                vec!["/"]
            } else {
                keys.split_whitespace().filter(|k| *k != "/").collect()
            }
        })
        .collect();
    let tail_keys = TAIL.split("  ").filter_map(|pair| pair.split_whitespace().next());
    let hints = hint_rows();
    let hint_keys = hints.iter().map(|(key, _)| *key);
    for key in hint_keys.chain(tail_keys) {
        assert!(helped.contains(&key), "the footer offers {key} but the help pane never explains it");
    }
}

#[test]
fn a_narrow_footer_drops_hints_but_never_help_and_quit() {
    assert_eq!(footer_hints(10), TAIL);
    let wide = footer_hints(400);
    assert!(wide.starts_with("↑↓ move  n namespace"));
    assert!(wide.ends_with("/ filter  ? help  Esc quit"));
    let mid = footer_hints(30);
    assert_eq!(mid, "↑↓ move  ? help  Esc quit");
}

#[test]
fn a_popover_is_centred_and_never_larger_than_the_screen() {
    let screen = Area { x: 0, y: 0, width: 100, height: 40 };
    assert_eq!(centered(screen, 40, 10), Area { x: 30, y: 15, width: 40, height: 10 });
    assert_eq!(centered(screen, 200, 50), screen);
    assert!(screen.contains(0, 0));
    assert!(!screen.contains(100, 0));
}

#[test]
fn repositories_at_a_root_are_labelled_as_such() {
    assert_eq!(namespace_label(""), "(root)");
    assert_eq!(namespace_label("idp"), "idp");
}

fn row(name: &str, branch: &str) -> RepoStatus {
    let mut r = RepoStatus::blank(format!("/tmp/{name}"), name.to_string());
    r.head = Head::Branch(branch.into());
    r.upstream = Some("origin/main".into());
    r
}

#[test]
fn columns_give_the_status_its_room_and_the_name_the_rest() {
    let a = row("short", "main");
    let b = row("a-rather-longer-repository-name", "feature/x");
    let rows = vec![&a, &b];
    let cols = Cols::measure(&rows, 200);
    assert_eq!(cols.name, 31);
    assert_eq!(cols.head, 9);
    assert_eq!(cols.total, 200);

    let narrow = Cols::measure(&rows, 25);
    assert_eq!(narrow.name, 12, "the name keeps its floor");
    assert_eq!(narrow.head, 4, "out of the branch column");

    let empty: Vec<&RepoStatus> = Vec::new();
    let none = Cols::measure(&empty, 80);
    assert_eq!(none.head, 6);
    assert_eq!(none.name, 12);
}

#[test]
fn a_name_is_split_into_its_parent_path_and_the_repository() {
    assert_eq!(name_parts("sre/alpha", 100), ("sre/".to_string(), "alpha".to_string()));
    assert_eq!(name_parts("alpha", 100), (String::new(), "alpha".to_string()));
    assert_eq!(
        name_parts("idp/developer-control-plane/workflow-automation-n8n/datatables", 20),
        ("idp/…/".to_string(), "datatables".to_string())
    );
}

#[test]
fn a_pane_title_points_where_it_can_still_scroll() {
    assert_eq!(scroll_marks(0, 0), "");
    assert_eq!(scroll_marks(0, 5), "▾ ");
    assert_eq!(scroll_marks(2, 5), "▴▾ ");
    assert_eq!(scroll_marks(5, 5), "▴ ");
}

#[test]
fn a_toast_is_still_shown_while_a_job_is_in_flight() {
    assert_eq!(
        footer_content(None, Some("⠹ fetching 1/2".into()), Some("pulled a"), 80),
        Footer::Note("⠹ fetching 1/2  pulled a".into())
    );
    assert_eq!(footer_content(None, None, Some("pulled a"), 80), Footer::Note("pulled a".into()));
    assert_eq!(footer_content(Some("al"), Some("x".into()), None, 80), Footer::Typing("al".into()));
    assert_eq!(footer_content(None, None, None, 10), Footer::Hints(TAIL.into()));
    match footer_content(None, Some("⠹ scanning 3".into()), None, 40) {
        Footer::NoteAndHints(note, hints) => {
            assert_eq!(note, "⠹ scanning 3  ");
            assert_eq!(hints, footer_hints(40 - 14));
        }
        other => panic!("expected the hints beside the activity, got {other:?}"),
    }
}

#[test]
fn incoming_files_are_laid_out_around_the_widest_change() {
    let files = vec![
        FileDelta { added: 42, removed: 17, path: "src/api/users.rs".into() },
        FileDelta { added: 8, removed: 0, path: "src/db/schema.sql".into() },
    ];
    assert_eq!(incoming_layout(&files, 60), (59, 2, 24, 17));
    assert_eq!(incoming_layout(&files, 40), (59, 2, 12, 17));
    assert_eq!(incoming_layout(&Vec::new(), 20), (0, 1, 0, 0));
}

#[test]
fn the_incoming_summary_counts_files_and_lines() {
    assert_eq!(incoming_summary(1, 42, 17), "  1 file, 42 insertions(+), 17 deletions(-)");
    assert_eq!(incoming_summary(3, 0, 5), "  3 files, 0 insertions(+), 5 deletions(-)");
}

#[test]
fn a_confirmation_lists_every_target_when_few() {
    let targets: Vec<String> = vec!["~/a".into(), "~/b".into()];
    assert_eq!(confirm_listing(&targets), vec!["  ~/a".to_string(), "  ~/b".to_string()]);
}

#[test]
fn a_confirmation_lists_ten_targets_and_counts_the_rest() {
    let targets: Vec<String> = (0..13).map(|i| format!("~/r{i}")).collect();
    let lines = confirm_listing(&targets);
    assert_eq!(lines.len(), 11);
    assert_eq!(lines[0], "  ~/r0");
    assert_eq!(lines[9], "  ~/r9");
    assert_eq!(lines[10], "  … and 3 more");
}

#[test]
fn the_fetch_age_is_shown_in_whole_hours() {
    assert_eq!(fetch_age_label(3 * 3_600_000 + 59 * 60_000), "last fetch: 3h ago");
    assert_eq!(fetch_age_label(0), "last fetch: 0h ago");
}

#[test]
fn an_empty_detail_shows_only_its_branches() {
    assert_eq!(detail_sections(&RepoDetail::empty()), vec![DetailSection::Branches]);
}

#[test]
fn the_detail_pane_skips_empty_sections_and_keeps_its_order() {
    let mut d = RepoDetail::empty();
    d.recent = vec![CommitInfo { short_id: "abc1234".into(), summary: "fix".into(), author: "a".into(), time: None }];
    d.remotes = vec![RemoteInfo { name: "origin".into(), url: "git@x:y".into() }];
    d.incoming = Some(Incoming { files: vec![], truncated: false, total_added: 0, total_removed: 0, range: "a..b".into() });
    assert_eq!(
        detail_sections(&d),
        vec![DetailSection::Branches, DetailSection::Incoming, DetailSection::Remotes, DetailSection::Recent]
    );
}

#[test]
fn a_branch_is_marked_by_how_far_it_has_moved_and_a_missing_upstream() {
    assert_eq!(
        branch_marks(2, 5, true),
        vec![(Facet::Ahead, " ↑2".to_string()), (Facet::Behind, " ↓5".to_string())]
    );
    assert_eq!(branch_marks(0, 0, false), vec![(Facet::NoUpstream, " ⊘".to_string())]);
    assert!(branch_marks(0, 0, true).is_empty());
}
