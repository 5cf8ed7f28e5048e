use gitdrift::discover::Problem;
use gitdrift::drift::Sort;
use gitdrift::status::{Head, RepoStatus};
use gitdrift::ui::state::{App, BranchChoice, Command, Key, KeyCode, Modifiers, Pane, StashChoice};

fn key(c: char) -> Key {
    Key::plain(KeyCode::Char(c))
}

fn shift(c: char) -> Key {
    Key::new(KeyCode::Char(c), Modifiers::shift())
}

fn code(c: KeyCode) -> Key {
    Key::plain(c)
}

fn row(name: &str, ahead: u32) -> RepoStatus {
    let mut r = RepoStatus::blank(format!("/tmp/{name}"), name.to_string());
    r.head = Head::Branch("main".into());
    r.upstream = Some("origin/main".into());
    r.ahead = ahead;
    r.last_commit_time = Some(1);
    r
}

fn row_behind(name: &str) -> RepoStatus {
    RepoStatus { behind: 3, ..row(name, 0) }
}

fn row_no_upstream(name: &str) -> RepoStatus {
    RepoStatus { upstream: None, ..row(name, 0) }
}

fn app_with(rows: Vec<RepoStatus>) -> App {
    let mut app = App::new();
    for r in rows {
        app.push_status(r);
    }
    app.finish_scan();
    app
}

fn selected_path(app: &App) -> String {
    app.selected().unwrap().path.clone()
}

fn marked_names(app: &App) -> Vec<String> {
    app.visible().iter().filter(|r| app.is_marked(&r.path)).map(|r| r.display_name.clone()).collect()
}

#[test]
fn rows_arrive_unsorted_and_are_ordered_with_drifted_first() {
    let app = app_with(vec![row("clean", 0), row("drifted", 1)]);
    assert_eq!(app.visible()[0].display_name, "drifted");
}

#[test]
fn selection_moves_and_clamps_at_both_ends() {
    let mut app = app_with(vec![row("a", 1), row("b", 1), row("c", 1)]);
    assert_eq!(app.selected_index(), 0);
    app.on_key(code(KeyCode::Down));
    app.on_key(code(KeyCode::Down));
    app.on_key(code(KeyCode::Down)); // past the end
    assert_eq!(app.selected_index(), 2);
    app.on_key(code(KeyCode::Up));
    app.on_key(code(KeyCode::Up));
    app.on_key(code(KeyCode::Up)); // past the start
    assert_eq!(app.selected_index(), 0);
}

#[test]
fn g_and_shift_g_jump_to_the_ends() {
    let mut app = app_with(vec![row("a", 1), row("b", 1), row("c", 1)]);
    app.on_key(shift('G'));
    assert_eq!(app.selected_index(), 2);
    app.on_key(key('g'));
    assert_eq!(app.selected_index(), 0);
}

#[test]
fn moving_the_selection_requests_the_new_rows_detail() {
    let mut app = app_with(vec![row("a", 1), row("b", 1)]);
    let cmd = app.on_key(code(KeyCode::Down));
    let expected = selected_path(&app);
    assert_eq!(cmd, Command::LoadDetail(expected));
}

#[test]
fn drifted_only_hides_clean_rows_and_keeps_the_selection_valid() {
    let mut app = app_with(vec![row("drifted", 1), row("clean", 0)]);
    app.on_key(code(KeyCode::Down)); // select "clean"
    assert_eq!(app.selected().unwrap().display_name, "clean");
    app.on_key(key('d'));
    assert_eq!(app.visible().len(), 1);
    assert_eq!(app.selected().unwrap().display_name, "drifted");
}

#[test]
fn filter_narrows_by_substring_and_escape_clears_it() {
    let mut app = app_with(vec![row("sre/alpha", 1), row("platform/beta", 1)]);
    app.on_key(key('/'));
    app.on_key(key('a'));
    app.on_key(key('l'));
    assert_eq!(app.visible().len(), 1);
    assert_eq!(app.visible()[0].display_name, "sre/alpha");
    app.on_key(code(KeyCode::Esc));
    assert_eq!(app.visible().len(), 2);
}

#[test]
fn backspace_edits_the_filter() {
    let mut app = app_with(vec![row("alpha", 1), row("widget", 1)]);
    app.on_key(key('/'));
    app.on_key(key('a'));
    app.on_key(key('z'));
    assert_eq!(app.visible().len(), 0);
    app.on_key(code(KeyCode::Backspace));
    assert_eq!(app.visible().len(), 1);
}

#[test]
fn keys_are_literal_text_while_filtering() {
    let mut app = app_with(vec![row("quiet", 1)]);
    app.on_key(key('/'));
    app.on_key(key('q'));
    app.on_key(key('d'));
    // q and d are inserted as text, not executed as quit/toggle commands.
    assert_eq!(app.filter_text(), Some("qd"));
    assert!(!app.on_key(key('q')).eq(&Command::Quit));
}

#[test]
fn enter_ends_filtering_without_clearing_the_filter() {
    let mut app = app_with(vec![row("alpha", 1), row("widget", 1)]);
    app.on_key(key('/'));
    app.on_key(key('a'));
    app.on_key(code(KeyCode::Enter));
    assert_eq!(app.filter_text(), None, "no longer typing");
    assert_eq!(app.visible().len(), 1, "but the filter still applies");
}

#[test]
fn action_keys_emit_commands_for_the_selected_repo() {
    let mut app = app_with(vec![row("a", 1)]);
    let p = selected_path(&app);
    assert_eq!(app.on_key(key('f')), Command::Fetch(vec![p.clone()]));
    assert_eq!(app.on_key(key('p')), Command::Pull(vec![p.clone()]));
    assert_eq!(app.on_key(code(KeyCode::Enter)), Command::Shell(p.clone()));
    assert_eq!(app.on_key(key('e')), Command::Editor(p));
    assert_eq!(app.on_key(key('s')), Command::OpenStashes);
    assert_eq!(app.on_key(shift('F')), Command::FetchAll);
    assert_eq!(app.on_key(key('r')), Command::Rescan);
    assert_eq!(app.on_key(key('q')), Command::Quit);
}

#[test]
fn u_and_l_open_the_pager_for_the_selected_repository() {
    let mut app = app_with(vec![row_behind("a")]);
    let path = selected_path(&app);
    assert_eq!(app.on_key(shift('U')), Command::Diff(path.clone()));
    assert_eq!(app.on_key(shift('L')), Command::Log(path));
}

#[test]
fn there_is_nothing_to_diff_against_without_an_upstream() {
    let mut app = app_with(vec![row_no_upstream("a")]);
    assert_eq!(app.on_key(shift('U')), Command::Nothing);
    assert!(app.toast().unwrap().contains("upstream"));
}

#[test]
fn tab_flips_the_detail_toggle_and_flips_back() {
    let mut app = app_with(vec![row("a", 1)]);
    assert!(!app.detail_toggled());
    app.on_key(code(KeyCode::Tab));
    assert!(app.detail_toggled());
    app.on_key(code(KeyCode::Tab));
    assert!(!app.detail_toggled());
}

#[test]
fn detail_open_follows_fit_unless_tab_flips_it() {
    let mut app = app_with(vec![row("a", 1)]);
    assert!(app.detail_open(true), "shown by default when it fits");
    assert!(!app.detail_open(false), "hidden by default when it does not");

    app.on_key(code(KeyCode::Tab));
    assert!(!app.detail_open(true), "tab hides it despite fitting");
    assert!(app.detail_open(false), "tab shows it despite not fitting");
}

#[test]
fn j_and_k_no_longer_move_the_selection() {
    let mut app = app_with(vec![row("a", 1), row("b", 1)]);
    app.on_key(key('j'));
    app.on_key(key('k'));
    assert_eq!(app.selected_index(), 0, "arrows only");
}

#[test]
fn esc_quits_from_the_list() {
    let mut app = app_with(vec![row("a", 1)]);
    assert_eq!(app.on_key(code(KeyCode::Esc)), Command::Quit);
}

#[test]
fn esc_closes_an_overlay_before_it_quits() {
    let mut app = app_with(vec![row("a", 1)]);
    app.on_key(key('?'));
    assert_eq!(app.on_key(code(KeyCode::Esc)), Command::Nothing, "closes help");
    assert_eq!(app.pane(), Pane::List);
    assert_eq!(app.on_key(code(KeyCode::Esc)), Command::Quit, "now it quits");
}

#[test]
fn esc_clears_the_filter_before_it_quits() {
    let mut app = app_with(vec![row("a", 1)]);
    app.on_key(key('/'));
    app.on_key(key('a'));
    assert_eq!(app.on_key(code(KeyCode::Esc)), Command::LoadDetail("/tmp/a".into()));
    assert_eq!(app.filter_text(), None);
}

#[test]
fn space_marks_and_unmarks_the_selected_row() {
    let mut app = app_with(vec![row("a", 1), row("b", 1)]);
    let p = selected_path(&app);
    app.on_key(key(' '));
    assert!(app.is_marked(&p));
    assert_eq!(app.marked_count(), 1);
    app.on_key(key(' '));
    assert!(!app.is_marked(&p));
    assert_eq!(app.marked_count(), 0);
}

#[test]
fn actions_apply_to_the_marked_set_when_there_is_one() {
    let mut app = app_with(vec![row("a", 1), row("b", 1)]);
    app.on_key(key(' ')); // mark row 0
    app.on_key(code(KeyCode::Down));
    app.on_key(key(' ')); // mark row 1
    match app.on_key(key('f')) {
        Command::Fetch(paths) => assert_eq!(paths.len(), 2),
        other => panic!("expected two targets, got {other:?}"),
    }
}

#[test]
fn pull_clears_the_marks_it_acted_on() {
    let mut app = app_with(vec![row("a", 1), row("b", 1)]);
    app.on_key(key(' ')); // mark row 0
    app.on_key(code(KeyCode::Down));
    app.on_key(key(' ')); // mark row 1
    match app.on_key(key('p')) {
        Command::Pull(paths) => assert_eq!(paths.len(), 2),
        other => panic!("expected two targets, got {other:?}"),
    }
    assert_eq!(app.marked_count(), 0, "marks should not survive the pull");
}

#[test]
fn actions_fall_back_to_the_current_row_when_nothing_is_marked() {
    let mut app = app_with(vec![row("a", 1), row("b", 1)]);
    let p = selected_path(&app);
    assert_eq!(app.on_key(key('f')), Command::Fetch(vec![p]));
}

#[test]
fn marks_survive_a_rescan_that_still_finds_the_repository() {
    let mut app = app_with(vec![row("a", 1)]);
    app.on_key(key(' '));
    assert_eq!(app.marked_count(), 1);
    app.begin_scan();
    app.push_status(row("a", 1));
    app.finish_scan();
    assert_eq!(app.marked_count(), 1, "a refresh is not a reset");
}

#[test]
fn a_mark_is_dropped_when_the_repository_is_gone_after_a_rescan() {
    let mut app = app_with(vec![row("a", 1)]);
    app.on_key(key(' '));
    app.begin_scan();
    app.push_status(row("b", 1));
    app.finish_scan();
    assert_eq!(app.marked_count(), 0);
}

#[test]
fn a_held_modifier_makes_it_a_different_key_entirely() {
    let mut app = app_with(vec![row("a", 1), row("b", 1)]);
    for c in ['p', 'f', 'r', 'q', 'a', 'V'] {
        let ctrl = Key::new(KeyCode::Char(c), Modifiers::control());
        assert_eq!(app.on_key(ctrl), Command::Nothing, "Ctrl-{c} must do nothing");
        let alt = Key::new(KeyCode::Char(c), Modifiers::alt());
        assert_eq!(app.on_key(alt), Command::Nothing, "Alt-{c} must do nothing");
    }
    assert_eq!(app.marked_count(), 0, "no mark slipped through");
    assert_eq!(app.pane(), Pane::List);
}

#[test]
fn ctrl_c_still_quits_despite_the_modifier_guard() {
    let mut app = app_with(vec![row("a", 1)]);
    let ctrl_c = Key::new(KeyCode::Char('c'), Modifiers::control());
    assert_eq!(app.on_key(ctrl_c), Command::Quit);
}

#[test]
fn a_modified_key_is_not_typed_into_the_filter() {
    let mut app = app_with(vec![row("widget", 1)]);
    app.on_key(key('/'));
    app.on_key(Key::new(KeyCode::Char('w'), Modifiers::control()));
    assert_eq!(app.filter_text(), Some(""), "Ctrl-W is not a w");
}

#[test]
fn only_uppercase_v_marks_a_range() {
    let mut app = app_with(vec![row("a", 1), row("b", 1), row("c", 1)]);
    app.on_key(key(' '));
    app.on_key(code(KeyCode::Down));
    app.on_key(code(KeyCode::Down));
    app.on_key(key('v'));
    assert_eq!(app.marked_count(), 1, "lowercase v is not a binding");
    app.on_key(key('V'));
    assert_eq!(app.marked_count(), 3);
}

#[test]
fn only_lowercase_y_confirms_a_destructive_action() {
    for c in ['Y', 'n', 'x', '\n'] {
        let mut app = app_with(vec![row("a", 1)]);
        app.on_key(key('X'));
        assert_eq!(app.pane(), Pane::Confirm);
        assert_eq!(app.on_key(key(c)), Command::Nothing, "the pane says any key but y cancels; {c:?} must cancel");
        assert_eq!(app.pane(), Pane::List);
    }
}

#[test]
fn space_does_not_double_as_choose_in_the_namespace_picker() {
    let mut app = app_with(vec![row("idp/one", 1), row("mkp/two", 1)]);
    app.on_key(key('n'));
    app.on_key(code(KeyCode::Down));
    app.on_key(key(' '));
    assert_eq!(app.pane(), Pane::Namespaces, "still open");
    assert_eq!(app.group(), None, "nothing chosen");
    assert_eq!(app.marked_count(), 0, "and nothing marked behind it");
}

#[test]
fn v_marks_the_range_from_the_last_mark_to_the_cursor() {
    let mut app = app_with(vec![row("a", 1), row("b", 1), row("c", 1), row("d", 1)]);
    app.on_key(key(' '));
    app.on_key(code(KeyCode::Down));
    app.on_key(code(KeyCode::Down));
    assert_eq!(app.marked_count(), 1, "only the anchor is marked so far");
    app.on_key(key('V'));
    assert_eq!(app.marked_count(), 3, "anchor through cursor, inclusive");
}

#[test]
fn a_range_mark_works_upwards_too() {
    let mut app = app_with(vec![row("a", 1), row("b", 1), row("c", 1)]);
    app.on_key(code(KeyCode::Down));
    app.on_key(code(KeyCode::Down));
    app.on_key(key(' '));
    app.on_key(code(KeyCode::Up));
    app.on_key(code(KeyCode::Up));
    app.on_key(key('V'));
    assert_eq!(app.marked_count(), 3);
}

#[test]
fn a_range_takes_the_state_the_anchor_landed_in() {
    let mut app = app_with(vec![row("a", 1), row("b", 1), row("c", 1), row("d", 1)]);
    app.on_key(key('a')); // mark all four
    assert_eq!(app.marked_count(), 4);

    app.on_key(code(KeyCode::Down)); // row b
    app.on_key(key(' ')); // unmarks b, anchor = (b, false)
    app.on_key(code(KeyCode::Down)); // row c
    app.on_key(shift('V'));

    assert_eq!(marked_names(&app), vec!["a", "d"], "b..c should have been swept clear");
}

#[test]
fn a_sweep_follows_its_repository_when_a_refresh_re_sorts_the_list() {
    // A fetch pushes each row's fresh status as it lands, which re-sorts the
    // list mid-selection, so the anchor must not be a row index.
    let mut app = app_with(vec![row("a", 1), row("b", 1), row("c", 1), row("d", 1)]);
    app.on_key(key('a'));

    app.on_key(code(KeyCode::Down)); // b
    app.on_key(key(' ')); // unmark b, anchor = b

    // "d" turns out to have diverged and sorts to the top, shifting every
    // other row down one.
    app.push_status(RepoStatus { behind: 3, ..row("d", 1) });
    let names: Vec<&str> = app.visible().iter().map(|r| r.display_name.as_str()).collect();
    assert_eq!(names, vec!["d", "a", "b", "c"], "fixture must actually re-sort");

    app.on_key(code(KeyCode::Down));
    app.on_key(code(KeyCode::Down)); // c
    app.on_key(shift('V'));

    assert_eq!(marked_names(&app), vec!["d", "a"], "only b..c should have been swept clear");
}

#[test]
fn a_range_still_marks_when_the_anchor_was_marked() {
    let mut app = app_with(vec![row("a", 1), row("b", 1), row("c", 1)]);
    app.on_key(key(' ')); // marks a, anchor = (a, true)
    app.on_key(code(KeyCode::Down));
    app.on_key(code(KeyCode::Down)); // row c
    app.on_key(shift('V'));
    assert_eq!(app.marked_count(), 3);
}

#[test]
fn a_range_with_no_anchor_marks_only_the_current_row() {
    let mut app = app_with(vec![row("a", 1), row("b", 1), row("c", 1)]);
    app.on_key(code(KeyCode::Down));
    app.on_key(shift('V'));
    assert_eq!(app.marked_count(), 1);
    let second = app.visible()[1].path.clone();
    assert!(app.is_marked(&second));
}

#[test]
fn a_marks_everything_visible_and_marks_again_to_clear() {
    let mut app = app_with(vec![row("a", 1), row("b", 1), row("c", 1)]);
    app.on_key(key('a'));
    assert_eq!(app.marked_count(), 3);
    app.on_key(key('a'));
    assert_eq!(app.marked_count(), 0, "pressing it again toggles back off");
}

#[test]
fn a_clears_a_partial_selection_in_one_press() {
    let mut app = app_with(vec![row("a", 1), row("b", 1), row("c", 1)]);
    app.on_key(key(' '));
    assert_eq!(app.marked_count(), 1);
    app.on_key(key('a'));
    assert_eq!(app.marked_count(), 0, "anything marked means a clears");
}

#[test]
fn a_range_mark_does_not_reuse_an_index_from_a_different_filter() {
    let mut app = app_with(vec![row("alpha", 1), row("beta", 1), row("gamma", 1), row("widget", 1)]);
    for _ in 0..3 {
        app.on_key(code(KeyCode::Down));
    }
    app.on_key(key(' '));

    app.on_key(key('/'));
    app.on_key(key('a'));
    app.on_key(code(KeyCode::Enter));
    assert_eq!(app.visible().len(), 3, "widget has no 'a'");

    app.on_key(code(KeyCode::Down));
    app.on_key(key('V'));
    assert_eq!(app.marked_count(), 2, "the stale index is dropped; V just marks the row under the cursor");
}

#[test]
fn acting_on_marks_that_the_view_hides_says_so_instead_of_doing_nothing() {
    let mut app = app_with(vec![row("idp/one", 1), row("mkp/two", 1)]);
    app.on_key(code(KeyCode::Down));
    app.on_key(key(' '));
    app.on_key(key('n'));
    app.on_key(code(KeyCode::Down));
    app.on_key(code(KeyCode::Enter));
    assert_eq!(app.group(), Some("idp"));
    assert_eq!(app.on_key(key('f')), Command::Nothing);
    assert!(app.toast().unwrap_or_default().contains("none of them"), "{:?}", app.toast());
}

#[test]
fn shift_s_opens_a_sort_picker_and_enter_applies_the_choice() {
    let mut app = app_with(vec![row("zzz", 9), row("aaa", 0)]);
    assert_eq!(app.sort_mode(), Sort::Drift);
    assert_eq!(app.visible()[0].display_name, "zzz", "drifted first");

    app.on_key(shift('S'));
    assert_eq!(app.pane(), Pane::Sort);
    assert_eq!(app.picker_index(), 0, "opens on the sort in force");

    app.on_key(code(KeyCode::Down));
    app.on_key(code(KeyCode::Enter));
    assert_eq!(app.pane(), Pane::List);
    assert_eq!(app.sort_mode(), Sort::Name);
    assert_eq!(app.visible()[0].display_name, "aaa");
}

#[test]
fn esc_leaves_the_sort_picker_without_changing_anything() {
    let mut app = app_with(vec![row("zzz", 9), row("aaa", 0)]);
    app.on_key(shift('S'));
    app.on_key(code(KeyCode::Down));
    app.on_key(code(KeyCode::Esc));
    assert_eq!(app.pane(), Pane::List);
    assert_eq!(app.sort_mode(), Sort::Drift, "unchanged");
}

#[test]
fn n_opens_a_picker_listing_every_namespace_plus_all() {
    let mut app = app_with(vec![row("idp/one", 1), row("idp/two", 1), row("mkp/three", 1)]);
    app.on_key(key('n'));
    assert_eq!(app.pane(), Pane::Namespaces);
    assert_eq!(
        app.namespace_choices(),
        vec![("all".to_string(), 3), ("idp".to_string(), 2), ("mkp".to_string(), 1)]
    );
}

#[test]
fn picking_a_namespace_filters_the_list_to_it() {
    let mut app = app_with(vec![row("idp/one", 1), row("mkp/two", 1)]);
    app.on_key(key('n'));
    app.on_key(code(KeyCode::Down));
    app.on_key(code(KeyCode::Enter));
    assert_eq!(app.pane(), Pane::List);
    assert_eq!(app.group(), Some("idp"));
    assert_eq!(app.visible().len(), 1);
}

#[test]
fn picking_all_clears_the_namespace_filter() {
    let mut app = app_with(vec![row("idp/one", 1), row("mkp/two", 1)]);
    app.on_key(key('n'));
    app.on_key(code(KeyCode::Down));
    app.on_key(code(KeyCode::Enter));
    app.on_key(key('n'));
    app.on_key(code(KeyCode::Up));
    app.on_key(code(KeyCode::Enter));
    assert_eq!(app.group(), None);
    assert_eq!(app.visible().len(), 2);
}

#[test]
fn the_picker_opens_on_the_namespace_already_in_force() {
    let mut app = app_with(vec![row("idp/one", 1), row("mkp/two", 1)]);
    app.on_key(key('n'));
    app.on_key(code(KeyCode::Down));
    app.on_key(code(KeyCode::Down));
    app.on_key(code(KeyCode::Enter));
    assert_eq!(app.group(), Some("mkp"));
    app.on_key(key('n'));
    assert_eq!(app.picker_index(), 2);
}

#[test]
fn escaping_the_picker_leaves_the_filter_alone() {
    let mut app = app_with(vec![row("idp/one", 1), row("mkp/two", 1)]);
    app.on_key(key('n'));
    app.on_key(code(KeyCode::Down));
    app.on_key(code(KeyCode::Esc));
    assert_eq!(app.pane(), Pane::List);
    assert_eq!(app.group(), None);
}

#[test]
fn actions_only_target_repositories_the_namespace_filter_still_shows() {
    let mut app = app_with(vec![row("idp/one", 1), row("mkp/two", 1)]);
    app.on_key(key('a'));
    assert_eq!(app.marked_count(), 2);
    app.on_key(key('n'));
    app.on_key(code(KeyCode::Down));
    app.on_key(code(KeyCode::Enter));
    match app.on_key(key('f')) {
        Command::Fetch(paths) => assert_eq!(paths.len(), 1, "{paths:?}"),
        other => panic!("expected a fetch, got {other:?}"),
    }
}

#[test]
fn pruning_asks_for_confirmation_before_deleting_branches() {
    let mut app = app_with(vec![row("a", 1)]);
    assert_eq!(app.on_key(key('X')), Command::Nothing);
    assert_eq!(app.pane(), Pane::Confirm);
    assert!(app.pending().unwrap().summary.contains("upstream is gone"));
    match app.on_key(key('y')) {
        Command::Prune(paths) => assert_eq!(paths.len(), 1),
        other => panic!("expected a prune, got {other:?}"),
    }
}

#[test]
fn any_other_key_cancels_a_destructive_action() {
    for cancel in ['n', 'q', 'X'] {
        let mut app = app_with(vec![row("a", 1)]);
        app.on_key(key('X'));
        assert_eq!(app.on_key(key(cancel)), Command::Nothing, "{cancel} must cancel");
        assert_eq!(app.pane(), Pane::List);
        assert!(app.pending().is_none(), "the pending action is dropped");
    }
}

#[test]
fn escape_cancels_a_destructive_action_rather_than_quitting() {
    let mut app = app_with(vec![row("a", 1)]);
    app.on_key(key('X'));
    assert_eq!(app.on_key(code(KeyCode::Esc)), Command::Nothing);
    assert_eq!(app.pane(), Pane::List);
}

#[test]
fn destructive_keys_are_inert_with_no_selection() {
    let mut app = App::new();
    app.finish_scan();
    assert_eq!(app.on_key(key('X')), Command::Nothing);
    assert_eq!(app.pane(), Pane::List, "no confirmation for nothing");
}

#[test]
fn the_removed_destructive_keys_do_nothing() {
    let mut app = app_with(vec![row("a", 1)]);
    assert_eq!(app.on_key(shift('C')), Command::Nothing, "C should no longer be bound");
    assert_eq!(app.pane(), Pane::List, "C should not open a confirmation");
}

#[test]
fn ctrl_c_quits_even_while_filtering() {
    let mut app = app_with(vec![row("a", 1)]);
    app.on_key(key('/'));
    let cmd = app.on_key(Key::new(KeyCode::Char('c'), Modifiers::control()));
    assert_eq!(cmd, Command::Quit);
}

#[test]
fn action_keys_are_inert_when_there_is_no_selection() {
    let mut app = App::new();
    app.finish_scan();
    assert_eq!(app.on_key(key('f')), Command::Nothing);
    assert_eq!(app.on_key(code(KeyCode::Enter)), Command::Nothing);
}

#[test]
fn panes_toggle_and_escape_returns_to_the_list() {
    let mut app = app_with(vec![row("a", 1)]);
    app.push_problem(Problem { path: "/x".into(), reason: "denied".into() });
    app.on_key(key('!'));
    assert_eq!(app.pane(), Pane::Problems);
    app.on_key(key('!'));
    assert_eq!(app.pane(), Pane::List);
    app.on_key(key('?'));
    assert_eq!(app.pane(), Pane::Help);
    app.on_key(code(KeyCode::Esc));
    assert_eq!(app.pane(), Pane::List);
}

#[test]
fn a_toast_expires() {
    let mut app = App::new();
    app.set_toast("hello".to_string(), 0);
    assert_eq!(app.toast(), None);
}

#[test]
fn a_toast_shows_until_its_deadline() {
    let mut app = App::new();
    app.set_toast("hello".to_string(), 60_000);
    assert_eq!(app.toast(), Some("hello"));
    assert_eq!(app.toast_at(59_999), Some("hello"));
    assert_eq!(app.toast_at(60_000), None);
    assert_eq!(app.toast_at(u64::MAX), None);
}

#[test]
fn a_status_arriving_twice_for_one_repo_replaces_it_rather_than_duplicating() {
    let mut app = App::new();
    app.push_status(row("a", 0));
    app.push_status(row("a", 3));
    app.finish_scan();
    assert_eq!(app.visible().len(), 1);
    assert_eq!(app.visible()[0].ahead, 3);
}

#[test]
fn begin_scan_clears_previous_results() {
    let mut app = app_with(vec![row("a", 1)]);
    app.begin_scan();
    assert!(app.visible().is_empty());
    assert!(app.is_scanning());
}

#[test]
fn a_job_counts_up_and_disappears_when_it_ends() {
    let mut app = App::new();
    app.finish_scan();
    let id = app.begin_job("fetching".to_string(), 3);
    app.advance_job(id);
    app.advance_job(id);
    assert_eq!(app.jobs()[0].done, 2);
    assert_eq!(app.jobs()[0].total, 3);
    app.end_job(id);
    assert!(app.jobs().is_empty());
}

#[test]
fn advancing_an_ended_job_is_not_a_panic() {
    let mut app = App::new();
    app.finish_scan(); // App::new starts a scan job; clear it first
    let id = app.begin_job("fetching".to_string(), 1);
    app.end_job(id);
    app.advance_job(id);
    assert!(app.jobs().is_empty());
}

#[test]
fn scanning_is_a_job_that_counts_the_rows_it_finds() {
    let mut app = App::new();
    app.begin_scan();
    assert!(app.is_scanning());
    app.push_status(row("a", 1));
    let scan = app.jobs().iter().find(|j| j.label == "scanning").unwrap();
    assert_eq!((scan.done, scan.total), (1, 0), "a scan does not know its size");
    app.finish_scan();
    assert!(!app.is_scanning());
    assert!(app.jobs().is_empty());
}

#[test]
fn a_rescan_keeps_the_cursor_on_the_same_repository() {
    let mut app = app_with(vec![row("alpha", 1), row("beta", 1), row("gamma", 1)]);
    app.on_key(code(KeyCode::Down));
    app.on_key(code(KeyCode::Down));
    let before = selected_path(&app);

    app.begin_scan();
    // The scan comes back in a different order; the cursor follows the repo.
    app.push_status(row("gamma", 1));
    app.push_status(row("alpha", 1));
    app.push_status(row("beta", 1));
    app.finish_scan();

    assert_eq!(selected_path(&app), before);
}

#[test]
fn a_rescan_that_loses_the_selected_repository_falls_back_to_the_top() {
    let mut app = app_with(vec![row("alpha", 1), row("beta", 1)]);
    app.on_key(code(KeyCode::Down));

    app.begin_scan();
    app.push_status(row("alpha", 1));
    app.finish_scan();

    assert_eq!(app.selected_index(), 0);
}

fn branch(name: &str, is_head: bool) -> BranchChoice {
    BranchChoice { name: name.into(), ahead: 0, behind: 0, has_upstream: true, is_head }
}

#[test]
fn b_refuses_to_switch_with_uncommitted_work() {
    let mut app = app_with(vec![RepoStatus { unstaged: 2, ..row("a", 0) }]);
    assert_eq!(app.on_key(key('b')), Command::Nothing);
    assert_eq!(app.pane(), Pane::List);
    assert!(app.toast().unwrap().contains("uncommitted"));
}

#[test]
fn b_asks_the_loop_for_the_branch_list() {
    let mut app = app_with(vec![row("a", 0)]);
    assert_eq!(app.on_key(key('b')), Command::OpenBranches);
}

#[test]
fn choosing_a_branch_checks_it_out() {
    let mut app = app_with(vec![row("a", 0)]);
    let path = selected_path(&app);
    app.open_branch_picker(path.clone(), vec![branch("main", true), branch("feat/retries", false)]);
    assert_eq!(app.pane(), Pane::Branches);
    app.on_key(code(KeyCode::Down));
    assert_eq!(app.on_key(code(KeyCode::Enter)), Command::Checkout(path, "feat/retries".into()));
    assert_eq!(app.pane(), Pane::List);
}

#[test]
fn choosing_the_branch_already_checked_out_does_nothing() {
    let mut app = app_with(vec![row("a", 0)]);
    let path = selected_path(&app);
    app.open_branch_picker(path, vec![branch("main", true)]);
    assert_eq!(app.on_key(code(KeyCode::Enter)), Command::Nothing);
    assert_eq!(app.pane(), Pane::List);
}

#[test]
fn esc_leaves_the_branch_picker_without_switching() {
    let mut app = app_with(vec![row("a", 0)]);
    let path = selected_path(&app);
    app.open_branch_picker(path, vec![branch("main", true), branch("other", false)]);
    app.on_key(code(KeyCode::Down));
    assert_eq!(app.on_key(code(KeyCode::Esc)), Command::Nothing);
    assert_eq!(app.pane(), Pane::List);
}

#[test]
fn d_diffs_the_highlighted_branch_without_checking_it_out() {
    let mut app = app_with(vec![row("a", 0)]);
    let path = selected_path(&app);
    app.open_branch_picker(path.clone(), vec![branch("main", true), branch("feat/retries", false)]);
    app.on_key(code(KeyCode::Down));
    assert_eq!(app.on_key(key('d')), Command::BranchDiff(path, "feat/retries".to_string()));
    assert_eq!(app.pane(), Pane::Branches, "stays open so the pager can return to it");
}

#[test]
fn the_popover_still_works_normally_after_diffing_from_it() {
    let mut app = app_with(vec![row("a", 0)]);
    let path = selected_path(&app);
    app.open_branch_picker(path.clone(), vec![branch("main", true), branch("feat/retries", false)]);
    app.on_key(code(KeyCode::Down));
    app.on_key(key('d'));
    assert_eq!(app.picker_index(), 1, "the cursor stayed put");
    assert_eq!(
        app.on_key(code(KeyCode::Enter)),
        Command::Checkout(path, "feat/retries".to_string()),
        "the same branch is still selected"
    );
}

#[test]
fn d_also_works_on_the_currently_checked_out_branch() {
    let mut app = app_with(vec![row("a", 0)]);
    let path = selected_path(&app);
    app.open_branch_picker(path.clone(), vec![branch("main", true)]);
    assert_eq!(app.on_key(key('d')), Command::BranchDiff(path, "main".to_string()));
}

/// A refresh landing while a popover is up re-sorts the list under it, so
/// the row at the cursor is no longer the repository the popover lists.
fn slide_cursor_off(app: &mut App, away_from: &str) {
    app.push_status(row("b", 9));
    assert_ne!(selected_path(app), away_from, "the cursor must now be on a different repository");
}

#[test]
fn a_branch_diff_targets_the_repository_the_popover_listed() {
    let mut app = app_with(vec![row("a", 0), row("b", 0)]);
    let repo_a = app.visible()[0].path.clone();
    app.open_branch_picker(repo_a.clone(), vec![branch("main", true), branch("feat/retries", false)]);
    slide_cursor_off(&mut app, &repo_a);
    app.on_key(code(KeyCode::Down));
    assert_eq!(app.on_key(key('d')), Command::BranchDiff(repo_a, "feat/retries".to_string()));
}

#[test]
fn deleting_a_branch_asks_first() {
    let mut app = app_with(vec![row("a", 0)]);
    let path = selected_path(&app);
    app.open_branch_picker(path.clone(), vec![branch("main", true), branch("feat/retries", false)]);
    app.on_key(code(KeyCode::Down));
    assert_eq!(app.on_key(key('x')), Command::Nothing);
    assert_eq!(app.pane(), Pane::Confirm);
    let pending = app.pending().unwrap();
    assert_eq!(pending.branch, Some("feat/retries".to_string()));
    assert_eq!(app.on_key(key('y')), Command::DeleteBranch(path, "feat/retries".to_string()));
}

#[test]
fn the_current_branch_cannot_be_deleted_from_the_picker() {
    let mut app = app_with(vec![row("a", 0)]);
    let path = selected_path(&app);
    app.open_branch_picker(path, vec![branch("main", true)]);
    assert_eq!(app.on_key(key('x')), Command::Nothing);
    assert_eq!(app.pane(), Pane::Branches, "still open, nothing to confirm");
    assert!(app.toast().unwrap().contains("current branch"));
}

#[test]
fn a_branch_delete_targets_the_repository_the_popover_listed() {
    let mut app = app_with(vec![row("a", 0), row("b", 0)]);
    let repo_a = app.visible()[0].path.clone();
    app.open_branch_picker(repo_a.clone(), vec![branch("main", true), branch("feat/retries", false)]);
    slide_cursor_off(&mut app, &repo_a);
    app.on_key(code(KeyCode::Down));
    app.on_key(key('x'));
    assert_eq!(app.on_key(key('y')), Command::DeleteBranch(repo_a, "feat/retries".to_string()));
}

#[test]
fn shift_m_diffs_the_selected_repository_against_its_ancestor() {
    let mut app = app_with(vec![row_no_upstream("a")]);
    let path = selected_path(&app);
    assert_eq!(app.on_key(shift('M')), Command::AncestorDiff(path), "no upstream is required, unlike U");
}

fn stash(index: usize, message: &str) -> StashChoice {
    StashChoice { index, message: message.into() }
}

#[test]
fn enter_views_a_stash_in_the_pager() {
    let mut app = app_with(vec![row("a", 0)]);
    let path = selected_path(&app);
    app.open_stash_picker(path.clone(), vec![stash(0, "wip"), stash(1, "other")]);
    app.on_key(code(KeyCode::Down));
    assert_eq!(app.on_key(code(KeyCode::Enter)), Command::ShowStash(path, 1));
}

#[test]
fn dropping_a_stash_asks_first() {
    let mut app = app_with(vec![row("a", 0)]);
    let path = selected_path(&app);
    app.open_stash_picker(path, vec![stash(0, "wip: retry backoff")]);
    assert_eq!(app.on_key(key('x')), Command::Nothing);
    assert_eq!(app.pane(), Pane::Confirm);
    let pending = app.pending().unwrap();
    assert_eq!(pending.stash, Some(0));
    assert!(pending.summary.contains("wip: retry backoff"));
}

#[test]
fn only_lowercase_y_drops_the_stash() {
    let mut app = app_with(vec![row("a", 0)]);
    let path = selected_path(&app);
    app.open_stash_picker(path.clone(), vec![stash(0, "wip")]);
    app.on_key(key('x'));
    assert_eq!(app.on_key(shift('Y')), Command::Nothing, "the pane promises any other key cancels");

    app.open_stash_picker(path.clone(), vec![stash(0, "wip")]);
    app.on_key(key('x'));
    assert_eq!(app.on_key(key('y')), Command::DropStash(path, 0));
}

#[test]
fn s_asks_the_loop_for_the_stash_list() {
    let mut app = app_with(vec![row("a", 0)]);
    assert_eq!(app.on_key(key('s')), Command::OpenStashes);
}

#[test]
fn an_empty_stash_list_opens_nothing() {
    let mut app = app_with(vec![row("a", 0)]);
    app.open_stash_picker("/tmp/a".to_string(), Vec::new());
    assert_eq!(app.pane(), Pane::List);
    assert!(app.toast().unwrap().contains("no stashes"));
}

#[test]
fn x_does_nothing_in_the_list_pane() {
    let mut app = app_with(vec![row("a", 0)]);
    assert_eq!(app.on_key(key('x')), Command::Nothing);
    assert_eq!(app.pane(), Pane::List);
}

#[test]
fn a_stash_drop_targets_the_repository_the_popover_listed() {
    let mut app = app_with(vec![row("a", 0), row("b", 0)]);
    let repo_a = app.visible()[0].path.clone();
    app.open_stash_picker(repo_a.clone(), vec![stash(0, "wip: retry backoff")]);
    slide_cursor_off(&mut app, &repo_a);
    app.on_key(key('x'));
    assert_eq!(app.pending().unwrap().targets, vec![repo_a.clone()]);
    assert_eq!(app.on_key(key('y')), Command::DropStash(repo_a, 0));
}

#[test]
fn viewing_a_stash_targets_the_repository_the_popover_listed() {
    let mut app = app_with(vec![row("a", 0), row("b", 0)]);
    let repo_a = app.visible()[0].path.clone();
    app.open_stash_picker(repo_a.clone(), vec![stash(0, "wip")]);
    slide_cursor_off(&mut app, &repo_a);
    assert_eq!(app.on_key(code(KeyCode::Enter)), Command::ShowStash(repo_a, 0));
}

#[test]
fn a_checkout_targets_the_repository_the_popover_listed() {
    let mut app = app_with(vec![row("a", 0), row("b", 0)]);
    let repo_a = app.visible()[0].path.clone();
    app.open_branch_picker(repo_a.clone(), vec![branch("main", true), branch("feat/retries", false)]);
    slide_cursor_off(&mut app, &repo_a);
    app.on_key(code(KeyCode::Down));
    assert_eq!(app.on_key(code(KeyCode::Enter)), Command::Checkout(repo_a, "feat/retries".into()));
}

#[test]
fn the_stash_confirmation_names_the_repository() {
    let mut app = app_with(vec![row("idp/api", 0)]);
    let path = selected_path(&app);
    app.open_stash_picker(path, vec![stash(2, "wip: retry backoff")]);
    app.on_key(key('x'));
    assert_eq!(app.pending().unwrap().summary, "drop stash@{2} in idp/api — \"wip: retry backoff\"");
}

#[test]
fn a_rescan_closes_an_open_popover() {
    let mut app = app_with(vec![row("a", 0)]);
    let path = selected_path(&app);
    app.open_stash_picker(path, vec![stash(0, "wip")]);
    assert_eq!(app.pane(), Pane::Stashes);
    app.begin_scan();
    assert_eq!(app.pane(), Pane::List, "the list it described is gone");
}

#[test]
fn the_namespace_of_a_repository_is_its_first_path_segment() {
    assert_eq!(gitdrift::ui::state::namespace("idp/run-plane/foo"), "idp");
    assert_eq!(gitdrift::ui::state::namespace("top-level"), "");
}

#[test]
fn the_wheel_over_a_pane_scrolls_at_most_three_a_notch() {
    let mut app = app_with(vec![row("a", 1)]);
    app.on_key(key('?'));
    assert_eq!(app.scroll_list_by(10), Command::Nothing);
    assert_eq!(app.pane_scroll(), 3);
    app.clamp_pane_scroll(1);
    assert_eq!(app.pane_scroll(), 1);
}

#[test]
fn a_toast_set_long_enough_ago_has_expired() {
    let mut app = App::new();
    let now = std::time::Instant::now();
    if let Some(ten_seconds_ago) = now.checked_sub(std::time::Duration::from_secs(10)) {
        app.set_toast_since("old news".to_string(), 5_000, ten_seconds_ago);
        assert_eq!(app.toast(), None);
    }
    app.set_toast_since("fresh".to_string(), 60_000, now);
    assert_eq!(app.toast(), Some("fresh"));
}
