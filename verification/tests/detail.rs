use gitdrift::detail::{
    cap_changes, default_branch_of, head_behind, parse_numstat, sort_branches, stash_entries, summarize_incoming,
    BranchInfo, FileDelta, CHANGED_LIMIT,
};
use gitdrift::theme::Facet;

#[test]
fn numstat_lines_become_deltas() {
    let out = "42\t17\tsrc/api/users.rs\n8\t0\tsrc/db/schema.sql\n";
    assert_eq!(
        parse_numstat(out),
        vec![
            FileDelta { added: 42, removed: 17, path: "src/api/users.rs".into() },
            FileDelta { added: 8, removed: 0, path: "src/db/schema.sql".into() },
        ]
    );
}

#[test]
fn a_binary_file_counts_as_no_lines_either_way() {
    let out = "-\t-\tlogo.png\n";
    assert_eq!(parse_numstat(out), vec![FileDelta { added: 0, removed: 0, path: "logo.png".into() }]);
}

#[test]
fn a_rename_keeps_its_whole_path_text() {
    let out = "1\t1\tsrc/{old.rs => new.rs}\n";
    assert_eq!(parse_numstat(out)[0].path, "src/{old.rs => new.rs}");
}

#[test]
fn empty_output_is_no_files_rather_than_a_failure() {
    assert!(parse_numstat("").is_empty());
}

fn branch(name: &str, is_head: bool, behind: u32) -> BranchInfo {
    BranchInfo { name: name.into(), upstream: None, ahead: 0, behind, is_head }
}

#[test]
fn the_checked_out_branch_sorts_first_then_by_name() {
    let mut rows = vec![branch("zeta", false, 0), branch("main", true, 0), branch("alpha", false, 0)];
    sort_branches(&mut rows);
    let names: Vec<&str> = rows.iter().map(|b| b.name.as_str()).collect();
    assert_eq!(names, vec!["main", "alpha", "zeta"]);
}

#[test]
fn stashes_are_listed_newest_first_and_numbered() {
    let s = stash_entries(vec!["oldest".into(), "middle".into(), "newest".into()]);
    assert_eq!(s.len(), 3);
    assert_eq!(s[0].index, 0);
    assert_eq!(s[0].message, "newest");
    assert_eq!(s[2].index, 2);
    assert_eq!(s[2].message, "oldest");
}

#[test]
fn incoming_totals_count_every_file_but_list_a_capped_few() {
    let files: Vec<FileDelta> =
        (0..60).map(|i| FileDelta { added: 2, removed: 1, path: format!("f{i}") }).collect();
    let inc = summarize_incoming(files, "abc1234\n", " def5678 ");
    assert_eq!(inc.total_added, 120);
    assert_eq!(inc.total_removed, 60);
    assert!(inc.truncated);
    assert_eq!(inc.files.len(), CHANGED_LIMIT);
    assert_eq!(inc.range, "abc1234..def5678");
}

#[test]
fn the_first_default_branch_that_exists_is_the_base() {
    let defaults = vec!["main".to_string(), "master".to_string()];
    let branches = vec![branch("feature", true, 0), branch("master", false, 0)];
    assert_eq!(default_branch_of(&defaults, &branches), Some("master".to_string()));
    assert_eq!(default_branch_of(&defaults, &vec![branch("x", true, 0)]), None);
}

#[test]
fn incoming_is_only_looked_for_when_the_head_is_behind() {
    assert_eq!(head_behind(&vec![branch("a", false, 4), branch("main", true, 3)]), 3);
    assert_eq!(head_behind(&vec![branch("a", false, 4)]), 0);
}

#[test]
fn the_changed_file_list_is_capped() {
    let entries: Vec<(Facet, String)> = (0..70).map(|i| (Facet::Unstaged, format!("f{i}"))).collect();
    let kept = cap_changes(entries);
    assert_eq!(kept.len(), CHANGED_LIMIT);
    assert_eq!(kept[0].1, "f0");
    let few = cap_changes(vec![(Facet::Untracked, "a".into())]);
    assert_eq!(few.len(), 1);
}
