use gitdrift::cli::{exit_code, keep_drifted, problem_message, Args, ColorArg, Mode, UsageError};
use gitdrift::config::Config;
use gitdrift::discover::Problem;
use gitdrift::status::{Head, RepoStatus};
use gitdrift::theme::ColorMode;

fn args() -> Args {
    Args { path: None, plain: false, json: false, drifted_only: false, color: ColorArg::Auto, config: None }
}

#[test]
fn plain_and_json_together_is_rejected() {
    let a = Args { plain: true, json: true, ..args() };
    assert_eq!(a.check(), Err(UsageError::PlainWithJson));
    assert_eq!(Args { plain: true, ..args() }.check(), Ok(()));
}

#[test]
fn the_flags_choose_the_mode() {
    assert_eq!(args().mode(), Mode::Tui);
    assert_eq!(Args { plain: true, ..args() }.mode(), Mode::Plain);
    assert_eq!(Args { json: true, ..args() }.mode(), Mode::Json);
}

#[test]
fn a_path_on_the_command_line_replaces_the_configured_roots() {
    let cfg = Config::with_root("/srv/code".to_string());
    let opts = args().scan_options(&cfg);
    assert_eq!(opts.roots, vec!["/srv/code".to_string()]);
    assert!(opts.threads >= 1);
    let opts = Args { path: Some("/elsewhere".into()), ..args() }.scan_options(&cfg);
    assert_eq!(opts.roots, vec!["/elsewhere".to_string()]);
    assert_eq!(opts.prune, cfg.prune);
}

fn row(name: &str) -> RepoStatus {
    let mut r = RepoStatus::blank(format!("/tmp/{name}"), name.to_string());
    r.head = Head::Branch("main".into());
    r.upstream = Some("origin/main".into());
    r
}

#[test]
fn drifted_only_hides_clean_repositories() {
    let mut dirty = row("dirty");
    dirty.unstaged = 1;
    let kept = keep_drifted(vec![row("clean_one"), dirty, row("clean_two")]);
    assert_eq!(kept.len(), 1);
    assert_eq!(kept[0].display_name, "dirty");
}

#[test]
fn a_run_fails_only_when_every_root_was_a_problem() {
    let problem = Problem { path: "/definitely/not/here".into(), reason: "root does not exist".into() };
    assert_eq!(exit_code(&vec![], &vec![problem.clone()]), 1);
    assert_eq!(exit_code(&vec![row("a")], &vec![problem.clone()]), 0);
    assert_eq!(exit_code(&vec![], &vec![]), 0);
    assert_eq!(problem_message(&problem), "gitdrift: /definitely/not/here: root does not exist");
}

#[test]
fn the_colour_flag_maps_onto_the_colour_mode() {
    assert_eq!(ColorMode::from(ColorArg::Always), ColorMode::Always);
    assert_eq!(ColorMode::from(ColorArg::Never), ColorMode::Never);
    assert_eq!(ColorMode::from(ColorArg::Auto), ColorMode::Auto);
}
