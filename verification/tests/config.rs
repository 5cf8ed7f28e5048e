use gitdrift::config::{default_prune, Config, RawConfig};

#[test]
fn default_config_uses_home_gitlab_and_builtin_prune() {
    let c = Config::default();
    assert!(c.roots[0].ends_with("gitlab"), "roots = {:?}", c.roots);
    assert!(c.prune.iter().any(|p| p == ".terragrunt-cache"));
    assert_eq!(c.concurrency, 16);
    assert_eq!(c.editor, None);
}

#[test]
fn roots_are_tilde_expanded() {
    let mut raw = RawConfig::empty();
    raw.roots = Some(vec!["~/somewhere".to_string()]);
    let c = Config::from_raw(raw);
    assert!(c.roots[0].starts_with('/'), "roots = {:?}", c.roots);
    assert!(!c.roots[0].contains('~'));
}

#[test]
fn prune_replaces_the_builtin_list() {
    let mut raw = RawConfig::empty();
    raw.prune = Some(vec!["only_this".to_string()]);
    let c = Config::from_raw(raw);
    assert_eq!(c.prune, vec!["only_this".to_string()]);
}

#[test]
fn prune_extra_appends_to_the_builtin_list() {
    let mut raw = RawConfig::empty();
    raw.prune_extra = Some(vec!["also_this".to_string()]);
    let c = Config::from_raw(raw);
    assert!(c.prune.iter().any(|p| p == ".terragrunt-cache"));
    assert!(c.prune.iter().any(|p| p == "also_this"));
}

#[test]
fn default_branches_default_to_the_usual_four_and_are_overridable() {
    assert_eq!(Config::default().default_branches, ["main", "master", "trunk", "develop"]);
    let mut raw = RawConfig::empty();
    raw.default_branches = Some(vec!["trunk".to_string()]);
    assert_eq!(Config::from_raw(raw).default_branches, ["trunk"]);
}

#[test]
fn an_empty_file_leaves_the_defaults() {
    let c = Config::from_raw(RawConfig::empty());
    assert_eq!(c.prune, default_prune());
    assert_eq!(c.concurrency, 16);
    assert_eq!(c.roots.len(), 1);
    assert!(c.roots[0].ends_with("gitlab"));
}

#[test]
fn a_concurrency_of_zero_means_one() {
    let mut raw = RawConfig::empty();
    raw.concurrency = Some(0);
    assert_eq!(Config::from_raw(raw).concurrency, 1);
    let mut raw = RawConfig::empty();
    raw.concurrency = Some(4);
    assert_eq!(Config::from_raw(raw).concurrency, 4);
}

#[test]
fn a_configured_editor_is_kept() {
    let mut raw = RawConfig::empty();
    raw.editor = Some("hx".into());
    assert_eq!(Config::from_raw(raw).editor, Some("hx".to_string()));
}

#[test]
fn the_default_config_file_lives_under_the_home_config_directory() {
    assert!(Config::default_path().ends_with(".config/gitdrift/config.toml"));
}
