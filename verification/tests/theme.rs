use gitdrift::status::{Head, RepoStatus};
use gitdrift::theme::{default_branches, is_ordinary_head, should_colorize, worst, Color, ColorMode, Facet, RESET};

fn row() -> RepoStatus {
    let mut r = RepoStatus::blank("/tmp/x".into(), "x".into());
    r.head = Head::Branch("main".into());
    r.upstream = Some("origin/main".into());
    r.last_commit_time = Some(1);
    r
}

#[test]
fn every_facet_has_a_distinct_glyph() {
    let mut glyphs: Vec<char> = Facet::all().iter().map(|f| f.glyph()).collect();
    glyphs.sort_unstable();
    let before = glyphs.len();
    glyphs.dedup();
    assert_eq!(glyphs.len(), before, "glyphs must be unique: colour is never the only signal");
}

#[test]
fn worst_facet_reflects_the_most_severe_state() {
    let mut r = row();
    assert_eq!(worst(&r), Facet::Clean);

    r.stash_count = 1;
    assert_eq!(worst(&r), Facet::Stashed);

    r.untracked = 1;
    assert_eq!(worst(&r), Facet::Untracked);

    r.behind = 1;
    assert_eq!(worst(&r), Facet::Behind);

    r.unstaged = 1;
    assert_eq!(worst(&r), Facet::Unstaged);

    r.ahead = 1;
    assert_eq!(worst(&r), Facet::Diverged, "ahead + behind is divergence");

    r.behind = 0;
    assert_eq!(worst(&r), Facet::Ahead);

    r.conflicted = 1;
    assert_eq!(worst(&r), Facet::Conflict);

    r.error = Some("boom".into());
    assert_eq!(worst(&r), Facet::Error);
}

#[test]
fn no_upstream_is_surfaced_on_an_otherwise_quiet_repo() {
    let mut r = row();
    r.upstream = None;
    assert_eq!(worst(&r), Facet::NoUpstream);
}

#[test]
fn an_unborn_repo_reads_as_clean_not_as_missing_an_upstream() {
    let mut r = row();
    r.head = Head::Unborn;
    r.upstream = None;
    assert_eq!(worst(&r), Facet::Clean);
}

#[test]
fn color_mode_never_and_always_win_over_the_environment() {
    assert!(!should_colorize(ColorMode::Never, true, false));
    assert!(should_colorize(ColorMode::Always, false, true));
}

#[test]
fn auto_respects_tty_and_no_color() {
    assert!(should_colorize(ColorMode::Auto, true, false));
    assert!(!should_colorize(ColorMode::Auto, false, false), "piped output");
    assert!(!should_colorize(ColorMode::Auto, true, true), "NO_COLOR is set");
}

#[test]
fn ansi_codes_are_escape_sequences_and_reset_is_available() {
    assert!(Color::Red.ansi().starts_with('\x1b'));
    assert_eq!(RESET, "\x1b[0m");
}

#[test]
fn a_non_default_branch_is_styled_differently_from_a_default_one() {
    let defaults: Vec<String> = ["main", "master"].iter().map(|s| s.to_string()).collect();
    let mut ordinary = row();
    ordinary.head = Head::Branch("main".into());
    let mut feature = row();
    feature.head = Head::Branch("feat/thing".into());
    assert_ne!(
        is_ordinary_head(&ordinary, &defaults),
        is_ordinary_head(&feature, &defaults),
        "a non-default branch must stand out"
    );
}

#[test]
fn detached_and_unborn_heads_carry_their_own_signal() {
    let defaults = default_branches();
    let mut r = row();
    r.head = Head::Detached("abc1234".into());
    assert!(is_ordinary_head(&r, &defaults));
    r.head = Head::Unborn;
    assert!(is_ordinary_head(&r, &defaults));
}

#[test]
fn a_clean_worst_facet_means_no_drift() {
    let mut r = row();
    assert_eq!(worst(&r) == Facet::Clean, !gitdrift::drift::is_drifted(&r));
    r.behind = 2;
    assert_eq!(worst(&r) == Facet::Clean, !gitdrift::drift::is_drifted(&r));
}
