//! The command line: what was asked for, and how the one-shot modes end.
use vstd::prelude::*;

use crate::config::Config;
use crate::discover::Problem;
use crate::drift::{is_drifted, spec_is_drifted};
use crate::scan::ScanOptions;
use crate::status::RepoStatus;
use crate::text::{owned, push_str};
use crate::theme::ColorMode;

verus! {

#[derive(Debug, Clone, Copy, PartialEq, Eq, Structural)]
pub enum ColorArg {
    Auto,
    Always,
    Never,
}

pub open spec fn color_mode_of(a: ColorArg) -> ColorMode {
    match a {
        ColorArg::Auto => ColorMode::Auto,
        ColorArg::Always => ColorMode::Always,
        ColorArg::Never => ColorMode::Never,
    }
}

impl From<ColorArg> for ColorMode {
    fn from(a: ColorArg) -> (r: ColorMode) {
        match a {
            ColorArg::Auto => ColorMode::Auto,
            ColorArg::Always => ColorMode::Always,
            ColorArg::Never => ColorMode::Never,
        }
    }
}

impl vstd::std_specs::convert::FromSpecImpl<ColorArg> for ColorMode {
    open spec fn obeys_from_spec() -> bool {
        true
    }

    open spec fn from_spec(a: ColorArg) -> ColorMode {
        color_mode_of(a)
    }
}

/// The command line, parsed.
#[derive(Debug, Clone)]
pub struct Args {
    /// Directory to scan. Defaults to the roots in the config file.
    pub path: Option<String>,
    /// Print an aligned table and exit instead of opening the TUI.
    pub plain: bool,
    /// Print JSON and exit instead of opening the TUI.
    pub json: bool,
    /// Hide repositories that are clean and in sync.
    pub drifted_only: bool,
    pub color: ColorArg,
    /// Alternate config file.
    pub config: Option<String>,
}

/// A command line that cannot be run.
#[derive(Debug, Clone, Copy, PartialEq, Eq, Structural)]
pub enum UsageError {
    /// `--plain` and `--json` ask for two different outputs.
    PlainWithJson,
}

/// What a run does.
#[derive(Debug, Clone, Copy, PartialEq, Eq, Structural)]
pub enum Mode {
    Plain,
    Json,
    Tui,
}

impl Args {
    /// Rejects contradictory flags.
    pub fn check(&self) -> (r: Result<(), UsageError>)
        ensures
            r is Err <==> (self.plain && self.json),
    {
        if self.plain && self.json {
            Err(UsageError::PlainWithJson)
        } else {
            Ok(())
        }
    }

    /// JSON or the table, printed once; otherwise the interactive list.
    pub fn mode(&self) -> (r: Mode)
        ensures
            r == (if self.json {
                Mode::Json
            } else if self.plain {
                Mode::Plain
            } else {
                Mode::Tui
            }),
    {
        if self.json {
            Mode::Json
        } else if self.plain {
            Mode::Plain
        } else {
            Mode::Tui
        }
    }

    /// What to scan: the configured roots, or the one directory named on
    /// the command line in their place.
    pub fn scan_options(&self, cfg: &Config) -> (r: ScanOptions)
        ensures
            match self.path {
                Some(p) => r.roots@.len() == 1 && r.roots@[0]@ == p@,
                None => r.roots@.len() == cfg.roots@.len() && forall|i: int|
                    0 <= i < cfg.roots@.len() ==> #[trigger] r.roots@[i]@ == cfg.roots@[i]@,
            },
            r.prune@.len() == cfg.prune@.len(),
            forall|i: int| 0 <= i < cfg.prune@.len() ==> #[trigger] r.prune@[i]@ == cfg.prune@[i]@,
            r.threads >= 1,
    {
        let mut opts = ScanOptions::from_config(cfg);
        match &self.path {
            Some(p) => {
                let mut roots: Vec<String> = Vec::new();
                roots.push(owned(p.as_str()));
                opts.roots = roots;
            },
            None => {},
        }
        opts
    }
}

/// The rows `--drifted-only` keeps, in order.
pub open spec fn drifted_rows(rows: Seq<RepoStatus>) -> Seq<RepoStatus>
    decreases rows.len(),
{
    if rows.len() == 0 {
        seq![]
    } else {
        drifted_rows(rows.drop_last()) + if spec_is_drifted(rows.last()) {
            seq![rows.last()]
        } else {
            seq![]
        }
    }
}

/// Drops the repositories that are clean and in sync, keeping the order.
pub fn keep_drifted(rows: Vec<RepoStatus>) -> (r: Vec<RepoStatus>)
    ensures
        r@ == drifted_rows(rows@),
{
    let mut out: Vec<RepoStatus> = Vec::new();
    let mut rest = rows;
    let ghost all = rest@;
    let mut taken: usize = 0;
    let n = rest.len();
    while rest.len() > 0
        invariant
            n == all.len(),
            taken + rest@.len() == all.len(),
            rest@ == all.skip(taken as int),
            out@ == drifted_rows(all.take(taken as int)),
        decreases rest.len(),
    {
        let ghost old_rest = rest@;
        let r = rest.remove(0);
        assert(rest@ =~= all.skip(taken + 1)) by {
            assert(rest@ =~= old_rest.drop_first());
        }
        assert(all.take(taken + 1).drop_last() =~= all.take(taken as int));
        assert(all.take(taken + 1).last() == r);
        if is_drifted(&r) {
            out.push(r);
        }
        taken += 1;
    }
    assert(all.take(taken as int) =~= all);
    out
}

/// A one-shot run fails when it found nothing and every root it tried was
/// a problem; individual bad repositories are not a failure.
pub open spec fn spec_exit_code(rows: Seq<RepoStatus>, problems: Seq<Problem>) -> i32 {
    if rows.len() == 0 && problems.len() > 0 {
        1
    } else {
        0
    }
}

pub fn exit_code(rows: &Vec<RepoStatus>, problems: &Vec<Problem>) -> (r: i32)
    ensures
        r == spec_exit_code(rows@, problems@),
{
    if rows.len() == 0 && problems.len() > 0 {
        1
    } else {
        0
    }
}

/// How a problem is reported on stderr.
pub fn problem_message(p: &Problem) -> (r: String)
    ensures
        r@ == "gitdrift: "@ + p.path@ + ": "@ + p.reason@,
{
    let mut s = owned("gitdrift: ");
    push_str(&mut s, p.path.as_str());
    push_str(&mut s, ": ");
    push_str(&mut s, p.reason.as_str());
    s
}

/// `--drifted-only` keeps exactly the drifted rows, every one of them, in
/// the order they came: it is the filter of the rows by drift.
pub proof fn law_drifted_only_keeps_exactly_the_drifted_rows(rows: Seq<RepoStatus>)
    ensures
        drifted_rows(rows) == rows.filter(|r: RepoStatus| spec_is_drifted(r)),
        forall|r: RepoStatus| drifted_rows(rows).contains(r) <==> rows.contains(r) && spec_is_drifted(r),
    decreases rows.len(),
{
    reveal_with_fuel(Seq::filter, 1);
    let pred = |r: RepoStatus| spec_is_drifted(r);
    if rows.len() > 0 {
        law_drifted_only_keeps_exactly_the_drifted_rows(rows.drop_last());
        if spec_is_drifted(rows.last()) {
            assert(drifted_rows(rows) =~= rows.drop_last().filter(pred).push(rows.last()));
        } else {
            assert(drifted_rows(rows) =~= rows.drop_last().filter(pred));
        }
    }
    rows.filter_lemma(pred);
    assert forall|r: RepoStatus| drifted_rows(rows).contains(r) <==> rows.contains(r) && spec_is_drifted(r) by {
        if rows.contains(r) && spec_is_drifted(r) {
            let k = choose|k: int| 0 <= k < rows.len() && rows[k] == r;
            assert(pred(rows[k]));
        }
    }
}

} // verus!
