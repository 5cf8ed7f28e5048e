//! One glyph and one colour per repository state, used alike by the table
//! and the interactive list.
use vstd::prelude::*;

use crate::status::{Head, RepoStatus};
use crate::text::owned;

verus! {

pub const RESET: &'static str = "\x1b[0m";
pub const BOLD: &'static str = "\x1b[1m";

/// Semantic colours, taken from the terminal's own 16-colour palette so they
/// follow the user's theme, plus the panel chrome.
#[derive(Debug, Clone, Copy, PartialEq, Eq, Structural)]
pub enum Color {
    Red,
    BrightYellow,
    Blue,
    Green,
    Yellow,
    Cyan,
    Magenta,
    BrightMagenta,
    DimGreen,
    Dim,
    Accent,
    /// Background of the selected row: chrome, not a repository state.
    Selection,
    /// Panel titles.
    Teal,
    /// Panel borders.
    Mauve,
    /// The mark dot on a marked row.
    Pink,
}

/// The escape sequence that starts each colour.
pub open spec fn spec_ansi(c: Color) -> Seq<char> {
    match c {
        Color::Red => "\x1b[31m"@,
        Color::BrightYellow => "\x1b[93m"@,
        Color::Blue => "\x1b[34m"@,
        Color::Green => "\x1b[32m"@,
        Color::Yellow => "\x1b[33m"@,
        Color::Cyan => "\x1b[36m"@,
        Color::Magenta => "\x1b[35m"@,
        Color::BrightMagenta => "\x1b[95m"@,
        Color::DimGreen => "\x1b[2;32m"@,
        Color::Dim => "\x1b[2m"@,
        Color::Accent => "\x1b[36m"@,
        Color::Selection => "\x1b[100m"@,
        Color::Teal => "\x1b[38;2;148;226;213m"@,
        Color::Mauve => "\x1b[38;2;203;166;247m"@,
        Color::Pink => "\x1b[38;2;245;194;231m"@,
    }
}

impl Color {
    pub fn ansi(self) -> (r: &'static str)
        ensures
            r@ == spec_ansi(self),
    {
        match self {
            Color::Red => "\x1b[31m",
            Color::BrightYellow => "\x1b[93m",
            Color::Blue => "\x1b[34m",
            Color::Green => "\x1b[32m",
            Color::Yellow => "\x1b[33m",
            Color::Cyan => "\x1b[36m",
            Color::Magenta => "\x1b[35m",
            Color::BrightMagenta => "\x1b[95m",
            Color::DimGreen => "\x1b[2;32m",
            Color::Dim => "\x1b[2m",
            Color::Accent => "\x1b[36m",
            Color::Selection => "\x1b[100m",
            Color::Teal => "\x1b[38;2;148;226;213m",
            Color::Mauve => "\x1b[38;2;203;166;247m",
            Color::Pink => "\x1b[38;2;245;194;231m",
        }
    }
}

/// One aspect of a repository's state. Each has exactly one colour and one
/// glyph, used identically in the interactive list and in the table.
#[derive(Debug, Clone, Copy, PartialEq, Eq, Structural)]
pub enum Facet {
    Error,
    Conflict,
    Diverged,
    Ahead,
    Behind,
    Staged,
    Unstaged,
    Untracked,
    Stashed,
    Detached,
    NoUpstream,
    Clean,
    Added,
    Removed,
}

pub open spec fn spec_glyph(f: Facet) -> char {
    match f {
        Facet::Error => '!',
        Facet::Conflict => '✖',
        Facet::Diverged => '⇅',
        Facet::Ahead => '↑',
        Facet::Behind => '↓',
        Facet::Staged => '✚',
        Facet::Unstaged => '●',
        Facet::Untracked => '?',
        Facet::Stashed => '⚑',
        Facet::Detached => '⌀',
        Facet::NoUpstream => '⊘',
        Facet::Clean => '✔',
        Facet::Added => '+',
        Facet::Removed => '-',
    }
}

pub open spec fn spec_color(f: Facet) -> Color {
    match f {
        Facet::Error => Color::Red,
        Facet::Conflict => Color::Red,
        Facet::Diverged => Color::Red,
        Facet::Ahead => Color::BrightYellow,
        Facet::Behind => Color::Blue,
        Facet::Staged => Color::Green,
        Facet::Unstaged => Color::Yellow,
        Facet::Untracked => Color::Cyan,
        Facet::Stashed => Color::Magenta,
        Facet::Detached => Color::BrightMagenta,
        Facet::NoUpstream => Color::BrightMagenta,
        Facet::Clean => Color::DimGreen,
        Facet::Added => Color::Green,
        Facet::Removed => Color::Red,
    }
}

pub open spec fn spec_bold(f: Facet) -> bool {
    f == Facet::Error || f == Facet::Conflict
}

impl Facet {
    /// Every facet, in declaration order.
    pub fn all() -> (r: [Facet; 14])
        ensures
            r@ == seq![
                Facet::Error,
                Facet::Conflict,
                Facet::Diverged,
                Facet::Ahead,
                Facet::Behind,
                Facet::Staged,
                Facet::Unstaged,
                Facet::Untracked,
                Facet::Stashed,
                Facet::Detached,
                Facet::NoUpstream,
                Facet::Clean,
                Facet::Added,
                Facet::Removed,
            ],
    {
        let r = [
            Facet::Error,
            Facet::Conflict,
            Facet::Diverged,
            Facet::Ahead,
            Facet::Behind,
            Facet::Staged,
            Facet::Unstaged,
            Facet::Untracked,
            Facet::Stashed,
            Facet::Detached,
            Facet::NoUpstream,
            Facet::Clean,
            Facet::Added,
            Facet::Removed,
        ];
        assert(r@ =~= seq![
            Facet::Error,
            Facet::Conflict,
            Facet::Diverged,
            Facet::Ahead,
            Facet::Behind,
            Facet::Staged,
            Facet::Unstaged,
            Facet::Untracked,
            Facet::Stashed,
            Facet::Detached,
            Facet::NoUpstream,
            Facet::Clean,
            Facet::Added,
            Facet::Removed,
        ]);
        r
    }

    pub fn glyph(self) -> (r: char)
        ensures
            r == spec_glyph(self),
    {
        match self {
            Facet::Error => '!',
            Facet::Conflict => '✖',
            Facet::Diverged => '⇅',
            Facet::Ahead => '↑',
            Facet::Behind => '↓',
            Facet::Staged => '✚',
            Facet::Unstaged => '●',
            Facet::Untracked => '?',
            Facet::Stashed => '⚑',
            Facet::Detached => '⌀',
            Facet::NoUpstream => '⊘',
            Facet::Clean => '✔',
            Facet::Added => '+',
            Facet::Removed => '-',
        }
    }

    pub fn color(self) -> (r: Color)
        ensures
            r == spec_color(self),
    {
        match self {
            Facet::Error => Color::Red,
            Facet::Conflict => Color::Red,
            Facet::Diverged => Color::Red,
            Facet::Ahead => Color::BrightYellow,
            Facet::Behind => Color::Blue,
            Facet::Staged => Color::Green,
            Facet::Unstaged => Color::Yellow,
            Facet::Untracked => Color::Cyan,
            Facet::Stashed => Color::Magenta,
            Facet::Detached => Color::BrightMagenta,
            Facet::NoUpstream => Color::BrightMagenta,
            Facet::Clean => Color::DimGreen,
            Facet::Added => Color::Green,
            Facet::Removed => Color::Red,
        }
    }

    pub fn bold(self) -> (r: bool)
        ensures
            r == spec_bold(self),
    {
        matches!(self, Facet::Error | Facet::Conflict)
    }
}

/// Colour is never the only signal: no two facets share a glyph.
pub proof fn law_every_facet_has_a_distinct_glyph(a: Facet, b: Facet)
    ensures
        spec_glyph(a) == spec_glyph(b) ==> a == b,
{
}

/// Branch names that mean "nothing unusual here".
pub fn default_branches() -> (r: Vec<String>)
    ensures
        r@.len() == 4,
        r@[0]@ == "main"@,
        r@[1]@ == "master"@,
        r@[2]@ == "trunk"@,
        r@[3]@ == "develop"@,
{
    let mut r: Vec<String> = Vec::new();
    r.push(owned("main"));
    r.push(owned("master"));
    r.push(owned("trunk"));
    r.push(owned("develop"));
    r
}

/// Whether the HEAD label is unremarkable: one of the default branches, or
/// a detached or unborn HEAD (which carry their own glyph already).
pub open spec fn spec_ordinary_head(s: RepoStatus, default_branches: Seq<String>) -> bool {
    match s.head {
        Head::Branch(name) => exists|i: int| 0 <= i < default_branches.len() && #[trigger] default_branches[i]@ == name@,
        _ => true,
    }
}

/// Whether the HEAD label should stay dim rather than render at full weight.
pub fn is_ordinary_head(s: &RepoStatus, default_branches: &Vec<String>) -> (r: bool)
    ensures
        r == spec_ordinary_head(*s, default_branches@),
{
    match &s.head {
        Head::Branch(name) => {
            let mut i: usize = 0;
            while i < default_branches.len()
                invariant
                    i <= default_branches@.len(),
                    s.head is Branch && s.head->Branch_0 == *name,
                    forall|k: int| 0 <= k < i ==> default_branches@[k]@ != name@,
                decreases default_branches.len() - i,
            {
                if crate::text::str_eq(default_branches[i].as_str(), name.as_str()) {
                    assert(default_branches@[i as int]@ == name@);
                    return true;
                }
                i += 1;
            }
            false
        },
        _ => true,
    }
}

/// The most severe facet present, used to colour the repository name.
/// Deliberately not the order of the drift score: a detached HEAD ranks
/// higher here because it is the thing most worth noticing about a row.
pub open spec fn spec_worst(s: RepoStatus) -> Facet {
    if s.error is Some {
        Facet::Error
    } else if s.conflicted > 0 {
        Facet::Conflict
    } else if s.ahead > 0 && s.behind > 0 {
        Facet::Diverged
    } else if s.ahead > 0 {
        Facet::Ahead
    } else if s.head is Detached {
        Facet::Detached
    } else if s.staged > 0 || s.unstaged > 0 {
        Facet::Unstaged
    } else if s.behind > 0 {
        Facet::Behind
    } else if s.upstream is None && !(s.head is Unborn) {
        Facet::NoUpstream
    } else if s.untracked > 0 {
        Facet::Untracked
    } else if s.stash_count > 0 {
        Facet::Stashed
    } else {
        Facet::Clean
    }
}

pub fn worst(s: &RepoStatus) -> (r: Facet)
    ensures
        r == spec_worst(*s),
{
    if s.error.is_some() {
        return Facet::Error;
    }
    if s.conflicted > 0 {
        return Facet::Conflict;
    }
    if s.ahead > 0 && s.behind > 0 {
        return Facet::Diverged;
    }
    if s.ahead > 0 {
        return Facet::Ahead;
    }
    if matches!(s.head, Head::Detached(_)) {
        return Facet::Detached;
    }
    if s.staged > 0 || s.unstaged > 0 {
        return Facet::Unstaged;
    }
    if s.behind > 0 {
        return Facet::Behind;
    }
    if s.upstream.is_none() && !matches!(s.head, Head::Unborn) {
        return Facet::NoUpstream;
    }
    if s.untracked > 0 {
        return Facet::Untracked;
    }
    if s.stash_count > 0 {
        return Facet::Stashed;
    }
    Facet::Clean
}

#[derive(Debug, Clone, Copy, PartialEq, Eq, Structural)]
pub enum ColorMode {
    Auto,
    Always,
    Never,
}

pub open spec fn spec_should_colorize(mode: ColorMode, stdout_is_tty: bool, no_color_env: bool) -> bool {
    match mode {
        ColorMode::Always => true,
        ColorMode::Never => false,
        ColorMode::Auto => stdout_is_tty && !no_color_env,
    }
}

/// `Always` and `Never` win over the environment; `Auto` colours only a
/// terminal, and never when `NO_COLOR` is set.
pub fn should_colorize(mode: ColorMode, stdout_is_tty: bool, no_color_env: bool) -> (r: bool)
    ensures
        r == spec_should_colorize(mode, stdout_is_tty, no_color_env),
{
    match mode {
        ColorMode::Always => true,
        ColorMode::Never => false,
        ColorMode::Auto => stdout_is_tty && !no_color_env,
    }
}

/// A row is clean exactly when it has drifted nowhere: the worst facet is
/// `Clean` if and only if the drift score is zero.
pub proof fn law_clean_iff_not_drifted(s: RepoStatus)
    ensures
        (spec_worst(s) == Facet::Clean) <==> !crate::drift::spec_is_drifted(s),
{
}

} // verus!
