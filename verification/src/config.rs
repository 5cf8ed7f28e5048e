//! Settings: built-in defaults, overridden by whatever the config file sets.
use vstd::prelude::*;

use crate::actions::strings_view;
use crate::text::owned;

verus! {

/// Directory names never descended into: build output, dependency caches
/// and tool state, which can hold nested clones of no interest.
pub open spec fn spec_default_prune() -> Seq<Seq<char>> {
    seq![
        ".terragrunt-cache"@,
        ".terraform"@,
        "node_modules"@,
        "target"@,
        ".venv"@,
        "vendor"@,
        ".cache"@,
        ".direnv"@,
    ]
}

pub fn default_prune() -> (r: Vec<String>)
    ensures
        strings_view(r@) == spec_default_prune(),
{
    let mut r: Vec<String> = Vec::new();
    r.push(owned(".terragrunt-cache"));
    r.push(owned(".terraform"));
    r.push(owned("node_modules"));
    r.push(owned("target"));
    r.push(owned(".venv"));
    r.push(owned("vendor"));
    r.push(owned(".cache"));
    r.push(owned(".direnv"));
    assert(strings_view(r@) =~= spec_default_prune());
    r
}

/// How many repositories fetch and prune touch at once, unless configured.
pub const DEFAULT_CONCURRENCY: usize = 16;

#[derive(Debug, Clone, PartialEq, Eq)]
pub struct Config {
    pub roots: Vec<String>,
    pub prune: Vec<String>,
    pub editor: Option<String>,
    /// Max repositories touched at once by fetch and prune.
    pub concurrency: usize,
    /// Branch names that are unremarkable. Anything else is highlighted.
    pub default_branches: Vec<String>,
}

/// The config file as written: every key optional.
#[derive(Debug, Clone, PartialEq, Eq)]
pub struct RawConfig {
    pub roots: Option<Vec<String>>,
    pub prune: Option<Vec<String>>,
    pub prune_extra: Option<Vec<String>>,
    pub editor: Option<String>,
    pub concurrency: Option<usize>,
    pub default_branches: Option<Vec<String>>,
}

impl RawConfig {
    /// A file that sets nothing.
    pub fn empty() -> (r: RawConfig)
        ensures
            r.roots is None && r.prune is None && r.prune_extra is None,
            r.editor is None && r.concurrency is None && r.default_branches is None,
    {
        RawConfig { roots: None, prune: None, prune_extra: None, editor: None, concurrency: None, default_branches: None }
    }
}

/// Whether `raw` starts with a tilde that names the home directory: `~`
/// alone, or followed by a path separator.
pub open spec fn home_relative(raw: Seq<char>) -> bool {
    raw.len() > 0 && raw[0] == '~' && (raw.len() == 1 || raw[1] == '/' || raw[1] == '\\')
}

/// What tilde expansion may make of `raw`: the home directory in place of
/// the tilde, or `raw` itself when there is no home directory to use; a
/// path that does not start at home is left alone.
pub open spec fn tilde_expanded(raw: Seq<char>, r: Seq<char>) -> bool {
    if home_relative(raw) {
        r == raw || exists|home: Seq<char>| r == home + raw.skip(1)
    } else {
        r == raw
    }
}

/// `shellexpand::tilde`: replaces a leading `~` (alone, or before a path
/// separator) with the user's home directory, and returns anything else
/// unchanged; with no home directory known, the input comes back as is.
/// The home directory is the machine's, so only that shape is claimed.
/// (The backslash counts as a separator on Windows only; the claim allows
/// either outcome there.)
#[verifier::external_body]
fn expand_tilde(raw: &str) -> (r: String)
    ensures
        tilde_expanded(raw@, r@),
{
    shellexpand::tilde(raw).into_owned()
}

/// The defaults, with `root` as the one directory scanned.
pub open spec fn spec_defaults(c: Config, root: Seq<char>) -> bool {
    &&& c.roots@.len() == 1
    &&& c.roots@[0]@ == root
    &&& strings_view(c.prune@) == spec_default_prune()
    &&& c.editor is None
    &&& c.concurrency == DEFAULT_CONCURRENCY
    &&& strings_view(c.default_branches@) == seq!["main"@, "master"@, "trunk"@, "develop"@]
}

impl Config {
    /// The built-in settings, scanning `root`.
    pub fn with_root(root: String) -> (r: Config)
        ensures
            spec_defaults(r, root@),
    {
        let mut roots: Vec<String> = Vec::new();
        roots.push(root);
        let r = Config {
            roots,
            prune: default_prune(),
            editor: None,
            concurrency: DEFAULT_CONCURRENCY,
            default_branches: crate::theme::default_branches(),
        };
        assert(strings_view(r.default_branches@) =~= seq!["main"@, "master"@, "trunk"@, "develop"@]);
        r
    }

    /// Path of the config file when the caller has no opinion.
    pub fn default_path() -> (r: String)
        ensures
            tilde_expanded("~/.config/gitdrift/config.toml"@, r@),
    {
        expand_tilde("~/.config/gitdrift/config.toml")
    }

    /// The settings `raw` asks for, on top of `self`, with `roots` as the
    /// roots it names already expanded. `prune` replaces the list;
    /// `prune_extra` then appends to it; a concurrency of 0 means 1.
    pub fn apply(self, raw: RawConfig, roots: Option<Vec<String>>) -> (r: Config)
        ensures
            r.roots@ == (match roots {
                Some(v) => v@,
                None => self.roots@,
            }),
            r.prune@ == (match raw.prune {
                Some(p) => p@,
                None => self.prune@,
            }) + (match raw.prune_extra {
                Some(e) => e@,
                None => seq![],
            }),
            r.editor == (match raw.editor {
                Some(e) => Some(e),
                None => self.editor,
            }),
            r.concurrency == (match raw.concurrency {
                Some(n) => if n < 1 {
                    1
                } else {
                    n
                },
                None => self.concurrency,
            }),
            r.default_branches@ == (match raw.default_branches {
                Some(b) => b@,
                None => self.default_branches@,
            }),
    {
        let mut cfg = self;
        match roots {
            Some(v) => cfg.roots = v,
            None => {},
        }
        match raw.prune {
            Some(p) => cfg.prune = p,
            None => {},
        }
        match raw.prune_extra {
            Some(e) => {
                let mut extra = e;
                cfg.prune.append(&mut extra);
            },
            None => {},
        }
        match raw.editor {
            Some(e) => cfg.editor = Some(e),
            None => {},
        }
        match raw.concurrency {
            Some(n) => cfg.concurrency = if n < 1 {
                1
            } else {
                n
            },
            None => {},
        }
        match raw.default_branches {
            Some(b) => cfg.default_branches = b,
            None => {},
        }
        cfg
    }

    /// The settings a parsed config file asks for: the defaults, with each
    /// key the file sets in their place and its roots tilde-expanded.
    pub fn from_raw(raw: RawConfig) -> (r: Config)
        ensures
            match raw.roots {
                Some(v) => r.roots@.len() == v@.len() && forall|i: int|
                    0 <= i < v@.len() ==> tilde_expanded(#[trigger] v@[i]@, r.roots@[i]@),
                None => r.roots@.len() == 1 && tilde_expanded("~/gitlab"@, r.roots@[0]@),
            },
            strings_view(r.prune@) == (match raw.prune {
                Some(p) => strings_view(p@),
                None => spec_default_prune(),
            }) + (match raw.prune_extra {
                Some(e) => strings_view(e@),
                None => seq![],
            }),
            r.editor == raw.editor,
            r.concurrency == (match raw.concurrency {
                Some(n) => if n < 1 {
                    1
                } else {
                    n
                },
                None => DEFAULT_CONCURRENCY,
            }),
            strings_view(r.default_branches@) == (match raw.default_branches {
                Some(b) => strings_view(b@),
                None => seq!["main"@, "master"@, "trunk"@, "develop"@],
            }),
    {
        let base = Config::default();
        let roots = match &raw.roots {
            Some(v) => {
                let mut out: Vec<String> = Vec::new();
                let mut i: usize = 0;
                while i < v.len()
                    invariant
                        i <= v@.len(),
                        out@.len() == i,
                        forall|k: int| 0 <= k < i ==> tilde_expanded(#[trigger] v@[k]@, out@[k]@),
                    decreases v.len() - i,
                {
                    out.push(expand_tilde(v[i].as_str()));
                    i += 1;
                }
                Some(out)
            },
            None => None,
        };
        let r = base.apply(raw, roots);
        assert(strings_view(r.prune@) =~= (match raw.prune {
            Some(p) => strings_view(p@),
            None => spec_default_prune(),
        }) + (match raw.prune_extra {
            Some(e) => strings_view(e@),
            None => seq![],
        }));
        r
    }
}

impl Default for Config {
    /// Scan `~/gitlab` with the built-in prune list and default branches.
    fn default() -> (r: Config)
        ensures
            r.roots@.len() == 1,
            tilde_expanded("~/gitlab"@, r.roots@[0]@),
            strings_view(r.prune@) == spec_default_prune(),
            r.editor is None,
            r.concurrency == DEFAULT_CONCURRENCY,
            strings_view(r.default_branches@) == seq!["main"@, "master"@, "trunk"@, "develop"@],
    {
        Config::with_root(expand_tilde("~/gitlab"))
    }
}

} // verus!
