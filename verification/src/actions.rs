//! The decisions behind the actions gitdrift takes on a repository: whether
//! a pull may go ahead, which branches a prune deletes, and how commands
//! and their messages are spelled. Running `git` itself is left to the
//! caller.
use vstd::prelude::*;

use crate::detail::{spec_trim, trim};
use crate::parse::{lines_of, nested_view, spec_lines, spec_words, words_of};
use crate::status::{spec_is_dirty, RepoStatus};
use crate::text::{chars_eq, chars_of, decimal, owned, push_char, push_decimal, push_str, string_from};

verus! {

#[derive(Debug)]
pub enum ActionError {
    Dirty,
    NoUpstream,
    NotFastForward,
    Git(String),
    Spawn(String),
}

/// How an error reads to the user.
pub open spec fn spec_error_text(e: ActionError) -> Seq<char> {
    match e {
        ActionError::Dirty => "worktree has uncommitted changes"@,
        ActionError::NoUpstream => "branch has no upstream"@,
        ActionError::NotFastForward => "branch has diverged from its upstream; not a fast-forward"@,
        ActionError::Git(msg) => "git: "@ + msg@,
        ActionError::Spawn(msg) => msg@,
    }
}

impl ActionError {
    /// The error as the user reads it.
    pub fn text(&self) -> (r: String)
        ensures
            r@ == spec_error_text(*self),
    {
        match self {
            ActionError::Dirty => owned("worktree has uncommitted changes"),
            ActionError::NoUpstream => owned("branch has no upstream"),
            ActionError::NotFastForward => owned("branch has diverged from its upstream; not a fast-forward"),
            ActionError::Git(msg) => {
                let mut r = owned("git: ");
                push_str(&mut r, msg.as_str());
                r
            },
            ActionError::Spawn(msg) => owned(msg.as_str()),
        }
    }
}

/// Judged from the last known status: a pull needs an upstream, a clean
/// worktree (untracked files do not count) and a fast-forward, so a branch
/// both ahead of and behind its upstream is refused.
pub fn can_pull(s: &RepoStatus) -> (r: Result<(), ActionError>)
    ensures
        s.upstream is None ==> r matches Err(ActionError::NoUpstream),
        s.upstream is Some && spec_is_dirty(*s) ==> r matches Err(ActionError::Dirty),
        s.upstream is Some && !spec_is_dirty(*s) && s.ahead > 0 && s.behind > 0 ==> r matches Err(
            ActionError::NotFastForward,
        ),
        s.upstream is Some && !spec_is_dirty(*s) && !(s.ahead > 0 && s.behind > 0) ==> r is Ok,
{
    if s.upstream.is_none() {
        return Err(ActionError::NoUpstream);
    }
    if s.is_dirty() {
        return Err(ActionError::Dirty);
    }
    if s.ahead > 0 && s.behind > 0 {
        return Err(ActionError::NotFastForward);
    }
    Ok(())
}

/// The branch a `git branch -vv` line names for deletion, if any: not the
/// current branch (`*`) nor one checked out in another worktree (`+`), and
/// only when the third field, the upstream, is `[...:` followed by the field
/// `gone]`. A commit message cannot nominate a branch.
pub open spec fn gone_name(line: Seq<char>) -> Option<Seq<char>> {
    if line.len() > 0 && (line[0] == '*' || line[0] == '+') {
        None
    } else {
        let w = spec_words(line);
        if w.len() >= 4 && w[2].len() > 0 && w[2][0] == '[' && w[2].last() == ':' && w[3] == "gone]"@ {
            Some(w[0])
        } else {
            None
        }
    }
}

pub open spec fn gone_names(lines: Seq<Seq<char>>) -> Seq<Seq<char>>
    decreases lines.len(),
{
    if lines.len() == 0 {
        seq![]
    } else {
        gone_names(lines.drop_last()) + match gone_name(lines.last()) {
            Some(n) => seq![n],
            None => seq![],
        }
    }
}

/// Local branches in `git branch -vv` output whose upstream is gone.
pub open spec fn spec_gone_branches(listing: Seq<char>) -> Seq<Seq<char>> {
    gone_names(spec_lines(listing))
}

pub open spec fn strings_view(v: Seq<String>) -> Seq<Seq<char>> {
    v.map_values(|s: String| s@)
}

fn gone_name_exec(line: &Vec<char>) -> (r: Option<String>)
    ensures
        match r {
            Some(n) => gone_name(line@) == Some(n@),
            None => gone_name(line@) is None,
        },
{
    if line.len() > 0 && (line[0] == '*' || line[0] == '+') {
        return None;
    }
    let w = words_of(line);
    proof {
        reveal_strlit("gone]");
    }
    if w.len() >= 4 {
        let up = &w[2];
        assert(nested_view(w@)[2] == w@[2]@);
        assert(nested_view(w@)[3] == w@[3]@);
        assert(nested_view(w@)[0] == w@[0]@);
        let gone: Vec<char> = vec!['g', 'o', 'n', 'e', ']'];
        assert(gone@ =~= "gone]"@);
        if up.len() > 0 && up[0] == '[' && up[up.len() - 1] == ':' && chars_eq(&w[3], &gone) {
            return Some(string_from(&w[0]));
        }
    }
    None
}

/// Local branches in `git branch -vv` output whose upstream is gone.
///
/// The current branch (`*`) and branches checked out in another worktree
/// (`+`) are skipped: git refuses to delete either.
pub fn gone_branches(listing: &str) -> (r: Vec<String>)
    ensures
        strings_view(r@) == spec_gone_branches(listing@),
{
    let text = chars_of(listing);
    let lines = lines_of(&text);
    let mut r: Vec<String> = Vec::new();
    let mut i: usize = 0;
    while i < lines.len()
        invariant
            i <= lines@.len(),
            nested_view(lines@) == spec_lines(listing@),
            strings_view(r@) == gone_names(nested_view(lines@).take(i as int)),
        decreases lines.len() - i,
    {
        let ghost before = strings_view(r@);
        assert(nested_view(lines@).take(i + 1).drop_last() =~= nested_view(lines@).take(i as int));
        assert(nested_view(lines@)[i as int] == lines@[i as int]@);
        match gone_name_exec(&lines[i]) {
            Some(n) => {
                r.push(n);
                assert(strings_view(r@) =~= before + seq![r@[r@.len() - 1]@]);
            },
            None => {},
        }
        i += 1;
    }
    assert(nested_view(lines@).take(i as int) =~= nested_view(lines@));
    r
}

/// The arguments that delete the given branches: `branch -D` and the names.
/// `-D` rather than `-d`: an upstream that is gone leaves git unable to
/// prove the branch was merged.
pub fn delete_branches_args(names: &Vec<String>) -> (r: Vec<String>)
    ensures
        strings_view(r@) == seq!["branch"@, "-D"@] + strings_view(names@),
{
    let mut r: Vec<String> = Vec::new();
    r.push(owned("branch"));
    r.push(owned("-D"));
    let mut i: usize = 0;
    while i < names.len()
        invariant
            i <= names@.len(),
            strings_view(r@) == seq!["branch"@, "-D"@] + strings_view(names@.take(i as int)),
        decreases names.len() - i,
    {
        let ghost r_old = r@;
        let name = owned(names[i].as_str());
        r.push(name);
        assert(r@ == r_old.push(name));
        assert(strings_view(r@) =~= strings_view(r_old).push(names@[i as int]@));
        assert(strings_view(names@.take(i + 1)) =~= strings_view(names@.take(i as int)).push(names@[i as int]@));
        assert(strings_view(r@) =~= seq!["branch"@, "-D"@] + strings_view(names@.take(i + 1)));
        i += 1;
    }
    assert(names@.take(i as int) =~= names@);
    r
}

/// What a prune reports once done: nothing to prune, or how many branches
/// it deleted.
pub open spec fn spec_prune_report(deleted: nat) -> Seq<char> {
    if deleted == 0 {
        "no branches to prune"@
    } else {
        "deleted "@ + decimal(deleted) + " branches"@
    }
}

pub fn prune_report(deleted: usize) -> (r: String)
    ensures
        r@ == spec_prune_report(deleted as nat),
{
    if deleted == 0 {
        return owned("no branches to prune");
    }
    let mut r = owned("deleted ");
    push_decimal(&mut r, deleted as u64);
    push_str(&mut r, " branches");
    r
}

/// The stash reference for a position in the stash list: `stash@{N}`.
pub open spec fn spec_stash_ref(index: nat) -> Seq<char> {
    "stash@{"@ + decimal(index) + seq!['}']
}

pub fn stash_ref(index: usize) -> (r: String)
    ensures
        r@ == spec_stash_ref(index as nat),
{
    let mut r = owned("stash@{");
    push_decimal(&mut r, index as u64);
    push_char(&mut r, '}');
    r
}

/// The range an MR would show: everything on `target` since it forked from
/// `base`, written `base...target`.
pub fn ref_range(base: &str, target: &str) -> (r: String)
    ensures
        r@ == base@ + "..."@ + target@,
{
    let mut r = owned(base);
    push_str(&mut r, "...");
    push_str(&mut r, target);
    r
}

/// The editor to open: the configured one, else a non-empty `VISUAL`, else a
/// non-empty `EDITOR`, else `vi`.
pub open spec fn spec_resolve_editor(configured: Option<Seq<char>>, visual: Option<Seq<char>>, editor: Option<Seq<char>>) -> Seq<char> {
    match configured {
        Some(c) => c,
        None => match visual {
            Some(v) if v.len() > 0 => v,
            _ => match editor {
                Some(e) if e.len() > 0 => e,
                _ => "vi"@,
            },
        },
    }
}

pub open spec fn opt_view(o: Option<String>) -> Option<Seq<char>> {
    match o {
        Some(s) => Some(s@),
        None => None,
    }
}

/// Chooses the editor from the configuration and the values of `VISUAL`
/// and `EDITOR` (`None` when unset).
pub fn resolve_editor(configured: Option<&str>, visual: Option<String>, editor: Option<String>) -> (r: String)
    ensures
        r@ == spec_resolve_editor(
            match configured {
                Some(c) => Some(c@),
                None => None,
            },
            opt_view(visual),
            opt_view(editor),
        ),
{
    if let Some(c) = configured {
        return owned(c);
    }
    if let Some(v) = visual {
        if chars_of(v.as_str()).len() > 0 {
            return v;
        }
    }
    if let Some(e) = editor {
        if chars_of(e.as_str()).len() > 0 {
            return e;
        }
    }
    owned("vi")
}

/// The pager the full-screen views use: `GIT_PAGER` if it is set at all,
/// otherwise `PAGER`; unless that is blank, in which case `less -R`.
pub open spec fn spec_pager(git_pager: Option<Seq<char>>, pager: Option<Seq<char>>) -> Seq<char> {
    let chosen = match git_pager {
        Some(g) => Some(g),
        None => pager,
    };
    match chosen {
        Some(p) if spec_trim(p).len() > 0 => p,
        _ => "less -R"@,
    }
}

/// Chooses the pager from the values of `GIT_PAGER` and `PAGER`.
pub fn pager(git_pager_env: Option<String>, pager_env: Option<String>) -> (r: String)
    ensures
        r@ == spec_pager(opt_view(git_pager_env), opt_view(pager_env)),
{
    let chosen = match git_pager_env {
        Some(g) => Some(g),
        None => pager_env,
    };
    match chosen {
        Some(p) => {
            if trim(p.as_str()).len() > 0 {
                p
            } else {
                owned("less -R")
            }
        },
        None => owned("less -R"),
    }
}

/// The program and arguments that open `editor` on the current directory:
/// editors are often configured as a command with flags (`code -w`), so the
/// first word is the program (`vi` if there is none) and the rest, followed
/// by `.`, are its arguments.
pub fn editor_invocation(editor: &str) -> (r: (String, Vec<String>))
    ensures
        spec_words(editor@).len() > 0 ==> r.0@ == spec_words(editor@)[0],
        spec_words(editor@).len() == 0 ==> r.0@ == "vi"@,
        strings_view(r.1@) == (if spec_words(editor@).len() > 0 { spec_words(editor@).drop_first() } else { seq![] }).push(
            seq!['.'],
        ),
{
    let text = chars_of(editor);
    let words = words_of(&text);
    let program = if words.len() > 0 {
        assert(nested_view(words@)[0] == words@[0]@);
        string_from(&words[0])
    } else {
        owned("vi")
    };
    let mut args: Vec<String> = Vec::new();
    let mut i: usize = 1;
    while i < words.len()
        invariant
            1 <= i <= words@.len() || (i == 1 && words@.len() == 0),
            nested_view(words@) == spec_words(editor@),
            strings_view(args@) == (if words@.len() > 0 { nested_view(words@).subrange(1, i as int) } else { seq![] }),
        decreases words.len() - i,
    {
        args.push(string_from(&words[i]));
        assert(nested_view(words@).subrange(1, i + 1) =~= nested_view(words@).subrange(1, i as int).push(words@[i as int]@));
        assert(strings_view(args@) =~= nested_view(words@).subrange(1, i + 1));
        i += 1;
    }
    let mut dot = String::new();
    push_char(&mut dot, '.');
    args.push(dot);
    proof {
        if words@.len() > 0 {
            assert(nested_view(words@).subrange(1, words@.len() as int) =~= nested_view(words@).drop_first());
        }
        assert(strings_view(args@) =~= (if spec_words(editor@).len() > 0 { spec_words(editor@).drop_first() } else { seq![] }).push(seq!['.']));
    }
    (program, args)
}

/// The `-c` setting that makes git page through `pager`.
pub fn pager_setting(pager: &str) -> (r: String)
    ensures
        r@ == "core.pager="@ + pager@,
{
    let mut r = owned("core.pager=");
    push_str(&mut r, pager);
    r
}

/// What a finished `git` run amounts to: on success, everything it printed
/// (stdout, then stderr), trimmed; on failure, its stderr, trimmed, as the
/// error.
pub fn git_outcome(success: bool, stdout: &str, stderr: &str) -> (r: Result<String, ActionError>)
    ensures
        success ==> (r matches Ok(t) && t@ == spec_trim(stdout@ + stderr@)),
        !success ==> (r matches Err(ActionError::Git(m)) && m@ == spec_trim(stderr@)),
{
    if success {
        let mut all = owned(stdout);
        push_str(&mut all, stderr);
        Ok(string_from(&trim(all.as_str())))
    } else {
        Err(ActionError::Git(string_from(&trim(stderr))))
    }
}

/// A prune never deletes the checked-out branch (`*`) nor one checked out
/// in another worktree (`+`): git would refuse, and so does the listing.
pub proof fn law_checked_out_branches_are_never_pruned(line: Seq<char>)
    requires
        line.len() > 0,
        line[0] == '*' || line[0] == '+',
    ensures
        gone_name(line) is None,
{
}

/// Every branch a prune deletes is named by a line of the listing, as
/// that line's first word.
pub proof fn law_pruned_branches_come_from_the_listing(lines: Seq<Seq<char>>)
    ensures
        forall|i: int|
            0 <= i < gone_names(lines).len() ==> exists|k: int|
                0 <= k < lines.len() && gone_name(lines[k]) == Some(#[trigger] gone_names(lines)[i]),
    decreases lines.len(),
{
    if lines.len() > 0 {
        let l0 = lines.drop_last();
        law_pruned_branches_come_from_the_listing(l0);
        let g = gone_names(lines);
        let g0 = gone_names(l0);
        assert forall|i: int| 0 <= i < g.len() implies exists|k: int|
            0 <= k < lines.len() && gone_name(lines[k]) == Some(#[trigger] g[i]) by {
            if i < g0.len() {
                assert(g[i] == g0[i]);
                let k = choose|k: int| 0 <= k < l0.len() && gone_name(l0[k]) == Some(g0[i]);
                assert(lines[k] == l0[k]);
            } else {
                assert(gone_name(lines[lines.len() - 1]) == Some(g[i]));
            }
        }
    }
}

/// A line of `git branch -vv` naming a branch whose upstream is gone: not
/// the checked-out branch (`*`) nor one checked out in another worktree
/// (`+`), with a third field that opens with `[` and ends with `:`, and a
/// fourth that is `gone]`.
pub open spec fn names_gone_branch(line: Seq<char>) -> bool {
    let w = spec_words(line);
    &&& !(line.len() > 0 && (line[0] == '*' || line[0] == '+'))
    &&& w.len() >= 4
    &&& w[2].len() > 0
    &&& w[2][0] == '['
    &&& w[2].last() == ':'
    &&& w[3] == "gone]"@
}

/// A prune deletes exactly the branches the listing shows as gone: the first
/// field of every line that names one, each line in turn, and nothing else.
pub proof fn law_prune_takes_every_gone_branch_and_no_other(listing: Seq<char>)
    ensures
        spec_gone_branches(listing) == spec_lines(listing).filter(|l: Seq<char>| names_gone_branch(l)).map_values(
            |l: Seq<char>| spec_words(l)[0],
        ),
        forall|i: int|
            0 <= i < spec_lines(listing).len() && names_gone_branch(#[trigger] spec_lines(listing)[i])
                ==> spec_gone_branches(listing).contains(spec_words(spec_lines(listing)[i])[0]),
{
    let lines = spec_lines(listing);
    lemma_gone_names_filter(lines);
    let pred = |l: Seq<char>| names_gone_branch(l);
    let f = |l: Seq<char>| spec_words(l)[0];
    lines.filter_lemma(pred);
    assert forall|i: int| 0 <= i < lines.len() && names_gone_branch(#[trigger] lines[i]) implies spec_gone_branches(
        listing,
    ).contains(spec_words(lines[i])[0]) by {
        assert(pred(lines[i]));
        assert(lines.filter(pred).contains(lines[i]));
        let k = choose|k: int| 0 <= k < lines.filter(pred).len() && lines.filter(pred)[k] == lines[i];
        assert(lines.filter(pred).map_values(f)[k] == spec_words(lines[i])[0]);
    }
}

proof fn lemma_gone_names_filter(lines: Seq<Seq<char>>)
    ensures
        gone_names(lines) == lines.filter(|l: Seq<char>| names_gone_branch(l)).map_values(
            |l: Seq<char>| spec_words(l)[0],
        ),
    decreases lines.len(),
{
    reveal_with_fuel(Seq::filter, 1);
    let pred = |l: Seq<char>| names_gone_branch(l);
    let f = |l: Seq<char>| spec_words(l)[0];
    if lines.len() > 0 {
        lemma_gone_names_filter(lines.drop_last());
        let sub = lines.drop_last().filter(pred);
        reveal_strlit("gone]");
        if names_gone_branch(lines.last()) {
            assert(gone_name(lines.last()) == Some(spec_words(lines.last())[0]));
            assert(sub.push(lines.last()).map_values(f) =~= sub.map_values(f).push(f(lines.last())));
            assert(gone_names(lines) =~= sub.map_values(f) + seq![spec_words(lines.last())[0]]);
        } else {
            assert(gone_name(lines.last()) is None);
            assert(gone_names(lines) =~= sub.map_values(f));
        }
    } else {
        assert(lines.filter(pred) =~= Seq::<Seq<char>>::empty());
        assert(gone_names(lines) =~= lines.filter(pred).map_values(f));
    }
}

} // verus!
