//! What one repository looks like at a glance.
use vstd::prelude::*;

verus! {

/// Where HEAD points.
#[derive(Debug, Clone)]
pub enum Head {
    /// A local branch, by its short name.
    Branch(String),
    /// A detached HEAD, by its abbreviated commit id.
    Detached(String),
    /// A repository with no commits yet.
    Unborn,
}

/// One repository's state. Paths are held as text; `fetch_age` is the age of
/// `.git/FETCH_HEAD` in milliseconds, i.e. how stale ahead/behind may be.
#[derive(Debug, Clone)]
pub struct RepoStatus {
    pub path: String,
    pub display_name: String,
    pub head: Head,
    pub upstream: Option<String>,
    pub ahead: u32,
    pub behind: u32,
    pub staged: u32,
    pub unstaged: u32,
    pub untracked: u32,
    pub conflicted: u32,
    pub stash_count: u32,
    /// Count of refs under `refs/heads`.
    pub local_branches: u32,
    /// Unix seconds of the HEAD commit.
    pub last_commit_time: Option<i64>,
    pub fetch_age: Option<u64>,
    pub error: Option<String>,
}

/// Uncommitted work in the index or the worktree: staged, unstaged or
/// conflicted changes. Untracked files do not count.
pub open spec fn spec_is_dirty(s: RepoStatus) -> bool {
    s.staged + s.unstaged + s.conflicted > 0
}

impl RepoStatus {
    /// A status with nothing known yet: unborn, clean, no upstream.
    pub fn blank(path: String, display_name: String) -> (r: RepoStatus)
        ensures
            r.path == path,
            r.display_name == display_name,
            r.head is Unborn,
            r.upstream is None,
            r.ahead == 0 && r.behind == 0 && r.staged == 0 && r.unstaged == 0,
            r.untracked == 0 && r.conflicted == 0 && r.stash_count == 0,
            r.local_branches == 0,
            r.last_commit_time is None && r.fetch_age is None && r.error is None,
    {
        RepoStatus {
            path,
            display_name,
            head: Head::Unborn,
            upstream: None,
            ahead: 0,
            behind: 0,
            staged: 0,
            unstaged: 0,
            untracked: 0,
            conflicted: 0,
            stash_count: 0,
            local_branches: 0,
            last_commit_time: None,
            fetch_age: None,
            error: None,
        }
    }

    pub fn is_dirty(&self) -> (r: bool)
        ensures
            r == spec_is_dirty(*self),
    {
        (self.staged as u64) + (self.unstaged as u64) + (self.conflicted as u64) > 0
    }
}

/// How one entry of `git status` counts.
#[derive(Debug, Clone, Copy, PartialEq, Eq, Structural)]
pub enum Change {
    /// A difference between HEAD and the index.
    Staged,
    /// A worktree entry in conflict.
    Conflicted,
    /// A worktree change to a tracked file, a rename among them.
    Unstaged,
    /// A file git does not track.
    Untracked,
    /// Anything else the walk reports (an ignored entry, say).
    Other,
}

impl RepoStatus {
    /// Counts one status entry.
    pub fn count_change(&mut self, c: Change)
        requires
            c == Change::Staged ==> old(self).staged < u32::MAX,
            c == Change::Conflicted ==> old(self).conflicted < u32::MAX,
            c == Change::Unstaged ==> old(self).unstaged < u32::MAX,
            c == Change::Untracked ==> old(self).untracked < u32::MAX,
        ensures
            *final(self) == (match c {
                Change::Staged => RepoStatus { staged: (old(self).staged + 1) as u32, ..*old(self) },
                Change::Conflicted => RepoStatus { conflicted: (old(self).conflicted + 1) as u32, ..*old(self) },
                Change::Unstaged => RepoStatus { unstaged: (old(self).unstaged + 1) as u32, ..*old(self) },
                Change::Untracked => RepoStatus { untracked: (old(self).untracked + 1) as u32, ..*old(self) },
                Change::Other => *old(self),
            }),
    {
        match c {
            Change::Staged => self.staged = self.staged + 1,
            Change::Conflicted => self.conflicted = self.conflicted + 1,
            Change::Unstaged => self.unstaged = self.unstaged + 1,
            Change::Untracked => self.untracked = self.untracked + 1,
            Change::Other => {},
        }
    }
}

} // verus!
