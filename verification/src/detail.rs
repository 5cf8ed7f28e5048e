//! What the detail pane shows about one repository, and the parts of it
//! that are computed rather than read from disk.
use vstd::prelude::*;

use crate::parse::{lines_of, nested_view, parse_u32, spec_lines, spec_parse_u32, is_ws};
use crate::text::{chars_of, find_char, first_index_of, push_char, push_chars, slice_chars, seq_lt, str_lt,
    str_eq, string_from, lemma_seq_lt_trichotomy, lemma_seq_lt_transitive};
use crate::theme::Facet;

verus! {

broadcast use vstd::seq_lib::group_to_multiset_ensures;

/// How many recent commits the pane lists.
pub const RECENT_LIMIT: usize = 10;
/// How many changed (or incoming) files the pane lists.
pub const CHANGED_LIMIT: usize = 50;

#[derive(Debug, Clone)]
pub struct RepoDetail {
    pub branches: Vec<BranchInfo>,
    pub stashes: Vec<StashEntry>,
    pub remotes: Vec<RemoteInfo>,
    pub recent: Vec<CommitInfo>,
    pub changed_files: Vec<(Facet, String)>,
    pub incoming: Option<Incoming>,
}

impl RepoDetail {
    /// A detail with every section empty.
    pub fn empty() -> (r: RepoDetail)
        ensures
            r.branches@.len() == 0,
            r.stashes@.len() == 0,
            r.remotes@.len() == 0,
            r.recent@.len() == 0,
            r.changed_files@.len() == 0,
            r.incoming is None,
    {
        RepoDetail {
            branches: Vec::new(),
            stashes: Vec::new(),
            remotes: Vec::new(),
            recent: Vec::new(),
            changed_files: Vec::new(),
            incoming: None,
        }
    }
}

/// One file's line counts in a diff.
#[derive(Debug, Clone, PartialEq, Eq)]
pub struct FileDelta {
    pub added: u32,
    pub removed: u32,
    pub path: String,
}

/// What a pull would bring in.
#[derive(Debug, Clone)]
pub struct Incoming {
    pub files: Vec<FileDelta>,
    pub truncated: bool,
    pub total_added: u32,
    pub total_removed: u32,
    pub range: String,
}

#[derive(Debug, Clone)]
pub struct BranchInfo {
    pub name: String,
    pub upstream: Option<String>,
    pub ahead: u32,
    pub behind: u32,
    pub is_head: bool,
}

#[derive(Debug, Clone)]
pub struct StashEntry {
    pub index: usize,
    pub message: String,
}

#[derive(Debug, Clone)]
pub struct RemoteInfo {
    pub name: String,
    pub url: String,
}

#[derive(Debug, Clone)]
pub struct CommitInfo {
    pub short_id: String,
    pub summary: String,
    pub author: String,
    pub time: Option<i64>,
}

/// A field of the numstat output read as a count; anything unreadable (a
/// binary file's `-`) counts as zero.
pub open spec fn count_or_zero(s: Seq<char>) -> u32 {
    match spec_parse_u32(s) {
        Some(n) => n,
        None => 0,
    }
}

/// One `git diff --numstat` line: added, removed and path, separated by
/// the first two tabs; the path keeps any further tabs. A line with fewer
/// than two tabs is not a file.
pub open spec fn numstat_line(line: Seq<char>) -> Option<(u32, u32, Seq<char>)> {
    match first_index_of(line, '\t') {
        None => None,
        Some(i) => {
            let rest = line.skip(i + 1);
            match first_index_of(rest, '\t') {
                None => None,
                Some(j) => Some((count_or_zero(line.take(i)), count_or_zero(rest.take(j)), rest.skip(j + 1))),
            }
        },
    }
}

/// The files of a numstat listing, line by line.
pub open spec fn numstat_files(lines: Seq<Seq<char>>) -> Seq<(u32, u32, Seq<char>)>
    decreases lines.len(),
{
    if lines.len() == 0 {
        seq![]
    } else {
        numstat_files(lines.drop_last()) + match numstat_line(lines.last()) {
            Some(d) => seq![d],
            None => seq![],
        }
    }
}

pub open spec fn spec_parse_numstat(out: Seq<char>) -> Seq<(u32, u32, Seq<char>)> {
    numstat_files(spec_lines(out))
}

pub open spec fn deltas_view(v: Seq<FileDelta>) -> Seq<(u32, u32, Seq<char>)> {
    v.map_values(|d: FileDelta| (d.added, d.removed, d.path@))
}

fn numstat_line_exec(line: &Vec<char>) -> (r: Option<FileDelta>)
    ensures
        match r {
            Some(d) => numstat_line(line@) == Some((d.added, d.removed, d.path@)),
            None => numstat_line(line@) is None,
        },
{
    let i = match find_char(line, '\t') {
        None => return None,
        Some(i) => i,
    };
    let n = line.len();
    assert(i < n);
    let rest = slice_chars(line, i + 1, n);
    assert(rest@ =~= line@.skip(i + 1));
    let j = match find_char(&rest, '\t') {
        None => return None,
        Some(j) => j,
    };
    let added_text = slice_chars(line, 0, i);
    let removed_text = slice_chars(&rest, 0, j);
    let path_text = slice_chars(&rest, j + 1, rest.len());
    assert(added_text@ =~= line@.take(i as int));
    assert(removed_text@ =~= rest@.take(j as int));
    assert(path_text@ =~= rest@.skip(j + 1));
    let added = match parse_u32(&added_text) {
        Some(n) => n,
        None => 0,
    };
    let removed = match parse_u32(&removed_text) {
        Some(n) => n,
        None => 0,
    };
    Some(FileDelta { added, removed, path: string_from(&path_text) })
}

/// `git diff --numstat` output: added, removed, path, tab-separated. A binary
/// file reports `-` for both counts, read as zero.
pub fn parse_numstat(out: &str) -> (r: Vec<FileDelta>)
    ensures
        deltas_view(r@) == spec_parse_numstat(out@),
{
    let text = chars_of(out);
    let lines = lines_of(&text);
    let mut r: Vec<FileDelta> = Vec::new();
    let mut i: usize = 0;
    while i < lines.len()
        invariant
            i <= lines@.len(),
            nested_view(lines@) == spec_lines(out@),
            deltas_view(r@) == numstat_files(nested_view(lines@).take(i as int)),
        decreases lines.len() - i,
    {
        let ghost before = deltas_view(r@);
        assert(nested_view(lines@).take(i + 1).drop_last() =~= nested_view(lines@).take(i as int));
        assert(nested_view(lines@)[i as int] == lines@[i as int]@);
        match numstat_line_exec(&lines[i]) {
            Some(d) => {
                r.push(d);
                assert(deltas_view(r@) =~= before + seq![(d.added, d.removed, d.path@)]);
            },
            None => {},
        }
        i += 1;
    }
    assert(nested_view(lines@).take(i as int) =~= nested_view(lines@));
    r
}

/// `s` without leading white space.
pub open spec fn trim_start(s: Seq<char>) -> Seq<char>
    decreases s.len(),
{
    if s.len() > 0 && is_ws(s[0]) {
        trim_start(s.drop_first())
    } else {
        s
    }
}

/// `s` without trailing white space.
pub open spec fn trim_end(s: Seq<char>) -> Seq<char>
    decreases s.len(),
{
    if s.len() > 0 && is_ws(s.last()) {
        trim_end(s.drop_last())
    } else {
        s
    }
}

/// `s` without leading or trailing white space, as `str::trim` does.
pub open spec fn spec_trim(s: Seq<char>) -> Seq<char> {
    trim_end(trim_start(s))
}

/// `s` trimmed of white space at both ends.
pub fn trim(s: &str) -> (r: Vec<char>)
    ensures
        r@ == spec_trim(s@),
{
    let v = chars_of(s);
    let mut lo: usize = 0;
    assert(v@.skip(0) =~= v@);
    while lo < v.len() && crate::parse::is_ws_char(v[lo])
        invariant
            lo <= v@.len(),
            trim_start(v@) == trim_start(v@.skip(lo as int)),
        decreases v.len() - lo,
    {
        assert(v@.skip(lo as int).drop_first() =~= v@.skip(lo + 1));
        lo += 1;
    }
    let ghost ts = v@.skip(lo as int);
    assert(trim_start(v@) == ts);
    let mut hi: usize = v.len();
    assert(ts =~= v@.subrange(lo as int, hi as int));
    while hi > lo && crate::parse::is_ws_char(v[hi - 1])
        invariant
            lo <= hi <= v@.len(),
            ts == v@.skip(lo as int),
            trim_end(ts) == trim_end(v@.subrange(lo as int, hi as int)),
        decreases hi - lo,
    {
        assert(v@.subrange(lo as int, hi as int).drop_last() =~= v@.subrange(lo as int, hi - 1));
        hi -= 1;
    }
    slice_chars(&v, lo, hi)
}

pub open spec fn sum_added(files: Seq<FileDelta>) -> int
    decreases files.len(),
{
    if files.len() == 0 {
        0
    } else {
        sum_added(files.drop_last()) + files.last().added
    }
}

pub open spec fn sum_removed(files: Seq<FileDelta>) -> int
    decreases files.len(),
{
    if files.len() == 0 {
        0
    } else {
        sum_removed(files.drop_last()) + files.last().removed
    }
}

proof fn lemma_sums_grow(files: Seq<FileDelta>, k: int)
    requires
        0 <= k <= files.len(),
    ensures
        sum_added(files.take(k)) <= sum_added(files),
        sum_removed(files.take(k)) <= sum_removed(files),
    decreases files.len() - k,
{
    if k < files.len() {
        lemma_sums_grow(files, k + 1);
        assert(files.take(k + 1).drop_last() =~= files.take(k));
    } else {
        assert(files.take(k) =~= files);
    }
}

/// What a pull would bring in, from the diff's files and the two short ids:
/// at most `CHANGED_LIMIT` files listed (and `truncated` when there were
/// more), totals over every file, and the range `head..upstream` with each
/// id trimmed.
pub fn summarize_incoming(files: Vec<FileDelta>, head_id: &str, upstream_id: &str) -> (r: Incoming)
    requires
        sum_added(files@) <= u32::MAX,
        sum_removed(files@) <= u32::MAX,
    ensures
        r.truncated == (files@.len() > CHANGED_LIMIT),
        r.files@ == (if files@.len() > CHANGED_LIMIT { files@.take(CHANGED_LIMIT as int) } else { files@ }),
        r.total_added == sum_added(files@),
        r.total_removed == sum_removed(files@),
        r.range@ == spec_trim(head_id@) + seq!['.', '.'] + spec_trim(upstream_id@),
{
    let mut total_added: u32 = 0;
    let mut total_removed: u32 = 0;
    let mut i: usize = 0;
    while i < files.len()
        invariant
            i <= files@.len(),
            sum_added(files@) <= u32::MAX,
            sum_removed(files@) <= u32::MAX,
            total_added == sum_added(files@.take(i as int)),
            total_removed == sum_removed(files@.take(i as int)),
        decreases files.len() - i,
    {
        assert(files@.take(i + 1).drop_last() =~= files@.take(i as int));
        proof {
            lemma_sums_grow(files@, i + 1);
        }
        total_added = total_added + files[i].added;
        total_removed = total_removed + files[i].removed;
        i += 1;
    }
    assert(files@.take(i as int) =~= files@);
    let truncated = files.len() > CHANGED_LIMIT;
    let mut files = files;
    files.truncate(CHANGED_LIMIT);
    let mut range = string_from(&trim(head_id));
    push_char(&mut range, '.');
    push_char(&mut range, '.');
    push_chars(&mut range, &trim(upstream_id));
    assert(range@ =~= spec_trim(head_id@) + seq!['.', '.'] + spec_trim(upstream_id@));
    Incoming { files, truncated, total_added, total_removed, range }
}

/// The stash list from reflog messages, which run oldest first: newest
/// first, each numbered by its position, as `git stash list` numbers them.
pub fn stash_entries(messages: Vec<String>) -> (r: Vec<StashEntry>)
    ensures
        r@.len() == messages@.len(),
        forall|k: int| 0 <= k < r@.len() ==> #[trigger] r@[k].index == k && r@[k].message == messages@[messages@.len() - 1 - k],
{
    let mut messages = messages;
    let ghost orig = messages@;
    let mut r: Vec<StashEntry> = Vec::new();
    while messages.len() > 0
        invariant
            messages@ == orig.take(messages@.len() as int),
            r@.len() + messages@.len() == orig.len(),
            forall|k: int| 0 <= k < r@.len() ==> #[trigger] r@[k].index == k && r@[k].message == orig[orig.len() - 1 - k],
        decreases messages.len(),
    {
        let index = r.len();
        let ghost m_old = messages@;
        let message = messages.pop().unwrap();
        assert(message == m_old.last());
        assert(m_old.last() == orig[m_old.len() - 1]);
        let ghost r_old = r@;
        r.push(StashEntry { index, message });
        assert forall|k: int| 0 <= k < r@.len() implies #[trigger] r@[k].index == k && r@[k].message == orig[orig.len() - 1 - k] by {
            if k < r_old.len() {
                assert(r@[k] == r_old[k]);
            }
        }
        assert(messages@ =~= orig.take(messages@.len() as int));
    }
    r
}

/// Where a branch row sorts in the branch list: the checked-out branch
/// first, then by name.
pub open spec fn branch_before(a: BranchInfo, b: BranchInfo) -> bool {
    (a.is_head && !b.is_head) || (a.is_head == b.is_head && seq_lt(a.name@, b.name@))
}

pub open spec fn branches_sorted(v: Seq<BranchInfo>) -> bool {
    forall|i: int, j: int| 0 <= i < j < v.len() ==> !branch_before(#[trigger] v[j], #[trigger] v[i])
}

proof fn lemma_branch_order(a: BranchInfo, b: BranchInfo, c: BranchInfo)
    ensures
        !branch_before(a, a),
        branch_before(a, b) && branch_before(b, c) ==> branch_before(a, c),
{
    lemma_seq_lt_trichotomy(a.name@, a.name@);
    if branch_before(a, b) && branch_before(b, c) && a.is_head == b.is_head && b.is_head == c.is_head {
        lemma_seq_lt_transitive(a.name@, b.name@, c.name@);
    }
}

fn branch_before_exec(a: &BranchInfo, b: &BranchInfo) -> (r: bool)
    ensures
        r == branch_before(*a, *b),
{
    if a.is_head != b.is_head {
        a.is_head
    } else {
        str_lt(a.name.as_str(), b.name.as_str())
    }
}

/// Orders the branch rows: the checked-out branch first, then by name.
pub fn sort_branches(rows: &mut Vec<BranchInfo>)
    ensures
        final(rows)@.to_multiset() == old(rows)@.to_multiset(),
        branches_sorted(final(rows)@),
{
    let ghost orig = rows@;
    let mut out: Vec<BranchInfo> = Vec::new();
    while rows.len() > 0
        invariant
            out@.to_multiset().add(rows@.to_multiset()) == orig.to_multiset(),
            branches_sorted(out@),
        decreases rows.len(),
    {
        let ghost before_rows = rows@;
        let x = rows.remove(0);
        let mut j: usize = 0;
        while j < out.len() && !branch_before_exec(&x, &out[j])
            invariant
                j <= out.len(),
                forall|k: int| 0 <= k < j ==> !branch_before(x, #[trigger] out@[k]),
            decreases out.len() - j,
        {
            j += 1;
        }
        let ghost old_out = out@;
        out.insert(j, x);
        proof {
            let s = out@;
            assert forall|p: int, q: int| 0 <= p < q < s.len() implies !branch_before(#[trigger] s[q], #[trigger] s[p]) by {
                if p < j && q > j {
                    assert(s[q] == old_out[q - 1]);
                    assert(s[p] == old_out[p]);
                } else if p == j && q > j {
                    assert(s[q] == old_out[q - 1]);
                    lemma_branch_order(old_out[q - 1], x, old_out[j as int]);
                    lemma_branch_order(old_out[j as int], old_out[j as int], old_out[j as int]);
                    if q - 1 > j {
                        assert(!branch_before(old_out[q - 1], old_out[j as int]));
                    }
                } else if q > j {
                    assert(s[q] == old_out[q - 1]);
                    assert(s[p] == old_out[p - 1]);
                } else if q == j {
                    assert(s[p] == old_out[p]);
                } else {
                    assert(s[p] == old_out[p]);
                    assert(s[q] == old_out[q]);
                }
            }
            assert(out@.remove(j as int) =~= old_out);
            assert(out@.to_multiset() =~= old_out.to_multiset().insert(x));
            assert(before_rows.remove(0) =~= rows@);
            assert(before_rows.to_multiset() =~= rows@.to_multiset().insert(x));
            assert(out@.to_multiset().add(rows@.to_multiset()) =~= orig.to_multiset());
        }
    }
    proof {
        assert(rows@.to_multiset() =~= vstd::multiset::Multiset::empty());
    }
    *rows = out;
}

/// Whether a local branch of that name exists.
pub open spec fn branch_exists(branches: Seq<BranchInfo>, name: Seq<char>) -> bool {
    exists|k: int| 0 <= k < branches.len() && #[trigger] branches[k].name@ == name
}

fn has_branch(branches: &Vec<BranchInfo>, name: &String) -> (r: bool)
    ensures
        r == branch_exists(branches@, name@),
{
    let mut k: usize = 0;
    while k < branches.len()
        invariant
            k <= branches@.len(),
            forall|m: int| 0 <= m < k ==> #[trigger] branches@[m].name@ != name@,
        decreases branches.len() - k,
    {
        if str_eq(branches[k].name.as_str(), name.as_str()) {
            assert(branches@[k as int].name@ == name@);
            return true;
        }
        k += 1;
    }
    false
}

/// The first of `defaults` that exists among `branches`.
pub open spec fn spec_default_branch(defaults: Seq<Seq<char>>, branches: Seq<BranchInfo>) -> Option<Seq<char>>
    decreases defaults.len(),
{
    if defaults.len() == 0 {
        None
    } else if branch_exists(branches, defaults[0]) {
        Some(defaults[0])
    } else {
        spec_default_branch(defaults.drop_first(), branches)
    }
}

/// The first of the configured default branches that actually exists
/// locally, which diffs are taken against.
pub fn default_branch_of(defaults: &Vec<String>, branches: &Vec<BranchInfo>) -> (r: Option<String>)
    ensures
        match r {
            Some(name) => spec_default_branch(crate::actions::strings_view(defaults@), branches@) == Some(name@),
            None => spec_default_branch(crate::actions::strings_view(defaults@), branches@) is None,
        },
        match r {
            Some(name) => exists|i: int| 0 <= i < defaults@.len() && defaults@[i]@ == name@
                && branch_exists(branches@, defaults@[i]@)
                && forall|i2: int| 0 <= i2 < i ==> !branch_exists(branches@, #[trigger] defaults@[i2]@),
            None => forall|i: int| 0 <= i < defaults@.len() ==> !branch_exists(branches@, #[trigger] defaults@[i]@),
        },
{
    let ghost all = crate::actions::strings_view(defaults@);
    let mut i: usize = 0;
    assert(all.skip(0) =~= all);
    while i < defaults.len()
        invariant
            i <= defaults@.len(),
            all == crate::actions::strings_view(defaults@),
            spec_default_branch(all, branches@) == spec_default_branch(all.skip(i as int), branches@),
            forall|i2: int| 0 <= i2 < i ==> !branch_exists(branches@, #[trigger] defaults@[i2]@),
        decreases defaults.len() - i,
    {
        let ghost rest = all.skip(i as int);
        assert(rest[0] == defaults@[i as int]@);
        assert(rest.drop_first() =~= all.skip(i + 1));
        if has_branch(branches, &defaults[i]) {
            let name = string_from(&chars_of(defaults[i].as_str()));
            assert(defaults@[i as int]@ == name@);
            return Some(name);
        }
        i += 1;
    }
    None
}

/// How far the checked-out branch is behind its upstream; 0 when no branch
/// is checked out.
pub open spec fn spec_head_behind(branches: Seq<BranchInfo>) -> u32
    decreases branches.len(),
{
    if branches.len() == 0 {
        0
    } else if branches[0].is_head {
        branches[0].behind
    } else {
        spec_head_behind(branches.drop_first())
    }
}

/// Incoming changes are only looked for when the checked-out branch is
/// behind.
pub fn head_behind(branches: &Vec<BranchInfo>) -> (r: u32)
    ensures
        r == spec_head_behind(branches@),
{
    let mut i: usize = 0;
    assert(branches@.skip(0) =~= branches@);
    while i < branches.len()
        invariant
            i <= branches@.len(),
            spec_head_behind(branches@) == spec_head_behind(branches@.skip(i as int)),
        decreases branches.len() - i,
    {
        let ghost rest = branches@.skip(i as int);
        assert(rest[0] == branches@[i as int]);
        assert(rest.drop_first() =~= branches@.skip(i + 1));
        if branches[i].is_head {
            return branches[i].behind;
        }
        i += 1;
    }
    0
}

/// The changed files the pane lists: the first `CHANGED_LIMIT`.
pub fn cap_changes(entries: Vec<(Facet, String)>) -> (r: Vec<(Facet, String)>)
    ensures
        r@ == (if entries@.len() <= CHANGED_LIMIT {
            entries@
        } else {
            entries@.take(CHANGED_LIMIT as int)
        }),
{
    let mut out = entries;
    out.truncate(CHANGED_LIMIT);
    out
}

} // verus!
