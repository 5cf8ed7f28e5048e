//! How far a repository has drifted, and the orders the list can be shown in.
use vstd::prelude::*;

use crate::status::{Head, RepoStatus};
use crate::text::{seq_lt, str_lt, lemma_seq_lt_trichotomy, lemma_seq_lt_transitive};

verus! {

broadcast use vstd::seq_lib::group_to_multiset_ensures;

pub const W_ERROR: u32 = 2000;
pub const W_CONFLICT: u32 = 1000;
pub const W_DIVERGED: u32 = 500;
pub const W_AHEAD: u32 = 100;
pub const W_DIRTY: u32 = 50;
pub const W_DETACHED: u32 = 40;
pub const W_BEHIND: u32 = 25;
pub const W_NO_UPSTREAM: u32 = 20;
pub const W_UNTRACKED: u32 = 10;
pub const W_STASH: u32 = 5;

/// The weight a condition contributes when it holds.
pub open spec fn weight(holds: bool, w: u32) -> int {
    if holds {
        w as int
    } else {
        0
    }
}

/// An error outweighs everything and replaces the rest; otherwise each
/// present condition adds its own weight. Conflicts are flat-rated, and
/// divergence adds its weight on top of ahead and behind.
pub open spec fn spec_score(s: RepoStatus) -> int {
    if s.error is Some {
        W_ERROR as int
    } else {
        weight(s.conflicted > 0, W_CONFLICT) + weight(s.ahead > 0 && s.behind > 0, W_DIVERGED)
            + weight(s.ahead > 0, W_AHEAD) + weight(s.staged > 0 || s.unstaged > 0, W_DIRTY)
            + weight(s.head is Detached, W_DETACHED) + weight(s.behind > 0, W_BEHIND)
            + weight(s.upstream is None && !(s.head is Unborn), W_NO_UPSTREAM)
            + weight(s.untracked > 0, W_UNTRACKED) + weight(s.stash_count > 0, W_STASH)
    }
}

/// How far this repository has drifted. Higher sorts first.
pub fn score(s: &RepoStatus) -> (r: u32)
    ensures
        r == spec_score(*s),
{
    if s.error.is_some() {
        return W_ERROR;
    }
    let mut total: u32 = 0;
    if s.conflicted > 0 {
        total += W_CONFLICT;
    }
    if s.ahead > 0 && s.behind > 0 {
        total += W_DIVERGED;
    }
    if s.ahead > 0 {
        total += W_AHEAD;
    }
    if s.staged > 0 || s.unstaged > 0 {
        total += W_DIRTY;
    }
    if matches!(s.head, Head::Detached(_)) {
        total += W_DETACHED;
    }
    if s.behind > 0 {
        total += W_BEHIND;
    }
    if s.upstream.is_none() && !matches!(s.head, Head::Unborn) {
        total += W_NO_UPSTREAM;
    }
    if s.untracked > 0 {
        total += W_UNTRACKED;
    }
    if s.stash_count > 0 {
        total += W_STASH;
    }
    total
}

/// Drifted means anything at all to report.
pub open spec fn spec_is_drifted(s: RepoStatus) -> bool {
    spec_score(s) > 0
}

pub fn is_drifted(s: &RepoStatus) -> (r: bool)
    ensures
        r == spec_is_drifted(*s),
{
    score(s) > 0
}

/// How the list is ordered.
#[derive(Debug, Clone, Copy, PartialEq, Eq, Structural)]
pub enum Sort {
    Drift,
    Name,
    Recent,
    Stale,
}

impl Default for Sort {
    fn default() -> (r: Sort)
        ensures
            r == Sort::Drift,
    {
        Sort::Drift
    }
}

pub open spec fn spec_next(s: Sort) -> Sort {
    match s {
        Sort::Drift => Sort::Name,
        Sort::Name => Sort::Recent,
        Sort::Recent => Sort::Stale,
        Sort::Stale => Sort::Drift,
    }
}

/// The position of each order in the sort picker.
pub open spec fn spec_sort_index(s: Sort) -> int {
    match s {
        Sort::Drift => 0,
        Sort::Name => 1,
        Sort::Recent => 2,
        Sort::Stale => 3,
    }
}

/// The number of orders the picker offers.
pub const SORT_COUNT: usize = 4;

impl Sort {
    pub fn label(self) -> (r: &'static str)
        ensures
            self == Sort::Drift ==> r@ == "drift"@,
            self == Sort::Name ==> r@ == "name"@,
            self == Sort::Recent ==> r@ == "recently committed"@,
            self == Sort::Stale ==> r@ == "least recently fetched"@,
    {
        match self {
            Sort::Drift => "drift",
            Sort::Name => "name",
            Sort::Recent => "recently committed",
            Sort::Stale => "least recently fetched",
        }
    }

    pub fn next(self) -> (r: Sort)
        ensures
            r == spec_next(self),
    {
        match self {
            Sort::Drift => Sort::Name,
            Sort::Name => Sort::Recent,
            Sort::Recent => Sort::Stale,
            Sort::Stale => Sort::Drift,
        }
    }

    /// Position in the picker: drift, name, recent, stale.
    pub fn index(self) -> (r: usize)
        ensures
            r == spec_sort_index(self),
    {
        match self {
            Sort::Drift => 0,
            Sort::Name => 1,
            Sort::Recent => 2,
            Sort::Stale => 3,
        }
    }

    /// The order at a picker position.
    pub fn from_index(i: usize) -> (r: Sort)
        requires
            i < SORT_COUNT,
        ensures
            spec_sort_index(r) == i,
    {
        if i == 0 {
            Sort::Drift
        } else if i == 1 {
            Sort::Name
        } else if i == 2 {
            Sort::Recent
        } else {
            Sort::Stale
        }
    }
}

/// Cycling through the orders comes back to the start after four steps, and
/// visits every order on the way.
pub proof fn law_sort_orders_cycle(s: Sort)
    ensures
        spec_next(spec_next(spec_next(spec_next(s)))) == s,
        spec_next(s) != s,
        spec_sort_index(spec_next(s)) == (spec_sort_index(s) + 1) % 4,
{
}

/// A commit time as a key; no time sorts below every time.
pub open spec fn time_key(t: Option<i64>) -> int {
    match t {
        Some(x) => x as int,
        None => i64::MIN as int - 1,
    }
}

/// A fetch age as a key; never fetched sorts below every age.
pub open spec fn age_key(a: Option<u64>) -> int {
    match a {
        Some(x) => x as int,
        None => -1,
    }
}

/// What a row is ordered by, smallest first: for `Drift`, highest score,
/// then most recent commit, then name; for `Name`, the name; for `Recent`,
/// most recent commit, then name; for `Stale`, oldest fetch (never-fetched
/// last), then name.
pub open spec fn sort_key(mode: Sort, r: RepoStatus) -> (int, int, Seq<char>) {
    match mode {
        Sort::Drift => (-spec_score(r), -time_key(r.last_commit_time), r.display_name@),
        Sort::Name => (0, 0, r.display_name@),
        Sort::Recent => (-time_key(r.last_commit_time), 0, r.display_name@),
        Sort::Stale => (-age_key(r.fetch_age), 0, r.display_name@),
    }
}

pub open spec fn key_lt(a: (int, int, Seq<char>), b: (int, int, Seq<char>)) -> bool {
    a.0 < b.0 || (a.0 == b.0 && (a.1 < b.1 || (a.1 == b.1 && seq_lt(a.2, b.2))))
}

/// `a` belongs strictly ahead of `b` in the given order.
pub open spec fn before(mode: Sort, a: RepoStatus, b: RepoStatus) -> bool {
    key_lt(sort_key(mode, a), sort_key(mode, b))
}

/// No row is strictly ahead of a row listed before it.
pub open spec fn sorted_by(rows: Seq<RepoStatus>, mode: Sort) -> bool {
    forall|i: int, j: int| 0 <= i < j < rows.len() ==> !before(mode, #[trigger] rows[j], #[trigger] rows[i])
}

pub proof fn lemma_key_lt_order(a: (int, int, Seq<char>), b: (int, int, Seq<char>), c: (int, int, Seq<char>))
    ensures
        !key_lt(a, a),
        key_lt(a, b) && key_lt(b, c) ==> key_lt(a, c),
        key_lt(a, b) ==> !key_lt(b, a),
        !key_lt(a, b) && !key_lt(b, a) ==> a == b,
{
    lemma_seq_lt_trichotomy(a.2, a.2);
    lemma_seq_lt_trichotomy(a.2, b.2);
    if key_lt(a, b) && key_lt(b, c) && a.0 == b.0 && b.0 == c.0 && a.1 == b.1 && b.1 == c.1 {
        lemma_seq_lt_transitive(a.2, b.2, c.2);
    }
}

fn opt_time_gt(a: Option<i64>, b: Option<i64>) -> (r: bool)
    ensures
        r == (time_key(a) > time_key(b)),
{
    match (a, b) {
        (Some(x), Some(y)) => x > y,
        (Some(_), None) => true,
        (None, _) => false,
    }
}

fn opt_age_gt(a: Option<u64>, b: Option<u64>) -> (r: bool)
    ensures
        r == (age_key(a) > age_key(b)),
{
    match (a, b) {
        (Some(x), Some(y)) => x > y,
        (Some(_), None) => true,
        (None, _) => false,
    }
}

/// Whether `a` belongs strictly ahead of `b` in the given order.
pub fn row_before(a: &RepoStatus, b: &RepoStatus, mode: Sort) -> (r: bool)
    ensures
        r == before(mode, *a, *b),
{
    match mode {
        Sort::Drift => {
            let sa = score(a);
            let sb = score(b);
            if sa != sb {
                return sa > sb;
            }
            if opt_time_gt(a.last_commit_time, b.last_commit_time) {
                return true;
            }
            if opt_time_gt(b.last_commit_time, a.last_commit_time) {
                return false;
            }
            str_lt(a.display_name.as_str(), b.display_name.as_str())
        },
        Sort::Name => str_lt(a.display_name.as_str(), b.display_name.as_str()),
        Sort::Recent => {
            if opt_time_gt(a.last_commit_time, b.last_commit_time) {
                return true;
            }
            if opt_time_gt(b.last_commit_time, a.last_commit_time) {
                return false;
            }
            str_lt(a.display_name.as_str(), b.display_name.as_str())
        },
        Sort::Stale => {
            if opt_age_gt(a.fetch_age, b.fetch_age) {
                return true;
            }
            if opt_age_gt(b.fetch_age, a.fetch_age) {
                return false;
            }
            str_lt(a.display_name.as_str(), b.display_name.as_str())
        },
    }
}

proof fn lemma_insert_sorted(out: Seq<RepoStatus>, x: RepoStatus, j: int, mode: Sort)
    requires
        sorted_by(out, mode),
        0 <= j <= out.len(),
        forall|k: int| 0 <= k < j ==> !before(mode, x, #[trigger] out[k]),
        j < out.len() ==> before(mode, x, out[j]),
    ensures
        sorted_by(out.insert(j, x), mode),
{
    let s = out.insert(j, x);
    assert forall|p: int, q: int| 0 <= p < q < s.len() implies !before(mode, #[trigger] s[q], #[trigger] s[p]) by {
        if p < j && q > j {
            assert(s[q] == out[q - 1]);
            assert(s[p] == out[p]);
        } else if p == j && q > j {
            assert(s[q] == out[q - 1]);
            lemma_key_lt_order(sort_key(mode, out[q - 1]), sort_key(mode, x), sort_key(mode, out[j]));
            lemma_key_lt_order(sort_key(mode, out[j]), sort_key(mode, out[j]), sort_key(mode, out[j]));
            if q - 1 > j {
                assert(!before(mode, out[q - 1], out[j]));
            }
        } else if q > j {
            assert(s[q] == out[q - 1]);
            assert(s[p] == out[p - 1]);
        }
    }
}

/// Where a stable insertion puts `x` into `out`: ahead of the first row it
/// belongs strictly ahead of, after every row it ties with.
pub open spec fn insert_pos(out: Seq<RepoStatus>, x: RepoStatus, mode: Sort) -> int
    decreases out.len(),
{
    if out.len() == 0 {
        0
    } else if before(mode, x, out[0]) {
        0
    } else {
        1 + insert_pos(out.drop_first(), x, mode)
    }
}

/// `rows` in the given order, ties kept in the order they came (a stable
/// sort).
pub open spec fn sorted_rows(rows: Seq<RepoStatus>, mode: Sort) -> Seq<RepoStatus>
    decreases rows.len(),
{
    if rows.len() == 0 {
        seq![]
    } else {
        let out = sorted_rows(rows.drop_last(), mode);
        out.insert(insert_pos(out, rows.last(), mode), rows.last())
    }
}

pub(crate) proof fn lemma_insert_pos(out: Seq<RepoStatus>, x: RepoStatus, mode: Sort)
    ensures
        0 <= insert_pos(out, x, mode) <= out.len(),
        forall|k: int| 0 <= k < insert_pos(out, x, mode) ==> !before(mode, x, #[trigger] out[k]),
        insert_pos(out, x, mode) < out.len() ==> before(mode, x, out[insert_pos(out, x, mode)]),
    decreases out.len(),
{
    if out.len() > 0 && !before(mode, x, out[0]) {
        lemma_insert_pos(out.drop_first(), x, mode);
        assert forall|k: int| 0 <= k < insert_pos(out, x, mode) implies !before(mode, x, #[trigger] out[k]) by {
            if k > 0 {
                assert(out[k] == out.drop_first()[k - 1]);
            }
        }
    }
}

/// The stable sort holds the same rows, in order.
pub proof fn lemma_sorted_rows(rows: Seq<RepoStatus>, mode: Sort)
    ensures
        sorted_rows(rows, mode).to_multiset() == rows.to_multiset(),
        sorted_rows(rows, mode).len() == rows.len(),
        sorted_by(sorted_rows(rows, mode), mode),
    decreases rows.len(),
{
    if rows.len() > 0 {
        let out = sorted_rows(rows.drop_last(), mode);
        let x = rows.last();
        lemma_sorted_rows(rows.drop_last(), mode);
        lemma_insert_pos(out, x, mode);
        let j = insert_pos(out, x, mode);
        lemma_insert_sorted(out, x, j, mode);
        assert(out.insert(j, x).remove(j) =~= out);
        assert(rows.drop_last().push(x) =~= rows);
        assert(out.insert(j, x).to_multiset() =~= out.to_multiset().insert(x));
    } else {
        assert(sorted_rows(rows, mode).to_multiset() =~= rows.to_multiset());
    }
}

/// Orders `rows` in place, stably. The result holds the same rows, and no
/// row comes after one it belongs ahead of.
pub fn sort_by(rows: &mut Vec<RepoStatus>, mode: Sort)
    ensures
        final(rows)@ == sorted_rows(old(rows)@, mode),
        final(rows)@.to_multiset() == old(rows)@.to_multiset(),
        sorted_by(final(rows)@, mode),
{
    let ghost orig = rows@;
    let mut out: Vec<RepoStatus> = Vec::new();
    let mut taken: usize = 0;
    let total = rows.len();
    while rows.len() > 0
        invariant
            total == orig.len(),
            taken + rows@.len() == orig.len(),
            rows@ == orig.skip(taken as int),
            out@ == sorted_rows(orig.take(taken as int), mode),
        decreases rows.len(),
    {
        let x = rows.remove(0);
        proof {
            lemma_insert_pos(out@, x, mode);
        }
        let mut j: usize = 0;
        while j < out.len() && !row_before(&x, &out[j], mode)
            invariant
                j <= out.len(),
                j <= insert_pos(out@, x, mode),
                forall|k: int| 0 <= k < insert_pos(out@, x, mode) ==> !before(mode, x, #[trigger] out@[k]),
                insert_pos(out@, x, mode) < out@.len() ==> before(mode, x, out@[insert_pos(out@, x, mode)]),
                0 <= insert_pos(out@, x, mode) <= out@.len(),
            decreases out.len() - j,
        {
            j += 1;
        }
        proof {
            assert(orig.take(taken + 1).drop_last() =~= orig.take(taken as int));
            assert(orig.take(taken + 1).last() == x);
        }
        out.insert(j, x);
        taken += 1;
        assert(rows@ =~= orig.skip(taken as int));
    }
    proof {
        assert(orig.take(taken as int) =~= orig);
        lemma_sorted_rows(orig, mode);
    }
    *rows = out;
}

/// Drifted first (by score), then most recently committed first, then name.
pub fn sort(rows: &mut Vec<RepoStatus>)
    ensures
        final(rows)@ == sorted_rows(old(rows)@, Sort::Drift),
        final(rows)@.to_multiset() == old(rows)@.to_multiset(),
        sorted_by(final(rows)@, Sort::Drift),
{
    sort_by(rows, Sort::Drift);
}

/// In the drift order, every drifted repository comes before every clean,
/// in-sync one.
pub proof fn law_drifted_rows_come_first(rows: Seq<RepoStatus>, i: int, j: int)
    requires
        sorted_by(rows, Sort::Drift),
        0 <= i < j < rows.len(),
        spec_is_drifted(rows[j]),
    ensures
        spec_is_drifted(rows[i]),
{
    assert(!before(Sort::Drift, rows[j], rows[i]));
}

/// Sorting by drift puts every drifted repository ahead of every clean one,
/// and loses or adds none.
pub proof fn law_sorting_by_drift_puts_the_drifted_first(rows: Seq<RepoStatus>)
    ensures
        sorted_rows(rows, Sort::Drift).to_multiset() == rows.to_multiset(),
        forall|i: int, j: int|
            0 <= i < j < sorted_rows(rows, Sort::Drift).len() && spec_is_drifted(
                #[trigger] sorted_rows(rows, Sort::Drift)[j],
            ) ==> spec_is_drifted(#[trigger] sorted_rows(rows, Sort::Drift)[i]),
{
    lemma_sorted_rows(rows, Sort::Drift);
    let s = sorted_rows(rows, Sort::Drift);
    assert forall|i: int, j: int| 0 <= i < j < s.len() && spec_is_drifted(#[trigger] s[j]) implies spec_is_drifted(
        #[trigger] s[i],
    ) by {
        law_drifted_rows_come_first(s, i, j);
    }
}

/// `a` was committed no earlier than `b`: a later time comes first, and a
/// repository with no commit comes after every one that has one.
pub open spec fn committed_no_earlier(a: Option<i64>, b: Option<i64>) -> bool {
    match (a, b) {
        (Some(x), Some(y)) => x >= y,
        (None, Some(_)) => false,
        _ => true,
    }
}

/// `a` was fetched no more recently than `b`: an older fetch comes first,
/// and a repository never fetched comes after every fetched one.
pub open spec fn fetched_no_later(a: Option<u64>, b: Option<u64>) -> bool {
    match (a, b) {
        (Some(x), Some(y)) => x >= y,
        (None, Some(_)) => false,
        _ => true,
    }
}

/// Each order, over the rows the sort returns: by drift, a row never scores
/// below one after it, and among equal scores the more recent commit comes
/// first; by name, names never go down; most recently committed first;
/// least recently fetched first.
pub proof fn law_each_order_sorts_by_its_measure(rows: Seq<RepoStatus>, i: int, j: int)
    requires
        0 <= i < j < rows.len(),
    ensures
        spec_score(sorted_rows(rows, Sort::Drift)[i]) >= spec_score(sorted_rows(rows, Sort::Drift)[j]),
        spec_score(sorted_rows(rows, Sort::Drift)[i]) == spec_score(sorted_rows(rows, Sort::Drift)[j])
            ==> committed_no_earlier(
            sorted_rows(rows, Sort::Drift)[i].last_commit_time,
            sorted_rows(rows, Sort::Drift)[j].last_commit_time,
        ),
        !seq_lt(sorted_rows(rows, Sort::Name)[j].display_name@, sorted_rows(rows, Sort::Name)[i].display_name@),
        committed_no_earlier(
            sorted_rows(rows, Sort::Recent)[i].last_commit_time,
            sorted_rows(rows, Sort::Recent)[j].last_commit_time,
        ),
        fetched_no_later(sorted_rows(rows, Sort::Stale)[i].fetch_age, sorted_rows(rows, Sort::Stale)[j].fetch_age),
{
    lemma_sorted_rows(rows, Sort::Drift);
    lemma_sorted_rows(rows, Sort::Name);
    lemma_sorted_rows(rows, Sort::Recent);
    lemma_sorted_rows(rows, Sort::Stale);
    let d = sorted_rows(rows, Sort::Drift);
    let n = sorted_rows(rows, Sort::Name);
    let r = sorted_rows(rows, Sort::Recent);
    let t = sorted_rows(rows, Sort::Stale);
    assert(!before(Sort::Drift, d[j], d[i]));
    assert(!before(Sort::Name, n[j], n[i]));
    assert(!before(Sort::Recent, r[j], r[i]));
    assert(!before(Sort::Stale, t[j], t[i]));
}

} // verus!
