//! A scan: what it walks, and the results it gathers as they land.
use vstd::prelude::*;

use crate::config::Config;
use crate::discover::Problem;
use crate::drift::{sort, sorted_rows, sorted_by, Sort};
use crate::status::RepoStatus;
use crate::text::owned;

verus! {

#[derive(Debug, Clone)]
pub struct ScanOptions {
    pub roots: Vec<String>,
    pub prune: Vec<String>,
    pub threads: usize,
}

/// `num_cpus::get`: the number of CPUs this process may use, which its
/// documentation promises is always at least 1. The count is the
/// machine's, so nothing more is claimed.
#[verifier::external_body]
fn cpu_count() -> (r: usize)
    ensures
        r >= 1,
{
    num_cpus::get()
}

/// A copy of each string, as text.
fn copy_strings(v: &Vec<String>) -> (r: Vec<String>)
    ensures
        r@.len() == v@.len(),
        forall|i: int| 0 <= i < v@.len() ==> #[trigger] r@[i]@ == v@[i]@,
{
    let mut r: Vec<String> = Vec::new();
    let mut i: usize = 0;
    while i < v.len()
        invariant
            i <= v@.len(),
            r@.len() == i,
            forall|k: int| 0 <= k < i ==> #[trigger] r@[k]@ == v@[k]@,
        decreases v.len() - i,
    {
        r.push(owned(v[i].as_str()));
        i += 1;
    }
    r
}

impl ScanOptions {
    /// The configured roots and prune list, with one inspecting thread per
    /// CPU, `cpus` being the machine's count: never fewer than one thread.
    pub fn with_threads(cfg: &Config, cpus: usize) -> (r: ScanOptions)
        ensures
            r.roots@.len() == cfg.roots@.len(),
            forall|i: int| 0 <= i < cfg.roots@.len() ==> #[trigger] r.roots@[i]@ == cfg.roots@[i]@,
            r.prune@.len() == cfg.prune@.len(),
            forall|i: int| 0 <= i < cfg.prune@.len() ==> #[trigger] r.prune@[i]@ == cfg.prune@[i]@,
            r.threads == (if cpus < 1 { 1 } else { cpus }),
    {
        ScanOptions { roots: copy_strings(&cfg.roots), prune: copy_strings(&cfg.prune), threads: if cpus < 1 {
            1
        } else {
            cpus
        } }
    }

    /// The configured roots and prune list, with one inspecting thread per
    /// CPU of this machine.
    pub fn from_config(cfg: &Config) -> (r: ScanOptions)
        ensures
            r.roots@.len() == cfg.roots@.len(),
            forall|i: int| 0 <= i < cfg.roots@.len() ==> #[trigger] r.roots@[i]@ == cfg.roots@[i]@,
            r.prune@.len() == cfg.prune@.len(),
            forall|i: int| 0 <= i < cfg.prune@.len() ==> #[trigger] r.prune@[i]@ == cfg.prune@[i]@,
            r.threads >= 1,
    {
        let n = cpu_count();
        Self::with_threads(cfg, n)
    }
}

/// What a scan reports, one at a time.
#[derive(Debug)]
pub enum Event {
    Status(Box<RepoStatus>),
    Problem(Problem),
    Done,
}

/// The results of a scan so far, in the order they arrived.
pub struct Collected {
    rows: Vec<RepoStatus>,
    problems: Vec<Problem>,
    done: bool,
}

impl Collected {
    pub closed spec fn spec_rows(&self) -> Seq<RepoStatus> {
        self.rows@
    }

    pub closed spec fn spec_problems(&self) -> Seq<Problem> {
        self.problems@
    }

    /// Whether the scan has said it is over.
    pub closed spec fn spec_done(&self) -> bool {
        self.done
    }

    pub fn new() -> (r: Collected)
        ensures
            r.spec_rows().len() == 0,
            r.spec_problems().len() == 0,
            !r.spec_done(),
    {
        Collected { rows: Vec::new(), problems: Vec::new(), done: false }
    }

    /// Takes in one event; says whether to wait for more. Nothing counts
    /// after `Done`.
    pub fn absorb(&mut self, ev: Event) -> (more: bool)
        ensures
            more == !final(self).spec_done(),
            old(self).spec_done() ==> *final(self) == *old(self),
            !old(self).spec_done() ==> match ev {
                Event::Status(s) => final(self).spec_rows() == old(self).spec_rows().push(*s)
                    && final(self).spec_problems() == old(self).spec_problems() && !final(self).spec_done(),
                Event::Problem(p) => final(self).spec_rows() == old(self).spec_rows()
                    && final(self).spec_problems() == old(self).spec_problems().push(p) && !final(self).spec_done(),
                Event::Done => final(self).spec_rows() == old(self).spec_rows() && final(self).spec_problems()
                    == old(self).spec_problems() && final(self).spec_done(),
            },
    {
        if self.done {
            return false;
        }
        match ev {
            Event::Status(s) => self.rows.push(*s),
            Event::Problem(p) => self.problems.push(p),
            Event::Done => self.done = true,
        }
        !self.done
    }

    /// The rows, ordered by drift, and the problems in the order they came.
    pub fn finish(self) -> (r: (Vec<RepoStatus>, Vec<Problem>))
        ensures
            r.0@ == sorted_rows(self.spec_rows(), Sort::Drift),
            r.0@.to_multiset() == self.spec_rows().to_multiset(),
            sorted_by(r.0@, Sort::Drift),
            r.1@ == self.spec_problems(),
    {
        let mut rows = self.rows;
        sort(&mut rows);
        (rows, self.problems)
    }
}

} // verus!
