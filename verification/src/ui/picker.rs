//! A bounded cursor over the rows of a popover.
use vstd::prelude::*;

verus! {

/// A bounded cursor over a list of rows. Which pane is open is what gives
/// the rows their meaning, so the cursor itself carries none.
#[derive(Debug, Clone, PartialEq, Eq)]
pub struct Picker {
    index: usize,
    len: usize,
}

/// `v` held between `lo` and `hi`.
pub open spec fn clamp_int(v: int, lo: int, hi: int) -> int {
    if v < lo {
        lo
    } else if v > hi {
        hi
    } else {
        v
    }
}

impl Picker {
    pub closed spec fn spec_index(self) -> nat {
        self.index as nat
    }

    pub closed spec fn spec_len(self) -> nat {
        self.len as nat
    }

    /// The cursor is on a row, or at 0 when there are none.
    pub closed spec fn wf(self) -> bool {
        if self.len == 0 {
            self.index == 0
        } else {
            self.index < self.len
        }
    }

    /// Opens on row `at`, or on the last row when `at` is past the end.
    pub fn open(len: usize, at: usize) -> (r: Picker)
        ensures
            r.wf(),
            r.spec_len() == len,
            r.spec_index() == (if len == 0 { 0 } else if at < len { at as int } else { len - 1 }),
    {
        let last = if len == 0 { 0 } else { len - 1 };
        Picker { index: if at < last { at } else { last }, len }
    }

    /// Moves by `delta` rows, stopping at either end; an empty picker has
    /// no cursor to move.
    pub fn move_by(&mut self, delta: isize)
        ensures
            old(self).wf() ==> final(self).wf(),
            final(self).spec_len() == old(self).spec_len(),
            old(self).spec_len() == 0 ==> final(self).spec_index() == old(self).spec_index(),
            old(self).spec_len() > 0 ==> final(self).spec_index() == clamp_int(
                old(self).spec_index() + delta,
                0,
                old(self).spec_len() - 1,
            ),
    {
        if self.len == 0 {
            return;
        }
        let max = (self.len - 1) as i128;
        let moved = self.index as i128 + delta as i128;
        let clamped = if moved < 0 {
            0
        } else if moved > max {
            max
        } else {
            moved
        };
        self.index = clamped as usize;
    }

    pub fn index(&self) -> (r: usize)
        ensures
            r == self.spec_index(),
    {
        self.index
    }

    pub fn len(&self) -> (r: usize)
        ensures
            r == self.spec_len(),
    {
        self.len
    }

    pub fn is_empty(&self) -> (r: bool)
        ensures
            r == (self.spec_len() == 0),
    {
        self.len == 0
    }
}

/// A cursor over some rows is on one of them, and wherever it is moved
/// (`move_by` keeps it well formed and clamps it so) it stays on one.
pub proof fn law_cursor_stays_on_a_row(p: Picker, delta: int)
    requires
        p.wf(),
        p.spec_len() > 0,
    ensures
        p.spec_index() < p.spec_len(),
        0 <= clamp_int(p.spec_index() + delta, 0, p.spec_len() - 1) < p.spec_len(),
{
}

} // verus!
