//! What the screen shows, apart from the drawing itself: the activity line,
//! the footer's hints, the spinner, the list's column widths, the bar of
//! incoming changes and where a popover sits.
use vstd::prelude::*;

use crate::actions::strings_view;
use crate::detail::{FileDelta, RepoDetail};
use crate::theme::Facet;
use crate::render::{
    cells_width, head_label, max_head_len, max_name_len, shorten_path, spec_shorten_path, spec_status_cells, status_width,
};
use crate::status::RepoStatus;
use crate::ui::picker::clamp_int;
use crate::text::{chars_of, decimal, decimal_string, owned, push_char, push_decimal, push_str, rfind_char, slice_chars, string_from};
use crate::ui::model::JobView;
use crate::ui::state::{jobs_view, Job};

verus! {

/// Narrower than this, the detail pane is dropped rather than squashed.
pub const DETAIL_MIN_WIDTH: u16 = 100;

/// Widest the incoming +/- bar is allowed to get.
pub const BAR_MAX: usize = 24;

// --- the activity line -------------------------------------------------

/// A job's progress: what it has done, out of how much when that is known.
pub open spec fn job_count(j: JobView) -> Seq<char> {
    if j.total == 0 {
        decimal(j.done)
    } else {
        decimal(j.done) + seq!['/'] + decimal(j.total)
    }
}

/// One line naming the first job in flight, with how many more there are;
/// nothing when the screen is current.
pub open spec fn spec_activity(jobs: Seq<JobView>, frame: char) -> Option<Seq<char>> {
    if jobs.len() == 0 {
        None
    } else {
        let extra = if jobs.len() == 1 {
            seq![]
        } else {
            seq![' ', '+'] + decimal((jobs.len() - 1) as nat)
        };
        Some(seq![frame, ' '] + jobs[0].label + seq![' '] + job_count(jobs[0]) + extra)
    }
}

pub fn activity(jobs: &[Job], frame: char) -> (r: Option<String>)
    ensures
        match r {
            Some(s) => spec_activity(jobs_view(jobs@), frame) == Some(s@),
            None => spec_activity(jobs_view(jobs@), frame) is None,
        },
{
    if jobs.len() == 0 {
        return None;
    }
    let first = &jobs[0];
    let ghost j = jobs_view(jobs@)[0];
    let mut out = String::new();
    push_char(&mut out, frame);
    push_char(&mut out, ' ');
    push_str(&mut out, first.label.as_str());
    push_char(&mut out, ' ');
    push_decimal(&mut out, first.done as u64);
    if first.total != 0 {
        push_char(&mut out, '/');
        push_decimal(&mut out, first.total as u64);
    }
    if jobs.len() != 1 {
        push_char(&mut out, ' ');
        push_char(&mut out, '+');
        push_decimal(&mut out, (jobs.len() - 1) as u64);
    }
    assert(out@ =~= spec_activity(jobs_view(jobs@), frame)->0);
    Some(out)
}

// --- the spinner -------------------------------------------------------

pub open spec fn spinner_glyphs() -> Seq<char> {
    seq!['⠋', '⠙', '⠹', '⠸', '⠼', '⠴', '⠦', '⠧', '⠇', '⠏']
}

/// The spinner's glyph after `elapsed_ms` milliseconds: a new one every
/// tenth of a second.
pub fn spinner_frame(elapsed_ms: u128) -> (r: char)
    ensures
        r == spinner_glyphs()[((elapsed_ms / 100) % 10) as int],
{
    let i = (elapsed_ms / 100) % 10;
    if i == 0 {
        '⠋'
    } else if i == 1 {
        '⠙'
    } else if i == 2 {
        '⠹'
    } else if i == 3 {
        '⠸'
    } else if i == 4 {
        '⠼'
    } else if i == 5 {
        '⠴'
    } else if i == 6 {
        '⠦'
    } else if i == 7 {
        '⠧'
    } else if i == 8 {
        '⠇'
    } else {
        '⠏'
    }
}

// --- popovers ----------------------------------------------------------

/// A rectangle of the screen, in cells.
#[derive(Debug, Clone, Copy, PartialEq, Eq, Structural)]
pub struct Area {
    pub x: u16,
    pub y: u16,
    pub width: u16,
    pub height: u16,
}

pub open spec fn min_u16(a: u16, b: u16) -> u16 {
    if a < b {
        a
    } else {
        b
    }
}

impl Area {
    /// Whether the cell at (`col`, `row`) lies inside.
    pub fn contains(&self, col: u16, row: u16) -> (r: bool)
        requires
            self.x + self.width <= u16::MAX,
            self.y + self.height <= u16::MAX,
        ensures
            r == (self.x <= col < self.x + self.width && self.y <= row < self.y + self.height),
    {
        col >= self.x && col < self.x + self.width && row >= self.y && row < self.y + self.height
    }
}

/// A box of `width` x `height`, centred in `area` and never larger than it.
pub fn centered(area: Area, width: u16, height: u16) -> (r: Area)
    requires
        area.x + (area.width - min_u16(width, area.width)) / 2 <= u16::MAX,
        area.y + (area.height - min_u16(height, area.height)) / 2 <= u16::MAX,
    ensures
        r.width == min_u16(width, area.width),
        r.height == min_u16(height, area.height),
        r.x == area.x + (area.width - r.width) / 2,
        r.y == area.y + (area.height - r.height) / 2,
{
    let w = if width < area.width {
        width
    } else {
        area.width
    };
    let h = if height < area.height {
        height
    } else {
        area.height
    };
    Area { x: area.x + (area.width - w) / 2, y: area.y + (area.height - h) / 2, width: w, height: h }
}

/// Repositories sitting directly in a root have no namespace to name.
pub fn namespace_label(name: &str) -> (r: &str)
    ensures
        name@.len() == 0 ==> r@ == "(root)"@,
        name@.len() > 0 ==> r@ == name@,
{
    if chars_of(name).len() == 0 {
        "(root)"
    } else {
        name
    }
}

// --- the incoming bar --------------------------------------------------

/// Cells the bar of a file with `total` changed lines takes, when the
/// widest file (`max` lines) fills `width`: at least one.
pub open spec fn bar_cells(total: int, width: int, max: int) -> int {
    let c = total * width / max;
    if c < 1 {
        1
    } else {
        c
    }
}

/// How many `+` and `-` cells a file's bar has. A file with no changed
/// lines, or a set with none, draws no bar.
pub open spec fn spec_stat_bar(added: int, removed: int, max: int, width: int) -> (int, int) {
    let total = added + removed;
    if total == 0 || max == 0 {
        (0, 0)
    } else {
        let cells = bar_cells(total, width, max);
        let plus = added * cells / total;
        (plus, cells - plus)
    }
}

/// The `+++---` bar of one file, as its two counts, scaled so the widest
/// file in the set (`max` lines) fills `width`.
pub fn stat_bar(d: &FileDelta, max: u32, width: usize) -> (r: (usize, usize))
    requires
        d.added + d.removed <= u32::MAX,
        (d.added + d.removed) * width <= usize::MAX,
        d.added + d.removed > 0 && max > 0 ==> d.added * bar_cells(d.added + d.removed, width as int, max as int)
            <= usize::MAX,
    ensures
        r.0 == spec_stat_bar(d.added as int, d.removed as int, max as int, width as int).0,
        r.1 == spec_stat_bar(d.added as int, d.removed as int, max as int, width as int).1,
{
    let total = d.added + d.removed;
    if total == 0 || max == 0 {
        return (0, 0);
    }
    let scaled = (total as usize * width) / max as usize;
    let cells = if scaled < 1 {
        1
    } else {
        scaled
    };
    assert(cells == bar_cells(total as int, width as int, max as int));
    let plus = (d.added as usize * cells) / total as usize;
    assert(plus <= cells) by (nonlinear_arith)
        requires
            plus == (d.added as int * cells) / total as int,
            d.added <= total,
            total > 0,
            cells >= 1,
    {
        assert(d.added as int * cells <= total as int * cells);
    }
    (plus, cells - plus)
}

// --- help and the footer -----------------------------------------------

/// Text pairs as character sequences.
pub open spec fn pairs_view(s: Seq<(&str, &str)>) -> Seq<(Seq<char>, Seq<char>)> {
    s.map_values(|p: (&str, &str)| (p.0@, p.1@))
}

pub open spec fn spec_help() -> Seq<(Seq<char>, Seq<char>)> {
    seq![
        ("↑↓ PgUp PgDn"@, "move"@),
        ("g / G"@, "first / last"@),
        ("n"@, "filter by namespace"@),
        ("o"@, "cycle sort: drift, name, recent, stale"@),
        ("Space"@, "mark / unmark (actions apply to marks)"@),
        ("V"@, "sweep the last mark's state to here"@),
        ("a"@, "mark all visible, or clear the marks"@),
        ("f / F"@, "fetch marked-or-current / fetch all"@),
        ("p"@, "pull --ff-only, marked-or-current"@),
        ("P"@, "prune gone branches (confirmed)"@),
        ("s / e"@, "shell / editor in repo"@),
        ("D"@, "diff HEAD...@{u} in your pager"@),
        ("L"@, "log of the incoming commits, in your pager"@),
        ("b"@, "switch branch on the current repo"@),
        ("S"@, "browse stashes: view, drop"@),
        ("x"@, "drop the selected stash (stash pane, confirmed)"@),
        ("J / K"@, "scroll the detail pane"@),
        ("wheel"@, "scroll the detail under the pointer, else the list"@),
        ("r"@, "rescan"@),
        ("d"@, "drifted only"@),
        ("/"@, "filter"@),
        ("!"@, "problems"@),
        ("?"@, "this help"@),
        ("Esc / q"@, "quit"@),
        ("Ctrl-C"@, "quit"@),
    ]
}

/// The list's keymap, in the help pane's order: each key group and what
/// it does.
pub fn help_rows() -> (r: Vec<(&'static str, &'static str)>)
    ensures
        pairs_view(r@) == spec_help(),
{
    let mut v: Vec<(&'static str, &'static str)> = Vec::new();
    v.push(("↑↓ PgUp PgDn", "move"));
    v.push(("g / G", "first / last"));
    v.push(("n", "filter by namespace"));
    v.push(("o", "cycle sort: drift, name, recent, stale"));
    v.push(("Space", "mark / unmark (actions apply to marks)"));
    v.push(("V", "sweep the last mark's state to here"));
    v.push(("a", "mark all visible, or clear the marks"));
    v.push(("f / F", "fetch marked-or-current / fetch all"));
    v.push(("p", "pull --ff-only, marked-or-current"));
    v.push(("P", "prune gone branches (confirmed)"));
    v.push(("s / e", "shell / editor in repo"));
    v.push(("D", "diff HEAD...@{u} in your pager"));
    v.push(("L", "log of the incoming commits, in your pager"));
    v.push(("b", "switch branch on the current repo"));
    v.push(("S", "browse stashes: view, drop"));
    v.push(("x", "drop the selected stash (stash pane, confirmed)"));
    v.push(("J / K", "scroll the detail pane"));
    v.push(("wheel", "scroll the detail under the pointer, else the list"));
    v.push(("r", "rescan"));
    v.push(("d", "drifted only"));
    v.push(("/", "filter"));
    v.push(("!", "problems"));
    v.push(("?", "this help"));
    v.push(("Esc / q", "quit"));
    v.push(("Ctrl-C", "quit"));
    assert(pairs_view(v@) =~= spec_help());
    v
}

pub open spec fn spec_hints() -> Seq<(Seq<char>, Seq<char>)> {
    seq![
        ("↑↓"@, "move"@),
        ("n"@, "namespace"@),
        ("o"@, "sort"@),
        ("Space"@, "mark"@),
        ("V"@, "range"@),
        ("a"@, "all"@),
        ("f"@, "fetch"@),
        ("p"@, "pull"@),
        ("P"@, "prune"@),
        ("D"@, "diff"@),
        ("L"@, "log"@),
        ("b"@, "branch"@),
        ("S"@, "stash"@),
        ("/"@, "filter"@),
    ]
}

/// Every binding worth a reminder in the footer, in the order they are
/// dropped when the terminal is too narrow to hold them all.
pub fn hint_rows() -> (r: Vec<(&'static str, &'static str)>)
    ensures
        pairs_view(r@) == spec_hints(),
{
    let mut v: Vec<(&'static str, &'static str)> = Vec::new();
    v.push(("↑↓", "move"));
    v.push(("n", "namespace"));
    v.push(("o", "sort"));
    v.push(("Space", "mark"));
    v.push(("V", "range"));
    v.push(("a", "all"));
    v.push(("f", "fetch"));
    v.push(("p", "pull"));
    v.push(("P", "prune"));
    v.push(("D", "diff"));
    v.push(("L", "log"));
    v.push(("b", "branch"));
    v.push(("S", "stash"));
    v.push(("/", "filter"));
    assert(pairs_view(v@) =~= spec_hints());
    v
}

/// Pinned at the end of the footer; never dropped for width.
pub const TAIL: &'static str = "? help  Esc quit";

/// A hint as the footer prints it: the key, a space, the label.
pub open spec fn hint_piece(h: (Seq<char>, Seq<char>)) -> Seq<char> {
    h.0 + seq![' '] + h.1
}

/// How many hints, from the front, fit in `width` beside the tail once
/// `used` cells are taken; each after the first costs a two-space gap.
pub open spec fn fit_count(hints: Seq<(Seq<char>, Seq<char>)>, width: int, used: int) -> nat
    decreases hints.len(),
{
    if hints.len() == 0 {
        0
    } else {
        let extra = hint_piece(hints[0]).len() + if used == 0 {
            0int
        } else {
            2int
        };
        if used + extra + 2 + TAIL@.len() > width {
            0
        } else {
            1 + fit_count(hints.drop_first(), width, used + extra)
        }
    }
}

/// Pieces joined by two spaces.
pub open spec fn join_gap(s: Seq<Seq<char>>) -> Seq<char>
    decreases s.len(),
{
    if s.len() == 0 {
        seq![]
    } else if s.len() == 1 {
        s[0]
    } else {
        join_gap(s.drop_last()) + seq![' ', ' '] + s.last()
    }
}

/// As many hints as fit, then help and quit, which are never dropped: a
/// narrow footer must still say how to get out and where the rest is.
pub open spec fn spec_footer(width: int) -> Seq<char> {
    let n = fit_count(spec_hints(), width, 0);
    let shown = spec_hints().take(n as int).map_values(|h: (Seq<char>, Seq<char>)| hint_piece(h));
    join_gap(shown) + (if n > 0 {
        seq![' ', ' ']
    } else {
        seq![]
    }) + TAIL@
}

pub fn footer_hints(width: usize) -> (r: String)
    ensures
        r@ == spec_footer(width as int),
{
    let hints = hint_rows();
    let ghost hv = spec_hints();
    let ghost pf = |h: (Seq<char>, Seq<char>)| hint_piece(h);
    let tail_len = chars_of(TAIL).len();
    let mut out = String::new();
    let mut used: usize = 0;
    let mut k: usize = 0;
    let mut stop = false;
    assert(hv.skip(0) =~= hv);
    assert(hv.take(0).map_values(pf) =~= seq![]);
    while !stop && k < hints.len()
        invariant
            hv == pairs_view(hints@),
            hv == spec_hints(),
            pf == (|h: (Seq<char>, Seq<char>)| hint_piece(h)),
            tail_len == TAIL@.len(),
            k <= hints@.len(),
            used <= width,
            k == 0 <==> used == 0,
            fit_count(hv, width as int, 0) == k + if stop {
                0
            } else {
                fit_count(hv.skip(k as int), width as int, used as int)
            },
            stop ==> fit_count(hv.skip(k as int), width as int, used as int) == 0,
            out@ == join_gap(hv.take(k as int).map_values(pf)),
        decreases hints@.len() - k + if stop { 0int } else { 1int },
    {
        let mut piece = owned(hints[k].0);
        push_char(&mut piece, ' ');
        push_str(&mut piece, hints[k].1);
        let plen = chars_of(piece.as_str()).len();
        assert(piece@ == hint_piece(hv[k as int]));
        let extra: u128 = plen as u128 + if used == 0 {
            0
        } else {
            2
        };
        let ghost rest = hv.skip(k as int);
        assert(rest[0] == hv[k as int]);
        assert(rest.drop_first() =~= hv.skip(k + 1));
        if used as u128 + extra + 2 + tail_len as u128 > width as u128 {
            stop = true;
        } else {
            let ghost before = out@;
            if used > 0 {
                push_char(&mut out, ' ');
                push_char(&mut out, ' ');
            }
            push_str(&mut out, piece.as_str());
            let ghost shown = hv.take(k + 1).map_values(pf);
            assert(shown.drop_last() =~= hv.take(k as int).map_values(pf));
            assert(shown.last() == piece@);
            assert(out@ =~= join_gap(shown));
            used = (used as u128 + extra) as usize;
            k += 1;
        }
    }
    if !stop {
        assert(hv.skip(k as int).len() == 0);
    }
    if used > 0 {
        push_char(&mut out, ' ');
        push_char(&mut out, ' ');
    }
    push_str(&mut out, TAIL);
    out
}

// --- the list's columns ------------------------------------------------

pub const CURSOR_W: usize = 1;
pub const MARK_W: usize = 2;
pub const GAP_W: usize = 2;
/// Branch names are shown whole. The cap only stops one pathological name
/// from swallowing the row.
pub const HEAD_MAX: usize = 60;
pub const STATUS_MAX: usize = 40;
pub const NAME_MIN: usize = 12;

/// Column widths for one frame, sized so the status column always lands
/// on screen: the name is elided to whatever is left over, never the
/// reverse.
#[derive(Debug, Clone, Copy, PartialEq, Eq, Structural)]
pub struct Cols {
    pub name: usize,
    pub head: usize,
    /// The band under the selected row has to reach the far edge.
    pub total: usize,
}

/// The rows behind a list of references.
pub open spec fn derefs(s: Seq<&RepoStatus>) -> Seq<RepoStatus> {
    s.map_values(|r: &RepoStatus| *r)
}

/// The widest status column among `rows`, or `dflt` for none.
pub open spec fn max_status_width(rows: Seq<RepoStatus>, dflt: int) -> int
    decreases rows.len(),
{
    if rows.len() == 0 {
        dflt
    } else if rows.len() == 1 {
        cells_width(spec_status_cells(rows[0]))
    } else {
        let m = max_status_width(rows.drop_last(), dflt);
        let l = cells_width(spec_status_cells(rows.last()));
        if l > m {
            l
        } else {
            m
        }
    }
}

pub open spec fn sat_sub(a: int, b: int) -> int {
    if a > b {
        a - b
    } else {
        0
    }
}

pub open spec fn min_int(a: int, b: int) -> int {
    if a < b {
        a
    } else {
        b
    }
}

/// Branch and status get their full width; the name absorbs the rest. When
/// that leaves the name under its floor, the name gets its floor out of the
/// branch column, which then elides.
pub open spec fn spec_measure(rows: Seq<RepoStatus>, inner: int) -> Cols {
    let head0 = clamp_int(max_head_len(rows, 6) as int, 1, HEAD_MAX as int);
    let status = min_int(max_status_width(rows, 2), STATUS_MAX as int);
    let longest = max_name_len(rows, NAME_MIN as nat) as int;
    let fixed = (CURSOR_W + MARK_W + GAP_W + GAP_W) as int + status;
    let name0 = min_int(longest, sat_sub(inner, fixed + head0));
    if name0 < NAME_MIN {
        let name = min_int(NAME_MIN as int, longest);
        Cols { name: name as usize, head: clamp_int(sat_sub(inner, fixed + name), 1, head0) as usize, total: inner as usize }
    } else {
        Cols { name: name0 as usize, head: head0 as usize, total: inner as usize }
    }
}

impl Cols {
    pub fn measure(rows: &[&RepoStatus], inner_width: usize) -> (r: Cols)
        ensures
            r == spec_measure(derefs(rows@), inner_width as int),
    {
        let ghost rs = derefs(rows@);
        let mut natural_head: usize = 6;
        let mut status: usize = 2;
        let mut longest: usize = NAME_MIN;
        let mut i: usize = 0;
        while i < rows.len()
            invariant
                i <= rows@.len(),
                rs == derefs(rows@),
                natural_head == max_head_len(rs.take(i as int), 6),
                status == max_status_width(rs.take(i as int), 2),
                longest == max_name_len(rs.take(i as int), NAME_MIN as nat),
            decreases rows.len() - i,
        {
            let r: &RepoStatus = rows[i];
            assert(rs.take(i + 1).drop_last() =~= rs.take(i as int));
            assert(rs.take(i + 1).last() == *r);
            let h = chars_of(head_label(r).as_str()).len();
            let w = status_width(r);
            let n = chars_of(r.display_name.as_str()).len();
            if i == 0 {
                natural_head = h;
                status = w;
                longest = n;
            } else {
                if h > natural_head {
                    natural_head = h;
                }
                if w > status {
                    status = w;
                }
                if n > longest {
                    longest = n;
                }
            }
            i += 1;
        }
        assert(rs.take(i as int) =~= rs);
        let status = if status < STATUS_MAX {
            status
        } else {
            STATUS_MAX
        };
        let mut head = if natural_head < 1 {
            1
        } else if natural_head > HEAD_MAX {
            HEAD_MAX
        } else {
            natural_head
        };
        let fixed = CURSOR_W + MARK_W + GAP_W + GAP_W + status;
        let room = if inner_width > fixed + head {
            inner_width - (fixed + head)
        } else {
            0
        };
        let mut name = if longest < room {
            longest
        } else {
            room
        };
        if name < NAME_MIN {
            name = if NAME_MIN < longest {
                NAME_MIN
            } else {
                longest
            };
            let left = if inner_width > fixed + name {
                inner_width - (fixed + name)
            } else {
                0
            };
            head = if left < 1 {
                1
            } else if left > head {
                head
            } else {
                left
            };
        }
        Cols { name, head, total: inner_width }
    }
}

// --- names, panes and the footer --------------------------------------------

/// A repository name as the list prints it, shortened to `width`, split
/// into its parent path (through the last `/`, dimmed on screen) and the
/// repository's own name, which the eye should land on.
pub fn name_parts(name: &str, width: usize) -> (r: (String, String))
    ensures
        r.0@ + r.1@ == spec_shorten_path(name@, width as nat),
        r.0@.len() == 0 || r.0@.last() == '/',
        forall|i: int| 0 <= i < r.1@.len() ==> r.1@[i] != '/',
{
    let text = shorten_path(name, width);
    let v = chars_of(text.as_str());
    match rfind_char(&v, '/') {
        Some(i) => {
            assert(i < v.len());
            let parent = slice_chars(&v, 0, i + 1);
            let base = slice_chars(&v, i + 1, v.len());
            assert(parent@ + base@ =~= v@);
            assert forall|k: int| 0 <= k < base@.len() implies base@[k] != '/' by {
                assert(base@[k] == v@[i + 1 + k]);
            }
            (string_from(&parent), string_from(&base))
        },
        None => (String::new(), text),
    }
}

/// The arrows a pane's title carries for the directions it can still
/// scroll, `scroll` lines down of at most `max`.
pub fn scroll_marks(scroll: u16, max: u16) -> (r: &'static str)
    ensures
        scroll > 0 && scroll < max ==> r@ == "▴▾ "@,
        scroll > 0 && scroll >= max ==> r@ == "▴ "@,
        scroll == 0 && scroll < max ==> r@ == "▾ "@,
        scroll == 0 && scroll >= max ==> r@ == ""@,
{
    if scroll > 0 && scroll < max {
        "▴▾ "
    } else if scroll > 0 {
        "▴ "
    } else if scroll < max {
        "▾ "
    } else {
        ""
    }
}

/// What the footer line shows.
#[derive(Debug, Clone, PartialEq, Eq)]
pub enum Footer {
    /// The filter being typed, echoed.
    Typing(String),
    /// A note: what is running and the toast, or the toast alone.
    Note(String),
    /// What is running, then as many key hints as still fit.
    NoteAndHints(String, String),
    /// Key hints alone.
    Hints(String),
}

pub open spec fn spec_footer_content(
    filter: Option<Seq<char>>,
    activity: Option<Seq<char>>,
    toast: Option<Seq<char>>,
    width: int,
) -> (int, Seq<char>, Seq<char>) {
    match filter {
        Some(f) => (0, f, seq![]),
        None => match activity {
            Some(a) => match toast {
                Some(t) => (1, a + seq![' ', ' '] + t, seq![]),
                None => (2, a + seq![' ', ' '], spec_footer(sat_sub(width, a.len() as int + 2))),
            },
            None => match toast {
                Some(t) => (1, t, seq![]),
                None => (3, seq![], spec_footer(width)),
            },
        },
    }
}

pub open spec fn footer_view(f: Footer) -> (int, Seq<char>, Seq<char>) {
    match f {
        Footer::Typing(s) => (0, s@, seq![]),
        Footer::Note(s) => (1, s@, seq![]),
        Footer::NoteAndHints(a, h) => (2, a@, h@),
        Footer::Hints(h) => (3, seq![], h@),
    }
}

/// The footer: the filter while it is typed; otherwise the work in flight,
/// with the toast if there is one (toasts land while jobs run, and must
/// not be swallowed) or else the hints that still fit; otherwise the toast;
/// otherwise the hints.
pub fn footer_content(filter: Option<&str>, activity: Option<String>, toast: Option<&str>, width: usize) -> (r: Footer)
    ensures
        footer_view(r) == spec_footer_content(
            match filter {
                Some(f) => Some(f@),
                None => None,
            },
            match activity {
                Some(a) => Some(a@),
                None => None,
            },
            match toast {
                Some(t) => Some(t@),
                None => None,
            },
            width as int,
        ),
{
    match filter {
        Some(f) => Footer::Typing(owned(f)),
        None => match activity {
            Some(a) => {
                let used = chars_of(a.as_str()).len() as u128 + 2;
                let mut note = a;
                push_char(&mut note, ' ');
                push_char(&mut note, ' ');
                match toast {
                    Some(t) => {
                        push_str(&mut note, t);
                        Footer::Note(note)
                    },
                    None => {
                        let rest = if (width as u128) > used {
                            (width as u128 - used) as usize
                        } else {
                            0
                        };
                        Footer::NoteAndHints(note, footer_hints(rest))
                    },
                }
            },
            None => match toast {
                Some(t) => Footer::Note(owned(t)),
                None => Footer::Hints(footer_hints(width)),
            },
        },
    }
}

/// The widest change among `files`, in lines; 0 for none.
pub open spec fn widest_change(files: Seq<FileDelta>) -> int
    decreases files.len(),
{
    if files.len() == 0 {
        0
    } else {
        let m = widest_change(files.drop_last());
        let l = files.last().added + files.last().removed;
        if l > m {
            l
        } else {
            m
        }
    }
}

/// The longest path among `files`, in characters; 0 for none.
pub open spec fn longest_path(files: Seq<FileDelta>) -> int
    decreases files.len(),
{
    if files.len() == 0 {
        0
    } else {
        let m = longest_path(files.drop_last());
        let l = files.last().path@.len() as int;
        if l > m {
            l
        } else {
            m
        }
    }
}

/// How the incoming files are laid out in a pane `pane_width` wide: the
/// widest change (which fills the bar), the width of its count, the bar's
/// width, and what is left for the paths.
pub open spec fn spec_incoming_layout(files: Seq<FileDelta>, pane_width: int) -> (int, int, int, int) {
    let max = widest_change(files);
    let count_w = decimal(max as nat).len() as int;
    let bar_w = min_int(BAR_MAX as int, sat_sub(pane_width, 28));
    let name_w = min_int(longest_path(files), sat_sub(pane_width, count_w + bar_w + 8));
    (max, count_w, bar_w, name_w)
}

pub fn incoming_layout(files: &Vec<FileDelta>, pane_width: u16) -> (r: (u32, usize, usize, usize))
    requires
        forall|i: int| 0 <= i < files@.len() ==> #[trigger] files@[i].added + files@[i].removed <= u32::MAX,
    ensures
        r.0 as int == spec_incoming_layout(files@, pane_width as int).0,
        r.1 as int == spec_incoming_layout(files@, pane_width as int).1,
        r.2 as int == spec_incoming_layout(files@, pane_width as int).2,
        r.3 as int == spec_incoming_layout(files@, pane_width as int).3,
{
    let mut max: u32 = 0;
    let mut longest: usize = 0;
    let mut i: usize = 0;
    while i < files.len()
        invariant
            i <= files@.len(),
            forall|k: int| 0 <= k < files@.len() ==> #[trigger] files@[k].added + files@[k].removed <= u32::MAX,
            max as int == widest_change(files@.take(i as int)),
            longest as int == longest_path(files@.take(i as int)),
        decreases files.len() - i,
    {
        assert(files@.take(i + 1).drop_last() =~= files@.take(i as int));
        assert(files@.take(i + 1).last() == files@[i as int]);
        let total = files[i].added + files[i].removed;
        if total > max {
            max = total;
        }
        let n = chars_of(files[i].path.as_str()).len();
        if n > longest {
            longest = n;
        }
        i += 1;
    }
    assert(files@.take(i as int) =~= files@);
    let count_w = chars_of(decimal_string(max as u64).as_str()).len();
    let width = pane_width as usize;
    let bar_w = if width > 28 {
        if width - 28 < BAR_MAX {
            width - 28
        } else {
            BAR_MAX
        }
    } else {
        0
    };
    let used = count_w as u128 + bar_w as u128 + 8;
    let room = if (width as u128) > used {
        (width as u128 - used) as usize
    } else {
        0
    };
    let name_w = if longest < room {
        longest
    } else {
        room
    };
    (max, count_w, bar_w, name_w)
}

// --- the confirmation and the detail pane's summaries ------------------

/// How many of an action's targets a confirmation lists by path.
pub const CONFIRM_LISTED: usize = 10;

/// The listing under a confirmation: each of the first targets indented,
/// then how many more there are when not all fit.
pub open spec fn spec_confirm_listing(targets: Seq<Seq<char>>) -> Seq<Seq<char>> {
    let n = targets.len();
    let shown = if n <= CONFIRM_LISTED { targets } else { targets.take(CONFIRM_LISTED as int) };
    let lines = shown.map_values(|p: Seq<char>| "  "@ + p);
    if n <= CONFIRM_LISTED {
        lines
    } else {
        lines.push("  \u{2026} and "@ + decimal((n - CONFIRM_LISTED) as nat) + " more"@)
    }
}

pub fn confirm_listing(targets: &Vec<String>) -> (r: Vec<String>)
    ensures
        strings_view(r@) == spec_confirm_listing(strings_view(targets@)),
{
    let ghost ts = strings_view(targets@);
    let n = targets.len();
    let shown = if n <= CONFIRM_LISTED {
        n
    } else {
        CONFIRM_LISTED
    };
    let ghost want = if n <= CONFIRM_LISTED { ts } else { ts.take(CONFIRM_LISTED as int) };
    let mut out: Vec<String> = Vec::new();
    let mut i: usize = 0;
    while i < shown
        invariant
            shown <= n == targets@.len() == ts.len(),
            ts == strings_view(targets@),
            want.len() == shown,
            forall|k: int| 0 <= k < shown ==> #[trigger] want[k] == ts[k],
            i <= shown,
            strings_view(out@) == want.take(i as int).map_values(|p: Seq<char>| "  "@ + p),
        decreases shown - i,
    {
        let mut line = owned("  ");
        push_str(&mut line, targets[i].as_str());
        assert(ts[i as int] == targets@[i as int]@);
        assert(line@ == "  "@ + want[i as int]);
        let ghost before = out@;
        out.push(line);
        assert(strings_view(out@) =~= strings_view(before).push(line@));
        assert(want.take(i + 1).map_values(|p: Seq<char>| "  "@ + p) =~= want.take(i as int).map_values(
            |p: Seq<char>| "  "@ + p,
        ).push("  "@ + want[i as int]));
        i += 1;
    }
    assert(want.take(shown as int) =~= want);
    if n > CONFIRM_LISTED {
        let mut more = owned("  \u{2026} and ");
        push_decimal(&mut more, (n - CONFIRM_LISTED) as u64);
        push_str(&mut more, " more");
        out.push(more);
        assert(strings_view(out@) =~= spec_confirm_listing(ts));
    } else {
        assert(want =~= ts);
        assert(strings_view(out@) =~= spec_confirm_listing(ts));
    }
    out
}

/// The last line of the incoming changes: how many files, and the lines
/// they add and remove in all.
pub open spec fn spec_incoming_summary(files: nat, added: nat, removed: nat) -> Seq<char> {
    "  "@ + decimal(files) + " file"@ + (if files == 1 { seq![] } else { seq!['s'] }) + ", "@ + decimal(added)
        + " insertions(+), "@ + decimal(removed) + " deletions(-)"@
}

pub fn incoming_summary(files: usize, added: u32, removed: u32) -> (r: String)
    ensures
        r@ == spec_incoming_summary(files as nat, added as nat, removed as nat),
{
    let mut s = owned("  ");
    push_decimal(&mut s, files as u64);
    push_str(&mut s, " file");
    if files != 1 {
        push_char(&mut s, 's');
    }
    push_str(&mut s, ", ");
    push_decimal(&mut s, added as u64);
    push_str(&mut s, " insertions(+), ");
    push_decimal(&mut s, removed as u64);
    push_str(&mut s, " deletions(-)");
    assert(s@ =~= spec_incoming_summary(files as nat, added as nat, removed as nat));
    s
}

/// When a repository was last fetched, in whole hours, from its age in
/// milliseconds.
pub open spec fn spec_fetch_age_label(age_ms: nat) -> Seq<char> {
    "last fetch: "@ + decimal(age_ms / 3_600_000) + "h ago"@
}

pub fn fetch_age_label(age_ms: u64) -> (r: String)
    ensures
        r@ == spec_fetch_age_label(age_ms as nat),
{
    let mut s = owned("last fetch: ");
    push_decimal(&mut s, age_ms / 3_600_000);
    push_str(&mut s, "h ago");
    s
}

// --- the detail pane's sections ---------------------------------------------

/// A part of the detail pane.
#[derive(Debug, Clone, Copy, PartialEq, Eq, Structural)]
pub enum DetailSection {
    Branches,
    Incoming,
    Stashes,
    Changes,
    Remotes,
    Recent,
}

/// The parts the detail pane shows, in order: the branches always, then
/// what is incoming when a pull would bring anything, then stashes, changed
/// files, remotes and recent commits, each only when there is one.
pub open spec fn spec_detail_sections(d: RepoDetail) -> Seq<DetailSection> {
    seq![DetailSection::Branches] + (if d.incoming is Some { seq![DetailSection::Incoming] } else { seq![] }) + (
    if d.stashes@.len() > 0 { seq![DetailSection::Stashes] } else { seq![] }) + (if d.changed_files@.len() > 0 {
        seq![DetailSection::Changes]
    } else {
        seq![]
    }) + (if d.remotes@.len() > 0 { seq![DetailSection::Remotes] } else { seq![] }) + (if d.recent@.len() > 0 {
        seq![DetailSection::Recent]
    } else {
        seq![]
    })
}

pub fn detail_sections(d: &RepoDetail) -> (r: Vec<DetailSection>)
    ensures
        r@ == spec_detail_sections(*d),
{
    let mut r: Vec<DetailSection> = Vec::new();
    r.push(DetailSection::Branches);
    if d.incoming.is_some() {
        r.push(DetailSection::Incoming);
    }
    if d.stashes.len() > 0 {
        r.push(DetailSection::Stashes);
    }
    if d.changed_files.len() > 0 {
        r.push(DetailSection::Changes);
    }
    if d.remotes.len() > 0 {
        r.push(DetailSection::Remotes);
    }
    if d.recent.len() > 0 {
        r.push(DetailSection::Recent);
    }
    assert(r@ =~= spec_detail_sections(*d));
    r
}

/// The marks after a branch's name: how far it is ahead (`↑n`) and behind
/// (`↓n`) its upstream, each only when not zero, and `⊘` when it has none.
pub open spec fn spec_branch_marks(ahead: nat, behind: nat, has_upstream: bool) -> Seq<(Facet, Seq<char>)> {
    (if ahead > 0 { seq![(Facet::Ahead, " \u{2191}"@ + decimal(ahead))] } else { seq![] }) + (if behind > 0 {
        seq![(Facet::Behind, " \u{2193}"@ + decimal(behind))]
    } else {
        seq![]
    }) + (if has_upstream { seq![] } else { seq![(Facet::NoUpstream, " \u{2298}"@)] })
}

pub open spec fn marks_view(s: Seq<(Facet, String)>) -> Seq<(Facet, Seq<char>)> {
    s.map_values(|m: (Facet, String)| (m.0, m.1@))
}

pub fn branch_marks(ahead: u32, behind: u32, has_upstream: bool) -> (r: Vec<(Facet, String)>)
    ensures
        marks_view(r@) == spec_branch_marks(ahead as nat, behind as nat, has_upstream),
{
    let mut r: Vec<(Facet, String)> = Vec::new();
    if ahead > 0 {
        let mut t = owned(" \u{2191}");
        push_decimal(&mut t, ahead as u64);
        r.push((Facet::Ahead, t));
    }
    if behind > 0 {
        let mut t = owned(" \u{2193}");
        push_decimal(&mut t, behind as u64);
        r.push((Facet::Behind, t));
    }
    if !has_upstream {
        r.push((Facet::NoUpstream, owned(" \u{2298}")));
    }
    assert(marks_view(r@) =~= spec_branch_marks(ahead as nat, behind as nat, has_upstream));
    r
}

} // verus!
