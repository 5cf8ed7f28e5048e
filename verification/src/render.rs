//! Text renderings of a repository's status: the glyph cells, the HEAD
//! label, path shortening and the aligned table.
use vstd::prelude::*;

use crate::drift::spec_is_drifted;
use crate::status::{Head, RepoStatus};
use crate::text::{
    chars_of, decimal, lemma_decimal_nonempty, owned, push_char, push_chars, push_decimal, push_str,
    rfind_char, slice_chars, string_from,
};
use crate::theme::{spec_ansi, spec_bold, spec_color, spec_glyph, spec_worst, worst, Facet, BOLD, RESET};

verus! {

/// A glyph followed by its count, e.g. `↑2`.
pub open spec fn counted_cell(f: Facet, n: u32) -> Seq<(Facet, Seq<char>)> {
    if n > 0 {
        seq![(f, seq![spec_glyph(f)] + decimal(n as nat))]
    } else {
        seq![]
    }
}

/// The counter column: one cell per present state, in a fixed order
/// (conflicts, ahead, behind, staged, unstaged, untracked, stashes, detached,
/// no upstream), or the clean glyph when none is present. An error replaces
/// everything with the error glyph.
pub open spec fn spec_status_cells(s: RepoStatus) -> Seq<(Facet, Seq<char>)> {
    if s.error is Some {
        seq![(Facet::Error, seq![spec_glyph(Facet::Error)])]
    } else {
        let counted = counted_cell(Facet::Conflict, s.conflicted) + counted_cell(Facet::Ahead, s.ahead)
            + counted_cell(Facet::Behind, s.behind) + counted_cell(Facet::Staged, s.staged)
            + counted_cell(Facet::Unstaged, s.unstaged) + counted_cell(Facet::Untracked, s.untracked)
            + counted_cell(Facet::Stashed, s.stash_count);
        let with_head = if s.head is Detached {
            counted.push((Facet::Detached, seq![spec_glyph(Facet::Detached)]))
        } else {
            counted
        };
        let all = if s.upstream is None && !(s.head is Unborn) {
            with_head.push((Facet::NoUpstream, seq![spec_glyph(Facet::NoUpstream)]))
        } else {
            with_head
        };
        if all.len() == 0 {
            seq![(Facet::Clean, seq![spec_glyph(Facet::Clean)])]
        } else {
            all
        }
    }
}

/// The cells as facets and plain character sequences.
pub open spec fn cells_view(v: Seq<(Facet, String)>) -> Seq<(Facet, Seq<char>)> {
    v.map_values(|p: (Facet, String)| (p.0, p.1@))
}

fn push_counted(cells: &mut Vec<(Facet, String)>, f: Facet, n: u32)
    ensures
        cells_view(final(cells)@) == cells_view(old(cells)@) + counted_cell(f, n),
{
    let ghost before = cells_view(cells@);
    if n > 0 {
        let mut text = String::new();
        push_char(&mut text, f.glyph());
        push_decimal(&mut text, n as u64);
        cells.push((f, text));
    }
    assert(cells_view(cells@) =~= before + counted_cell(f, n));
}

fn single_cell(f: Facet) -> (r: (Facet, String))
    ensures
        r.0 == f,
        r.1@ == seq![spec_glyph(f)],
{
    let mut text = String::new();
    push_char(&mut text, f.glyph());
    assert(text@ =~= seq![spec_glyph(f)]);
    (f, text)
}

pub fn status_cells(s: &RepoStatus) -> (r: Vec<(Facet, String)>)
    ensures
        cells_view(r@) == spec_status_cells(*s),
{
    let mut cells: Vec<(Facet, String)> = Vec::new();
    if s.error.is_some() {
        cells.push(single_cell(Facet::Error));
        assert(cells_view(cells@) =~= spec_status_cells(*s));
        return cells;
    }
    push_counted(&mut cells, Facet::Conflict, s.conflicted);
    push_counted(&mut cells, Facet::Ahead, s.ahead);
    push_counted(&mut cells, Facet::Behind, s.behind);
    push_counted(&mut cells, Facet::Staged, s.staged);
    push_counted(&mut cells, Facet::Unstaged, s.unstaged);
    push_counted(&mut cells, Facet::Untracked, s.untracked);
    push_counted(&mut cells, Facet::Stashed, s.stash_count);
    let ghost counted = cells_view(cells@);
    if matches!(s.head, Head::Detached(_)) {
        cells.push(single_cell(Facet::Detached));
    }
    let ghost with_head = cells_view(cells@);
    assert(with_head =~= if s.head is Detached {
        counted.push((Facet::Detached, seq![spec_glyph(Facet::Detached)]))
    } else {
        counted
    });
    if s.upstream.is_none() && !matches!(s.head, Head::Unborn) {
        cells.push(single_cell(Facet::NoUpstream));
    }
    let ghost all = cells_view(cells@);
    assert(all =~= if s.upstream is None && !(s.head is Unborn) {
        with_head.push((Facet::NoUpstream, seq![spec_glyph(Facet::NoUpstream)]))
    } else {
        with_head
    });
    if cells.len() == 0 {
        cells.push(single_cell(Facet::Clean));
        assert(cells_view(cells@) =~= seq![(Facet::Clean, seq![spec_glyph(Facet::Clean)])]);
    }
    cells
}

/// How HEAD reads in a row: the branch name, `(sha)` when detached,
/// `(unborn)` before the first commit.
pub open spec fn spec_head_label(s: RepoStatus) -> Seq<char> {
    match s.head {
        Head::Branch(b) => b@,
        Head::Detached(sha) => seq!['('] + sha@ + seq![')'],
        Head::Unborn => "(unborn)"@,
    }
}

pub fn head_label(s: &RepoStatus) -> (r: String)
    ensures
        r@ == spec_head_label(*s),
{
    match &s.head {
        Head::Branch(b) => owned(b.as_str()),
        Head::Detached(sha) => {
            let mut r = String::new();
            push_char(&mut r, '(');
            push_str(&mut r, sha.as_str());
            push_char(&mut r, ')');
            assert(r@ =~= seq!['('] + sha@ + seq![')']);
            r
        },
        Head::Unborn => owned("(unborn)"),
    }
}

/// `s` shortened to `width` characters, keeping the tail behind a leading
/// `…`: the repository name matters more than the namespace it sits in.
pub open spec fn spec_elide(s: Seq<char>, width: nat) -> Seq<char> {
    if s.len() <= width {
        s
    } else if width <= 1 {
        Seq::new(width, |_i: int| '…')
    } else {
        seq!['…'] + s.skip(s.len() - (width - 1))
    }
}

fn elide_chars(v: &Vec<char>, width: usize) -> (r: String)
    ensures
        r@ == spec_elide(v@, width as nat),
{
    let len = v.len();
    if len <= width {
        return string_from(v);
    }
    if width <= 1 {
        return crate::text::repeat_char('…', width);
    }
    let mut r = String::new();
    push_char(&mut r, '…');
    let tail = slice_chars(v, len - (width - 1), len);
    push_chars(&mut r, &tail);
    assert(v@.subrange(len - (width - 1), len as int) =~= v@.skip(len - (width - 1)));
    r
}

/// Shorten to `width`, keeping the tail.
pub fn elide(s: &str, width: usize) -> (r: String)
    ensures
        r@ == spec_elide(s@, width as nat),
{
    let v = chars_of(s);
    elide_chars(&v, width)
}

/// The end of the last whole `/`-terminated segment of `hs` that lies
/// within its first `n` characters (0 when there is none).
pub open spec fn boundary_within(hs: Seq<char>, n: int) -> int
    decreases n,
{
    if n <= 0 {
        0
    } else if hs[n - 1] == '/' {
        n
    } else {
        boundary_within(hs, n - 1)
    }
}

proof fn lemma_boundary_within(hs: Seq<char>, n: int)
    requires
        n <= hs.len(),
    ensures
        0 <= boundary_within(hs, n) <= if n < 0 { 0 } else { n },
    decreases n,
{
    if n > 0 && hs[n - 1] != '/' {
        lemma_boundary_within(hs, n - 1);
    }
}

/// Shorten `a/b/c/name` to `width` the way a shell prompt shortens a path:
/// leading segments stay while they fit, the middle collapses to `…`, and the
/// final segment (the repository name) is never truncated. With no `/` at
/// all, the tail is kept as `elide` keeps it.
pub open spec fn spec_shorten_path(path: Seq<char>, width: nat) -> Seq<char> {
    if path.len() <= width {
        path
    } else if !path.contains('/') {
        spec_elide(path, width)
    } else {
        let i = choose|i: int| 0 <= i < path.len() && path[i] == '/' && forall|j: int| i < j < path.len() ==> path[j] != '/';
        let last = path.skip(i + 1);
        if width < last.len() + 2 {
            seq!['…', '/'] + last
        } else {
            let budget = width - (last.len() + 2);
            let hs = path.take(i + 1);
            let n = if budget < i + 1 { budget } else { i + 1 };
            path.take(boundary_within(hs, n)) + seq!['…', '/'] + last
        }
    }
}

pub fn shorten_path(path: &str, width: usize) -> (r: String)
    ensures
        r@ == spec_shorten_path(path@, width as nat),
{
    let v = chars_of(path);
    if v.len() <= width {
        return owned(path);
    }
    match rfind_char(&v, '/') {
        None => {
            assert(!v@.contains('/'));
            elide_chars(&v, width)
        },
        Some(i) => {
            let ghost pick = choose|k: int| 0 <= k < v@.len() && v@[k] == '/' && forall|j: int| k < j < v@.len() ==> v@[j] != '/';
            assert(v@[i as int] == '/');
            assert(pick == i) by {
                if pick < i {
                    assert(v@[i as int] != '/');
                } else if pick > i {
                    assert(v@[pick] != '/');
                }
            }
            let last = slice_chars(&v, i + 1, v.len());
            assert(last@ =~= v@.skip(i + 1));
            if last.len() >= width || width - last.len() < 2 {
                let mut r = String::new();
                push_char(&mut r, '…');
                push_char(&mut r, '/');
                push_chars(&mut r, &last);
                assert(r@ =~= seq!['…', '/'] + last@);
                return r;
            }
            let budget = width - last.len() - 2;
            let n = if budget < i + 1 { budget } else { i + 1 };
            let mut k: usize = 0;
            let mut j: usize = 0;
            let ghost hs = v@.take(i + 1);
            while j < n
                invariant
                    j <= n,
                    n <= i + 1,
                    i < v@.len(),
                    hs == v@.take(i + 1),
                    k == boundary_within(hs, j as int),
                decreases n - j,
            {
                if v[j] == '/' {
                    k = j + 1;
                }
                j += 1;
            }
            proof {
                lemma_boundary_within(hs, n as int);
            }
            let kept = slice_chars(&v, 0, k);
            let mut r = string_from(&kept);
            push_char(&mut r, '…');
            push_char(&mut r, '/');
            push_chars(&mut r, &last);
            assert(kept@ =~= v@.take(k as int));
            assert(r@ =~= v@.take(k as int) + seq!['…', '/'] + last@);
            r
        },
    }
}

/// Characters a cell's text occupies, plus the gap after it.
pub open spec fn cells_width(cells: Seq<(Facet, Seq<char>)>) -> int
    decreases cells.len(),
{
    if cells.len() == 0 {
        0
    } else {
        cells_width(cells.drop_last()) + cells.last().1.len() + 1
    }
}

proof fn lemma_cell_text_short(f: Facet, n: u32)
    ensures
        forall|k: int| 0 <= k < counted_cell(f, n).len() ==> #[trigger] counted_cell(f, n)[k].1.len() <= 12,
{
    if n > 0 {
        lemma_decimal_short(n as nat);
    }
}

proof fn lemma_decimal_short(n: nat)
    requires
        n <= u32::MAX,
    ensures
        decimal(n).len() <= 10,
{
    lemma_decimal_len(n);
}

proof fn lemma_decimal_len(n: nat)
    ensures
        n < 10 ==> decimal(n).len() == 1,
        n < 100 ==> decimal(n).len() <= 2,
        n < 1000 ==> decimal(n).len() <= 3,
        n < 10000 ==> decimal(n).len() <= 4,
        n < 100000 ==> decimal(n).len() <= 5,
        n < 1000000 ==> decimal(n).len() <= 6,
        n < 10000000 ==> decimal(n).len() <= 7,
        n < 100000000 ==> decimal(n).len() <= 8,
        n < 1000000000 ==> decimal(n).len() <= 9,
        n < 10000000000 ==> decimal(n).len() <= 10,
    decreases n,
{
    if n >= 10 {
        lemma_decimal_len(n / 10);
    }
}

proof fn lemma_status_cells_short(s: RepoStatus)
    ensures
        spec_status_cells(s).len() <= 9,
        forall|k: int| 0 <= k < spec_status_cells(s).len() ==> #[trigger] spec_status_cells(s)[k].1.len() <= 12,
{
    lemma_cell_text_short(Facet::Conflict, s.conflicted);
    lemma_cell_text_short(Facet::Ahead, s.ahead);
    lemma_cell_text_short(Facet::Behind, s.behind);
    lemma_cell_text_short(Facet::Staged, s.staged);
    lemma_cell_text_short(Facet::Unstaged, s.unstaged);
    lemma_cell_text_short(Facet::Untracked, s.untracked);
    lemma_cell_text_short(Facet::Stashed, s.stash_count);
    let c = spec_status_cells(s);
    assert forall|k: int| 0 <= k < c.len() implies #[trigger] c[k].1.len() <= 12 by {
        if s.error is None {
            let a = counted_cell(Facet::Conflict, s.conflicted);
            let b = counted_cell(Facet::Ahead, s.ahead);
            let cc = counted_cell(Facet::Behind, s.behind);
            let d = counted_cell(Facet::Staged, s.staged);
            let e = counted_cell(Facet::Unstaged, s.unstaged);
            let f = counted_cell(Facet::Untracked, s.untracked);
            let g = counted_cell(Facet::Stashed, s.stash_count);
            let all = a + b + cc + d + e + f + g;
            assert forall|m: int| 0 <= m < all.len() implies #[trigger] all[m].1.len() <= 12 by {
                if m < a.len() {
                    assert(all[m] == a[m]);
                } else if m < a.len() + b.len() {
                    assert(all[m] == b[m - a.len()]);
                } else if m < a.len() + b.len() + cc.len() {
                    assert(all[m] == cc[m - a.len() - b.len()]);
                } else if m < a.len() + b.len() + cc.len() + d.len() {
                    assert(all[m] == d[m - a.len() - b.len() - cc.len()]);
                } else if m < a.len() + b.len() + cc.len() + d.len() + e.len() {
                    assert(all[m] == e[m - a.len() - b.len() - cc.len() - d.len()]);
                } else if m < a.len() + b.len() + cc.len() + d.len() + e.len() + f.len() {
                    assert(all[m] == f[m - a.len() - b.len() - cc.len() - d.len() - e.len()]);
                } else {
                    assert(all[m] == g[m - a.len() - b.len() - cc.len() - d.len() - e.len() - f.len()]);
                }
            }
            if k < all.len() {
                assert(c[k] == all[k]);
            }
        }
    }
}

/// The width the status column occupies once rendered, trailing gap included.
pub fn status_width(s: &RepoStatus) -> (r: usize)
    ensures
        r == cells_width(spec_status_cells(*s)),
{
    let cells = status_cells(s);
    proof {
        lemma_status_cells_short(*s);
    }
    let mut total: usize = 0;
    let mut i: usize = 0;
    while i < cells.len()
        invariant
            i <= cells@.len(),
            cells_view(cells@) == spec_status_cells(*s),
            cells@.len() <= 9,
            forall|k: int| 0 <= k < cells@.len() ==> #[trigger] cells_view(cells@)[k].1.len() <= 12,
            total == cells_width(cells_view(cells@).take(i as int)),
            total <= 13 * i,
        decreases cells.len() - i,
    {
        let n = chars_of(cells[i].1.as_str()).len();
        assert(cells_view(cells@)[i as int].1 == cells@[i as int].1@);
        assert(cells_view(cells@).take(i + 1).drop_last() =~= cells_view(cells@).take(i as int));
        total = total + n + 1;
        i += 1;
    }
    assert(cells_view(cells@).take(i as int) =~= cells_view(cells@));
    total
}

/// `text` in its facet's colour (bold for errors and conflicts), closed with
/// a reset; unchanged when not colouring.
pub open spec fn spec_paint(text: Seq<char>, facet: Facet, colorize: bool) -> Seq<char> {
    if !colorize {
        text
    } else {
        (if spec_bold(facet) { BOLD@ } else { seq![] }) + spec_ansi(spec_color(facet)) + text + RESET@
    }
}

fn paint(text: &str, facet: Facet, colorize: bool) -> (r: String)
    ensures
        r@ == spec_paint(text@, facet, colorize),
{
    if !colorize {
        return owned(text);
    }
    let mut r = String::new();
    if facet.bold() {
        push_str(&mut r, BOLD);
    }
    push_str(&mut r, facet.color().ansi());
    push_str(&mut r, text);
    push_str(&mut r, RESET);
    assert(r@ =~= spec_paint(text@, facet, colorize));
    r
}

/// `s` padded with spaces to at least `width` characters.
pub open spec fn spec_pad(s: Seq<char>, width: nat) -> Seq<char> {
    if s.len() >= width {
        s
    } else {
        s + Seq::new((width - s.len()) as nat, |_i: int| ' ')
    }
}

fn pad(s: &str, width: usize) -> (r: String)
    ensures
        r@ == spec_pad(s@, width as nat),
{
    let len = chars_of(s).len();
    if len >= width {
        owned(s)
    } else {
        let mut r = owned(s);
        let spaces = crate::text::repeat_char(' ', width - len);
        push_str(&mut r, spaces.as_str());
        r
    }
}

/// The painted cells, separated by single spaces.
pub open spec fn joined_cells(cells: Seq<(Facet, Seq<char>)>, colorize: bool) -> Seq<char>
    decreases cells.len(),
{
    if cells.len() == 0 {
        seq![]
    } else if cells.len() == 1 {
        spec_paint(cells[0].1, cells[0].0, colorize)
    } else {
        joined_cells(cells.drop_last(), colorize) + seq![' '] + spec_paint(cells.last().1, cells.last().0, colorize)
    }
}

/// One table row: the name (coloured by the worst facet) padded to the name
/// column, two spaces, the HEAD label padded to the head column, two spaces,
/// the cells, then the error text if there is one, and a newline.
pub open spec fn plain_line(r: RepoStatus, name_w: nat, head_w: nat, colorize: bool) -> Seq<char> {
    spec_paint(spec_pad(r.display_name@, name_w), spec_worst(r), colorize) + seq![' ', ' ']
        + spec_pad(spec_head_label(r), head_w) + seq![' ', ' ']
        + joined_cells(spec_status_cells(r), colorize)
        + (match r.error {
        Some(e) => seq![' ', ' '] + spec_paint(e@, Facet::Error, colorize),
        None => seq![],
    }) + seq!['\n']
}

pub open spec fn plain_lines(rows: Seq<RepoStatus>, name_w: nat, head_w: nat, colorize: bool) -> Seq<char>
    decreases rows.len(),
{
    if rows.len() == 0 {
        seq![]
    } else {
        plain_lines(rows.drop_last(), name_w, head_w, colorize) + plain_line(rows.last(), name_w, head_w, colorize)
    }
}

/// The longest display name, in characters; `dflt` for no rows.
pub open spec fn max_name_len(rows: Seq<RepoStatus>, dflt: nat) -> nat
    decreases rows.len(),
{
    if rows.len() == 0 {
        dflt
    } else if rows.len() == 1 {
        rows[0].display_name@.len()
    } else {
        let m = max_name_len(rows.drop_last(), dflt);
        let l = rows.last().display_name@.len();
        if l > m { l } else { m }
    }
}

/// The longest HEAD label, in characters; `dflt` for no rows.
pub open spec fn max_head_len(rows: Seq<RepoStatus>, dflt: nat) -> nat
    decreases rows.len(),
{
    if rows.len() == 0 {
        dflt
    } else if rows.len() == 1 {
        spec_head_label(rows[0]).len()
    } else {
        let m = max_head_len(rows.drop_last(), dflt);
        let l = spec_head_label(rows.last()).len();
        if l > m { l } else { m }
    }
}

/// The aligned table: the name column is as wide as the longest name, the
/// head column as wide as the longest HEAD label but never over 30.
pub open spec fn spec_plain(rows: Seq<RepoStatus>, colorize: bool) -> Seq<char> {
    let name_w = max_name_len(rows, 4);
    let head_w = if max_head_len(rows, 6) < 30 { max_head_len(rows, 6) } else { 30 };
    plain_lines(rows, name_w, head_w, colorize)
}

fn joined(cells: &Vec<(Facet, String)>, colorize: bool) -> (r: String)
    ensures
        r@ == joined_cells(cells_view(cells@), colorize),
{
    let mut r = String::new();
    let mut i: usize = 0;
    while i < cells.len()
        invariant
            i <= cells@.len(),
            r@ == joined_cells(cells_view(cells@).take(i as int), colorize),
        decreases cells.len() - i,
    {
        let ghost prev = cells_view(cells@).take(i as int);
        if i > 0 {
            push_char(&mut r, ' ');
        }
        let p = paint(cells[i].1.as_str(), cells[i].0, colorize);
        push_str(&mut r, p.as_str());
        assert(cells_view(cells@).take(i + 1).drop_last() =~= prev);
        assert(cells_view(cells@).take(i + 1).last() == cells_view(cells@)[i as int]);
        if i == 0 {
            assert(cells_view(cells@).take(1)[0] == cells_view(cells@)[0]);
            assert(r@ =~= joined_cells(cells_view(cells@).take(i + 1), colorize));
        } else {
            assert(r@ =~= joined_cells(cells_view(cells@).take(i + 1), colorize));
        }
        i += 1;
    }
    assert(cells_view(cells@).take(i as int) =~= cells_view(cells@));
    r
}

fn plain_row(r: &RepoStatus, name_w: usize, head_w: usize, colorize: bool) -> (out: String)
    ensures
        out@ == plain_line(*r, name_w as nat, head_w as nat, colorize),
{
    let name = pad(r.display_name.as_str(), name_w);
    let mut out = paint(name.as_str(), worst(r), colorize);
    let ghost p1 = out@;
    push_char(&mut out, ' ');
    push_char(&mut out, ' ');
    let label = head_label(r);
    let head = pad(label.as_str(), head_w);
    push_str(&mut out, head.as_str());
    push_char(&mut out, ' ');
    push_char(&mut out, ' ');
    let ghost p2 = out@;
    assert(p2 =~= p1 + seq![' ', ' '] + spec_pad(spec_head_label(*r), head_w as nat) + seq![' ', ' ']);
    let cells = status_cells(r);
    let j = joined(&cells, colorize);
    push_str(&mut out, j.as_str());
    let ghost p3 = out@;
    assert(p3 == p2 + joined_cells(spec_status_cells(*r), colorize));
    let ghost tail: Seq<char> = if r.error is Some {
        seq![' ', ' '] + spec_paint(r.error->0@, Facet::Error, colorize)
    } else {
        seq![]
    };
    match &r.error {
        Some(e) => {
            push_char(&mut out, ' ');
            push_char(&mut out, ' ');
            let pe = paint(e.as_str(), Facet::Error, colorize);
            push_str(&mut out, pe.as_str());
            assert(out@ =~= p3 + tail);
        },
        None => {
            assert(out@ =~= p3 + tail);
        },
    }
    push_char(&mut out, '\n');
    assert(out@ =~= p3 + tail + seq!['\n']);
    assert(out@ =~= plain_line(*r, name_w as nat, head_w as nat, colorize));
    out
}

/// An aligned table, one line per row. Column widths adapt to the content.
pub fn plain(rows: &Vec<RepoStatus>, colorize: bool) -> (out: String)
    ensures
        out@ == spec_plain(rows@, colorize),
{
    let mut name_w: usize = 4;
    let mut head_w: usize = 6;
    let mut i: usize = 0;
    while i < rows.len()
        invariant
            i <= rows@.len(),
            name_w == max_name_len(rows@.take(i as int), 4),
            head_w == max_head_len(rows@.take(i as int), 6),
        decreases rows.len() - i,
    {
        let n = chars_of(rows[i].display_name.as_str()).len();
        let h = chars_of(head_label(&rows[i]).as_str()).len();
        assert(rows@.take(i + 1).drop_last() =~= rows@.take(i as int));
        if i == 0 || n > name_w {
            name_w = n;
        }
        if i == 0 || h > head_w {
            head_w = h;
        }
        i += 1;
    }
    assert(rows@.take(i as int) =~= rows@);
    if head_w > 30 {
        head_w = 30;
    }
    let mut out = String::new();
    let mut i: usize = 0;
    while i < rows.len()
        invariant
            i <= rows@.len(),
            out@ == plain_lines(rows@.take(i as int), name_w as nat, head_w as nat, colorize),
        decreases rows.len() - i,
    {
        let line = plain_row(&rows[i], name_w, head_w, colorize);
        push_str(&mut out, line.as_str());
        proof {
            assert(rows@.take(i + 1).drop_last() =~= rows@.take(i as int));
            assert(rows@.take(i + 1).last() == rows@[i as int]);
            assert(out@ =~= plain_lines(rows@.take(i + 1), name_w as nat, head_w as nat, colorize));
        }
        i += 1;
    }
    assert(rows@.take(i as int) =~= rows@);
    out
}

/// The cells present for a status without error, before the clean glyph
/// stands in for an empty column.
spec fn present_cells(s: RepoStatus) -> Seq<(Facet, Seq<char>)> {
    let counted = counted_cell(Facet::Conflict, s.conflicted) + counted_cell(Facet::Ahead, s.ahead)
        + counted_cell(Facet::Behind, s.behind) + counted_cell(Facet::Staged, s.staged)
        + counted_cell(Facet::Unstaged, s.unstaged) + counted_cell(Facet::Untracked, s.untracked)
        + counted_cell(Facet::Stashed, s.stash_count);
    let with_head = if s.head is Detached {
        counted.push((Facet::Detached, seq![spec_glyph(Facet::Detached)]))
    } else {
        counted
    };
    if s.upstream is None && !(s.head is Unborn) {
        with_head.push((Facet::NoUpstream, seq![spec_glyph(Facet::NoUpstream)]))
    } else {
        with_head
    }
}

proof fn lemma_present_cells(s: RepoStatus)
    requires
        s.error is None,
    ensures
        spec_status_cells(s) == (if present_cells(s).len() == 0 {
            seq![(Facet::Clean, seq![spec_glyph(Facet::Clean)])]
        } else {
            present_cells(s)
        }),
        forall|k: int| 0 <= k < present_cells(s).len() ==> (#[trigger] present_cells(s)[k]).0 != Facet::Clean,
        present_cells(s).len() == 0 <==> (s.conflicted == 0 && s.ahead == 0 && s.behind == 0 && s.staged == 0
            && s.unstaged == 0 && s.untracked == 0 && s.stash_count == 0 && !(s.head is Detached) && !(
        s.upstream is None && !(s.head is Unborn))),
{
    let c1 = counted_cell(Facet::Conflict, s.conflicted);
    let c2 = counted_cell(Facet::Ahead, s.ahead);
    let c3 = counted_cell(Facet::Behind, s.behind);
    let c4 = counted_cell(Facet::Staged, s.staged);
    let c5 = counted_cell(Facet::Unstaged, s.unstaged);
    let c6 = counted_cell(Facet::Untracked, s.untracked);
    let c7 = counted_cell(Facet::Stashed, s.stash_count);
    let counted = c1 + c2 + c3 + c4 + c5 + c6 + c7;
    assert forall|k: int| 0 <= k < counted.len() implies (#[trigger] counted[k]).0 != Facet::Clean by {
        let o2 = c1.len() as int;
        let o3 = o2 + c2.len();
        let o4 = o3 + c3.len();
        let o5 = o4 + c4.len();
        let o6 = o5 + c5.len();
        let o7 = o6 + c6.len();
        if k < o2 {
            assert(counted[k] == c1[k]);
        } else if k < o3 {
            assert(counted[k] == c2[k - o2]);
        } else if k < o4 {
            assert(counted[k] == c3[k - o3]);
        } else if k < o5 {
            assert(counted[k] == c4[k - o4]);
        } else if k < o6 {
            assert(counted[k] == c5[k - o5]);
        } else if k < o7 {
            assert(counted[k] == c6[k - o6]);
        } else {
            assert(counted[k] == c7[k - o7]);
        }
    }
    let p = present_cells(s);
    assert forall|k: int| 0 <= k < p.len() implies (#[trigger] p[k]).0 != Facet::Clean by {
        if k < counted.len() {
            let with_head = if s.head is Detached {
                counted.push((Facet::Detached, seq![spec_glyph(Facet::Detached)]))
            } else {
                counted
            };
            assert(with_head[k] == counted[k]);
        }
    }
}

/// The status column shows every count that is not zero, each as its glyph
/// and the count (`✖3` for three conflicted files, `↑2`, `↓1`, `✚`, `●`,
/// `?`, `⚑`), and marks a detached HEAD (`⌀`) and a missing upstream
/// (`⊘`).
#[verifier::rlimit(50)]
pub proof fn law_status_cells_show_every_count(s: RepoStatus)
    requires
        s.error is None,
    ensures
        s.conflicted > 0 ==> spec_status_cells(s).contains(
            (Facet::Conflict, seq!['\u{2716}'] + decimal(s.conflicted as nat)),
        ),
        s.ahead > 0 ==> spec_status_cells(s).contains((Facet::Ahead, seq!['\u{2191}'] + decimal(s.ahead as nat))),
        s.behind > 0 ==> spec_status_cells(s).contains((Facet::Behind, seq!['\u{2193}'] + decimal(s.behind as nat))),
        s.staged > 0 ==> spec_status_cells(s).contains((Facet::Staged, seq!['\u{271a}'] + decimal(s.staged as nat))),
        s.unstaged > 0 ==> spec_status_cells(s).contains(
            (Facet::Unstaged, seq!['\u{25cf}'] + decimal(s.unstaged as nat)),
        ),
        s.untracked > 0 ==> spec_status_cells(s).contains((Facet::Untracked, seq!['?'] + decimal(s.untracked as nat))),
        s.stash_count > 0 ==> spec_status_cells(s).contains(
            (Facet::Stashed, seq!['\u{2691}'] + decimal(s.stash_count as nat)),
        ),
        s.head is Detached ==> spec_status_cells(s).contains((Facet::Detached, seq!['\u{2300}'])),
        s.upstream is None && !(s.head is Unborn) ==> spec_status_cells(s).contains(
            (Facet::NoUpstream, seq!['\u{2298}']),
        ),
{
    lemma_present_cells(s);
    let c1 = counted_cell(Facet::Conflict, s.conflicted);
    let c2 = counted_cell(Facet::Ahead, s.ahead);
    let c3 = counted_cell(Facet::Behind, s.behind);
    let c4 = counted_cell(Facet::Staged, s.staged);
    let c5 = counted_cell(Facet::Unstaged, s.unstaged);
    let c6 = counted_cell(Facet::Untracked, s.untracked);
    let c7 = counted_cell(Facet::Stashed, s.stash_count);
    let counted = c1 + c2 + c3 + c4 + c5 + c6 + c7;
    let with_head = if s.head is Detached {
        counted.push((Facet::Detached, seq![spec_glyph(Facet::Detached)]))
    } else {
        counted
    };
    let all = present_cells(s);
    assert forall|k: int| 0 <= k < counted.len() implies #[trigger] all[k] == counted[k] by {
        assert(with_head[k] == counted[k]);
    }
    let o2 = c1.len() as int;
    let o3 = o2 + c2.len();
    let o4 = o3 + c3.len();
    let o5 = o4 + c4.len();
    let o6 = o5 + c5.len();
    let o7 = o6 + c6.len();
    if s.conflicted > 0 {
        assert(all[0] == c1[0]);
    }
    if s.ahead > 0 {
        assert(counted[o2] == c2[0]);
        assert(all[o2] == c2[0]);
    }
    if s.behind > 0 {
        assert(counted[o3] == c3[0]);
        assert(all[o3] == c3[0]);
    }
    if s.staged > 0 {
        assert(counted[o4] == c4[0]);
        assert(all[o4] == c4[0]);
    }
    if s.unstaged > 0 {
        assert(counted[o5] == c5[0]);
        assert(all[o5] == c5[0]);
    }
    if s.untracked > 0 {
        assert(counted[o6] == c6[0]);
        assert(all[o6] == c6[0]);
    }
    if s.stash_count > 0 {
        assert(counted[o7] == c7[0]);
        assert(all[o7] == c7[0]);
    }
    if s.head is Detached {
        assert(all[counted.len() as int] == with_head[counted.len() as int]);
    }
    if s.upstream is None && !(s.head is Unborn) {
        assert(all[with_head.len() as int] == (Facet::NoUpstream, seq![spec_glyph(Facet::NoUpstream)]));
    }
}

/// The status column is the lone `✔` exactly when there is nothing to
/// report: no error, no count above zero, HEAD on a branch or unborn, and an
/// upstream for a branch; that is, exactly when the repository has not
/// drifted. An error stands alone as `!`.
pub proof fn law_status_cells_are_clean_only_when_nothing_to_report(s: RepoStatus)
    ensures
        s.error is Some ==> spec_status_cells(s) == seq![(Facet::Error, seq!['!'])],
        (spec_status_cells(s) == seq![(Facet::Clean, seq!['\u{2714}'])]) <==> (s.error is None && s.conflicted == 0
            && s.ahead == 0 && s.behind == 0 && s.staged == 0 && s.unstaged == 0 && s.untracked == 0
            && s.stash_count == 0 && !(s.head is Detached) && !(s.upstream is None && !(s.head is Unborn))),
        (spec_status_cells(s) == seq![(Facet::Clean, seq!['\u{2714}'])]) <==> !spec_is_drifted(s),
{
    let clean = seq![(Facet::Clean, seq!['\u{2714}'])];
    assert(clean[0].0 == Facet::Clean);
    if s.error is None {
        lemma_present_cells(s);
        let p = present_cells(s);
        if p.len() == 1 {
            assert(p[0].0 != Facet::Clean);
            assert(p != clean);
        } else if p.len() > 1 {
            assert(p.len() != clean.len());
        }
    } else {
        assert(spec_status_cells(s)[0].0 == Facet::Error);
    }
}

} // verus!
