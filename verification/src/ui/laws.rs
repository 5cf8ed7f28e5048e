//! What holds of the interactive list whatever the input: the promises
//! its behaviour keeps across keys, scans and background results.
use vstd::prelude::*;

use crate::detail::RepoDetail;
use crate::discover::Problem;
use crate::drift::{insert_pos, lemma_insert_pos, lemma_sorted_rows, sorted_by, sorted_rows, Sort};
use crate::scan::Event;
use crate::status::RepoStatus;
use crate::text::{lemma_seq_lt_transitive, lemma_seq_lt_trichotomy, seq_lt};
use crate::ui::driver::{on_command, on_msg, DriverView, EffectView, Msg};
use crate::ui::view::{spec_footer, spec_stat_bar, TAIL};
use crate::ui::model::{
    act, begin_scan, confirm, detail_command, find_path, finish_scan, marks_present, on_char_list, on_key,
    on_key_branches, on_key_confirm, on_key_filtering, on_key_list, on_key_namespaces, on_key_overlay, on_key_sort,
    on_key_stashes, namespaces, namespaces_upto, ns_insert, ns_pos, push_status, selected_path, spec_namespace, ActKind,
    end_job, mark_all, mark_range, open_namespaces, spec_visible, sweep, toggle_mark, upstream_target, with, without,
    choose_namespace, choose_sort, clamp_selection, on_key_pane, highlighted_branch, marked_visible, targets,
    count_in, namespace_choices, visible_idx_upto, picker_index, sort_at, move_by, open_branch_picker, open_stash_picker, scroll_pane, set_toast, advance_job, begin_job, jobs_without, AppView, CommandView, JobView,
};
use crate::ui::state::{BranchChoice, Command, Destructive, Key, KeyCode, Modifiers, Pane, StashChoice};

verus! {

/// A command that destroys work: pruning branches, dropping a stash,
/// deleting a branch.
pub open spec fn destroys(c: CommandView) -> bool {
    c is Prune || c is DropStash || c is DeleteBranch
}

/// Nothing destructive happens without confirmation: a destructive command
/// only ever comes from the confirmation pane, answered with a lowercase
/// `y` and no modifier but Shift.
pub proof fn law_destruction_needs_confirmation(v: AppView, k: Key)
    ensures
        destroys(on_key(v, k).1) ==> v.pane == Pane::Confirm && !v.filtering && k.code == KeyCode::Char('y')
            && !k.modifiers.control && !k.modifiers.alt && !k.modifiers.super_key && !k.modifiers.meta,
{
    lemma_filtering_safe(v, k);
    lemma_overlay_needs_y(v, k);
    lemma_list_safe(v, k);
}

/// Ctrl-C always quits, whatever is open or being typed, and changes
/// nothing on the way out.
pub proof fn law_ctrl_c_quits(v: AppView, k: Key)
    requires
        k.modifiers.control,
        k.code == KeyCode::Char('c'),
    ensures
        on_key(v, k) == (v, CommandView::Quit),
{
}

/// A key held with Control, Alt, Super or Meta is a different key from the
/// one bound (Ctrl-P is not `p`): apart from Ctrl-C it does nothing at all.
pub proof fn law_modified_keys_are_inert(v: AppView, k: Key)
    requires
        k.modifiers.control || k.modifiers.alt || k.modifiers.super_key || k.modifiers.meta,
        !(k.modifiers.control && k.code == KeyCode::Char('c')),
    ensures
        on_key(v, k) == (v, CommandView::Nothing),
{
}

/// Escape backs out one level: it quits only from the bare list, never
/// from a filter being typed or an open pane or popover.
pub proof fn law_escape_quits_only_from_the_list(v: AppView, k: Key)
    requires
        k.code == KeyCode::Esc,
        !k.modifiers.control && !k.modifiers.alt && !k.modifiers.super_key && !k.modifiers.meta,
    ensures
        (on_key(v, k).1 == CommandView::Quit) <==> (!v.filtering && v.pane == Pane::List),
{
    if v.filtering {
        assert(on_key_filtering(v, k).1 != CommandView::Quit);
    } else if v.pane != Pane::List {
        if v.pane == Pane::Confirm {
            assert(on_key_confirm(v, k).1 == CommandView::Nothing);
        }
    }
}

/// A rescan is a refresh, not a reset: the marks stay while it runs.
pub proof fn law_rescan_keeps_marks(v: AppView)
    ensures
        begin_scan(v).marked == v.marked,
{
}

/// When a scan finishes, a mark stays exactly when its repository was
/// found again.
pub proof fn law_finished_scan_keeps_found_marks(v: AppView, p: Seq<char>)
    ensures
        finish_scan(v).marked.contains(p) <==> (v.marked.contains(p) && find_path(v.rows, p) is Some),
{
    lemma_marks_present(v.marked, v.rows, p);
}

proof fn lemma_marks_present(m: Seq<Seq<char>>, rows: Seq<RepoStatus>, p: Seq<char>)
    ensures
        marks_present(m, rows).contains(p) <==> (m.contains(p) && find_path(rows, p) is Some),
    decreases m.len(),
{
    if m.len() > 0 {
        lemma_marks_present(m.drop_last(), rows, p);
        let rest = marks_present(m.drop_last(), rows);
        let tail = if find_path(rows, m.last()) is Some {
            seq![m.last()]
        } else {
            seq![]
        };
        let all = rest + tail;
        assert(marks_present(m, rows) == all);
        if m.contains(p) && find_path(rows, p) is Some {
            let k = choose|k: int| 0 <= k < m.len() && m[k] == p;
            if k < m.len() - 1 {
                assert(m.drop_last()[k] == p);
                assert(rest.contains(p));
                let i = choose|i: int| 0 <= i < rest.len() && rest[i] == p;
                assert(all[i] == p);
            } else {
                assert(all[rest.len() as int] == p);
            }
            assert(all.contains(p));
        }
        if all.contains(p) {
            let k = choose|k: int| 0 <= k < all.len() && all[k] == p;
            if k < rest.len() {
                assert(rest[k] == p);
                assert(rest.contains(p));
                let j = choose|j: int| 0 <= j < m.drop_last().len() && m.drop_last()[j] == p;
                assert(m[j] == p);
            } else {
                assert(tail.len() == 1);
                assert(m[m.len() - 1] == p);
            }
            assert(m.contains(p));
        }
    }
}

/// The commands that move the cursor or load detail never destroy.
proof fn lemma_detail_command_safe(v: AppView)
    ensures
        !destroys(detail_command(v).1),
{
}

proof fn lemma_filtering_safe(v: AppView, k: Key)
    ensures
        !destroys(on_key_filtering(v, k).1),
{
    lemma_detail_command_safe(v);
}

proof fn lemma_list_safe(v: AppView, k: Key)
    ensures
        !destroys(on_key_list(v, k).1),
{
    match k.code {
        KeyCode::Char(c) => lemma_char_safe(v, c),
        _ => {},
    }
}

proof fn lemma_char_safe(v: AppView, c: char)
    ensures
        !destroys(on_char_list(v, c).1),
{
    assert(!destroys(act(v, ActKind::Fetch).1));
    assert(!destroys(act(v, ActKind::Pull).1));
    assert(!destroys(confirm(v, Destructive::Prune).1));
}

proof fn lemma_overlay_needs_y(v: AppView, k: Key)
    ensures
        destroys(on_key_overlay(v, k).1) ==> v.pane == Pane::Confirm && k.code == KeyCode::Char('y'),
{
    if v.pane == Pane::Confirm {
    } else if v.pane == Pane::Namespaces {
        assert(!destroys(on_key_namespaces(v, k).1));
    } else if v.pane == Pane::Branches {
        assert(!destroys(on_key_branches(v, k).1));
    } else if v.pane == Pane::Stashes {
        assert(!destroys(on_key_stashes(v, k).1));
    } else if v.pane == Pane::Sort {
        assert(!destroys(on_key_sort(v, k).1));
    }
}

// --- ingestion -----------------------------------------------------------

proof fn lemma_find_path_in_range(rows: Seq<RepoStatus>, p: Seq<char>)
    ensures
        match find_path(rows, p) {
            Some(i) => 0 <= i < rows.len() && rows[i].path@ == p,
            None => forall|k: int| 0 <= k < rows.len() ==> #[trigger] rows[k].path@ != p,
        },
    decreases rows.len(),
{
    if rows.len() > 0 {
        lemma_find_path_in_range(rows.drop_first(), p);
        if rows[0].path@ != p {
            assert forall|k: int| 0 < k < rows.len() implies #[trigger] rows[k].path@ != p || find_path(rows, p) is Some by {
                assert(rows[k] == rows.drop_first()[k - 1]);
            }
        }
    }
}

/// A status for a repository already listed replaces its row; a status for
/// a new one adds a row. Either way the list stays in the chosen order.
pub proof fn law_status_replaces_or_adds(v: AppView, s: RepoStatus)
    ensures
        match find_path(v.rows, s.path@) {
            Some(i) => 0 <= i < v.rows.len() && push_status(v, s).rows.len() == v.rows.len()
                && push_status(v, s).rows.to_multiset() == v.rows.update(i, s).to_multiset(),
            None => push_status(v, s).rows.len() == v.rows.len() + 1 && push_status(v, s).rows.to_multiset()
                == v.rows.push(s).to_multiset(),
        },
        sorted_by(push_status(v, s).rows, v.sort),
{
    lemma_find_path_in_range(v.rows, s.path@);
    let rows = match find_path(v.rows, s.path@) {
        Some(i) => v.rows.update(i, s),
        None => v.rows.push(s),
    };
    lemma_sorted_rows(rows, v.sort);
}

/// Results that belong to a scan a rescan has since replaced change
/// nothing.
pub proof fn law_stale_scan_results_are_dropped(d: DriverView, v: AppView, ev: Event, g: u64)
    requires
        g != d.generation,
    ensures
        on_msg(d, v, Msg::Scan(ev, g)) == (d, v, Seq::<EffectView>::empty()),
{
}

/// Detail that arrives for a row no longer selected, or from an old scan,
/// is not shown.
pub proof fn law_detail_is_only_kept_for_the_selection(d: DriverView, v: AppView, path: String, g: u64, det: Box<RepoDetail>)
    requires
        g != d.generation || selected_path(v) != Some(path@),
    ensures
        on_msg(d, v, Msg::Detail(path, g, det)) == (d, v, Seq::<EffectView>::empty()),
{
}

// --- namespaces ----------------------------------------------------------

/// In strictly increasing order, hence each once.
pub open spec fn strictly_sorted(ns: Seq<Seq<char>>) -> bool {
    forall|i: int, j: int| 0 <= i < j < ns.len() ==> seq_lt(#[trigger] ns[i], #[trigger] ns[j])
}

proof fn lemma_ns_pos_bounds(ns: Seq<Seq<char>>, x: Seq<char>)
    requires
        strictly_sorted(ns),
    ensures
        0 <= ns_pos(ns, x) <= ns.len(),
        forall|k: int| 0 <= k < ns_pos(ns, x) ==> seq_lt(#[trigger] ns[k], x),
        forall|k: int| ns_pos(ns, x) <= k < ns.len() ==> !seq_lt(#[trigger] ns[k], x),
    decreases ns.len(),
{
    if ns.len() > 0 {
        let t = ns.drop_first();
        assert forall|i: int, j: int| 0 <= i < j < t.len() implies seq_lt(#[trigger] t[i], #[trigger] t[j]) by {
            assert(t[i] == ns[i + 1] && t[j] == ns[j + 1]);
        }
        lemma_ns_pos_bounds(t, x);
        if !seq_lt(ns[0], x) {
            assert forall|k: int| 0 <= k < ns.len() implies !seq_lt(#[trigger] ns[k], x) by {
                if k > 0 && seq_lt(ns[k], x) {
                    assert(seq_lt(ns[0], ns[k]));
                    lemma_seq_lt_transitive(ns[0], ns[k], x);
                }
            }
        } else {
            assert forall|k: int| 0 <= k < ns_pos(ns, x) implies seq_lt(#[trigger] ns[k], x) by {
                if k > 0 {
                    assert(ns[k] == t[k - 1]);
                }
            }
            assert forall|k: int| ns_pos(ns, x) <= k < ns.len() implies !seq_lt(#[trigger] ns[k], x) by {
                assert(ns[k] == t[k - 1]);
            }
        }
    }
}

proof fn lemma_ns_insert_sorted(ns: Seq<Seq<char>>, x: Seq<char>)
    requires
        strictly_sorted(ns),
    ensures
        strictly_sorted(ns_insert(ns, x)),
{
    lemma_ns_pos_bounds(ns, x);
    let j = ns_pos(ns, x);
    if !(0 <= j < ns.len() && ns[j] == x) {
        let r = ns.insert(j, x);
        if j < ns.len() {
            lemma_seq_lt_trichotomy(ns[j], x);
            assert(seq_lt(x, ns[j]));
        }
        assert forall|a: int, b: int| 0 <= a < b < r.len() implies seq_lt(#[trigger] r[a], #[trigger] r[b]) by {
            if b < j {
                assert(r[a] == ns[a] && r[b] == ns[b]);
            } else if b == j {
                assert(r[a] == ns[a] && r[b] == x);
            } else if a < j {
                assert(r[a] == ns[a] && r[b] == ns[b - 1]);
                assert(seq_lt(ns[a], x));
                assert(seq_lt(x, ns[j]));
                lemma_seq_lt_transitive(ns[a], x, ns[j]);
                if b - 1 > j {
                    lemma_seq_lt_transitive(ns[a], ns[j], ns[b - 1]);
                }
            } else if a == j {
                assert(r[a] == x && r[b] == ns[b - 1]);
                if b - 1 > j {
                    lemma_seq_lt_transitive(x, ns[j], ns[b - 1]);
                }
            } else {
                assert(r[a] == ns[a - 1] && r[b] == ns[b - 1]);
            }
        }
    }
}

proof fn lemma_namespaces_upto_sorted(rows: Seq<RepoStatus>, drifted_only: bool, filter: Seq<char>, n: int)
    ensures
        strictly_sorted(namespaces_upto(rows, drifted_only, filter, n)),
    decreases n,
{
    if n > 0 {
        lemma_namespaces_upto_sorted(rows, drifted_only, filter, n - 1);
        let ns = namespaces_upto(rows, drifted_only, filter, n - 1);
        lemma_ns_insert_sorted(ns, spec_namespace(rows[n - 1].display_name@));
    }
}

/// The namespace picker lists each namespace once, in order.
pub proof fn law_namespaces_are_ordered_and_distinct(v: AppView)
    ensures
        strictly_sorted(namespaces(v)),
        forall|i: int, j: int| 0 <= i < j < namespaces(v).len() ==> namespaces(v)[i] != namespaces(v)[j],
{
    lemma_namespaces_upto_sorted(v.rows, v.drifted_only, v.filter, v.rows.len() as int);
    assert forall|i: int, j: int| 0 <= i < j < namespaces(v).len() implies namespaces(v)[i] != namespaces(v)[j] by {
        lemma_seq_lt_trichotomy(namespaces(v)[i], namespaces(v)[j]);
    }
}

// --- the incoming bar ------------------------------------------------------

/// The widest file in the set fills the bar exactly.
pub proof fn law_widest_file_fills_the_bar(added: int, removed: int, width: int)
    requires
        added >= 0,
        removed >= 0,
        added + removed > 0,
        width >= 1,
    ensures
        spec_stat_bar(added, removed, added + removed, width).0 + spec_stat_bar(added, removed, added + removed, width).1
            == width,
{
    vstd::arithmetic::div_mod::lemma_div_by_multiple(width, added + removed);
    vstd::arithmetic::mul::lemma_mul_is_commutative(width, added + removed);
}

// --- marks -----------------------------------------------------------------

/// No entry twice.
pub open spec fn distinct(s: Seq<Seq<char>>) -> bool {
    forall|i: int, j: int| 0 <= i < j < s.len() ==> #[trigger] s[i] != #[trigger] s[j]
}

proof fn lemma_distinct_push(a: Seq<Seq<char>>, x: Seq<char>)
    requires
        distinct(a),
        !a.contains(x),
    ensures
        distinct(a.push(x)),
{
    assert forall|i: int, j: int| 0 <= i < j < a.push(x).len() implies #[trigger] a.push(x)[i] != #[trigger] a.push(x)[j] by {
        if j == a.len() {
            assert(a.push(x)[i] == a[i]);
            if a[i] == x {
                assert(a.contains(x));
            }
        } else {
            assert(a.push(x)[i] == a[i] && a.push(x)[j] == a[j]);
        }
    }
}

proof fn lemma_without(m: Seq<Seq<char>>, p: Seq<char>)
    ensures
        forall|x: Seq<char>| #[trigger] without(m, p).contains(x) ==> m.contains(x) && x != p,
        distinct(m) ==> distinct(without(m, p)),
    decreases m.len(),
{
    if m.len() > 0 {
        let m0 = m.drop_last();
        lemma_without(m0, p);
        let w0 = without(m0, p);
        let tail = if m.last() == p {
            seq![]
        } else {
            seq![m.last()]
        };
        assert(without(m, p) == w0 + tail);
        assert forall|x: Seq<char>| #[trigger] without(m, p).contains(x) implies m.contains(x) && x != p by {
            let k = choose|k: int| 0 <= k < (w0 + tail).len() && (w0 + tail)[k] == x;
            if k < w0.len() {
                assert(w0[k] == x);
                assert(w0.contains(x));
                let j = choose|j: int| 0 <= j < m0.len() && m0[j] == x;
                assert(m[j] == x);
            } else {
                assert(m[m.len() - 1] == x);
            }
        }
        if distinct(m) {
            assert(distinct(m0)) by {
                assert forall|i: int, j: int| 0 <= i < j < m0.len() implies #[trigger] m0[i] != #[trigger] m0[j] by {
                    assert(m0[i] == m[i] && m0[j] == m[j]);
                }
            }
            if m.last() != p {
                if w0.contains(m.last()) {
                    let j = choose|j: int| 0 <= j < m0.len() && m0[j] == m.last();
                    assert(m[j] == m[m.len() - 1]);
                }
                lemma_distinct_push(w0, m.last());
                assert(w0 + tail =~= w0.push(m.last()));
            } else {
                assert(w0 + tail =~= w0);
            }
        }
    }
}

proof fn lemma_with(m: Seq<Seq<char>>, p: Seq<char>)
    requires
        distinct(m),
    ensures
        distinct(with(m, p)),
{
    if !m.contains(p) {
        lemma_distinct_push(m, p);
    }
}

proof fn lemma_sweep(m: Seq<Seq<char>>, rows: Seq<RepoStatus>, mark: bool)
    requires
        distinct(m),
    ensures
        distinct(sweep(m, rows, mark)),
    decreases rows.len(),
{
    if rows.len() > 0 {
        lemma_sweep(m, rows.drop_last(), mark);
        let m2 = sweep(m, rows.drop_last(), mark);
        if mark {
            lemma_with(m2, rows.last().path@);
        } else {
            lemma_without(m2, rows.last().path@);
        }
    }
}

proof fn lemma_overlay_keeps_marks(v: AppView, k: Key)
    requires
        v.pane != Pane::List,
    ensures
        on_key_overlay(v, k).0.marked == v.marked,
{
    if v.pane == Pane::Namespaces {
        assert(on_key_namespaces(v, k).0.marked == v.marked);
    } else if v.pane == Pane::Branches {
        assert(on_key_branches(v, k).0.marked == v.marked);
    } else if v.pane == Pane::Stashes {
        assert(on_key_stashes(v, k).0.marked == v.marked);
    } else if v.pane == Pane::Sort {
        assert(on_key_sort(v, k).0.marked == v.marked);
    }
}

proof fn lemma_char_marks(v: AppView, c: char)
    ensures
        ({
            let m = on_char_list(v, c).0.marked;
            m == v.marked || m == toggle_mark(v).marked || m == mark_range(v).marked || m == mark_all(v).marked || m
                == Seq::<Seq<char>>::empty()
        }),
{
    assert(act(v, ActKind::Fetch).0.marked == v.marked);
    assert(act(v, ActKind::Pull).0.marked == v.marked);
    assert(confirm(v, Destructive::Prune).0.marked == v.marked);
    assert(open_namespaces(v).marked == v.marked);
    assert(upstream_target(v).0.marked == v.marked);
}

/// The marked set never holds a repository twice, whatever key is pressed.
pub proof fn law_keys_keep_marks_distinct(v: AppView, k: Key)
    requires
        distinct(v.marked),
    ensures
        distinct(on_key(v, k).0.marked),
{
    lemma_without(v.marked, selected_path(v)->0);
    if selected_path(v) is Some && !v.marked.contains(selected_path(v)->0) {
        lemma_distinct_push(v.marked, selected_path(v)->0);
    }
    lemma_sweep(v.marked, spec_visible(v), true);
    let vis = spec_visible(v);
    let mark = match v.anchor {
        Some(a) => a.1,
        None => true,
    };
    assert forall|range: Seq<RepoStatus>| distinct(#[trigger] sweep(v.marked, range, mark)) by {
        lemma_sweep(v.marked, range, mark);
    }
    if !(k.modifiers.control || k.modifiers.alt || k.modifiers.super_key || k.modifiers.meta) {
        if v.filtering {
            assert(on_key_filtering(v, k).0.marked == v.marked);
        } else if v.pane != Pane::List {
            lemma_overlay_keeps_marks(v, k);
        } else {
            match k.code {
                KeyCode::Char(c) => lemma_char_marks(v, c),
                _ => {},
            }
        }
    }
}

/// Rescanning and results landing never duplicate a mark either.
pub proof fn law_scans_keep_marks_distinct(v: AppView, s: RepoStatus)
    requires
        distinct(v.marked),
    ensures
        distinct(begin_scan(v).marked),
        distinct(push_status(v, s).marked),
        distinct(finish_scan(v).marked),
{
    let v1 = match v.scan_job {
        Some(id) => end_job(AppView { scan_job: None, ..v }, id),
        None => v,
    };
    lemma_marks_present_sub(v1.marked, v1.rows);
}

/// Keeping the present marks keeps them distinct.
proof fn lemma_marks_present_sub(m: Seq<Seq<char>>, rows: Seq<RepoStatus>)
    ensures
        distinct(m) ==> distinct(marks_present(m, rows)),
    decreases m.len(),
{
    if m.len() > 0 {
        let m0 = m.drop_last();
        lemma_marks_present_sub(m0, rows);
        if distinct(m) {
            assert(distinct(m0)) by {
                assert forall|i: int, j: int| 0 <= i < j < m0.len() implies #[trigger] m0[i] != #[trigger] m0[j] by {
                    assert(m0[i] == m[i] && m0[j] == m[j]);
                }
            }
            let w0 = marks_present(m0, rows);
            if find_path(rows, m.last()) is Some {
                lemma_marks_present(m0, rows, m.last());
                if m0.contains(m.last()) {
                    let j = choose|j: int| 0 <= j < m0.len() && m0[j] == m.last();
                    assert(m[j] == m[m.len() - 1]);
                }
                lemma_distinct_push(w0, m.last());
                assert(marks_present(m, rows) =~= w0.push(m.last()));
            } else {
                assert(marks_present(m, rows) =~= w0);
            }
        }
    }
}

// --- the cursor ------------------------------------------------------------

/// The cursor is on a visible row, or at the top of an empty list.
pub open spec fn cursor_ok(v: AppView) -> bool {
    0 <= v.selected && (spec_visible(v).len() == 0 ==> v.selected == 0) && (spec_visible(v).len() > 0 ==> v.selected
        < spec_visible(v).len())
}

proof fn lemma_overlay_keeps_cursor(v: AppView, k: Key)
    requires
        v.pane != Pane::List,
        cursor_ok(v),
    ensures
        cursor_ok(on_key_overlay(v, k).0),
{
    if v.pane == Pane::Namespaces {
        let c = choose_namespace(v).0;
        assert(cursor_ok(c));
        assert(cursor_ok(on_key_namespaces(v, k).0));
    } else if v.pane == Pane::Branches {
        assert(cursor_ok(on_key_branches(v, k).0));
    } else if v.pane == Pane::Stashes {
        assert(cursor_ok(on_key_stashes(v, k).0));
    } else if v.pane == Pane::Sort {
        assert(cursor_ok(choose_sort(v).0));
        assert(cursor_ok(on_key_sort(v, k).0));
    } else if v.pane == Pane::Confirm {
        assert(cursor_ok(on_key_confirm(v, k).0));
    } else {
        assert(cursor_ok(on_key_pane(v, k)));
    }
}

proof fn lemma_char_keeps_cursor(v: AppView, c: char)
    requires
        cursor_ok(v),
    ensures
        cursor_ok(on_char_list(v, c).0),
{
    assert(cursor_ok(act(v, ActKind::Fetch).0));
    assert(cursor_ok(act(v, ActKind::Pull).0));
    assert(cursor_ok(confirm(v, Destructive::Prune).0));
    assert(cursor_ok(open_namespaces(v)));
    assert(cursor_ok(upstream_target(v).0));
    assert(cursor_ok(toggle_mark(v)));
    assert(cursor_ok(mark_range(v)));
    assert(cursor_ok(mark_all(v)));
}

/// Whatever key is pressed, the cursor stays on a visible row (or at the
/// top of an empty list): filters, namespaces and orders that change what
/// is shown move it back in range.
pub proof fn law_keys_keep_the_cursor_on_a_row(v: AppView, k: Key)
    requires
        cursor_ok(v),
    ensures
        cursor_ok(on_key(v, k).0),
{
    if !(k.modifiers.control || k.modifiers.alt || k.modifiers.super_key || k.modifiers.meta) {
        if v.filtering {
            assert(cursor_ok(on_key_filtering(v, k).0));
        } else if v.pane != Pane::List {
            lemma_overlay_keeps_cursor(v, k);
        } else {
            match k.code {
                KeyCode::Char(c) => lemma_char_keeps_cursor(v, c),
                _ => {},
            }
        }
    }
}

/// Results landing and rescans keep the cursor on a row too.
pub proof fn law_scans_keep_the_cursor_on_a_row(v: AppView, s: RepoStatus)
    requires
        cursor_ok(v),
    ensures
        cursor_ok(push_status(v, s)),
        cursor_ok(begin_scan(v)),
        cursor_ok(finish_scan(v)),
{
    let v1 = match v.scan_job {
        Some(id) => end_job(AppView { scan_job: None, ..v }, id),
        None => v,
    };
    let v2 = AppView { marked: marks_present(v1.marked, v1.rows), pending_selection: None, ..v1 };
    assert(spec_visible(v2) == spec_visible(v));
    match v.pending_selection {
        Some(p) => {
            lemma_find_path_in_range(spec_visible(v2), p);
        },
        None => {},
    }
}

// --- the footer ------------------------------------------------------------

/// However narrow the terminal, the footer still ends by saying where help
/// is and how to quit.
pub proof fn law_footer_always_ends_with_help_and_quit(width: int)
    ensures
        spec_footer(width).len() >= TAIL@.len(),
        spec_footer(width).subrange(spec_footer(width).len() - TAIL@.len(), spec_footer(width).len() as int)
            == TAIL@,
{
    let f = spec_footer(width);
    assert(f.subrange(f.len() - TAIL@.len(), f.len() as int) =~= TAIL@);
}

/// Fetching everything owes a full rescan once the fetch is over: ending
/// that job starts a scan of a new generation.
pub proof fn law_fetch_all_rescans_when_done(d: DriverView, v: AppView, later: AppView)
    requires
        d.generation < u64::MAX,
    ensures
        ({
            let (d2, v2, e) = on_command(d, v, Command::FetchAll);
            let job = d2.rescan_after->0;
            let (d3, v3, e3) = on_msg(d2, later, Msg::JobEnd(job));
            &&& d2.rescan_after is Some
            &&& d3.generation == d.generation + 1
            &&& d3.rescan_after is None
            &&& e3.len() >= 1
            &&& e3[0] == EffectView::Scan((d.generation + 1) as u64)
        }),
{
}

/// A pull acting on marks clears them: they have been used.
pub proof fn law_pull_uses_up_the_marks(v: AppView)
    requires
        v.marked.len() > 0,
        on_char_list(v, 'p').1 is Pull,
    ensures
        on_char_list(v, 'p').0.marked.len() == 0,
        on_char_list(v, 'p').0.anchor is None,
{
}

// --- what actions apply to ---------------------------------------------------

/// The path of some row of `rows`.
pub open spec fn is_row_path(rows: Seq<RepoStatus>, p: Seq<char>) -> bool {
    exists|k: int| 0 <= k < rows.len() && #[trigger] rows[k].path@ == p
}

proof fn lemma_marked_visible(marked: Seq<Seq<char>>, rows: Seq<RepoStatus>)
    ensures
        forall|i: int|
            0 <= i < marked_visible(marked, rows).len() ==> is_row_path(rows, #[trigger] marked_visible(marked, rows)[i])
                && marked.contains(marked_visible(marked, rows)[i]),
    decreases rows.len(),
{
    if rows.len() > 0 {
        let r0 = rows.drop_last();
        lemma_marked_visible(marked, r0);
        let m = marked_visible(marked, rows);
        let m0 = marked_visible(marked, r0);
        assert forall|i: int| 0 <= i < m.len() implies is_row_path(rows, #[trigger] m[i]) && marked.contains(m[i]) by {
            if i < m0.len() {
                assert(m[i] == m0[i]);
                let k = choose|k: int| 0 <= k < r0.len() && #[trigger] r0[k].path@ == m0[i];
                assert(rows[k] == r0[k]);
            } else {
                assert(m[i] == rows.last().path@);
                assert(rows[rows.len() - 1].path@ == m[i]);
            }
        }
    }
}

/// Actions apply only to repositories still on screen: narrowing by
/// namespace or filter narrows the action too. With marks, to the marked
/// rows on screen; without, to the selected row.
pub proof fn law_actions_only_reach_rows_on_screen(v: AppView)
    ensures
        forall|i: int| 0 <= i < targets(v).len() ==> is_row_path(spec_visible(v), #[trigger] targets(v)[i]),
        v.marked.len() > 0 ==> forall|i: int| 0 <= i < targets(v).len() ==> v.marked.contains(#[trigger] targets(v)[i]),
{
    lemma_marked_visible(v.marked, spec_visible(v));
    if v.marked.len() == 0 {
        if 0 <= v.selected < spec_visible(v).len() {
            assert(spec_visible(v)[v.selected].path@ == targets(v)[0]);
        }
    }
}

/// Marks the view hides are not silently ignored: when there are marks but
/// none on screen, an action does nothing and says so.
pub proof fn law_hidden_marks_are_reported(v: AppView, kind: ActKind)
    requires
        v.marked.len() > 0,
        targets(v).len() == 0,
    ensures
        act(v, kind).1 == CommandView::Nothing,
        act(v, kind).0.toast is Some,
        confirm(v, Destructive::Prune).1 == CommandView::Nothing,
        confirm(v, Destructive::Prune).0.pending == v.pending,
{
}

/// In a confirmation, any key but `y` (held without Control, Alt, Super or
/// Meta) cancels it: the confirmation closes and nothing happens.
pub proof fn law_any_other_key_cancels(v: AppView, k: Key)
    requires
        v.pane == Pane::Confirm,
        !v.filtering,
        k.code != KeyCode::Char('y'),
        !k.modifiers.control && !k.modifiers.alt && !k.modifiers.super_key && !k.modifiers.meta,
    ensures
        on_key(v, k).1 == CommandView::Nothing,
        on_key(v, k).0.pending is None,
        on_key(v, k).0.pane == Pane::List,
{
}

/// The checked-out branch is never offered for deletion: `x` on it in the
/// branch picker asks nothing and leaves the picker open.
pub proof fn law_the_checked_out_branch_cannot_be_deleted(v: AppView, k: Key)
    requires
        v.pane == Pane::Branches,
        !v.filtering,
        k.code == KeyCode::Char('x'),
        !k.modifiers.control && !k.modifiers.alt && !k.modifiers.super_key && !k.modifiers.meta,
        highlighted_branch(v) matches Some(c) && c.is_head,
    ensures
        on_key(v, k).1 == CommandView::Nothing,
        on_key(v, k).0.pending == v.pending,
        on_key(v, k).0.pane == Pane::Branches,
{
}

// --- one row per repository ----------------------------------------------

/// No two held rows are for the same repository.
pub open spec fn one_row_per_path(rows: Seq<RepoStatus>) -> bool {
    forall|i: int, j: int| 0 <= i < j < rows.len() ==> #[trigger] rows[i].path@ != #[trigger] rows[j].path@
}

/// Some held row is for the repository at `p`.
pub open spec fn holds_path(rows: Seq<RepoStatus>, p: Seq<char>) -> bool {
    exists|k: int| 0 <= k < rows.len() && #[trigger] rows[k].path@ == p
}

/// Inserting `x` holds the paths held before, and `x`'s.
proof fn lemma_insert_holds(out: Seq<RepoStatus>, j: int, x: RepoStatus, p: Seq<char>)
    requires
        0 <= j <= out.len(),
    ensures
        holds_path(out.insert(j, x), p) <==> (holds_path(out, p) || x.path@ == p),
{
    let s = out.insert(j, x);
    if holds_path(s, p) {
        let k = choose|k: int| 0 <= k < s.len() && #[trigger] s[k].path@ == p;
        if k < j {
            assert(out[k] == s[k]);
        } else if k > j {
            assert(out[k - 1] == s[k]);
        }
    }
    if holds_path(out, p) {
        let m = choose|m: int| 0 <= m < out.len() && #[trigger] out[m].path@ == p;
        if m < j {
            assert(s[m] == out[m]);
        } else {
            assert(s[m + 1] == out[m]);
        }
    }
    if x.path@ == p {
        assert(s[j] == x);
    }
}

/// Inserting a row for a repository not yet held keeps one row each.
proof fn lemma_insert_one_row(out: Seq<RepoStatus>, j: int, x: RepoStatus)
    requires
        0 <= j <= out.len(),
        one_row_per_path(out),
        !holds_path(out, x.path@),
    ensures
        one_row_per_path(out.insert(j, x)),
{
    let s = out.insert(j, x);
    assert forall|a: int, b: int| 0 <= a < b < s.len() implies #[trigger] s[a].path@ != #[trigger] s[b].path@ by {
        if a == j {
            assert(s[b] == out[b - 1]);
            if out[b - 1].path@ == x.path@ {
                assert(holds_path(out, x.path@));
            }
        } else if b == j {
            assert(s[a] == out[a]);
            if out[a].path@ == x.path@ {
                assert(holds_path(out, x.path@));
            }
        } else {
            let a2 = if a < j { a } else { a - 1 };
            let b2 = if b < j { b } else { b - 1 };
            assert(s[a] == out[a2] && s[b] == out[b2]);
        }
    }
}

/// Dropping the last row keeps one row each, and holds the same paths but
/// the last row's.
proof fn lemma_drop_last_holds(rows: Seq<RepoStatus>, p: Seq<char>)
    requires
        rows.len() > 0,
    ensures
        holds_path(rows, p) <==> (holds_path(rows.drop_last(), p) || rows.last().path@ == p),
        one_row_per_path(rows) ==> one_row_per_path(rows.drop_last()),
        one_row_per_path(rows) ==> !holds_path(rows.drop_last(), rows.last().path@),
{
    let r0 = rows.drop_last();
    assert(rows =~= r0.insert(r0.len() as int, rows.last()));
    lemma_insert_holds(r0, r0.len() as int, rows.last(), p);
    if one_row_per_path(rows) {
        assert forall|a: int, b: int| 0 <= a < b < r0.len() implies #[trigger] r0[a].path@ != #[trigger] r0[b].path@ by {
            assert(r0[a] == rows[a] && r0[b] == rows[b]);
        }
        if holds_path(r0, rows.last().path@) {
            let m = choose|m: int| 0 <= m < r0.len() && #[trigger] r0[m].path@ == rows.last().path@;
            assert(rows[m] == r0[m]);
            assert(rows[m].path@ == rows[rows.len() - 1].path@);
        }
    }
}

/// Sorting holds rows for the same repositories, still one row each.
proof fn lemma_sorted_rows_paths(rows: Seq<RepoStatus>, mode: Sort, p: Seq<char>)
    ensures
        holds_path(sorted_rows(rows, mode), p) <==> holds_path(rows, p),
        one_row_per_path(rows) ==> one_row_per_path(sorted_rows(rows, mode)),
    decreases rows.len(),
{
    if rows.len() > 0 {
        let r0 = rows.drop_last();
        let out = sorted_rows(r0, mode);
        let x = rows.last();
        let j = insert_pos(out, x, mode);
        lemma_sorted_rows_paths(r0, mode, p);
        lemma_sorted_rows_paths(r0, mode, x.path@);
        lemma_insert_pos(out, x, mode);
        lemma_insert_holds(out, j, x, p);
        lemma_drop_last_holds(rows, p);
        lemma_drop_last_holds(rows, x.path@);
        if one_row_per_path(rows) {
            lemma_insert_one_row(out, j, x);
        }
    } else {
        assert(sorted_rows(rows, mode) =~= rows);
    }
}

/// A status for a repository is held in exactly one row, itself: a second
/// status for the same repository replaces the first. The other
/// repositories keep one row each.
pub proof fn law_each_repository_has_one_row(v: AppView, s: RepoStatus)
    requires
        one_row_per_path(v.rows),
    ensures
        one_row_per_path(push_status(v, s).rows),
        exists|k: int| 0 <= k < push_status(v, s).rows.len() && #[trigger] push_status(v, s).rows[k] == s,
        forall|k: int|
            0 <= k < push_status(v, s).rows.len() && (#[trigger] push_status(v, s).rows[k]).path@ == s.path@
                ==> push_status(v, s).rows[k] == s,
        one_row_per_path(begin_scan(v).rows),
        one_row_per_path(finish_scan(v).rows),
{
    lemma_find_path_in_range(v.rows, s.path@);
    let rows = match find_path(v.rows, s.path@) {
        Some(i) => v.rows.update(i, s),
        None => v.rows.push(s),
    };
    let k0: int = match find_path(v.rows, s.path@) {
        Some(i) => i,
        None => v.rows.len() as int,
    };
    assert(rows[k0] == s);
    assert(one_row_per_path(rows)) by {
        assert forall|a: int, b: int| 0 <= a < b < rows.len() implies #[trigger] rows[a].path@ != #[trigger] rows[b].path@ by {
            if a != k0 && b != k0 {
                assert(rows[a] == v.rows[a] && rows[b] == v.rows[b]);
            } else if a == k0 {
                assert(rows[b] == v.rows[b]);
                if find_path(v.rows, s.path@) is Some {
                    assert(v.rows[k0].path@ == s.path@);
                }
            } else {
                assert(rows[a] == v.rows[a]);
                if find_path(v.rows, s.path@) is Some {
                    assert(v.rows[k0].path@ == s.path@);
                }
            }
        }
    }
    lemma_sorted_rows_paths(rows, v.sort, s.path@);
    lemma_sorted_rows(rows, v.sort);
    let out = sorted_rows(rows, v.sort);
    assert(out == push_status(v, s).rows);
    assert(rows.contains(s));
    vstd::seq_lib::to_multiset_contains(rows, s);
    vstd::seq_lib::to_multiset_contains(out, s);
    assert(out.contains(s));
    let k = choose|k: int| 0 <= k < out.len() && out[k] == s;
    assert(out[k] == s);
    assert forall|m: int| 0 <= m < out.len() && (#[trigger] out[m]).path@ == s.path@ implies out[m] == s by {
        if m != k {
            if m < k {
                assert(out[m].path@ != out[k].path@);
            } else {
                assert(out[k].path@ != out[m].path@);
            }
        }
    }
}

/// Whatever key is pressed, each repository still has at most one row:
/// only a new order re-arranges the rows, and it neither adds nor drops any.
pub proof fn law_keys_keep_one_row_per_repository(v: AppView, k: Key)
    requires
        one_row_per_path(v.rows),
    ensures
        one_row_per_path(on_key(v, k).0.rows),
{
    lemma_sorted_rows_paths(v.rows, sort_at(picker_index(v)), seq![]);
    assert(one_row_per_path(choose_sort(v).0.rows));
    if !(k.modifiers.control || k.modifiers.alt || k.modifiers.super_key || k.modifiers.meta) {
        if v.filtering {
            assert(on_key_filtering(v, k).0.rows == v.rows);
        } else if v.pane != Pane::List {
            if v.pane == Pane::Namespaces {
                assert(on_key_namespaces(v, k).0.rows == v.rows);
            } else if v.pane == Pane::Branches {
                assert(on_key_branches(v, k).0.rows == v.rows);
            } else if v.pane == Pane::Stashes {
                assert(on_key_stashes(v, k).0.rows == v.rows);
            } else if v.pane == Pane::Sort {
                assert(one_row_per_path(on_key_sort(v, k).0.rows));
            } else if v.pane == Pane::Confirm {
                assert(on_key_confirm(v, k).0.rows == v.rows);
            } else {
                assert(on_key_pane(v, k).rows == v.rows);
            }
        } else {
            match k.code {
                KeyCode::Char(c) => {
                    assert(act(v, ActKind::Fetch).0.rows == v.rows);
                    assert(act(v, ActKind::Pull).0.rows == v.rows);
                    assert(confirm(v, Destructive::Prune).0.rows == v.rows);
                    assert(open_namespaces(v).rows == v.rows);
                    assert(upstream_target(v).0.rows == v.rows);
                    assert(toggle_mark(v).rows == v.rows);
                    assert(mark_range(v).rows == v.rows);
                    assert(mark_all(v).rows == v.rows);
                    assert(on_char_list(v, c).0.rows == v.rows);
                },
                _ => {},
            }
        }
    }
}

// --- a rescan, start to finish -------------------------------------------

/// The state after each status in `ss` lands, in order.
pub open spec fn push_all(v: AppView, ss: Seq<RepoStatus>) -> AppView
    decreases ss.len(),
{
    if ss.len() == 0 {
        v
    } else {
        push_status(push_all(v, ss.drop_last()), ss.last())
    }
}

/// Results landing leave the remembered selection alone, and a cursor at
/// the top stays there.
proof fn lemma_push_all_keeps_selection(v: AppView, ss: Seq<RepoStatus>)
    requires
        v.selected == 0,
    ensures
        push_all(v, ss).selected == 0,
        push_all(v, ss).pending_selection == v.pending_selection,
    decreases ss.len(),
{
    if ss.len() > 0 {
        lemma_push_all_keeps_selection(v, ss.drop_last());
    }
}

/// A rescan comes back to the repository the cursor was on when it began,
/// if the finished scan still shows it; otherwise the cursor is at the top.
/// Either way the scan is over.
pub proof fn law_a_rescan_returns_to_the_selected_repository(v: AppView, ss: Seq<RepoStatus>)
    ensures
        ({
            let w = finish_scan(push_all(begin_scan(v), ss));
            &&& w.scan_job is None
            &&& match selected_path(v) {
                Some(p) => match find_path(spec_visible(w), p) {
                    Some(i) => w.selected == i && selected_path(w) == Some(p),
                    None => w.selected == 0,
                },
                None => w.selected == 0,
            }
        }),
{
    let b = begin_scan(v);
    assert(b.selected == 0 && b.pending_selection == selected_path(v));
    lemma_push_all_keeps_selection(b, ss);
    let u = push_all(b, ss);
    let u1 = match u.scan_job {
        Some(id) => end_job(AppView { scan_job: None, ..u }, id),
        None => u,
    };
    let u2 = AppView { marked: marks_present(u1.marked, u1.rows), pending_selection: None, ..u1 };
    assert(spec_visible(u2) == spec_visible(u));
    let w = finish_scan(u);
    assert(spec_visible(w) == spec_visible(u));
    match selected_path(v) {
        Some(p) => {
            lemma_find_path_in_range(spec_visible(u2), p);
        },
        None => {},
    }
}

// --- job ids ----------------------------------------------------------------

/// Every listed job has an id no greater than the last one handed out.
pub open spec fn job_ids_handed_out(v: AppView) -> bool {
    forall|k: int| 0 <= k < v.jobs.len() ==> #[trigger] v.jobs[k].id <= v.next_job_id
}

proof fn lemma_jobs_without_bounded(jobs: Seq<JobView>, id: u64, bound: int)
    requires
        forall|k: int| 0 <= k < jobs.len() ==> #[trigger] jobs[k].id <= bound,
    ensures
        forall|k: int| 0 <= k < jobs_without(jobs, id).len() ==> #[trigger] jobs_without(jobs, id)[k].id <= bound,
    decreases jobs.len(),
{
    if jobs.len() > 0 {
        let j0 = jobs.drop_last();
        assert forall|k: int| 0 <= k < j0.len() implies #[trigger] j0[k].id <= bound by {
            assert(j0[k] == jobs[k]);
        }
        lemma_jobs_without_bounded(j0, id, bound);
        assert(jobs.last() == jobs[jobs.len() - 1]);
        let w0 = jobs_without(j0, id);
        let tail = if jobs.last().id == id { seq![] } else { seq![jobs.last()] };
        assert(jobs_without(jobs, id) == w0 + tail);
        assert forall|k: int| 0 <= k < jobs_without(jobs, id).len() implies #[trigger] jobs_without(jobs, id)[k].id
            <= bound by {
            if k < w0.len() {
                assert((w0 + tail)[k] == w0[k]);
            } else {
                assert((w0 + tail)[k] == tail[k - w0.len()]);
            }
        }
    }
}

/// A new job's id is above every id handed out before, whether or not that
/// job has ended, and becomes the last one handed out.
pub proof fn law_job_ids_are_fresh(v: AppView, label: Seq<char>, total: nat)
    requires
        job_ids_handed_out(v),
        0 <= v.next_job_id < u64::MAX,
    ensures
        begin_job(v, label, total).1 > v.next_job_id,
        forall|k: int| 0 <= k < v.jobs.len() ==> #[trigger] v.jobs[k].id < begin_job(v, label, total).1,
        begin_job(v, label, total).0.next_job_id == begin_job(v, label, total).1,
        job_ids_handed_out(begin_job(v, label, total).0),
{
    let w = begin_job(v, label, total).0;
    assert forall|k: int| 0 <= k < w.jobs.len() implies #[trigger] w.jobs[k].id <= w.next_job_id by {
        if k < v.jobs.len() {
            assert(w.jobs[k] == v.jobs[k]);
        }
    }
}

/// The last id handed out never goes back, and no step lists a job with a
/// later one: results landing, scans, jobs advancing or ending, and keys.
pub proof fn law_steps_never_reuse_job_ids(v: AppView, s: RepoStatus, id: u64, k: Key)
    requires
        job_ids_handed_out(v),
        0 <= v.next_job_id,
    ensures
        job_ids_handed_out(push_status(v, s)) && push_status(v, s).next_job_id == v.next_job_id,
        v.next_job_id < u64::MAX ==> job_ids_handed_out(begin_scan(v)) && begin_scan(v).next_job_id == v.next_job_id + 1,
        job_ids_handed_out(finish_scan(v)) && finish_scan(v).next_job_id == v.next_job_id,
        job_ids_handed_out(end_job(v, id)) && end_job(v, id).next_job_id == v.next_job_id,
        job_ids_handed_out(advance_job(v, id)) && advance_job(v, id).next_job_id == v.next_job_id,
        job_ids_handed_out(on_key(v, k).0) && on_key(v, k).0.next_job_id == v.next_job_id,
{
    lemma_jobs_without_bounded(v.jobs, id, v.next_job_id);
    match v.scan_job {
        Some(j) => lemma_jobs_without_bounded(v.jobs, j, v.next_job_id),
        None => {},
    }
    let a = advance_job(v, id);
    assert forall|m: int| 0 <= m < a.jobs.len() implies #[trigger] a.jobs[m].id <= a.next_job_id by {
        assert(a.jobs[m].id == v.jobs[m].id);
    }
    let v2 = clamp_selection(AppView { rows: sorted_rows(match find_path(v.rows, s.path@) {
        Some(i) => v.rows.update(i, s),
        None => v.rows.push(s),
    }, v.sort), ..v });
    match v.scan_job {
        Some(j) => {
            let a2 = advance_job(v2, j);
            assert forall|m: int| 0 <= m < a2.jobs.len() implies #[trigger] a2.jobs[m].id <= a2.next_job_id by {
                assert(a2.jobs[m].id == v2.jobs[m].id);
            }
        },
        None => {},
    }
    let v1 = match v.scan_job {
        Some(j) => end_job(AppView { scan_job: None, ..v }, j),
        None => v,
    };
    if v.next_job_id < u64::MAX {
        law_job_ids_are_fresh(v1, "scanning"@, 0);
    }
    lemma_keys_keep_jobs(v, k);
}

/// Keys neither list nor hand out jobs.
proof fn lemma_keys_keep_jobs(v: AppView, k: Key)
    ensures
        on_key(v, k).0.jobs == v.jobs,
        on_key(v, k).0.next_job_id == v.next_job_id,
{
    if !(k.modifiers.control || k.modifiers.alt || k.modifiers.super_key || k.modifiers.meta) {
        if v.filtering {
            assert(on_key_filtering(v, k).0.jobs == v.jobs);
        } else if v.pane != Pane::List {
            if v.pane == Pane::Namespaces {
                assert(on_key_namespaces(v, k).0.jobs == v.jobs);
            } else if v.pane == Pane::Branches {
                assert(on_key_branches(v, k).0.jobs == v.jobs);
            } else if v.pane == Pane::Stashes {
                assert(on_key_stashes(v, k).0.jobs == v.jobs);
            } else if v.pane == Pane::Sort {
                assert(on_key_sort(v, k).0.jobs == v.jobs);
            } else if v.pane == Pane::Confirm {
                assert(on_key_confirm(v, k).0.jobs == v.jobs);
            } else {
                assert(on_key_pane(v, k).jobs == v.jobs);
            }
        } else {
            match k.code {
                KeyCode::Char(c) => {
                    assert(act(v, ActKind::Fetch).0.jobs == v.jobs);
                    assert(act(v, ActKind::Pull).0.jobs == v.jobs);
                    assert(confirm(v, Destructive::Prune).0.jobs == v.jobs);
                    assert(open_namespaces(v).jobs == v.jobs);
                    assert(upstream_target(v).0.jobs == v.jobs);
                    assert(toggle_mark(v).jobs == v.jobs);
                    assert(mark_range(v).jobs == v.jobs);
                    assert(mark_all(v).jobs == v.jobs);
                    assert(on_char_list(v, c).0.jobs == v.jobs);
                },
                _ => {},
            }
        }
    }
}

// --- the cursor, whatever the call -----------------------------------------

/// Every other change the list's owner can make keeps the cursor on a row
/// too: jobs starting, advancing and ending, toasts, problems, scrolling,
/// moving the cursor, new default branches, and opening the branch or stash
/// popover. With the laws for keys and scans, no public call leaves it off
/// the list.
pub proof fn law_other_calls_keep_the_cursor_on_a_row(
    v: AppView,
    label: Seq<char>,
    total: nat,
    id: u64,
    text: Seq<char>,
    problem: Problem,
    delta: int,
    max: int,
    defaults: Seq<String>,
    repo: Seq<char>,
    branches: Seq<BranchChoice>,
    stashes: Seq<StashChoice>,
)
    requires
        cursor_ok(v),
    ensures
        cursor_ok(begin_job(v, label, total).0),
        cursor_ok(advance_job(v, id)),
        cursor_ok(end_job(v, id)),
        cursor_ok(set_toast(v, text)),
        cursor_ok(AppView { problems: v.problems.push(problem), ..v }),
        cursor_ok(scroll_pane(v, delta)),
        cursor_ok(AppView { pane_scroll: max, ..v }),
        cursor_ok(move_by(v, delta).0),
        cursor_ok(AppView { default_branches: defaults, ..v }),
        cursor_ok(open_branch_picker(v, repo, branches)),
        cursor_ok(open_stash_picker(v, repo, stashes)),
{
    assert(spec_visible(begin_job(v, label, total).0) == spec_visible(v));
    assert(spec_visible(advance_job(v, id)) == spec_visible(v));
    assert(spec_visible(end_job(v, id)) == spec_visible(v));
    assert(spec_visible(set_toast(v, text)) == spec_visible(v));
    assert(spec_visible(AppView { problems: v.problems.push(problem), ..v }) == spec_visible(v));
    assert(spec_visible(scroll_pane(v, delta)) == spec_visible(v));
    assert(spec_visible(AppView { pane_scroll: max, ..v }) == spec_visible(v));
    assert(spec_visible(AppView { default_branches: defaults, ..v }) == spec_visible(v));
    assert(spec_visible(open_branch_picker(v, repo, branches)) == spec_visible(v));
    assert(spec_visible(open_stash_picker(v, repo, stashes)) == spec_visible(v));
}

// --- every reachable state ------------------------------------------------

/// What holds of the list in every state it can reach from a fresh one: one
/// row per repository, no listed job with an id later than the last handed
/// out, and the cursor on a row.
pub open spec fn list_ok(v: AppView) -> bool {
    &&& one_row_per_path(v.rows)
    &&& job_ids_handed_out(v)
    &&& 0 <= v.next_job_id
    &&& cursor_ok(v)
}

/// Results landing and scans starting or finishing keep the list sound.
pub proof fn law_scans_keep_the_list_sound(v: AppView, s: RepoStatus)
    requires
        list_ok(v),
    ensures
        list_ok(push_status(v, s)),
        v.next_job_id < u64::MAX ==> list_ok(begin_scan(v)),
        list_ok(finish_scan(v)),
{
    law_each_repository_has_one_row(v, s);
    law_steps_never_reuse_job_ids(v, s, 0, Key { code: KeyCode::Esc, modifiers: Modifiers::spec_none() });
    law_scans_keep_the_cursor_on_a_row(v, s);
}

/// Every key keeps the list sound.
pub proof fn law_keys_keep_the_list_sound(v: AppView, k: Key)
    requires
        list_ok(v),
    ensures
        list_ok(on_key(v, k).0),
{
    law_keys_keep_one_row_per_repository(v, k);
    law_steps_never_reuse_job_ids(v, arbitrary(), 0, k);
    law_keys_keep_the_cursor_on_a_row(v, k);
}

/// Every other change the list's owner can make keeps the list sound too.
pub proof fn law_other_calls_keep_the_list_sound(
    v: AppView,
    label: Seq<char>,
    total: nat,
    id: u64,
    text: Seq<char>,
    problem: Problem,
    delta: int,
    max: int,
    defaults: Seq<String>,
    repo: Seq<char>,
    branches: Seq<BranchChoice>,
    stashes: Seq<StashChoice>,
)
    requires
        list_ok(v),
    ensures
        v.next_job_id < u64::MAX ==> list_ok(begin_job(v, label, total).0),
        list_ok(advance_job(v, id)),
        list_ok(end_job(v, id)),
        list_ok(set_toast(v, text)),
        list_ok(AppView { problems: v.problems.push(problem), ..v }),
        list_ok(scroll_pane(v, delta)),
        list_ok(AppView { pane_scroll: max, ..v }),
        list_ok(move_by(v, delta).0),
        list_ok(AppView { default_branches: defaults, ..v }),
        list_ok(open_branch_picker(v, repo, branches)),
        list_ok(open_stash_picker(v, repo, stashes)),
{
    law_other_calls_keep_the_cursor_on_a_row(v, label, total, id, text, problem, delta, max, defaults, repo, branches, stashes);
    law_steps_never_reuse_job_ids(v, arbitrary(), id, Key { code: KeyCode::Esc, modifiers: Modifiers::spec_none() });
    if v.next_job_id < u64::MAX {
        law_job_ids_are_fresh(v, label, total);
    }
}

// --- the namespace picker's counts ----------------------------------------

/// Counting the first `n` rows the filters pass within a namespace gives as
/// many as the list shows among them with that namespace chosen.
proof fn lemma_count_is_shown(v: AppView, ns: Option<Seq<char>>, n: int)
    requires
        0 <= n <= v.rows.len(),
    ensures
        count_in(v.drifted_only, v.filter, v.rows.take(n), ns) == visible_idx_upto(
            v.rows,
            v.drifted_only,
            v.filter,
            ns,
            n,
        ).len(),
    decreases n,
{
    if n > 0 {
        lemma_count_is_shown(v, ns, n - 1);
        assert(v.rows.take(n).drop_last() =~= v.rows.take(n - 1));
        assert(v.rows.take(n).last() == v.rows[n - 1]);
    } else {
        assert(v.rows.take(0).len() == 0);
    }
}

/// Each count in the namespace picker is the number of rows the list shows
/// once that choice is made: "all" counts what the filters show in every
/// namespace, and a namespace what they show within it.
pub proof fn law_picker_counts_are_what_the_choice_shows(v: AppView)
    ensures
        namespace_choices(v)[0].1 == spec_visible(AppView { group: None, ..v }).len(),
        forall|k: int|
            1 <= k < namespace_choices(v).len() ==> (#[trigger] namespace_choices(v)[k]).1 == spec_visible(
                AppView { group: Some(namespace_choices(v)[k].0), ..v },
            ).len(),
{
    assert(v.rows.take(v.rows.len() as int) =~= v.rows);
    lemma_count_is_shown(v, None, v.rows.len() as int);
    let c = namespace_choices(v);
    assert forall|k: int| 1 <= k < c.len() implies (#[trigger] c[k]).1 == spec_visible(
        AppView { group: Some(c[k].0), ..v },
    ).len() by {
        let n = namespaces(v)[k - 1];
        assert(c[k] == (n, count_in(v.drifted_only, v.filter, v.rows, Some(n))));
        lemma_count_is_shown(v, Some(n), v.rows.len() as int);
    }
}

} // verus!
