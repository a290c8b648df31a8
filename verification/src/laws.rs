//! Properties that hold across the browser's commands.
use vstd::prelude::*;
use crate::app::{
    ActionView, reload_request, AppView, delete_done_step, down_step, home_step, loaded_state, move_up_step,
    next_focus, open_step, prev_focus, preview_step, selection_in_range, shortcut_checked_step,
    toggle_step, up_step,
};
use crate::input::{Key, key_step, moves_down, moves_up, search_key_step};
use crate::listing::{
    entry_lt, entry_of, is_hidden_name, lemma_entry_order, lemma_insert_sorted, listed, listing,
    matches_query, same_key, shown, sort_witness, stably_sorted,
};
use crate::paths::{file_name_part, joined_path, parent_path, same_path};
use crate::ui::shortcut_icon_text;
use crate::fs_utils::{FileRead, home_folder_names, is_binary_ext, is_image_ext};
use crate::text::{lemma_text_lt_total, text_lt};
use crate::types::{EntryView, ItemView, PanelFocus};

verus! {

/// Cycling the focus forward and then backward, or backward and then
/// forward, returns to the same pane; three steps forward go round.
pub proof fn law_panel_cycle(f: PanelFocus)
    ensures
        prev_focus(next_focus(f)) == f,
        next_focus(prev_focus(f)) == f,
        next_focus(next_focus(next_focus(f))) == f,
        prev_focus(prev_focus(prev_focus(f))) == f,
{
}

proof fn lemma_preview_keeps(a: AppView)
    requires
        selection_in_range(a),
    ensures
        selection_in_range(preview_step(a).0),
        preview_step(a).0.selected == a.selected,
        preview_step(a).0.entries == a.entries,
        preview_step(a).0.list_state == a.list_state,
        preview_step(a).0.search_mode == a.search_mode,
{
}

proof fn lemma_down_keeps(a: AppView)
    requires
        selection_in_range(a),
    ensures
        selection_in_range(down_step(a).0),
        down_step(a).0.search_mode == a.search_mode,
        down_step(a).0.entries == a.entries,
{
    if a.entries.len() > 0 {
        let sel: usize = if a.selected + 1 < a.entries.len() { (a.selected + 1) as usize } else { (a.entries.len() - 1) as usize };
        lemma_preview_keeps(AppView { selected: sel, list_state: Some(sel), ..a });
    }
}

proof fn lemma_up_keeps(a: AppView)
    requires
        selection_in_range(a),
    ensures
        selection_in_range(move_up_step(a).0),
        move_up_step(a).0.search_mode == a.search_mode,
        move_up_step(a).0.entries == a.entries,
{
    if a.selected > 0 {
        let sel = (a.selected - 1) as usize;
        lemma_preview_keeps(AppView { selected: sel, list_state: Some(sel), ..a });
    }
}

proof fn lemma_moves_down_keep(a: AppView, n: nat, act: ActionView)
    requires
        selection_in_range(a),
    ensures
        selection_in_range(moves_down(a, n, act).0),
    decreases n,
{
    if n > 0 {
        if a.entries.len() > 0 {
            lemma_down_keeps(a);
            let s = down_step(a);
            lemma_moves_down_keep(s.0, (n - 1) as nat, s.1);
        } else {
            lemma_moves_down_keep(a, (n - 1) as nat, act);
        }
    }
}

proof fn lemma_moves_up_keep(a: AppView, n: nat, act: ActionView)
    requires
        selection_in_range(a),
    ensures
        selection_in_range(moves_up(a, n, act).0),
    decreases n,
{
    if n > 0 {
        if a.selected > 0 {
            lemma_up_keeps(a);
            let s = move_up_step(a);
            lemma_moves_up_keep(s.0, (n - 1) as nat, s.1);
        } else {
            lemma_moves_up_keep(a, (n - 1) as nat, act);
        }
    }
}

/// Every key keeps the selection of the file list on one of its lines
/// (at 0 when it is empty), and likewise the shortcut selection.
pub proof fn law_keys_keep_selection(a: AppView, key: Key, ctrl: bool)
    requires
        selection_in_range(a),
    ensures
        selection_in_range(key_step(a, key, ctrl).0),
{
    lemma_down_keeps(a);
    lemma_up_keeps(a);
    lemma_moves_down_keep(a, 10, ActionView::Nothing);
    lemma_moves_up_keep(a, 10, ActionView::Nothing);
}

/// A new file list keeps the selection within it, and the list
/// highlights the selected line (none when the list is empty).
pub proof fn law_listing_keeps_selection(a: AppView, entries: Seq<EntryView>)
    requires
        selection_in_range(a),
    ensures
        selection_in_range(preview_step(loaded_state(a, entries)).0),
        preview_step(loaded_state(a, entries)).0.list_state == (if entries.len() == 0 {
            None
        } else {
            Some(preview_step(loaded_state(a, entries)).0.selected)
        }),
{
    lemma_preview_keeps(loaded_state(a, entries));
}

/// The answers of the file system keep the selections in range:
/// entering a folder, going home, checking a shortcut, deleting,
/// showing hidden files.
pub proof fn law_answers_keep_selection(a: AppView, path: Seq<char>, exists: bool, name: Seq<char>, outcome: Result<(), Seq<char>>)
    requires
        selection_in_range(a),
    ensures
        selection_in_range(home_step(a, path).0),
        selection_in_range(shortcut_checked_step(a, path, exists).0),
        selection_in_range(delete_done_step(a, name, outcome).0),
        selection_in_range(toggle_step(a).0),
        selection_in_range(up_step(a).0),
        selection_in_range(open_step(a).0),
{
}

/// Moving down and then up returns to the same line, unless the
/// selection was already on the last line.
pub proof fn law_down_then_up(a: AppView)
    requires
        selection_in_range(a),
        a.selected + 1 < a.entries.len(),
        a.entries.len() <= usize::MAX,
    ensures
        move_up_step(down_step(a).0).0.selected == a.selected,
        down_step(a).0.selected == a.selected + 1,
{
    lemma_down_keeps(a);
    let sel = (a.selected + 1) as usize;
    lemma_preview_keeps(AppView { selected: sel, list_state: Some(sel), ..a });
    let b = down_step(a).0;
    lemma_preview_keeps(AppView { selected: (b.selected - 1) as usize, list_state: Some((b.selected - 1) as usize), ..b });
}

/// While searching, typing a character and then Backspace gives back
/// the query.
pub proof fn law_type_then_erase(a: AppView, c: char)
    requires
        a.search_mode,
    ensures
        search_key_step(search_key_step(a, Key::Char(c)).0, Key::Backspace).0.search_query == a.search_query,
        key_step(key_step(a, Key::Char(c), false).0, Key::Backspace, false).0.search_query == a.search_query,
{
    assert(a.search_query.push(c).drop_last() =~= a.search_query);
}

/// Starting a search and pressing Esc leaves search mode with an empty
/// query.
pub proof fn law_search_then_escape(a: AppView)
    requires
        !a.search_mode,
    ensures
        key_step(key_step(a, Key::Char('/'), false).0, Key::Esc, false).0.search_mode == false,
        key_step(key_step(a, Key::Char('/'), false).0, Key::Esc, false).0.search_query == Seq::<char>::empty(),
        key_step(a, Key::Char('/'), false).0.search_mode,
{
}

/// Showing hidden files twice restores the setting.
pub proof fn law_toggle_twice(a: AppView)
    ensures
        toggle_step(toggle_step(a).0).0.show_hidden == a.show_hidden,
{
}

/// A key asks to quit exactly when it is `q`, or `c` with Control,
/// outside search.
pub proof fn law_quit_keys(a: AppView, key: Key, ctrl: bool)
    ensures
        (key_step(a, key, ctrl).1 == ActionView::Quit) <==> (!a.search_mode && (key == Key::Char('q') || (key == Key::Char('c') && ctrl))),
{
    if !a.search_mode {
        lemma_moves_down_quit(a, 10, ActionView::Nothing);
        lemma_moves_up_quit(a, 10, ActionView::Nothing);
    }
}

proof fn lemma_moves_down_quit(a: AppView, n: nat, act: ActionView)
    requires
        act != ActionView::Quit,
    ensures
        moves_down(a, n, act).1 != ActionView::Quit,
    decreases n,
{
    if n > 0 {
        if a.entries.len() > 0 {
            let s = down_step(a);
            lemma_moves_down_quit(s.0, (n - 1) as nat, s.1);
        } else {
            lemma_moves_down_quit(a, (n - 1) as nat, act);
        }
    }
}

proof fn lemma_moves_up_quit(a: AppView, n: nat, act: ActionView)
    requires
        act != ActionView::Quit,
    ensures
        moves_up(a, n, act).1 != ActionView::Quit,
    decreases n,
{
    if n > 0 {
        if a.selected > 0 {
            let s = move_up_step(a);
            lemma_moves_up_quit(s.0, (n - 1) as nat, s.1);
        } else {
            lemma_moves_up_quit(a, (n - 1) as nat, act);
        }
    }
}

/// The file list built from a directory shows exactly its shown entries,
/// folders first, names in order within folders and within files; no
/// hidden entry unless hidden files are shown; only names that match the
/// query.
pub proof fn law_file_list_order(out: Seq<EntryView>, items: Seq<ItemView>, show_hidden: bool, query: Seq<char>)
    requires
        stably_sorted(out, listing(items, show_hidden, query)),
    ensures
        out.len() == listing(items, show_hidden, query).len(),
        forall|k: int, l: int| 0 <= k < l < out.len() && out[l].is_dir ==> out[k].is_dir,
        forall|k: int, l: int| 0 <= k < l < out.len() && out[k].is_dir == out[l].is_dir ==> !text_lt(out[l].name, out[k].name),
        forall|k: int| 0 <= k < out.len() ==> listing(items, show_hidden, query).contains(#[trigger] out[k]),
        forall|e: EntryView| listing(items, show_hidden, query).contains(e) ==> out.contains(e),
        forall|k: int| 0 <= k < out.len() ==> (show_hidden || !is_hidden_name(#[trigger] out[k].name))
            && matches_query(out[k].name, query),
{
    let inp = listing(items, show_hidden, query);
    lemma_listing_shown(items, show_hidden, query);
    let p = choose|p: Seq<int>| sort_witness(p, out, inp);
    assert forall|k: int, l: int| 0 <= k < l < out.len() && out[l].is_dir implies out[k].is_dir by {
        assert(entry_lt(out[k], out[l]) || same_key(out[k], out[l]));
    }
    assert forall|k: int, l: int| 0 <= k < l < out.len() && out[k].is_dir == out[l].is_dir implies !text_lt(out[l].name, out[k].name) by {
        assert(entry_lt(out[k], out[l]) || same_key(out[k], out[l]));
        lemma_text_lt_total(out[k].name, out[l].name);
    }
    assert forall|k: int| 0 <= k < out.len() implies inp.contains(#[trigger] out[k]) by {
        assert(out[k] == inp[p[k]]);
    }
    assert forall|k: int| 0 <= k < out.len() implies (show_hidden || !is_hidden_name(#[trigger] out[k].name))
        && matches_query(out[k].name, query) by {
        assert(out[k] == inp[p[k]]);
    }
    assert forall|e: EntryView| inp.contains(e) implies out.contains(e) by {
        let j = choose|j: int| 0 <= j < inp.len() && inp[j] == e;
        lemma_permutation_onto(p, inp.len() as int, j);
        let k = choose|k: int| 0 <= k < p.len() && p[k] == j;
        assert(out[k] == e);
    }
}

/// Every line of a listing comes from an item that is shown.
proof fn lemma_listing_shown(items: Seq<ItemView>, show_hidden: bool, query: Seq<char>)
    ensures
        forall|k: int| 0 <= k < listing(items, show_hidden, query).len() ==>
            (show_hidden || !is_hidden_name(#[trigger] listing(items, show_hidden, query)[k].name))
            && matches_query(listing(items, show_hidden, query)[k].name, query),
    decreases items.len(),
{
    if items.len() > 0 {
        let rest = items.drop_last();
        lemma_listing_shown(rest, show_hidden, query);
        let l = listing(items, show_hidden, query);
        let r = listing(rest, show_hidden, query);
        assert(l =~= r + (match listed(items.last(), show_hidden, query) {
            Some(e) => seq![e],
            None => Seq::<EntryView>::empty(),
        }));
        assert forall|k: int| 0 <= k < l.len() implies (show_hidden || !is_hidden_name(#[trigger] l[k].name))
            && matches_query(l[k].name, query) by {
            if k < r.len() {
                assert(l[k] == r[k]);
            }
        }
    }
}

/// An injective map of `0..n` into `0..n` reaches every index.
proof fn lemma_permutation_onto(p: Seq<int>, n: int, j: int)
    requires
        p.len() == n,
        0 <= j < n,
        forall|k: int| 0 <= k < n ==> 0 <= #[trigger] p[k] < n,
        forall|k: int, l: int| 0 <= k < l < n ==> p[k] != p[l],
    ensures
        exists|k: int| 0 <= k < n && p[k] == j,
{
    if !(exists|k: int| 0 <= k < n && p[k] == j) {
        // p maps 0..n injectively into the n - 1 values other than j
        let s = Set::new(|x: int| 0 <= x < n && x != j);
        let img = p.to_set();
        assert(img.subset_of(s)) by {
            assert forall|x: int| img.contains(x) implies s.contains(x) by {
                let k = choose|k: int| 0 <= k < p.len() && p[k] == x;
            }
        }
        p.unique_seq_to_set();
        lemma_range_set_len(n, j);
        vstd::set_lib::lemma_len_subset(img, s);
    }
}

proof fn lemma_range_set_len(n: int, j: int)
    requires
        0 <= j < n,
    ensures
        Set::new(|x: int| 0 <= x < n && x != j).finite(),
        Set::new(|x: int| 0 <= x < n && x != j).len() == n - 1,
{
    let s = Set::new(|x: int| 0 <= x < n && x != j);
    let r = vstd::set_lib::set_int_range(0, n);
    vstd::set_lib::lemma_int_range(0, n);
    assert(s =~= r.remove(j));
}


/// `i` comes before `j` in the stable list order of `inp`.
spec fn before_in(inp: Seq<EntryView>, i: int, j: int) -> bool {
    entry_lt(inp[i], inp[j]) || (same_key(inp[i], inp[j]) && i < j)
}

/// Two duplicate-free sequences of the same indices, each in the stable
/// list order of `inp`, are equal.
proof fn lemma_order_enumeration_unique(inp: Seq<EntryView>, p1: Seq<int>, p2: Seq<int>)
    requires
        p1.len() == p2.len(),
        forall|x: int| p1.contains(x) <==> p2.contains(x),
        forall|k: int, l: int| 0 <= k < l < p1.len() ==> p1[k] != p1[l],
        forall|k: int, l: int| 0 <= k < l < p2.len() ==> p2[k] != p2[l],
        forall|k: int, l: int| #![trigger p1[k], p1[l]] 0 <= k < l < p1.len() ==> before_in(inp, p1[k], p1[l]),
        forall|k: int, l: int| #![trigger p2[k], p2[l]] 0 <= k < l < p2.len() ==> before_in(inp, p2[k], p2[l]),
    ensures
        p1 == p2,
    decreases p1.len(),
{
    if p1.len() > 0 {
        let a = p1[0];
        let b = p2[0];
        assert(p1.contains(a));
        let j = choose|j: int| 0 <= j < p2.len() && p2[j] == a;
        assert(p2.contains(b));
        let i = choose|i: int| 0 <= i < p1.len() && p1[i] == b;
        if a != b {
            assert(j > 0 && i > 0);
            assert(before_in(inp, b, a));
            assert(before_in(inp, a, b));
            lemma_entry_order(inp[a], inp[b]);
            assert(false);
        }
        let q1 = p1.drop_first();
        let q2 = p2.drop_first();
        assert forall|x: int| q1.contains(x) <==> q2.contains(x) by {
            if q1.contains(x) {
                let k = choose|k: int| 0 <= k < q1.len() && q1[k] == x;
                assert(p1[k + 1] == x && x != a);
                assert(p2.contains(x));
                let m = choose|m: int| 0 <= m < p2.len() && p2[m] == x;
                assert(m != 0);
                assert(q2[m - 1] == x);
            }
            if q2.contains(x) {
                let k = choose|k: int| 0 <= k < q2.len() && q2[k] == x;
                assert(p2[k + 1] == x && x != b);
                assert(p1.contains(x));
                let m = choose|m: int| 0 <= m < p1.len() && p1[m] == x;
                assert(m != 0);
                assert(q1[m - 1] == x);
            }
        }
        assert forall|k: int, l: int| #![trigger q1[k], q1[l]] 0 <= k < l < q1.len() implies before_in(inp, q1[k], q1[l]) by {
            assert(q1[k] == p1[k + 1] && q1[l] == p1[l + 1]);
        }
        assert forall|k: int, l: int| #![trigger q2[k], q2[l]] 0 <= k < l < q2.len() implies before_in(inp, q2[k], q2[l]) by {
            assert(q2[k] == p2[k + 1] && q2[l] == p2[l + 1]);
        }
        lemma_order_enumeration_unique(inp, q1, q2);
        assert(p1 =~= p2) by {
            assert forall|k: int| 0 <= k < p1.len() implies p1[k] == p2[k] by {
                if k > 0 {
                    assert(p1[k] == q1[k - 1] && p2[k] == q2[k - 1]);
                }
            }
        }
    }
}

/// The file list of a directory is determined by it: two stable sorts
/// of the same lines are equal.
pub proof fn law_file_list_unique(out1: Seq<EntryView>, out2: Seq<EntryView>, inp: Seq<EntryView>)
    requires
        stably_sorted(out1, inp),
        stably_sorted(out2, inp),
    ensures
        out1 == out2,
{
    let p1 = choose|p: Seq<int>| sort_witness(p, out1, inp);
    let p2 = choose|p: Seq<int>| sort_witness(p, out2, inp);
    let n = inp.len() as int;
    assert forall|k: int, l: int| #![trigger p1[k], p1[l]] 0 <= k < l < p1.len() implies before_in(inp, p1[k], p1[l]) by {
        assert(out1[k] == inp[p1[k]] && out1[l] == inp[p1[l]]);
    }
    assert forall|k: int, l: int| #![trigger p2[k], p2[l]] 0 <= k < l < p2.len() implies before_in(inp, p2[k], p2[l]) by {
        assert(out2[k] == inp[p2[k]] && out2[l] == inp[p2[l]]);
    }
    assert forall|x: int| p1.contains(x) <==> p2.contains(x) by {
        if p1.contains(x) {
            lemma_permutation_onto(p2, n, x);
        }
        if p2.contains(x) {
            lemma_permutation_onto(p1, n, x);
        }
    }
    lemma_order_enumeration_unique(inp, p1, p2);
    assert(out1 =~= out2) by {
        assert forall|k: int| 0 <= k < out1.len() implies out1[k] == out2[k] by {
            assert(out1[k] == inp[p1[k]] && out2[k] == inp[p2[k]]);
        }
    }
}


/// A stable sort of `inp` is the stable sort of all but its last line,
/// with the last line inserted before the first line it comes before.
proof fn lemma_split_last(out: Seq<EntryView>, inp: Seq<EntryView>) -> (res: (Seq<EntryView>, int))
    requires
        stably_sorted(out, inp),
        inp.len() > 0,
    ensures
        stably_sorted(res.0, inp.drop_last()),
        0 <= res.1 <= res.0.len(),
        out == res.0.insert(res.1, inp.last()),
        forall|k: int| 0 <= k < res.1 ==> !entry_lt(inp.last(), #[trigger] res.0[k]),
        forall|k: int| res.1 <= k < res.0.len() ==> entry_lt(inp.last(), #[trigger] res.0[k]),
{
    let n = inp.len() as int;
    let x = inp.last();
    let p = choose|p: Seq<int>| sort_witness(p, out, inp);
    lemma_permutation_onto(p, n, n - 1);
    let pos = choose|k: int| 0 <= k < n && p[k] == n - 1;
    let o2 = out.remove(pos);
    let p2 = p.remove(pos);
    let rest = inp.drop_last();
    assert forall|k: int| 0 <= k < p2.len() implies 0 <= #[trigger] p2[k] < rest.len() && o2[k] == rest[p2[k]] by {
        let j = if k < pos { k } else { k + 1 };
        assert(p2[k] == p[j] && o2[k] == out[j]);
        if k < pos {
            assert(p[k] != p[pos]);
        } else {
            assert(p[pos] != p[k + 1]);
        }
    }
    assert forall|k: int, l: int| 0 <= k < l < p2.len() implies p2[k] != p2[l] by {
        let k1 = if k < pos { k } else { k + 1 };
        let l1 = if l < pos { l } else { l + 1 };
        assert(p2[k] == p[k1] && p2[l] == p[l1]);
    }
    assert forall|k: int, l: int| #![trigger o2[k], o2[l]] 0 <= k < l < o2.len() implies
        entry_lt(o2[k], o2[l]) || (same_key(o2[k], o2[l]) && p2[k] < p2[l]) by {
        let k1 = if k < pos { k } else { k + 1 };
        let l1 = if l < pos { l } else { l + 1 };
        assert(p2[k] == p[k1] && p2[l] == p[l1]);
        assert(o2[k] == out[k1] && o2[l] == out[l1]);
    }
    assert(sort_witness(p2, o2, rest));
    assert forall|k: int| 0 <= k < pos implies !entry_lt(x, #[trigger] o2[k]) by {
        assert(o2[k] == out[k]);
        assert(out[pos] == x);
        lemma_entry_order(out[k], x);
    }
    assert forall|k: int| pos <= k < o2.len() implies entry_lt(x, #[trigger] o2[k]) by {
        assert(o2[k] == out[k + 1]);
        assert(out[pos] == x);
        assert(p[k + 1] < n - 1);
    }
    assert(out =~= o2.insert(pos, x));
    (o2, pos)
}

/// Keeping the lines that satisfy `keep` of a stable sort gives the
/// stable sort of the lines of the input that satisfy `keep`.
proof fn lemma_filter_sorted(out: Seq<EntryView>, inp: Seq<EntryView>, keep: spec_fn(EntryView) -> bool)
    requires
        stably_sorted(out, inp),
    ensures
        stably_sorted(out.filter(keep), inp.filter(keep)),
    decreases inp.len(),
{
    reveal(Seq::filter);
    if inp.len() == 0 {
        let p = choose|p: Seq<int>| sort_witness(p, out, inp);
        assert(out.len() == 0);
        assert(sort_witness(Seq::<int>::empty(), out.filter(keep), inp.filter(keep)));
    } else {
        let x = inp.last();
        let rest = inp.drop_last();
        let (o2, pos) = lemma_split_last(out, inp);
        lemma_filter_sorted(o2, rest, keep);
        assert(inp =~= rest.push(x));
        rest.lemma_filter_push(x, keep);
        let a1 = o2.take(pos);
        let a2 = o2.skip(pos);
        assert(o2 =~= a1 + a2);
        assert(out =~= a1 + seq![x] + a2);
        Seq::filter_distributes_over_add(a1, a2, keep);
        Seq::filter_distributes_over_add(a1 + seq![x], a2, keep);
        Seq::filter_distributes_over_add(a1, seq![x], keep);
        Seq::<EntryView>::empty().lemma_filter_push(x, keep);
        assert(Seq::<EntryView>::empty().push(x) =~= seq![x]);
        assert(Seq::<EntryView>::empty().filter(keep) =~= Seq::<EntryView>::empty());
        assert(seq![x].filter(keep) =~= (if keep(x) { seq![x] } else { Seq::<EntryView>::empty() }));
        assert((a1 + seq![x]).filter(keep) =~= a1.filter(keep) + (if keep(x) { seq![x] } else { Seq::<EntryView>::empty() }));
        if keep(x) {
            let f1 = a1.filter(keep);
            let f2 = a2.filter(keep);
            let fo = o2.filter(keep);
            assert(fo == f1 + f2);
            assert(out.filter(keep) =~= fo.insert(f1.len() as int, x)) by {
                assert(out.filter(keep) == f1 + seq![x] + f2);
            }
            let p = choose|p: Seq<int>| sort_witness(p, fo, rest.filter(keep));
            assert forall|k: int| 0 <= k < f1.len() implies !entry_lt(x, #[trigger] fo[k]) by {
                assert(fo[k] == f1[k]);
                assert(f1.contains(f1[k]));
                a1.lemma_filter_contains_rev(keep, f1[k]);
                let j = choose|j: int| 0 <= j < a1.len() && a1[j] == f1[k];
                assert(a1[j] == o2[j]);
            }
            assert forall|k: int| f1.len() <= k < fo.len() implies entry_lt(x, #[trigger] fo[k]) by {
                assert(fo[k] == f2[k - f1.len()]);
                assert(f2.contains(f2[k - f1.len()]));
                a2.lemma_filter_contains_rev(keep, f2[k - f1.len()]);
                let j = choose|j: int| 0 <= j < a2.len() && a2[j] == f2[k - f1.len()];
                assert(a2[j] == o2[pos + j]);
            }
            lemma_insert_sorted(p, fo, rest.filter(keep), x, f1.len() as int);
            assert(sort_witness(p.insert(f1.len() as int, rest.filter(keep).len() as int), out.filter(keep), inp.filter(keep)));
        } else {
            assert(out.filter(keep) =~= o2.filter(keep)) by {
                assert(out.filter(keep) == a1.filter(keep) + a2.filter(keep));
            }
        }
    }
}

/// Whether a line is listed when hidden files are not shown.
pub open spec fn visible(e: EntryView) -> bool {
    !is_hidden_name(e.name)
}

proof fn lemma_listing_hidden(items: Seq<ItemView>, query: Seq<char>)
    ensures
        listing(items, false, query) == listing(items, true, query).filter(|e: EntryView| visible(e)),
    decreases items.len(),
{
    reveal(Seq::filter);
    let keep = |e: EntryView| visible(e);
    if items.len() == 0 {
        assert(listing(items, false, query) =~= Seq::<EntryView>::empty());
        assert(listing(items, true, query) =~= Seq::<EntryView>::empty());
    } else {
        let rest = items.drop_last();
        let it = items.last();
        lemma_listing_hidden(rest, query);
        let all = listing(rest, true, query);
        all.lemma_filter_push(entry_of(it), keep);
        if shown(it, true, query) {
            assert(listing(items, true, query) =~= all.push(entry_of(it)));
        } else {
            assert(listing(items, true, query) =~= all);
        }
        if shown(it, false, query) {
            assert(listing(items, false, query) =~= listing(rest, false, query).push(entry_of(it)));
        } else {
            assert(listing(items, false, query) =~= listing(rest, false, query));
        }
    }
}

/// Whether a line is listed under the query `query`.
pub open spec fn matching(e: EntryView, query: Seq<char>) -> bool {
    matches_query(e.name, query)
}

proof fn lemma_listing_query(items: Seq<ItemView>, show_hidden: bool, query: Seq<char>)
    ensures
        listing(items, show_hidden, query)
            == listing(items, show_hidden, Seq::empty()).filter(|e: EntryView| matching(e, query)),
    decreases items.len(),
{
    reveal(Seq::filter);
    let keep = |e: EntryView| matching(e, query);
    let none = Seq::<char>::empty();
    if items.len() == 0 {
        assert(listing(items, show_hidden, query) =~= Seq::<EntryView>::empty());
        assert(listing(items, show_hidden, none) =~= Seq::<EntryView>::empty());
    } else {
        let rest = items.drop_last();
        let it = items.last();
        lemma_listing_query(rest, show_hidden, query);
        let all = listing(rest, show_hidden, none);
        all.lemma_filter_push(entry_of(it), keep);
        if shown(it, show_hidden, none) {
            assert(listing(items, show_hidden, none) =~= all.push(entry_of(it)));
        } else {
            assert(listing(items, show_hidden, none) =~= all);
        }
        if shown(it, show_hidden, query) {
            assert(listing(items, show_hidden, query) =~= listing(rest, show_hidden, query).push(entry_of(it)));
        } else {
            assert(listing(items, show_hidden, query) =~= listing(rest, show_hidden, query));
        }
    }
}

/// The file list without hidden files is the file list with them, less
/// the names that start with a dot, in the same order.
pub proof fn law_hidden_files_filter(with_hidden: Seq<EntryView>, without: Seq<EntryView>, items: Seq<ItemView>, query: Seq<char>)
    requires
        stably_sorted(with_hidden, listing(items, true, query)),
        stably_sorted(without, listing(items, false, query)),
    ensures
        without == with_hidden.filter(|e: EntryView| visible(e)),
{
    lemma_listing_hidden(items, query);
    lemma_filter_sorted(with_hidden, listing(items, true, query), |e: EntryView| visible(e));
    law_file_list_unique(without, with_hidden.filter(|e: EntryView| visible(e)), listing(items, false, query));
}

/// The file list under a query is the file list without one, less the
/// names whose lower-cased text does not hold the lower-cased query, in
/// the same order.
pub proof fn law_query_filter(unfiltered: Seq<EntryView>, filtered: Seq<EntryView>, items: Seq<ItemView>, show_hidden: bool, query: Seq<char>)
    requires
        stably_sorted(unfiltered, listing(items, show_hidden, Seq::empty())),
        stably_sorted(filtered, listing(items, show_hidden, query)),
    ensures
        filtered == unfiltered.filter(|e: EntryView| matching(e, query)),
{
    lemma_listing_query(items, show_hidden, query);
    lemma_filter_sorted(unfiltered, listing(items, show_hidden, Seq::empty()), |e: EntryView| matching(e, query));
    law_file_list_unique(filtered, unfiltered.filter(|e: EntryView| matching(e, query)), listing(items, show_hidden, query));
}

/// Opening a folder and then going up returns to the folder it was
/// opened from (as paths compare), with the first line selected and no
/// query. The premise on the parent is what `App::open_selected` ensures
/// when the folder's name is one normal path component.
pub proof fn law_open_then_up(a: AppView)
    requires
        a.selected < a.entries.len(),
        a.entries[a.selected as int].is_dir,
        parent_path(open_step(a).0.current_path) is Some,
        same_path(parent_path(open_step(a).0.current_path)->0, a.current_path),
    ensures
        same_path(up_step(open_step(a).0).0.current_path, a.current_path),
        up_step(open_step(a).0).0.selected == 0,
        up_step(open_step(a).0).0.search_query == Seq::<char>::empty(),
        up_step(open_step(a).0).1 == reload_request(up_step(open_step(a).0).0),
{
}

/// Going up from a folder without a parent changes nothing and asks for
/// nothing.
pub proof fn law_up_at_root(a: AppView)
    requires
        parent_path(a.current_path) is None,
    ensures
        up_step(a).0 == a,
        up_step(a).1 == ActionView::Nothing,
{
}


/// Away from the home folder, a shortcut's icon depends on its final
/// component alone: it is the same whichever folder is home, the same for
/// any two paths with the same final component, and the plain folder icon
/// for every final component other than the usual subfolder names
/// (compared exactly), or for none.
pub proof fn law_shortcut_icon_by_name(path: Seq<char>, other_path: Seq<char>, home: Seq<char>, other_home: Seq<char>)
    requires
        !same_path(path, home),
        !same_path(path, other_home),
        !same_path(other_path, home),
    ensures
        shortcut_icon_text(path, home) == shortcut_icon_text(path, other_home),
        file_name_part(path) == file_name_part(other_path) ==> shortcut_icon_text(path, home) == shortcut_icon_text(other_path, home),
        (forall|k: int| 0 <= k < 6 ==> file_name_part(path) != Some(#[trigger] home_folder_names()[k]))
            ==> shortcut_icon_text(path, home) == "\u{f07c}"@,
{
    let names = home_folder_names();
    if forall|k: int| 0 <= k < 6 ==> file_name_part(path) != Some(#[trigger] names[k]) {
        assert(file_name_part(path) != Some(names[0]));
        assert(file_name_part(path) != Some(names[1]));
        assert(file_name_part(path) != Some(names[2]));
        assert(file_name_part(path) != Some(names[3]));
        assert(file_name_part(path) != Some(names[4]));
        assert(file_name_part(path) != Some(names[5]));
        if file_name_part(path) is None {
            reveal_strlit("Desktop");
            reveal_strlit("Documents");
            reveal_strlit("Downloads");
            reveal_strlit("Pictures");
            reveal_strlit("Music");
            reveal_strlit("Videos");
            assert(names[0].len() > 0 && names[1].len() > 0 && names[2].len() > 0);
            assert(names[3].len() > 0 && names[4].len() > 0 && names[5].len() > 0);
        }
    }
}


/// Shift+D asks to delete the selected entry, as a folder exactly when it
/// is one: its path in the current folder, its kind and its name, with
/// the state left as it is; with nothing selected it asks nothing. A
/// plain `d` deletes nothing.
pub proof fn law_delete_key(a: AppView, ctrl: bool)
    requires
        !a.search_mode,
    ensures
        a.selected < a.entries.len() ==> key_step(a, Key::Char('D'), ctrl) == (a, (ActionView::Delete {
            path: joined_path(a.current_path, a.entries[a.selected as int].name),
            is_dir: a.entries[a.selected as int].is_dir,
            name: a.entries[a.selected as int].name,
        })),
        a.selected < a.entries.len() ==> key_step(a, Key::Char('D'), ctrl).1->Delete_is_dir == a.entries[a.selected as int].is_dir,
        a.selected >= a.entries.len() ==> key_step(a, Key::Char('D'), ctrl) == (a, ActionView::Nothing),
        !(key_step(a, Key::Char('d'), ctrl).1 is Delete),
{
}

/// Enter on the shortcut pane opens the folder of the selected line:
/// line `i` below the shortcuts is the shortcut `i`, the lines after them
/// are the volumes in order, so line `shortcuts.len() + j` opens volume
/// `j`; a line past the end opens nothing. The state is left as it is.
pub proof fn law_shortcut_lines_open_their_folder(a: AppView, ctrl: bool, j: int)
    requires
        !a.search_mode,
        a.focus == PanelFocus::Shortcuts,
    ensures
        key_step(a, Key::Enter, ctrl).0 == a,
        0 <= j < a.shortcuts.len() && a.shortcut_selected == j ==>
            key_step(a, Key::Enter, ctrl).1 == (ActionView::CheckShortcut { path: a.shortcuts[j] }),
        0 <= j < a.disks.len() && a.shortcut_selected == a.shortcuts.len() + j ==>
            key_step(a, Key::Enter, ctrl).1 == (ActionView::CheckShortcut { path: a.disks[j].name }),
        a.shortcut_selected >= a.shortcuts.len() + a.disks.len() ==> key_step(a, Key::Enter, ctrl).1 == ActionView::Nothing,
{
}

/// Refreshing the preview of a selected file that is not an image asks to
/// read its size when its extension is a binary one, and its leading bytes
/// otherwise; an image is previewed by its path with nothing read.
pub proof fn law_preview_reads_by_extension(a: AppView)
    requires
        a.selected < a.entries.len(),
        !a.entries[a.selected as int].is_dir,
    ensures
        ({
            let e = a.entries[a.selected as int];
            let path = joined_path(a.current_path, e.name);
            &&& !is_image_ext(e.extension) && is_binary_ext(e.extension) ==>
                preview_step(a).1 == (ActionView::PreviewFile { path, ext: e.extension, read: FileRead::Size })
            &&& !is_image_ext(e.extension) && !is_binary_ext(e.extension) ==>
                preview_step(a).1 == (ActionView::PreviewFile { path, ext: e.extension, read: FileRead::Head })
            &&& is_image_ext(e.extension) ==> preview_step(a).1 == ActionView::Nothing
                && preview_step(a).0.preview_content == "\u{f02e9}  Images\n\n"@ + path
        }),
{
}

/// Moving the selection down onto a file that is not an image asks for
/// what that file's extension needs: its size for a binary extension, its
/// leading bytes otherwise.
pub proof fn law_down_onto_file_reads_by_extension(a: AppView, ctrl: bool)
    requires
        !a.search_mode,
        a.focus == PanelFocus::FileList,
        a.entries.len() <= usize::MAX,
        a.selected + 1 < a.entries.len(),
        !a.entries[a.selected + 1].is_dir,
        !is_image_ext(a.entries[a.selected + 1].extension),
    ensures
        ({
            let e = a.entries[a.selected + 1];
            let path = joined_path(a.current_path, e.name);
            let read = if is_binary_ext(e.extension) { FileRead::Size } else { FileRead::Head };
            &&& key_step(a, Key::Down, ctrl).1 == (ActionView::PreviewFile { path, ext: e.extension, read })
            &&& key_step(a, Key::Down, ctrl).0.selected == a.selected + 1
        }),
{
    let sel = (a.selected + 1) as usize;
    let b = AppView { selected: sel, list_state: Some(sel), ..a };
    assert(down_step(a) == preview_step(b));
    assert(b.entries[b.selected as int] == a.entries[a.selected + 1]);
}

/// Outside search, Enter, Right and `l` do the same. On the file list they
/// open the selected entry: a folder is entered (its path in the current
/// folder becomes current, its first line selected, the query dropped)
/// and listed; a file is handed to the system with the state unchanged.
pub proof fn law_open_keys(a: AppView, ctrl: bool)
    requires
        !a.search_mode,
    ensures
        key_step(a, Key::Enter, ctrl) == key_step(a, Key::Right, ctrl),
        key_step(a, Key::Enter, ctrl) == key_step(a, Key::Char('l'), ctrl),
        a.focus == PanelFocus::FileList && a.selected < a.entries.len() && a.entries[a.selected as int].is_dir ==> ({
            let path = joined_path(a.current_path, a.entries[a.selected as int].name);
            let s = key_step(a, Key::Enter, ctrl);
            &&& s.0.current_path == path
            &&& s.0.selected == 0
            &&& s.0.search_query == Seq::<char>::empty()
            &&& s.0.entries == a.entries
            &&& s.1 == (ActionView::ListDir { path })
        }),
        a.focus == PanelFocus::FileList && a.selected < a.entries.len() && !a.entries[a.selected as int].is_dir ==>
            key_step(a, Key::Enter, ctrl) == (a, (ActionView::OpenFile {
                path: joined_path(a.current_path, a.entries[a.selected as int].name),
            })),
        a.focus == PanelFocus::FileList && a.selected >= a.entries.len() ==> key_step(a, Key::Enter, ctrl) == (a, ActionView::Nothing),
{
}

/// Every item that is shown puts its line in the listing.
proof fn lemma_shown_listed(items: Seq<ItemView>, show_hidden: bool, query: Seq<char>)
    ensures
        forall|i: int| 0 <= i < items.len() && shown(#[trigger] items[i], show_hidden, query) ==>
            listing(items, show_hidden, query).contains(entry_of(items[i])),
    decreases items.len(),
{
    if items.len() > 0 {
        let rest = items.drop_last();
        lemma_shown_listed(rest, show_hidden, query);
        let l = listing(items, show_hidden, query);
        let r = listing(rest, show_hidden, query);
        assert(l =~= r + (match listed(items.last(), show_hidden, query) {
            Some(e) => seq![e],
            None => Seq::<EntryView>::empty(),
        }));
        assert forall|i: int| 0 <= i < items.len() && shown(#[trigger] items[i], show_hidden, query) implies
            l.contains(entry_of(items[i])) by {
            if i < rest.len() {
                assert(rest[i] == items[i]);
                let k = choose|k: int| 0 <= k < r.len() && r[k] == entry_of(rest[i]);
                assert(l[k] == r[k]);
            } else {
                assert(l[r.len() as int] == entry_of(items[i]));
            }
        }
    }
}

/// With hidden files not shown, the file list leaves out an item only for
/// a name whose first character is a dot: every item whose name does not
/// start with '.' and matches the query is listed, and no listed name
/// starts with '.'. With hidden files shown, every matching item is listed.
pub proof fn law_only_dot_names_hidden(out: Seq<EntryView>, items: Seq<ItemView>, show_hidden: bool, query: Seq<char>)
    requires
        stably_sorted(out, listing(items, show_hidden, query)),
    ensures
        forall|i: int| 0 <= i < items.len() && (show_hidden || items[i].name.len() == 0 || items[i].name[0] != '.')
            && matches_query(items[i].name, query) ==> out.contains(entry_of(#[trigger] items[i])),
        !show_hidden ==> forall|k: int| 0 <= k < out.len() ==> (#[trigger] out[k]).name.len() == 0 || out[k].name[0] != '.',
{
    law_file_list_order(out, items, show_hidden, query);
    lemma_shown_listed(items, show_hidden, query);
    assert forall|i: int| 0 <= i < items.len() && (show_hidden || items[i].name.len() == 0 || items[i].name[0] != '.')
        && matches_query(items[i].name, query) implies out.contains(entry_of(#[trigger] items[i])) by {
        assert(shown(items[i], show_hidden, query));
        assert(listing(items, show_hidden, query).contains(entry_of(items[i])));
    }
    if !show_hidden {
        assert forall|k: int| 0 <= k < out.len() implies (#[trigger] out[k]).name.len() == 0 || out[k].name[0] != '.' by {
            assert(!is_hidden_name(out[k].name));
        }
    }
}

} // verus!
