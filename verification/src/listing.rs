//! Turning what a directory holds into the browser's file list: hidden
//! entries and search filtering, then directories first and names in
//! order, keeping the order of entries that compare equal.
use vstd::prelude::*;
use crate::paths::{extension_of, path_extension};
use crate::text::{
    chars_of, lemma_text_lt_total, lemma_text_lt_trans, lowercase, occurs, occurs_in, text_less, text_lt,
    to_lowercase,
};
use crate::types::{DirItem, EntryView, FileEntry, ItemView, entry_views, item_views};

verus! {

/// A name that starts with a dot is hidden.
pub open spec fn is_hidden_name(name: Seq<char>) -> bool {
    name.len() > 0 && name[0] == '.'
}

/// An empty query matches every name; otherwise the query, lower-cased,
/// must occur in the lower-cased name.
pub open spec fn matches_query(name: Seq<char>, query: Seq<char>) -> bool {
    query.len() == 0 || occurs_in(lowercase(query), lowercase(name))
}

/// Whether an item appears in the list.
pub open spec fn shown(item: ItemView, show_hidden: bool, query: Seq<char>) -> bool {
    (show_hidden || !is_hidden_name(item.name)) && matches_query(item.name, query)
}

/// The list line for an item: directories have size 0 and no extension;
/// a file's extension is lower-cased.
pub open spec fn entry_of(item: ItemView) -> EntryView {
    EntryView {
        name: item.name,
        is_dir: item.is_dir,
        size: if item.is_dir { 0 } else { item.len },
        extension: if item.is_dir { Seq::empty() } else { lowercase(extension_of(item.name)) },
    }
}

/// The list line for an item that is shown.
pub open spec fn listed(item: ItemView, show_hidden: bool, query: Seq<char>) -> Option<EntryView> {
    if shown(item, show_hidden, query) { Some(entry_of(item)) } else { None }
}

/// The lines of the shown items, in the order the directory gave them.
pub open spec fn listing(items: Seq<ItemView>, show_hidden: bool, query: Seq<char>) -> Seq<EntryView> {
    items.filter_map(|it: ItemView| listed(it, show_hidden, query))
}

/// The list order: directories before files, then names in `String` order.
pub open spec fn entry_lt(a: EntryView, b: EntryView) -> bool {
    (a.is_dir && !b.is_dir) || (a.is_dir == b.is_dir && text_lt(a.name, b.name))
}

/// Two lines that the list order does not separate.
pub open spec fn same_key(a: EntryView, b: EntryView) -> bool {
    a.is_dir == b.is_dir && a.name == b.name
}

/// Each line comes no later than the next in the list order.
pub open spec fn weakly_sorted(s: Seq<EntryView>) -> bool {
    forall|k: int, l: int| 0 <= k < l < s.len() ==> entry_lt(s[k], s[l]) || same_key(s[k], s[l])
}

/// `p` witnesses that `out` is `inp` sorted stably: `out[k]` is
/// `inp[p[k]]`, `p` is a permutation, and lines come in the list order,
/// lines with equal keys in their input order.
pub open spec fn sort_witness(p: Seq<int>, out: Seq<EntryView>, inp: Seq<EntryView>) -> bool {
    &&& p.len() == inp.len()
    &&& out.len() == inp.len()
    &&& forall|k: int| 0 <= k < p.len() ==> 0 <= #[trigger] p[k] < inp.len() && out[k] == inp[p[k]]
    &&& forall|k: int, l: int| 0 <= k < l < p.len() ==> p[k] != p[l]
    &&& forall|k: int, l: int| #![trigger out[k], out[l]] 0 <= k < l < out.len() ==>
        entry_lt(out[k], out[l]) || (same_key(out[k], out[l]) && p[k] < p[l])
}

/// `out` is the stable sort of `inp` in the list order.
pub open spec fn stably_sorted(out: Seq<EntryView>, inp: Seq<EntryView>) -> bool {
    exists|p: Seq<int>| sort_witness(p, out, inp)
}

/// The list order is a strict order in which lines with different keys
/// are comparable.
pub proof fn lemma_entry_order(a: EntryView, b: EntryView)
    ensures
        !entry_lt(a, a),
        !(entry_lt(a, b) && entry_lt(b, a)),
        entry_lt(a, b) || entry_lt(b, a) || same_key(a, b),
{
    lemma_text_lt_total(a.name, b.name);
}

/// The list order is transitive.
pub proof fn lemma_entry_lt_trans(a: EntryView, b: EntryView, c: EntryView)
    requires
        entry_lt(a, b),
        entry_lt(b, c),
    ensures
        entry_lt(a, c),
{
    if a.is_dir == b.is_dir && b.is_dir == c.is_dir {
        lemma_text_lt_trans(a.name, b.name, c.name);
    }
}

proof fn lemma_witness_sorted(p: Seq<int>, out: Seq<EntryView>, inp: Seq<EntryView>)
    requires
        sort_witness(p, out, inp),
    ensures
        weakly_sorted(out),
{
}

pub(crate) proof fn lemma_insert_sorted(p: Seq<int>, out: Seq<EntryView>, inp: Seq<EntryView>, x: EntryView, pos: int)
    requires
        sort_witness(p, out, inp),
        0 <= pos <= out.len(),
        forall|k: int| 0 <= k < pos ==> !entry_lt(x, #[trigger] out[k]),
        forall|k: int| pos <= k < out.len() ==> entry_lt(x, #[trigger] out[k]),
    ensures
        sort_witness(p.insert(pos, inp.len() as int), out.insert(pos, x), inp.push(x)),
{
    let p2 = p.insert(pos, inp.len() as int);
    let o2 = out.insert(pos, x);
    let i2 = inp.push(x);
    assert forall|k: int| 0 <= k < p2.len() implies 0 <= #[trigger] p2[k] < i2.len() && o2[k] == i2[p2[k]] by {
        if k < pos {
            assert(p2[k] == p[k]);
        } else if k > pos {
            assert(p2[k] == p[k - 1]);
        }
    }
    assert forall|k: int, l: int| 0 <= k < l < p2.len() implies p2[k] != p2[l] by {
        if k != pos && l != pos {
            let k1 = if k < pos { k } else { k - 1 };
            let l1 = if l < pos { l } else { l - 1 };
            assert(p2[k] == p[k1] && p2[l] == p[l1]);
        } else if k == pos {
            assert(p2[l] == p[l - 1]);
        } else {
            assert(p2[k] == p[k]);
        }
    }
    assert forall|k: int, l: int| #![trigger o2[k], o2[l]] 0 <= k < l < o2.len() implies
        entry_lt(o2[k], o2[l]) || (same_key(o2[k], o2[l]) && p2[k] < p2[l]) by {
        let k1 = if k < pos { k } else { k - 1 };
        let l1 = if l < pos { l } else { l - 1 };
        if k != pos && l != pos {
            assert(o2[k] == out[k1] && o2[l] == out[l1]);
            assert(p2[k] == p[k1] && p2[l] == p[l1]);
        } else if k == pos {
            assert(o2[l] == out[l1]);
            assert(entry_lt(x, out[l1]));
        } else {
            assert(o2[k] == out[k]);
            assert(p2[k] == p[k]);
            assert(!entry_lt(x, out[k]));
            lemma_entry_order(x, out[k]);
            if same_key(out[k], x) {
                assert(p[k] < inp.len());
            }
        }
    }
}

/// Whether `x` (named `x_name`) comes before the line `e` (named `e_name`).
fn comes_before(x: &FileEntry, x_name: &Vec<char>, e: &FileEntry, e_name: &Vec<char>) -> (b: bool)
    requires
        x_name@ == x.name@,
        e_name@ == e.name@,
    ensures
        b == entry_lt(x@, e@),
{
    if x.is_dir != e.is_dir {
        x.is_dir
    } else {
        text_less(x_name, e_name)
    }
}

/// The first position in the sorted `out` whose line `x` comes before.
fn insert_position(out: &Vec<FileEntry>, keys: &Vec<Vec<char>>, x: &FileEntry, x_name: &Vec<char>) -> (pos: usize)
    requires
        x_name@ == x.name@,
        keys@.len() == out@.len(),
        forall|k: int| 0 <= k < keys@.len() ==> (#[trigger] keys@[k])@ == out@[k].name@,
        weakly_sorted(entry_views(out@)),
    ensures
        pos <= out@.len(),
        forall|k: int| 0 <= k < pos ==> !entry_lt(x@, #[trigger] entry_views(out@)[k]),
        forall|k: int| pos <= k < out@.len() ==> entry_lt(x@, #[trigger] entry_views(out@)[k]),
{
    let ghost s = entry_views(out@);
    let mut lo: usize = 0;
    let mut hi: usize = out.len();
    while lo < hi
        invariant
            lo <= hi <= out@.len(),
            s == entry_views(out@),
            x_name@ == x.name@,
            keys@.len() == out@.len(),
            forall|k: int| 0 <= k < keys@.len() ==> (#[trigger] keys@[k])@ == out@[k].name@,
            weakly_sorted(s),
            forall|k: int| 0 <= k < lo ==> !entry_lt(x@, #[trigger] s[k]),
            forall|k: int| hi <= k < out@.len() ==> entry_lt(x@, #[trigger] s[k]),
        decreases hi - lo,
    {
        let mid = lo + (hi - lo) / 2;
        assert(keys@[mid as int]@ == out@[mid as int].name@);
        if comes_before(x, x_name, &out[mid], &keys[mid]) {
            assert forall|k: int| mid <= k < out@.len() implies entry_lt(x@, #[trigger] s[k]) by {
                if k > mid {
                    lemma_entry_order(s[mid as int], s[k]);
                    if entry_lt(s[mid as int], s[k]) {
                        lemma_entry_lt_trans(x@, s[mid as int], s[k]);
                    }
                }
            }
            hi = mid;
        } else {
            assert forall|k: int| 0 <= k <= mid implies !entry_lt(x@, #[trigger] s[k]) by {
                if k < mid && entry_lt(x@, s[k]) {
                    if entry_lt(s[k], s[mid as int]) {
                        lemma_entry_lt_trans(x@, s[k], s[mid as int]);
                    }
                }
            }
            lo = mid + 1;
        }
    }
    lo
}

/// Whether `item` appears in the list; `q_low` is the lower-cased query.
fn keeps(item: &DirItem, show_hidden: bool, query: &str, q_low: &Vec<char>) -> (b: bool)
    requires
        q_low@ == lowercase(query@),
    ensures
        b == shown(item@, show_hidden, query@),
{
    let name = chars_of(item.name.as_str());
    if !show_hidden && name.len() > 0 && name[0] == '.' {
        return false;
    }
    if !query.is_empty() {
        let lowered = to_lowercase(item.name.as_str());
        let name_low = chars_of(lowered.as_str());
        if !occurs(q_low, &name_low) {
            return false;
        }
    }
    true
}

/// The list line for an item.
fn entry_for(item: &DirItem) -> (e: FileEntry)
    ensures
        e@ == entry_of(item@),
{
    let size = if item.is_dir { 0 } else { item.len };
    let extension = if item.is_dir {
        String::new()
    } else {
        let ext = path_extension(item.name.as_str());
        to_lowercase(ext.as_str())
    };
    FileEntry { name: item.name.clone(), is_dir: item.is_dir, size, extension }
}

/// The file list for a directory whose entries are `items`: entries
/// starting with a dot only when `show_hidden`, entries whose lower-cased
/// name holds the lower-cased `query` only (all when it is empty),
/// directories first, then by name, equal keys in directory order.
pub fn read_dir_entries(items: &Vec<DirItem>, show_hidden: bool, query: &str) -> (entries: Vec<FileEntry>)
    ensures
        stably_sorted(entry_views(entries@), listing(item_views(items@), show_hidden, query@)),
{
    let q_lowered = to_lowercase(query);
    let q_low = chars_of(q_lowered.as_str());
    let mut out: Vec<FileEntry> = Vec::new();
    let mut keys: Vec<Vec<char>> = Vec::new();
    let ghost mut p: Seq<int> = Seq::empty();
    let ghost iv = item_views(items@);
    let ghost f = |it: ItemView| listed(it, show_hidden, query@);
    proof {
        assert(iv.take(0) =~= Seq::<ItemView>::empty());
        assert(listing(iv.take(0), show_hidden, query@) =~= Seq::<EntryView>::empty());
        assert(entry_views(out@) =~= Seq::<EntryView>::empty());
    }
    let mut i: usize = 0;
    while i < items.len()
        invariant
            i <= items.len(),
            iv == item_views(items@),
            f == (|it: ItemView| listed(it, show_hidden, query@)),
            q_low@ == lowercase(query@),
            keys@.len() == out@.len(),
            forall|k: int| 0 <= k < keys@.len() ==> (#[trigger] keys@[k])@ == out@[k].name@,
            sort_witness(p, entry_views(out@), iv.take(i as int).filter_map(f)),
        decreases items.len() - i,
    {
        let ghost before = iv.take(i as int).filter_map(f);
        proof {
            iv.lemma_filter_map_take_succ(f, i as int);
        }
        let item = &items[i];
        if keeps(item, show_hidden, query, &q_low) {
            let entry = entry_for(item);
            let name_chars = chars_of(item.name.as_str());
            proof {
                lemma_witness_sorted(p, entry_views(out@), before);
            }
            let pos = insert_position(&out, &keys, &entry, &name_chars);
            let ghost old_out = entry_views(out@);
            proof {
                lemma_insert_sorted(p, old_out, before, entry@, pos as int);
                p = p.insert(pos as int, before.len() as int);
            }
            let ghost old_keys = keys@;
            out.insert(pos, entry);
            keys.insert(pos, name_chars);
            proof {
                assert(entry_views(out@) =~= old_out.insert(pos as int, entry_of(iv[i as int])));
                assert(iv.take(i + 1).filter_map(f) =~= before.push(entry_of(iv[i as int])));
                assert forall|k: int| 0 <= k < keys@.len() implies (#[trigger] keys@[k])@ == out@[k].name@ by {
                    if k > pos {
                        assert(keys@[k] == old_keys[k - 1]);
                    }
                }
            }
        } else {
            proof {
                assert(iv.take(i + 1).filter_map(f) =~= before);
            }
        }
        i += 1;
    }
    proof {
        assert(iv.take(items@.len() as int) =~= iv);
    }
    out
}

} // verus!
