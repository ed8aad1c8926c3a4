//! Groups of a listing: the entries under one first segment, the names of
//! the groups in ascending order, and the entries of a group by key.

use crate::meta::{meta_views, OptionMeta, OptionMetaView};
use crate::order::comes_no_later;
use crate::order::{lemma_text_le_antisym, lemma_text_le_refl, lemma_text_le_total};
use crate::order::{lemma_text_le_trans, text_le, text_lt};
use crate::text::{first_index, same_text};
use vstd::prelude::*;
use vstd::seq_lib::to_multiset_insert;

verus! {

/// The group of a key: what stands before its first dot, or all of it
/// where it has no dot.
pub open spec fn group_of(key: Seq<char>) -> Seq<char> {
    match first_index(key, '.') {
        Some(i) => key.subrange(0, i),
        None => key,
    }
}

/// The entries of the group `g`, in the order of the listing.
pub open spec fn members(metas: Seq<OptionMetaView>, g: Seq<char>) -> Seq<OptionMetaView>
    decreases metas.len(),
{
    if metas.len() == 0 {
        Seq::empty()
    } else if group_of(metas.last().key) == g {
        members(metas.drop_last(), g).push(metas.last())
    } else {
        members(metas.drop_last(), g)
    }
}

/// A group with a member is the group of an entry of the listing.
pub proof fn lemma_members_come_from(metas: Seq<OptionMetaView>, g: Seq<char>)
    requires
        members(metas, g).len() > 0,
    ensures
        exists|i: int| 0 <= i < metas.len() && group_of(#[trigger] metas[i].key) == g,
    decreases metas.len(),
{
    if group_of(metas.last().key) == g {
        assert(group_of(metas[metas.len() - 1].key) == g);
    } else {
        lemma_members_come_from(metas.drop_last(), g);
        let i = choose|i: int|
            0 <= i < metas.drop_last().len() && group_of(#[trigger] metas.drop_last()[i].key) == g;
        assert(group_of(metas[i].key) == g);
    }
}

/// Whether each name comes before the next: ascending, and none twice.
pub open spec fn ascending(names: Seq<Seq<char>>) -> bool {
    forall|i: int, j: int| 0 <= i < j < names.len() ==> text_lt(names[i], names[j])
}

/// The ascending names `sorted` with `x` among them.
pub open spec fn insert_name(sorted: Seq<Seq<char>>, x: Seq<char>) -> Seq<Seq<char>>
    decreases sorted.len(),
{
    if sorted.len() == 0 {
        seq![x]
    } else if sorted.last() == x {
        sorted
    } else if text_le(sorted.last(), x) {
        sorted.push(x)
    } else {
        insert_name(sorted.drop_last(), x).push(sorted.last())
    }
}

/// The names of the groups of a listing, ascending, each once.
pub open spec fn group_names(metas: Seq<OptionMetaView>) -> Seq<Seq<char>>
    decreases metas.len(),
{
    if metas.len() == 0 {
        Seq::empty()
    } else {
        insert_name(group_names(metas.drop_last()), group_of(metas.last().key))
    }
}

/// Whether the keys of the entries never descend.
pub open spec fn by_key(entries: Seq<OptionMetaView>) -> bool {
    forall|i: int, j: int| 0 <= i < j < entries.len() ==> text_le(entries[i].key, entries[j].key)
}

/// The entries `sorted`, whose keys never descend, with `x` among them:
/// behind every entry whose key comes no later than its own.
pub open spec fn insert_entry(sorted: Seq<OptionMetaView>, x: OptionMetaView) -> Seq<
    OptionMetaView,
>
    decreases sorted.len(),
{
    if sorted.len() == 0 {
        seq![x]
    } else if text_le(sorted.last().key, x.key) {
        sorted.push(x)
    } else {
        insert_entry(sorted.drop_last(), x).push(sorted.last())
    }
}

/// The entries by key, ascending; entries with one key stay in the order
/// that they had.
pub open spec fn sort_entries(entries: Seq<OptionMetaView>) -> Seq<OptionMetaView>
    decreases entries.len(),
{
    if entries.len() == 0 {
        Seq::empty()
    } else {
        insert_entry(sort_entries(entries.drop_last()), entries.last())
    }
}

/// Inserting a name keeps the names ascending, and adds that name and no
/// other.
pub proof fn lemma_insert_name(sorted: Seq<Seq<char>>, x: Seq<char>)
    requires
        ascending(sorted),
    ensures
        ascending(insert_name(sorted, x)),
        forall|y: Seq<char>|
            #[trigger] insert_name(sorted, x).contains(y) <==> (sorted.contains(y) || y == x),
    decreases sorted.len(),
{
    let out = insert_name(sorted, x);
    if sorted.len() == 0 {
        assert(out[0] == x);
        assert forall|y: Seq<char>| out.contains(y) <==> (sorted.contains(y) || y == x) by {
            if y == x {
                assert(out[0] == y);
            }
        }
    } else if sorted.last() == x {
        assert(sorted[sorted.len() - 1] == x);
    } else if text_le(sorted.last(), x) {
        assert forall|i: int, j: int| 0 <= i < j < out.len() implies text_lt(out[i], out[j]) by {
            if j == sorted.len() {
                if i < sorted.len() - 1 {
                    assert(text_lt(sorted[i], sorted[sorted.len() - 1]));
                    lemma_text_le_trans(sorted[i], sorted.last(), x);
                    if sorted[i] == x {
                        lemma_text_le_antisym(sorted.last(), x);
                    }
                }
            }
        }
        assert forall|y: Seq<char>| out.contains(y) <==> (sorted.contains(y) || y == x) by {
            if sorted.contains(y) {
                let k = choose|k: int| 0 <= k < sorted.len() && sorted[k] == y;
                assert(out[k] == y);
            }
            if y == x {
                assert(out[sorted.len() as int] == y);
            }
        }
    } else {
        let rest = sorted.drop_last();
        let last = sorted.last();
        assert(ascending(rest)) by {
            assert forall|i: int, j: int| 0 <= i < j < rest.len() implies text_lt(
                rest[i],
                rest[j],
            ) by {
                assert(text_lt(sorted[i], sorted[j]));
            }
        }
        lemma_insert_name(rest, x);
        let inner = insert_name(rest, x);
        lemma_text_le_total(last, x);
        assert(text_lt(x, last));
        assert forall|i: int, j: int| 0 <= i < j < out.len() implies text_lt(out[i], out[j]) by {
            if j == inner.len() {
                assert(inner.contains(inner[i]));
                if rest.contains(inner[i]) {
                    let k = choose|k: int| 0 <= k < rest.len() && rest[k] == inner[i];
                    assert(text_lt(sorted[k], sorted[sorted.len() - 1]));
                }
            } else {
                assert(text_lt(inner[i], inner[j]));
            }
        }
        assert forall|y: Seq<char>| out.contains(y) <==> (sorted.contains(y) || y == x) by {
            if out.contains(y) {
                let k = choose|k: int| 0 <= k < out.len() && out[k] == y;
                if k < inner.len() {
                    assert(inner.contains(inner[k]));
                    if rest.contains(y) {
                        let r = choose|r: int| 0 <= r < rest.len() && rest[r] == y;
                        assert(sorted[r] == y);
                    }
                } else {
                    assert(sorted[sorted.len() - 1] == y);
                }
            }
            if sorted.contains(y) {
                let k = choose|k: int| 0 <= k < sorted.len() && sorted[k] == y;
                if k < rest.len() {
                    assert(rest[k] == y);
                    assert(rest.contains(y));
                    assert(inner.contains(y));
                    let r = choose|r: int| 0 <= r < inner.len() && inner[r] == y;
                    assert(out[r] == y);
                } else {
                    assert(out[inner.len() as int] == y);
                }
            }
            if y == x {
                assert(inner.contains(x));
                let r = choose|r: int| 0 <= r < inner.len() && inner[r] == x;
                assert(out[r] == y);
            }
        }
    }
}

/// The names of the groups are ascending, and they are the groups of the
/// entries: each of them, and no other name.
pub proof fn lemma_group_names(metas: Seq<OptionMetaView>)
    ensures
        ascending(group_names(metas)),
        forall|y: Seq<char>|
            #[trigger] group_names(metas).contains(y) <==> exists|i: int|
                0 <= i < metas.len() && group_of(#[trigger] metas[i].key) == y,
    decreases metas.len(),
{
    if metas.len() > 0 {
        let rest = metas.drop_last();
        let x = group_of(metas.last().key);
        lemma_group_names(rest);
        lemma_insert_name(group_names(rest), x);
        assert forall|y: Seq<char>|
            group_names(metas).contains(y) <==> exists|i: int|
                0 <= i < metas.len() && group_of(#[trigger] metas[i].key) == y by {
            if group_names(rest).contains(y) {
                let i = choose|i: int| 0 <= i < rest.len() && group_of(#[trigger] rest[i].key) == y;
                assert(group_of(metas[i].key) == y);
            }
            if y == x {
                assert(group_of(metas[metas.len() - 1].key) == y);
            }
            if exists|i: int| 0 <= i < metas.len() && group_of(#[trigger] metas[i].key) == y {
                let i = choose|i: int|
                    0 <= i < metas.len() && group_of(#[trigger] metas[i].key) == y;
                if i < rest.len() {
                    assert(group_of(rest[i].key) == y);
                }
            }
        }
    }
}

/// Ascending names are decided by which names they are: two ascending
/// sequences of the same names are one sequence.
pub proof fn lemma_ascending_unique(a: Seq<Seq<char>>, b: Seq<Seq<char>>)
    requires
        ascending(a),
        ascending(b),
        forall|y: Seq<char>| a.contains(y) <==> b.contains(y),
    ensures
        a == b,
    decreases a.len(),
{
    if a.len() == 0 {
        if b.len() > 0 {
            assert(b.contains(b[0]));
        }
        assert(a =~= b);
    } else {
        assert(a.contains(a.last()));
        let kb = choose|k: int| 0 <= k < b.len() && b[k] == a.last();
        assert(b.contains(b.last()));
        let ka = choose|k: int| 0 <= k < a.len() && a[k] == b.last();
        lemma_text_le_refl(a.last());
        assert(text_le(a.last(), b.last())) by {
            if kb < b.len() - 1 {
                assert(text_lt(b[kb], b[b.len() - 1]));
            }
        }
        assert(text_le(b.last(), a.last())) by {
            if ka < a.len() - 1 {
                assert(text_lt(a[ka], a[a.len() - 1]));
            }
        }
        lemma_text_le_antisym(a.last(), b.last());
        let ra = a.drop_last();
        let rb = b.drop_last();
        assert(ascending(ra)) by {
            assert forall|i: int, j: int| 0 <= i < j < ra.len() implies text_lt(ra[i], ra[j]) by {
                assert(text_lt(a[i], a[j]));
            }
        }
        assert(ascending(rb)) by {
            assert forall|i: int, j: int| 0 <= i < j < rb.len() implies text_lt(rb[i], rb[j]) by {
                assert(text_lt(b[i], b[j]));
            }
        }
        assert forall|y: Seq<char>| ra.contains(y) <==> rb.contains(y) by {
            if ra.contains(y) {
                let k = choose|k: int| 0 <= k < ra.len() && ra[k] == y;
                assert(text_lt(a[k], a[a.len() - 1]));
                assert(a.contains(y));
                let r = choose|r: int| 0 <= r < b.len() && b[r] == y;
                assert(rb[r] == y);
            }
            if rb.contains(y) {
                let k = choose|k: int| 0 <= k < rb.len() && rb[k] == y;
                assert(text_lt(b[k], b[b.len() - 1]));
                assert(b.contains(y));
                let r = choose|r: int| 0 <= r < a.len() && a[r] == y;
                assert(ra[r] == y);
            }
        }
        lemma_ascending_unique(ra, rb);
        assert(a =~= ra.push(a.last()));
        assert(b =~= rb.push(b.last()));
    }
}

/// Where `x` goes among the entries `sorted`: behind the last entry whose
/// key comes no later than its own.
pub open spec fn entry_slot(sorted: Seq<OptionMetaView>, x: OptionMetaView) -> int
    decreases sorted.len(),
{
    if sorted.len() == 0 {
        0
    } else if text_le(sorted.last().key, x.key) {
        sorted.len() as int
    } else {
        entry_slot(sorted.drop_last(), x)
    }
}

/// A position behind an entry that comes no later than `x`, and before
/// entries that all come later, is where `x` is inserted.
pub proof fn lemma_insert_entry_at(sorted: Seq<OptionMetaView>, x: OptionMetaView, pos: int)
    requires
        0 <= pos <= sorted.len(),
        forall|k: int| pos <= k < sorted.len() ==> !text_le(#[trigger] sorted[k].key, x.key),
        pos == 0 || text_le(sorted[pos - 1].key, x.key),
    ensures
        insert_entry(sorted, x) == sorted.insert(pos, x),
        entry_slot(sorted, x) == pos,
    decreases sorted.len() - pos,
{
    if sorted.len() == 0 {
        assert(seq![x] =~= sorted.insert(pos, x));
    } else if pos == sorted.len() {
        assert(sorted.push(x) =~= sorted.insert(pos, x));
    } else {
        let rest = sorted.drop_last();
        assert(!text_le(sorted[sorted.len() - 1].key, x.key));
        assert forall|k: int| pos <= k < rest.len() implies !text_le(
            #[trigger] rest[k].key,
            x.key,
        ) by {
            assert(rest[k] == sorted[k]);
        }
        lemma_insert_entry_at(rest, x, pos);
        assert(rest.insert(pos, x).push(sorted.last()) =~= sorted.insert(pos, x));
    }
}

/// Where `x` goes there is an entry no later than it before, and only
/// later entries behind.
pub proof fn lemma_entry_slot(sorted: Seq<OptionMetaView>, x: OptionMetaView)
    ensures
        0 <= entry_slot(sorted, x) <= sorted.len(),
        forall|k: int|
            entry_slot(sorted, x) <= k < sorted.len() ==> !text_le(#[trigger] sorted[k].key, x.key),
        entry_slot(sorted, x) == 0 || text_le(sorted[entry_slot(sorted, x) - 1].key, x.key),
        insert_entry(sorted, x) == sorted.insert(entry_slot(sorted, x), x),
    decreases sorted.len(),
{
    if sorted.len() > 0 && !text_le(sorted.last().key, x.key) {
        let rest = sorted.drop_last();
        lemma_entry_slot(rest, x);
        assert forall|k: int| entry_slot(sorted, x) <= k < sorted.len() implies !text_le(
            #[trigger] sorted[k].key,
            x.key,
        ) by {
            if k < rest.len() {
                assert(rest[k] == sorted[k]);
            }
        }
    }
    lemma_insert_entry_at(sorted, x, entry_slot(sorted, x));
}

/// Inserting an entry keeps the keys from descending, and adds that entry
/// and no other.
pub proof fn lemma_insert_entry(sorted: Seq<OptionMetaView>, x: OptionMetaView)
    requires
        by_key(sorted),
    ensures
        by_key(insert_entry(sorted, x)),
        insert_entry(sorted, x).to_multiset() == sorted.to_multiset().insert(x),
        insert_entry(sorted, x).len() == sorted.len() + 1,
{
    lemma_entry_slot(sorted, x);
    let pos = entry_slot(sorted, x);
    let out = sorted.insert(pos, x);
    to_multiset_insert(sorted, pos, x);
    assert forall|i: int, j: int| 0 <= i < j < out.len() implies text_le(
        out[i].key,
        out[j].key,
    ) by {
        if j == pos {
            assert(out[i] == sorted[i]);
            if i < pos - 1 {
                lemma_text_le_trans(sorted[i].key, sorted[pos - 1].key, x.key);
            }
        } else if i == pos {
            assert(out[j] == sorted[j - 1]);
            lemma_text_le_total(sorted[j - 1].key, x.key);
        } else {
            let si = if i < pos {
                i
            } else {
                i - 1
            };
            let sj = if j < pos {
                j
            } else {
                j - 1
            };
            assert(out[i] == sorted[si]);
            assert(out[j] == sorted[sj]);
        }
    }
}

/// Deterministic order within a group: the sorted entries are the entries,
/// each as often as it was there, and their keys never descend.
pub proof fn law_sorted_entries(entries: Seq<OptionMetaView>)
    ensures
        by_key(sort_entries(entries)),
        sort_entries(entries).to_multiset() == entries.to_multiset(),
        sort_entries(entries).len() == entries.len(),
    decreases entries.len(),
{
    broadcast use vstd::seq_lib::to_multiset_build, vstd::seq_lib::to_multiset_len;

    if entries.len() == 0 {
        assert(entries =~= Seq::<OptionMetaView>::empty());
    } else {
        let rest = entries.drop_last();
        law_sorted_entries(rest);
        lemma_insert_entry(sort_entries(rest), entries.last());
        assert(entries =~= rest.push(entries.last()));
    }
}

/// A position behind a name that comes no later than `x`, and before names
/// that all come later, is where `x` is inserted, unless it is there.
pub proof fn lemma_insert_name_at(sorted: Seq<Seq<char>>, x: Seq<char>, pos: int)
    requires
        0 <= pos <= sorted.len(),
        forall|k: int| pos <= k < sorted.len() ==> !text_le(#[trigger] sorted[k], x),
        pos == 0 || text_le(sorted[pos - 1], x),
    ensures
        insert_name(sorted, x) == if pos > 0 && sorted[pos - 1] == x {
            sorted
        } else {
            sorted.insert(pos, x)
        },
    decreases sorted.len() - pos,
{
    if sorted.len() == 0 {
        assert(seq![x] =~= sorted.insert(pos, x));
    } else if pos == sorted.len() {
        assert(sorted.push(x) =~= sorted.insert(pos, x));
    } else {
        let rest = sorted.drop_last();
        assert(!text_le(sorted[sorted.len() - 1], x));
        lemma_text_le_refl(x);
        assert forall|k: int| pos <= k < rest.len() implies !text_le(#[trigger] rest[k], x) by {
            assert(rest[k] == sorted[k]);
        }
        lemma_insert_name_at(rest, x, pos);
        if pos > 0 && sorted[pos - 1] == x {
            assert(rest.push(sorted.last()) =~= sorted);
        } else {
            assert(rest.insert(pos, x).push(sorted.last()) =~= sorted.insert(pos, x));
        }
    }
}

/// The names as sequences of characters.
pub open spec fn name_views(names: Seq<String>) -> Seq<Seq<char>> {
    names.map_values(|s: String| s@)
}

/// Puts the name `x` among the ascending `names`, unless it is there.
pub fn place_name(names: &mut Vec<String>, x: String)
    ensures
        name_views(final(names)@) == insert_name(name_views(old(names)@), x@),
{
    let ghost before = name_views(names@);
    let mut pos: usize = names.len();
    while pos > 0 && !comes_no_later(names[pos - 1].as_str(), x.as_str())
        invariant
            pos <= names.len(),
            *names == *old(names),
            before == name_views(names@),
            forall|k: int| pos <= k < before.len() ==> !text_le(#[trigger] before[k], x@),
        decreases pos,
    {
        pos -= 1;
    }
    proof {
        lemma_insert_name_at(before, x@, pos as int);
    }
    if pos > 0 && same_text(names[pos - 1].as_str(), x.as_str()) {
        return ;
    }
    names.insert(pos, x);
    assert(name_views(names@) =~= before.insert(pos as int, x@));
}

/// Puts the entry `x` among the `entries`, whose keys never descend:
/// behind every entry whose key comes no later than its own.
pub fn place_entry(entries: &mut Vec<OptionMeta>, x: OptionMeta)
    ensures
        meta_views(final(entries)@) == insert_entry(meta_views(old(entries)@), x@),
{
    let ghost before = meta_views(entries@);
    let mut pos: usize = entries.len();
    while pos > 0 && !comes_no_later(entries[pos - 1].key.as_str(), x.key.as_str())
        invariant
            pos <= entries.len(),
            *entries == *old(entries),
            before == meta_views(entries@),
            forall|k: int| pos <= k < before.len() ==> !text_le(#[trigger] before[k].key, x@.key),
        decreases pos,
    {
        pos -= 1;
    }
    proof {
        lemma_insert_entry_at(before, x@, pos as int);
    }
    let ghost xv = x@;
    entries.insert(pos, x);
    assert(meta_views(entries@) =~= before.insert(pos as int, xv));
}

/// The entries by key, ascending; entries with one key stay in the order
/// that they had.
pub fn sorted_by_key(entries: &Vec<OptionMeta>) -> (sorted: Vec<OptionMeta>)
    ensures
        meta_views(sorted@) == sort_entries(meta_views(entries@)),
{
    let mut sorted: Vec<OptionMeta> = Vec::new();
    let mut i: usize = 0;
    assert(meta_views(entries@).take(0) =~= Seq::<OptionMetaView>::empty());
    while i < entries.len()
        invariant
            i <= entries.len(),
            meta_views(sorted@) == sort_entries(meta_views(entries@).take(i as int)),
        decreases entries.len() - i,
    {
        let ghost upto = meta_views(entries@).take(i as int + 1);
        assert(upto.drop_last() =~= meta_views(entries@).take(i as int));
        assert(upto.last() == entries@[i as int]@);
        place_entry(&mut sorted, entries[i].clone());
        i += 1;
    }
    assert(meta_views(entries@).take(i as int) =~= meta_views(entries@));
    sorted
}

} // verus!
