//! Laws of the inventory: properties that relate several operations, proved
//! once and for all over the mathematical model.

use vstd::prelude::*;

use crate::inventory::BucketModel;
use crate::inventory::all_entries;
use crate::inventory::distinct_kinds;
use crate::inventory::find_first;
use crate::inventory::find_id;
use crate::inventory::find_value;
use crate::inventory::has_kind;
use crate::inventory::index_of_kind;
use crate::inventory::is_model;
use crate::inventory::items_of;
use crate::inventory::lemma_all_entries_len;
use crate::inventory::lemma_index_of_kind_unique;
use crate::inventory::spec_add;
use crate::inventory::total_items;
use crate::inventory::with_items;
use crate::item::Item;
use crate::item::ItemKind;
use crate::item::ItemModel;

verus! {

/// Replacing one bucket's contents changes the total by the difference of
/// that bucket's length.
proof fn lemma_total_items_update(s: Seq<BucketModel>, i: int, b: BucketModel)
    requires
        0 <= i < s.len(),
    ensures
        total_items(s.update(i, b)) == total_items(s) - s[i].items.len() + b.items.len(),
    decreases s.len(),
{
    if i == 0 {
        assert(s.update(0, b).drop_first() =~= s.drop_first());
    } else {
        assert(s.update(i, b).drop_first() =~= s.drop_first().update(i - 1, b));
        lemma_total_items_update(s.drop_first(), i - 1, b);
        assert(s.update(i, b)[0] == s[0]);
    }
}

/// Appending a bucket adds its length to the total.
proof fn lemma_total_items_snoc(s: Seq<BucketModel>, b: BucketModel)
    ensures
        total_items(s.push(b)) == total_items(s) + b.items.len(),
    decreases s.len(),
{
    if s.len() == 0 {
        assert(s.push(b).drop_first() =~= Seq::<BucketModel>::empty());
        assert(s.push(b)[0] == b);
        assert(total_items(Seq::<BucketModel>::empty()) == 0);
    } else {
        assert(s.push(b).drop_first() =~= s.drop_first().push(b));
        lemma_total_items_snoc(s.drop_first(), b);
        assert(s.push(b)[0] == s[0]);
    }
}

/// What `find_first` reports is sound and complete: a nonnegative result is
/// the first index satisfying `p`; a negative one means no index does.
pub proof fn lemma_find_first_props(items: Seq<ItemModel>, p: spec_fn(ItemModel) -> bool)
    ensures
        -1 <= find_first(items, p) < items.len(),
        find_first(items, p) >= 0 ==> p(items[find_first(items, p)]) && (forall|l: int|
            0 <= l < find_first(items, p) ==> !p(items[l])),
        find_first(items, p) == -1 ==> (forall|l: int| 0 <= l < items.len() ==> !p(items[l])),
    decreases items.len(),
{
    if items.len() > 0 && !p(items[0]) {
        let d = items.drop_first();
        lemma_find_first_props(d, p);
        let jd = find_first(d, p);
        if jd >= 0 {
            assert(find_first(items, p) == jd + 1);
            assert(d[jd] == items[jd + 1]);
            assert forall|l: int| 0 <= l < jd + 1 implies !p(items[l]) by {
                if l > 0 {
                    assert(items[l] == d[l - 1]);
                }
            }
        } else {
            assert forall|l: int| 0 <= l < items.len() implies !p(items[l]) by {
                if l > 0 {
                    assert(items[l] == d[l - 1]);
                }
            }
        }
    }
}

/// Replacing the contents of the bucket of kind `k` keeps the buckets'
/// kinds distinct, stores exactly the replacement under `k`, and leaves
/// every other kind's items unchanged; the total changes by the difference.
proof fn lemma_with_items_props(s: Seq<BucketModel>, k: ItemKind, its: Seq<ItemModel>)
    requires
        distinct_kinds(s),
        has_kind(s, k),
    ensures
        distinct_kinds(with_items(s, k, its)),
        has_kind(with_items(s, k, its), k),
        items_of(with_items(s, k, its), k) == its,
        forall|k2: ItemKind| k2 != k ==> items_of(#[trigger] with_items(s, k, its), k2)
            == items_of(s, k2),
        total_items(with_items(s, k, its)) == total_items(s) - items_of(s, k).len() + its.len(),
    decreases s.len(),
{
    let i = index_of_kind(s, k);
    assert(0 <= i < s.len() && s[i].kind == k);
    let s2 = with_items(s, k, its);
    assert forall|l: int, j: int| 0 <= l < j < s2.len() implies s2[l].kind != s2[j].kind by {
        assert(s2[l].kind == s[l].kind);
        assert(s2[j].kind == s[j].kind);
    }
    lemma_index_of_kind_unique(s2, k, i);
    lemma_total_items_update(s, i, BucketModel { kind: k, items: its });
    assert forall|k2: ItemKind| k2 != k implies items_of(#[trigger] with_items(s, k, its), k2)
        == items_of(s, k2) by {
        if has_kind(s, k2) {
            let i2 = index_of_kind(s, k2);
            assert(0 <= i2 < s.len() && s[i2].kind == k2);
            assert(s2[i2].kind == k2);
            lemma_index_of_kind_unique(s2, k2, i2);
        } else {
            if has_kind(s2, k2) {
                let i2 = index_of_kind(s2, k2);
                assert(0 <= i2 < s2.len() && s2[i2].kind == k2);
                assert(s[i2].kind == k2);
            }
        }
    }
}

/// Adding an item of kind `k` keeps the buckets' kinds distinct, appends
/// the item to its kind's items, leaves every other kind's items unchanged,
/// and grows the total by one.
proof fn lemma_spec_add_props(s: Seq<BucketModel>, k: ItemKind, m: ItemModel)
    requires
        distinct_kinds(s),
    ensures
        distinct_kinds(spec_add(s, k, m)),
        has_kind(spec_add(s, k, m), k),
        items_of(spec_add(s, k, m), k) == items_of(s, k).push(m),
        forall|k2: ItemKind| k2 != k ==> items_of(#[trigger] spec_add(s, k, m), k2) == items_of(
            s,
            k2,
        ),
        total_items(spec_add(s, k, m)) == total_items(s) + 1,
{
    let s2 = spec_add(s, k, m);
    if has_kind(s, k) {
        let i = index_of_kind(s, k);
        assert(0 <= i < s.len() && s[i].kind == k);
        assert(s2 == with_items(s, k, s[i].items.push(m)));
        lemma_with_items_props(s, k, s[i].items.push(m));
    } else {
        let nb = BucketModel { kind: k, items: seq![m] };
        assert forall|l: int, j: int| 0 <= l < j < s2.len() implies s2[l].kind != s2[j].kind by {
            if j < s.len() {
                assert(s2[l].kind == s[l].kind);
                assert(s2[j].kind == s[j].kind);
            } else {
                assert(s2[l].kind == s[l].kind);
                assert(s2[j].kind == k);
            }
        }
        lemma_index_of_kind_unique(s2, k, s.len() as int);
        assert(items_of(s2, k) == seq![m]);
        assert(items_of(s, k).push(m) =~= seq![m]);
        lemma_total_items_snoc(s, nb);
        assert forall|k2: ItemKind| k2 != k implies items_of(#[trigger] spec_add(s, k, m), k2)
            == items_of(s, k2) by {
            if has_kind(s, k2) {
                let i2 = index_of_kind(s, k2);
                assert(0 <= i2 < s.len() && s[i2].kind == k2);
                assert(s2[i2].kind == k2);
                lemma_index_of_kind_unique(s2, k2, i2);
            } else {
                if has_kind(s2, k2) {
                    let i2 = index_of_kind(s2, k2);
                    assert(0 <= i2 < s2.len() && s2[i2].kind == k2);
                    assert(i2 < s.len());
                    assert(s[i2].kind == k2);
                }
            }
        }
    }
}

/// Law: whatever mix of concrete types a sequence of additions has, each
/// addition grows the global listing by exactly one entry, appends the
/// added item to the items of its own kind (insertion order preserved),
/// and leaves the items of every other kind exactly as they were.
pub proof fn lemma_add_count(s: Seq<BucketModel>, k: ItemKind, m: ItemModel)
    requires
        distinct_kinds(s),
    ensures
        distinct_kinds(spec_add(s, k, m)),
        total_items(spec_add(s, k, m)) == total_items(s) + 1,
        all_entries(spec_add(s, k, m)).len() == all_entries(s).len() + 1,
        items_of(spec_add(s, k, m), k) == items_of(s, k).push(m),
        forall|k2: ItemKind| k2 != k ==> items_of(#[trigger] spec_add(s, k, m), k2) == items_of(
            s,
            k2,
        ),
{
    lemma_spec_add_props(s, k, m);
    lemma_all_entries_len(s);
    lemma_all_entries_len(spec_add(s, k, m));
}

/// The bucket sequence after a whole sequence of additions, first to last.
pub open spec fn spec_add_all(s: Seq<BucketModel>, adds: Seq<(ItemKind, ItemModel)>) -> Seq<
    BucketModel,
>
    decreases adds.len(),
{
    if adds.len() == 0 {
        s
    } else {
        spec_add_all(spec_add(s, adds[0].0, adds[0].1), adds.drop_first())
    }
}

/// Of a sequence of additions, the models added under kind `k`, in order.
pub open spec fn adds_of_kind(adds: Seq<(ItemKind, ItemModel)>, k: ItemKind) -> Seq<ItemModel>
    decreases adds.len(),
{
    if adds.len() == 0 {
        Seq::empty()
    } else if adds[0].0 == k {
        seq![adds[0].1] + adds_of_kind(adds.drop_first(), k)
    } else {
        adds_of_kind(adds.drop_first(), k)
    }
}

/// Law: for every sequence of additions, however many concrete types it
/// mixes, the global listing ends up with exactly one entry per addition,
/// and the items stored under each kind are exactly the additions of that
/// kind, in insertion order.
pub proof fn lemma_add_all_count(s: Seq<BucketModel>, adds: Seq<(ItemKind, ItemModel)>)
    requires
        distinct_kinds(s),
    ensures
        distinct_kinds(spec_add_all(s, adds)),
        total_items(spec_add_all(s, adds)) == total_items(s) + adds.len(),
        all_entries(spec_add_all(s, adds)).len() == total_items(s) + adds.len(),
        forall|k: ItemKind| items_of(#[trigger] spec_add_all(s, adds), k) == items_of(s, k)
            + adds_of_kind(adds, k),
    decreases adds.len(),
{
    if adds.len() == 0 {
        assert forall|k: ItemKind| items_of(#[trigger] spec_add_all(s, adds), k) == items_of(s, k)
            + adds_of_kind(adds, k) by {
            assert(items_of(s, k) + adds_of_kind(adds, k) =~= items_of(s, k));
        }
    } else {
        let k0 = adds[0].0;
        let m0 = adds[0].1;
        let s1 = spec_add(s, k0, m0);
        lemma_spec_add_props(s, k0, m0);
        lemma_add_all_count(s1, adds.drop_first());
        assert forall|k: ItemKind| items_of(#[trigger] spec_add_all(s, adds), k) == items_of(s, k)
            + adds_of_kind(adds, k) by {
            if k == k0 {
                assert(items_of(s1, k) == items_of(s, k).push(m0));
                assert(items_of(s, k).push(m0) + adds_of_kind(adds.drop_first(), k) =~= items_of(
                    s,
                    k,
                ) + (seq![m0] + adds_of_kind(adds.drop_first(), k)));
            } else {
                assert(items_of(s1, k) == items_of(s, k));
            }
        }
    }
    lemma_all_entries_len(spec_add_all(s, adds));
}

/// Law: adding an item and at once removing it by value succeeds, the
/// removed item is that very value, and the count of items of its kind
/// returns to what it was before the addition.
pub proof fn lemma_add_remove_roundtrip(s: Seq<BucketModel>, k: ItemKind, m: ItemModel)
    requires
        distinct_kinds(s),
    ensures
        ({
            let s1 = spec_add(s, k, m);
            let items1 = items_of(s1, k);
            let j = find_value(items1, m);
            &&& 0 <= j < items1.len()
            &&& items1[j] == m
            &&& items_of(with_items(s1, k, items1.remove(j)), k).len() == items_of(s, k).len()
        }),
{
    lemma_spec_add_props(s, k, m);
    let s1 = spec_add(s, k, m);
    let items1 = items_of(s1, k);
    let j = find_value(items1, m);
    assert(items1[items1.len() - 1] == m);
    assert(is_model(m)(items1[items1.len() - 1]));
    lemma_find_first_props(items1, is_model(m));
    assert(j >= 0);
    assert(is_model(m)(items1[j]));
    lemma_with_items_props(s1, k, items1.remove(j));
}

/// Law: removing by id removes exactly one item — the first of its own
/// kind whose id matches, no matter how many items of other kinds share
/// the id — and every other kind's items stay exactly as they were:
/// identity is scoped per concrete type, not global.
pub proof fn lemma_remove_by_id_exclusive(s: Seq<BucketModel>, k: ItemKind, id: int)
    requires
        distinct_kinds(s),
        find_id(items_of(s, k), id) >= 0,
    ensures
        ({
            let items = items_of(s, k);
            let j = find_id(items, id);
            &&& 0 <= j < items.len()
            &&& items[j].id == id
            &&& (forall|l: int| 0 <= l < j ==> items[l].id != id)
            &&& total_items(with_items(s, k, items.remove(j))) == total_items(s) - 1
            &&& items_of(with_items(s, k, items.remove(j)), k) == items.remove(j)
            &&& (forall|k2: ItemKind| k2 != k ==> items_of(
                with_items(s, k, items.remove(j)),
                k2,
            ) == items_of(s, k2))
        }),
{
    let items = items_of(s, k);
    let j = find_id(items, id);
    lemma_find_first_props(items, crate::inventory::has_id(id));
    assert(items.len() > 0);
    assert(has_kind(s, k));
    lemma_with_items_props(s, k, items.remove(j));
}

} // verus!
