//! The heterogeneous inventory: a sequence of type-homogeneous buckets, each
//! holding a growable list of exactly one concrete item type. A type-scoped
//! operation scans for the one bucket of that type; the type-erased listing
//! concatenates every bucket's view in bucket order.

use vstd::prelude::*;

use crate::item::Item;
use crate::item::ItemEntry;
use crate::item::ItemKind;
use crate::item::ItemModel;
use crate::item::SpecificItem;
use crate::item::entry_of;
use crate::item::models_of;
use crate::ore::CopperOre;
use crate::ore::IronOre;
use crate::ore::Ore;

verus! {

/// The mathematical model of one bucket: its element kind and the models of
/// its items in insertion order.
#[verifier::ext_equal]
pub struct BucketModel {
    pub kind: ItemKind,
    pub items: Seq<ItemModel>,
}

/// A type-homogeneous bucket: a list of items of exactly one concrete type.
#[derive(Debug)]
pub enum Bucket {
    Iron(Vec<Ore<IronOre>>),
    Copper(Vec<Ore<CopperOre>>),
}

impl View for Bucket {
    type V = BucketModel;

    open spec fn view(&self) -> BucketModel {
        match self {
            Bucket::Iron(v) => BucketModel { kind: ItemKind::Iron, items: models_of(v@) },
            Bucket::Copper(v) => BucketModel { kind: ItemKind::Copper, items: models_of(v@) },
        }
    }
}

impl Bucket {
    /// The runtime type identity of this bucket's element type.
    pub fn kind_id(&self) -> (k: ItemKind)
        ensures
            k == self@.kind,
    {
        match self {
            Bucket::Iron(_) => ItemKind::Iron,
            Bucket::Copper(_) => ItemKind::Copper,
        }
    }

    /// The type-erased view of this bucket's contents, in insertion order.
    pub fn entries(&self) -> (r: Vec<ItemEntry>)
        ensures
            r@ == entries_of(self@.items),
    {
        match self {
            Bucket::Iron(v) => entries_of_list(v),
            Bucket::Copper(v) => entries_of_list(v),
        }
    }
}

/// The type-erased entries of a sequence of item models, in order.
pub open spec fn entries_of(items: Seq<ItemModel>) -> Seq<ItemEntry> {
    items.map_values(|m: ItemModel| entry_of(m))
}

/// Produces the type-erased entry of each item of a homogeneous list.
#[verifier::loop_isolation(false)]
fn entries_of_list<T: SpecificItem>(v: &Vec<T>) -> (r: Vec<ItemEntry>)
    ensures
        r@ == entries_of(models_of(v@)),
{
    let ghost ms = models_of(v@);
    let mut out: Vec<ItemEntry> = Vec::new();
    let n = v.len();
    let mut i: usize = 0;
    proof {
        assert(out@ =~= entries_of(ms.take(0)));
    }
    while i < n
        invariant
            i <= n,
            out@ == entries_of(ms.take(i as int)),
        decreases n - i,
    {
        let e = ItemEntry { kind: T::kind_id(), weight: v[i].amount(), id: v[i].id() };
        proof {
            v@[i as int].lemma_model_kind();
            assert(e == entry_of(ms[i as int]));
            assert(entries_of(ms.take(i as int)).push(entry_of(ms[i as int])) =~= entries_of(
                ms.take(i as int + 1),
            ));
        }
        out.push(e);
        i = i + 1;
    }
    proof {
        assert(ms.take(n as int) =~= ms);
    }
    out
}

/// Whether some bucket holds items of kind `k`.
pub open spec fn has_kind(s: Seq<BucketModel>, k: ItemKind) -> bool {
    exists|i: int| 0 <= i < s.len() && s[i].kind == k
}

/// The index of the bucket of kind `k`; meaningful only when `has_kind`
/// holds of a sequence with distinct kinds.
pub open spec fn index_of_kind(s: Seq<BucketModel>, k: ItemKind) -> int {
    choose|i: int| 0 <= i < s.len() && s[i].kind == k
}

/// The items stored under kind `k`, in insertion order; empty when no bucket
/// of that kind exists.
pub open spec fn items_of(s: Seq<BucketModel>, k: ItemKind) -> Seq<ItemModel> {
    if has_kind(s, k) {
        s[index_of_kind(s, k)].items
    } else {
        Seq::empty()
    }
}

/// No two buckets share a kind.
pub open spec fn distinct_kinds(s: Seq<BucketModel>) -> bool {
    forall|i: int, j: int| 0 <= i < j < s.len() ==> s[i].kind != s[j].kind
}

/// The bucket sequence after adding one item of kind `k`: the item goes to
/// the end of its kind's bucket, and a fresh bucket is appended when the
/// kind was not present yet.
pub open spec fn spec_add(s: Seq<BucketModel>, k: ItemKind, m: ItemModel) -> Seq<BucketModel> {
    if has_kind(s, k) {
        let i = index_of_kind(s, k);
        s.update(i, BucketModel { kind: k, items: s[i].items.push(m) })
    } else {
        s.push(BucketModel { kind: k, items: seq![m] })
    }
}

/// The bucket sequence with the items of kind `k` replaced; meaningful only
/// when `has_kind` holds.
pub open spec fn with_items(s: Seq<BucketModel>, k: ItemKind, items: Seq<ItemModel>) -> Seq<
    BucketModel,
> {
    s.update(index_of_kind(s, k), BucketModel { kind: k, items })
}

/// The index of the first item satisfying `p`, or `-1` when none does.
pub open spec fn find_first(items: Seq<ItemModel>, p: spec_fn(ItemModel) -> bool) -> int
    decreases items.len(),
{
    if items.len() == 0 {
        -1
    } else if p(items[0]) {
        0
    } else {
        let r = find_first(items.drop_first(), p);
        if r < 0 {
            -1
        } else {
            r + 1
        }
    }
}

/// Satisfied by items whose whole model equals `m0`.
pub open spec fn is_model(m0: ItemModel) -> spec_fn(ItemModel) -> bool {
    |m: ItemModel| m == m0
}

/// Satisfied by items whose identity is `id`.
pub open spec fn has_id(id: int) -> spec_fn(ItemModel) -> bool {
    |m: ItemModel| m.id == id
}

/// The index of the first item equal to `m`, or `-1` when none is.
pub open spec fn find_value(items: Seq<ItemModel>, m: ItemModel) -> int {
    find_first(items, is_model(m))
}

/// The index of the first item with identity `id`, or `-1` when none has it.
pub open spec fn find_id(items: Seq<ItemModel>, id: int) -> int {
    find_first(items, has_id(id))
}

/// `find_first` names exactly the index that satisfies `p` with none before.
pub proof fn lemma_find_first_at(items: Seq<ItemModel>, p: spec_fn(ItemModel) -> bool, j: int)
    requires
        0 <= j < items.len(),
        p(items[j]),
        forall|l: int| 0 <= l < j ==> !p(items[l]),
    ensures
        find_first(items, p) == j,
    decreases j,
{
    if j > 0 {
        assert forall|l: int| 0 <= l < j - 1 implies !p(items.drop_first()[l]) by {
            assert(items.drop_first()[l] == items[l + 1]);
        }
        assert(items.drop_first()[j - 1] == items[j]);
        lemma_find_first_at(items.drop_first(), p, j - 1);
    }
}

/// When no item satisfies `p`, `find_first` reports none.
pub proof fn lemma_find_first_none(items: Seq<ItemModel>, p: spec_fn(ItemModel) -> bool)
    requires
        forall|l: int| 0 <= l < items.len() ==> !p(items[l]),
    ensures
        find_first(items, p) == -1,
    decreases items.len(),
{
    if items.len() > 0 {
        assert forall|l: int| 0 <= l < items.drop_first().len() implies !p(
            items.drop_first()[l],
        ) by {
            assert(items.drop_first()[l] == items[l + 1]);
        }
        lemma_find_first_none(items.drop_first(), p);
    }
}

/// The number of items held across all buckets.
pub open spec fn total_items(s: Seq<BucketModel>) -> nat
    decreases s.len(),
{
    if s.len() == 0 {
        0
    } else {
        s[0].items.len() + total_items(s.drop_first())
    }
}

/// The type-erased global listing: every bucket's entries, in bucket order
/// then in-bucket insertion order.
pub open spec fn all_entries(s: Seq<BucketModel>) -> Seq<ItemEntry>
    decreases s.len(),
{
    if s.len() == 0 {
        Seq::empty()
    } else {
        entries_of(s[0].items) + all_entries(s.drop_first())
    }
}

/// Appending a bucket appends its entries to the listing.
pub proof fn lemma_all_entries_snoc(s: Seq<BucketModel>, b: BucketModel)
    ensures
        all_entries(s.push(b)) == all_entries(s) + entries_of(b.items),
    decreases s.len(),
{
    if s.len() == 0 {
        assert(s.push(b).drop_first() =~= Seq::<BucketModel>::empty());
        assert(s.push(b)[0] == b);
        assert(all_entries(s.push(b)) == entries_of(b.items) + all_entries(
            Seq::<BucketModel>::empty(),
        ));
        assert(all_entries(Seq::<BucketModel>::empty()) == Seq::<ItemEntry>::empty());
        assert(all_entries(s.push(b)) =~= all_entries(s) + entries_of(b.items));
    } else {
        assert(s.push(b).drop_first() =~= s.drop_first().push(b));
        lemma_all_entries_snoc(s.drop_first(), b);
        assert(s.push(b)[0] == s[0]);
        assert(all_entries(s.push(b)) == entries_of(s[0].items) + all_entries(
            s.drop_first().push(b),
        ));
        assert(all_entries(s.push(b)) =~= all_entries(s) + entries_of(b.items));
    }
}

/// The listing holds one entry per stored item.
pub proof fn lemma_all_entries_len(s: Seq<BucketModel>)
    ensures
        all_entries(s).len() == total_items(s),
    decreases s.len(),
{
    if s.len() > 0 {
        lemma_all_entries_len(s.drop_first());
    }
}

/// In a sequence with distinct kinds, any index holding kind `k` is the
/// index `index_of_kind` names.
pub proof fn lemma_index_of_kind_unique(s: Seq<BucketModel>, k: ItemKind, i: int)
    requires
        distinct_kinds(s),
        0 <= i < s.len(),
        s[i].kind == k,
    ensures
        has_kind(s, k),
        index_of_kind(s, k) == i,
{
    assert(has_kind(s, k));
    let i2 = index_of_kind(s, k);
    assert(0 <= i2 < s.len() && s[i2].kind == k);
    if i2 < i {
        assert(s[i2].kind != s[i].kind);
    } else if i < i2 {
        assert(s[i].kind != s[i2].kind);
    }
}

/// A general-purpose heterogeneous collection: items of arbitrarily many
/// concrete types, grouped by type, supporting type-scoped query, add and
/// remove, and a type-erased global listing.
#[derive(Debug)]
pub struct Inventory {
    items: Vec<Bucket>,
}

impl View for Inventory {
    type V = Seq<BucketModel>;

    closed spec fn view(&self) -> Seq<BucketModel> {
        self.items@.map_values(|b: Bucket| b@)
    }
}

impl Default for Inventory {
    /// The empty inventory.
    fn default() -> (r: Inventory)
        ensures
            r@ == Seq::<BucketModel>::empty(),
            r.wf(),
    {
        let items: Vec<Bucket> = Vec::new();
        proof {
            assert(items@.map_values(|b: Bucket| b@) =~= Seq::<BucketModel>::empty());
        }
        Inventory { items }
    }
}

impl Inventory {
    /// Well-formedness: the buckets' element types are pairwise distinct.
    pub open spec fn wf(&self) -> bool {
        distinct_kinds(self@)
    }

    /// How many type-homogeneous buckets the inventory holds.
    pub fn bucket_count(&self) -> (r: usize)
        ensures
            r == self@.len(),
    {
        self.items.len()
    }

    /// The index of the bucket whose element type is exactly `T`, found by a
    /// linear scan over the buckets, in first-insertion order.
    #[verifier::loop_isolation(false)]
    fn find_bucket<T: SpecificItem>(&self) -> (r: Option<usize>)
        ensures
            match r {
                Some(i) => 0 <= i < self@.len() && self@[i as int].kind == T::kind(),
                None => !has_kind(self@, T::kind()),
            },
    {
        let k = T::kind_id();
        let n = self.items.len();
        let mut i: usize = 0;
        while i < n
            invariant
                i <= n,
                forall|j: int| 0 <= j < i ==> self@[j].kind != T::kind(),
            decreases n - i,
        {
            if self.items[i].kind_id() == k {
                return Some(i);
            }
            i = i + 1;
        }
        None
    }

    /// A read-only handle to the full ordered list of items of exactly type
    /// `T`, or nothing when no such bucket exists (empty, not an error).
    pub fn query<T: SpecificItem>(&self) -> (r: Option<&Vec<T>>)
        requires
            self.wf(),
        ensures
            match r {
                Some(v) => has_kind(self@, T::kind()) && models_of(v@) == items_of(
                    self@,
                    T::kind(),
                ),
                None => !has_kind(self@, T::kind()),
            },
    {
        match self.find_bucket::<T>() {
            Some(i) => {
                proof {
                    lemma_index_of_kind_unique(self@, T::kind(), i as int);
                }
                let r = T::bucket_open(&self.items[i]);
                proof {
                    assert(self.items@[i as int]@ == self@[i as int]);
                }
                r
            },
            None => None,
        }
    }

    /// A mutable handle to the full ordered list of items of exactly type
    /// `T`, or nothing when no such bucket exists. The bucket ends up
    /// holding whatever list the caller leaves behind the handle; its kind,
    /// and every other bucket, stay as they were.
    pub fn query_mut<T: SpecificItem>(&mut self) -> (r: Option<&mut Vec<T>>)
        requires
            old(self).wf(),
        ensures
            match r {
                Some(v) => {
                    &&& has_kind(old(self)@, T::kind())
                    &&& models_of((*v)@) == items_of(old(self)@, T::kind())
                    &&& final(self)@ == with_items(old(self)@, T::kind(), models_of((*final(v))@))
                    &&& final(self).wf()
                },
                None => {
                    &&& !has_kind(old(self)@, T::kind())
                    &&& final(self)@ == old(self)@
                    &&& final(self).wf()
                },
            },
    {
        let ghost s_old = self@;
        match self.find_bucket::<T>() {
            Some(i) => {
                proof {
                    lemma_index_of_kind_unique(self@, T::kind(), i as int);
                    assert(self.items@[i as int]@ == self@[i as int]);
                }
                let b = &mut self.items[i];
                let r = T::bucket_open_mut(b);
                r
            },
            None => None,
        }
    }

    /// Appends `item` to the bucket for its type, preserving insertion order
    /// within the bucket; when no such bucket exists yet, a fresh one is
    /// appended to the bucket sequence (first-seen order).
    pub fn add<T: SpecificItem>(&mut self, item: T)
        requires
            old(self).wf(),
        ensures
            final(self).wf(),
            final(self)@ == spec_add(old(self)@, T::kind(), item.model()),
    {
        proof {
            item.lemma_model_kind();
        }
        match self.find_bucket::<T>() {
            Some(i) => {
                proof {
                    lemma_index_of_kind_unique(self@, T::kind(), i as int);
                    assert(self.items@[i as int]@ == self@[i as int]);
                }
                let ghost s_old = self@;
                let b = self.items.remove(i);
                let vo = T::bucket_into(b);
                let mut v = vo.unwrap();
                v.push(item);
                self.items.insert(i, T::bucket_from(v));
                proof {
                    let target = spec_add(s_old, T::kind(), item.model());
                    assert(models_of(v@) =~= s_old[i as int].items.push(item.model()));
                    assert forall|j: int| 0 <= j < self@.len() implies self@[j] == target[j] by {
                        assert(self@[j] == self.items@[j]@);
                    }
                    assert(self@ =~= target);
                }
            },
            None => {
                let ghost s_old = self@;
                let mut v: Vec<T> = Vec::new();
                v.push(item);
                self.items.push(T::bucket_from(v));
                proof {
                    let target = spec_add(s_old, T::kind(), item.model());
                    assert(models_of(v@) =~= seq![item.model()]);
                    assert forall|j: int| 0 <= j < self@.len() implies self@[j] == target[j] by {
                        assert(self@[j] == self.items@[j]@);
                    }
                    assert(self@ =~= target);
                }
            },
        }
    }

    /// The type-erased view of every stored item: each bucket's contents in
    /// bucket order, insertion order within a bucket.
    #[verifier::loop_isolation(false)]
    pub fn get_all(&self) -> (r: Vec<ItemEntry>)
        ensures
            r@ == all_entries(self@),
            r@.len() == total_items(self@),
    {
        let mut out: Vec<ItemEntry> = Vec::new();
        let n = self.items.len();
        let mut i: usize = 0;
        proof {
            assert(self@.take(0) =~= Seq::<BucketModel>::empty());
        }
        while i < n
            invariant
                i <= n,
                out@ == all_entries(self@.take(i as int)),
            decreases n - i,
        {
            let mut es = self.items[i].entries();
            proof {
                assert(self.items@[i as int]@ == self@[i as int]);
                lemma_all_entries_snoc(self@.take(i as int), self@[i as int]);
                assert(self@.take(i as int).push(self@[i as int]) =~= self@.take(i as int + 1));
            }
            out.append(&mut es);
            i = i + 1;
        }
        proof {
            assert(self@.take(n as int) =~= self@);
            lemma_all_entries_len(self@);
        }
        out
    }

    /// Removes the first item of type `T` equal to `to_remove` by value and
    /// returns it; reports absence (by value or bucket missing) without
    /// altering the inventory.
    #[verifier::loop_isolation(false)]
    pub fn remove<T: SpecificItem>(&mut self, to_remove: T) -> (r: Option<T>)
        requires
            old(self).wf(),
        ensures
            final(self).wf(),
            ({
                let items = items_of(old(self)@, T::kind());
                let j = find_value(items, to_remove.model());
                if j >= 0 {
                    &&& (r matches Some(x) && x.model() == to_remove.model())
                    &&& final(self)@ == with_items(old(self)@, T::kind(), items.remove(j))
                } else {
                    &&& r is None
                    &&& final(self)@ == old(self)@
                }
            }),
    {
        proof {
            to_remove.lemma_model_kind();
        }
        let ghost p = is_model(to_remove.model());
        match self.find_bucket::<T>() {
            Some(i) => {
                proof {
                    lemma_index_of_kind_unique(self@, T::kind(), i as int);
                    assert(self.items@[i as int]@ == self@[i as int]);
                }
                let ghost s_old = self@;
                let ghost ms = items_of(s_old, T::kind());
                let b = self.items.remove(i);
                let ghost items_mid = self.items@;
                let vo = T::bucket_into(b);
                let mut v = vo.unwrap();
                let n = v.len();
                let mut idx: usize = 0;
                while idx < n
                    invariant
                        idx <= n,
                        n == v.len(),
                        models_of(v@) == ms,
                        self.items@ == items_mid,
                        forall|l: int| 0 <= l < idx ==> !p(ms[l]),
                    decreases n - idx,
                {
                    if v[idx].same_value(&to_remove) {
                        proof {
                            assert(ms[idx as int] == v@[idx as int].model());
                            lemma_find_first_at(ms, p, idx as int);
                        }
                        let x = v.remove(idx);
                        self.items.insert(i, T::bucket_from(v));
                        proof {
                            let target = with_items(s_old, T::kind(), ms.remove(idx as int));
                            assert(models_of(v@) =~= ms.remove(idx as int));
                            assert forall|j2: int| 0 <= j2 < self@.len() implies self@[j2]
                                == target[j2] by {
                                assert(self@[j2] == self.items@[j2]@);
                            }
                            assert(self@ =~= target);
                        }
                        return Some(x);
                    }
                    idx = idx + 1;
                }
                self.items.insert(i, T::bucket_from(v));
                proof {
                    lemma_find_first_none(ms, p);
                    assert forall|j2: int| 0 <= j2 < self@.len() implies self@[j2] == s_old[j2] by {
                        assert(self@[j2] == self.items@[j2]@);
                    }
                    assert(self@ =~= s_old);
                }
                None
            },
            None => {
                proof {
                    assert(items_of(self@, T::kind()) =~= Seq::<ItemModel>::empty());
                }
                None
            },
        }
    }

    /// Removes the first item of type `T` whose identity is `id` and returns
    /// it; reports absence without altering the inventory. Identity is
    /// scoped per concrete type, not global: items of other types never
    /// leave, even when they share the id.
    #[verifier::loop_isolation(false)]
    pub fn remove_by_id<T: SpecificItem>(&mut self, id: usize) -> (r: Option<T>)
        requires
            old(self).wf(),
        ensures
            final(self).wf(),
            ({
                let items = items_of(old(self)@, T::kind());
                let j = find_id(items, id as int);
                if j >= 0 {
                    &&& (r matches Some(x) && x.model() == items[j] && x.model().id == id as int)
                    &&& final(self)@ == with_items(old(self)@, T::kind(), items.remove(j))
                } else {
                    &&& r is None
                    &&& final(self)@ == old(self)@
                }
            }),
    {
        let ghost p = has_id(id as int);
        match self.find_bucket::<T>() {
            Some(i) => {
                proof {
                    lemma_index_of_kind_unique(self@, T::kind(), i as int);
                    assert(self.items@[i as int]@ == self@[i as int]);
                }
                let ghost s_old = self@;
                let ghost ms = items_of(s_old, T::kind());
                let b = self.items.remove(i);
                let ghost items_mid = self.items@;
                let vo = T::bucket_into(b);
                let mut v = vo.unwrap();
                let n = v.len();
                let mut idx: usize = 0;
                while idx < n
                    invariant
                        idx <= n,
                        n == v.len(),
                        models_of(v@) == ms,
                        self.items@ == items_mid,
                        forall|l: int| 0 <= l < idx ==> !p(ms[l]),
                    decreases n - idx,
                {
                    if v[idx].id() == id {
                        proof {
                            assert(ms[idx as int] == v@[idx as int].model());
                            lemma_find_first_at(ms, p, idx as int);
                        }
                        let x = v.remove(idx);
                        self.items.insert(i, T::bucket_from(v));
                        proof {
                            let target = with_items(s_old, T::kind(), ms.remove(idx as int));
                            assert(models_of(v@) =~= ms.remove(idx as int));
                            assert forall|j2: int| 0 <= j2 < self@.len() implies self@[j2]
                                == target[j2] by {
                                assert(self@[j2] == self.items@[j2]@);
                            }
                            assert(self@ =~= target);
                        }
                        return Some(x);
                    }
                    idx = idx + 1;
                }
                self.items.insert(i, T::bucket_from(v));
                proof {
                    lemma_find_first_none(ms, p);
                    assert forall|j2: int| 0 <= j2 < self@.len() implies self@[j2] == s_old[j2] by {
                        assert(self@[j2] == self.items@[j2]@);
                    }
                    assert(self@ =~= s_old);
                }
                None
            },
            None => {
                proof {
                    assert(items_of(self@, T::kind()) =~= Seq::<ItemModel>::empty());
                }
                None
            },
        }
    }
}

} // verus!
