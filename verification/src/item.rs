//! The capability interface every storable item satisfies, and the common
//! vocabulary of the inventory: quantities, item kinds, and the mathematical
//! model of a stored item.

use vstd::prelude::*;

use crate::inventory::Bucket;
use crate::inventory::BucketModel;

verus! {

/// One whole unit of a continuous quantity, in fixed-point thousandths.
/// A purity of `MILLI` means fully pure; an amount of `MILLI` is one unit.
pub const MILLI: u64 = 1000;

/// A quantity of an item: either a continuous mass in fixed-point
/// thousandths of a unit, or a discrete count of units.
#[derive(Clone, Copy, Debug)]
pub enum ItemWeight {
    Continuous(u64),
    Discrete(usize),
}

impl ItemWeight {
    /// What comparing two quantities means: quantities of the same variant
    /// are ordered by their value; a continuous mass and a discrete count
    /// are incomparable.
    pub open spec fn cmp_spec(self, other: ItemWeight) -> Option<core::cmp::Ordering> {
        match (self, other) {
            (ItemWeight::Continuous(a), ItemWeight::Continuous(b)) => (if a < b {
                Some(core::cmp::Ordering::Less)
            } else if a == b {
                Some(core::cmp::Ordering::Equal)
            } else {
                Some(core::cmp::Ordering::Greater)
            }),
            (ItemWeight::Discrete(a), ItemWeight::Discrete(b)) => (if a < b {
                Some(core::cmp::Ordering::Less)
            } else if a == b {
                Some(core::cmp::Ordering::Equal)
            } else {
                Some(core::cmp::Ordering::Greater)
            }),
            _ => None,
        }
    }
}

impl PartialEq for ItemWeight {
    fn eq(&self, other: &ItemWeight) -> (r: bool) {
        match (self, other) {
            (ItemWeight::Continuous(a), ItemWeight::Continuous(b)) => a == b,
            (ItemWeight::Discrete(a), ItemWeight::Discrete(b)) => a == b,
            _ => false,
        }
    }
}

impl vstd::std_specs::cmp::PartialEqSpecImpl for ItemWeight {
    open spec fn obeys_eq_spec() -> bool {
        true
    }

    open spec fn eq_spec(&self, other: &ItemWeight) -> bool {
        *self == *other
    }
}

impl PartialOrd for ItemWeight {
    fn partial_cmp(&self, other: &ItemWeight) -> (r: Option<core::cmp::Ordering>) {
        match (self, other) {
            (ItemWeight::Continuous(a), ItemWeight::Continuous(b)) => (if a < b {
                Some(core::cmp::Ordering::Less)
            } else if a == b {
                Some(core::cmp::Ordering::Equal)
            } else {
                Some(core::cmp::Ordering::Greater)
            }),
            (ItemWeight::Discrete(a), ItemWeight::Discrete(b)) => (if a < b {
                Some(core::cmp::Ordering::Less)
            } else if a == b {
                Some(core::cmp::Ordering::Equal)
            } else {
                Some(core::cmp::Ordering::Greater)
            }),
            _ => None,
        }
    }
}

impl vstd::std_specs::cmp::PartialOrdSpecImpl for ItemWeight {
    open spec fn obeys_partial_cmp_spec() -> bool {
        true
    }

    open spec fn partial_cmp_spec(&self, other: &ItemWeight) -> Option<core::cmp::Ordering> {
        self.cmp_spec(*other)
    }
}

/// Identifies the concrete type of a stored item. The inventory groups its
/// contents by this descriptor: no two groups share a kind.
#[derive(Clone, Copy, Debug, PartialEq, Eq, Structural)]
pub enum ItemKind {
    Iron,
    Copper,
}

/// The static display name of an item kind.
pub open spec fn kind_name(k: ItemKind) -> Seq<char> {
    match k {
        ItemKind::Iron => "Iron Ore"@,
        ItemKind::Copper => "Copper Ore"@,
    }
}

/// The static description of an item kind.
pub open spec fn kind_description(k: ItemKind) -> Seq<char> {
    match k {
        ItemKind::Iron => "A rock containing iron."@,
        ItemKind::Copper => "A rock containing copper."@,
    }
}

impl ItemKind {
    pub fn name(&self) -> (r: &'static str)
        ensures
            r@ == kind_name(*self),
    {
        match self {
            ItemKind::Iron => "Iron Ore",
            ItemKind::Copper => "Copper Ore",
        }
    }

    pub fn description(&self) -> (r: &'static str)
        ensures
            r@ == kind_description(*self),
    {
        match self {
            ItemKind::Iron => "A rock containing iron.",
            ItemKind::Copper => "A rock containing copper.",
        }
    }
}

/// The mathematical model of one stored item: its kind, its purity and
/// amount in thousandths, and its identity within its own kind.
pub struct ItemModel {
    pub kind: ItemKind,
    pub purity: int,
    pub amount: int,
    pub id: int,
}

/// The quantity an item with the given model reports.
pub open spec fn weight_of(m: ItemModel) -> ItemWeight {
    ItemWeight::Continuous(m.amount as u64)
}

/// A type-erased, read-only view of one stored item, as handed out by the
/// inventory's global listing.
#[derive(Clone, Copy, Debug)]
pub struct ItemEntry {
    pub kind: ItemKind,
    pub weight: ItemWeight,
    pub id: usize,
}

/// The entry that a stored item with the given model produces in the
/// type-erased listing.
pub open spec fn entry_of(m: ItemModel) -> ItemEntry {
    ItemEntry { kind: m.kind, weight: weight_of(m), id: m.id as usize }
}

/// The capability every storable entity exposes: a stable identity, static
/// type metadata, and a quantity.
pub trait Item: Sized {
    /// The mathematical model of this item.
    spec fn model(&self) -> ItemModel;

    fn name(&self) -> (r: &'static str)
        ensures
            r@ == kind_name(self.model().kind),
    ;

    fn description(&self) -> (r: &'static str)
        ensures
            r@ == kind_description(self.model().kind),
    ;

    fn amount(&self) -> (r: ItemWeight)
        ensures
            r == weight_of(self.model()),
    ;

    fn id(&self) -> (r: usize)
        ensures
            r == self.model().id,
    ;
}

/// The models of a sequence of items, in order.
pub open spec fn models_of<T: Item>(s: Seq<T>) -> Seq<ItemModel> {
    s.map_values(|x: T| x.model())
}

/// The refinement capability the inventory stores items under: beyond the
/// [`Item`] interface, a type knows its own kind descriptor, can be wrapped
/// into and recovered from a type-homogeneous bucket by a checked downcast,
/// and supports splitting off part of its quantity.
pub trait SpecificItem: Item + Copy {
    /// The type identity under which the inventory groups items of this type.
    spec fn kind() -> ItemKind;

    /// Every item of this type models an item of this type's kind.
    proof fn lemma_model_kind(&self)
        ensures
            self.model().kind == Self::kind(),
    ;

    /// The runtime identity of this type.
    fn kind_id() -> (k: ItemKind)
        ensures
            k == Self::kind(),
    ;

    /// Whether this item and `other` are the same value.
    fn same_value(&self, other: &Self) -> (r: bool)
        ensures
            r == (self.model() == other.model()),
    ;

    /// Wraps a homogeneous list of items of this type into a bucket.
    fn bucket_from(items: Vec<Self>) -> (b: Bucket)
        ensures
            b@.kind == Self::kind(),
            b@.items == models_of(items@),
    ;

    /// The checked downcast: the bucket's list, read-only, exactly when the
    /// bucket's element type is this type.
    fn bucket_open(b: &Bucket) -> (r: Option<&Vec<Self>>)
        ensures
            match r {
                Some(v) => b@.kind == Self::kind() && models_of(v@) == b@.items,
                None => b@.kind != Self::kind(),
            },
    ;

    /// The checked downcast, mutable: the bucket's list, exactly when the
    /// bucket's element type is this type. The bucket ends up holding
    /// whatever list the caller leaves behind the handle.
    fn bucket_open_mut(b: &mut Bucket) -> (r: Option<&mut Vec<Self>>)
        ensures
            match r {
                Some(v) => old(b)@.kind == Self::kind() && models_of((*v)@) == old(b)@.items
                    && final(b)@ == (BucketModel {
                    kind: Self::kind(),
                    items: models_of((*final(v))@),
                }),
                None => old(b)@.kind != Self::kind() && *final(b) == *old(b),
            },
    ;

    /// The checked downcast by value.
    fn bucket_into(b: Bucket) -> (r: Option<Vec<Self>>)
        ensures
            match r {
                Some(v) => b@.kind == Self::kind() && models_of(v@) == b@.items,
                None => b@.kind != Self::kind(),
            },
    ;

    /// Produces a new item carrying exactly the requested quantity, removed
    /// from this one, which keeps its purity, kind and id; fails, leaving
    /// this item unchanged, when the request exceeds what is available.
    fn split(&mut self, amount: u64) -> (r: Option<Self>)
        ensures
            amount > old(self).model().amount ==> r is None && final(self).model() == old(
                self,
            ).model(),
            amount <= old(self).model().amount ==> {
                &&& final(self).model() == (ItemModel {
                    amount: old(self).model().amount - amount,
                    ..old(self).model()
                })
                &&& (r matches Some(part) && part.model() == (ItemModel {
                    amount: amount as int,
                    ..old(self).model()
                }))
            },
    ;
}

} // verus!
