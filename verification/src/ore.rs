//! The worked concrete item family: a stack of raw ore of a specific mineral
//! kind, with purification and splitting.

use vstd::prelude::*;

use crate::inventory::Bucket;
use crate::item::Item;
use crate::item::ItemKind;
use crate::item::ItemModel;
use crate::item::ItemWeight;
use crate::item::MILLI;
use crate::item::SpecificItem;

verus! {

/// Denotes the mineral a stack of [`Ore`] consists of. The tag is zero-sized:
/// two stacks of different minerals are distinct types even though they share
/// field layout and logic.
pub trait OreType: Sized + Copy {
    /// The single value of this zero-sized tag.
    fn tag() -> Self;
}

#[derive(Clone, Copy, Debug, PartialEq, Eq, Structural)]
pub struct IronOre;

impl OreType for IronOre {
    fn tag() -> Self {
        IronOre
    }
}

#[derive(Clone, Copy, Debug, PartialEq, Eq, Structural)]
pub struct CopperOre;

impl OreType for CopperOre {
    fn tag() -> Self {
        CopperOre
    }
}

/// The change `purify` actually applies: the requested change, clamped so
/// that purity leaves neither end of `[0, MILLI]`. The applied change is
/// bounded below by `-purity` and above by `MILLI - purity`.
pub open spec fn clamped_change(purity: u64, delta: int) -> int {
    if delta < -(purity as int) {
        -(purity as int)
    } else if delta > MILLI - purity {
        MILLI - purity
    } else {
        delta
    }
}

/// The mass left after applying a purity change: the impurities removed (or
/// added, for a negative change) scale the mass by `(MILLI - applied)` in
/// thousandths, rounding down, saturating at the largest representable mass.
pub open spec fn purified_amount(amount: u64, applied: int) -> int {
    let scaled = amount * (MILLI - applied) / (MILLI as int);
    if scaled > u64::MAX {
        u64::MAX as int
    } else {
        scaled
    }
}

/// Law: a purify request that would overshoot full purity is clamped: the
/// applied change is exactly what was missing, so purity lands exactly at
/// one whole unit, never beyond it.
pub proof fn lemma_purify_clamp(purity: u64, delta: int)
    requires
        purity <= MILLI,
        purity + delta > MILLI,
    ensures
        clamped_change(purity, delta) == MILLI - purity,
        purity + clamped_change(purity, delta) == MILLI,
{
}

/// A stack of raw ore of mineral `T`. `purity` lies in `[0, MILLI]`; `amount`
/// is a mass in fixed-point thousandths of a unit; `id` is stable within the
/// collection owning this stack.
#[derive(Clone, Copy, Debug)]
pub struct Ore<T: OreType> {
    pub ore_type: T,
    pub purity: u64,
    pub amount: u64,
    pub id: usize,
}

impl<T: OreType> Ore<T> {
    /// A stack's purity never exceeds one whole unit.
    pub open spec fn inv(&self) -> bool {
        self.purity <= MILLI
    }

    pub fn new(amount: u64, purity: u64, id: usize) -> (r: Self)
        requires
            purity <= MILLI,
        ensures
            r.amount == amount,
            r.purity == purity,
            r.id == id,
            r.inv(),
    {
        Ore { ore_type: T::tag(), purity, amount, id }
    }

    /// Moves purity toward an end of `[0, MILLI]` by the requested change in
    /// thousandths, clamped so purity never leaves that interval, and scales
    /// the mass by the same clamped fraction (removing impurities removes
    /// mass). Returns the change actually applied.
    pub fn purify(&mut self, percent_change: i64) -> (applied: i64)
        requires
            old(self).inv(),
        ensures
            final(self).inv(),
            applied == clamped_change(old(self).purity, percent_change as int),
            final(self).purity == old(self).purity + applied,
            final(self).amount == purified_amount(old(self).amount, applied as int),
            final(self).id == old(self).id,
    {
        let lo: i64 = -(self.purity as i64);
        let hi: i64 = (MILLI - self.purity) as i64;
        let applied: i64 = if percent_change < lo {
            lo
        } else if percent_change > hi {
            hi
        } else {
            percent_change
        };
        if applied >= 0 {
            self.purity = self.purity + (applied as u64);
        } else {
            self.purity = self.purity - ((-applied) as u64);
        }
        let factor: u64 = ((MILLI as i64) - applied) as u64;
        proof {
            assert((self.amount as int) * (factor as int) <= (u64::MAX as int) * (2 * MILLI
                as int)) by (nonlinear_arith)
                requires
                    self.amount <= u64::MAX,
                    factor <= 2 * MILLI,
            ;
        }
        let scaled: u128 = (self.amount as u128) * (factor as u128) / (MILLI as u128);
        self.amount = if scaled > (u64::MAX as u128) {
            u64::MAX
        } else {
            scaled as u64
        };
        applied
    }

}

impl<T: OreType> PartialEq for Ore<T> {
    fn eq(&self, other: &Ore<T>) -> (r: bool) {
        self.purity == other.purity && self.amount == other.amount && self.id == other.id
    }
}

impl<T: OreType> vstd::std_specs::cmp::PartialEqSpecImpl for Ore<T> {
    open spec fn obeys_eq_spec() -> bool {
        true
    }

    open spec fn eq_spec(&self, other: &Ore<T>) -> bool {
        self.purity == other.purity && self.amount == other.amount && self.id == other.id
    }
}

impl Item for Ore<IronOre> {
    open spec fn model(&self) -> ItemModel {
        ItemModel {
            kind: ItemKind::Iron,
            purity: self.purity as int,
            amount: self.amount as int,
            id: self.id as int,
        }
    }

    fn name(&self) -> (r: &'static str) {
        "Iron Ore"
    }

    fn description(&self) -> (r: &'static str) {
        "A rock containing iron."
    }

    fn amount(&self) -> (r: ItemWeight) {
        ItemWeight::Continuous(self.amount)
    }

    fn id(&self) -> (r: usize) {
        self.id
    }
}

impl SpecificItem for Ore<IronOre> {
    open spec fn kind() -> ItemKind {
        ItemKind::Iron
    }

    proof fn lemma_model_kind(&self) {
    }

    fn kind_id() -> (k: ItemKind) {
        ItemKind::Iron
    }

    fn same_value(&self, other: &Self) -> (r: bool) {
        self.purity == other.purity && self.amount == other.amount && self.id == other.id
    }

    fn bucket_from(items: Vec<Self>) -> (b: Bucket) {
        Bucket::Iron(items)
    }

    fn bucket_open(b: &Bucket) -> (r: Option<&Vec<Self>>) {
        match b {
            Bucket::Iron(v) => Some(v),
            _ => None,
        }
    }

    fn bucket_open_mut(b: &mut Bucket) -> (r: Option<&mut Vec<Self>>) {
        match b {
            Bucket::Iron(v) => Some(v),
            _ => None,
        }
    }

    fn bucket_into(b: Bucket) -> (r: Option<Vec<Self>>) {
        match b {
            Bucket::Iron(v) => Some(v),
            _ => None,
        }
    }

    fn split(&mut self, amount: u64) -> (r: Option<Self>) {
        if amount > self.amount {
            return None;
        }
        self.amount = self.amount - amount;
        Some(Ore { ore_type: IronOre, purity: self.purity, amount, id: self.id })
    }
}

impl Item for Ore<CopperOre> {
    open spec fn model(&self) -> ItemModel {
        ItemModel {
            kind: ItemKind::Copper,
            purity: self.purity as int,
            amount: self.amount as int,
            id: self.id as int,
        }
    }

    fn name(&self) -> (r: &'static str) {
        "Copper Ore"
    }

    fn description(&self) -> (r: &'static str) {
        "A rock containing copper."
    }

    fn amount(&self) -> (r: ItemWeight) {
        ItemWeight::Continuous(self.amount)
    }

    fn id(&self) -> (r: usize) {
        self.id
    }
}

impl SpecificItem for Ore<CopperOre> {
    open spec fn kind() -> ItemKind {
        ItemKind::Copper
    }

    proof fn lemma_model_kind(&self) {
    }

    fn kind_id() -> (k: ItemKind) {
        ItemKind::Copper
    }

    fn same_value(&self, other: &Self) -> (r: bool) {
        self.purity == other.purity && self.amount == other.amount && self.id == other.id
    }

    fn bucket_from(items: Vec<Self>) -> (b: Bucket) {
        Bucket::Copper(items)
    }

    fn bucket_open(b: &Bucket) -> (r: Option<&Vec<Self>>) {
        match b {
            Bucket::Copper(v) => Some(v),
            _ => None,
        }
    }

    fn bucket_open_mut(b: &mut Bucket) -> (r: Option<&mut Vec<Self>>) {
        match b {
            Bucket::Copper(v) => Some(v),
            _ => None,
        }
    }

    fn bucket_into(b: Bucket) -> (r: Option<Vec<Self>>) {
        match b {
            Bucket::Copper(v) => Some(v),
            _ => None,
        }
    }

    fn split(&mut self, amount: u64) -> (r: Option<Self>) {
        if amount > self.amount {
            return None;
        }
        self.amount = self.amount - amount;
        Some(Ore { ore_type: CopperOre, purity: self.purity, amount, id: self.id })
    }
}

} // verus!
