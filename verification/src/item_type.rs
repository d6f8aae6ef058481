//! The descriptor side of the design: a small catalog of static, shared
//! metadata records (name, description, weight kind) that value-bearing item
//! instances may reference, decoupling an item's kind from its instances.

use vstd::prelude::*;

verus! {

/// How instances of an item kind are measured: as a continuous mass, or as
/// discrete units of the given size in fixed-point thousandths.
#[derive(Clone, Copy, Debug)]
pub enum ItemTypeWeight {
    Continuous,
    Discrete(u64),
}

/// A kind descriptor: static metadata shared by every instance of one item
/// kind.
pub trait ItemType {
    fn name(&self) -> &'static str;

    fn description(&self) -> &'static str;

    fn weight(&self) -> ItemTypeWeight;
}

} // verus!
