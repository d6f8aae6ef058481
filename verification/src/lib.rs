//! A heterogeneous typed inventory: items of many distinct concrete types are
//! stored behind a common capability interface, grouped by concrete type, with
//! type-scoped queries and mutation as well as a type-erased global listing.
//!
//! Continuous quantities (fractional mass, purity) are carried as fixed-point
//! integers in thousandths, so that every operation on them has an exact
//! arithmetic meaning.

pub mod item;
pub mod item_type;
pub mod ore;
pub mod inventory;
pub mod laws;
