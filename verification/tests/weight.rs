use std::cmp::Ordering;

use typed_inventory::item::ItemWeight;

#[test]
fn same_variant_quantities_are_ordered() {
    assert_eq!(
        ItemWeight::Continuous(100).partial_cmp(&ItemWeight::Continuous(200)),
        Some(Ordering::Less)
    );
    assert_eq!(
        ItemWeight::Continuous(200).partial_cmp(&ItemWeight::Continuous(200)),
        Some(Ordering::Equal)
    );
    assert_eq!(
        ItemWeight::Discrete(9).partial_cmp(&ItemWeight::Discrete(2)),
        Some(Ordering::Greater)
    );
    assert!(ItemWeight::Continuous(100) < ItemWeight::Continuous(200));
}

#[test]
fn cross_variant_quantities_are_incomparable() {
    assert_eq!(
        ItemWeight::Continuous(5).partial_cmp(&ItemWeight::Discrete(5)),
        None
    );
    assert_eq!(
        ItemWeight::Discrete(5).partial_cmp(&ItemWeight::Continuous(5)),
        None
    );
    assert_ne!(ItemWeight::Continuous(5), ItemWeight::Discrete(5));
}

#[test]
fn equality_is_by_variant_and_value() {
    assert_eq!(ItemWeight::Continuous(5), ItemWeight::Continuous(5));
    assert_ne!(ItemWeight::Continuous(5), ItemWeight::Continuous(6));
    assert_eq!(ItemWeight::Discrete(3), ItemWeight::Discrete(3));
    assert_ne!(ItemWeight::Discrete(3), ItemWeight::Discrete(4));
}
