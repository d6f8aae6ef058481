use typed_inventory::item::Item;
use typed_inventory::item::ItemWeight;
use typed_inventory::item::SpecificItem;
use typed_inventory::ore::CopperOre;
use typed_inventory::ore::IronOre;
use typed_inventory::ore::Ore;

#[test]
fn new_sets_fields() {
    let ore = Ore::<IronOre>::new(2500, 750, 9);
    assert_eq!(ore.amount, 2500);
    assert_eq!(ore.purity, 750);
    assert_eq!(ore.id, 9);
    assert_eq!(ore.id(), 9);
    assert_eq!(ore.amount(), ItemWeight::Continuous(2500));
}

#[test]
fn names_and_descriptions() {
    let iron = Ore::<IronOre>::new(1000, 1000, 0);
    let copper = Ore::<CopperOre>::new(1000, 1000, 0);
    assert_eq!(iron.name(), "Iron Ore");
    assert_eq!(iron.description(), "A rock containing iron.");
    assert_eq!(copper.name(), "Copper Ore");
    assert_eq!(copper.description(), "A rock containing copper.");
}

#[test]
fn split_takes_exactly_the_requested_amount() {
    let mut ore = Ore::<IronOre>::new(1000, 800, 3);
    let part = ore.split(400).unwrap();
    assert_eq!(part.amount, 400);
    assert_eq!(part.purity, 800);
    assert_eq!(part.id, 3);
    assert_eq!(ore.amount, 600);
    assert_eq!(ore.purity, 800);
    assert_eq!(ore.id, 3);
}

#[test]
fn split_whole_stack_leaves_empty_source() {
    let mut ore = Ore::<CopperOre>::new(700, 500, 1);
    let part = ore.split(700).unwrap();
    assert_eq!(part.amount, 700);
    assert_eq!(ore.amount, 0);
}

#[test]
fn split_too_much_fails_and_changes_nothing() {
    let mut ore = Ore::<CopperOre>::new(600, 900, 2);
    let before = ore;
    assert!(ore.split(601).is_none());
    assert_eq!(ore, before);
    assert_eq!(ore.amount, 600);
    assert_eq!(ore.purity, 900);
}

#[test]
fn purify_applies_requested_change() {
    let mut ore = Ore::<IronOre>::new(1000, 500, 0);
    let applied = ore.purify(200);
    assert_eq!(applied, 200);
    assert_eq!(ore.purity, 700);
    // the removed impurities shrink the mass by the applied thousandths
    assert_eq!(ore.amount, 800);
}

#[test]
fn purify_overshoot_clamps_to_full_purity() {
    let mut ore = Ore::<IronOre>::new(1000, 800, 0);
    let applied = ore.purify(500);
    assert_eq!(applied, 200);
    assert_eq!(ore.purity, 1000);
    assert_eq!(ore.amount, 800);
}

#[test]
fn purify_undershoot_clamps_to_zero_purity() {
    let mut ore = Ore::<CopperOre>::new(1000, 300, 0);
    let applied = ore.purify(-900);
    assert_eq!(applied, -300);
    assert_eq!(ore.purity, 0);
    // adding impurities grows the mass by the same fraction
    assert_eq!(ore.amount, 1300);
}

#[test]
fn purify_at_full_purity_is_a_noop() {
    let mut ore = Ore::<IronOre>::new(2000, 1000, 0);
    let applied = ore.purify(100);
    assert_eq!(applied, 0);
    assert_eq!(ore.purity, 1000);
    assert_eq!(ore.amount, 2000);
}
