use typed_inventory::inventory::Inventory;
use typed_inventory::item::Item;
use typed_inventory::item::ItemKind;
use typed_inventory::item::ItemWeight;
use typed_inventory::ore::CopperOre;
use typed_inventory::ore::IronOre;
use typed_inventory::ore::Ore;

#[test]
fn test_add() {
    let mut inventory = Inventory::default();
    inventory.add(Ore::<IronOre>::new(1000, 1000, 1));
    inventory.add(Ore::<CopperOre>::new(2000, 1000, 1));
    assert!(inventory.bucket_count() == 2);
}

#[test]
fn test_query() {
    let mut inventory = Inventory::default();
    inventory.add(Ore::<IronOre>::new(1000, 1000, 0));
    inventory.add(Ore::<CopperOre>::new(2000, 1000, 1));
    inventory.add(Ore::<CopperOre>::new(3000, 1000, 2));

    let iron_ores = inventory
        .query::<Ore<IronOre>>()
        .expect("Did not find Iron Ores");
    let copper_ores = inventory
        .query::<Ore<CopperOre>>()
        .expect("Did not find Copper Ores");
    assert_eq!(iron_ores.len(), 1);
    assert_eq!(copper_ores.len(), 2);
}

#[test]
fn test_remove() {
    let mut inventory = Inventory::default();
    inventory.add(Ore::<IronOre>::new(1000, 1000, 0));
    let ore_to_check = Ore::<CopperOre>::new(2000, 1000, 1);
    inventory.add(ore_to_check);
    inventory.add(Ore::<CopperOre>::new(3000, 1000, 2));

    let removed_iron_ore = inventory.remove(ore_to_check);
    assert_eq!(removed_iron_ore.unwrap(), ore_to_check);
}

#[test]
fn test_remove_by_id() {
    let mut inventory = Inventory::default();
    inventory.add(Ore::<IronOre>::new(1000, 1000, 0));
    inventory.add(Ore::<CopperOre>::new(2000, 1000, 1));
    inventory.add(Ore::<CopperOre>::new(3000, 1000, 2));

    let removed_copper_ore = inventory.remove_by_id::<Ore<CopperOre>>(1);
    assert_eq!(
        removed_copper_ore.unwrap().amount(),
        ItemWeight::Continuous(2000)
    );
}

#[test]
fn get_all() {
    let mut inventory = Inventory::default();
    inventory.add(Ore::<IronOre>::new(1000, 1000, 0));
    inventory.add(Ore::<CopperOre>::new(2000, 1000, 1));
    inventory.add(Ore::<CopperOre>::new(3000, 1000, 2));

    let all = inventory.get_all();
    assert_eq!(all.len(), 3);
}

#[test]
fn empty_inventory_has_nothing() {
    let mut inventory = Inventory::default();
    assert_eq!(inventory.bucket_count(), 0);
    assert!(inventory.get_all().is_empty());
    assert!(inventory.query::<Ore<IronOre>>().is_none());
    assert!(inventory.query_mut::<Ore<CopperOre>>().is_none());
    assert!(inventory.remove(Ore::<IronOre>::new(1000, 1000, 0)).is_none());
    assert!(inventory.remove_by_id::<Ore<CopperOre>>(0).is_none());
    assert_eq!(inventory.bucket_count(), 0);
}

#[test]
fn add_count_mixed_kinds() {
    let mut inventory = Inventory::default();
    for i in 0..10usize {
        inventory.add(Ore::<IronOre>::new(500 * i as u64, 1000, i));
        inventory.add(Ore::<CopperOre>::new(1000 * i as u64, 1000, i));
    }
    assert_eq!(inventory.get_all().len(), 20);
    assert_eq!(inventory.bucket_count(), 2);

    let irons = inventory.query::<Ore<IronOre>>().unwrap();
    assert_eq!(irons.len(), 10);
    for (i, ore) in irons.iter().enumerate() {
        assert_eq!(ore.id, i);
        assert_eq!(ore.amount, 500 * i as u64);
    }
}

#[test]
fn add_then_remove_restores_count() {
    let mut inventory = Inventory::default();
    inventory.add(Ore::<CopperOre>::new(1000, 900, 7));
    let before = inventory.query::<Ore<CopperOre>>().unwrap().len();

    let x = Ore::<CopperOre>::new(4000, 250, 8);
    inventory.add(x);
    let removed = inventory.remove(x);
    assert_eq!(removed, Some(x));
    assert_eq!(inventory.query::<Ore<CopperOre>>().unwrap().len(), before);
}

#[test]
fn remove_missing_value_is_noop() {
    let mut inventory = Inventory::default();
    inventory.add(Ore::<CopperOre>::new(1000, 900, 7));
    let missing = Ore::<CopperOre>::new(1000, 900, 8);
    assert!(inventory.remove(missing).is_none());
    assert_eq!(inventory.get_all().len(), 1);
}

#[test]
fn remove_by_id_takes_first_match_only() {
    let mut inventory = Inventory::default();
    inventory.add(Ore::<IronOre>::new(9000, 1000, 5));
    inventory.add(Ore::<CopperOre>::new(1000, 1000, 5));
    inventory.add(Ore::<CopperOre>::new(2000, 1000, 5));

    let removed = inventory.remove_by_id::<Ore<CopperOre>>(5).unwrap();
    assert_eq!(removed.amount, 1000);
    assert_eq!(inventory.query::<Ore<CopperOre>>().unwrap().len(), 1);
    assert_eq!(inventory.query::<Ore<CopperOre>>().unwrap()[0].amount, 2000);
    assert_eq!(inventory.query::<Ore<IronOre>>().unwrap().len(), 1);
}

#[test]
fn remove_by_id_missing_is_noop() {
    let mut inventory = Inventory::default();
    inventory.add(Ore::<IronOre>::new(9000, 1000, 5));
    assert!(inventory.remove_by_id::<Ore<IronOre>>(6).is_none());
    assert_eq!(inventory.get_all().len(), 1);
}

#[test]
fn query_mut_edits_in_place() {
    let mut inventory = Inventory::default();
    inventory.add(Ore::<IronOre>::new(1000, 400, 0));
    {
        let irons = inventory.query_mut::<Ore<IronOre>>().unwrap();
        let applied = irons[0].purify(600);
        assert_eq!(applied, 600);
    }
    let irons = inventory.query::<Ore<IronOre>>().unwrap();
    assert_eq!(irons[0].purity, 1000);
    assert_eq!(irons[0].amount, 400);
}

#[test]
fn get_all_entries_describe_items() {
    let mut inventory = Inventory::default();
    inventory.add(Ore::<IronOre>::new(1500, 1000, 3));
    inventory.add(Ore::<CopperOre>::new(2500, 1000, 4));

    let all = inventory.get_all();
    assert_eq!(all.len(), 2);
    assert_eq!(all[0].kind, ItemKind::Iron);
    assert_eq!(all[0].id, 3);
    assert_eq!(all[0].weight, ItemWeight::Continuous(1500));
    assert_eq!(all[1].kind, ItemKind::Copper);
    assert_eq!(all[1].id, 4);
    assert_eq!(all[1].weight, ItemWeight::Continuous(2500));
    assert_eq!(all[0].kind.name(), "Iron Ore");
    assert_eq!(all[1].kind.description(), "A rock containing copper.");
}

#[test]
fn scenario_iron_and_copper() {
    let mut inventory = Inventory::default();
    inventory.add(Ore::<IronOre>::new(1000, 1000, 0));
    inventory.add(Ore::<CopperOre>::new(2000, 1000, 1));
    inventory.add(Ore::<CopperOre>::new(3000, 1000, 2));

    assert_eq!(inventory.query::<Ore<IronOre>>().unwrap().len(), 1);
    assert_eq!(inventory.query::<Ore<CopperOre>>().unwrap().len(), 2);

    let removed = inventory.remove_by_id::<Ore<CopperOre>>(1).unwrap();
    assert_eq!(removed.amount(), ItemWeight::Continuous(2000));
    assert_eq!(inventory.get_all().len(), 2);
}
