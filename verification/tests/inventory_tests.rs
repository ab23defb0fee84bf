use blockworld::controls::held_item_id;
use blockworld::inventory::{Inventory, Item, INVENTORY_SLOTS};

fn starting_inventory() -> Inventory {
    let mut inv = Inventory::new();
    inv.add_item(Item::new("Sword".to_string(), 2, 1));
    inv.add_item(Item::new("Pickaxe".to_string(), 1, 1));
    inv.add_item(Item::new("Axe".to_string(), 3, 1));
    inv
}

#[test]
fn new_inventory_is_empty() {
    let inv = Inventory::new();
    assert_eq!(inv.items.len(), INVENTORY_SLOTS);
    assert_eq!(inv.active_slot, 0);
    for it in &inv.items {
        assert_eq!(it.name, "");
        assert_eq!(it.item_id, 0);
        assert_eq!(it.quantity, 0);
    }
}

#[test]
fn items_fill_slots_in_order() {
    let inv = starting_inventory();
    assert_eq!(inv.items[0].name, "Sword");
    assert_eq!(inv.items[1].name, "Pickaxe");
    assert_eq!(inv.items[2].name, "Axe");
    assert_eq!(inv.items[3].item_id, 0);
    assert_eq!(held_item_id(&inv), 2);
}

#[test]
fn same_kind_stacks_onto_first_slot() {
    let mut inv = starting_inventory();
    inv.add_item(Item::new("Other pickaxe".to_string(), 1, 4));
    assert_eq!(inv.items[1].quantity, 5);
    assert_eq!(inv.items[1].name, "Pickaxe");
    assert_eq!(inv.items[3].item_id, 0);
}

#[test]
fn full_inventory_drops_new_kind() {
    let mut inv = Inventory::new();
    for id in 1..=10 {
        inv.add_item(Item::new(format!("item{}", id), id, 1));
    }
    inv.add_item(Item::new("extra".to_string(), 11, 7));
    for (i, it) in inv.items.iter().enumerate() {
        assert_eq!(it.item_id, i + 1);
        assert_eq!(it.quantity, 1);
    }
    inv.add_item(Item::new("more".to_string(), 4, 7));
    assert_eq!(inv.items[3].quantity, 8);
}

#[test]
fn kind_zero_goes_to_first_empty_slot() {
    let mut inv = starting_inventory();
    inv.add_item(Item::new("nothing".to_string(), 0, 5));
    assert_eq!(inv.items[3].name, "nothing");
    assert_eq!(inv.items[3].quantity, 5);
    inv.add_item(Item::new("again".to_string(), 0, 1));
    assert_eq!(inv.items[3].name, "again");
    assert_eq!(inv.items[3].quantity, 1);
}

#[test]
fn scrolling_wraps_around() {
    let mut inv = Inventory::new();
    inv.change_active_slot(1);
    assert_eq!(inv.active_slot, 9);
    inv.change_active_slot(-1);
    assert_eq!(inv.active_slot, 0);
    inv.change_active_slot(-3);
    assert_eq!(inv.active_slot, 3);
    inv.change_active_slot(25);
    assert_eq!(inv.active_slot, 8);
    inv.change_active_slot(0);
    assert_eq!(inv.active_slot, 8);
}

#[test]
fn scrolling_back_undoes_scroll() {
    let mut inv = Inventory::new();
    inv.change_active_slot(-4);
    for d in [-23isize, -1, 0, 7, 10, 999] {
        let before = inv.active_slot;
        inv.change_active_slot(d);
        assert!(inv.active_slot < INVENTORY_SLOTS);
        inv.change_active_slot(-d);
        assert_eq!(inv.active_slot, before);
    }
}

#[test]
fn adding_conserves_quantities() {
    let mut inv = starting_inventory();
    let total = |inv: &Inventory, id: usize| -> usize {
        inv.items.iter().filter(|it| it.item_id == id).map(|it| it.quantity).sum()
    };
    inv.add_item(Item::new("Sword".to_string(), 2, 6));
    assert_eq!(total(&inv, 2), 7);
    assert_eq!(total(&inv, 1), 1);
    inv.add_item(Item::new("Rock".to_string(), 9, 3));
    assert_eq!(total(&inv, 9), 3);
    assert_eq!(inv.items.iter().filter(|it| it.item_id == 9).count(), 1);
}

#[test]
fn scrolling_from_a_wrapped_selection() {
    let mut inv = Inventory::new();
    inv.active_slot = usize::MAX; // read as -1 by the scroll
    inv.change_active_slot(0);
    assert_eq!(inv.active_slot, 9);
}
