use survival_core::campfire::{
    add_fuel_to_campfire, check_campfire_fuel_consumption, consume_campfire_fuel, place_campfire,
    toggle_campfire_burning, CampfireClearer,
};
use survival_core::container::{Campfire, ItemContainer, WoodenStorageBox};
use survival_core::container_ops::{clear_item_from_container, is_container_empty};
use survival_core::errors::GameError;
use survival_core::store::ItemStore;
use survival_core::storage_box::{
    clear_item_from_any_container, move_item_from_box, move_item_to_box, move_item_within_box,
    pickup_storage_box, place_wooden_storage_box, quick_move_from_box, quick_move_to_box,
    split_stack_into_box,
};
use survival_core::types::{InventoryItem, ItemCategory, ItemDefinition, PlayerId};

fn player(n: u64) -> PlayerId {
    PlayerId { w0: n, w1: 0, w2: 0, w3: 0 }
}

fn def(id: u64, name: &str, cat: ItemCategory, stackable: bool, stack_size: u32) -> ItemDefinition {
    ItemDefinition {
        id,
        name: name.to_string(),
        description: String::new(),
        category: cat,
        icon_asset_name: String::new(),
        damage: None,
        is_stackable: stackable,
        stack_size,
        is_equippable: false,
        equipment_slot: None,
    }
}

fn defs() -> Vec<ItemDefinition> {
    vec![
        def(1, "Wood", ItemCategory::Material, true, 1000),
        def(2, "Camp Fire", ItemCategory::Placeable, false, 1),
        def(3, "Wooden Storage Box", ItemCategory::Placeable, false, 1),
        def(4, "Stone", ItemCategory::Material, true, 1000),
    ]
}

fn item(id: u64, p: PlayerId, d: u64, q: u32, hot: Option<u8>, inv: Option<u16>) -> InventoryItem {
    InventoryItem {
        instance_id: id,
        player_identity: p,
        item_def_id: d,
        quantity: q,
        hotbar_slot: hot,
        inventory_slot: inv,
    }
}

const SEC: i64 = 1_000_000;

#[test]
fn place_campfire_starts_lit_with_fifty_wood() {
    let p = player(1);
    let mut store = ItemStore::from_rows(vec![item(4, p, 2, 1, Some(4), None)]).unwrap();
    let c = place_campfire(&mut store, &defs(), p, 4, 7, 100 * SEC).unwrap();
    assert_eq!(store.rows_vec().clone(), vec![item(5, p, 1, 50, None, None)]);
    assert!(c.is_burning);
    assert_eq!(c.chunk_index, 7);
    assert_eq!(c.fuel_instance_id_0, Some(5));
    assert_eq!(c.fuel_def_id_0, Some(1));
    assert_eq!(c.next_fuel_consume_at, Some(105 * SEC));
}

#[test]
fn place_campfire_needs_a_camp_fire_item() {
    let p = player(1);
    let rows = vec![item(4, p, 1, 10, Some(4), None)];
    let mut store = ItemStore::from_rows(rows.clone()).unwrap();
    assert_eq!(
        place_campfire(&mut store, &defs(), p, 4, 0, 0),
        Err(GameError::WrongItemKind { expected: 2, actual: 1 })
    );
    assert_eq!(place_campfire(&mut store, &defs(), player(2), 4, 0, 0), Err(GameError::ItemNotOwned { instance_id: 4 }));
    assert_eq!(store.rows_vec().clone(), rows);
}

#[test]
fn fuel_tick_burns_one_unit_and_reschedules() {
    let p = player(1);
    let mut store = ItemStore::from_rows(vec![item(5, p, 1, 3, None, None)]).unwrap();
    let mut c = Campfire::new(1, 0, p, 0, true, Some(10 * SEC));
    c.fuel_instance_id_0 = Some(5);
    c.fuel_def_id_0 = Some(1);
    consume_campfire_fuel(&mut store, &defs(), &mut c, 9 * SEC);
    assert_eq!(store.get(0).quantity, 3);
    consume_campfire_fuel(&mut store, &defs(), &mut c, 10 * SEC);
    assert_eq!(store.get(0).quantity, 2);
    assert_eq!(c.next_fuel_consume_at, Some(15 * SEC));
    assert!(c.is_burning);
}

#[test]
fn fire_goes_out_when_last_fuel_burns() {
    let p = player(1);
    let mut store = ItemStore::from_rows(vec![item(5, p, 1, 1, None, None)]).unwrap();
    let mut c = Campfire::new(1, 0, p, 0, true, Some(10 * SEC));
    c.fuel_instance_id_0 = Some(5);
    c.fuel_def_id_0 = Some(1);
    let mut fires = vec![c];
    check_campfire_fuel_consumption(&mut store, &defs(), &mut fires, 20 * SEC);
    assert!(store.rows_vec().is_empty());
    assert!(!fires[0].is_burning);
    assert_eq!(fires[0].next_fuel_consume_at, None);
    assert_eq!(fires[0].fuel_instance_id_0, None);
}

#[test]
fn toggle_needs_fuel_to_light() {
    let p = player(1);
    let store = ItemStore::new();
    let mut c = Campfire::new(1, 0, p, 0, false, None);
    assert_eq!(toggle_campfire_burning(&store, &defs(), &mut c, 0), Err(GameError::NoFuel));
    let store2 = ItemStore::from_rows(vec![item(5, p, 1, 10, None, None)]).unwrap();
    c.fuel_instance_id_2 = Some(5);
    c.fuel_def_id_2 = Some(1);
    assert_eq!(toggle_campfire_burning(&store2, &defs(), &mut c, 2 * SEC), Ok(()));
    assert!(c.is_burning);
    assert_eq!(c.next_fuel_consume_at, Some(7 * SEC));
    assert_eq!(toggle_campfire_burning(&store2, &defs(), &mut c, 3 * SEC), Ok(()));
    assert!(!c.is_burning);
    assert_eq!(c.next_fuel_consume_at, None);
}

#[test]
fn adding_fuel_to_burning_unscheduled_fire_schedules_in_thirty_seconds() {
    let p = player(1);
    let mut store = ItemStore::from_rows(vec![item(8, p, 1, 20, Some(0), None)]).unwrap();
    let mut c = Campfire::new(1, 0, p, 0, true, None);
    assert_eq!(add_fuel_to_campfire(&mut store, &defs(), p, &mut c, 1, 8, 5 * SEC), Ok(()));
    assert_eq!(c.fuel_instance_id_1, Some(8));
    assert_eq!(c.next_fuel_consume_at, Some(35 * SEC));
    assert_eq!(store.get(0), item(8, p, 1, 20, None, None));
}

#[test]
fn campfire_clearer_takes_item_out() {
    let p = player(1);
    let store = ItemStore::from_rows(vec![item(5, p, 1, 10, None, None)]).unwrap();
    let mut c = Campfire::new(1, 0, p, 0, false, None);
    c.fuel_instance_id_3 = Some(5);
    c.fuel_def_id_3 = Some(1);
    let mut fires = vec![c];
    assert!(CampfireClearer::clear_item(&store, &defs(), &mut fires, 5));
    assert_eq!(fires[0].fuel_instance_id_3, None);
    assert!(!CampfireClearer::clear_item(&store, &defs(), &mut fires, 5));
}

#[test]
fn place_box_uses_the_item_and_checks_reach_last() {
    let p = player(1);
    let rows = vec![item(3, p, 3, 1, Some(3), None)];
    let mut store = ItemStore::from_rows(rows.clone()).unwrap();
    assert_eq!(
        place_wooden_storage_box(&mut store, &defs(), p, 3, Err(GameError::TooFarAway)),
        Err(GameError::TooFarAway)
    );
    assert_eq!(store.rows_vec().clone(), rows);
    assert_eq!(
        place_wooden_storage_box(&mut store, &defs(), p, 9, Err(GameError::TooFarAway)),
        Err(GameError::ItemNotFound { instance_id: 9 })
    );
    let b = place_wooden_storage_box(&mut store, &defs(), p, 3, Ok(())).unwrap();
    assert!(store.rows_vec().is_empty());
    assert_eq!(b.placed_by, p);
    assert!(is_container_empty(&b));
    assert_eq!(b.num_slots(), 18);
    for k in 0..18u8 {
        assert_eq!(b.get_slot_instance_id(k), None);
        assert_eq!(b.get_slot_def_id(k), None);
    }
}

#[test]
fn box_move_in_within_and_out() {
    let p = player(1);
    let mut store = ItemStore::from_rows(vec![item(1, p, 1, 40, Some(0), None)]).unwrap();
    let mut b = WoodenStorageBox::new(1, p);
    let d = defs();
    assert_eq!(move_item_to_box(&mut store, &d, p, &mut b, 4, 1), Ok(()));
    assert_eq!(b.get_slot_instance_id(4), Some(1));
    assert_eq!(b.get_slot_def_id(4), Some(1));
    assert_eq!(store.get(0), item(1, p, 1, 40, None, None));
    assert_eq!(move_item_within_box(&mut store, &d, &mut b, 4, 17), Ok(()));
    assert_eq!(b.get_slot_instance_id(4), None);
    assert_eq!(b.get_slot_instance_id(17), Some(1));
    assert_eq!(move_item_within_box(&mut store, &d, &mut b, 17, 18), Err(GameError::InvalidSlotPair));
    let mut equip = None;
    assert_eq!(
        move_item_from_box(&mut store, &d, &mut equip, p, &mut b, 17, &"hotbar".to_string(), 2),
        Ok(())
    );
    assert_eq!(b.get_slot_instance_id(17), None);
    assert_eq!(store.get(0), item(1, p, 1, 40, Some(2), None));
}

#[test]
fn quick_move_to_box_merges_then_fills() {
    let p = player(1);
    let mut store = ItemStore::from_rows(vec![
        item(1, p, 1, 40, Some(0), None),
        item(2, p, 1, 990, None, None),
    ])
    .unwrap();
    let mut b = WoodenStorageBox::new(1, p);
    b.set_slot(0, Some(2), Some(1));
    assert_eq!(quick_move_to_box(&mut store, &defs(), p, &mut b, 1), Ok(()));
    assert_eq!(store.get(1).quantity, 1000);
    assert_eq!(store.get(0), item(1, p, 1, 30, None, None));
    assert_eq!(b.get_slot_instance_id(1), Some(1));
}

#[test]
fn split_into_box_refuses_unknown_source() {
    let p = player(1);
    let mut store = ItemStore::from_rows(vec![item(1, p, 1, 40, Some(0), None)]).unwrap();
    let mut b = WoodenStorageBox::new(1, p);
    assert_eq!(
        split_stack_into_box(&mut store, &defs(), &mut b, 0, 9, 5),
        Err(GameError::ItemNotFound { instance_id: 9 })
    );
    assert_eq!(split_stack_into_box(&mut store, &defs(), &mut b, 0, 1, 15), Ok(()));
    assert_eq!(store.get(0).quantity, 25);
    assert_eq!(b.get_slot_instance_id(0), Some(2));
    assert_eq!(store.get(1).quantity, 15);
}

#[test]
fn pickup_only_empty_box() {
    let p = player(1);
    let mut store = ItemStore::new();
    let mut b = WoodenStorageBox::new(1, p);
    b.set_slot(5, Some(77), Some(1));
    assert_eq!(pickup_storage_box(&mut store, &defs(), p, &b), Err(GameError::ContainerNotEmpty));
    b.set_slot(5, None, None);
    assert_eq!(pickup_storage_box(&mut store, &defs(), p, &b), Ok(()));
    assert_eq!(store.rows_vec().clone(), vec![item(1, p, 3, 1, Some(0), None)]);
}

#[test]
fn clear_item_tries_boxes_before_campfires() {
    let p = player(1);
    let store = ItemStore::from_rows(vec![item(5, p, 1, 10, None, None)]).unwrap();
    let mut b = WoodenStorageBox::new(1, p);
    b.set_slot(2, Some(5), Some(1));
    let mut c = Campfire::new(1, 0, p, 0, false, None);
    c.fuel_instance_id_0 = Some(5);
    c.fuel_def_id_0 = Some(1);
    let mut boxes = vec![b];
    let mut fires = vec![c];
    assert!(clear_item_from_any_container(&store, &defs(), &mut boxes, &mut fires, 5));
    assert_eq!(boxes[0].get_slot_instance_id(2), None);
    assert_eq!(fires[0].fuel_instance_id_0, Some(5));
    assert!(clear_item_from_any_container(&store, &defs(), &mut boxes, &mut fires, 5));
    assert_eq!(fires[0].fuel_instance_id_0, None);
}

#[test]
fn clearing_a_container_removes_every_copy() {
    let p = player(1);
    let mut b = WoodenStorageBox::new(1, p);
    b.set_slot(1, Some(9), Some(1));
    b.set_slot(6, Some(9), Some(1));
    b.set_slot(7, Some(3), Some(1));
    assert!(clear_item_from_container(&mut b, 9));
    assert_eq!(b.get_slot_instance_id(1), None);
    assert_eq!(b.get_slot_instance_id(6), None);
    assert_eq!(b.get_slot_instance_id(7), Some(3));
    assert!(!clear_item_from_container(&mut b, 9));
}

#[test]
fn quick_move_from_box_moves_the_stack() {
    let p = player(1);
    let mut store = ItemStore::from_rows(vec![
        item(1, p, 1, 40, Some(0), None),
        item(2, p, 1, 25, None, None),
    ])
    .unwrap();
    let mut b = WoodenStorageBox::new(1, p);
    b.set_slot(3, Some(2), Some(1));
    assert_eq!(quick_move_from_box(&mut store, &defs(), p, &mut b, 3), Ok(()));
    assert_eq!(b.get_slot_instance_id(3), None);
    assert_eq!(store.rows_vec().clone(), vec![item(1, p, 1, 65, Some(0), None)]);
}

#[test]
fn quick_move_to_full_box_keeps_what_did_not_merge() {
    let p = player(1);
    let mut store = ItemStore::from_rows(vec![
        item(1, p, 1, 40, Some(0), None),
        item(2, p, 1, 990, None, None),
    ])
    .unwrap();
    let mut b = WoodenStorageBox::new(1, p);
    b.set_slot(0, Some(2), Some(1));
    for k in 1..18u8 {
        b.set_slot(k, Some(100 + k as u64), Some(4));
    }
    assert_eq!(quick_move_to_box(&mut store, &defs(), p, &mut b, 1), Ok(()));
    assert_eq!(store.get(1).quantity, 1000);
    assert_eq!(store.get(0), item(1, p, 1, 30, Some(0), None));
    assert_eq!(store.get(0).quantity + store.get(1).quantity, 40 + 990);
}
