use survival_core::container::{Campfire, ItemContainer, WoodenStorageBox};
use survival_core::equipment::{equip_armor, equip_armor_from_inventory, ActiveEquipment};
use survival_core::errors::GameError;
use survival_core::item_actions::{drop_item, equip_armor_from_drag};
use survival_core::store::ItemStore;
use survival_core::types::{EquipmentSlot, InventoryItem, ItemCategory, ItemDefinition, PlayerId};

fn player(n: u64) -> PlayerId {
    PlayerId { w0: n, w1: 0, w2: 0, w3: 0 }
}

fn def(id: u64, name: &str, cat: ItemCategory, stackable: bool, slot: Option<EquipmentSlot>) -> ItemDefinition {
    ItemDefinition {
        id,
        name: name.to_string(),
        description: String::new(),
        category: cat,
        icon_asset_name: String::new(),
        damage: None,
        is_stackable: stackable,
        stack_size: 1000,
        is_equippable: slot.is_some(),
        equipment_slot: slot,
    }
}

fn defs() -> Vec<ItemDefinition> {
    vec![
        def(1, "Wood", ItemCategory::Material, true, None),
        def(2, "Cloth Hood", ItemCategory::Armor, false, Some(EquipmentSlot::Head)),
        def(3, "Leather Hood", ItemCategory::Armor, false, Some(EquipmentSlot::Head)),
        def(4, "Stone Hatchet", ItemCategory::Tool, false, None),
    ]
}

fn item(id: u64, p: PlayerId, d: u64, q: u32, hot: Option<u8>, inv: Option<u16>) -> InventoryItem {
    InventoryItem {
        instance_id: id,
        player_identity: p,
        item_def_id: d,
        quantity: q,
        hotbar_slot: hot,
        inventory_slot: inv,
    }
}

#[test]
fn drop_part_of_a_stack() {
    let p = player(1);
    let mut store = ItemStore::from_rows(vec![item(1, p, 1, 30, Some(0), None)]).unwrap();
    let mut equip = None;
    let mut boxes: Vec<WoodenStorageBox> = vec![];
    let mut fires: Vec<Campfire> = vec![];
    let r = drop_item(&mut store, &defs(), &mut equip, &mut boxes, &mut fires, p, 1, 12);
    assert_eq!(r, Ok(1));
    assert_eq!(store.rows_vec().clone(), vec![item(1, p, 1, 18, Some(0), None)]);
}

#[test]
fn drop_whole_stack_deletes_it_and_empties_hand() {
    let p = player(1);
    let mut store = ItemStore::from_rows(vec![item(1, p, 4, 1, Some(0), None)]).unwrap();
    let mut e = ActiveEquipment::empty(p);
    e.equipped_item_instance_id = Some(1);
    e.equipped_item_def_id = Some(4);
    e.swing_start_time_ms = 5;
    let mut equip = Some(e);
    let mut boxes: Vec<WoodenStorageBox> = vec![];
    let mut fires: Vec<Campfire> = vec![];
    assert_eq!(drop_item(&mut store, &defs(), &mut equip, &mut boxes, &mut fires, p, 1, 1), Ok(4));
    assert!(store.rows_vec().is_empty());
    assert_eq!(equip, Some(ActiveEquipment::empty(p)));
}

#[test]
fn drop_errors_change_nothing() {
    let p = player(1);
    let rows = vec![item(1, p, 1, 30, Some(0), None), item(2, p, 4, 1, Some(1), None)];
    let mut store = ItemStore::from_rows(rows.clone()).unwrap();
    let mut equip = None;
    let mut boxes: Vec<WoodenStorageBox> = vec![];
    let mut fires: Vec<Campfire> = vec![];
    let d = defs();
    assert_eq!(drop_item(&mut store, &d, &mut equip, &mut boxes, &mut fires, p, 1, 0), Err(GameError::ZeroQuantity));
    assert_eq!(
        drop_item(&mut store, &d, &mut equip, &mut boxes, &mut fires, p, 1, 31),
        Err(GameError::QuantityExceedsStack { requested: 31, available: 30 })
    );
    assert_eq!(
        drop_item(&mut store, &d, &mut equip, &mut boxes, &mut fires, player(2), 1, 1),
        Err(GameError::ItemNotOwned { instance_id: 1 })
    );
    assert_eq!(drop_item(&mut store, &d, &mut equip, &mut boxes, &mut fires, p, 9, 1), Err(GameError::ItemNotFound { instance_id: 9 }));
    assert_eq!(store.rows_vec().clone(), rows);
}

#[test]
fn drop_from_a_box_passes_ownership_and_clears_the_slot() {
    let p = player(1);
    let q = player(2);
    let mut store = ItemStore::from_rows(vec![item(1, q, 1, 30, None, None)]).unwrap();
    let mut b = WoodenStorageBox::new(1, q);
    b.set_slot(3, Some(1), Some(1));
    let mut boxes = vec![b];
    let mut fires: Vec<Campfire> = vec![];
    let mut equip = None;
    assert_eq!(drop_item(&mut store, &defs(), &mut equip, &mut boxes, &mut fires, p, 1, 10), Ok(1));
    assert_eq!(store.rows_vec().clone(), vec![item(1, p, 1, 20, None, None)]);
    assert_eq!(boxes[0].get_slot_instance_id(3), None);
}

#[test]
fn drag_armor_swaps_the_worn_piece_into_inventory() {
    let p = player(1);
    let mut store = ItemStore::from_rows(vec![item(1, p, 2, 1, Some(0), None), item(2, p, 3, 1, None, None)]).unwrap();
    let mut e = ActiveEquipment::empty(p);
    e.head_item_instance_id = Some(2);
    let mut equip = Some(e);
    let mut boxes: Vec<WoodenStorageBox> = vec![];
    let mut fires: Vec<Campfire> = vec![];
    let d = defs();
    assert_eq!(
        equip_armor_from_drag(&mut store, &d, &mut equip, &mut boxes, &mut fires, p, 1, &"Chest".to_string()),
        Err(GameError::WrongEquipmentSlot { required: EquipmentSlot::Head, target: EquipmentSlot::Chest })
    );
    assert_eq!(
        equip_armor_from_drag(&mut store, &d, &mut equip, &mut boxes, &mut fires, p, 1, &"Hat".to_string()),
        Err(GameError::InvalidEquipmentSlotName)
    );
    assert_eq!(
        equip_armor_from_drag(&mut store, &d, &mut equip, &mut boxes, &mut fires, p, 1, &"Head".to_string()),
        Ok(())
    );
    assert_eq!(equip.unwrap().head_item_instance_id, Some(1));
    assert_eq!(
        store.rows_vec().clone(),
        vec![item(1, p, 2, 1, None, None), item(2, p, 3, 1, None, Some(0))]
    );
}

#[test]
fn drag_from_a_container_takes_the_item_out_of_it() {
    let p = player(1);
    let q = player(2);
    let mut store = ItemStore::from_rows(vec![item(1, q, 2, 1, None, None)]).unwrap();
    let mut c = Campfire::new(1, 0, q, 0, false, None);
    c.fuel_instance_id_4 = Some(1);
    c.fuel_def_id_4 = Some(2);
    let mut fires = vec![c];
    let mut boxes: Vec<WoodenStorageBox> = vec![];
    let mut equip = Some(ActiveEquipment::empty(p));
    assert_eq!(
        equip_armor_from_drag(&mut store, &defs(), &mut equip, &mut boxes, &mut fires, p, 1, &"Head".to_string()),
        Ok(())
    );
    assert_eq!(fires[0].fuel_instance_id_4, None);
    assert_eq!(store.rows_vec().clone(), vec![item(1, p, 2, 1, None, None)]);
    assert_eq!(equip.unwrap().head_item_instance_id, Some(1));
}

#[test]
fn equip_armor_from_inventory_needs_room_for_the_old_piece() {
    let p = player(1);
    let mut rows = vec![item(1, p, 2, 1, Some(0), None), item(2, p, 3, 1, None, None)];
    for s in 0..24u16 {
        rows.push(item(10 + s as u64, p, 1, 1, None, Some(s)));
    }
    let mut store = ItemStore::from_rows(rows.clone()).unwrap();
    let mut e = ActiveEquipment::empty(p);
    e.head_item_instance_id = Some(2);
    let mut equip = Some(e);
    assert_eq!(equip_armor_from_inventory(&mut store, &defs(), &mut equip, p, 1), Err(GameError::InventoryFull));
    assert_eq!(store.rows_vec().clone(), rows);
    assert_eq!(equip, Some(e));
}

#[test]
fn equip_armor_wears_the_piece_and_hands_back_the_old_one() {
    let p = player(1);
    let rows = vec![item(1, p, 2, 1, Some(3), None), item(2, p, 3, 1, None, None)];
    let mut store = ItemStore::from_rows(rows).unwrap();
    let mut e = ActiveEquipment::empty(p);
    e.head_item_instance_id = Some(2);
    let mut equip = Some(e);
    assert_eq!(equip_armor(&mut store, &defs(), &mut equip, p, 1), Ok(()));
    assert_eq!(
        store.rows_vec().clone(),
        vec![item(1, p, 2, 1, None, None), item(2, p, 3, 1, Some(3), None)]
    );
    assert_eq!(equip.unwrap().head_item_instance_id, Some(1));
}

#[test]
fn equip_armor_refuses_what_is_not_armor() {
    let p = player(1);
    let rows = vec![item(1, p, 4, 1, Some(0), None)];
    let mut store = ItemStore::from_rows(rows.clone()).unwrap();
    let mut equip = None;
    assert_eq!(equip_armor(&mut store, &defs(), &mut equip, p, 1), Err(GameError::NotArmor));
    assert_eq!(store.rows_vec().clone(), rows);
    assert_eq!(equip, None);
}
