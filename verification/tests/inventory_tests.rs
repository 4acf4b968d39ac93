use survival_core::errors::GameError;
use survival_core::equipment::ActiveEquipment;
use survival_core::player_inventory::{move_item_to_hotbar, move_item_to_inventory, split_stack};
use survival_core::stacking::{add_item_to_player_inventory, calculate_merge_result};
use survival_core::store::ItemStore;
use survival_core::types::{InventoryItem, ItemCategory, ItemDefinition, PlayerId};

fn player(n: u64) -> PlayerId {
    PlayerId { w0: n, w1: 0, w2: 0, w3: 0 }
}

fn def(id: u64, name: &str, stackable: bool, stack_size: u32) -> ItemDefinition {
    ItemDefinition {
        id,
        name: name.to_string(),
        description: String::new(),
        category: ItemCategory::Material,
        icon_asset_name: String::new(),
        damage: None,
        is_stackable: stackable,
        stack_size,
        is_equippable: false,
        equipment_slot: None,
    }
}

fn defs() -> Vec<ItemDefinition> {
    vec![def(1, "Wood", true, 100), def(2, "Stone Hatchet", false, 1)]
}

fn item(id: u64, p: PlayerId, d: u64, q: u32, hot: Option<u8>, inv: Option<u16>) -> InventoryItem {
    InventoryItem {
        instance_id: id,
        player_identity: p,
        item_def_id: d,
        quantity: q,
        hotbar_slot: hot,
        inventory_slot: inv,
    }
}

#[test]
fn add_item_creates_stack_in_first_hotbar_slot() {
    let mut store = ItemStore::new();
    let p = player(1);
    assert_eq!(add_item_to_player_inventory(&mut store, &defs(), p, 1, 40), Ok(()));
    assert_eq!(store.rows_vec().clone(), vec![item(1, p, 1, 40, Some(0), None)]);
}

#[test]
fn add_item_tops_up_existing_stack_first() {
    let p = player(1);
    let mut store = ItemStore::from_rows(vec![item(5, p, 1, 90, None, Some(3))]).unwrap();
    assert_eq!(add_item_to_player_inventory(&mut store, &defs(), p, 1, 25), Ok(()));
    assert_eq!(
        store.rows_vec().clone(),
        vec![item(5, p, 1, 100, None, Some(3)), item(6, p, 1, 15, Some(0), None)]
    );
}

#[test]
fn add_item_non_stackable_adds_one() {
    let mut store = ItemStore::new();
    let p = player(1);
    assert_eq!(add_item_to_player_inventory(&mut store, &defs(), p, 2, 3), Ok(()));
    assert_eq!(store.rows_vec().clone(), vec![item(1, p, 2, 1, Some(0), None)]);
}

#[test]
fn add_item_unknown_definition_is_refused() {
    let mut store = ItemStore::new();
    assert_eq!(
        add_item_to_player_inventory(&mut store, &defs(), player(1), 9, 3),
        Err(GameError::DefinitionNotFound { def_id: 9 })
    );
    assert!(store.rows_vec().is_empty());
}

#[test]
fn add_item_to_full_inventory_is_refused() {
    let p = player(1);
    let mut rows = Vec::new();
    let mut id = 1;
    for h in 0..6u8 {
        rows.push(item(id, p, 2, 1, Some(h), None));
        id += 1;
    }
    for s in 0..24u16 {
        rows.push(item(id, p, 2, 1, None, Some(s)));
        id += 1;
    }
    let mut store = ItemStore::from_rows(rows.clone()).unwrap();
    assert_eq!(add_item_to_player_inventory(&mut store, &defs(), p, 2, 1), Err(GameError::InventoryFull));
    assert_eq!(store.rows_vec().clone(), rows);
}

#[test]
fn merge_moves_what_fits() {
    let p = player(1);
    let wood = def(1, "Wood", true, 100);
    let src = item(1, p, 1, 30, Some(0), None);
    let tgt = item(2, p, 1, 80, Some(1), None);
    assert_eq!(calculate_merge_result(&src, &tgt, &wood), Ok((20, 10, 100, false)));
    let full = item(3, p, 1, 100, Some(2), None);
    assert_eq!(calculate_merge_result(&src, &full, &wood), Err(GameError::TargetStackFull));
    let hatchet = def(2, "Stone Hatchet", false, 1);
    assert_eq!(calculate_merge_result(&src, &tgt, &hatchet), Err(GameError::CannotMerge));
}

#[test]
fn merge_of_small_stack_empties_source() {
    let p = player(1);
    let wood = def(1, "Wood", true, 100);
    let src = item(1, p, 1, 5, Some(0), None);
    let tgt = item(2, p, 1, 10, Some(1), None);
    assert_eq!(calculate_merge_result(&src, &tgt, &wood), Ok((5, 0, 15, true)));
}

#[test]
fn split_stack_into_empty_slot() {
    let p = player(1);
    let mut store = ItemStore::from_rows(vec![item(1, p, 1, 50, Some(0), None)]).unwrap();
    let r = split_stack(&mut store, &defs(), p, 1, 20, &"inventory".to_string(), 4);
    assert_eq!(r, Ok(()));
    assert_eq!(
        store.rows_vec().clone(),
        vec![item(1, p, 1, 30, Some(0), None), item(2, p, 1, 20, None, Some(4))]
    );
}

#[test]
fn split_stack_errors() {
    let p = player(1);
    let rows = vec![item(1, p, 1, 50, Some(0), None), item(2, p, 2, 1, Some(1), None)];
    let mut store = ItemStore::from_rows(rows.clone()).unwrap();
    let d = defs();
    let inv = "inventory".to_string();
    assert_eq!(split_stack(&mut store, &d, p, 1, 0, &inv, 4), Err(GameError::ZeroQuantity));
    assert_eq!(
        split_stack(&mut store, &d, p, 1, 50, &inv, 4),
        Err(GameError::QuantityExceedsStack { requested: 50, available: 50 })
    );
    assert_eq!(split_stack(&mut store, &d, p, 2, 1, &inv, 4), Err(GameError::NotStackable));
    assert_eq!(split_stack(&mut store, &d, p, 1, 5, &"bag".to_string(), 4), Err(GameError::InvalidSlotType));
    assert_eq!(split_stack(&mut store, &d, p, 1, 5, &inv, 24), Err(GameError::InvalidInventorySlot { slot: 24 }));
    assert_eq!(
        split_stack(&mut store, &d, p, 1, 5, &"hotbar".to_string(), 1),
        Err(GameError::TargetSlotOccupied { slot: 1 })
    );
    assert_eq!(
        split_stack(&mut store, &d, player(2), 1, 5, &inv, 4),
        Err(GameError::ItemNotFoundOrNotOwned { instance_id: 1 })
    );
    assert_eq!(store.rows_vec().clone(), rows);
}

#[test]
fn move_to_hotbar_swaps_with_occupant() {
    let p = player(1);
    let rows = vec![item(1, p, 2, 1, None, Some(3)), item(2, p, 1, 10, Some(0), None)];
    let mut store = ItemStore::from_rows(rows).unwrap();
    let mut equip: Option<ActiveEquipment> = None;
    assert_eq!(move_item_to_hotbar(&mut store, &defs(), &mut equip, p, 1, 0), Ok(()));
    assert_eq!(
        store.rows_vec().clone(),
        vec![item(1, p, 2, 1, Some(0), None), item(2, p, 1, 10, None, Some(3))]
    );
}

#[test]
fn move_to_inventory_merges_same_kind() {
    let p = player(1);
    let rows = vec![item(1, p, 1, 30, Some(0), None), item(2, p, 1, 60, None, Some(5))];
    let mut store = ItemStore::from_rows(rows).unwrap();
    let mut equip: Option<ActiveEquipment> = None;
    assert_eq!(move_item_to_inventory(&mut store, &defs(), &mut equip, p, 1, 5), Ok(()));
    assert_eq!(store.rows_vec().clone(), vec![item(2, p, 1, 90, None, Some(5))]);
}

#[test]
fn move_to_invalid_slot_is_refused() {
    let p = player(1);
    let rows = vec![item(1, p, 1, 30, Some(0), None)];
    let mut store = ItemStore::from_rows(rows.clone()).unwrap();
    let mut equip: Option<ActiveEquipment> = None;
    assert_eq!(
        move_item_to_hotbar(&mut store, &defs(), &mut equip, p, 1, 6),
        Err(GameError::InvalidHotbarSlot { slot: 6 })
    );
    assert_eq!(
        move_item_to_inventory(&mut store, &defs(), &mut equip, p, 7, 1),
        Err(GameError::ItemNotFound { instance_id: 7 })
    );
    assert_eq!(store.rows_vec().clone(), rows);
}

#[test]
fn from_rows_refuses_duplicate_ids() {
    let p = player(1);
    assert!(ItemStore::from_rows(vec![item(1, p, 1, 1, None, None), item(1, p, 1, 2, None, None)]).is_none());
    assert!(ItemStore::from_rows(vec![item(1, p, 1, 1, Some(0), Some(0))]).is_none());
    let s = ItemStore::from_rows(vec![item(7, p, 1, 1, None, None)]).unwrap();
    assert_eq!(s.len(), 1);
}

#[test]
fn adding_one_kind_leaves_the_other_kinds_alone() {
    let p = player(1);
    let rows = vec![item(3, p, 2, 1, Some(0), None), item(4, player(2), 1, 7, Some(0), None)];
    let mut store = ItemStore::from_rows(rows).unwrap();
    assert_eq!(add_item_to_player_inventory(&mut store, &defs(), p, 1, 10), Ok(()));
    assert_eq!(
        store.rows_vec().clone(),
        vec![
            item(3, p, 2, 1, Some(0), None),
            item(4, player(2), 1, 7, Some(0), None),
            item(5, p, 1, 10, Some(1), None),
        ]
    );
}

#[test]
fn moving_and_splitting_never_puts_two_items_in_one_slot() {
    let p = player(1);
    let mut store = ItemStore::from_rows(vec![
        item(1, p, 1, 50, Some(0), None),
        item(2, p, 2, 1, Some(1), None),
        item(3, p, 1, 20, None, Some(0)),
    ])
    .unwrap();
    let mut equip: Option<ActiveEquipment> = None;
    assert_eq!(split_stack(&mut store, &defs(), p, 1, 10, &"hotbar".to_string(), 2), Ok(()));
    assert_eq!(move_item_to_hotbar(&mut store, &defs(), &mut equip, p, 2, 0), Ok(()));
    assert_eq!(move_item_to_inventory(&mut store, &defs(), &mut equip, p, 4, 1), Ok(()));
    assert_eq!(add_item_to_player_inventory(&mut store, &defs(), p, 2, 1), Ok(()));
    let rows = store.rows_vec().clone();
    for a in 0..rows.len() {
        for b in 0..rows.len() {
            if a != b && rows[a].player_identity == rows[b].player_identity {
                assert!(rows[a].hotbar_slot.is_none() || rows[a].hotbar_slot != rows[b].hotbar_slot);
                assert!(rows[a].inventory_slot.is_none() || rows[a].inventory_slot != rows[b].inventory_slot);
            }
        }
    }
    assert_eq!(
        rows,
        vec![
            item(1, p, 1, 40, Some(1), None),
            item(2, p, 2, 1, Some(0), None),
            item(3, p, 1, 20, None, Some(0)),
            item(4, p, 1, 10, None, Some(1)),
            item(5, p, 2, 1, Some(2), None),
        ]
    );
}

#[test]
fn add_item_splits_leftover_into_full_stacks() {
    let mut store = ItemStore::new();
    let p = player(1);
    assert_eq!(add_item_to_player_inventory(&mut store, &defs(), p, 1, 250), Ok(()));
    assert_eq!(
        store.rows_vec().clone(),
        vec![
            item(1, p, 1, 100, Some(0), None),
            item(2, p, 1, 100, Some(1), None),
            item(3, p, 1, 50, Some(2), None),
        ]
    );
}

#[test]
fn add_item_refuses_when_stacks_run_out_of_slots() {
    let p = player(1);
    let mut rows = Vec::new();
    for h in 0..6u8 {
        rows.push(item(10 + h as u64, p, 2, 1, Some(h), None));
    }
    for k in 0..23u16 {
        rows.push(item(20 + k as u64, p, 2, 1, None, Some(k)));
    }
    let mut store = ItemStore::from_rows(rows).unwrap();
    assert_eq!(add_item_to_player_inventory(&mut store, &defs(), p, 1, 150), Err(GameError::InventoryFull));
    assert_eq!(store.len(), 30);
    assert_eq!(store.get(29), item(43, p, 1, 100, None, Some(23)));
}
