use survival_core::crafting::{CraftingQueueItem, Recipe, RecipeIngredient};
use survival_core::equipment::ActiveEquipment;
use survival_core::errors::GameError;
use survival_core::player::{
    identity_disconnected, jump, random_color, register_player, request_respawn, resolve_direction,
    set_sprinting, Facing, PlayerState,
};
use survival_core::store::ItemStore;
use survival_core::types::{EquipmentSlot, InventoryItem, ItemCategory, ItemDefinition, PlayerId};

fn player(n: u64) -> PlayerId {
    PlayerId { w0: n, w1: 0, w2: 0, w3: 0 }
}

fn def(id: u64, name: &str, cat: ItemCategory, slot: Option<EquipmentSlot>) -> ItemDefinition {
    ItemDefinition {
        id,
        name: name.to_string(),
        description: String::new(),
        category: cat,
        icon_asset_name: String::new(),
        damage: None,
        is_stackable: false,
        stack_size: 1,
        is_equippable: slot.is_some(),
        equipment_slot: slot,
    }
}

fn item(id: u64, p: PlayerId, d: u64, q: u32, hot: Option<u8>, inv: Option<u16>) -> InventoryItem {
    InventoryItem {
        instance_id: id,
        player_identity: p,
        item_def_id: d,
        quantity: q,
        hotbar_slot: hot,
        inventory_slot: inv,
    }
}

fn state(p: PlayerId, name: &str) -> PlayerState {
    PlayerState {
        identity: p,
        username: name.to_string(),
        color: "#FF0000".to_string(),
        direction: "left".to_string(),
        jump_start_time_ms: 0,
        is_sprinting: false,
        is_dead: false,
        respawn_at: 0,
        last_update: 0,
        last_stat_update: 0,
        last_hit_time: None,
    }
}

#[test]
fn color_follows_byte_sum() {
    assert_eq!(random_color(""), "#FF0000");
    assert_eq!(random_color("a"), "#00FF00");
    assert_eq!(random_color("ab"), "#FFFF00");
    assert_eq!(random_color("ab"), random_color("ba"));
    assert_eq!(random_color("player_one"), random_color("one_player"));
}

#[test]
fn jump_has_a_cooldown() {
    let p = player(1);
    let mut s = state(p, "x");
    assert_eq!(jump(&mut s, 1_000, 7), Ok(()));
    assert_eq!(s.jump_start_time_ms, 1_000);
    assert_eq!(s.last_update, 7);
    assert_eq!(jump(&mut s, 1_499, 8), Err(GameError::JumpCooldown));
    assert_eq!(s.jump_start_time_ms, 1_000);
    assert_eq!(jump(&mut s, 1_500, 9), Ok(()));
    s.is_dead = true;
    assert_eq!(jump(&mut s, 5_000, 10), Err(GameError::PlayerDead));
}

#[test]
fn sprint_change_updates_timestamp() {
    let mut s = state(player(1), "x");
    set_sprinting(&mut s, false, 5);
    assert_eq!(s.last_update, 0);
    set_sprinting(&mut s, true, 5);
    assert!(s.is_sprinting);
    assert_eq!(s.last_update, 5);
}

#[test]
fn direction_rules() {
    let cur = "left".to_string();
    assert_eq!(resolve_direction(&cur, &Some("up".to_string()), None), "up");
    assert_eq!(resolve_direction(&cur, &Some("north".to_string()), Some(Facing::Down)), "left");
    assert_eq!(resolve_direction(&cur, &None, Some(Facing::Right)), "right");
    assert_eq!(resolve_direction(&cur, &None, None), "left");
}

#[test]
fn respawn_errors_and_reset() {
    let p = player(1);
    let defs = vec![def(1, "Rock", ItemCategory::Tool, None), def(2, "Wood", ItemCategory::Material, None)];
    let mut store = ItemStore::from_rows(vec![
        item(1, p, 2, 10, Some(0), None),
        item(2, player(2), 2, 10, Some(0), None),
        item(3, p, 2, 10, None, None),
    ])
    .unwrap();
    let mut queue: Vec<CraftingQueueItem> = Vec::new();
    let mut equip = Some(ActiveEquipment::empty(p));
    let mut s = state(p, "x");
    assert_eq!(
        request_respawn(&mut store, &defs, &vec![], &mut queue, &mut equip, &mut s, 10).map(|v| v.len()),
        Err(GameError::NotDead)
    );
    s.is_dead = true;
    s.respawn_at = 2_500_000;
    assert_eq!(
        request_respawn(&mut store, &defs, &vec![], &mut queue, &mut equip, &mut s, 1_000_000).map(|v| v.len()),
        Err(GameError::RespawnNotReady { remaining_secs: 2 })
    );
    s.jump_start_time_ms = 77;
    let r = request_respawn(&mut store, &defs, &vec![], &mut queue, &mut equip, &mut s, 3_000_000);
    assert_eq!(r.map(|v| v.len()), Ok(0));
    assert_eq!(
        store.rows_vec().clone(),
        vec![item(2, player(2), 2, 10, Some(0), None), item(4, p, 1, 1, Some(0), None)]
    );
    assert!(!s.is_dead);
    assert_eq!(s.jump_start_time_ms, 0);
    assert_eq!(s.direction, "down");
    assert_eq!(s.last_update, 3_000_000);
}

#[test]
fn registration_checks_and_starting_kit() {
    let p = player(1);
    let defs = vec![
        def(1, "Stone Hatchet", ItemCategory::Tool, None),
        def(2, "Camp Fire", ItemCategory::Placeable, None),
        def(3, "Cloth Hood", ItemCategory::Armor, Some(EquipmentSlot::Head)),
    ];
    let mut store = ItemStore::new();
    let mut equip = None;
    let others = vec![state(player(2), "taken")];
    assert_eq!(
        register_player(&mut store, &defs, &others, &mut equip, p, "taken".to_string(), 0).map(|s| s.identity),
        Err(GameError::UsernameTaken)
    );
    let me = vec![state(p, "someone")];
    assert_eq!(
        register_player(&mut store, &defs, &me, &mut equip, p, "new".to_string(), 0).map(|s| s.identity),
        Err(GameError::AlreadyRegistered)
    );
    let s = register_player(&mut store, &defs, &others, &mut equip, p, "new".to_string(), 42).unwrap();
    assert_eq!(s.direction, "down");
    assert_eq!(s.respawn_at, 42);
    assert_eq!(s.color, random_color("new"));
    assert_eq!(
        store.rows_vec().clone(),
        vec![item(1, p, 1, 1, Some(1), None), item(2, p, 2, 1, Some(4), None), item(3, p, 3, 1, None, None)]
    );
    assert_eq!(equip.unwrap().head_item_instance_id, Some(3));
}

#[test]
fn disconnect_deletes_slotted_items_and_equipment() {
    let p = player(1);
    let defs = vec![def(1, "Wood", ItemCategory::Material, None)];
    let mut store = ItemStore::from_rows(vec![item(1, p, 1, 1, Some(0), None), item(2, p, 1, 1, None, None)]).unwrap();
    let mut queue: Vec<CraftingQueueItem> = Vec::new();
    let mut equip = Some(ActiveEquipment::empty(p));
    let failed = identity_disconnected(&mut store, &defs, &vec![], &mut queue, &mut equip, p);
    assert!(failed.is_empty());
    assert!(equip.is_none());
    assert_eq!(store.rows_vec().clone(), vec![item(2, p, 1, 1, None, None)]);
}

#[test]
fn respawn_with_a_queued_craft_puts_refund_and_rock_in_hotbar_slot_zero() {
    let p = player(1);
    let defs = vec![def(1, "Rock", ItemCategory::Tool, None), def(2, "Wood", ItemCategory::Material, None)];
    let mut store = ItemStore::from_rows(vec![item(2, player(2), 2, 10, Some(0), None)]).unwrap();
    let recipes = vec![Recipe {
        recipe_id: 7,
        output_item_def_id: 1,
        output_quantity: 1,
        ingredients: vec![RecipeIngredient { item_def_id: 2, quantity: 5 }],
        crafting_time_secs: 10,
    }];
    let mut queue = vec![CraftingQueueItem {
        queue_item_id: 9,
        player_identity: p,
        recipe_id: 7,
        output_item_def_id: 1,
        output_quantity: 1,
        start_time: 0,
        finish_time: 10_000_000,
    }];
    let mut equip = None;
    let mut s = state(p, "x");
    s.is_dead = true;
    let r = request_respawn(&mut store, &defs, &recipes, &mut queue, &mut equip, &mut s, 1);
    assert_eq!(r.map(|v| v.len()), Ok(0));
    assert!(queue.is_empty());
    assert_eq!(
        store.rows_vec().clone(),
        vec![
            item(2, player(2), 2, 10, Some(0), None),
            item(3, p, 2, 1, Some(0), None),
            item(4, p, 1, 1, Some(0), None),
        ]
    );
}
