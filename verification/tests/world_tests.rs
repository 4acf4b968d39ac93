use rand::{Rng, SeedableRng};
use survival_core::buff::{buff_for_roll, rarity_for_roll, select_buff, Buff, BuffType, BuffRarity};
use survival_core::character::{character_bonus, select_character, Character, CharacterType, StatKind};
use survival_core::chat::send_message;
use survival_core::enemy::{enemy_can_attack, enemy_type_for_roll, kill_experience_percent, may_spawn_enemies, EnemyType};
use survival_core::errors::GameError;
use survival_core::store::ItemStore;
use survival_core::types::{ItemCategory, ItemDefinition, PlayerId};
use survival_core::world::{
    apply_resource_hit, calculate_tile_bounds, check_resource_respawns, chunk_index_of_tile,
    combat_respawn_at, hit_resource, interact_with_mushroom, plan_swing, start_swing,
    MushroomNode, ResourceNode, SwingTarget, TargetKind,
};
use survival_core::equipment::ActiveEquipment;

fn player(n: u64) -> PlayerId {
    PlayerId { w0: n, w1: 0, w2: 0, w3: 0 }
}

fn def(id: u64, name: &str, stackable: bool, damage: Option<u32>) -> ItemDefinition {
    ItemDefinition {
        id,
        name: name.to_string(),
        description: String::new(),
        category: ItemCategory::Material,
        icon_asset_name: String::new(),
        damage,
        is_stackable: stackable,
        stack_size: 1000,
        is_equippable: true,
        equipment_slot: None,
    }
}

const SEC: i64 = 1_000_000;

#[test]
fn tile_bounds_with_margin() {
    assert_eq!(calculate_tile_bounds(100, 100, 5), (5, 95, 5, 95));
    assert_eq!(calculate_tile_bounds(10, 4, 8), (2, 2, 0, 0));
}

#[test]
fn chunk_indices() {
    assert_eq!(chunk_index_of_tile(0, 0), 0);
    assert_eq!(chunk_index_of_tile(25, 45), 11);
    assert_eq!(chunk_index_of_tile(99, 99), 24);
    assert_eq!(chunk_index_of_tile(500, 0), 4);
}

#[test]
fn resource_hit_and_respawn() {
    let mut n = ResourceNode { id: 1, health: 3, last_hit_time: None, respawn_at: None };
    hit_resource(&mut n, 2, 10 * SEC);
    assert_eq!(n, ResourceNode { id: 1, health: 1, last_hit_time: Some(10 * SEC), respawn_at: None });
    hit_resource(&mut n, 5, 20 * SEC);
    assert_eq!(n.health, 0);
    assert_eq!(n.respawn_at, Some(320 * SEC));
    let mut stones = vec![n];
    let mut trees = vec![];
    let mut shrooms = vec![MushroomNode { id: 1, respawn_at: Some(5 * SEC) }];
    check_resource_respawns(&mut stones, &mut trees, &mut shrooms, 200, 319 * SEC);
    assert_eq!(stones[0].health, 0);
    assert_eq!(shrooms[0].respawn_at, None);
    check_resource_respawns(&mut stones, &mut trees, &mut shrooms, 200, 320 * SEC);
    assert_eq!(stones[0], ResourceNode { id: 1, health: 100, last_hit_time: None, respawn_at: None });
}

#[test]
fn swing_targets_by_tool() {
    let p = player(2);
    let pick = "Stone Pickaxe".to_string();
    let hit = plan_swing(&pick, 10, Some(1), Some(2), Some(p), Some(TargetKind::Tree)).unwrap();
    assert_eq!(hit.target, SwingTarget::Stone(2));
    assert_eq!(hit.damage, 10);
    let hit = plan_swing(&pick, 10, Some(1), None, Some(p), Some(TargetKind::Tree)).unwrap();
    assert_eq!(hit.target, SwingTarget::Player(p));
    assert!(hit.gain.is_none());
    let rock = "Rock".to_string();
    let hit = plan_swing(&rock, 10, Some(1), Some(2), None, Some(TargetKind::Stone)).unwrap();
    assert_eq!(hit.target, SwingTarget::Stone(2));
    assert_eq!(hit.damage, 1);
    assert_eq!(hit.gain.unwrap().quantity, 1);
    let sword = "Sword".to_string();
    let hit = plan_swing(&sword, 7, Some(1), None, None, Some(TargetKind::Tree)).unwrap();
    assert_eq!(hit.target, SwingTarget::Tree(1));
    assert!(hit.gain.is_none());
    assert!(plan_swing(&sword, 7, None, None, None, None).is_none());
}

#[test]
fn hatchet_hit_yields_wood() {
    let p = player(1);
    let defs = vec![def(1, "Wood", true, None), def(2, "Stone Hatchet", false, Some(5))];
    let mut equip = Some(ActiveEquipment::empty(p));
    assert_eq!(start_swing(&defs, &mut equip, 99), Err(GameError::NothingEquipped));
    let mut e = ActiveEquipment::empty(p);
    e.equipped_item_def_id = Some(2);
    e.equipped_item_instance_id = Some(4);
    let mut equip = Some(e);
    assert_eq!(start_swing(&defs, &mut equip, 99), Ok(Some(1)));
    assert_eq!(equip.unwrap().swing_start_time_ms, 99);
    let hatchet = "Stone Hatchet".to_string();
    let hit = plan_swing(&hatchet, 5, Some(8), None, None, None).unwrap();
    let mut store = ItemStore::new();
    let mut tree = ResourceNode { id: 8, health: 100, last_hit_time: None, respawn_at: None };
    apply_resource_hit(&mut store, &defs, p, &mut tree, hit, 3 * SEC);
    assert_eq!(tree.health, 95);
    assert_eq!(store.rows_vec()[0].quantity, 5);
    assert_eq!(store.rows_vec()[0].item_def_id, 1);
}

#[test]
fn mushroom_pick() {
    let p = player(1);
    let mut store = ItemStore::new();
    let mut m = MushroomNode { id: 1, respawn_at: None };
    assert_eq!(
        interact_with_mushroom(&mut store, &vec![def(1, "Wood", true, None)], p, &mut m, 0),
        Err(GameError::NamedDefinitionNotFound)
    );
    assert_eq!(interact_with_mushroom(&mut store, &vec![def(9, "Mushroom", true, None)], p, &mut m, 5 * SEC), Ok(()));
    assert_eq!(m.respawn_at, Some(305 * SEC));
    assert_eq!(store.rows_vec()[0].item_def_id, 9);
}

#[test]
fn combat_respawn_saturates() {
    assert_eq!(combat_respawn_at(SEC), 6 * SEC);
    assert_eq!(combat_respawn_at(i64::MAX - 1), i64::MAX);
}

#[test]
fn rarity_ranges() {
    assert_eq!(rarity_for_roll(0), BuffRarity::Common);
    assert_eq!(rarity_for_roll(49), BuffRarity::Common);
    assert_eq!(rarity_for_roll(50), BuffRarity::Uncommon);
    assert_eq!(rarity_for_roll(74), BuffRarity::Uncommon);
    assert_eq!(rarity_for_roll(75), BuffRarity::Rare);
    assert_eq!(rarity_for_roll(90), BuffRarity::Epic);
    assert_eq!(rarity_for_roll(98), BuffRarity::Legendary);
    assert_eq!(rarity_for_roll(99), BuffRarity::Legendary);
    let counts = (0..100).map(rarity_for_roll).filter(|r| *r == BuffRarity::Epic).count();
    assert_eq!(counts, 8);
}

#[test]
fn buff_strengths() {
    assert_eq!(buff_for_roll(1, BuffRarity::Rare), (BuffType::Attack, 3));
    assert_eq!(buff_for_roll(4, BuffRarity::Legendary), (BuffType::HpRegen, 50));
    assert_eq!(buff_for_roll(5, BuffRarity::Common), (BuffType::Armor, 1));
    assert_eq!(buff_for_roll(9, BuffRarity::Epic), (BuffType::Health, 1));
}

#[test]
fn selecting_a_buff_withdraws_the_others() {
    let p = player(1);
    let q = player(2);
    let b = |id: u64, who: PlayerId| Buff { id, player_id: who, kind: BuffType::Health, tenths: 1, rarity: BuffRarity::Common };
    let mut buffs = vec![b(1, p), b(2, q), b(3, p)];
    assert_eq!(select_buff(&mut buffs, p, 2), Err(GameError::BuffNotOwned));
    assert_eq!(select_buff(&mut buffs, p, 9), Err(GameError::BuffNotFound { buff_id: 9 }));
    assert_eq!(buffs.len(), 3);
    assert_eq!(select_buff(&mut buffs, p, 3), Ok(b(3, p)));
    assert_eq!(buffs, vec![b(2, q)]);
}

#[test]
fn characters() {
    assert_eq!(character_bonus(CharacterType::Til), (StatKind::Health, 150));
    assert_eq!(character_bonus(CharacterType::Chris), (StatKind::HpRegen, 200));
    let p = player(1);
    let existing = vec![Character { player_id: p, character_type: CharacterType::Max }];
    assert_eq!(select_character(&existing, p, CharacterType::Marc), Err(GameError::CharacterAlreadySelected));
    assert_eq!(
        select_character(&existing, player(2), CharacterType::Marc),
        Ok(Character { player_id: player(2), character_type: CharacterType::Marc })
    );
}

#[test]
fn chat_validation() {
    let p = player(1);
    assert_eq!(send_message(p, String::new(), 0).map(|m| m.id), Err(GameError::EmptyMessage));
    assert_eq!(send_message(p, "x".repeat(101), 0).map(|m| m.id), Err(GameError::MessageTooLong));
    let m = send_message(p, "x".repeat(100), 9).unwrap();
    assert_eq!(m.text.len(), 100);
    assert_eq!(m.sent, 9);
    let wide = send_message(p, "é".repeat(60), 1).unwrap();
    assert_eq!(wide.text.chars().count(), 60);
    assert_eq!(send_message(p, "é".repeat(101), 0).map(|m| m.id), Err(GameError::MessageTooLong));
}

#[test]
fn enemies() {
    assert_eq!(enemy_type_for_roll(0), EnemyType::Basic);
    assert_eq!(enemy_type_for_roll(3), EnemyType::Elite);
    assert_eq!(enemy_type_for_roll(7), EnemyType::Basic);
    assert!(may_spawn_enemies(49));
    assert!(!may_spawn_enemies(50));
    assert!(enemy_can_attack(None, 0));
    assert!(!enemy_can_attack(Some(SEC), SEC + 999_999));
    assert!(enemy_can_attack(Some(SEC), 2 * SEC));
    assert_eq!(kill_experience_percent(EnemyType::Tank), 150);
}

#[test]
fn spawn_tile_is_drawn_in_bounds_and_free() {
    let mut rng = rand::rngs::StdRng::seed_from_u64(7);
    assert_eq!(survival_core::world::pick_spawn_tile(&mut rng, 0, 1, 0, 1, &vec![]), Some((0, 0)));
    assert_eq!(survival_core::world::pick_spawn_tile(&mut rng, 0, 1, 0, 1, &vec![(0, 0)]), None);
    assert_eq!(survival_core::world::pick_spawn_tile(&mut rng, 5, 5, 0, 9, &vec![]), None);
    assert_eq!(survival_core::world::free_tile(3, 4, &vec![(3, 4)]), None);
    assert_eq!(survival_core::world::free_tile(3, 5, &vec![(3, 4)]), Some((3, 5)));
}

#[test]
fn empty_bounds_leave_the_generator_untouched() {
    let mut rng = rand::rngs::StdRng::seed_from_u64(11);
    let mut twin = rand::rngs::StdRng::seed_from_u64(11);
    assert_eq!(survival_core::world::pick_spawn_tile(&mut rng, 3, 3, 0, 9, &vec![]), None);
    assert_eq!(rng.gen_range(0u32..1_000_000), twin.gen_range(0u32..1_000_000));
}

#[test]
fn spawn_attempt_records_accepted_tile_only() {
    let mut rng = rand::rngs::StdRng::seed_from_u64(3);
    let mut occupied: Vec<(u32, u32)> = vec![(9, 9)];
    let refuse = |_t: (u32, u32)| false;
    let accept = |_t: (u32, u32)| true;
    assert!(!survival_core::world::attempt_spawn_tile(&mut rng, 0, 1, 0, 1, &mut occupied, &refuse));
    assert_eq!(occupied, vec![(9, 9)]);
    assert!(survival_core::world::attempt_spawn_tile(&mut rng, 0, 1, 0, 1, &mut occupied, &accept));
    assert_eq!(occupied, vec![(9, 9), (0, 0)]);
    assert!(!survival_core::world::attempt_spawn_tile(&mut rng, 0, 1, 0, 1, &mut occupied, &accept));
    assert!(!survival_core::world::attempt_spawn_tile(&mut rng, 4, 2, 0, 1, &mut occupied, &accept));
    assert_eq!(occupied, vec![(9, 9), (0, 0)]);
}
