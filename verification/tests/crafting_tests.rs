use survival_core::crafting::{
    cancel_crafting_item, check_finished_crafting, clear_player_crafting_queue, crafting_fits,
    get_initial_recipes_data, recipe_totals_fit, refund_count, seed_recipes, start_crafting, CraftingQueueItem, Recipe,
    RecipeIngredient,
};
use survival_core::errors::GameError;
use survival_core::player::PlayerState;
use survival_core::store::ItemStore;
use survival_core::types::{InventoryItem, ItemCategory, ItemDefinition, PlayerId};

fn player(n: u64) -> PlayerId {
    PlayerId { w0: n, w1: 0, w2: 0, w3: 0 }
}

fn def(id: u64, name: &str, stackable: bool) -> ItemDefinition {
    ItemDefinition {
        id,
        name: name.to_string(),
        description: String::new(),
        category: ItemCategory::Material,
        icon_asset_name: String::new(),
        damage: None,
        is_stackable: stackable,
        stack_size: 1000,
        is_equippable: false,
        equipment_slot: None,
    }
}

fn defs() -> Vec<ItemDefinition> {
    vec![
        def(1, "Wood", true),
        def(2, "Stone", true),
        def(3, "Rock", false),
        def(4, "Stone Hatchet", false),
        def(5, "Stone Pickaxe", false),
        def(6, "Camp Fire", false),
        def(7, "Wooden Storage Box", false),
    ]
}

fn item(id: u64, p: PlayerId, d: u64, q: u32, hot: Option<u8>, inv: Option<u16>) -> InventoryItem {
    InventoryItem {
        instance_id: id,
        player_identity: p,
        item_def_id: d,
        quantity: q,
        hotbar_slot: hot,
        inventory_slot: inv,
    }
}

fn hatchet_recipe() -> Recipe {
    Recipe {
        recipe_id: 2,
        output_item_def_id: 4,
        output_quantity: 1,
        ingredients: vec![
            RecipeIngredient { item_def_id: 1, quantity: 75 },
            RecipeIngredient { item_def_id: 2, quantity: 150 },
        ],
        crafting_time_secs: 20,
    }
}

fn alive(p: PlayerId) -> PlayerState {
    PlayerState {
        identity: p,
        username: "a".to_string(),
        color: "#FF0000".to_string(),
        direction: "down".to_string(),
        jump_start_time_ms: 0,
        is_sprinting: false,
        is_dead: false,
        respawn_at: 0,
        last_update: 0,
        last_stat_update: 0,
        last_hit_time: None,
    }
}

const SEC: i64 = 1_000_000;

#[test]
fn initial_recipes_are_the_five_known() {
    let r = get_initial_recipes_data();
    assert_eq!(r.len(), 5);
    assert_eq!(r[0].0, "Rock");
    assert_eq!(r[0].2, vec![("Stone".to_string(), 1)]);
    assert_eq!(r[1].0, "Stone Hatchet");
    assert_eq!(r[1].2, vec![("Wood".to_string(), 75), ("Stone".to_string(), 150)]);
    assert_eq!(r[1].3, 20);
    assert_eq!(r[3].0, "Camp Fire");
    assert_eq!(r[3].2, vec![("Wood".to_string(), 50), ("Stone".to_string(), 5)]);
    assert_eq!(r[4].0, "Wooden Storage Box");
    assert_eq!(r[4].2, vec![("Wood".to_string(), 100)]);
    assert_eq!(r[4].3, 15);
}

#[test]
fn seed_recipes_resolves_names() {
    let v = seed_recipes(&defs(), true).unwrap();
    assert_eq!(v.len(), 5);
    assert_eq!(v[1].output_item_def_id, 4);
    assert_eq!(
        v[1].ingredients,
        vec![RecipeIngredient { item_def_id: 1, quantity: 75 }, RecipeIngredient { item_def_id: 2, quantity: 150 }]
    );
    assert_eq!(v[0].crafting_time_secs, 1);
    assert!(seed_recipes(&defs(), false).unwrap().is_empty());
    let mut missing = defs();
    missing.remove(6);
    assert_eq!(seed_recipes(&missing, true).map(|v| v.len()), Err(GameError::NamedDefinitionNotFound));
}

#[test]
fn start_crafting_takes_ingredients_in_table_order() {
    let p = player(1);
    let mut store = ItemStore::from_rows(vec![
        item(1, p, 1, 50, Some(0), None),
        item(2, p, 1, 50, None, Some(0)),
        item(3, p, 2, 200, Some(1), None),
        item(4, p, 1, 500, None, None),
    ])
    .unwrap();
    let entry = start_crafting(&mut store, &vec![hatchet_recipe()], &vec![], p, 2, 10 * SEC).unwrap();
    assert_eq!(
        store.rows_vec().clone(),
        vec![item(2, p, 1, 25, None, Some(0)), item(3, p, 2, 50, Some(1), None), item(4, p, 1, 500, None, None)]
    );
    assert_eq!(entry.output_item_def_id, 4);
    assert_eq!(entry.start_time, 10 * SEC);
    assert_eq!(entry.finish_time, 30 * SEC);
}

#[test]
fn start_crafting_reports_missing_ingredient() {
    let p = player(1);
    let rows = vec![item(1, p, 1, 100, Some(0), None), item(2, p, 2, 100, Some(1), None)];
    let mut store = ItemStore::from_rows(rows.clone()).unwrap();
    assert_eq!(
        start_crafting(&mut store, &vec![hatchet_recipe()], &vec![], p, 2, 0),
        Err(GameError::MissingIngredient { def_id: 2, missing: 50 })
    );
    assert_eq!(store.rows_vec().clone(), rows);
    assert_eq!(
        start_crafting(&mut store, &vec![hatchet_recipe()], &vec![], p, 9, 0),
        Err(GameError::RecipeNotFound { recipe_id: 9 })
    );
}

#[test]
fn crafting_queue_entries_finish_one_after_another() {
    let p = player(1);
    let mut store = ItemStore::from_rows(vec![item(1, p, 1, 500, Some(0), None), item(2, p, 2, 500, Some(1), None)]).unwrap();
    let queued = vec![CraftingQueueItem {
        queue_item_id: 1,
        player_identity: p,
        recipe_id: 2,
        output_item_def_id: 4,
        output_quantity: 1,
        start_time: 0,
        finish_time: 50 * SEC,
    }];
    let entry = start_crafting(&mut store, &vec![hatchet_recipe()], &queued, p, 2, 10 * SEC).unwrap();
    assert_eq!(entry.finish_time, 70 * SEC);
}

#[test]
fn finished_entries_are_granted_and_removed() {
    let p = player(1);
    let q = player(2);
    let mut store = ItemStore::new();
    let mut queue = vec![
        CraftingQueueItem { queue_item_id: 1, player_identity: p, recipe_id: 2, output_item_def_id: 4, output_quantity: 1, start_time: 0, finish_time: 5 * SEC },
        CraftingQueueItem { queue_item_id: 2, player_identity: p, recipe_id: 2, output_item_def_id: 4, output_quantity: 1, start_time: 0, finish_time: 50 * SEC },
        CraftingQueueItem { queue_item_id: 3, player_identity: q, recipe_id: 2, output_item_def_id: 4, output_quantity: 1, start_time: 0, finish_time: 5 * SEC },
    ];
    let mut dead = alive(q);
    dead.is_dead = true;
    let players = vec![alive(p), dead];
    let drops = check_finished_crafting(&mut store, &defs(), &mut queue, &players, 10 * SEC);
    assert!(drops.is_empty());
    assert_eq!(store.rows_vec().clone(), vec![item(1, p, 4, 1, Some(0), None)]);
    assert_eq!(queue.len(), 1);
    assert_eq!(queue[0].queue_item_id, 2);
}

#[test]
fn cancel_refunds_ingredients() {
    let p = player(1);
    let mut store = ItemStore::new();
    let mut queue = vec![CraftingQueueItem {
        queue_item_id: 7,
        player_identity: p,
        recipe_id: 2,
        output_item_def_id: 4,
        output_quantity: 1,
        start_time: 0,
        finish_time: 5 * SEC,
    }];
    let recipes = vec![hatchet_recipe()];
    assert_eq!(
        cancel_crafting_item(&mut store, &defs(), &recipes, &mut queue, player(2), 7),
        Err(GameError::QueueItemNotOwned)
    );
    assert_eq!(
        cancel_crafting_item(&mut store, &defs(), &recipes, &mut queue, p, 8),
        Err(GameError::QueueItemNotFound { queue_item_id: 8 })
    );
    assert_eq!(cancel_crafting_item(&mut store, &defs(), &recipes, &mut queue, p, 7), Ok(()));
    assert!(queue.is_empty());
    assert_eq!(
        store.rows_vec().clone(),
        vec![item(1, p, 1, 75, Some(0), None), item(2, p, 2, 150, Some(1), None)]
    );
}

#[test]
fn start_then_cancel_gives_back_what_was_taken() {
    let p = player(1);
    let mut store = ItemStore::from_rows(vec![item(1, p, 1, 100, Some(0), None), item(2, p, 2, 150, Some(1), None)]).unwrap();
    let recipes = vec![hatchet_recipe()];
    let mut entry = start_crafting(&mut store, &recipes, &vec![], p, 2, 0).unwrap();
    entry.queue_item_id = 1;
    let mut queue = vec![entry];
    assert_eq!(cancel_crafting_item(&mut store, &defs(), &recipes, &mut queue, p, 1), Ok(()));
    let total = |d: u64| -> u32 {
        store.rows_vec().iter().filter(|i| i.item_def_id == d && i.player_identity == p).map(|i| i.quantity).sum()
    };
    assert_eq!(total(1), 100);
    assert_eq!(total(2), 150);
}

#[test]
fn clearing_queue_refunds_only_that_player() {
    let p = player(1);
    let q = player(2);
    let mut store = ItemStore::new();
    let mut queue = vec![
        CraftingQueueItem { queue_item_id: 1, player_identity: p, recipe_id: 2, output_item_def_id: 4, output_quantity: 1, start_time: 0, finish_time: 5 * SEC },
        CraftingQueueItem { queue_item_id: 2, player_identity: q, recipe_id: 2, output_item_def_id: 4, output_quantity: 1, start_time: 0, finish_time: 5 * SEC },
    ];
    let failed = clear_player_crafting_queue(&mut store, &defs(), &vec![hatchet_recipe()], &mut queue, p);
    assert!(failed.is_empty());
    assert_eq!(queue.len(), 1);
    assert_eq!(queue[0].player_identity, q);
    assert_eq!(store.rows_vec().len(), 2);
}

fn entry(id: u64, p: PlayerId, recipe_id: u64, finish: i64) -> CraftingQueueItem {
    CraftingQueueItem {
        queue_item_id: id,
        player_identity: p,
        recipe_id,
        output_item_def_id: 4,
        output_quantity: 1,
        start_time: 0,
        finish_time: finish,
    }
}

#[test]
fn recipe_totals_are_checked_per_kind() {
    let ok = vec![
        RecipeIngredient { item_def_id: 1, quantity: u32::MAX - 5 },
        RecipeIngredient { item_def_id: 2, quantity: 10 },
        RecipeIngredient { item_def_id: 1, quantity: 5 },
    ];
    assert!(recipe_totals_fit(&ok));
    let too_much = vec![
        RecipeIngredient { item_def_id: 1, quantity: u32::MAX - 5 },
        RecipeIngredient { item_def_id: 2, quantity: 10 },
        RecipeIngredient { item_def_id: 1, quantity: 6 },
    ];
    assert!(!recipe_totals_fit(&too_much));
}

#[test]
fn crafting_fits_checks_the_finish_time() {
    let p = player(1);
    let recipes = vec![hatchet_recipe()];
    assert!(crafting_fits(&recipes, &vec![], p, 2, 0));
    assert!(crafting_fits(&recipes, &vec![], p, 99, i64::MAX));
    assert!(crafting_fits(&recipes, &vec![], p, 2, i64::MAX - 20_000_000));
    assert!(!crafting_fits(&recipes, &vec![], p, 2, i64::MAX - 19_999_999));
    let queue = vec![entry(1, p, 2, i64::MAX - 10)];
    assert!(!crafting_fits(&recipes, &queue, p, 2, 0));
    assert!(crafting_fits(&recipes, &queue, player(2), 2, 0));
}

#[test]
fn refund_count_sums_the_players_recipes() {
    let p = player(1);
    let recipes = vec![hatchet_recipe()];
    let queue = vec![entry(1, p, 2, 5), entry(2, player(2), 2, 5), entry(3, p, 2, 9), entry(4, p, 77, 9)];
    assert_eq!(refund_count(&queue, &recipes, p), 4);
    assert_eq!(refund_count(&queue, &recipes, player(2)), 2);
    assert_eq!(refund_count(&queue, &recipes, player(3)), 0);
}
