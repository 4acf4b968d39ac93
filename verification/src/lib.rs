//! Game rules of a 2D multiplayer survival world: inventories, stacking,
//! equipment, containers (campfires, storage boxes), crafting, resources and
//! player state transitions. Every table the rules read or write is modelled
//! here as plain values; the hosting database only loads and stores rows.
pub mod types;
pub mod store;
pub mod slots;
pub mod errors;
pub mod stacking;
pub mod equipment;
pub mod player_inventory;
pub mod container;
pub mod container_ops;
pub mod time;
pub mod campfire;
pub mod storage_box;
pub mod item_actions;
pub mod player;
pub mod crafting;
pub mod world;
pub mod starting_items;
pub mod random;
pub mod buff;
pub mod character;
pub mod chat;
pub mod enemy;
pub mod refusals;
