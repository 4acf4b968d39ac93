use vstd::prelude::*;

verus! {

/// A player's identity: the 256-bit identity, as four 64-bit words
/// (most significant word first).
#[derive(Clone, Copy, Debug, PartialEq, Eq, Structural)]
pub struct PlayerId {
    pub w0: u64,
    pub w1: u64,
    pub w2: u64,
    pub w3: u64,
}

/// A tile position on the world grid.
#[derive(Clone, Copy, Debug, PartialEq, Eq, Structural)]
pub struct Position {
    pub x: i32,
    pub y: i32,
}

/// Broad category of an item.
#[derive(Clone, Copy, Debug, PartialEq, Eq, Structural)]
pub enum ItemCategory {
    Tool,
    Material,
    Placeable,
    Armor,
    Consumable,
}

/// Body slot an armor piece is worn in.
#[derive(Clone, Copy, Debug, PartialEq, Eq, Structural)]
pub enum EquipmentSlot {
    Head,
    Chest,
    Legs,
    Feet,
    Hands,
    Back,
}

/// A row of the item definition table.
#[derive(Clone, Debug)]
pub struct ItemDefinition {
    pub id: u64,
    pub name: String,
    pub description: String,
    pub category: ItemCategory,
    pub icon_asset_name: String,
    pub damage: Option<u32>,
    pub is_stackable: bool,
    pub stack_size: u32,
    pub is_equippable: bool,
    pub equipment_slot: Option<EquipmentSlot>,
}

/// A row of the inventory item table: one stack of items owned by a player.
/// An item sits in at most one of the hotbar or the main inventory; with
/// neither it is equipped, in a container, or not yet placed.
#[derive(Clone, Copy, Debug, PartialEq, Eq, Structural)]
pub struct InventoryItem {
    pub instance_id: u64,
    pub player_identity: PlayerId,
    pub item_def_id: u64,
    pub quantity: u32,
    pub hotbar_slot: Option<u8>,
    pub inventory_slot: Option<u16>,
}

/// Number of hotbar slots (0 to 5).
pub const NUM_HOTBAR_SLOTS: u8 = 6;

/// Number of main inventory slots (0 to 23).
pub const NUM_INVENTORY_SLOTS: u16 = 24;

/// Index of the first definition with the given id, or -1.
pub open spec fn def_index(defs: Seq<ItemDefinition>, id: u64) -> int {
    if exists|i: int| 0 <= i < defs.len() && defs[i].id == id {
        choose|i: int|
            0 <= i < defs.len() && defs[i].id == id && forall|j: int|
                0 <= j < i ==> defs[j].id != id
    } else {
        -1
    }
}

/// Looks up the first definition with the given id.
pub fn find_def(defs: &Vec<ItemDefinition>, id: u64) -> (r: Option<usize>)
    ensures
        match r {
            Some(i) => i == def_index(defs@, id) && i < defs.len(),
            None => def_index(defs@, id) == -1,
        },
{
    let mut i: usize = 0;
    while i < defs.len()
        invariant
            i <= defs.len(),
            forall|j: int| 0 <= j < i ==> defs@[j].id != id,
        decreases defs.len() - i,
    {
        if defs[i].id == id {
            assert(exists|k: int| 0 <= k < defs.len() && defs@[k].id == id);
            let ghost c = def_index(defs@, id);
            assert(c == i as int) by {
                if c < i {
                } else if c > i {
                }
            }
            return Some(i);
        }
        i = i + 1;
    }
    None
}

/// Index of the first definition with the given name, or -1.
#[verifier::opaque]
pub open spec fn def_index_by_name(defs: Seq<ItemDefinition>, name: Seq<char>) -> int {
    if exists|i: int| 0 <= i < defs.len() && defs[i].name@ == name {
        choose|i: int|
            0 <= i < defs.len() && defs[i].name@ == name && forall|j: int|
                0 <= j < i ==> defs[j].name@ != name
    } else {
        -1
    }
}

/// Looks up the first definition with the given name.
pub fn find_def_by_name(defs: &Vec<ItemDefinition>, name: &String) -> (r: Option<usize>)
    ensures
        match r {
            Some(i) => i == def_index_by_name(defs@, name@) && i < defs.len(),
            None => def_index_by_name(defs@, name@) == -1,
        },
{
    reveal(def_index_by_name);
    let mut i: usize = 0;
    while i < defs.len()
        invariant
            i <= defs.len(),
            forall|j: int| 0 <= j < i ==> defs@[j].name@ != name@,
        decreases defs.len() - i,
    {
        if defs[i].name == *name {
            reveal(def_index_by_name);
            assert(exists|k: int| 0 <= k < defs.len() && defs@[k].name@ == name@);
            let ghost c = def_index_by_name(defs@, name@);
            assert(c == i as int) by {
                if c < i {
                } else if c > i {
                }
            }
            return Some(i);
        }
        i = i + 1;
    }
    None
}

} // verus!
