//! A refused request changes nothing: for each request the rules answer
//! with an error, the item table, the equipment row and the containers are
//! left exactly as they were.
use vstd::prelude::*;
use crate::types::{PlayerId, InventoryItem, ItemDefinition};
use crate::slots::SlotKind;
use crate::equipment::{ActiveEquipment, equip_armor_from_inventory_outcome, equip_armor_outcome};
use crate::container::{ItemContainer, Campfire, WoodenStorageBox};
use crate::container_ops::{
    move_to_container_outcome, move_from_container_outcome, move_within_container_outcome,
    split_into_container_outcome, split_from_container_outcome, split_within_container_outcome,
    quick_move_from_container_outcome, quick_move_to_container_outcome,
};
use crate::player_inventory::{move_outcome, split_outcome};
use crate::item_actions::{armor_drag_outcome, drop_outcome};
use crate::crafting::{Recipe, CraftingQueueItem, cancel_outcome};
use crate::storage_box::pickup_outcome;
use crate::campfire::{SplitTarget, split_and_move_outcome};
use crate::world::{MushroomNode, pick_outcome};
use crate::errors::GameError;

verus! {

/// A refused move into a player slot changes nothing.
pub proof fn law_refused_move_changes_nothing(
    rows: Seq<InventoryItem>,
    defs: Seq<ItemDefinition>,
    equip: Option<ActiveEquipment>,
    p: PlayerId,
    id: u64,
    kind: SlotKind,
    slot: u32,
)
    ensures
        ({
            let (r, e, res) = move_outcome(rows, defs, equip, p, id, kind, slot);
            res is Err ==> r == rows && e == equip
        }),
{
    reveal(move_outcome);
}

/// A refused split within the player's slots changes nothing.
pub proof fn law_refused_split_changes_nothing(
    rows: Seq<InventoryItem>,
    next: u64,
    defs: Seq<ItemDefinition>,
    p: PlayerId,
    id: u64,
    q: u32,
    kind: Option<SlotKind>,
    slot: u32,
)
    ensures
        ({
            let (r, n, res) = split_outcome(rows, next, defs, p, id, q, kind, slot);
            res is Err ==> r == rows && n == next
        }),
{
    reveal(move_outcome);
}

/// A refused move into a container slot changes nothing.
pub proof fn law_refused_move_to_container_changes_nothing<C: ItemContainer>(
    rows: Seq<InventoryItem>,
    defs: Seq<ItemDefinition>,
    p: PlayerId,
    c: C,
    target: u8,
    id: u64,
)
    ensures
        ({
            let (r, c2, res) = move_to_container_outcome(rows, defs, p, c, target, id);
            res is Err ==> r == rows && c2 == c
        }),
{
    reveal(move_to_container_outcome);
}

/// A refused move out of a container slot changes nothing.
pub proof fn law_refused_move_from_container_changes_nothing<C: ItemContainer>(
    rows: Seq<InventoryItem>,
    defs: Seq<ItemDefinition>,
    equip: Option<ActiveEquipment>,
    p: PlayerId,
    c: C,
    src: u8,
    kind: Option<SlotKind>,
    slot: u32,
)
    ensures
        ({
            let (r, e, c2, res) = move_from_container_outcome(rows, defs, equip, p, c, src, kind, slot);
            res is Err ==> r == rows && e == equip && c2 == c
        }),
{
}

/// A refused move between two slots of a container changes nothing.
pub proof fn law_refused_move_within_container_changes_nothing<C: ItemContainer>(
    rows: Seq<InventoryItem>,
    defs: Seq<ItemDefinition>,
    c: C,
    src: u8,
    tgt: u8,
)
    ensures
        ({
            let (r, c2, res) = move_within_container_outcome(rows, defs, c, src, tgt);
            res is Err ==> r == rows && c2 == c
        }),
{
}

/// A refused split into a container changes nothing.
pub proof fn law_refused_split_into_container_changes_nothing<C: ItemContainer>(
    rows: Seq<InventoryItem>,
    next: u64,
    defs: Seq<ItemDefinition>,
    c: C,
    tgt: u8,
    i: int,
    q: u32,
)
    ensures
        ({
            let (r, n, c2, res) = split_into_container_outcome(rows, next, defs, c, tgt, i, q);
            res is Err ==> r == rows && n == next && c2 == c
        }),
{
    reveal(split_into_container_outcome);
}

/// A refused split out of a container changes nothing.
pub proof fn law_refused_split_from_container_changes_nothing<C: ItemContainer>(
    rows: Seq<InventoryItem>,
    next: u64,
    defs: Seq<ItemDefinition>,
    equip: Option<ActiveEquipment>,
    p: PlayerId,
    c: C,
    src: u8,
    q: u32,
    kind: Option<SlotKind>,
    slot: u32,
)
    ensures
        ({
            let (r, n, e, res) = split_from_container_outcome(
                rows,
                next,
                defs,
                equip,
                p,
                c,
                src,
                q,
                kind,
                slot,
            );
            res is Err ==> r == rows && n == next && e == equip
        }),
{
}

/// A refused split between two slots of a container changes nothing.
pub proof fn law_refused_split_within_container_changes_nothing<C: ItemContainer>(
    rows: Seq<InventoryItem>,
    next: u64,
    defs: Seq<ItemDefinition>,
    c: C,
    src: u8,
    tgt: u8,
    q: u32,
)
    ensures
        ({
            let (r, n, c2, res) = split_within_container_outcome(rows, next, defs, c, src, tgt, q);
            res is Err ==> r == rows && n == next && c2 == c
        }),
{
    reveal(split_into_container_outcome);
}

/// A refused quick move out of a container changes nothing.
pub proof fn law_refused_quick_move_from_container_changes_nothing<C: ItemContainer>(
    rows: Seq<InventoryItem>,
    next: u64,
    defs: Seq<ItemDefinition>,
    p: PlayerId,
    c: C,
    src: u8,
)
    ensures
        ({
            let (r, n, c2, res) = quick_move_from_container_outcome(rows, next, defs, p, c, src);
            res is Err ==> r == rows && n == next && c2 == c
        }),
{
}

/// A refused quick move into a container changes nothing.
pub proof fn law_refused_quick_move_to_container_changes_nothing<C: ItemContainer>(
    rows: Seq<InventoryItem>,
    defs: Seq<ItemDefinition>,
    p: PlayerId,
    c: C,
    id: u64,
)
    ensures
        ({
            let (r, c2, res) = quick_move_to_container_outcome(rows, defs, p, c, id);
            res is Err ==> r == rows && c2 == c
        }),
{
}

/// A refused equip of armor from the hotbar or inventory changes nothing.
pub proof fn law_refused_equip_armor_from_inventory_changes_nothing(
    rows: Seq<InventoryItem>,
    defs: Seq<ItemDefinition>,
    equip: Option<ActiveEquipment>,
    p: PlayerId,
    id: u64,
)
    ensures
        ({
            let (r, e, res) = equip_armor_from_inventory_outcome(rows, defs, equip, p, id);
            res is Err ==> r == rows && e == equip
        }),
{
}

/// A refused armor equip changes nothing.
pub proof fn law_refused_equip_armor_changes_nothing(
    rows: Seq<InventoryItem>,
    defs: Seq<ItemDefinition>,
    equip: Option<ActiveEquipment>,
    p: PlayerId,
    id: u64,
)
    ensures
        ({
            let (r, e, res) = equip_armor_outcome(rows, defs, equip, p, id);
            res is Err ==> r == rows && e == equip
        }),
{
}

/// A refused armor drag changes nothing.
pub proof fn law_refused_armor_drag_changes_nothing(
    rows: Seq<InventoryItem>,
    defs: Seq<ItemDefinition>,
    equip: Option<ActiveEquipment>,
    bs: Seq<WoodenStorageBox>,
    cs: Seq<Campfire>,
    p: PlayerId,
    id: u64,
    name: Seq<char>,
)
    ensures
        ({
            let (r, e, b2, c2, res) = armor_drag_outcome(rows, defs, equip, bs, cs, p, id, name);
            res is Err ==> r == rows && e == equip && b2 == bs && c2 == cs
        }),
{
}

/// A refused drop changes nothing.
pub proof fn law_refused_drop_changes_nothing(
    rows: Seq<InventoryItem>,
    defs: Seq<ItemDefinition>,
    equip: Option<ActiveEquipment>,
    bs: Seq<WoodenStorageBox>,
    cs: Seq<Campfire>,
    p: PlayerId,
    id: u64,
    q: u32,
)
    ensures
        ({
            let (r, e, b2, c2, res) = drop_outcome(rows, defs, equip, bs, cs, p, id, q);
            res is Err ==> r == rows && e == equip && b2 == bs && c2 == cs
        }),
{
}

/// A refused cancel changes nothing, not even the queue.
pub proof fn law_refused_cancel_changes_nothing(
    rows: Seq<InventoryItem>,
    next: u64,
    defs: Seq<ItemDefinition>,
    recipes: Seq<Recipe>,
    queue: Seq<CraftingQueueItem>,
    p: PlayerId,
    id: u64,
)
    ensures
        ({
            let (r, n, q2, res) = cancel_outcome(rows, next, defs, recipes, queue, p, id);
            res is Err ==> r == rows && n == next && q2 == queue
        }),
{
}

/// A refused box pickup changes nothing.
pub proof fn law_refused_pickup_changes_nothing(
    rows: Seq<InventoryItem>,
    next: u64,
    defs: Seq<ItemDefinition>,
    p: PlayerId,
    b: WoodenStorageBox,
)
    ensures
        ({
            let (r, n, res) = pickup_outcome(rows, next, defs, p, b);
            res is Err ==> r == rows && n == next
        }),
{
}

/// A refused mushroom pick changes nothing.
pub proof fn law_refused_pick_changes_nothing(
    rows: Seq<InventoryItem>,
    next: u64,
    defs: Seq<ItemDefinition>,
    p: PlayerId,
    m: MushroomNode,
    now: i64,
)
    ensures
        ({
            let (r, n, m2, res) = pick_outcome(rows, next, defs, p, m, now);
            res is Err ==> r == rows && n == next && m2 == m
        }),
{
}

/// A refused split out of a campfire changes nothing.
pub proof fn law_refused_campfire_split_changes_nothing(
    rows: Seq<InventoryItem>,
    next: u64,
    defs: Seq<ItemDefinition>,
    equip: Option<ActiveEquipment>,
    p: PlayerId,
    c: Campfire,
    reach: Result<(), GameError>,
    src: u8,
    q: u32,
    target: Option<SplitTarget>,
    idx_: u32,
    now: i64,
)
    ensures
        ({
            let (r, n, e, c2, res) = split_and_move_outcome(
                rows,
                next,
                defs,
                equip,
                p,
                c,
                reach,
                src,
                q,
                target,
                idx_,
                now,
            );
            res is Err ==> r == rows && n == next && e == equip && c2 == c
        }),
{
}

} // verus!
