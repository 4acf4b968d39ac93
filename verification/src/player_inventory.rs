use vstd::prelude::*;
use vstd::string::StringExecFns;
use crate::types::{
    PlayerId, InventoryItem, ItemDefinition, def_index, find_def, NUM_HOTBAR_SLOTS,
    NUM_INVENTORY_SLOTS,
};
use crate::store::{
    ItemStore, rows_wf, single_location, in_player_slots, has_id, idx, inv_slot_idx,
    hot_slot_idx, at_inventory, at_hotbar, first_free_hot, lemma_idx, slots_distinct,
    hot_slot_taken, inv_slot_taken,
    same_places, lemma_same_places, lemma_remove_keeps_distinct, lemma_push_keeps_distinct,
};
use crate::slots::{
    SlotKind, get_player_item, find_item_in_inventory_slot, find_item_in_hotbar_slot,
    find_first_empty_hotbar_slot,
};
use crate::stacking::{
    merge_result, calculate_merge_result, qty_of, lemma_qty_update, lemma_qty_push, lemma_qty_remove,
};
use crate::equipment::{ActiveEquipment, equipment_without, clear_specific_item_from_equipment_slots};
use crate::errors::GameError;

verus! {

/// Number of slots of a kind.
pub open spec fn slot_limit(kind: SlotKind) -> u32 {
    match kind {
        SlotKind::Inventory => NUM_INVENTORY_SLOTS as u32,
        SlotKind::Hotbar => NUM_HOTBAR_SLOTS as u32,
    }
}

/// The refusal for a slot index out of range.
pub open spec fn bad_slot(kind: SlotKind, slot: u32) -> GameError {
    match kind {
        SlotKind::Inventory => GameError::InvalidInventorySlot { slot },
        SlotKind::Hotbar => GameError::InvalidHotbarSlot { slot },
    }
}

/// The item, owned by `p`, placed in slot `slot` of the given kind.
pub open spec fn placed(item: InventoryItem, p: PlayerId, kind: SlotKind, slot: u32) -> InventoryItem {
    let owned = InventoryItem { player_identity: p, ..item };
    match kind {
        SlotKind::Inventory => at_inventory(owned, slot as u16),
        SlotKind::Hotbar => at_hotbar(owned, slot as u8),
    }
}

/// Index of the first item of `p` in the slot, or -1.
pub open spec fn slot_idx(rows: Seq<InventoryItem>, p: PlayerId, kind: SlotKind, slot: u32) -> int {
    match kind {
        SlotKind::Inventory => inv_slot_idx(rows, p, slot as u16),
        SlotKind::Hotbar => hot_slot_idx(rows, p, slot as u8),
    }
}

/// The player slot type a client names: "inventory" or "hotbar".
pub open spec fn slot_type_of(s: Seq<char>) -> Option<SlotKind> {
    if s == "inventory"@ {
        Some(SlotKind::Inventory)
    } else if s == "hotbar"@ {
        Some(SlotKind::Hotbar)
    } else {
        None
    }
}

/// Reads a player slot type name.
pub fn parse_slot_type(s: &String) -> (r: Option<SlotKind>)
    ensures
        r == slot_type_of(s@),
{
    let inv = String::from_str("inventory");
    let hot = String::from_str("hotbar");
    if *s == inv {
        Some(SlotKind::Inventory)
    } else if *s == hot {
        Some(SlotKind::Hotbar)
    } else {
        None
    }
}

/// What moving item `id` into a player slot of `p` leaves in the table and
/// in `p`'s equipment row. An empty slot receives the item; an occupied slot
/// first takes as much as its stack has room for, else trades places with the
/// item (a stack that is in no player slot is refused instead). An item that
/// came from no player slot is taken out of `p`'s equipment.
#[verifier::opaque]
pub open spec fn move_outcome(
    rows: Seq<InventoryItem>,
    defs: Seq<ItemDefinition>,
    equip: Option<ActiveEquipment>,
    p: PlayerId,
    id: u64,
    kind: SlotKind,
    slot: u32,
) -> (Seq<InventoryItem>, Option<ActiveEquipment>, Result<(), GameError>) {
    if !has_id(rows, id) {
        (rows, equip, Err(GameError::ItemNotFound { instance_id: id }))
    } else {
        let i = idx(rows, id);
        let item = rows[i];
        if def_index(defs, item.item_def_id) == -1 {
            (rows, equip, Err(GameError::DefinitionNotFound { def_id: item.item_def_id }))
        } else if slot >= slot_limit(kind) {
            (rows, equip, Err(bad_slot(kind, slot)))
        } else {
            let def = defs[def_index(defs, item.item_def_id)];
            let from_equipment = !in_player_slots(item);
            let equip2 = if from_equipment {
                equipment_without(equip, id)
            } else {
                equip
            };
            let j = slot_idx(rows, p, kind, slot);
            if j == -1 {
                (rows.update(i, placed(item, p, kind, slot)), equip2, Ok(()))
            } else if rows[j].instance_id == id {
                (rows.update(i, placed(item, p, kind, slot)), equip, Ok(()))
            } else {
                let target = rows[j];
                match merge_result(item, target, def) {
                    Ok((_, s, t, del)) => {
                        let r1 = rows.update(j, InventoryItem { quantity: t, ..target });
                        let r2 = if del {
                            r1.remove(i)
                        } else {
                            r1.update(i, InventoryItem { quantity: s, ..item })
                        };
                        (r2, equip2, Ok(()))
                    },
                    Err(_) => {
                        if from_equipment {
                            (rows, equip, Err(GameError::SplitOntoIncompatible { slot }))
                        } else {
                            let r1 = rows.update(
                                j,
                                InventoryItem {
                                    player_identity: p,
                                    hotbar_slot: item.hotbar_slot,
                                    inventory_slot: item.inventory_slot,
                                    ..target
                                },
                            );
                            (r1.update(i, placed(item, p, kind, slot)), equip2, Ok(()))
                        }
                    },
                }
            }
        }
    }
}

/// Moves item `id` into slot `slot` of the given kind for player `p`
/// (the shared rule behind moving to the main inventory and to the hotbar).
pub fn move_to_player_slot(
    store: &mut ItemStore,
    defs: &Vec<ItemDefinition>,
    equip: &mut Option<ActiveEquipment>,
    p: PlayerId,
    id: u64,
    kind: SlotKind,
    slot: u32,
) -> (r: Result<(), GameError>)
    requires
        old(store).wf(),
    ensures
        final(store).wf(),
        final(store).next_id() == old(store).next_id(),
        r is Err ==> final(store).rows() == old(store).rows() && *final(equip) == *old(equip),
        ({
            let (rows, eq, res) = move_outcome(
                old(store).rows(),
                defs@,
                *old(equip),
                p,
                id,
                kind,
                slot,
            );
            final(store).rows() == rows && *final(equip) == eq && r == res
        }),
{
    reveal(move_outcome);
    let ghost rows0 = store.rows();
    let i = match store.find_index(id) {
        Some(i) => i,
        None => {
            return Err(GameError::ItemNotFound { instance_id: id });
        },
    };
    let item = store.get(i);
    let di = match find_def(defs, item.item_def_id) {
        Some(di) => di,
        None => {
            return Err(GameError::DefinitionNotFound { def_id: item.item_def_id });
        },
    };
    let limit: u32 = match kind {
        SlotKind::Inventory => NUM_INVENTORY_SLOTS as u32,
        SlotKind::Hotbar => NUM_HOTBAR_SLOTS as u32,
    };
    if slot >= limit {
        return Err(
            match kind {
                SlotKind::Inventory => GameError::InvalidInventorySlot { slot },
                SlotKind::Hotbar => GameError::InvalidHotbarSlot { slot },
            },
        );
    }
    let from_equipment = item.inventory_slot.is_none() && item.hotbar_slot.is_none();
    let owned = InventoryItem { player_identity: p, ..item };
    let moved = match kind {
        SlotKind::Inventory => InventoryItem {
            hotbar_slot: None,
            inventory_slot: Some(slot as u16),
            ..owned
        },
        SlotKind::Hotbar => InventoryItem {
            hotbar_slot: Some(slot as u8),
            inventory_slot: None,
            ..owned
        },
    };
    let target_index = match kind {
        SlotKind::Inventory => find_item_in_inventory_slot(store, p, slot as u16),
        SlotKind::Hotbar => find_item_in_hotbar_slot(store, p, slot as u8),
    };
    proof {
        lemma_idx(rows0, store.next_id(), i as int);
    }
    match target_index {
        None => {
            store.set(i, moved);
        },
        Some(j) => {
            let target = store.get(j);
            if target.instance_id == id {
                store.set(i, moved);
                return Ok(());
            }
            match calculate_merge_result(&item, &target, &defs[di]) {
                Ok((_, s, t, del)) => {
                    proof {
                        assert(single_location(rows0[j as int]));
                        assert(single_location(rows0[i as int]));
                    }
                    store.set(j, InventoryItem { quantity: t, ..target });
                    if del {
                        store.remove(i);
                    } else {
                        store.set(i, InventoryItem { quantity: s, ..item });
                    }
                },
                Err(_) => {
                    if from_equipment {
                        return Err(GameError::SplitOntoIncompatible { slot });
                    }
                    proof {
                        assert(single_location(rows0[i as int]));
                    }
                    store.set(
                        j,
                        InventoryItem {
                            player_identity: p,
                            hotbar_slot: item.hotbar_slot,
                            inventory_slot: item.inventory_slot,
                            ..target
                        },
                    );
                    store.set(i, moved);
                },
            }
        },
    }
    if from_equipment {
        clear_specific_item_from_equipment_slots(equip, id);
    }
    Ok(())
}

/// Moves item `id` into main inventory slot `target_inventory_slot` of `p`:
/// place, merge onto the stack there, or trade places with it.
pub fn move_item_to_inventory(
    store: &mut ItemStore,
    defs: &Vec<ItemDefinition>,
    equip: &mut Option<ActiveEquipment>,
    p: PlayerId,
    item_instance_id: u64,
    target_inventory_slot: u16,
) -> (r: Result<(), GameError>)
    requires
        old(store).wf(),
    ensures
        final(store).wf(),
        final(store).next_id() == old(store).next_id(),
        r is Err ==> final(store).rows() == old(store).rows() && *final(equip) == *old(equip),
        ({
            let (rows, eq, res) = move_outcome(
                old(store).rows(),
                defs@,
                *old(equip),
                p,
                item_instance_id,
                SlotKind::Inventory,
                target_inventory_slot as u32,
            );
            final(store).rows() == rows && *final(equip) == eq && r == res
        }),
{
    move_to_player_slot(
        store,
        defs,
        equip,
        p,
        item_instance_id,
        SlotKind::Inventory,
        target_inventory_slot as u32,
    )
}

/// Moves item `id` into hotbar slot `target_hotbar_slot` of `p`:
/// place, merge onto the stack there, or trade places with it.
pub fn move_item_to_hotbar(
    store: &mut ItemStore,
    defs: &Vec<ItemDefinition>,
    equip: &mut Option<ActiveEquipment>,
    p: PlayerId,
    item_instance_id: u64,
    target_hotbar_slot: u8,
) -> (r: Result<(), GameError>)
    requires
        old(store).wf(),
    ensures
        final(store).wf(),
        final(store).next_id() == old(store).next_id(),
        r is Err ==> final(store).rows() == old(store).rows() && *final(equip) == *old(equip),
        ({
            let (rows, eq, res) = move_outcome(
                old(store).rows(),
                defs@,
                *old(equip),
                p,
                item_instance_id,
                SlotKind::Hotbar,
                target_hotbar_slot as u32,
            );
            final(store).rows() == rows && *final(equip) == eq && r == res
        }),
{
    move_to_player_slot(
        store,
        defs,
        equip,
        p,
        item_instance_id,
        SlotKind::Hotbar,
        target_hotbar_slot as u32,
    )
}

/// What splitting `q` items off `p`'s stack `id` into an empty player slot
/// leaves in the table.
pub open spec fn split_outcome(
    rows: Seq<InventoryItem>,
    next: u64,
    defs: Seq<ItemDefinition>,
    p: PlayerId,
    id: u64,
    q: u32,
    kind: Option<SlotKind>,
    slot: u32,
) -> (Seq<InventoryItem>, u64, Result<(), GameError>) {
    if !has_id(rows, id) || rows[idx(rows, id)].player_identity != p {
        (rows, next, Err(GameError::ItemNotFoundOrNotOwned { instance_id: id }))
    } else {
        let item = rows[idx(rows, id)];
        if def_index(defs, item.item_def_id) == -1 {
            (rows, next, Err(GameError::DefinitionNotFound { def_id: item.item_def_id }))
        } else if !defs[def_index(defs, item.item_def_id)].is_stackable {
            (rows, next, Err(GameError::NotStackable))
        } else if q == 0 {
            (rows, next, Err(GameError::ZeroQuantity))
        } else if q >= item.quantity {
            (
                rows,
                next,
                Err(GameError::QuantityExceedsStack { requested: q, available: item.quantity }),
            )
        } else {
            match kind {
                None => (rows, next, Err(GameError::InvalidSlotType)),
                Some(k) => if slot >= slot_limit(k) {
                    (rows, next, Err(bad_slot(k, slot)))
                } else if slot_idx(rows, p, k, slot) != -1 {
                    (rows, next, Err(GameError::TargetSlotOccupied { slot }))
                } else {
                    let new_item = placed(
                        InventoryItem { instance_id: next, quantity: q, ..item },
                        p,
                        k,
                        slot,
                    );
                    (
                        rows.update(
                            idx(rows, id),
                            InventoryItem { quantity: (item.quantity - q) as u32, ..item },
                        ).push(new_item),
                        (next + 1) as u64,
                        Ok(()),
                    )
                },
            }
        }
    }
}

/// Splits `quantity_to_split` items off the caller's stack into an empty
/// hotbar or main inventory slot, leaving at least one item behind.
/// The two stacks together hold what the one held before.
pub fn split_stack(
    store: &mut ItemStore,
    defs: &Vec<ItemDefinition>,
    p: PlayerId,
    source_item_instance_id: u64,
    quantity_to_split: u32,
    target_slot_type: &String,
    target_slot_index: u32,
) -> (r: Result<(), GameError>)
    requires
        old(store).wf(),
        old(store).next_id() < u64::MAX,
    ensures
        final(store).wf(),
        ({
            let (rows, next, res) = split_outcome(
                old(store).rows(),
                old(store).next_id(),
                defs@,
                p,
                source_item_instance_id,
                quantity_to_split,
                slot_type_of(target_slot_type@),
                target_slot_index,
            );
            final(store).rows() == rows && final(store).next_id() == next && r == res
        }),
{
    let i = match get_player_item(store, p, source_item_instance_id) {
        Some(i) => i,
        None => {
            return Err(GameError::ItemNotFoundOrNotOwned { instance_id: source_item_instance_id });
        },
    };
    let item = store.get(i);
    let di = match find_def(defs, item.item_def_id) {
        Some(di) => di,
        None => {
            return Err(GameError::DefinitionNotFound { def_id: item.item_def_id });
        },
    };
    if !defs[di].is_stackable {
        return Err(GameError::NotStackable);
    }
    if quantity_to_split == 0 {
        return Err(GameError::ZeroQuantity);
    }
    if quantity_to_split >= item.quantity {
        return Err(
            GameError::QuantityExceedsStack {
                requested: quantity_to_split,
                available: item.quantity,
            },
        );
    }
    let kind = match parse_slot_type(target_slot_type) {
        Some(k) => k,
        None => {
            return Err(GameError::InvalidSlotType);
        },
    };
    let limit: u32 = match kind {
        SlotKind::Inventory => NUM_INVENTORY_SLOTS as u32,
        SlotKind::Hotbar => NUM_HOTBAR_SLOTS as u32,
    };
    if target_slot_index >= limit {
        return Err(
            match kind {
                SlotKind::Inventory => GameError::InvalidInventorySlot { slot: target_slot_index },
                SlotKind::Hotbar => GameError::InvalidHotbarSlot { slot: target_slot_index },
            },
        );
    }
    let occupied = match kind {
        SlotKind::Inventory => find_item_in_inventory_slot(
            store,
            p,
            target_slot_index as u16,
        ).is_some(),
        SlotKind::Hotbar => find_item_in_hotbar_slot(store, p, target_slot_index as u8).is_some(),
    };
    if occupied {
        return Err(GameError::TargetSlotOccupied { slot: target_slot_index });
    }
    proof {
        assert(single_location(store.rows()[i as int]));
    }
    store.set(i, InventoryItem { quantity: item.quantity - quantity_to_split, ..item });
    let new_item = match kind {
        SlotKind::Inventory => InventoryItem {
            instance_id: 0,
            player_identity: p,
            quantity: quantity_to_split,
            hotbar_slot: None,
            inventory_slot: Some(target_slot_index as u16),
            ..item
        },
        SlotKind::Hotbar => InventoryItem {
            instance_id: 0,
            player_identity: p,
            quantity: quantity_to_split,
            hotbar_slot: Some(target_slot_index as u8),
            inventory_slot: None,
            ..item
        },
    };
    store.insert(new_item);
    Ok(())
}

/// Moves the caller's main inventory item into the lowest free hotbar slot.
pub fn move_to_first_available_hotbar_slot(
    store: &mut ItemStore,
    defs: &Vec<ItemDefinition>,
    equip: &mut Option<ActiveEquipment>,
    p: PlayerId,
    item_instance_id: u64,
) -> (r: Result<(), GameError>)
    requires
        old(store).wf(),
    ensures
        final(store).wf(),
        final(store).next_id() == old(store).next_id(),
        ({
            let rows0 = old(store).rows();
            let id = item_instance_id;
            if !has_id(rows0, id) || rows0[idx(rows0, id)].player_identity != p {
                r == Err::<(), GameError>(GameError::ItemNotFoundOrNotOwned { instance_id: id })
                    && final(store).rows() == rows0 && *final(equip) == *old(equip)
            } else if rows0[idx(rows0, id)].hotbar_slot is Some {
                r == Err::<(), GameError>(GameError::AlreadyInHotbar) && final(store).rows()
                    == rows0 && *final(equip) == *old(equip)
            } else if rows0[idx(rows0, id)].inventory_slot is None {
                r == Err::<(), GameError>(GameError::NotInInventory) && final(store).rows()
                    == rows0 && *final(equip) == *old(equip)
            } else {
                match first_free_hot(rows0, p) {
                    None => r == Err::<(), GameError>(GameError::HotbarFull) && final(store).rows()
                        == rows0 && *final(equip) == *old(equip),
                    Some(s) => {
                        let (rows, eq, res) = move_outcome(
                            rows0,
                            defs@,
                            *old(equip),
                            p,
                            id,
                            SlotKind::Hotbar,
                            s as u32,
                        );
                        final(store).rows() == rows && *final(equip) == eq && r == res
                    },
                }
            }
        }),
{
    let i = match get_player_item(store, p, item_instance_id) {
        Some(i) => i,
        None => {
            return Err(GameError::ItemNotFoundOrNotOwned { instance_id: item_instance_id });
        },
    };
    let item = store.get(i);
    if item.hotbar_slot.is_some() {
        return Err(GameError::AlreadyInHotbar);
    }
    if item.inventory_slot.is_none() {
        return Err(GameError::NotInInventory);
    }
    match find_first_empty_hotbar_slot(store, p) {
        Some(s) => move_item_to_hotbar(store, defs, equip, p, item_instance_id, s),
        None => Err(GameError::HotbarFull),
    }
}

/// Splitting a stack that sits in the hotbar or inventory into another
/// player slot keeps the player's holding of every kind.
pub proof fn law_split_keeps_holding(
    rows: Seq<InventoryItem>,
    next: u64,
    defs: Seq<ItemDefinition>,
    p: PlayerId,
    id: u64,
    q: u32,
    kind: Option<SlotKind>,
    slot: u32,
    d: u64,
)
    requires
        rows_wf(rows, next),
        split_outcome(rows, next, defs, p, id, q, kind, slot).2 is Ok,
        in_player_slots(rows[idx(rows, id)]),
    ensures
        qty_of(split_outcome(rows, next, defs, p, id, q, kind, slot).0, p, d) == qty_of(rows, p, d),
{
    assert(has_id(rows, id));
    let w = choose|w: int| 0 <= w < rows.len() && rows[w].instance_id == id;
    lemma_idx(rows, next, w);
    let i = idx(rows, id);
    let item = rows[i];
    let k = kind->0;
    let shrunk = InventoryItem { quantity: (item.quantity - q) as u32, ..item };
    let new_item = placed(InventoryItem { instance_id: next, quantity: q, ..item }, p, k, slot);
    lemma_qty_update(rows, i, shrunk, p, d);
    lemma_qty_push(rows.update(i, shrunk), new_item, p, d);
}


/// Whether row `k` of `p` sits in the given slot.
pub open spec fn in_slot(x: InventoryItem, p: PlayerId, kind: SlotKind, slot: u32) -> bool {
    x.player_identity == p && match kind {
        SlotKind::Inventory => x.inventory_slot == Some(slot as u16),
        SlotKind::Hotbar => x.hotbar_slot == Some(slot as u8),
    }
}

/// With distinct slots, the slot's index is its one occupant, or -1 when
/// nothing of `p` is there.
proof fn lemma_slot_idx(rows: Seq<InventoryItem>, p: PlayerId, kind: SlotKind, slot: u32)
    requires
        slots_distinct(rows),
    ensures
        slot_idx(rows, p, kind, slot) == -1 <==> !(exists|k: int|
            0 <= k < rows.len() && #[trigger] in_slot(rows[k], p, kind, slot)),
        slot_idx(rows, p, kind, slot) != -1 ==> 0 <= slot_idx(rows, p, kind, slot) < rows.len()
            && in_slot(rows[slot_idx(rows, p, kind, slot)], p, kind, slot),
{
    reveal(slots_distinct);
    if exists|k: int| 0 <= k < rows.len() && #[trigger] in_slot(rows[k], p, kind, slot) {
        let k = choose|k: int| 0 <= k < rows.len() && #[trigger] in_slot(rows[k], p, kind, slot);
        assert forall|j: int| 0 <= j < k implies !in_slot(rows[j], p, kind, slot) by {
            assert(rows[j] == rows[j] && rows[k] == rows[k]);
        }
        match kind {
            SlotKind::Inventory => {
                assert(forall|j: int|
                    0 <= j < k ==> !(rows[j].player_identity == p && rows[j].inventory_slot == Some(
                        slot as u16,
                    ))) by {
                    assert forall|j: int| 0 <= j < k implies !(rows[j].player_identity == p
                        && rows[j].inventory_slot == Some(slot as u16)) by {
                        assert(!in_slot(rows[j], p, kind, slot));
                    }
                }
            },
            SlotKind::Hotbar => {
                assert(forall|j: int|
                    0 <= j < k ==> !(rows[j].player_identity == p && rows[j].hotbar_slot == Some(
                        slot as u8,
                    ))) by {
                    assert forall|j: int| 0 <= j < k implies !(rows[j].player_identity == p
                        && rows[j].hotbar_slot == Some(slot as u8)) by {
                        assert(!in_slot(rows[j], p, kind, slot));
                    }
                }
            },
        }
    } else {
        match kind {
            SlotKind::Inventory => {
                assert forall|k: int| 0 <= k < rows.len() implies !(rows[k].player_identity == p
                    && rows[k].inventory_slot == Some(slot as u16)) by {
                    assert(!in_slot(rows[k], p, kind, slot));
                }
            },
            SlotKind::Hotbar => {
                assert forall|k: int| 0 <= k < rows.len() implies !(rows[k].player_identity == p
                    && rows[k].hotbar_slot == Some(slot as u8)) by {
                    assert(!in_slot(rows[k], p, kind, slot));
                }
            },
        }
    }
}

/// Moving an item of `p`, or an item in no player slot, into a slot of `p`
/// never leaves two of a player's items in one slot: an empty slot takes the
/// item, a merge only changes quantities, and a trade swaps the two items'
/// places.
pub proof fn law_move_keeps_slots_distinct(
    rows: Seq<InventoryItem>,
    next: u64,
    defs: Seq<ItemDefinition>,
    equip: Option<ActiveEquipment>,
    p: PlayerId,
    id: u64,
    kind: SlotKind,
    slot: u32,
)
    requires
        rows_wf(rows, next),
        slots_distinct(rows),
        has_id(rows, id) ==> rows[idx(rows, id)].player_identity == p || !in_player_slots(
            rows[idx(rows, id)],
        ),
    ensures
        slots_distinct(move_outcome(rows, defs, equip, p, id, kind, slot).0),
{
    reveal(slots_distinct);
    reveal(move_outcome);
    if has_id(rows, id) {
        let w = choose|w: int| 0 <= w < rows.len() && rows[w].instance_id == id;
        lemma_idx(rows, next, w);
        let i = idx(rows, id);
        let item = rows[i];
        if def_index(defs, item.item_def_id) != -1 && slot < slot_limit(kind) {
            let def = defs[def_index(defs, item.item_def_id)];
            lemma_slot_idx(rows, p, kind, slot);
            let j = slot_idx(rows, p, kind, slot);
            let moved = placed(item, p, kind, slot);
            if j == -1 || rows[j].instance_id == id {
                let r = rows.update(i, moved);
                assert forall|a: int, b: int|
                    #![trigger r[a], r[b]]
                    0 <= a < r.len() && 0 <= b < r.len() && a != b && r[a].player_identity
                        == r[b].player_identity implies !(r[a].hotbar_slot is Some
                    && r[a].hotbar_slot == r[b].hotbar_slot) && !(r[a].inventory_slot is Some
                    && r[a].inventory_slot == r[b].inventory_slot) by {
                    if a == i {
                        assert(r[b] == rows[b]);
                        assert(!in_slot(rows[b], p, kind, slot)) by {
                            if j != -1 {
                                lemma_idx(rows, next, j);
                                assert(rows[j] == rows[j] && rows[b] == rows[b]);
                            }
                        }
                    } else if b == i {
                        assert(r[a] == rows[a]);
                        assert(!in_slot(rows[a], p, kind, slot)) by {
                            if j != -1 {
                                lemma_idx(rows, next, j);
                                assert(rows[j] == rows[j] && rows[a] == rows[a]);
                            }
                        }
                    } else {
                        assert(r[a] == rows[a] && r[b] == rows[b]);
                    }
                }
            } else {
                let target = rows[j];
                match merge_result(item, target, def) {
                    Ok((_, sq, tq, del)) => {
                        let r1 = rows.update(j, InventoryItem { quantity: tq, ..target });
                        assert(same_places(rows, r1));
                        lemma_same_places(rows, r1);
                        if del {
                            lemma_remove_keeps_distinct(r1, i);
                        } else {
                            let r2 = r1.update(i, InventoryItem { quantity: sq, ..item });
                            assert(same_places(r1, r2));
                            lemma_same_places(r1, r2);
                        }
                    },
                    Err(_) => {
                        if in_player_slots(item) {
                            let r1 = rows.update(
                                j,
                                InventoryItem {
                                    player_identity: p,
                                    hotbar_slot: item.hotbar_slot,
                                    inventory_slot: item.inventory_slot,
                                    ..target
                                },
                            );
                            let r = r1.update(i, moved);
                            assert(single_location(target));
                            let sw = |k: int| if k == i { j } else if k == j { i } else { k };
                            assert forall|k: int| 0 <= k < r.len() implies (#[trigger] r[k]).player_identity
                                == rows[sw(k)].player_identity && r[k].hotbar_slot == rows[sw(k)].hotbar_slot
                                && r[k].inventory_slot == rows[sw(k)].inventory_slot by {}
                            assert forall|a: int, b: int|
                                #![trigger r[a], r[b]]
                                0 <= a < r.len() && 0 <= b < r.len() && a != b && r[a].player_identity
                                    == r[b].player_identity implies !(r[a].hotbar_slot is Some
                                && r[a].hotbar_slot == r[b].hotbar_slot) && !(r[a].inventory_slot is Some
                                && r[a].inventory_slot == r[b].inventory_slot) by {
                                assert(rows[sw(a)] == rows[sw(a)] && rows[sw(b)] == rows[sw(b)]);
                            }
                        }
                    },
                }
            }
        }
    }
}

/// Splitting a stack puts the new stack only into a slot its owner has free,
/// so no two of a player's items end up in one slot.
pub proof fn law_split_keeps_slots_distinct(
    rows: Seq<InventoryItem>,
    next: u64,
    defs: Seq<ItemDefinition>,
    p: PlayerId,
    id: u64,
    q: u32,
    kind: Option<SlotKind>,
    slot: u32,
)
    requires
        rows_wf(rows, next),
        slots_distinct(rows),
    ensures
        slots_distinct(split_outcome(rows, next, defs, p, id, q, kind, slot).0),
{
    let res = split_outcome(rows, next, defs, p, id, q, kind, slot);
    if res.2 is Ok {
        let w = choose|w: int| 0 <= w < rows.len() && rows[w].instance_id == id;
        lemma_idx(rows, next, w);
        let i = idx(rows, id);
        let item = rows[i];
        let k = kind->0;
        lemma_slot_idx(rows, p, k, slot);
        let shrunk = InventoryItem { quantity: (item.quantity - q) as u32, ..item };
        let r1 = rows.update(i, shrunk);
        assert(same_places(rows, r1));
        lemma_same_places(rows, r1);
        let new_item = placed(InventoryItem { instance_id: next, quantity: q, ..item }, p, k, slot);
        match k {
            SlotKind::Hotbar => {
                assert(!hot_slot_taken(r1, p, slot as u8)) by {
                    if hot_slot_taken(r1, p, slot as u8) {
                        let c = choose|c: int| 0 <= c < r1.len() && r1[c].player_identity == p
                            && r1[c].hotbar_slot == Some(slot as u8);
                        assert(in_slot(rows[c], p, k, slot));
                    }
                }
            },
            SlotKind::Inventory => {
                assert(!inv_slot_taken(r1, p, slot as u16)) by {
                    if inv_slot_taken(r1, p, slot as u16) {
                        let c = choose|c: int| 0 <= c < r1.len() && r1[c].player_identity == p
                            && r1[c].inventory_slot == Some(slot as u16);
                        assert(in_slot(rows[c], p, k, slot));
                    }
                }
            },
        }
        lemma_push_keeps_distinct(r1, new_item);
    }
}


/// Moving one of `p`'s items between `p`'s hotbar and inventory slots never
/// changes how much of any kind `p` holds: a merge moves items from one
/// stack to the other, a trade or a move only changes places.
pub proof fn law_move_keeps_holding(
    rows: Seq<InventoryItem>,
    next: u64,
    defs: Seq<ItemDefinition>,
    equip: Option<ActiveEquipment>,
    p: PlayerId,
    id: u64,
    kind: SlotKind,
    slot: u32,
    d: u64,
)
    requires
        rows_wf(rows, next),
        slots_distinct(rows),
        has_id(rows, id),
        rows[idx(rows, id)].player_identity == p,
        in_player_slots(rows[idx(rows, id)]),
    ensures
        qty_of(move_outcome(rows, defs, equip, p, id, kind, slot).0, p, d) == qty_of(rows, p, d),
{
    reveal(move_outcome);
    let w = choose|w: int| 0 <= w < rows.len() && rows[w].instance_id == id;
    lemma_idx(rows, next, w);
    let i = idx(rows, id);
    let item = rows[i];
    if def_index(defs, item.item_def_id) != -1 && slot < slot_limit(kind) {
        let def = defs[def_index(defs, item.item_def_id)];
        lemma_slot_idx(rows, p, kind, slot);
        let j = slot_idx(rows, p, kind, slot);
        let moved = placed(item, p, kind, slot);
        if j == -1 || rows[j].instance_id == id {
            lemma_qty_update(rows, i, moved, p, d);
        } else {
            let target = rows[j];
            match merge_result(item, target, def) {
                Ok((_, sq, tq, del)) => {
                    let r1 = rows.update(j, InventoryItem { quantity: tq, ..target });
                    lemma_qty_update(rows, j, InventoryItem { quantity: tq, ..target }, p, d);
                    if del {
                        lemma_qty_remove(r1, i, p, d);
                    } else {
                        lemma_qty_update(r1, i, InventoryItem { quantity: sq, ..item }, p, d);
                    }
                },
                Err(_) => {
                    let swapped = InventoryItem {
                        player_identity: p,
                        hotbar_slot: item.hotbar_slot,
                        inventory_slot: item.inventory_slot,
                        ..target
                    };
                    let r1 = rows.update(j, swapped);
                    lemma_qty_update(rows, j, swapped, p, d);
                    lemma_qty_update(r1, i, moved, p, d);
                },
            }
        }
    }
}

} // verus!
