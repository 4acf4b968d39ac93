use vstd::prelude::*;
use crate::types::{
    PlayerId, EquipmentSlot, InventoryItem, ItemDefinition, ItemCategory, def_index, find_def,
};
use crate::store::{
    ItemStore, rows_wf, in_player_slots, has_id, idx, at_inventory, unslotted, first_free_inv,
    lemma_idx, slots_distinct, same_places, lemma_same_places, lemma_remove_keeps_distinct,
    lemma_unslot_keeps_distinct, lemma_place_free_keeps_distinct, lemma_first_free_is_free,
    lemma_idx_in_range,
};
use crate::slots::{get_player_item, find_first_empty_inventory_slot};
use crate::equipment::{
    ActiveEquipment, worn, with_worn, hand_cleared, equipment_without, holds_item,
    clear_specific_item_from_equipment_slots, equipment_slot_named, parse_equipment_slot,
};
use crate::container::{Campfire, WoodenStorageBox};
use crate::campfire::clear_from_campfires_outcome;
use crate::storage_box::{boxes_without, some_box_holds, clear_item_from_any_container};
use crate::errors::GameError;

verus! {

/// Checks a drag of item `id` onto the body slot named `name`: the body slot
/// and the caller's equipment row.
pub open spec fn armor_drag_check(
    rows: Seq<InventoryItem>,
    defs: Seq<ItemDefinition>,
    equip: Option<ActiveEquipment>,
    p: PlayerId,
    id: u64,
    name: Seq<char>,
) -> Result<(EquipmentSlot, ActiveEquipment), GameError> {
    if !has_id(rows, id) {
        Err(GameError::ItemNotFound { instance_id: id })
    } else {
        let item = rows[idx(rows, id)];
        let d = def_index(defs, item.item_def_id);
        if d == -1 {
            Err(GameError::DefinitionNotFound { def_id: item.item_def_id })
        } else if in_player_slots(item) && item.player_identity != p {
            Err(GameError::ItemNotOwned { instance_id: id })
        } else if defs[d].category != ItemCategory::Armor {
            Err(GameError::NotArmor)
        } else {
            match defs[d].equipment_slot {
                None => Err(GameError::NoEquipmentSlot),
                Some(required) => match equipment_slot_named(name) {
                    None => Err(GameError::InvalidEquipmentSlotName),
                    Some(target) => if required != target {
                        Err(GameError::WrongEquipmentSlot { required, target })
                    } else {
                        match equip {
                            None => Err(GameError::EquipmentNotFound),
                            Some(e) => Ok((target, e)),
                        }
                    },
                },
            }
        }
    }
}

/// The rows with the caller's item `cur` moved into main inventory slot
/// `free`; rows without such an item are left as they are.
pub open spec fn stowed(rows: Seq<InventoryItem>, p: PlayerId, cur: u64, free: u16) -> Seq<
    InventoryItem,
> {
    if has_id(rows, cur) && rows[idx(rows, cur)].player_identity == p {
        rows.update(idx(rows, cur), at_inventory(rows[idx(rows, cur)], free))
    } else {
        rows
    }
}

/// What dragging armor item `id` onto a body slot leaves: the piece worn
/// there goes to the first free main inventory slot (refused when there is
/// none), the new piece is worn, and it leaves the place it came from: the
/// hotbar or inventory, or else whatever container held it, the caller
/// becoming its owner.
pub open spec fn armor_drag_outcome(
    rows: Seq<InventoryItem>,
    defs: Seq<ItemDefinition>,
    equip: Option<ActiveEquipment>,
    bs: Seq<WoodenStorageBox>,
    cs: Seq<Campfire>,
    p: PlayerId,
    id: u64,
    name: Seq<char>,
) -> (
    Seq<InventoryItem>,
    Option<ActiveEquipment>,
    Seq<WoodenStorageBox>,
    Seq<Campfire>,
    Result<(), GameError>,
) {
    match armor_drag_check(rows, defs, equip, p, id, name) {
        Err(err) => (rows, equip, bs, cs, Err(err)),
        Ok((s, e)) => if worn(e, s) == Some(id) {
            (rows, equip, bs, cs, Ok(()))
        } else {
            let stow: Option<Seq<InventoryItem>> = match worn(e, s) {
                Some(cur) => match first_free_inv(rows, p) {
                    Some(free) => Some(stowed(rows, p, cur, free)),
                    None => None,
                },
                None => Some(rows),
            };
            match stow {
                None => (rows, equip, bs, cs, Err(GameError::InventoryFull)),
                Some(r1) => {
                    let item = rows[idx(rows, id)];
                    let eq2 = Some(with_worn(e, s, Some(id)));
                    if in_player_slots(item) {
                        (r1.update(idx(rows, id), unslotted(item)), eq2, bs, cs, Ok(()))
                    } else {
                        let cs2 = if some_box_holds(bs, id) {
                            cs
                        } else {
                            clear_from_campfires_outcome(r1, defs, cs, id).0
                        };
                        (
                            r1.update(
                                idx(rows, id),
                                unslotted(InventoryItem { player_identity: p, ..item }),
                            ),
                            eq2,
                            boxes_without(bs, id),
                            cs2,
                            Ok(()),
                        )
                    }
                },
            }
        },
    }
}

/// Wears armor item `id` dragged onto the body slot named
/// `target_slot_name`, from the caller's hotbar or inventory or from a
/// container.
pub fn equip_armor_from_drag(
    store: &mut ItemStore,
    defs: &Vec<ItemDefinition>,
    equip: &mut Option<ActiveEquipment>,
    boxes: &mut Vec<WoodenStorageBox>,
    campfires: &mut Vec<Campfire>,
    p: PlayerId,
    item_instance_id: u64,
    target_slot_name: &String,
) -> (r: Result<(), GameError>)
    requires
        old(store).wf(),
    ensures
        final(store).wf(),
        final(store).next_id() == old(store).next_id(),
        ({
            let (rows, eq, bs, cs, res) = armor_drag_outcome(
                old(store).rows(),
                defs@,
                *old(equip),
                old(boxes)@,
                old(campfires)@,
                p,
                item_instance_id,
                target_slot_name@,
            );
            final(store).rows() == rows && *final(equip) == eq && final(boxes)@ == bs
                && final(campfires)@ == cs && r == res
        }),
{
    let ghost rows0 = store.rows();
    let ghost out = armor_drag_outcome(
        rows0,
        defs@,
        *equip,
        boxes@,
        campfires@,
        p,
        item_instance_id,
        target_slot_name@,
    );
    let i = match store.find_index(item_instance_id) {
        Some(i) => i,
        None => {
            return Err(GameError::ItemNotFound { instance_id: item_instance_id });
        },
    };
    let item = store.get(i);
    let di = match find_def(defs, item.item_def_id) {
        Some(di) => di,
        None => {
            return Err(GameError::DefinitionNotFound { def_id: item.item_def_id });
        },
    };
    let from_player_slots = item.inventory_slot.is_some() || item.hotbar_slot.is_some();
    if from_player_slots && item.player_identity != p {
        return Err(GameError::ItemNotOwned { instance_id: item_instance_id });
    }
    if defs[di].category != ItemCategory::Armor {
        return Err(GameError::NotArmor);
    }
    let required = match defs[di].equipment_slot {
        Some(s) => s,
        None => {
            return Err(GameError::NoEquipmentSlot);
        },
    };
    let target = match parse_equipment_slot(target_slot_name) {
        Some(s) => s,
        None => {
            return Err(GameError::InvalidEquipmentSlotName);
        },
    };
    if required != target {
        return Err(GameError::WrongEquipmentSlot { required, target });
    }
    let mut e = match *equip {
        Some(e) => e,
        None => {
            return Err(GameError::EquipmentNotFound);
        },
    };
    assert(armor_drag_check(rows0, defs@, *equip, p, item_instance_id, target_slot_name@) == Ok::<
        (EquipmentSlot, ActiveEquipment),
        GameError,
    >((target, e)));
    if let Some(cur) = e.worn_in(target) {
        if cur == item_instance_id {
            assert(out == (rows0, *equip, boxes@, campfires@, Ok::<(), GameError>(())));
            return Ok(());
        }
        match find_first_empty_inventory_slot(store, p) {
            Some(free) => {
                if let Some(k) = get_player_item(store, p, cur) {
                    let cur_item = store.get(k);
                    store.set(
                        k,
                        InventoryItem { hotbar_slot: None, inventory_slot: Some(free), ..cur_item },
                    );
                }
                assert(store.rows() == stowed(rows0, p, cur, free));
            },
            None => {
                return Err(GameError::InventoryFull);
            },
        }
    }
    let ghost r1 = store.rows();
    assert(r1[i as int] == item);
    e.set_worn(target, Some(item_instance_id));
    *equip = Some(e);
    if from_player_slots {
        store.set(i, InventoryItem { hotbar_slot: None, inventory_slot: None, ..item });
    } else {
        let _found = clear_item_from_any_container(store, defs, boxes, campfires, item_instance_id);
        store.set(
            i,
            InventoryItem { player_identity: p, hotbar_slot: None, inventory_slot: None, ..item },
        );
    }
    Ok(())
}

/// What clearing the place item `id` was taken from leaves: an item in no
/// hotbar or inventory slot is taken out of the caller's equipment and out of
/// whatever container held it (boxes first, campfires only when no box held it).
pub open spec fn clear_source_outcome(
    rows: Seq<InventoryItem>,
    defs: Seq<ItemDefinition>,
    equip: Option<ActiveEquipment>,
    bs: Seq<WoodenStorageBox>,
    cs: Seq<Campfire>,
    id: u64,
) -> (Option<ActiveEquipment>, Seq<WoodenStorageBox>, Seq<Campfire>) {
    if !has_id(rows, id) || in_player_slots(rows[idx(rows, id)]) {
        (equip, bs, cs)
    } else {
        (
            equipment_without(equip, id),
            boxes_without(bs, id),
            if some_box_holds(bs, id) {
                cs
            } else {
                clear_from_campfires_outcome(rows, defs, cs, id).0
            },
        )
    }
}

/// Takes item `id` out of the caller's equipment and the containers when it
/// is in no hotbar or inventory slot; an unknown item needs no clearing.
pub fn clear_item_from_source_location(
    store: &ItemStore,
    defs: &Vec<ItemDefinition>,
    equip: &mut Option<ActiveEquipment>,
    boxes: &mut Vec<WoodenStorageBox>,
    campfires: &mut Vec<Campfire>,
    item_instance_id: u64,
)
    requires
        store.wf(),
    ensures
        (*final(equip), final(boxes)@, final(campfires)@) == clear_source_outcome(
            store.rows(),
            defs@,
            *old(equip),
            old(boxes)@,
            old(campfires)@,
            item_instance_id,
        ),
{
    let i = match store.find_index(item_instance_id) {
        Some(i) => i,
        None => {
            return;
        },
    };
    let item = store.get(i);
    if item.inventory_slot.is_none() && item.hotbar_slot.is_none() {
        clear_specific_item_from_equipment_slots(equip, item_instance_id);
        let _found = clear_item_from_any_container(store, defs, boxes, campfires, item_instance_id);
    }
}

/// Checks a drop of `q` items of stack `id`: the definition index.
pub open spec fn drop_check(
    rows: Seq<InventoryItem>,
    defs: Seq<ItemDefinition>,
    p: PlayerId,
    id: u64,
    q: u32,
) -> Result<int, GameError> {
    if !has_id(rows, id) {
        Err(GameError::ItemNotFound { instance_id: id })
    } else {
        let item = rows[idx(rows, id)];
        let d = def_index(defs, item.item_def_id);
        if in_player_slots(item) && item.player_identity != p {
            Err(GameError::ItemNotOwned { instance_id: id })
        } else if q == 0 {
            Err(GameError::ZeroQuantity)
        } else if q > item.quantity {
            Err(GameError::QuantityExceedsStack { requested: q, available: item.quantity })
        } else if d == -1 {
            Err(GameError::DefinitionNotFound { def_id: item.item_def_id })
        } else if q < item.quantity && !defs[d].is_stackable {
            Err(GameError::NotStackable)
        } else {
            Ok(d)
        }
    }
}

/// What dropping `q` items of stack `id` leaves: the item leaves its source
/// (equipment, container), the caller's main hand is emptied if it held the
/// item, and the stack is deleted (all of it dropped) or shrinks by `q`, an
/// item from no hotbar or inventory slot passing to the caller. On success
/// the definition id of the dropped items is returned, for the world entity.
pub open spec fn drop_outcome(
    rows: Seq<InventoryItem>,
    defs: Seq<ItemDefinition>,
    equip: Option<ActiveEquipment>,
    bs: Seq<WoodenStorageBox>,
    cs: Seq<Campfire>,
    p: PlayerId,
    id: u64,
    q: u32,
) -> (
    Seq<InventoryItem>,
    Option<ActiveEquipment>,
    Seq<WoodenStorageBox>,
    Seq<Campfire>,
    Result<u64, GameError>,
) {
    match drop_check(rows, defs, p, id, q) {
        Err(e) => (rows, equip, bs, cs, Err(e)),
        Ok(d) => {
            let (eq1, bs1, cs1) = clear_source_outcome(rows, defs, equip, bs, cs, id);
            let eq2 = match eq1 {
                Some(e) => if e.equipped_item_instance_id == Some(id) {
                    Some(hand_cleared(e))
                } else {
                    eq1
                },
                None => eq1,
            };
            let i = idx(rows, id);
            let item = rows[i];
            let rows2 = if q == item.quantity {
                rows.remove(i)
            } else {
                rows.update(
                    i,
                    InventoryItem {
                        quantity: (item.quantity - q) as u32,
                        player_identity: if in_player_slots(item) {
                            item.player_identity
                        } else {
                            p
                        },
                        ..item
                    },
                )
            };
            (rows2, eq2, bs1, cs1, Ok(defs[d].id))
        },
    }
}

/// Drops `quantity_to_drop` items of stack `item_instance_id` into the world;
/// returns the definition id of the dropped items.
pub fn drop_item(
    store: &mut ItemStore,
    defs: &Vec<ItemDefinition>,
    equip: &mut Option<ActiveEquipment>,
    boxes: &mut Vec<WoodenStorageBox>,
    campfires: &mut Vec<Campfire>,
    p: PlayerId,
    item_instance_id: u64,
    quantity_to_drop: u32,
) -> (r: Result<u64, GameError>)
    requires
        old(store).wf(),
    ensures
        final(store).wf(),
        final(store).next_id() == old(store).next_id(),
        ({
            let (rows, eq, bs, cs, res) = drop_outcome(
                old(store).rows(),
                defs@,
                *old(equip),
                old(boxes)@,
                old(campfires)@,
                p,
                item_instance_id,
                quantity_to_drop,
            );
            final(store).rows() == rows && *final(equip) == eq && final(boxes)@ == bs
                && final(campfires)@ == cs && r == res
        }),
{
    let i = match store.find_index(item_instance_id) {
        Some(i) => i,
        None => {
            return Err(GameError::ItemNotFound { instance_id: item_instance_id });
        },
    };
    let item = store.get(i);
    let from_player_slots = item.inventory_slot.is_some() || item.hotbar_slot.is_some();
    if from_player_slots && item.player_identity != p {
        return Err(GameError::ItemNotOwned { instance_id: item_instance_id });
    }
    if quantity_to_drop == 0 {
        return Err(GameError::ZeroQuantity);
    }
    if quantity_to_drop > item.quantity {
        return Err(
            GameError::QuantityExceedsStack {
                requested: quantity_to_drop,
                available: item.quantity,
            },
        );
    }
    let di = match find_def(defs, item.item_def_id) {
        Some(di) => di,
        None => {
            return Err(GameError::DefinitionNotFound { def_id: item.item_def_id });
        },
    };
    if quantity_to_drop < item.quantity && !defs[di].is_stackable {
        return Err(GameError::NotStackable);
    }
    clear_item_from_source_location(store, defs, equip, boxes, campfires, item_instance_id);
    if let Some(e) = equip {
        if e.equipped_item_instance_id == Some(item_instance_id) {
            e.clear_hand();
        }
    }
    if quantity_to_drop == item.quantity {
        store.remove(i);
    } else {
        let owner = if from_player_slots {
            item.player_identity
        } else {
            p
        };
        store.set(
            i,
            InventoryItem {
                quantity: item.quantity - quantity_to_drop,
                player_identity: owner,
                ..item
            },
        );
    }
    Ok(defs[di].id)
}

/// Dropping a whole stack deletes it: no row keeps its id.
pub proof fn law_drop_all_deletes_item(
    rows: Seq<InventoryItem>,
    next: u64,
    defs: Seq<ItemDefinition>,
    equip: Option<ActiveEquipment>,
    bs: Seq<WoodenStorageBox>,
    cs: Seq<Campfire>,
    p: PlayerId,
    id: u64,
)
    requires
        rows_wf(rows, next),
        has_id(rows, id),
        drop_outcome(rows, defs, equip, bs, cs, p, id, rows[idx(rows, id)].quantity).4 is Ok,
    ensures
        !has_id(drop_outcome(rows, defs, equip, bs, cs, p, id, rows[idx(rows, id)].quantity).0, id),
{
    let w = choose|w: int| 0 <= w < rows.len() && rows[w].instance_id == id;
    lemma_idx(rows, next, w);
    let r2 = rows.remove(w);
    if has_id(r2, id) {
        let j = choose|j: int| 0 <= j < r2.len() && r2[j].instance_id == id;
        let j0 = if j < w {
            j
        } else {
            j + 1
        };
        assert(rows[j0].instance_id == id);
    }
}

/// A dragged armor piece that is accepted ends up worn.
pub proof fn law_dragged_armor_is_worn(
    rows: Seq<InventoryItem>,
    defs: Seq<ItemDefinition>,
    equip: Option<ActiveEquipment>,
    bs: Seq<WoodenStorageBox>,
    cs: Seq<Campfire>,
    p: PlayerId,
    id: u64,
    name: Seq<char>,
)
    requires
        armor_drag_outcome(rows, defs, equip, bs, cs, p, id, name).4 is Ok,
    ensures
        armor_drag_outcome(rows, defs, equip, bs, cs, p, id, name).1 matches Some(e) && holds_item(e, id),
{
    let (s, e) = armor_drag_check(rows, defs, equip, p, id, name)->Ok_0;
    assert(worn(with_worn(e, s, Some(id)), s) == Some(id));
}


/// Dropping items deletes or shrinks the stack, and a stack that passes to
/// the caller sits in no player slot, so no two of a player's items end up
/// in one slot.
pub proof fn law_drop_keeps_slots_distinct(
    rows: Seq<InventoryItem>,
    defs: Seq<ItemDefinition>,
    equip: Option<ActiveEquipment>,
    bs: Seq<WoodenStorageBox>,
    cs: Seq<Campfire>,
    p: PlayerId,
    id: u64,
    q: u32,
)
    requires
        slots_distinct(rows),
    ensures
        slots_distinct(drop_outcome(rows, defs, equip, bs, cs, p, id, q).0),
{
    if drop_check(rows, defs, p, id, q) is Ok {
        lemma_idx_in_range(rows, id);
        let i = idx(rows, id);
        let item = rows[i];
        if q == item.quantity {
            lemma_remove_keeps_distinct(rows, i);
        } else {
            let x = InventoryItem {
                quantity: (item.quantity - q) as u32,
                player_identity: if in_player_slots(item) {
                    item.player_identity
                } else {
                    p
                },
                ..item
            };
            if in_player_slots(item) {
                let r = rows.update(i, x);
                assert(same_places(rows, r));
                lemma_same_places(rows, r);
            } else {
                lemma_unslot_keeps_distinct(rows, i, x);
            }
        }
    }
}

/// Wearing dragged armor takes the new piece out of every player slot and
/// puts the piece worn before into a main inventory slot that was free, so
/// no two of a player's items end up in one slot.
pub proof fn law_armor_drag_keeps_slots_distinct(
    rows: Seq<InventoryItem>,
    defs: Seq<ItemDefinition>,
    equip: Option<ActiveEquipment>,
    bs: Seq<WoodenStorageBox>,
    cs: Seq<Campfire>,
    p: PlayerId,
    id: u64,
    name: Seq<char>,
)
    requires
        slots_distinct(rows),
    ensures
        slots_distinct(armor_drag_outcome(rows, defs, equip, bs, cs, p, id, name).0),
{
    match armor_drag_check(rows, defs, equip, p, id, name) {
        Err(_) => {},
        Ok((s, e)) => if worn(e, s) != Some(id) {
            lemma_idx_in_range(rows, id);
            let i = idx(rows, id);
            let item = rows[i];
            lemma_first_free_is_free(rows, p);
            let stow: Option<Seq<InventoryItem>> = match worn(e, s) {
                Some(cur) => match first_free_inv(rows, p) {
                    Some(free) => Some(stowed(rows, p, cur, free)),
                    None => None,
                },
                None => Some(rows),
            };
            match stow {
                None => {},
                Some(r1) => {
                    match worn(e, s) {
                        Some(cur) => {
                            let free = first_free_inv(rows, p)->0;
                            if has_id(rows, cur) && rows[idx(rows, cur)].player_identity == p {
                                lemma_idx_in_range(rows, cur);
                                let ic = idx(rows, cur);
                                lemma_place_free_keeps_distinct(rows, ic, at_inventory(rows[ic], free));
                            }
                        },
                        None => {},
                    }
                    assert(slots_distinct(r1));
                    assert(r1.len() == rows.len());
                    if in_player_slots(item) {
                        lemma_unslot_keeps_distinct(r1, i, unslotted(item));
                    } else {
                        lemma_unslot_keeps_distinct(r1, i, unslotted(InventoryItem { player_identity: p, ..item }));
                    }
                },
            }
        },
    }
}

} // verus!
