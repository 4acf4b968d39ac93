use vstd::prelude::*;
use crate::types::{PlayerId, InventoryItem, ItemDefinition, def_index, find_def, NUM_HOTBAR_SLOTS, NUM_INVENTORY_SLOTS};
use crate::store::{
    ItemStore, rows_wf, single_location, in_player_slots, has_id, idx, unslotted, lemma_idx,
    slots_distinct, same_places, lemma_same_places, lemma_remove_keeps_distinct,
    lemma_unslot_keeps_distinct, lemma_idx_in_range, lemma_push_keeps_distinct,
};
use crate::slots::SlotKind;
use crate::stacking::{
    merge_result, calculate_merge_result, add_item_outcome, add_item_to_player_inventory,
    split_stack_helper, law_add_item_keeps_slots_distinct, lemma_add_item_keeps_rows,
    law_add_item_adds_quantity, lemma_qty_remove, qty_of, MAX_NEW_STACKS,
};
use crate::player_inventory::{
    move_outcome, move_to_player_slot, slot_type_of, parse_slot_type, slot_limit, bad_slot,
    law_move_keeps_slots_distinct,
};
use crate::equipment::ActiveEquipment;
use crate::container::ItemContainer;
use crate::errors::GameError;

verus! {

/// The container with slot `i` set to the given ids.
pub open spec fn put<C: ItemContainer>(c: C, i: int, inst: Option<u64>, def: Option<u64>) -> C {
    c.with_slots(c.slot_ids().update(i, inst), c.slot_defs().update(i, def))
}

/// Whether every slot of the container is empty.
pub open spec fn all_empty<C: ItemContainer>(c: C) -> bool {
    forall|i: int| 0 <= i < c.slot_ids().len() ==> c.slot_ids()[i] is None
}

/// Whether the container holds no item.
pub fn is_container_empty<C: ItemContainer>(c: &C) -> (r: bool)
    ensures
        r == all_empty(*c),
{
    let n = c.num_slots();
    let mut i: usize = 0;
    while i < n
        invariant
            n == c.slot_ids().len(),
            n < 256,
            i <= n,
            forall|j: int| 0 <= j < i ==> c.slot_ids()[j] is None,
        decreases n - i,
    {
        if c.get_slot_instance_id(i as u8).is_some() {
            return false;
        }
        i = i + 1;
    }
    true
}

/// What moving the player's item `id` into container slot `target` leaves:
/// an empty slot receives it; an occupied slot takes as much as its stack has
/// room for, else the two items trade places.
#[verifier::opaque]
pub open spec fn move_to_container_outcome<C: ItemContainer>(
    rows: Seq<InventoryItem>,
    defs: Seq<ItemDefinition>,
    p: PlayerId,
    c: C,
    target: u8,
    id: u64,
) -> (Seq<InventoryItem>, C, Result<(), GameError>) {
    if !has_id(rows, id) {
        (rows, c, Err(GameError::ItemNotFound { instance_id: id }))
    } else {
        let i = idx(rows, id);
        let item = rows[i];
        if def_index(defs, item.item_def_id) == -1 {
            (rows, c, Err(GameError::DefinitionNotFound { def_id: item.item_def_id }))
        } else if item.player_identity != p {
            (rows, c, Err(GameError::ItemNotOwned { instance_id: id }))
        } else if !in_player_slots(item) {
            (rows, c, Err(GameError::NotInPlayerSlots))
        } else if target >= c.slot_ids().len() {
            (rows, c, Err(GameError::SlotOutOfBounds { slot: target }))
        } else {
            let def = defs[def_index(defs, item.item_def_id)];
            match c.slot_ids()[target as int] {
                Some(tid) => if !has_id(rows, tid) {
                    (rows, c, Err(GameError::ItemNotFound { instance_id: tid }))
                } else {
                    let j = idx(rows, tid);
                    let t_item = rows[j];
                    match merge_result(item, t_item, def) {
                        Ok((_, s, t, del)) => {
                            let r1 = rows.update(j, InventoryItem { quantity: t, ..t_item });
                            let r2 = if del {
                                r1.remove(i)
                            } else {
                                r1.update(i, unslotted(InventoryItem { quantity: s, ..item }))
                            };
                            (r2, c, Ok(()))
                        },
                        Err(_) => {
                            let r1 = rows.update(
                                j,
                                InventoryItem {
                                    player_identity: p,
                                    hotbar_slot: item.hotbar_slot,
                                    inventory_slot: item.inventory_slot,
                                    ..t_item
                                },
                            );
                            (
                                r1.update(i, unslotted(item)),
                                put(c, target as int, Some(id), Some(def.id)),
                                Ok(()),
                            )
                        },
                    }
                },
                None => (
                    rows.update(i, unslotted(item)),
                    put(c, target as int, Some(id), Some(def.id)),
                    Ok(()),
                ),
            }
        }
    }
}

/// Moves the player's item from the hotbar or inventory into a container slot.
pub fn handle_move_to_container_slot<C: ItemContainer>(
    store: &mut ItemStore,
    defs: &Vec<ItemDefinition>,
    p: PlayerId,
    container: &mut C,
    target_slot_index: u8,
    item_instance_id: u64,
) -> (r: Result<(), GameError>)
    requires
        old(store).wf(),
    ensures
        final(store).wf(),
        final(store).next_id() == old(store).next_id(),
        ({
            let (rows, c, res) = move_to_container_outcome(
                old(store).rows(),
                defs@,
                p,
                *old(container),
                target_slot_index,
                item_instance_id,
            );
            final(store).rows() == rows && *final(container) == c && r == res
        }),
{
    reveal(move_to_container_outcome);
    let ghost rows0 = store.rows();
    let ghost c0 = *container;
    let ghost out = move_to_container_outcome(rows0, defs@, p, c0, target_slot_index, item_instance_id);
    let i = match store.find_index(item_instance_id) {
        Some(i) => i,
        None => {
            return Err(GameError::ItemNotFound { instance_id: item_instance_id });
        },
    };
    let item = store.get(i);
    let di = match find_def(defs, item.item_def_id) {
        Some(di) => di,
        None => {
            return Err(GameError::DefinitionNotFound { def_id: item.item_def_id });
        },
    };
    if item.player_identity != p {
        return Err(GameError::ItemNotOwned { instance_id: item_instance_id });
    }
    if item.inventory_slot.is_none() && item.hotbar_slot.is_none() {
        return Err(GameError::NotInPlayerSlots);
    }
    if target_slot_index as usize >= container.num_slots() {
        return Err(GameError::SlotOutOfBounds { slot: target_slot_index });
    }
    let def_id = defs[di].id;
    proof {
        assert(single_location(rows0[i as int]));
    }
    match container.get_slot_instance_id(target_slot_index) {
        Some(tid) => {
            let j = match store.find_index(tid) {
                Some(j) => j,
                None => {
                    return Err(GameError::ItemNotFound { instance_id: tid });
                },
            };
            let t_item = store.get(j);
            proof {
                assert(single_location(rows0[j as int]));
            }
            match calculate_merge_result(&item, &t_item, &defs[di]) {
                Ok((_, s, t, del)) => {
                    store.set(j, InventoryItem { quantity: t, ..t_item });
                    if del {
                        store.remove(i);
                    } else {
                        store.set(
                            i,
                            InventoryItem {
                                quantity: s,
                                hotbar_slot: None,
                                inventory_slot: None,
                                ..item
                            },
                        );
                    }
                },
                Err(_) => {
                    store.set(
                        j,
                        InventoryItem {
                            player_identity: p,
                            hotbar_slot: item.hotbar_slot,
                            inventory_slot: item.inventory_slot,
                            ..t_item
                        },
                    );
                    store.set(i, InventoryItem { hotbar_slot: None, inventory_slot: None, ..item });
                    container.set_slot(target_slot_index, Some(item_instance_id), Some(def_id));
                },
            }
        },
        None => {
            store.set(i, InventoryItem { hotbar_slot: None, inventory_slot: None, ..item });
            container.set_slot(target_slot_index, Some(item_instance_id), Some(def_id));
        },
    }
    Ok(())
}

/// What moving the item in container slot `src` to a player slot leaves: the
/// item moves as a move to that player slot would, and on success the
/// container slot is emptied.
pub open spec fn move_from_container_outcome<C: ItemContainer>(
    rows: Seq<InventoryItem>,
    defs: Seq<ItemDefinition>,
    equip: Option<ActiveEquipment>,
    p: PlayerId,
    c: C,
    src: u8,
    kind: Option<SlotKind>,
    slot: u32,
) -> (Seq<InventoryItem>, Option<ActiveEquipment>, C, Result<(), GameError>) {
    if src >= c.slot_ids().len() {
        (rows, equip, c, Err(GameError::SlotOutOfBounds { slot: src }))
    } else {
        match c.slot_ids()[src as int] {
            None => (rows, equip, c, Err(GameError::SlotEmpty { slot: src })),
            Some(sid) => match kind {
                None => (rows, equip, c, Err(GameError::InvalidSlotType)),
                Some(k) => if slot >= slot_limit(k) {
                    (rows, equip, c, Err(bad_slot(k, slot)))
                } else {
                    let (r2, e2, res) = move_outcome(rows, defs, equip, p, sid, k, slot);
                    if res is Ok {
                        (r2, e2, put(c, src as int, None, None), res)
                    } else {
                        (rows, equip, c, res)
                    }
                },
            },
        }
    }
}

/// Moves the item in a container slot into a player slot named by type
/// ("inventory" or "hotbar") and index; empties the container slot on success.
pub fn handle_move_from_container_slot<C: ItemContainer>(
    store: &mut ItemStore,
    defs: &Vec<ItemDefinition>,
    equip: &mut Option<ActiveEquipment>,
    p: PlayerId,
    container: &mut C,
    source_slot_index: u8,
    target_slot_type: &String,
    target_slot_index: u32,
) -> (r: Result<(), GameError>)
    requires
        old(store).wf(),
    ensures
        final(store).wf(),
        final(store).next_id() == old(store).next_id(),
        ({
            let (rows, eq, c, res) = move_from_container_outcome(
                old(store).rows(),
                defs@,
                *old(equip),
                p,
                *old(container),
                source_slot_index,
                slot_type_of(target_slot_type@),
                target_slot_index,
            );
            final(store).rows() == rows && *final(equip) == eq && *final(container) == c && r
                == res
        }),
{
    if source_slot_index as usize >= container.num_slots() {
        return Err(GameError::SlotOutOfBounds { slot: source_slot_index });
    }
    let sid = match container.get_slot_instance_id(source_slot_index) {
        Some(sid) => sid,
        None => {
            return Err(GameError::SlotEmpty { slot: source_slot_index });
        },
    };
    let kind = match parse_slot_type(target_slot_type) {
        Some(k) => k,
        None => {
            return Err(GameError::InvalidSlotType);
        },
    };
    let limit: u32 = match kind {
        SlotKind::Inventory => NUM_INVENTORY_SLOTS as u32,
        SlotKind::Hotbar => NUM_HOTBAR_SLOTS as u32,
    };
    if target_slot_index >= limit {
        return Err(
            match kind {
                SlotKind::Inventory => GameError::InvalidInventorySlot { slot: target_slot_index },
                SlotKind::Hotbar => GameError::InvalidHotbarSlot { slot: target_slot_index },
            },
        );
    }
    let res = move_to_player_slot(store, defs, equip, p, sid, kind, target_slot_index);
    if res.is_ok() {
        container.set_slot(source_slot_index, None, None);
    }
    res
}

/// What moving between two slots of one container leaves: merge onto the
/// target stack (the source slot is emptied when its stack is used up, and
/// keeps what did not fit otherwise), else trade places; an empty target
/// receives the item.
pub open spec fn move_within_container_outcome<C: ItemContainer>(
    rows: Seq<InventoryItem>,
    defs: Seq<ItemDefinition>,
    c: C,
    src: u8,
    tgt: u8,
) -> (Seq<InventoryItem>, C, Result<(), GameError>) {
    let ids = c.slot_ids();
    let dfs = c.slot_defs();
    if src >= ids.len() || tgt >= ids.len() || src == tgt {
        (rows, c, Err(GameError::InvalidSlotPair))
    } else {
        match ids[src as int] {
            None => (rows, c, Err(GameError::SlotEmpty { slot: src })),
            Some(sid) => match dfs[src as int] {
                None => (rows, c, Err(GameError::SlotDefinitionMissing)),
                Some(sdef) => if !has_id(rows, sid) {
                    (rows, c, Err(GameError::ItemNotFound { instance_id: sid }))
                } else {
                    match ids[tgt as int] {
                        Some(tid) => if !has_id(rows, tid) {
                            (rows, c, Err(GameError::ItemNotFound { instance_id: tid }))
                        } else if def_index(defs, sdef) == -1 {
                            (rows, c, Err(GameError::DefinitionNotFound { def_id: sdef }))
                        } else {
                            let i = idx(rows, sid);
                            let j = idx(rows, tid);
                            let def = defs[def_index(defs, sdef)];
                            match merge_result(rows[i], rows[j], def) {
                                Ok((_, s, t, del)) => {
                                    let r1 = rows.update(
                                        j,
                                        InventoryItem { quantity: t, ..rows[j] },
                                    );
                                    if del {
                                        (r1.remove(i), put(c, src as int, None, None), Ok(()))
                                    } else {
                                        (r1.update(i, InventoryItem { quantity: s, ..rows[i] }), c, Ok(()))
                                    }
                                },
                                Err(_) => (
                                    rows,
                                    c.with_slots(
                                        ids.update(tgt as int, Some(sid)).update(
                                            src as int,
                                            ids[tgt as int],
                                        ),
                                        dfs.update(tgt as int, Some(sdef)).update(
                                            src as int,
                                            dfs[tgt as int],
                                        ),
                                    ),
                                    Ok(()),
                                ),
                            }
                        },
                        None => (
                            rows,
                            c.with_slots(
                                ids.update(tgt as int, Some(sid)).update(src as int, None),
                                dfs.update(tgt as int, Some(sdef)).update(src as int, None),
                            ),
                            Ok(()),
                        ),
                    }
                },
            },
        }
    }
}

/// Moves an item between two slots of the same container: merge, swap or move.
pub fn handle_move_within_container<C: ItemContainer>(
    store: &mut ItemStore,
    defs: &Vec<ItemDefinition>,
    container: &mut C,
    source_slot_index: u8,
    target_slot_index: u8,
) -> (r: Result<(), GameError>)
    requires
        old(store).wf(),
    ensures
        final(store).wf(),
        final(store).next_id() == old(store).next_id(),
        ({
            let (rows, c, res) = move_within_container_outcome(
                old(store).rows(),
                defs@,
                *old(container),
                source_slot_index,
                target_slot_index,
            );
            final(store).rows() == rows && *final(container) == c && r == res
        }),
        forall|x: u64| #[trigger] holds_item(*old(container), x) ==> holds_item(*final(container), x)
            || !has_id(final(store).rows(), x),
        forall|x: u64| #[trigger] holds_item(*final(container), x) ==> holds_item(*old(container), x),
{
    proof {
        law_move_within_container_keeps_items(
            old(store).rows(),
            old(store).next_id(),
            defs@,
            *old(container),
            source_slot_index,
            target_slot_index,
        );
    }
    let ghost rows0 = store.rows();
    let ghost c0 = *container;
    let ghost out = move_within_container_outcome(rows0, defs@, c0, source_slot_index, target_slot_index);
    let n = container.num_slots();
    if source_slot_index as usize >= n || target_slot_index as usize >= n || source_slot_index
        == target_slot_index {
        return Err(GameError::InvalidSlotPair);
    }
    let sid = match container.get_slot_instance_id(source_slot_index) {
        Some(sid) => sid,
        None => {
            return Err(GameError::SlotEmpty { slot: source_slot_index });
        },
    };
    let sdef = match container.get_slot_def_id(source_slot_index) {
        Some(d) => d,
        None => {
            return Err(GameError::SlotDefinitionMissing);
        },
    };
    let i = match store.find_index(sid) {
        Some(i) => i,
        None => {
            return Err(GameError::ItemNotFound { instance_id: sid });
        },
    };
    let tid_opt = container.get_slot_instance_id(target_slot_index);
    let tdef_opt = container.get_slot_def_id(target_slot_index);
    match tid_opt {
        Some(tid) => {
            let j = match store.find_index(tid) {
                Some(j) => j,
                None => {
                    return Err(GameError::ItemNotFound { instance_id: tid });
                },
            };
            let di = match find_def(defs, sdef) {
                Some(di) => di,
                None => {
                    return Err(GameError::DefinitionNotFound { def_id: sdef });
                },
            };
            let s_item = store.get(i);
            let t_item = store.get(j);
            proof {
                assert(single_location(rows0[j as int]));
                assert(single_location(rows0[i as int]));
            }
            match calculate_merge_result(&s_item, &t_item, &defs[di]) {
                Ok((_, s, t, del)) => {
                    store.set(j, InventoryItem { quantity: t, ..t_item });
                    if del {
                        store.remove(i);
                        container.set_slot(source_slot_index, None, None);
                    } else {
                        store.set(i, InventoryItem { quantity: s, ..s_item });
                    }
                },
                Err(_) => {
                    container.set_slot(target_slot_index, Some(sid), Some(sdef));
                    container.set_slot(source_slot_index, tid_opt, tdef_opt);
                    proof {
                        c0.lemma_with_slots(
                            c0.slot_ids().update(target_slot_index as int, Some(sid)),
                            c0.slot_defs().update(target_slot_index as int, Some(sdef)),
                        );
                        c0.lemma_with_slots_twice(
                            c0.slot_ids().update(target_slot_index as int, Some(sid)),
                            c0.slot_defs().update(target_slot_index as int, Some(sdef)),
                            c0.slot_ids().update(target_slot_index as int, Some(sid)).update(
                                source_slot_index as int,
                                tid_opt,
                            ),
                            c0.slot_defs().update(target_slot_index as int, Some(sdef)).update(
                                source_slot_index as int,
                                tdef_opt,
                            ),
                        );
                    }
                },
            }
        },
        None => {
            container.set_slot(target_slot_index, Some(sid), Some(sdef));
            container.set_slot(source_slot_index, None, None);
            proof {
                c0.lemma_with_slots(
                    c0.slot_ids().update(target_slot_index as int, Some(sid)),
                    c0.slot_defs().update(target_slot_index as int, Some(sdef)),
                );
                c0.lemma_with_slots_twice(
                    c0.slot_ids().update(target_slot_index as int, Some(sid)),
                    c0.slot_defs().update(target_slot_index as int, Some(sdef)),
                    c0.slot_ids().update(target_slot_index as int, Some(sid)).update(
                        source_slot_index as int,
                        None,
                    ),
                    c0.slot_defs().update(target_slot_index as int, Some(sdef)).update(
                        source_slot_index as int,
                        None,
                    ),
                );
            }
        },
    }
    Ok(())
}

/// The refusal when a split stack cannot merge onto the target slot's item.
pub open spec fn split_merge_error(slot: u8, e: GameError) -> GameError {
    GameError::SplitMergeFailed { slot, reason_full: e == GameError::TargetStackFull }
}

/// What splitting `q` items off a stack into a container slot leaves: the
/// new stack goes into an empty slot, or merges onto the slot's item. A
/// refused merge leaves everything as it was.
#[verifier::opaque]
pub open spec fn split_into_container_outcome<C: ItemContainer>(
    rows: Seq<InventoryItem>,
    next: u64,
    defs: Seq<ItemDefinition>,
    c: C,
    tgt: u8,
    i: int,
    q: u32,
) -> (Seq<InventoryItem>, u64, C, Result<(), GameError>) {
    let src = rows[i];
    if tgt >= c.slot_ids().len() {
        (rows, next, c, Err(GameError::SlotOutOfBounds { slot: tgt }))
    } else if q == 0 || q >= src.quantity {
        (rows, next, c, Err(GameError::InvalidSplitQuantity))
    } else if def_index(defs, src.item_def_id) == -1 {
        (rows, next, c, Err(GameError::DefinitionNotFound { def_id: src.item_def_id }))
    } else {
        let def = defs[def_index(defs, src.item_def_id)];
        let new_item = InventoryItem {
            instance_id: next,
            quantity: q,
            hotbar_slot: None,
            inventory_slot: None,
            ..src
        };
        let rows1 = rows.update(i, InventoryItem { quantity: (src.quantity - q) as u32, ..src }).push(
            new_item,
        );
        let next1 = (next + 1) as u64;
        match c.slot_ids()[tgt as int] {
            None => (rows1, next1, put(c, tgt as int, Some(next), Some(src.item_def_id)), Ok(())),
            Some(tid) => if !has_id(rows1, tid) {
                (rows, next, c, Err(GameError::ItemNotFound { instance_id: tid }))
            } else {
                let j = idx(rows1, tid);
                match merge_result(new_item, rows1[j], def) {
                    Ok((_, _, t, del)) => {
                        let rows2 = rows1.update(j, InventoryItem { quantity: t, ..rows1[j] });
                        if del {
                            (rows2.remove(idx(rows2, next)), next1, c, Ok(()))
                        } else {
                            (
                                rows2,
                                next1,
                                put(c, tgt as int, Some(next), Some(src.item_def_id)),
                                Ok(()),
                            )
                        }
                    },
                    Err(e) => (rows, next, c, Err(split_merge_error(tgt, e))),
                }
            },
        }
    }
}

/// Places the stack just split off (id `new_id`) into container slot `tgt`,
/// merging onto the item there when the slot is taken.
fn place_split_stack<C: ItemContainer>(
    store: &mut ItemStore,
    container: &mut C,
    def: &ItemDefinition,
    tgt: u8,
    new_id: u64,
    new_item: InventoryItem,
) -> (r: Result<(), GameError>)
    requires
        old(store).wf(),
        tgt < old(container).slot_ids().len(),
        has_id(old(store).rows(), new_id),
        old(store).rows()[idx(old(store).rows(), new_id)] == new_item,
    ensures
        final(store).wf(),
        final(store).next_id() == old(store).next_id(),
        r is Err ==> *final(container) == *old(container),
        ({
            let rows1 = old(store).rows();
            let c = *old(container);
            match c.slot_ids()[tgt as int] {
                None => r == Ok::<(), GameError>(()) && final(store).rows() == rows1 && *final(container) == put(
                    c,
                    tgt as int,
                    Some(new_id),
                    Some(new_item.item_def_id),
                ),
                Some(tid) => if !has_id(rows1, tid) {
                    r == Err::<(), GameError>(GameError::ItemNotFound { instance_id: tid })
                } else {
                    let j = idx(rows1, tid);
                    match merge_result(new_item, rows1[j], *def) {
                        Ok((_, _, t, del)) => {
                            let rows2 = rows1.update(j, InventoryItem { quantity: t, ..rows1[j] });
                            r == Ok::<(), GameError>(()) && if del {
                                final(store).rows() == rows2.remove(idx(rows2, new_id))
                                    && *final(container) == c
                            } else {
                                final(store).rows() == rows2 && *final(container) == put(
                                    c,
                                    tgt as int,
                                    Some(new_id),
                                    Some(new_item.item_def_id),
                                )
                            }
                        },
                        Err(e) => r == Err::<(), GameError>(split_merge_error(tgt, e)),
                    }
                },
            }
        }),
{
    match container.get_slot_instance_id(tgt) {
        None => {
            container.set_slot(tgt, Some(new_id), Some(new_item.item_def_id));
            Ok(())
        },
        Some(tid) => {
            let j = match store.find_index(tid) {
                Some(j) => j,
                None => {
                    return Err(GameError::ItemNotFound { instance_id: tid });
                },
            };
            let t_item = store.get(j);
            match calculate_merge_result(&new_item, &t_item, def) {
                Ok((_, _, t, del)) => {
                    proof {
                        assert(single_location(old(store).rows()[j as int]));
                    }
                    store.set(j, InventoryItem { quantity: t, ..t_item });
                    proof {
                        let k0 = idx(old(store).rows(), new_id);
                        assert(store.rows()[k0].instance_id == new_id);
                        assert(has_id(store.rows(), new_id));
                    }
                    if del {
                        match store.find_index(new_id) {
                            Some(k) => {
                                store.remove(k);
                            },
                            None => {},
                        }
                    } else {
                        container.set_slot(tgt, Some(new_id), Some(new_item.item_def_id));
                    }
                    Ok(())
                },
                Err(e) => Err(
                    GameError::SplitMergeFailed {
                        slot: tgt,
                        reason_full: e == GameError::TargetStackFull,
                    },
                ),
            }
        },
    }
}

/// Splits `quantity_to_split` items off the stack at row `source_index` into
/// a container slot. A refusal leaves the table and the container unchanged.
pub fn handle_split_into_container<C: ItemContainer>(
    store: &mut ItemStore,
    defs: &Vec<ItemDefinition>,
    container: &mut C,
    target_slot_index: u8,
    source_index: usize,
    quantity_to_split: u32,
) -> (r: Result<(), GameError>)
    requires
        old(store).wf(),
        old(store).next_id() < u64::MAX,
        source_index < old(store).rows().len(),
    ensures
        final(store).wf(),
        ({
            let (rows, next, c, res) = split_into_container_outcome(
                old(store).rows(),
                old(store).next_id(),
                defs@,
                *old(container),
                target_slot_index,
                source_index as int,
                quantity_to_split,
            );
            final(store).rows() == rows && final(store).next_id() == next && *final(container)
                == c && r == res
        }),
{
    reveal(split_into_container_outcome);
    let ghost rows0 = store.rows();
    let ghost next0 = store.next_id();
    if target_slot_index as usize >= container.num_slots() {
        return Err(GameError::SlotOutOfBounds { slot: target_slot_index });
    }
    let src = store.get(source_index);
    if quantity_to_split == 0 || quantity_to_split >= src.quantity {
        return Err(GameError::InvalidSplitQuantity);
    }
    let di = match find_def(defs, src.item_def_id) {
        Some(di) => di,
        None => {
            return Err(GameError::DefinitionNotFound { def_id: src.item_def_id });
        },
    };
    let saved = store.snapshot();
    let new_id = match split_stack_helper(store, source_index, quantity_to_split) {
        Ok(id) => id,
        Err(e) => {
            return Err(e);
        },
    };
    let new_item = InventoryItem {
        instance_id: new_id,
        quantity: quantity_to_split,
        hotbar_slot: None,
        inventory_slot: None,
        ..src
    };
    proof {
        lemma_idx(store.rows(), store.next_id(), store.rows().len() - 1);
    }
    let ghost rows1 = store.rows();
    assert(rows1 == rows0.update(
        source_index as int,
        InventoryItem { quantity: (src.quantity - quantity_to_split) as u32, ..src },
    ).push(new_item));
    assert(new_id == next0);
    let ghost c0 = *container;
    let res = place_split_stack(store, container, &defs[di], target_slot_index, new_id, new_item);
    if res.is_err() {
        *store = saved;
    }
    proof {
        let out = split_into_container_outcome(
            rows0,
            next0,
            defs@,
            c0,
            target_slot_index,
            source_index as int,
            quantity_to_split,
        );
        assert(!(target_slot_index >= c0.slot_ids().len()));
        assert(!(quantity_to_split == 0 || quantity_to_split >= src.quantity));
        assert(def_index(defs@, src.item_def_id) != -1);
        match c0.slot_ids()[target_slot_index as int] {
            None => {
                assert(out.3 == res);
            },
            Some(tid) => {
                if !has_id(rows1, tid) {
                    assert(out.3 == res);
                } else {
                    assert(out.3 == res);
                }
            },
        }
        assert(out.0 == store.rows());
        assert(out.2 == *container);
    }
    res
}

/// What splitting from a container slot into a player slot leaves: the new
/// stack moves as a move to that player slot would; a refused move leaves
/// everything as it was.
pub open spec fn split_from_container_outcome<C: ItemContainer>(
    rows: Seq<InventoryItem>,
    next: u64,
    defs: Seq<ItemDefinition>,
    equip: Option<ActiveEquipment>,
    p: PlayerId,
    c: C,
    src: u8,
    q: u32,
    kind: Option<SlotKind>,
    slot: u32,
) -> (Seq<InventoryItem>, u64, Option<ActiveEquipment>, Result<(), GameError>) {
    if src >= c.slot_ids().len() {
        (rows, next, equip, Err(GameError::SlotOutOfBounds { slot: src }))
    } else {
        match c.slot_ids()[src as int] {
            None => (rows, next, equip, Err(GameError::SlotEmpty { slot: src })),
            Some(sid) => match c.slot_defs()[src as int] {
                None => (rows, next, equip, Err(GameError::SlotDefinitionMissing)),
                Some(sdef) => if !has_id(rows, sid) {
                    (rows, next, equip, Err(GameError::ItemNotFound { instance_id: sid }))
                } else {
                    let i = idx(rows, sid);
                    let item = rows[i];
                    if q == 0 || q >= item.quantity {
                        (rows, next, equip, Err(GameError::InvalidSplitQuantity))
                    } else if def_index(defs, sdef) == -1 {
                        (rows, next, equip, Err(GameError::DefinitionNotFound { def_id: sdef }))
                    } else if !defs[def_index(defs, sdef)].is_stackable {
                        (rows, next, equip, Err(GameError::NotStackable))
                    } else {
                        match kind {
                            None => (rows, next, equip, Err(GameError::InvalidSlotType)),
                            Some(k) => if slot >= slot_limit(k) {
                                (rows, next, equip, Err(bad_slot(k, slot)))
                            } else {
                                let rows1 = rows.update(
                                    i,
                                    InventoryItem { quantity: (item.quantity - q) as u32, ..item },
                                ).push(
                                    InventoryItem {
                                        instance_id: next,
                                        quantity: q,
                                        hotbar_slot: None,
                                        inventory_slot: None,
                                        ..item
                                    },
                                );
                                let (rows2, eq2, res) = move_outcome(
                                    rows1,
                                    defs,
                                    equip,
                                    p,
                                    next,
                                    k,
                                    slot,
                                );
                                if res is Ok {
                                    (rows2, (next + 1) as u64, eq2, res)
                                } else {
                                    (rows, next, equip, res)
                                }
                            },
                        }
                    }
                },
            },
        }
    }
}

/// Splits `quantity_to_split` items off a container slot's stack into a
/// player slot named by type and index. The container's slots stay as they are.
pub fn handle_split_from_container<C: ItemContainer>(
    store: &mut ItemStore,
    defs: &Vec<ItemDefinition>,
    equip: &mut Option<ActiveEquipment>,
    p: PlayerId,
    container: &C,
    source_slot_index: u8,
    quantity_to_split: u32,
    target_slot_type: &String,
    target_slot_index: u32,
) -> (r: Result<(), GameError>)
    requires
        old(store).wf(),
        old(store).next_id() < u64::MAX,
    ensures
        final(store).wf(),
        ({
            let (rows, next, eq, res) = split_from_container_outcome(
                old(store).rows(),
                old(store).next_id(),
                defs@,
                *old(equip),
                p,
                *container,
                source_slot_index,
                quantity_to_split,
                slot_type_of(target_slot_type@),
                target_slot_index,
            );
            final(store).rows() == rows && final(store).next_id() == next && *final(equip) == eq
                && r == res
        }),
{
    let ghost rows0 = store.rows();
    let ghost next0 = store.next_id();
    let ghost eq0 = *equip;
    if source_slot_index as usize >= container.num_slots() {
        return Err(GameError::SlotOutOfBounds { slot: source_slot_index });
    }
    let sid = match container.get_slot_instance_id(source_slot_index) {
        Some(sid) => sid,
        None => {
            return Err(GameError::SlotEmpty { slot: source_slot_index });
        },
    };
    let sdef = match container.get_slot_def_id(source_slot_index) {
        Some(d) => d,
        None => {
            return Err(GameError::SlotDefinitionMissing);
        },
    };
    let i = match store.find_index(sid) {
        Some(i) => i,
        None => {
            return Err(GameError::ItemNotFound { instance_id: sid });
        },
    };
    let item = store.get(i);
    if quantity_to_split == 0 || quantity_to_split >= item.quantity {
        return Err(GameError::InvalidSplitQuantity);
    }
    let di = match find_def(defs, sdef) {
        Some(di) => di,
        None => {
            return Err(GameError::DefinitionNotFound { def_id: sdef });
        },
    };
    if !defs[di].is_stackable {
        return Err(GameError::NotStackable);
    }
    let kind = match parse_slot_type(target_slot_type) {
        Some(k) => k,
        None => {
            return Err(GameError::InvalidSlotType);
        },
    };
    let limit: u32 = match kind {
        SlotKind::Inventory => NUM_INVENTORY_SLOTS as u32,
        SlotKind::Hotbar => NUM_HOTBAR_SLOTS as u32,
    };
    if target_slot_index >= limit {
        return Err(
            match kind {
                SlotKind::Inventory => GameError::InvalidInventorySlot { slot: target_slot_index },
                SlotKind::Hotbar => GameError::InvalidHotbarSlot { slot: target_slot_index },
            },
        );
    }
    let saved = store.snapshot();
    let new_id = match split_stack_helper(store, i, quantity_to_split) {
        Ok(id) => id,
        Err(e) => {
            return Err(e);
        },
    };
    let ghost rows1 = store.rows();
    let res = move_to_player_slot(store, defs, equip, p, new_id, kind, target_slot_index);
    if res.is_err() {
        *store = saved;
    }
    proof {
        let out = split_from_container_outcome(
            rows0,
            next0,
            defs@,
            eq0,
            p,
            *container,
            source_slot_index,
            quantity_to_split,
            slot_type_of(target_slot_type@),
            target_slot_index,
        );
        let mo = move_outcome(rows1, defs@, eq0, p, next0, kind, target_slot_index);
        assert(new_id == next0);
        assert(mo.2 == res);
        assert(out.3 == res);
        assert(out.0 == store.rows());
        assert(out.2 == *equip);
    }
    res
}

/// What splitting between two slots of one container leaves: as a split into
/// the target slot, for a stackable item in the source slot.
pub open spec fn split_within_container_outcome<C: ItemContainer>(
    rows: Seq<InventoryItem>,
    next: u64,
    defs: Seq<ItemDefinition>,
    c: C,
    src: u8,
    tgt: u8,
    q: u32,
) -> (Seq<InventoryItem>, u64, C, Result<(), GameError>) {
    let ids = c.slot_ids();
    if src >= ids.len() || tgt >= ids.len() || src == tgt {
        (rows, next, c, Err(GameError::InvalidSlotPair))
    } else {
        match ids[src as int] {
            None => (rows, next, c, Err(GameError::SlotEmpty { slot: src })),
            Some(sid) => if !has_id(rows, sid) {
                (rows, next, c, Err(GameError::ItemNotFound { instance_id: sid }))
            } else {
                let item = rows[idx(rows, sid)];
                if q == 0 || q >= item.quantity {
                    (rows, next, c, Err(GameError::InvalidSplitQuantity))
                } else if def_index(defs, item.item_def_id) == -1 {
                    (rows, next, c, Err(GameError::DefinitionNotFound { def_id: item.item_def_id }))
                } else if !defs[def_index(defs, item.item_def_id)].is_stackable {
                    (rows, next, c, Err(GameError::NotStackable))
                } else {
                    split_into_container_outcome(rows, next, defs, c, tgt, idx(rows, sid), q)
                }
            },
        }
    }
}

/// Splits `quantity_to_split` items off one container slot into another slot
/// of the same container (empty, or holding a stack to merge onto).
pub fn handle_split_within_container<C: ItemContainer>(
    store: &mut ItemStore,
    defs: &Vec<ItemDefinition>,
    container: &mut C,
    source_slot_index: u8,
    target_slot_index: u8,
    quantity_to_split: u32,
) -> (r: Result<(), GameError>)
    requires
        old(store).wf(),
        old(store).next_id() < u64::MAX,
    ensures
        final(store).wf(),
        ({
            let (rows, next, c, res) = split_within_container_outcome(
                old(store).rows(),
                old(store).next_id(),
                defs@,
                *old(container),
                source_slot_index,
                target_slot_index,
                quantity_to_split,
            );
            final(store).rows() == rows && final(store).next_id() == next && *final(container)
                == c && r == res
        }),
{
    let n = container.num_slots();
    if source_slot_index as usize >= n || target_slot_index as usize >= n || source_slot_index
        == target_slot_index {
        return Err(GameError::InvalidSlotPair);
    }
    let sid = match container.get_slot_instance_id(source_slot_index) {
        Some(sid) => sid,
        None => {
            return Err(GameError::SlotEmpty { slot: source_slot_index });
        },
    };
    let i = match store.find_index(sid) {
        Some(i) => i,
        None => {
            return Err(GameError::ItemNotFound { instance_id: sid });
        },
    };
    let item = store.get(i);
    if quantity_to_split == 0 || quantity_to_split >= item.quantity {
        return Err(GameError::InvalidSplitQuantity);
    }
    let di = match find_def(defs, item.item_def_id) {
        Some(di) => di,
        None => {
            return Err(GameError::DefinitionNotFound { def_id: item.item_def_id });
        },
    };
    if !defs[di].is_stackable {
        return Err(GameError::NotStackable);
    }
    handle_split_into_container(store, defs, container, target_slot_index, i, quantity_to_split)
}

/// What moving a container slot's item to its owner-to-be leaves: the items
/// are added to player `p` as an addition of that many items would add them,
/// the container slot is emptied and the slot's own row is deleted, so the
/// items are moved, not copied. A refused addition leaves everything as it
/// was.
pub open spec fn quick_move_from_container_outcome<C: ItemContainer>(
    rows: Seq<InventoryItem>,
    next: u64,
    defs: Seq<ItemDefinition>,
    p: PlayerId,
    c: C,
    src: u8,
) -> (Seq<InventoryItem>, u64, C, Result<(), GameError>) {
    if src >= c.slot_ids().len() || c.slot_ids()[src as int] is None {
        (rows, next, c, Err(GameError::SlotEmpty { slot: src }))
    } else if c.slot_defs()[src as int] is None {
        (rows, next, c, Err(GameError::SlotDefinitionMissing))
    } else {
        let sid = c.slot_ids()[src as int]->0;
        let sdef = c.slot_defs()[src as int]->0;
        if !has_id(rows, sid) {
            (rows, next, c, Err(GameError::ItemNotFound { instance_id: sid }))
        } else {
            let (r2, n2, res) = add_item_outcome(
                rows,
                next,
                defs,
                p,
                sdef,
                rows[idx(rows, sid)].quantity,
            );
            if res is Ok {
                (r2.remove(idx(rows, sid)), n2, put(c, src as int, None, None), res)
            } else {
                (rows, next, c, res)
            }
        }
    }
}

/// Moves the items of a container slot into player `p`'s hotbar and
/// inventory (stacking first), empties the slot and deletes the slot's row.
pub fn handle_quick_move_from_container<C: ItemContainer>(
    store: &mut ItemStore,
    defs: &Vec<ItemDefinition>,
    p: PlayerId,
    container: &mut C,
    source_slot_index: u8,
) -> (r: Result<(), GameError>)
    requires
        old(store).wf(),
        old(store).next_id() + MAX_NEW_STACKS < u64::MAX,
    ensures
        final(store).wf(),
        old(store).next_id() <= final(store).next_id() <= old(store).next_id() + MAX_NEW_STACKS,
        ({
            let (rows, next, c, res) = quick_move_from_container_outcome(
                old(store).rows(),
                old(store).next_id(),
                defs@,
                p,
                *old(container),
                source_slot_index,
            );
            final(store).rows() == rows && final(store).next_id() == next && *final(container)
                == c && r == res
        }),
{
    proof {
        container.lemma_with_own_slots();
    }
    let sid = match container.get_slot_instance_id(source_slot_index) {
        Some(sid) => sid,
        None => {
            return Err(GameError::SlotEmpty { slot: source_slot_index });
        },
    };
    let sdef = match container.get_slot_def_id(source_slot_index) {
        Some(d) => d,
        None => {
            return Err(GameError::SlotDefinitionMissing);
        },
    };
    let i = match store.find_index(sid) {
        Some(i) => i,
        None => {
            return Err(GameError::ItemNotFound { instance_id: sid });
        },
    };
    let qty = store.get(i).quantity;
    let saved = store.snapshot();
    proof {
        lemma_add_item_keeps_rows(store.rows(), store.next_id(), defs@, p, sdef, qty);
    }
    let res = add_item_to_player_inventory(store, defs, p, sdef, qty);
    if res.is_err() {
        *store = saved;
    } else {
        store.remove(i);
        container.set_slot(source_slot_index, None, None);
    }
    res
}

/// Index of the first empty slot, or -1.
pub open spec fn first_empty(ids: Seq<Option<u64>>) -> int {
    if exists|k: int| 0 <= k < ids.len() && ids[k] is None {
        choose|k: int| 0 <= k < ids.len() && ids[k] is None && forall|j: int| 0 <= j < k ==> ids[j] is Some
    } else {
        -1
    }
}

fn find_first_empty_slot<C: ItemContainer>(c: &C) -> (r: Option<u8>)
    ensures
        match r {
            Some(k) => k == first_empty(c.slot_ids()) && k < c.slot_ids().len(),
            None => first_empty(c.slot_ids()) == -1,
        },
{
    let n = c.num_slots();
    let mut k: usize = 0;
    while k < n
        invariant
            n == c.slot_ids().len(),
            n < 256,
            k <= n,
            forall|j: int| 0 <= j < k ==> c.slot_ids()[j] is Some,
        decreases n - k,
    {
        if c.get_slot_instance_id(k as u8).is_none() {
            let ghost f = first_empty(c.slot_ids());
            assert(f == k as int) by {
                if f < k {
                } else if f > k {
                }
            }
            return Some(k as u8);
        }
        k = k + 1;
    }
    None
}

/// One slot of the merge pass: when slot `k` holds a stack of the moving
/// item's kind, merge what is left onto it.
pub open spec fn merge_step<C: ItemContainer>(
    r: Seq<InventoryItem>,
    q: u32,
    op: bool,
    c: C,
    def: ItemDefinition,
    item: InventoryItem,
    k: int,
) -> Result<(Seq<InventoryItem>, u32, bool, bool), GameError> {
    match c.slot_ids()[k] {
        None => Ok((r, q, op, false)),
        Some(tid) => if c.slot_defs()[k] != Some(def.id) {
            Ok((r, q, op, false))
        } else if !has_id(r, tid) {
            Err(GameError::ItemNotFound { instance_id: tid })
        } else {
            let j = idx(r, tid);
            match merge_result(InventoryItem { quantity: q, ..item }, r[j], def) {
                Ok((moved, s, t, del)) => if moved > 0 {
                    let r1 = r.update(j, InventoryItem { quantity: t, ..r[j] });
                    if del {
                        let r2 = if has_id(r1, item.instance_id) {
                            r1.remove(idx(r1, item.instance_id))
                        } else {
                            r1
                        };
                        Ok((r2, 0u32, true, true))
                    } else {
                        Ok((r1, s, true, false))
                    }
                } else {
                    Ok((r, q, op, false))
                },
                Err(_) => Ok((r, q, op, false)),
            }
        },
    }
}

/// Merges the moving item onto the container's stacks of the same kind, slot
/// by slot over the first `n` slots: rows, quantity still to place, whether
/// anything merged, and whether the moving stack was used up (and deleted).
pub open spec fn quick_merge_pass<C: ItemContainer>(
    rows: Seq<InventoryItem>,
    c: C,
    def: ItemDefinition,
    item: InventoryItem,
    n: nat,
) -> Result<(Seq<InventoryItem>, u32, bool, bool), GameError>
    decreases n,
{
    if n == 0 {
        Ok((rows, item.quantity, false, false))
    } else {
        match quick_merge_pass(rows, c, def, item, (n - 1) as nat) {
            Err(e) => Err(e),
            Ok((r, q, op, done)) => if done || n - 1 >= c.slot_ids().len() {
                Ok((r, q, op, done))
            } else {
                merge_step(r, q, op, c, def, item, n - 1)
            },
        }
    }
}

fn merge_one_slot<C: ItemContainer>(
    store: &mut ItemStore,
    container: &C,
    def: &ItemDefinition,
    item: InventoryItem,
    k: u8,
    q: u32,
    op: bool,
) -> (r: Result<(u32, bool, bool), GameError>)
    requires
        old(store).wf(),
        (k as int) < container.slot_ids().len(),
    ensures
        final(store).wf(),
        final(store).next_id() == old(store).next_id(),
        match merge_step(old(store).rows(), q, op, *container, *def, item, k as int) {
            Err(e) => r == Err::<(u32, bool, bool), GameError>(e),
            Ok((rows, q2, op2, done)) => r == Ok::<(u32, bool, bool), GameError>((q2, op2, done))
                && final(store).rows() == rows,
        },
{
    proof {
        container.lemma_with_own_slots();
    }
    match container.get_slot_instance_id(k) {
        None => Ok((q, op, false)),
        Some(tid) => {
            if container.get_slot_def_id(k) != Some(def.id) {
                return Ok((q, op, false));
            }
            let j = match store.find_index(tid) {
                Some(j) => j,
                None => {
                    return Err(GameError::ItemNotFound { instance_id: tid });
                },
            };
            let t_item = store.get(j);
            let cur = InventoryItem { quantity: q, ..item };
            match calculate_merge_result(&cur, &t_item, def) {
                Ok((moved, s, t, del)) => {
                    if moved == 0 {
                        return Ok((q, op, false));
                    }
                    proof {
                        assert(single_location(store.rows()[j as int]));
                    }
                    store.set(j, InventoryItem { quantity: t, ..t_item });
                    if del {
                        match store.find_index(item.instance_id) {
                            Some(x) => {
                                store.remove(x);
                            },
                            None => {},
                        }
                        Ok((0, true, true))
                    } else {
                        Ok((s, true, false))
                    }
                },
                Err(_) => Ok((q, op, false)),
            }
        },
    }
}

/// Once the pass is refused or has used up the moving stack, later slots
/// change nothing.
pub proof fn lemma_pass_settled<C: ItemContainer>(
    rows: Seq<InventoryItem>,
    c: C,
    def: ItemDefinition,
    item: InventoryItem,
    k: nat,
    m: nat,
)
    requires
        k <= m,
        quick_merge_pass(rows, c, def, item, k) is Err || (quick_merge_pass(
            rows,
            c,
            def,
            item,
            k,
        ) is Ok && quick_merge_pass(rows, c, def, item, k)->Ok_0.3),
    ensures
        quick_merge_pass(rows, c, def, item, m) == quick_merge_pass(rows, c, def, item, k),
    decreases m - k,
{
    if k < m {
        lemma_pass_settled(rows, c, def, item, k, (m - 1) as nat);
    }
}

/// What moving the player's item into a container leaves: merge onto the
/// container's stacks of that kind in slot order, then put what is left into
/// the first empty slot. With nothing merged and no empty slot the container
/// is full; with some merged and no empty slot the rest stays where it was,
/// its stack holding only what did not merge.
pub open spec fn quick_move_to_container_outcome<C: ItemContainer>(
    rows: Seq<InventoryItem>,
    defs: Seq<ItemDefinition>,
    p: PlayerId,
    c: C,
    id: u64,
) -> (Seq<InventoryItem>, C, Result<(), GameError>) {
    if !has_id(rows, id) {
        (rows, c, Err(GameError::ItemNotFound { instance_id: id }))
    } else {
        let item = rows[idx(rows, id)];
        if def_index(defs, item.item_def_id) == -1 {
            (rows, c, Err(GameError::DefinitionNotFound { def_id: item.item_def_id }))
        } else if item.player_identity != p {
            (rows, c, Err(GameError::ItemNotOwned { instance_id: id }))
        } else if !in_player_slots(item) {
            (rows, c, Err(GameError::NotInPlayerSlots))
        } else {
            let def = defs[def_index(defs, item.item_def_id)];
            let pass = if def.is_stackable {
                quick_merge_pass(rows, c, def, item, c.slot_ids().len())
            } else {
                Ok((rows, item.quantity, false, false))
            };
            match pass {
                Err(e) => (rows, c, Err(e)),
                Ok((r, q, op, done)) => if done || q == 0 {
                    (r, c, Ok(()))
                } else if first_empty(c.slot_ids()) == -1 {
                    if !op {
                        (rows, c, Err(GameError::ContainerFull))
                    } else {
                        (r.update(idx(rows, id), InventoryItem { quantity: q, ..item }), c, Ok(()))
                    }
                } else {
                    let k = first_empty(c.slot_ids());
                    let r2 = if has_id(r, id) {
                        r.update(idx(r, id), unslotted(InventoryItem { quantity: q, ..item }))
                    } else {
                        r
                    };
                    (r2, put(c, k, Some(id), Some(def.id)), Ok(()))
                },
            }
        }
    }
}

fn merge_into_container_stacks<C: ItemContainer>(
    store: &mut ItemStore,
    container: &C,
    def: &ItemDefinition,
    item: InventoryItem,
) -> (r: Result<(u32, bool, bool), GameError>)
    requires
        old(store).wf(),
    ensures
        final(store).wf(),
        final(store).next_id() == old(store).next_id(),
        match quick_merge_pass(old(store).rows(), *container, *def, item, container.slot_ids().len()) {
            Err(e) => r == Err::<(u32, bool, bool), GameError>(e),
            Ok((rows, q, op, done)) => r == Ok::<(u32, bool, bool), GameError>((q, op, done))
                && final(store).rows() == rows,
        },
{
    let ghost rows0 = store.rows();
    let n = container.num_slots();
    let mut q = item.quantity;
    let mut op = false;
    let mut k: usize = 0;
    while k < n
        invariant
            store.wf(),
            store.next_id() == old(store).next_id(),
            n == container.slot_ids().len(),
            n < 256,
            k <= n,
            rows0 == old(store).rows(),
            quick_merge_pass(rows0, *container, *def, item, k as nat) == Ok::<
                (Seq<InventoryItem>, u32, bool, bool),
                GameError,
            >((store.rows(), q, op, false)),
        decreases n - k,
    {
        assert((k as u8) as int == k as int);
        let ghost r0 = store.rows();
        assert(quick_merge_pass(rows0, *container, *def, item, (k + 1) as nat) == merge_step(
            r0,
            q,
            op,
            *container,
            *def,
            item,
            k as int,
        ));
        let step = merge_one_slot(store, container, def, item, k as u8, q, op);
        match step {
            Err(e) => {
                proof {
                    lemma_pass_settled(rows0, *container, *def, item, (k + 1) as nat, n as nat);
                }
                return Err(e);
            },
            Ok((q2, op2, done)) => {
                if done {
                    proof {
                        lemma_pass_settled(rows0, *container, *def, item, (k + 1) as nat, n as nat);
                    }
                    return Ok((q2, op2, true));
                }
                q = q2;
                op = op2;
            },
        }
        k = k + 1;
    }
    Ok((q, op, false))
}

/// Moves the player's item into the container: merges onto stacks of the
/// same kind first, then fills the first empty slot.
pub fn handle_quick_move_to_container<C: ItemContainer>(
    store: &mut ItemStore,
    defs: &Vec<ItemDefinition>,
    p: PlayerId,
    container: &mut C,
    item_instance_id: u64,
) -> (r: Result<(), GameError>)
    requires
        old(store).wf(),
    ensures
        final(store).wf(),
        final(store).next_id() == old(store).next_id(),
        ({
            let (rows, c, res) = quick_move_to_container_outcome(
                old(store).rows(),
                defs@,
                p,
                *old(container),
                item_instance_id,
            );
            final(store).rows() == rows && *final(container) == c && r == res
        }),
{
    let ghost rows0 = store.rows();
    let ghost c0 = *container;
    let i = match store.find_index(item_instance_id) {
        Some(i) => i,
        None => {
            return Err(GameError::ItemNotFound { instance_id: item_instance_id });
        },
    };
    let item = store.get(i);
    let di = match find_def(defs, item.item_def_id) {
        Some(di) => di,
        None => {
            return Err(GameError::DefinitionNotFound { def_id: item.item_def_id });
        },
    };
    if item.player_identity != p {
        return Err(GameError::ItemNotOwned { instance_id: item_instance_id });
    }
    if item.inventory_slot.is_none() && item.hotbar_slot.is_none() {
        return Err(GameError::NotInPlayerSlots);
    }
    let def = &defs[di];
    let def_id = def.id;
    let ghost out = quick_move_to_container_outcome(rows0, defs@, p, c0, item_instance_id);
    let saved = store.snapshot();
    let mut q = item.quantity;
    let mut op = false;
    if def.is_stackable {
        match merge_into_container_stacks(store, container, def, item) {
            Err(e) => {
                *store = saved;
                return Err(e);
            },
            Ok((q1, op1, done)) => {
                if done {
                    return Ok(());
                }
                q = q1;
                op = op1;
            },
        }
    }
    let ghost r = store.rows();
    if q == 0 {
        return Ok(());
    }
    match find_first_empty_slot(container) {
        Some(k) => {
            match store.find_index(item_instance_id) {
                Some(x) => {
                    proof {
                        assert(single_location(store.rows()[x as int]));
                    }
                    store.set(
                        x,
                        InventoryItem {
                            quantity: q,
                            hotbar_slot: None,
                            inventory_slot: None,
                            ..item
                        },
                    );
                },
                None => {},
            }
            container.set_slot(k, Some(item_instance_id), Some(def_id));
            Ok(())
        },
        None => {
            if !op {
                *store = saved;
                Err(GameError::ContainerFull)
            } else {
                proof {
                    lemma_merge_pass_shape(rows0, c0, *def, item, c0.slot_ids().len());
                    assert(single_location(rows0[i as int]));
                }
                store.set(i, InventoryItem { quantity: q, ..item });
                Ok(())
            }
        },
    }
}

/// The slot ids with item `id` taken out of the first `k` slots.
pub open spec fn ids_without(ids: Seq<Option<u64>>, id: u64, k: int) -> Seq<Option<u64>> {
    Seq::new(ids.len(), |j: int| if j < k && ids[j] == Some(id) { None } else { ids[j] })
}

/// The definition ids of the slots of the first `k` that held item `id`, emptied.
pub open spec fn defs_without(ids: Seq<Option<u64>>, dfs: Seq<Option<u64>>, id: u64, k: int) -> Seq<Option<u64>> {
    Seq::new(dfs.len(), |j: int| if j < k && ids[j] == Some(id) { None } else { dfs[j] })
}

/// The container with item `id` taken out of every slot.
pub open spec fn container_without<C: ItemContainer>(c: C, id: u64) -> C {
    c.with_slots(
        ids_without(c.slot_ids(), id, c.slot_ids().len() as int),
        defs_without(c.slot_ids(), c.slot_defs(), id, c.slot_ids().len() as int),
    )
}

/// Takes item `id` out of every slot of the container; whether a slot held it.
pub fn clear_item_from_container<C: ItemContainer>(c: &mut C, id: u64) -> (found: bool)
    ensures
        found == old(c).slot_ids().contains(Some(id)),
        *final(c) == container_without(*old(c), id),
{
    let ghost c0 = *c;
    proof {
        c0.lemma_with_own_slots();
        assert(ids_without(c0.slot_ids(), id, 0) =~= c0.slot_ids());
        assert(defs_without(c0.slot_ids(), c0.slot_defs(), id, 0) =~= c0.slot_defs());
    }
    let n = c.num_slots();
    let mut found = false;
    let mut k: usize = 0;
    while k < n
        invariant
            n == c0.slot_ids().len(),
            n == c0.slot_defs().len(),
            n < 256,
            k <= n,
            *c == c0.with_slots(
                ids_without(c0.slot_ids(), id, k as int),
                defs_without(c0.slot_ids(), c0.slot_defs(), id, k as int),
            ),
            found == exists|j: int| 0 <= j < k && c0.slot_ids()[j] == Some(id),
        decreases n - k,
    {
        let ghost ik = ids_without(c0.slot_ids(), id, k as int);
        let ghost dk = defs_without(c0.slot_ids(), c0.slot_defs(), id, k as int);
        proof {
            c0.lemma_with_slots(ik, dk);
        }
        let ghost ik1 = ids_without(c0.slot_ids(), id, k + 1);
        let ghost dk1 = defs_without(c0.slot_ids(), c0.slot_defs(), id, k + 1);
        if c.get_slot_instance_id(k as u8) == Some(id) {
            c.set_slot(k as u8, None, None);
            proof {
                assert(ik.update(k as int, None) =~= ik1);
                assert(dk.update(k as int, None) =~= dk1);
                c0.lemma_with_slots_twice(ik, dk, ik1, dk1);
            }
            found = true;
        } else {
            proof {
                assert(ik =~= ik1);
                assert(dk =~= dk1);
            }
        }
        k = k + 1;
    }
    proof {
        if found {
            let j = choose|j: int| 0 <= j < n && c0.slot_ids()[j] == Some(id);
            assert(c0.slot_ids().contains(Some(id)));
        }
        if c0.slot_ids().contains(Some(id)) {
            let j = choose|j: int| 0 <= j < c0.slot_ids().len() && c0.slot_ids()[j] == Some(id);
            assert(found);
        }
    }
    found
}

/// Setting a container slot then reading it gives back what was set; every
/// other slot keeps what it held.
pub proof fn law_slot_read_after_write<C: ItemContainer>(
    c: C,
    i: int,
    inst: Option<u64>,
    def: Option<u64>,
)
    requires
        0 <= i < c.slot_ids().len(),
    ensures
        put(c, i, inst, def).slot_ids()[i] == inst,
        put(c, i, inst, def).slot_defs()[i] == def,
        forall|j: int|
            0 <= j < c.slot_ids().len() && j != i ==> #[trigger] put(c, i, inst, def).slot_ids()[j]
                == c.slot_ids()[j] && put(c, i, inst, def).slot_defs()[j] == c.slot_defs()[j],
{
    c.lemma_with_own_slots();
    c.lemma_with_slots(c.slot_ids().update(i, inst), c.slot_defs().update(i, def));
}

/// Taking an item out of a container leaves no slot holding it and every
/// slot that held something else as it was.
pub proof fn law_cleared_item_is_gone<C: ItemContainer>(c: C, id: u64)
    ensures
        !container_without(c, id).slot_ids().contains(Some(id)),
        container_without(c, id).slot_ids().len() == c.slot_ids().len(),
        forall|j: int|
            0 <= j < c.slot_ids().len() && c.slot_ids()[j] != Some(id) ==> #[trigger] container_without(
                c,
                id,
            ).slot_ids()[j] == c.slot_ids()[j] && container_without(c, id).slot_defs()[j]
                == c.slot_defs()[j],
{
    c.lemma_with_own_slots();
    let n = c.slot_ids().len() as int;
    let ids = ids_without(c.slot_ids(), id, n);
    let dfs = defs_without(c.slot_ids(), c.slot_defs(), id, n);
    c.lemma_with_slots(ids, dfs);
    if container_without(c, id).slot_ids().contains(Some(id)) {
        let j = choose|j: int| 0 <= j < ids.len() && ids[j] == Some(id);
        assert(ids[j] == Some(id));
    }
}


/// Every item the container lists that is in the table sits in no player
/// slot.
pub open spec fn container_items_unslotted<C: ItemContainer>(rows: Seq<InventoryItem>, c: C) -> bool {
    forall|k: int|
        0 <= k < c.slot_ids().len() && (#[trigger] c.slot_ids()[k]) is Some && has_id(
            rows,
            c.slot_ids()[k]->0,
        ) ==> !in_player_slots(rows[idx(rows, c.slot_ids()[k]->0)])
}

/// Moving a player's item into a container never leaves two of a player's
/// items in one slot: the item leaves its slot, and an item it trades places
/// with takes exactly the slot it left.
pub proof fn law_move_to_container_keeps_slots_distinct<C: ItemContainer>(
    rows: Seq<InventoryItem>,
    next: u64,
    defs: Seq<ItemDefinition>,
    p: PlayerId,
    c: C,
    target: u8,
    id: u64,
)
    requires
        rows_wf(rows, next),
        slots_distinct(rows),
    ensures
        slots_distinct(move_to_container_outcome(rows, defs, p, c, target, id).0),
{
    reveal(slots_distinct);
    reveal(move_to_container_outcome);
    if has_id(rows, id) {
        let w = choose|w: int| 0 <= w < rows.len() && rows[w].instance_id == id;
        lemma_idx(rows, next, w);
        let i = idx(rows, id);
        let item = rows[i];
        if def_index(defs, item.item_def_id) != -1 && item.player_identity == p && in_player_slots(
            item,
        ) && target < c.slot_ids().len() {
            let def = defs[def_index(defs, item.item_def_id)];
            match c.slot_ids()[target as int] {
                Some(tid) => if has_id(rows, tid) {
                    let v = choose|v: int| 0 <= v < rows.len() && rows[v].instance_id == tid;
                    lemma_idx(rows, next, v);
                    let j = idx(rows, tid);
                    let t_item = rows[j];
                    match merge_result(item, t_item, def) {
                        Ok((_, sq, tq, del)) => {
                            let r1 = rows.update(j, InventoryItem { quantity: tq, ..t_item });
                            assert(same_places(rows, r1));
                            lemma_same_places(rows, r1);
                            if del {
                                lemma_remove_keeps_distinct(r1, i);
                            } else {
                                lemma_unslot_keeps_distinct(
                                    r1,
                                    i,
                                    unslotted(InventoryItem { quantity: sq, ..item }),
                                );
                            }
                        },
                        Err(_) => {
                            let r1 = rows.update(
                                j,
                                InventoryItem {
                                    player_identity: p,
                                    hotbar_slot: item.hotbar_slot,
                                    inventory_slot: item.inventory_slot,
                                    ..t_item
                                },
                            );
                            let r = r1.update(i, unslotted(item));
                            if j == i {
                                lemma_unslot_keeps_distinct(rows, i, unslotted(item));
                                assert(r == rows.update(i, unslotted(item)));
                            } else {
                                assert forall|a: int, b: int|
                                    #![trigger r[a], r[b]]
                                    0 <= a < r.len() && 0 <= b < r.len() && a != b
                                        && r[a].player_identity == r[b].player_identity implies !(
                                    r[a].hotbar_slot is Some && r[a].hotbar_slot == r[b].hotbar_slot)
                                    && !(r[a].inventory_slot is Some && r[a].inventory_slot
                                    == r[b].inventory_slot) by {
                                    if a != i && b != i {
                                        let a0 = if a == j { i } else { a };
                                        let b0 = if b == j { i } else { b };
                                        assert(rows[a0] == rows[a0] && rows[b0] == rows[b0]);
                                    }
                                }
                            }
                        },
                    }
                },
                None => {
                    lemma_unslot_keeps_distinct(rows, i, unslotted(item));
                },
            }
        }
    }
}

/// Moving a container's item into a slot of `p` never leaves two of a
/// player's items in one slot, when the container's items sit in no player
/// slot.
pub proof fn law_move_from_container_keeps_slots_distinct<C: ItemContainer>(
    rows: Seq<InventoryItem>,
    next: u64,
    defs: Seq<ItemDefinition>,
    equip: Option<ActiveEquipment>,
    p: PlayerId,
    c: C,
    src: u8,
    kind: Option<SlotKind>,
    slot: u32,
)
    requires
        rows_wf(rows, next),
        slots_distinct(rows),
        container_items_unslotted(rows, c),
    ensures
        slots_distinct(move_from_container_outcome(rows, defs, equip, p, c, src, kind, slot).0),
{
    if src < c.slot_ids().len() && c.slot_ids()[src as int] is Some && kind is Some {
        let sid = c.slot_ids()[src as int]->0;
        assert(c.slot_ids()[src as int] is Some);
        law_move_keeps_slots_distinct(rows, next, defs, equip, p, sid, kind->0, slot);
    }
}

/// The rows after `q` items of row `i` were split off into a new stack
/// with id `next` that sits in no player slot.
pub open spec fn split_off(rows: Seq<InventoryItem>, next: u64, i: int, q: u32) -> Seq<InventoryItem> {
    let item = rows[i];
    rows.update(i, InventoryItem { quantity: (item.quantity - q) as u32, ..item }).push(
        InventoryItem { instance_id: next, quantity: q, hotbar_slot: None, inventory_slot: None, ..item },
    )
}

/// Splitting off a new stack keeps the table well formed and slots
/// distinct; the new stack is the last row.
pub proof fn lemma_split_off(rows: Seq<InventoryItem>, next: u64, i: int, q: u32)
    requires
        rows_wf(rows, next),
        next < u64::MAX,
        0 <= i < rows.len(),
    ensures
        rows_wf(split_off(rows, next, i, q), (next + 1) as u64),
        slots_distinct(rows) ==> slots_distinct(split_off(rows, next, i, q)),
        has_id(split_off(rows, next, i, q), next),
        idx(split_off(rows, next, i, q), next) == rows.len(),
{
    reveal(slots_distinct);
    let item = rows[i];
    let r0 = rows.update(i, InventoryItem { quantity: (item.quantity - q) as u32, ..item });
    let rows1 = split_off(rows, next, i, q);
    assert(rows1 == r0.push(
        InventoryItem { instance_id: next, quantity: q, hotbar_slot: None, inventory_slot: None, ..item },
    ));
    if slots_distinct(rows) {
        assert(same_places(rows, r0));
        lemma_same_places(rows, r0);
        assert forall|a: int, b: int|
            #![trigger rows1[a], rows1[b]]
            0 <= a < rows1.len() && 0 <= b < rows1.len() && a != b && rows1[a].player_identity
                == rows1[b].player_identity implies !(rows1[a].hotbar_slot is Some && rows1[a].hotbar_slot
            == rows1[b].hotbar_slot) && !(rows1[a].inventory_slot is Some && rows1[a].inventory_slot
            == rows1[b].inventory_slot) by {
            if a < r0.len() && b < r0.len() {
                assert(rows1[a] == r0[a] && rows1[b] == r0[b]);
            }
        }
    }
    assert forall|a: int, b: int|
        0 <= a < rows1.len() && 0 <= b < rows1.len() && a != b implies rows1[a].instance_id
        != rows1[b].instance_id by {
        if a < r0.len() && b < r0.len() {
            assert(rows[a] == rows[a] && rows[b] == rows[b]);
        } else if a < r0.len() {
            assert(rows[a] == rows[a]);
        } else if b < r0.len() {
            assert(rows[b] == rows[b]);
        }
    }
    assert forall|a: int| 0 <= a < rows1.len() implies single_location(#[trigger] rows1[a]) by {
        if a < r0.len() {
            assert(single_location(rows[a]));
        }
    }
    lemma_idx(rows1, (next + 1) as u64, r0.len() as int);
}

/// Splitting a container's stack into a slot of `p` never leaves two of a
/// player's items in one slot.
pub proof fn law_split_from_container_keeps_slots_distinct<C: ItemContainer>(
    rows: Seq<InventoryItem>,
    next: u64,
    defs: Seq<ItemDefinition>,
    equip: Option<ActiveEquipment>,
    p: PlayerId,
    c: C,
    src: u8,
    q: u32,
    kind: Option<SlotKind>,
    slot: u32,
)
    requires
        rows_wf(rows, next),
        next < u64::MAX,
        slots_distinct(rows),
    ensures
        slots_distinct(split_from_container_outcome(rows, next, defs, equip, p, c, src, q, kind, slot).0),
{
    if src < c.slot_ids().len() && c.slot_ids()[src as int] is Some && c.slot_defs()[src as int] is Some
        && kind is Some {
        let sid = c.slot_ids()[src as int]->0;
        if has_id(rows, sid) {
            let w = choose|w: int| 0 <= w < rows.len() && rows[w].instance_id == sid;
            lemma_idx(rows, next, w);
            let i = idx(rows, sid);
            lemma_split_off(rows, next, i, q);
            let rows1 = split_off(rows, next, i, q);
            law_move_keeps_slots_distinct(rows1, (next + 1) as u64, defs, equip, p, next, kind->0, slot);
        }
    }
}

/// Moving a container slot's items to a player adds them as an addition
/// would, so no two of a player's items end up in one slot.
pub proof fn law_quick_move_from_container_keeps_slots_distinct<C: ItemContainer>(
    rows: Seq<InventoryItem>,
    next: u64,
    defs: Seq<ItemDefinition>,
    p: PlayerId,
    c: C,
    src: u8,
)
    requires
        slots_distinct(rows),
    ensures
        slots_distinct(quick_move_from_container_outcome(rows, next, defs, p, c, src).0),
{
    if src < c.slot_ids().len() && c.slot_ids()[src as int] is Some && c.slot_defs()[src as int] is Some {
        let sid = c.slot_ids()[src as int]->0;
        let sdef = c.slot_defs()[src as int]->0;
        if has_id(rows, sid) {
            let q = rows[idx(rows, sid)].quantity;
            law_add_item_keeps_slots_distinct(rows, next, defs, p, sdef, q);
            lemma_idx_in_range(rows, sid);
            lemma_add_item_keeps_rows(rows, next, defs, p, sdef, q);
            let r2 = add_item_outcome(rows, next, defs, p, sdef, q).0;
            lemma_remove_keeps_distinct(r2, idx(rows, sid));
        }
    }
}

/// Quick-moving a stack of a stackable kind out of a container moves it: on
/// success the player holds that many more of its kind and the stack's own
/// row is gone from the table.
pub proof fn law_quick_move_from_container_moves<C: ItemContainer>(
    rows: Seq<InventoryItem>,
    next: u64,
    defs: Seq<ItemDefinition>,
    p: PlayerId,
    c: C,
    src: u8,
)
    requires
        rows_wf(rows, next),
        next + MAX_NEW_STACKS <= u64::MAX,
        quick_move_from_container_outcome(rows, next, defs, p, c, src).3 is Ok,
    ensures
        ({
            let sid = c.slot_ids()[src as int]->0;
            let sdef = c.slot_defs()[src as int]->0;
            let item = rows[idx(rows, sid)];
            let r = quick_move_from_container_outcome(rows, next, defs, p, c, src).0;
            &&& has_id(rows, sid)
            &&& !has_id(r, sid)
            &&& !in_player_slots(item) && defs[def_index(defs, sdef)].is_stackable ==> qty_of(r, p, sdef)
                == qty_of(rows, p, sdef) + item.quantity
        }),
{
    let sid = c.slot_ids()[src as int]->0;
    let sdef = c.slot_defs()[src as int]->0;
    lemma_idx_in_range(rows, sid);
    let i = idx(rows, sid);
    let q = rows[i].quantity;
    lemma_add_item_keeps_rows(rows, next, defs, p, sdef, q);
    let r2 = add_item_outcome(rows, next, defs, p, sdef, q).0;
    let r = r2.remove(i);
    assert forall|k: int| 0 <= k < r.len() implies (#[trigger] r[k]).instance_id != sid by {
        let k0 = if k < i { k } else { k + 1 };
        assert(r[k] == r2[k0]);
        if k0 < rows.len() {
            assert(r2[k0].instance_id == rows[k0].instance_id);
        } else {
            assert(r2[k0].instance_id >= next);
        }
    }
    if !in_player_slots(rows[i]) && defs[def_index(defs, sdef)].is_stackable {
        assert(def_index(defs, sdef) != -1) by {
            reveal(add_item_outcome);
        }
        law_add_item_adds_quantity(rows, next, defs, p, sdef, q);
        assert(r2[i] == rows[i]);
        lemma_qty_remove(r2, i, p, sdef);
    }
}



/// Rows that keep their ids and places, one for one.
pub open spec fn same_shape(a: Seq<InventoryItem>, b: Seq<InventoryItem>) -> bool {
    &&& same_places(a, b)
    &&& forall|k: int| 0 <= k < a.len() ==> (#[trigger] b[k]).instance_id == a[k].instance_id
}

proof fn lemma_merge_step_shape<C: ItemContainer>(
    r: Seq<InventoryItem>,
    q: u32,
    op: bool,
    c: C,
    def: ItemDefinition,
    item: InventoryItem,
    k: int,
)
    requires
        0 <= k < c.slot_ids().len(),
    ensures
        merge_step(r, q, op, c, def, item, k) matches Ok(out) ==> out.3 || same_shape(r, out.0),
{
    match c.slot_ids()[k] {
        Some(tid) => if c.slot_defs()[k] == Some(def.id) && has_id(r, tid) {
            lemma_idx_in_range(r, tid);
            let j = idx(r, tid);
            match merge_result(InventoryItem { quantity: q, ..item }, r[j], def) {
                Ok((moved, sq, tq, del)) => if moved > 0 && !del {
                    let r1 = r.update(j, InventoryItem { quantity: tq, ..r[j] });
                    assert(same_shape(r, r1));
                },
                Err(_) => {},
            }
        },
        None => {},
    }
}

/// Until the moving stack is used up, merging it onto container stacks keeps
/// every row's id and place.
proof fn lemma_merge_pass_shape<C: ItemContainer>(
    rows: Seq<InventoryItem>,
    c: C,
    def: ItemDefinition,
    item: InventoryItem,
    n: nat,
)
    ensures
        quick_merge_pass(rows, c, def, item, n) matches Ok(out) ==> out.3 || same_shape(rows, out.0),
    decreases n,
{
    if n > 0 {
        lemma_merge_pass_shape(rows, c, def, item, (n - 1) as nat);
        match quick_merge_pass(rows, c, def, item, (n - 1) as nat) {
            Ok((r, q, op, done)) => if !done && n - 1 < c.slot_ids().len() {
                lemma_merge_step_shape(r, q, op, c, def, item, n - 1);
                match merge_step(r, q, op, c, def, item, n - 1) {
                    Ok(out) => if !out.3 {
                        assert(same_shape(rows, out.0)) by {
                            assert forall|k: int| 0 <= k < rows.len() implies (#[trigger] out.0[k]).instance_id
                                == rows[k].instance_id && out.0[k].player_identity == rows[k].player_identity
                                && out.0[k].hotbar_slot == rows[k].hotbar_slot && out.0[k].inventory_slot
                                == rows[k].inventory_slot by {
                                assert(r[k] == r[k]);
                            }
                        }
                    },
                    Err(_) => {},
                }
            },
            Err(_) => {},
        }
    } else {
        assert(same_shape(rows, rows));
    }
}

#[verifier::rlimit(40)]
proof fn lemma_merge_step_keeps_distinct<C: ItemContainer>(
    r: Seq<InventoryItem>,
    q: u32,
    op: bool,
    c: C,
    def: ItemDefinition,
    item: InventoryItem,
    k: int,
)
    requires
        slots_distinct(r),
        0 <= k < c.slot_ids().len(),
    ensures
        merge_step(r, q, op, c, def, item, k) matches Ok(out) ==> slots_distinct(out.0),
{
    match c.slot_ids()[k] {
        Some(tid) => if c.slot_defs()[k] == Some(def.id) && has_id(r, tid) {
            lemma_idx_in_range(r, tid);
            let j = idx(r, tid);
            match merge_result(InventoryItem { quantity: q, ..item }, r[j], def) {
                Ok((moved, sq, tq, del)) => if moved > 0 {
                    let r1 = r.update(j, InventoryItem { quantity: tq, ..r[j] });
                    assert(same_places(r, r1));
                    lemma_same_places(r, r1);
                    if del && has_id(r1, item.instance_id) {
                        lemma_idx_in_range(r1, item.instance_id);
                        lemma_remove_keeps_distinct(r1, idx(r1, item.instance_id));
                    }
                },
                Err(_) => {},
            }
        },
        None => {},
    }
}

proof fn lemma_merge_pass_keeps_distinct<C: ItemContainer>(
    rows: Seq<InventoryItem>,
    c: C,
    def: ItemDefinition,
    item: InventoryItem,
    n: nat,
)
    requires
        slots_distinct(rows),
    ensures
        quick_merge_pass(rows, c, def, item, n) matches Ok(out) ==> slots_distinct(out.0),
    decreases n,
{
    if n > 0 {
        lemma_merge_pass_keeps_distinct(rows, c, def, item, (n - 1) as nat);
        match quick_merge_pass(rows, c, def, item, (n - 1) as nat) {
            Ok((r, q, op, done)) => if !done && n - 1 < c.slot_ids().len() {
                lemma_merge_step_keeps_distinct(r, q, op, c, def, item, n - 1);
            },
            Err(_) => {},
        }
    }
}

/// Moving a player's item into the first fitting container slots only
/// changes quantities, deletes the used-up stack or takes it out of its
/// slot, so no two of a player's items end up in one slot.
#[verifier::spinoff_prover]
#[verifier::rlimit(80)]
pub proof fn law_quick_move_to_container_keeps_slots_distinct<C: ItemContainer>(
    rows: Seq<InventoryItem>,
    defs: Seq<ItemDefinition>,
    p: PlayerId,
    c: C,
    id: u64,
)
    requires
        slots_distinct(rows),
    ensures
        slots_distinct(quick_move_to_container_outcome(rows, defs, p, c, id).0),
{
    let out = quick_move_to_container_outcome(rows, defs, p, c, id);
    if has_id(rows, id) {
        let item = rows[idx(rows, id)];
        if def_index(defs, item.item_def_id) != -1 && item.player_identity == p && in_player_slots(
            item,
        ) {
            let def = defs[def_index(defs, item.item_def_id)];
            let pass = if def.is_stackable {
                quick_merge_pass(rows, c, def, item, c.slot_ids().len())
            } else {
                Ok((rows, item.quantity, false, false))
            };
            lemma_merge_pass_keeps_distinct(rows, c, def, item, c.slot_ids().len());
            assert(pass matches Ok(o) ==> slots_distinct(o.0));
            lemma_merge_pass_shape(rows, c, def, item, c.slot_ids().len());
            match pass {
                Ok((r, q, op, done)) => {
                    if !(done || q == 0) && first_empty(c.slot_ids()) != -1 && has_id(r, id) {
                        lemma_idx_in_range(r, id);
                        lemma_unslot_keeps_distinct(
                            r,
                            idx(r, id),
                            unslotted(InventoryItem { quantity: q, ..item }),
                        );
                    }
                    if !(done || q == 0) && first_empty(c.slot_ids()) == -1 && op {
                        lemma_idx_in_range(rows, id);
                        let r2 = r.update(idx(rows, id), InventoryItem { quantity: q, ..item });
                        assert(same_places(r, r2));
                        lemma_same_places(r, r2);
                    }
                },
                Err(_) => {},
            }
        }
    }
}


/// Moving between two slots of a container only changes quantities or
/// deletes a used-up stack, so no two of a player's items end up in one
/// slot.
#[verifier::spinoff_prover]
#[verifier::rlimit(60)]
pub proof fn law_move_within_container_keeps_slots_distinct<C: ItemContainer>(
    rows: Seq<InventoryItem>,
    defs: Seq<ItemDefinition>,
    c: C,
    src: u8,
    tgt: u8,
)
    requires
        slots_distinct(rows),
    ensures
        slots_distinct(move_within_container_outcome(rows, defs, c, src, tgt).0),
{
    let ids = c.slot_ids();
    let dfs = c.slot_defs();
    if src < ids.len() && tgt < ids.len() && src != tgt && ids[src as int] is Some && dfs[src as int] is Some
        && ids[tgt as int] is Some {
        let sid = ids[src as int]->0;
        let tid = ids[tgt as int]->0;
        let sdef = dfs[src as int]->0;
        if has_id(rows, sid) && has_id(rows, tid) && def_index(defs, sdef) != -1 {
            lemma_idx_in_range(rows, sid);
            lemma_idx_in_range(rows, tid);
            let i = idx(rows, sid);
            let j = idx(rows, tid);
            let def = defs[def_index(defs, sdef)];
            match merge_result(rows[i], rows[j], def) {
                Ok((_, sq, tq, del)) => {
                    let r1 = rows.update(j, InventoryItem { quantity: tq, ..rows[j] });
                    assert(same_places(rows, r1));
                    lemma_same_places(rows, r1);
                    if del {
                        lemma_remove_keeps_distinct(r1, i);
                    } else {
                        let r2 = r1.update(i, InventoryItem { quantity: sq, ..rows[i] });
                        assert(same_places(r1, r2));
                        lemma_same_places(r1, r2);
                    }
                },
                Err(_) => {},
            }
        }
    }
}

/// Splitting a stack into a container slot only lowers the source's
/// quantity and adds a stack that sits in no player slot (or merges it onto
/// the container's stack), so no two of a player's items end up in one
/// slot.
#[verifier::spinoff_prover]
#[verifier::rlimit(60)]
pub proof fn law_split_into_container_keeps_slots_distinct<C: ItemContainer>(
    rows: Seq<InventoryItem>,
    next: u64,
    defs: Seq<ItemDefinition>,
    c: C,
    tgt: u8,
    i: int,
    q: u32,
)
    requires
        slots_distinct(rows),
        0 <= i < rows.len(),
    ensures
        slots_distinct(split_into_container_outcome(rows, next, defs, c, tgt, i, q).0),
{
    reveal(split_into_container_outcome);
    let src = rows[i];
    if tgt < c.slot_ids().len() && 0 < q < src.quantity && def_index(defs, src.item_def_id) != -1 {
        let def = defs[def_index(defs, src.item_def_id)];
        let new_item = InventoryItem {
            instance_id: next,
            quantity: q,
            hotbar_slot: None,
            inventory_slot: None,
            ..src
        };
        let r0 = rows.update(i, InventoryItem { quantity: (src.quantity - q) as u32, ..src });
        assert(same_places(rows, r0));
        lemma_same_places(rows, r0);
        let rows1 = r0.push(new_item);
        lemma_push_keeps_distinct(r0, new_item);
        match c.slot_ids()[tgt as int] {
            Some(tid) => if has_id(rows1, tid) {
                lemma_idx_in_range(rows1, tid);
                let j = idx(rows1, tid);
                match merge_result(new_item, rows1[j], def) {
                    Ok((_, _, t, del)) => {
                        let rows2 = rows1.update(j, InventoryItem { quantity: t, ..rows1[j] });
                        assert(same_places(rows1, rows2));
                        lemma_same_places(rows1, rows2);
                        if del {
                            assert(rows2[rows2.len() - 1].instance_id == next);
                            assert(has_id(rows2, next));
                            lemma_idx_in_range(rows2, next);
                            lemma_remove_keeps_distinct(rows2, idx(rows2, next));
                        }
                    },
                    Err(_) => {},
                }
            },
            None => {},
        }
    }
}

/// Splitting between two slots of a container keeps slots distinct, as a
/// split into a container slot does.
pub proof fn law_split_within_container_keeps_slots_distinct<C: ItemContainer>(
    rows: Seq<InventoryItem>,
    next: u64,
    defs: Seq<ItemDefinition>,
    c: C,
    src: u8,
    tgt: u8,
    q: u32,
)
    requires
        slots_distinct(rows),
    ensures
        slots_distinct(split_within_container_outcome(rows, next, defs, c, src, tgt, q).0),
{
    let ids = c.slot_ids();
    if src < ids.len() && tgt < ids.len() && src != tgt && ids[src as int] is Some {
        let sid = ids[src as int]->0;
        if has_id(rows, sid) {
            lemma_idx_in_range(rows, sid);
            law_split_into_container_keeps_slots_distinct(rows, next, defs, c, tgt, idx(rows, sid), q);
        }
    }
}


/// How many items of kind `d` the row holds, wherever it is.
pub open spec fn kind_amount(item: InventoryItem, d: u64) -> int {
    if item.item_def_id == d {
        item.quantity as int
    } else {
        0
    }
}

/// The number of items of kind `d` in the whole table: in players' slots,
/// in containers and anywhere else.
pub open spec fn kind_total(rows: Seq<InventoryItem>, d: u64) -> int
    decreases rows.len(),
{
    if rows.len() == 0 {
        0
    } else {
        kind_total(rows.drop_last(), d) + kind_amount(rows.last(), d)
    }
}

pub proof fn lemma_kind_total_update(rows: Seq<InventoryItem>, i: int, x: InventoryItem, d: u64)
    requires
        0 <= i < rows.len(),
    ensures
        kind_total(rows.update(i, x), d) == kind_total(rows, d) - kind_amount(rows[i], d)
            + kind_amount(x, d),
    decreases rows.len(),
{
    if i == rows.len() - 1 {
        assert(rows.update(i, x).drop_last() =~= rows.drop_last());
    } else {
        lemma_kind_total_update(rows.drop_last(), i, x, d);
        assert(rows.update(i, x).drop_last() =~= rows.drop_last().update(i, x));
    }
}

pub proof fn lemma_kind_total_remove(rows: Seq<InventoryItem>, i: int, d: u64)
    requires
        0 <= i < rows.len(),
    ensures
        kind_total(rows.remove(i), d) == kind_total(rows, d) - kind_amount(rows[i], d),
    decreases rows.len(),
{
    if i == rows.len() - 1 {
        assert(rows.remove(i) =~= rows.drop_last());
    } else {
        lemma_kind_total_remove(rows.drop_last(), i, d);
        assert(rows.remove(i).drop_last() =~= rows.drop_last().remove(i));
    }
}

/// In rows with the ids of a table whose ids are unique, the row with the
/// id of the table's row `i` is at `i`.
proof fn lemma_same_ids_idx(rows: Seq<InventoryItem>, next: u64, r: Seq<InventoryItem>, i: int)
    requires
        rows_wf(rows, next),
        0 <= i < rows.len(),
        r.len() == rows.len(),
        forall|k: int| 0 <= k < rows.len() ==> (#[trigger] r[k]).instance_id == rows[k].instance_id,
    ensures
        has_id(r, rows[i].instance_id),
        idx(r, rows[i].instance_id) == i,
{
    let id = rows[i].instance_id;
    assert(r[i].instance_id == id);
    lemma_idx_in_range(r, id);
    let j = idx(r, id);
    assert(rows[j].instance_id == id);
}

/// Along the merge pass, what has left the moving stack is exactly what its
/// kind's stacks in the container gained; while the stack is not used up its
/// own row is untouched, and once it is used up its row is gone.
proof fn lemma_merge_pass_total<C: ItemContainer>(
    rows: Seq<InventoryItem>,
    next: u64,
    c: C,
    def: ItemDefinition,
    i: int,
    n: nat,
)
    requires
        rows_wf(rows, next),
        0 <= i < rows.len(),
        !c.slot_ids().contains(Some(rows[i].instance_id)),
    ensures
        ({
            let item = rows[i];
            let d = item.item_def_id;
            quick_merge_pass(rows, c, def, item, n) matches Ok((r, q, op, done)) ==> (if done {
                kind_total(r, d) == kind_total(rows, d)
            } else {
                &&& kind_total(r, d) + q == kind_total(rows, d) + item.quantity
                &&& q > 0 || q == item.quantity
                &&& r.len() == rows.len()
                &&& r[i] == item
                &&& forall|k: int| 0 <= k < rows.len() ==> (#[trigger] r[k]).instance_id == rows[k].instance_id
            })
        }),
    decreases n,
{
    let item = rows[i];
    let d = item.item_def_id;
    if n > 0 {
        lemma_merge_pass_total(rows, next, c, def, i, (n - 1) as nat);
        match quick_merge_pass(rows, c, def, item, (n - 1) as nat) {
            Ok((r, q, op, done)) => if !done && n - 1 < c.slot_ids().len() {
                let k = n - 1;
                match c.slot_ids()[k] {
                    Some(tid) => if c.slot_defs()[k] == Some(def.id) && has_id(r, tid) {
                        assert(c.slot_ids()[k] != Some(item.instance_id));
                        lemma_idx_in_range(r, tid);
                        let j = idx(r, tid);
                        assert(j != i);
                        match merge_result(InventoryItem { quantity: q, ..item }, r[j], def) {
                            Ok((moved, s, t, del)) => if moved > 0 {
                                let r1 = r.update(j, InventoryItem { quantity: t, ..r[j] });
                                lemma_kind_total_update(r, j, InventoryItem { quantity: t, ..r[j] }, d);
                                if del {
                                    lemma_same_ids_idx(rows, next, r1, i);
                                    lemma_kind_total_remove(r1, i, d);
                                }
                            },
                            Err(_) => {},
                        }
                    },
                    None => {},
                }
            },
            Err(_) => {},
        }
    }
}

/// Quick-moving a stack into a container neither makes nor loses items: on
/// success the table holds as many items of the stack's kind as before. What
/// merged onto the container's stacks left the moving stack, and the rest
/// either went into the container with it or stayed in its slot.
#[verifier::rlimit(40)]
pub proof fn law_quick_move_to_container_conserves<C: ItemContainer>(
    rows: Seq<InventoryItem>,
    next: u64,
    defs: Seq<ItemDefinition>,
    p: PlayerId,
    c: C,
    id: u64,
)
    requires
        rows_wf(rows, next),
        !c.slot_ids().contains(Some(id)),
        quick_move_to_container_outcome(rows, defs, p, c, id).2 is Ok,
    ensures
        kind_total(quick_move_to_container_outcome(rows, defs, p, c, id).0, rows[idx(rows, id)].item_def_id)
            == kind_total(rows, rows[idx(rows, id)].item_def_id),
{
    lemma_idx_in_range(rows, id);
    let i = idx(rows, id);
    let item = rows[i];
    let d = item.item_def_id;
    let def = defs[def_index(defs, d)];
    if def.is_stackable {
        lemma_merge_pass_total(rows, next, c, def, i, c.slot_ids().len());
    }
    let pass = if def.is_stackable {
        quick_merge_pass(rows, c, def, item, c.slot_ids().len())
    } else {
        Ok((rows, item.quantity, false, false))
    };
    match pass {
        Ok((r, q, op, done)) => {
            if !(done || q == 0) {
                if first_empty(c.slot_ids()) == -1 {
                    lemma_kind_total_update(r, i, InventoryItem { quantity: q, ..item }, d);
                } else {
                    lemma_same_ids_idx(rows, next, r, i);
                    lemma_kind_total_update(r, i, unslotted(InventoryItem { quantity: q, ..item }), d);
                }
            }
        },
        Err(_) => {},
    }
}


/// Whether some slot of the container holds item `x`.
pub open spec fn holds_item<C: ItemContainer>(c: C, x: u64) -> bool {
    exists|k: int| 0 <= k < c.slot_ids().len() && c.slot_ids()[k] == Some(x)
}

/// No item sits in two slots of the container.
pub open spec fn slots_hold_distinct_items<C: ItemContainer>(c: C) -> bool {
    forall|a: int, b: int|
        0 <= a < c.slot_ids().len() && 0 <= b < c.slot_ids().len() && a != b && c.slot_ids()[a] is Some
            ==> c.slot_ids()[a] != c.slot_ids()[b]
}

/// Moving between two slots of a container moves items; it neither loses
/// nor invents any. Every item a slot held before is held by a slot after,
/// unless a merge used its stack up and deleted it; every item a slot holds
/// after was held before; the container keeps its number of slots.
pub proof fn law_move_within_container_keeps_items<C: ItemContainer>(
    rows: Seq<InventoryItem>,
    next: u64,
    defs: Seq<ItemDefinition>,
    c: C,
    src: u8,
    tgt: u8,
)
    requires
        rows_wf(rows, next),
    ensures
        ({
            let (r, c2, res) = move_within_container_outcome(rows, defs, c, src, tgt);
            &&& c2.slot_ids().len() == c.slot_ids().len()
            &&& forall|x: u64| #[trigger] holds_item(c, x) ==> holds_item(c2, x) || !has_id(r, x)
            &&& forall|x: u64| #[trigger] holds_item(c2, x) ==> holds_item(c, x)
        }),
{
    c.lemma_with_own_slots();
    let ids = c.slot_ids();
    let dfs = c.slot_defs();
    let (r, c2, res) = move_within_container_outcome(rows, defs, c, src, tgt);
    if src < ids.len() && tgt < ids.len() && src != tgt && ids[src as int] is Some && dfs[src as int] is Some
        && has_id(rows, ids[src as int]->0) {
        let sid = ids[src as int]->0;
        let sdef = dfs[src as int]->0;
        let s = src as int;
        let t = tgt as int;
        match ids[t] {
            None => {
                let ids2 = ids.update(t, Some(sid)).update(s, None);
                c.lemma_with_slots(ids2, dfs.update(t, Some(sdef)).update(s, None));
                assert forall|x: u64| #[trigger] holds_item(c, x) implies holds_item(c2, x) by {
                    let k = choose|k: int| 0 <= k < ids.len() && ids[k] == Some(x);
                    if k == s {
                        assert(ids2[t] == Some(x));
                    } else {
                        assert(ids2[k] == Some(x));
                    }
                }
                assert forall|x: u64| #[trigger] holds_item(c2, x) implies holds_item(c, x) by {
                    let k = choose|k: int| 0 <= k < ids2.len() && ids2[k] == Some(x);
                    if k == t {
                        assert(ids[s] == Some(x));
                    } else {
                        assert(ids[k] == Some(x));
                    }
                }
            },
            Some(tid) => if has_id(rows, tid) && def_index(defs, sdef) != -1 {
                lemma_idx_in_range(rows, sid);
                lemma_idx_in_range(rows, tid);
                let i = idx(rows, sid);
                let j = idx(rows, tid);
                let def = defs[def_index(defs, sdef)];
                match merge_result(rows[i], rows[j], def) {
                    Ok((_, sq, tq, del)) => {
                        if del {
                            let ids2 = ids.update(s, None);
                            c.lemma_with_slots(ids2, dfs.update(s, None));
                            let r1 = rows.update(j, InventoryItem { quantity: tq, ..rows[j] });
                            assert forall|k: int| 0 <= k < r.len() implies (#[trigger] r[k]).instance_id
                                != sid by {
                                let k0 = if k < i { k } else { k + 1 };
                                assert(r[k] == r1[k0]);
                                assert(r1[k0].instance_id == rows[k0].instance_id);
                            }
                            assert forall|x: u64| #[trigger] holds_item(c, x) implies holds_item(c2, x)
                                || !has_id(r, x) by {
                                let k = choose|k: int| 0 <= k < ids.len() && ids[k] == Some(x);
                                if k != s {
                                    assert(ids2[k] == Some(x));
                                }
                            }
                            assert forall|x: u64| #[trigger] holds_item(c2, x) implies holds_item(c, x) by {
                                let k = choose|k: int| 0 <= k < ids2.len() && ids2[k] == Some(x);
                                assert(ids[k] == Some(x));
                            }
                        }
                    },
                    Err(_) => {
                        let ids2 = ids.update(t, Some(sid)).update(s, ids[t]);
                        c.lemma_with_slots(ids2, dfs.update(t, Some(sdef)).update(s, dfs[t]));
                        assert forall|x: u64| #[trigger] holds_item(c, x) implies holds_item(c2, x) by {
                            let k = choose|k: int| 0 <= k < ids.len() && ids[k] == Some(x);
                            if k == s {
                                assert(ids2[t] == Some(x));
                            } else if k == t {
                                assert(ids2[s] == Some(x));
                            } else {
                                assert(ids2[k] == Some(x));
                            }
                        }
                        assert forall|x: u64| #[trigger] holds_item(c2, x) implies holds_item(c, x) by {
                            let k = choose|k: int| 0 <= k < ids2.len() && ids2[k] == Some(x);
                            if k == t {
                                assert(ids[s] == Some(x));
                            } else if k == s {
                                assert(ids[t] == Some(x));
                            } else {
                                assert(ids[k] == Some(x));
                            }
                        }
                    },
                }
            },
        }
    }
}

/// Moving between two slots of a container neither makes nor loses items:
/// for every kind the table holds as many items as before (a merge only
/// shifts items from one stack to the other).
pub proof fn law_move_within_container_conserves<C: ItemContainer>(
    rows: Seq<InventoryItem>,
    next: u64,
    defs: Seq<ItemDefinition>,
    c: C,
    src: u8,
    tgt: u8,
    d: u64,
)
    requires
        rows_wf(rows, next),
        slots_hold_distinct_items(c),
    ensures
        kind_total(move_within_container_outcome(rows, defs, c, src, tgt).0, d) == kind_total(rows, d),
{
    let ids = c.slot_ids();
    let dfs = c.slot_defs();
    if src < ids.len() && tgt < ids.len() && src != tgt && ids[src as int] is Some && dfs[src as int] is Some
        && has_id(rows, ids[src as int]->0) {
        let sid = ids[src as int]->0;
        let sdef = dfs[src as int]->0;
        match ids[tgt as int] {
            Some(tid) => if has_id(rows, tid) && def_index(defs, sdef) != -1 {
                lemma_idx_in_range(rows, sid);
                lemma_idx_in_range(rows, tid);
                let i = idx(rows, sid);
                let j = idx(rows, tid);
                assert(sid != tid);
                assert(i != j);
                let def = defs[def_index(defs, sdef)];
                match merge_result(rows[i], rows[j], def) {
                    Ok((_, sq, tq, del)) => {
                        let r1 = rows.update(j, InventoryItem { quantity: tq, ..rows[j] });
                        lemma_kind_total_update(rows, j, InventoryItem { quantity: tq, ..rows[j] }, d);
                        if del {
                            lemma_kind_total_remove(r1, i, d);
                        } else {
                            lemma_kind_total_update(r1, i, InventoryItem { quantity: sq, ..rows[i] }, d);
                        }
                    },
                    Err(_) => {},
                }
            },
            None => {},
        }
    }
}

} // verus!
