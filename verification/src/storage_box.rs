use vstd::prelude::*;
use crate::types::{PlayerId, InventoryItem, ItemDefinition, def_index_by_name, find_def_by_name};
use crate::store::{ItemStore, has_id, idx, slots_distinct, lemma_idx_in_range, lemma_remove_keeps_distinct};
use crate::stacking::{add_item_outcome, add_item_to_player_inventory, law_add_item_keeps_slots_distinct, MAX_NEW_STACKS};
use crate::player_inventory::slot_type_of;
use crate::equipment::ActiveEquipment;
use crate::container::{Campfire, ItemContainer, WoodenStorageBox, NUM_BOX_SLOTS};
use crate::container_ops::{
    all_empty, is_container_empty, move_to_container_outcome, handle_move_to_container_slot,
    move_from_container_outcome, handle_move_from_container_slot, move_within_container_outcome,
    handle_move_within_container, split_into_container_outcome, handle_split_into_container,
    split_from_container_outcome, handle_split_from_container, split_within_container_outcome,
    handle_split_within_container, quick_move_from_container_outcome,
    handle_quick_move_from_container, quick_move_to_container_outcome,
    handle_quick_move_to_container, container_without, clear_item_from_container,
};
use crate::campfire::{
    placeable_check, check_placeable, clear_from_campfires_outcome,
    clear_item_from_campfire_fuel_slots,
};
use crate::errors::GameError;

verus! {

/// Places a storage box from the caller's "Wooden Storage Box" item. The
/// item checks come first; `reach` (player found and close enough to the
/// spot) is checked after them. The item is used up and an empty box placed
/// by the caller is returned for insertion (its id is assigned on insertion).
pub fn place_wooden_storage_box(
    store: &mut ItemStore,
    defs: &Vec<ItemDefinition>,
    p: PlayerId,
    item_instance_id: u64,
    reach: Result<(), GameError>,
) -> (r: Result<WoodenStorageBox, GameError>)
    requires
        old(store).wf(),
    ensures
        final(store).wf(),
        final(store).next_id() == old(store).next_id(),
        match placeable_check(old(store).rows(), defs@, p, item_instance_id, "Wooden Storage Box"@) {
            Err(e) => r == Err::<WoodenStorageBox, GameError>(e) && final(store).rows() == old(
                store,
            ).rows(),
            Ok(i) => match reach {
                Err(e) => r == Err::<WoodenStorageBox, GameError>(e) && final(store).rows()
                    == old(store).rows(),
                Ok(_) => final(store).rows() == old(store).rows().remove(i) && (r matches Ok(b)
                    && b.id == 0 && b.placed_by == p && b.slot_ids() == Seq::new(
                    NUM_BOX_SLOTS as nat,
                    |k: int| None::<u64>,
                ) && b.slot_defs() == Seq::new(NUM_BOX_SLOTS as nat, |k: int| None::<u64>)),
            },
        },
{
    let ghost rows0 = store.rows();
    let box_name = String::from_str("Wooden Storage Box");
    let i = match check_placeable(store, defs, p, item_instance_id, &box_name) {
        Ok(i) => i,
        Err(e) => {
            return Err(e);
        },
    };
    proof {
        match placeable_check(rows0, defs@, p, item_instance_id, "Wooden Storage Box"@) {
            Ok(j) => {
                assert(j == i as int);
            },
            Err(_) => {},
        }
    }
    if let Err(e) = reach {
        return Err(e);
    }
    store.remove(i);
    Ok(WoodenStorageBox::new(0, p))
}

/// Moves the caller's item from the hotbar or inventory into a box slot.
pub fn move_item_to_box(
    store: &mut ItemStore,
    defs: &Vec<ItemDefinition>,
    p: PlayerId,
    storage_box: &mut WoodenStorageBox,
    target_slot_index: u8,
    item_instance_id: u64,
) -> (r: Result<(), GameError>)
    requires
        old(store).wf(),
    ensures
        final(store).wf(),
        final(store).next_id() == old(store).next_id(),
        ({
            let (rows, c, res) = move_to_container_outcome(
                old(store).rows(),
                defs@,
                p,
                *old(storage_box),
                target_slot_index,
                item_instance_id,
            );
            final(store).rows() == rows && *final(storage_box) == c && r == res
        }),
{
    handle_move_to_container_slot(store, defs, p, storage_box, target_slot_index, item_instance_id)
}

/// Moves the item in a box slot to a player slot named by type and index.
pub fn move_item_from_box(
    store: &mut ItemStore,
    defs: &Vec<ItemDefinition>,
    equip: &mut Option<ActiveEquipment>,
    p: PlayerId,
    storage_box: &mut WoodenStorageBox,
    source_slot_index: u8,
    target_slot_type: &String,
    target_slot_index: u32,
) -> (r: Result<(), GameError>)
    requires
        old(store).wf(),
    ensures
        final(store).wf(),
        final(store).next_id() == old(store).next_id(),
        ({
            let (rows, eq, c, res) = move_from_container_outcome(
                old(store).rows(),
                defs@,
                *old(equip),
                p,
                *old(storage_box),
                source_slot_index,
                slot_type_of(target_slot_type@),
                target_slot_index,
            );
            final(store).rows() == rows && *final(equip) == eq && *final(storage_box) == c && r
                == res
        }),
{
    handle_move_from_container_slot(
        store,
        defs,
        equip,
        p,
        storage_box,
        source_slot_index,
        target_slot_type,
        target_slot_index,
    )
}

/// Moves an item between two slots of the same box: merge, swap or move.
pub fn move_item_within_box(
    store: &mut ItemStore,
    defs: &Vec<ItemDefinition>,
    storage_box: &mut WoodenStorageBox,
    source_slot_index: u8,
    target_slot_index: u8,
) -> (r: Result<(), GameError>)
    requires
        old(store).wf(),
    ensures
        final(store).wf(),
        final(store).next_id() == old(store).next_id(),
        ({
            let (rows, c, res) = move_within_container_outcome(
                old(store).rows(),
                defs@,
                *old(storage_box),
                source_slot_index,
                target_slot_index,
            );
            final(store).rows() == rows && *final(storage_box) == c && r == res
        }),
{
    handle_move_within_container(store, defs, storage_box, source_slot_index, target_slot_index)
}

/// Splits `quantity_to_split` items off the stack `source_item_instance_id`
/// into a box slot; an unknown source stack is refused first.
pub fn split_stack_into_box(
    store: &mut ItemStore,
    defs: &Vec<ItemDefinition>,
    storage_box: &mut WoodenStorageBox,
    target_slot_index: u8,
    source_item_instance_id: u64,
    quantity_to_split: u32,
) -> (r: Result<(), GameError>)
    requires
        old(store).wf(),
        old(store).next_id() < u64::MAX,
    ensures
        final(store).wf(),
        !has_id(old(store).rows(), source_item_instance_id) ==> r == Err::<(), GameError>(
            GameError::ItemNotFound { instance_id: source_item_instance_id },
        ) && final(store).rows() == old(store).rows() && *final(storage_box) == *old(
            storage_box,
        ),
        has_id(old(store).rows(), source_item_instance_id) ==> ({
            let (rows, next, c, res) = split_into_container_outcome(
                old(store).rows(),
                old(store).next_id(),
                defs@,
                *old(storage_box),
                target_slot_index,
                idx(old(store).rows(), source_item_instance_id),
                quantity_to_split,
            );
            final(store).rows() == rows && final(store).next_id() == next && *final(storage_box)
                == c && r == res
        }),
{
    let i = match store.find_index(source_item_instance_id) {
        Some(i) => i,
        None => {
            return Err(GameError::ItemNotFound { instance_id: source_item_instance_id });
        },
    };
    handle_split_into_container(store, defs, storage_box, target_slot_index, i, quantity_to_split)
}

/// Splits items off a box slot's stack into a player slot named by type and
/// index; the box's slots stay as they are.
pub fn split_stack_from_box(
    store: &mut ItemStore,
    defs: &Vec<ItemDefinition>,
    equip: &mut Option<ActiveEquipment>,
    p: PlayerId,
    storage_box: &WoodenStorageBox,
    source_slot_index: u8,
    quantity_to_split: u32,
    target_slot_type: &String,
    target_slot_index: u32,
) -> (r: Result<(), GameError>)
    requires
        old(store).wf(),
        old(store).next_id() < u64::MAX,
    ensures
        final(store).wf(),
        ({
            let (rows, next, eq, res) = split_from_container_outcome(
                old(store).rows(),
                old(store).next_id(),
                defs@,
                *old(equip),
                p,
                *storage_box,
                source_slot_index,
                quantity_to_split,
                slot_type_of(target_slot_type@),
                target_slot_index,
            );
            final(store).rows() == rows && final(store).next_id() == next && *final(equip) == eq
                && r == res
        }),
{
    handle_split_from_container(
        store,
        defs,
        equip,
        p,
        storage_box,
        source_slot_index,
        quantity_to_split,
        target_slot_type,
        target_slot_index,
    )
}

/// Splits items off one box slot into another slot of the same box.
pub fn split_stack_within_box(
    store: &mut ItemStore,
    defs: &Vec<ItemDefinition>,
    storage_box: &mut WoodenStorageBox,
    source_slot_index: u8,
    target_slot_index: u8,
    quantity_to_split: u32,
) -> (r: Result<(), GameError>)
    requires
        old(store).wf(),
        old(store).next_id() < u64::MAX,
    ensures
        final(store).wf(),
        ({
            let (rows, next, c, res) = split_within_container_outcome(
                old(store).rows(),
                old(store).next_id(),
                defs@,
                *old(storage_box),
                source_slot_index,
                target_slot_index,
                quantity_to_split,
            );
            final(store).rows() == rows && final(store).next_id() == next && *final(storage_box)
                == c && r == res
        }),
{
    handle_split_within_container(
        store,
        defs,
        storage_box,
        source_slot_index,
        target_slot_index,
        quantity_to_split,
    )
}

/// Moves the items of a box slot into the caller's hotbar and inventory.
pub fn quick_move_from_box(
    store: &mut ItemStore,
    defs: &Vec<ItemDefinition>,
    p: PlayerId,
    storage_box: &mut WoodenStorageBox,
    source_slot_index: u8,
) -> (r: Result<(), GameError>)
    requires
        old(store).wf(),
        old(store).next_id() + MAX_NEW_STACKS < u64::MAX,
    ensures
        final(store).wf(),
        ({
            let (rows, next, c, res) = quick_move_from_container_outcome(
                old(store).rows(),
                old(store).next_id(),
                defs@,
                p,
                *old(storage_box),
                source_slot_index,
            );
            final(store).rows() == rows && final(store).next_id() == next && *final(storage_box)
                == c && r == res
        }),
{
    handle_quick_move_from_container(store, defs, p, storage_box, source_slot_index)
}

/// Moves the caller's item into the box, merging onto stacks first.
pub fn quick_move_to_box(
    store: &mut ItemStore,
    defs: &Vec<ItemDefinition>,
    p: PlayerId,
    storage_box: &mut WoodenStorageBox,
    item_instance_id: u64,
) -> (r: Result<(), GameError>)
    requires
        old(store).wf(),
    ensures
        final(store).wf(),
        final(store).next_id() == old(store).next_id(),
        ({
            let (rows, c, res) = quick_move_to_container_outcome(
                old(store).rows(),
                defs@,
                p,
                *old(storage_box),
                item_instance_id,
            );
            final(store).rows() == rows && *final(storage_box) == c && r == res
        }),
{
    handle_quick_move_to_container(store, defs, p, storage_box, item_instance_id)
}

/// What picking up a box leaves: a box that holds anything is refused; else
/// one "Wooden Storage Box" item is added to the caller as an addition would
/// add it. A refusal leaves the table as it was.
pub open spec fn pickup_outcome(
    rows: Seq<InventoryItem>,
    next: u64,
    defs: Seq<ItemDefinition>,
    p: PlayerId,
    b: WoodenStorageBox,
) -> (Seq<InventoryItem>, u64, Result<(), GameError>) {
    let d = def_index_by_name(defs, "Wooden Storage Box"@);
    if !all_empty(b) {
        (rows, next, Err(GameError::ContainerNotEmpty))
    } else if d == -1 {
        (rows, next, Err(GameError::NamedDefinitionNotFound))
    } else {
        let (r2, n2, res) = add_item_outcome(rows, next, defs, p, defs[d].id, 1);
        if res is Ok {
            (r2, n2, res)
        } else {
            (rows, next, res)
        }
    }
}

/// Picks up an empty box as one "Wooden Storage Box" item in the caller's
/// hotbar or inventory. On `Ok` the box itself is to be deleted.
pub fn pickup_storage_box(
    store: &mut ItemStore,
    defs: &Vec<ItemDefinition>,
    p: PlayerId,
    storage_box: &WoodenStorageBox,
) -> (r: Result<(), GameError>)
    requires
        old(store).wf(),
        old(store).next_id() + MAX_NEW_STACKS < u64::MAX,
    ensures
        final(store).wf(),
        ({
            let (rows, next, res) = pickup_outcome(
                old(store).rows(),
                old(store).next_id(),
                defs@,
                p,
                *storage_box,
            );
            final(store).rows() == rows && final(store).next_id() == next && r == res
        }),
{
    if !is_container_empty(storage_box) {
        return Err(GameError::ContainerNotEmpty);
    }
    let box_name = String::from_str("Wooden Storage Box");
    let d = match find_def_by_name(defs, &box_name) {
        Some(d) => d,
        None => {
            return Err(GameError::NamedDefinitionNotFound);
        },
    };
    let def_id = defs[d].id;
    let saved = store.snapshot();
    let res = add_item_to_player_inventory(store, defs, p, def_id, 1);
    if res.is_err() {
        *store = saved;
    }
    res
}

/// Storage boxes clear items out of their slots.
pub struct WoodenStorageBoxClearer;

/// The boxes with item `id` taken out of every slot of every box.
pub open spec fn boxes_without(bs: Seq<WoodenStorageBox>, id: u64) -> Seq<WoodenStorageBox> {
    Seq::new(bs.len(), |j: int| container_without(bs[j], id))
}

/// Whether some slot of some box holds item `id`.
pub open spec fn some_box_holds(bs: Seq<WoodenStorageBox>, id: u64) -> bool {
    exists|j: int| 0 <= j < bs.len() && bs[j].slot_ids().contains(Some(id))
}

/// Takes item `id` out of every slot of every box; whether one held it.
pub fn clear_item_from_box_slots(boxes: &mut Vec<WoodenStorageBox>, id: u64) -> (found: bool)
    ensures
        final(boxes)@ == boxes_without(old(boxes)@, id),
        found == some_box_holds(old(boxes)@, id),
{
    let ghost bs0 = boxes@;
    let mut found = false;
    let mut k: usize = 0;
    let n = boxes.len();
    while k < n
        invariant
            n == bs0.len(),
            boxes@.len() == n,
            k <= n,
            forall|j: int| 0 <= j < k ==> boxes@[j] == container_without(bs0[j], id),
            forall|j: int| k <= j < n ==> boxes@[j] == bs0[j],
            found == exists|j: int| 0 <= j < k && bs0[j].slot_ids().contains(Some(id)),
        decreases n - k,
    {
        let mut b = boxes[k];
        let here = clear_item_from_container(&mut b, id);
        boxes.set(k, b);
        proof {
            let kk = k as int;
            if here {
                assert(0 <= kk < kk + 1 && bs0[kk].slot_ids().contains(Some(id)));
            }
            if exists|j: int| 0 <= j < kk + 1 && bs0[j].slot_ids().contains(Some(id)) {
                let j = choose|j: int| 0 <= j < kk + 1 && bs0[j].slot_ids().contains(Some(id));
                if j < kk {
                    assert(exists|j2: int| 0 <= j2 < kk && bs0[j2].slot_ids().contains(Some(id)));
                }
            }
        }
        if here {
            found = true;
        }
        k = k + 1;
    }
    assert(boxes@ =~= boxes_without(bs0, id));
    found
}

impl WoodenStorageBoxClearer {
    /// Takes item `id` out of every box's slots; whether one held it.
    pub fn clear_item(boxes: &mut Vec<WoodenStorageBox>, id: u64) -> (found: bool)
        ensures
            final(boxes)@ == boxes_without(old(boxes)@, id),
            found == some_box_holds(old(boxes)@, id),
    {
        clear_item_from_box_slots(boxes, id)
    }
}

/// Takes item `id` out of whatever container holds it: the boxes are tried
/// first, and the campfires only when no box held it. Whether one did.
pub fn clear_item_from_any_container(
    store: &ItemStore,
    defs: &Vec<ItemDefinition>,
    boxes: &mut Vec<WoodenStorageBox>,
    campfires: &mut Vec<Campfire>,
    id: u64,
) -> (found: bool)
    requires
        store.wf(),
    ensures
        final(boxes)@ == boxes_without(old(boxes)@, id),
        some_box_holds(old(boxes)@, id) ==> found && *final(campfires) == *old(campfires),
        !some_box_holds(old(boxes)@, id) ==> (final(campfires)@, found)
            == clear_from_campfires_outcome(store.rows(), defs@, old(campfires)@, id),
{
    if clear_item_from_box_slots(boxes, id) {
        return true;
    }
    clear_item_from_campfire_fuel_slots(store, defs, campfires, id)
}


/// Picking up a box adds it as an addition would, so no two of a player's
/// items end up in one slot.
pub proof fn law_pickup_keeps_slots_distinct(
    rows: Seq<InventoryItem>,
    next: u64,
    defs: Seq<ItemDefinition>,
    p: PlayerId,
    b: WoodenStorageBox,
)
    requires
        slots_distinct(rows),
    ensures
        slots_distinct(pickup_outcome(rows, next, defs, p, b).0),
{
    let d = def_index_by_name(defs, "Wooden Storage Box"@);
    if all_empty(b) && d != -1 {
        law_add_item_keeps_slots_distinct(rows, next, defs, p, defs[d].id, 1);
    }
}


/// Placing a box only deletes the placed item, so no two of a player's items
/// end up in one slot.
pub proof fn law_place_box_keeps_slots_distinct(
    rows: Seq<InventoryItem>,
    defs: Seq<ItemDefinition>,
    p: PlayerId,
    id: u64,
)
    requires
        slots_distinct(rows),
        placeable_check(rows, defs, p, id, "Wooden Storage Box"@) is Ok,
    ensures
        slots_distinct(rows.remove(placeable_check(rows, defs, p, id, "Wooden Storage Box"@)->Ok_0)),
{
    lemma_idx_in_range(rows, id);
    lemma_remove_keeps_distinct(rows, placeable_check(rows, defs, p, id, "Wooden Storage Box"@)->Ok_0);
}

} // verus!
