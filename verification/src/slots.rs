use vstd::prelude::*;
use crate::types::{PlayerId, InventoryItem, NUM_HOTBAR_SLOTS, NUM_INVENTORY_SLOTS};
use crate::store::{
    ItemStore, has_id, idx, inv_slot_idx, hot_slot_idx, inv_slot_taken, hot_slot_taken,
    first_free_inv, first_free_hot, lemma_idx,
};

verus! {

/// The two kinds of player slot.
#[derive(Clone, Copy, Debug, PartialEq, Eq, Structural)]
pub enum SlotKind {
    Inventory,
    Hotbar,
}

/// The first free player slot: the lowest free hotbar slot, else the lowest
/// free main inventory slot.
pub open spec fn first_free_player_slot(rows: Seq<InventoryItem>, p: PlayerId) -> Option<
    (SlotKind, u32),
> {
    match first_free_hot(rows, p) {
        Some(h) => Some((SlotKind::Hotbar, h as u32)),
        None => match first_free_inv(rows, p) {
            Some(s) => Some((SlotKind::Inventory, s as u32)),
            None => None,
        },
    }
}

/// Index of the item with the given id when it is owned by `p`.
pub fn get_player_item(store: &ItemStore, p: PlayerId, id: u64) -> (r: Option<usize>)
    requires
        store.wf(),
    ensures
        match r {
            Some(i) => i == idx(store.rows(), id) && has_id(store.rows(), id)
                && store.rows()[i as int].player_identity == p,
            None => !has_id(store.rows(), id) || store.rows()[idx(store.rows(), id)].player_identity
                != p,
        },
{
    match store.find_index(id) {
        Some(i) => {
            if store.get(i).player_identity == p {
                Some(i)
            } else {
                None
            }
        },
        None => None,
    }
}

/// Index of the first item of `p` in the given main inventory slot.
pub fn find_item_in_inventory_slot(store: &ItemStore, p: PlayerId, slot: u16) -> (r: Option<
    usize,
>)
    ensures
        match r {
            Some(i) => i == inv_slot_idx(store.rows(), p, slot) && i < store.rows().len(),
            None => inv_slot_idx(store.rows(), p, slot) == -1 && !inv_slot_taken(
                store.rows(),
                p,
                slot,
            ),
        },
{
    let rows = store.rows_vec();
    let mut i: usize = 0;
    while i < rows.len()
        invariant
            i <= rows.len(),
            rows@ == store.rows(),
            forall|j: int|
                0 <= j < i ==> !(rows@[j].player_identity == p && rows@[j].inventory_slot
                    == Some(slot)),
        decreases rows.len() - i,
    {
        if rows[i].player_identity == p && rows[i].inventory_slot == Some(slot) {
            let ghost c = inv_slot_idx(rows@, p, slot);
            assert(c == i as int) by {
                if c < i {
                } else if c > i {
                }
            }
            return Some(i);
        }
        i = i + 1;
    }
    None
}

/// Index of the first item of `p` in the given hotbar slot.
pub fn find_item_in_hotbar_slot(store: &ItemStore, p: PlayerId, slot: u8) -> (r: Option<usize>)
    ensures
        match r {
            Some(i) => i == hot_slot_idx(store.rows(), p, slot) && i < store.rows().len(),
            None => hot_slot_idx(store.rows(), p, slot) == -1 && !hot_slot_taken(
                store.rows(),
                p,
                slot,
            ),
        },
{
    let rows = store.rows_vec();
    let mut i: usize = 0;
    while i < rows.len()
        invariant
            i <= rows.len(),
            rows@ == store.rows(),
            forall|j: int|
                0 <= j < i ==> !(rows@[j].player_identity == p && rows@[j].hotbar_slot == Some(
                    slot,
                )),
        decreases rows.len() - i,
    {
        if rows[i].player_identity == p && rows[i].hotbar_slot == Some(slot) {
            let ghost c = hot_slot_idx(rows@, p, slot);
            assert(c == i as int) by {
                if c < i {
                } else if c > i {
                }
            }
            return Some(i);
        }
        i = i + 1;
    }
    None
}

/// The lowest free main inventory slot of `p` (slots 0 to 23).
pub fn find_first_empty_inventory_slot(store: &ItemStore, p: PlayerId) -> (r: Option<u16>)
    ensures
        r == first_free_inv(store.rows(), p),
{
    let mut s: u16 = 0;
    while s < NUM_INVENTORY_SLOTS
        invariant
            s <= NUM_INVENTORY_SLOTS,
            forall|t: u16| t < s ==> inv_slot_taken(store.rows(), p, t),
        decreases NUM_INVENTORY_SLOTS - s,
    {
        if find_item_in_inventory_slot(store, p, s).is_none() {
            reveal(first_free_inv);
            let ghost rows = store.rows();
            assert(exists|u: u16| u < NUM_INVENTORY_SLOTS && !inv_slot_taken(rows, p, u));
            let ghost c = choose|u: u16|
                u < NUM_INVENTORY_SLOTS && !inv_slot_taken(rows, p, u) && forall|t: u16|
                    t < u ==> inv_slot_taken(rows, p, t);
            assert(c == s) by {
                if c < s {
                } else if c > s {
                }
            }
            return Some(s);
        }
        s = s + 1;
    }
    reveal(first_free_inv);
    None
}

/// The lowest free hotbar slot of `p` (slots 0 to 5).
pub fn find_first_empty_hotbar_slot(store: &ItemStore, p: PlayerId) -> (r: Option<u8>)
    ensures
        r == first_free_hot(store.rows(), p),
{
    let mut s: u8 = 0;
    while s < NUM_HOTBAR_SLOTS
        invariant
            s <= NUM_HOTBAR_SLOTS,
            forall|t: u8| t < s ==> hot_slot_taken(store.rows(), p, t),
        decreases NUM_HOTBAR_SLOTS - s,
    {
        if find_item_in_hotbar_slot(store, p, s).is_none() {
            reveal(first_free_hot);
            let ghost rows = store.rows();
            assert(exists|u: u8| u < NUM_HOTBAR_SLOTS && !hot_slot_taken(rows, p, u));
            let ghost c = choose|u: u8|
                u < NUM_HOTBAR_SLOTS && !hot_slot_taken(rows, p, u) && forall|t: u8|
                    t < u ==> hot_slot_taken(rows, p, t);
            assert(c == s) by {
                if c < s {
                } else if c > s {
                }
            }
            return Some(s);
        }
        s = s + 1;
    }
    reveal(first_free_hot);
    None
}

/// The first free slot of `p`: hotbar preferred, then main inventory.
pub fn find_first_empty_player_slot(store: &ItemStore, p: PlayerId) -> (r: Option<
    (SlotKind, u32),
>)
    ensures
        r == first_free_player_slot(store.rows(), p),
{
    match find_first_empty_hotbar_slot(store, p) {
        Some(h) => Some((SlotKind::Hotbar, h as u32)),
        None => match find_first_empty_inventory_slot(store, p) {
            Some(s) => Some((SlotKind::Inventory, s as u32)),
            None => None,
        },
    }
}

} // verus!
