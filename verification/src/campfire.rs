use vstd::prelude::*;
use vstd::string::StringExecFns;
use crate::types::{PlayerId, InventoryItem, ItemDefinition, def_index, find_def, def_index_by_name, find_def_by_name};
use crate::store::{
    ItemStore, has_id, idx, in_player_slots, single_location, lemma_idx, slots_distinct, same_places,
    rows_wf,
    lemma_same_places, lemma_remove_keeps_distinct, lemma_idx_in_range, lemma_push_keeps_distinct,
};
use crate::slots::SlotKind;
use crate::container::{Campfire, ItemContainer, NUM_FUEL_SLOTS};
use crate::container_ops::{
    put, move_to_container_outcome, handle_move_to_container_slot,
    quick_move_from_container_outcome, handle_quick_move_from_container,
    split_into_container_outcome, handle_split_into_container, move_within_container_outcome,
    handle_move_within_container, split_within_container_outcome,
    handle_split_within_container, quick_move_to_container_outcome,
    handle_quick_move_to_container, move_from_container_outcome, split_off, lemma_split_off,
    law_move_to_container_keeps_slots_distinct,
    handle_move_from_container_slot, split_from_container_outcome, handle_split_from_container,
    kind_total, lemma_kind_total_update, lemma_kind_total_remove,
};
use crate::player_inventory::{move_outcome, move_to_player_slot, slot_type_of, law_move_keeps_slots_distinct};
use crate::stacking::{split_stack_helper, MAX_NEW_STACKS};
use crate::equipment::ActiveEquipment;
use crate::time::{LATEST_TIME, plus_secs, timestamp_plus_secs};
use crate::errors::GameError;

verus! {

/// Seconds between two units of fuel burnt.
pub const FUEL_CONSUME_INTERVAL_SECS: u64 = 5;

/// Seconds until the first fuel is burnt after fuel is added to a burning
/// campfire that had nothing scheduled.
pub const REFUEL_DELAY_SECS: u64 = 30;

/// Wood the campfire starts with when placed.
pub const INITIAL_FUEL_QUANTITY: u32 = 50;

/// Whether the slot holds fuel: an existing item whose definition is named
/// "Wood", with quantity above zero.
#[verifier::opaque]
pub open spec fn is_fuel(rows: Seq<InventoryItem>, defs: Seq<ItemDefinition>, slot: Option<u64>) -> bool {
    match slot {
        None => false,
        Some(iid) => has_id(rows, iid) && def_index(defs, rows[idx(rows, iid)].item_def_id) != -1
            && defs[def_index(defs, rows[idx(rows, iid)].item_def_id)].name@ == "Wood"@
            && rows[idx(rows, iid)].quantity > 0,
    }
}

/// A fuel slot names an existing stack with items in it.
pub proof fn lemma_fuel_slot(rows: Seq<InventoryItem>, defs: Seq<ItemDefinition>, slot: Option<u64>)
    requires
        is_fuel(rows, defs, slot),
    ensures
        slot is Some,
        has_id(rows, slot->0),
        rows[idx(rows, slot->0)].quantity > 0,
{
    reveal(is_fuel);
}

/// Index of the first fuel slot holding fuel, or -1.
#[verifier::opaque]
pub open spec fn first_fuel_slot(rows: Seq<InventoryItem>, defs: Seq<ItemDefinition>, c: Campfire) -> int {
    if exists|k: int| 0 <= k < NUM_FUEL_SLOTS && is_fuel(rows, defs, c.slot_ids()[k]) {
        choose|k: int|
            0 <= k < NUM_FUEL_SLOTS && is_fuel(rows, defs, c.slot_ids()[k]) && forall|j: int|
                0 <= j < k ==> !is_fuel(rows, defs, c.slot_ids()[j])
    } else {
        -1
    }
}

/// Whether some fuel slot holds fuel.
pub open spec fn has_fuel(rows: Seq<InventoryItem>, defs: Seq<ItemDefinition>, c: Campfire) -> bool {
    exists|k: int| 0 <= k < NUM_FUEL_SLOTS && is_fuel(rows, defs, c.slot_ids()[k])
}

/// The campfire put out: not burning, nothing scheduled.
pub open spec fn extinguished(c: Campfire) -> Campfire {
    Campfire { is_burning: false, next_fuel_consume_at: None, ..c }
}

/// The campfire with its next fuel burn at `at`.
pub open spec fn scheduled(c: Campfire, at: int) -> Campfire {
    Campfire { next_fuel_consume_at: Some(at as i64), ..c }
}

fn slot_holds_fuel(store: &ItemStore, defs: &Vec<ItemDefinition>, slot: Option<u64>) -> (r: bool)
    requires
        store.wf(),
    ensures
        r == is_fuel(store.rows(), defs@, slot),
{
    reveal(is_fuel);
    match slot {
        None => false,
        Some(iid) => match store.find_index(iid) {
            None => false,
            Some(i) => {
                let item = store.get(i);
                match find_def(defs, item.item_def_id) {
                    None => false,
                    Some(di) => {
                        let wood = String::from_str("Wood");
                        defs[di].name == wood && item.quantity > 0
                    },
                }
            },
        },
    }
}

fn find_fuel_slot(store: &ItemStore, defs: &Vec<ItemDefinition>, c: &Campfire) -> (r: Option<u8>)
    requires
        store.wf(),
    ensures
        match r {
            Some(k) => k == first_fuel_slot(store.rows(), defs@, *c) && k < NUM_FUEL_SLOTS
                && is_fuel(store.rows(), defs@, c.slot_ids()[k as int]) && has_fuel(
                store.rows(),
                defs@,
                *c,
            ),
            None => first_fuel_slot(store.rows(), defs@, *c) == -1 && !has_fuel(
                store.rows(),
                defs@,
                *c,
            ),
        },
{
    let mut k: u8 = 0;
    while k < 5
        invariant
            store.wf(),
            k <= 5,
            forall|j: int| 0 <= j < k ==> !is_fuel(store.rows(), defs@, c.slot_ids()[j]),
        decreases 5 - k,
    {
        if slot_holds_fuel(store, defs, c.get_slot_instance_id(k)) {
            reveal(first_fuel_slot);
            let ghost f = first_fuel_slot(store.rows(), defs@, *c);
            assert(f == k as int) by {
                if f < k {
                } else if f > k {
                }
            }
            return Some(k);
        }
        k = k + 1;
    }
    reveal(first_fuel_slot);
    None
}

/// Whether some fuel slot of the campfire holds Wood with quantity above zero.
pub fn check_if_campfire_has_fuel(store: &ItemStore, defs: &Vec<ItemDefinition>, c: &Campfire) -> (r:
    bool)
    requires
        store.wf(),
    ensures
        r == has_fuel(store.rows(), defs@, *c),
{
    find_fuel_slot(store, defs, c).is_some()
}

/// Puts out a burning campfire whose fuel has run out.
fn extinguish_if_out(store: &ItemStore, defs: &Vec<ItemDefinition>, c: &mut Campfire)
    requires
        store.wf(),
    ensures
        *final(c) == (if !has_fuel(store.rows(), defs@, *old(c)) && old(c).is_burning {
            extinguished(*old(c))
        } else {
            *old(c)
        }),
{
    if !check_if_campfire_has_fuel(store, defs, c) && c.is_burning {
        c.is_burning = false;
        c.next_fuel_consume_at = None;
    }
}

/// Schedules the next fuel burn of a burning campfire that has none scheduled.
fn schedule_if_unscheduled(c: &mut Campfire, now: i64)
    requires
        now <= LATEST_TIME,
    ensures
        *final(c) == (if old(c).is_burning && old(c).next_fuel_consume_at is None {
            scheduled(*old(c), plus_secs(now, REFUEL_DELAY_SECS as int))
        } else {
            *old(c)
        }),
{
    if c.is_burning && c.next_fuel_consume_at.is_none() {
        c.next_fuel_consume_at = Some(timestamp_plus_secs(now, REFUEL_DELAY_SECS));
    }
}

/// What one fuel tick does to a campfire: when burning and due, burn one unit
/// from the first slot holding fuel (deleting an emptied stack and clearing
/// its slot) and schedule the next burn; put the fire out when no fuel is left.
pub open spec fn fuel_tick_outcome(
    rows: Seq<InventoryItem>,
    defs: Seq<ItemDefinition>,
    c: Campfire,
    now: i64,
) -> (Seq<InventoryItem>, Campfire) {
    if !c.is_burning {
        (rows, c)
    } else {
        match c.next_fuel_consume_at {
            None => if has_fuel(rows, defs, c) {
                (rows, scheduled(c, plus_secs(now, FUEL_CONSUME_INTERVAL_SECS as int)))
            } else {
                (rows, extinguished(c))
            },
            Some(t) => if now < t {
                (rows, c)
            } else {
                let k = first_fuel_slot(rows, defs, c);
                if k == -1 {
                    (rows, extinguished(c))
                } else {
                    let i = idx(rows, c.slot_ids()[k]->0);
                    let item = rows[i];
                    let rem = (item.quantity - 1) as u32;
                    let rows1 = rows.update(i, InventoryItem { quantity: rem, ..item });
                    if rem == 0 {
                        let rows2 = rows1.remove(i);
                        let c2 = put(c, k, None, None);
                        if !has_fuel(rows2, defs, c2) {
                            (rows2, extinguished(c2))
                        } else {
                            (rows2, c2)
                        }
                    } else if has_fuel(rows1, defs, c) {
                        (rows1, scheduled(c, plus_secs(now, FUEL_CONSUME_INTERVAL_SECS as int)))
                    } else {
                        (rows1, extinguished(c))
                    }
                }
            },
        }
    }
}

/// One fuel tick for one campfire at time `now`.
pub fn consume_campfire_fuel(
    store: &mut ItemStore,
    defs: &Vec<ItemDefinition>,
    c: &mut Campfire,
    now: i64,
)
    requires
        old(store).wf(),
        now <= LATEST_TIME,
    ensures
        final(store).wf(),
        final(store).next_id() == old(store).next_id(),
        (final(store).rows(), *final(c)) == fuel_tick_outcome(old(store).rows(), defs@, *old(c), now),
        old(c).is_burning ==> (final(c).is_burning <==> has_fuel(final(store).rows(), defs@, *final(c))
            || (old(c).next_fuel_consume_at matches Some(t) && now < t)),
{
    proof {
        law_fuel_tick_keeps_fire_fed(old(store).rows(), defs@, *old(c), now);
    }
    let ghost rows0 = store.rows();
    let ghost c0 = *c;
    if !c.is_burning {
        return;
    }
    match c.next_fuel_consume_at {
        None => {
            if check_if_campfire_has_fuel(store, defs, c) {
                c.next_fuel_consume_at = Some(timestamp_plus_secs(now, FUEL_CONSUME_INTERVAL_SECS));
            } else {
                c.is_burning = false;
                c.next_fuel_consume_at = None;
            }
        },
        Some(t) => {
            if now < t {
                return;
            }
            match find_fuel_slot(store, defs, c) {
                None => {
                    c.is_burning = false;
                    c.next_fuel_consume_at = None;
                },
                Some(k) => {
                    proof {
                        lemma_fuel_slot(rows0, defs@, c0.slot_ids()[k as int]);
                    }
                    let iid = match c.get_slot_instance_id(k) {
                        Some(iid) => iid,
                        None => {
                            return;
                        },
                    };
                    let i = match store.find_index(iid) {
                        Some(i) => i,
                        None => {
                            return;
                        },
                    };
                    let item = store.get(i);
                    let rem = item.quantity - 1;
                    proof {
                        assert(single_location(rows0[i as int]));
                    }
                    store.set(i, InventoryItem { quantity: rem, ..item });
                    if rem == 0 {
                        store.remove(i);
                        c.set_slot(k, None, None);
                        extinguish_if_out(store, defs, c);
                        proof {
                            assert(c0.is_burning);
                        }
                    } else {
                        if check_if_campfire_has_fuel(store, defs, c) {
                            c.next_fuel_consume_at = Some(
                                timestamp_plus_secs(now, FUEL_CONSUME_INTERVAL_SECS),
                            );
                        } else {
                            c.is_burning = false;
                            c.next_fuel_consume_at = None;
                        }
                    }
                },
            }
        },
    }
}

/// Fuel ticks for the first `n` campfires, in table order.
pub open spec fn fuel_pass(
    rows: Seq<InventoryItem>,
    defs: Seq<ItemDefinition>,
    cs: Seq<Campfire>,
    now: i64,
    n: nat,
) -> (Seq<InventoryItem>, Seq<Campfire>)
    decreases n,
{
    if n == 0 || n > cs.len() {
        (rows, cs)
    } else {
        let (r, c2) = fuel_pass(rows, defs, cs, now, (n - 1) as nat);
        let (r2, c) = fuel_tick_outcome(r, defs, c2[n - 1], now);
        (r2, c2.update(n - 1, c))
    }
}

/// The scheduled fuel check: one fuel tick for every campfire, in table order.
pub fn check_campfire_fuel_consumption(
    store: &mut ItemStore,
    defs: &Vec<ItemDefinition>,
    campfires: &mut Vec<Campfire>,
    now: i64,
)
    requires
        old(store).wf(),
        now <= LATEST_TIME,
    ensures
        final(store).wf(),
        final(store).next_id() == old(store).next_id(),
        (final(store).rows(), final(campfires)@) == fuel_pass(
            old(store).rows(),
            defs@,
            old(campfires)@,
            now,
            old(campfires)@.len(),
        ),
{
    let ghost rows0 = store.rows();
    let ghost cs0 = campfires@;
    let n = campfires.len();
    let mut i: usize = 0;
    while i < n
        invariant
            store.wf(),
            store.next_id() == old(store).next_id(),
            n == cs0.len(),
            i <= n,
            campfires@.len() == n,
            (store.rows(), campfires@) == fuel_pass(rows0, defs@, cs0, now, i as nat),
            forall|k: int| i <= k < n ==> campfires@[k] == cs0[k],
            now <= LATEST_TIME,
        decreases n - i,
    {
        let mut c = campfires[i];
        consume_campfire_fuel(store, defs, &mut c, now);
        campfires.set(i, c);
        i = i + 1;
    }
}

/// Takes item `id` out of every campfire fuel slot holding it, putting out a
/// burning campfire left without fuel; whether any slot held it.
pub open spec fn clear_from_campfires_outcome(
    rows: Seq<InventoryItem>,
    defs: Seq<ItemDefinition>,
    cs: Seq<Campfire>,
    id: u64,
) -> (Seq<Campfire>, bool) {
    (
        Seq::new(
            cs.len(),
            |k: int|
                {
                    let c = cs[k];
                    if c.slot_ids().contains(Some(id)) {
                        let c2 = c.with_slots(
                            c.slot_ids().map_values(
                                |v: Option<u64>|
                                    if v == Some(id) {
                                        None
                                    } else {
                                        v
                                    },
                            ),
                            Seq::new(
                                NUM_FUEL_SLOTS as nat,
                                |j: int|
                                    if c.slot_ids()[j] == Some(id) {
                                        None
                                    } else {
                                        c.slot_defs()[j]
                                    },
                            ),
                        );
                        if !has_fuel(rows, defs, c2) && c2.is_burning {
                            extinguished(c2)
                        } else {
                            c2
                        }
                    } else {
                        c
                    }
                },
        ),
        exists|k: int| 0 <= k < cs.len() && cs[k].slot_ids().contains(Some(id)),
    )
}

fn clear_from_one_campfire(store: &ItemStore, defs: &Vec<ItemDefinition>, c: &mut Campfire, id: u64) -> (found: bool)
    requires
        store.wf(),
    ensures
        found == old(c).slot_ids().contains(Some(id)),
        *final(c) == clear_from_campfires_outcome(store.rows(), defs@, seq![*old(c)], id).0[0],
{
    let ghost c0 = *c;
    let mut updated = false;
    if c.fuel_instance_id_0 == Some(id) {
        c.fuel_instance_id_0 = None;
        c.fuel_def_id_0 = None;
        updated = true;
    }
    if c.fuel_instance_id_1 == Some(id) {
        c.fuel_instance_id_1 = None;
        c.fuel_def_id_1 = None;
        updated = true;
    }
    if c.fuel_instance_id_2 == Some(id) {
        c.fuel_instance_id_2 = None;
        c.fuel_def_id_2 = None;
        updated = true;
    }
    if c.fuel_instance_id_3 == Some(id) {
        c.fuel_instance_id_3 = None;
        c.fuel_def_id_3 = None;
        updated = true;
    }
    if c.fuel_instance_id_4 == Some(id) {
        c.fuel_instance_id_4 = None;
        c.fuel_def_id_4 = None;
        updated = true;
    }
    proof {
        let ids = c0.slot_ids();
        if updated {
            let k = if c0.fuel_instance_id_0 == Some(id) {
                0
            } else if c0.fuel_instance_id_1 == Some(id) {
                1
            } else if c0.fuel_instance_id_2 == Some(id) {
                2
            } else if c0.fuel_instance_id_3 == Some(id) {
                3int
            } else {
                4int
            };
            assert(ids[k] == Some(id));
        }
        let out = clear_from_campfires_outcome(store.rows(), defs@, seq![c0], id).0[0];
        let mapped = ids.map_values(
            |v: Option<u64>|
                if v == Some(id) {
                    None
                } else {
                    v
                },
        );
        assert(mapped =~= seq![
            c.fuel_instance_id_0,
            c.fuel_instance_id_1,
            c.fuel_instance_id_2,
            c.fuel_instance_id_3,
            c.fuel_instance_id_4,
        ]);
    }
    if updated {
        extinguish_if_out(store, defs, c);
    }
    updated
}

/// Takes item `id` out of every campfire's fuel slots; a burning campfire left
/// without fuel goes out. Returns whether any campfire held the item.
pub fn clear_item_from_campfire_fuel_slots(
    store: &ItemStore,
    defs: &Vec<ItemDefinition>,
    campfires: &mut Vec<Campfire>,
    id: u64,
) -> (found: bool)
    requires
        store.wf(),
    ensures
        (final(campfires)@, found) == clear_from_campfires_outcome(
            store.rows(),
            defs@,
            old(campfires)@,
            id,
        ),
{
    let ghost cs0 = campfires@;
    let n = campfires.len();
    let mut found = false;
    let mut i: usize = 0;
    while i < n
        invariant
            store.wf(),
            n == cs0.len(),
            i <= n,
            campfires@.len() == n,
            forall|k: int|
                0 <= k < i ==> campfires@[k] == clear_from_campfires_outcome(
                    store.rows(),
                    defs@,
                    cs0,
                    id,
                ).0[k],
            forall|k: int| i <= k < n ==> campfires@[k] == cs0[k],
            found == exists|k: int| 0 <= k < i && cs0[k].slot_ids().contains(Some(id)),
        decreases n - i,
    {
        let mut c = campfires[i];
        let f = clear_from_one_campfire(store, defs, &mut c, id);
        proof {
            let a = clear_from_campfires_outcome(store.rows(), defs@, seq![cs0[i as int]], id).0[0];
            let b = clear_from_campfires_outcome(store.rows(), defs@, cs0, id).0[i as int];
            assert(a == b);
        }
        campfires.set(i, c);
        found = found || f;
        i = i + 1;
    }
    proof {
        let out = clear_from_campfires_outcome(store.rows(), defs@, cs0, id);
        assert(campfires@ =~= out.0);
    }
    found
}

/// Campfires clear items out of their fuel slots.
pub struct CampfireClearer;

impl CampfireClearer {
    /// Takes item `id` out of every campfire's fuel slots; whether one held it.
    pub fn clear_item(
        store: &ItemStore,
        defs: &Vec<ItemDefinition>,
        campfires: &mut Vec<Campfire>,
        id: u64,
    ) -> (found: bool)
        requires
            store.wf(),
        ensures
            (final(campfires)@, found) == clear_from_campfires_outcome(
                store.rows(),
                defs@,
                old(campfires)@,
                id,
            ),
    {
        clear_item_from_campfire_fuel_slots(store, defs, campfires, id)
    }
}

/// Lights an unlit campfire that has fuel (first burn after five seconds), or
/// puts out a burning one.
pub fn toggle_campfire_burning(
    store: &ItemStore,
    defs: &Vec<ItemDefinition>,
    c: &mut Campfire,
    now: i64,
) -> (r: Result<(), GameError>)
    requires
        store.wf(),
        now <= LATEST_TIME,
    ensures
        if old(c).is_burning {
            r is Ok && *final(c) == extinguished(*old(c))
        } else if !has_fuel(store.rows(), defs@, *old(c)) {
            r == Err::<(), GameError>(GameError::NoFuel) && *final(c) == *old(c)
        } else {
            r is Ok && *final(c) == Campfire {
                is_burning: true,
                next_fuel_consume_at: Some(
                    plus_secs(now, FUEL_CONSUME_INTERVAL_SECS as int) as i64,
                ),
                ..*old(c)
            }
        },
{
    if c.is_burning {
        c.is_burning = false;
        c.next_fuel_consume_at = None;
        Ok(())
    } else {
        if !check_if_campfire_has_fuel(store, defs, c) {
            return Err(GameError::NoFuel);
        }
        c.is_burning = true;
        c.next_fuel_consume_at = Some(timestamp_plus_secs(now, FUEL_CONSUME_INTERVAL_SECS));
        Ok(())
    }
}

/// The campfire after fuel was added at time `now`: a burning campfire with
/// nothing scheduled burns its next fuel thirty seconds later.
pub open spec fn after_refuel(c: Campfire, now: i64) -> Campfire {
    if c.is_burning && c.next_fuel_consume_at is None {
        scheduled(c, plus_secs(now, REFUEL_DELAY_SECS as int))
    } else {
        c
    }
}

/// The campfire after fuel was taken out: a burning campfire without fuel goes out.
pub open spec fn after_unfuel(rows: Seq<InventoryItem>, defs: Seq<ItemDefinition>, c: Campfire) -> Campfire {
    if !has_fuel(rows, defs, c) && c.is_burning {
        extinguished(c)
    } else {
        c
    }
}

/// Puts the caller's item into a fuel slot (place, merge or swap).
pub fn add_fuel_to_campfire(
    store: &mut ItemStore,
    defs: &Vec<ItemDefinition>,
    p: PlayerId,
    campfire: &mut Campfire,
    target_slot_index: u8,
    item_instance_id: u64,
    now: i64,
) -> (r: Result<(), GameError>)
    requires
        old(store).wf(),
        now <= LATEST_TIME,
    ensures
        final(store).wf(),
        final(store).next_id() == old(store).next_id(),
        ({
            let (rows, c, res) = move_to_container_outcome(
                old(store).rows(),
                defs@,
                p,
                *old(campfire),
                target_slot_index,
                item_instance_id,
            );
            final(store).rows() == rows && r == res && *final(campfire) == (if res is Ok {
                after_refuel(c, now)
            } else {
                c
            })
        }),
{
    let res = handle_move_to_container_slot(
        store,
        defs,
        p,
        campfire,
        target_slot_index,
        item_instance_id,
    );
    if res.is_ok() {
        schedule_if_unscheduled(campfire, now);
    }
    res
}

/// Moves a fuel slot's items back to the caller (stacking first); a burning
/// campfire left without fuel goes out.
pub fn auto_remove_fuel_from_campfire(
    store: &mut ItemStore,
    defs: &Vec<ItemDefinition>,
    p: PlayerId,
    campfire: &mut Campfire,
    source_slot_index: u8,
) -> (r: Result<(), GameError>)
    requires
        old(store).wf(),
        old(store).next_id() + MAX_NEW_STACKS < u64::MAX,
    ensures
        final(store).wf(),
        ({
            let c0 = *old(campfire);
            if source_slot_index >= NUM_FUEL_SLOTS {
                r == Err::<(), GameError>(GameError::SlotOutOfBounds { slot: source_slot_index })
                    && final(store).rows() == old(store).rows() && *final(campfire) == c0
            } else if c0.slot_ids()[source_slot_index as int] is None {
                r == Err::<(), GameError>(GameError::SlotEmpty { slot: source_slot_index })
                    && final(store).rows() == old(store).rows() && *final(campfire) == c0
            } else {
                let (rows, next, c, res) = quick_move_from_container_outcome(
                    old(store).rows(),
                    old(store).next_id(),
                    defs@,
                    p,
                    c0,
                    source_slot_index,
                );
                final(store).rows() == rows && final(store).next_id() == next && r == res
                    && *final(campfire) == (if res is Ok {
                    after_unfuel(rows, defs@, c)
                } else {
                    c
                })
            }
        }),
{
    if source_slot_index as usize >= NUM_FUEL_SLOTS {
        return Err(GameError::SlotOutOfBounds { slot: source_slot_index });
    }
    if campfire.get_slot_instance_id(source_slot_index).is_none() {
        return Err(GameError::SlotEmpty { slot: source_slot_index });
    }
    let res = handle_quick_move_from_container(store, defs, p, campfire, source_slot_index);
    if res.is_ok() {
        extinguish_if_out(store, defs, campfire);
    }
    res
}

/// Checks the caller may split `q` items off stack `id` from the hotbar or
/// inventory; the row index of the stack.
pub open spec fn split_source_check(
    rows: Seq<InventoryItem>,
    defs: Seq<ItemDefinition>,
    p: PlayerId,
    id: u64,
    q: u32,
) -> Result<int, GameError> {
    if !has_id(rows, id) {
        Err(GameError::ItemNotFound { instance_id: id })
    } else {
        let item = rows[idx(rows, id)];
        if item.player_identity != p {
            Err(GameError::ItemNotOwned { instance_id: id })
        } else if !in_player_slots(item) {
            Err(GameError::NotInPlayerSlots)
        } else if q == 0 || q >= item.quantity {
            Err(GameError::InvalidSplitQuantity)
        } else if def_index(defs, item.item_def_id) == -1 {
            Err(GameError::DefinitionNotFound { def_id: item.item_def_id })
        } else if !defs[def_index(defs, item.item_def_id)].is_stackable {
            Err(GameError::NotStackable)
        } else {
            Ok(idx(rows, id))
        }
    }
}

fn check_split_source(
    store: &ItemStore,
    defs: &Vec<ItemDefinition>,
    p: PlayerId,
    id: u64,
    q: u32,
) -> (r: Result<usize, GameError>)
    requires
        store.wf(),
    ensures
        match split_source_check(store.rows(), defs@, p, id, q) {
            Ok(i) => r is Ok && r->Ok_0 as int == i && 0 <= i < store.rows().len(),
            Err(e) => r == Err::<usize, GameError>(e),
        },
{
    let i = match store.find_index(id) {
        Some(i) => i,
        None => {
            return Err(GameError::ItemNotFound { instance_id: id });
        },
    };
    let item = store.get(i);
    if item.player_identity != p {
        return Err(GameError::ItemNotOwned { instance_id: id });
    }
    if item.inventory_slot.is_none() && item.hotbar_slot.is_none() {
        return Err(GameError::NotInPlayerSlots);
    }
    if q == 0 || q >= item.quantity {
        return Err(GameError::InvalidSplitQuantity);
    }
    let di = match find_def(defs, item.item_def_id) {
        Some(di) => di,
        None => {
            return Err(GameError::DefinitionNotFound { def_id: item.item_def_id });
        },
    };
    if !defs[di].is_stackable {
        return Err(GameError::NotStackable);
    }
    Ok(i)
}

/// Splits `quantity_to_split` items off the caller's stack into a fuel slot.
/// `reach` is whether the caller may use this campfire (player found,
/// campfire found, close enough); it is checked after the stack.
pub fn split_stack_into_campfire(
    store: &mut ItemStore,
    defs: &Vec<ItemDefinition>,
    p: PlayerId,
    source_item_instance_id: u64,
    quantity_to_split: u32,
    campfire: &mut Campfire,
    reach: Result<(), GameError>,
    target_slot_index: u8,
    now: i64,
) -> (r: Result<(), GameError>)
    requires
        old(store).wf(),
        old(store).next_id() < u64::MAX,
        now <= LATEST_TIME,
    ensures
        final(store).wf(),
        match split_source_check(
            old(store).rows(),
            defs@,
            p,
            source_item_instance_id,
            quantity_to_split,
        ) {
            Err(e) => r == Err::<(), GameError>(e) && final(store).rows() == old(store).rows()
                && *final(campfire) == *old(campfire),
            Ok(i) => match reach {
                Err(e) => r == Err::<(), GameError>(e) && final(store).rows() == old(
                    store,
                ).rows() && *final(campfire) == *old(campfire),
                Ok(_) => {
                    let (rows, next, c, res) = split_into_container_outcome(
                        old(store).rows(),
                        old(store).next_id(),
                        defs@,
                        *old(campfire),
                        target_slot_index,
                        i,
                        quantity_to_split,
                    );
                    final(store).rows() == rows && final(store).next_id() == next && r == res
                        && *final(campfire) == (if res is Ok {
                        after_refuel(c, now)
                    } else {
                        c
                    })
                },
            },
        },
{
    let i = match check_split_source(store, defs, p, source_item_instance_id, quantity_to_split) {
        Ok(i) => i,
        Err(e) => {
            return Err(e);
        },
    };
    if let Err(e) = reach {
        return Err(e);
    }
    let ghost rows0 = store.rows();
    let ghost next0 = store.next_id();
    let ghost c0 = *campfire;
    proof {
        match split_source_check(rows0, defs@, p, source_item_instance_id, quantity_to_split) {
            Ok(j) => {
                assert(j == i as int);
            },
            Err(_) => {},
        }
    }
    let res = handle_split_into_container(store, defs, campfire, target_slot_index, i, quantity_to_split);
    let ghost c1 = *campfire;
    if res.is_ok() {
        schedule_if_unscheduled(campfire, now);
    }
    proof {
        let out = split_into_container_outcome(rows0, next0, defs@, c0, target_slot_index, i as int, quantity_to_split);
        assert(out.3 == res);
        assert(out.2 == c1);
        assert(*campfire == (if res is Ok { after_refuel(c1, now) } else { c1 }));
    }
    res
}

/// Moves fuel between two slots of the campfire: merge, swap or move.
pub fn move_fuel_within_campfire(
    store: &mut ItemStore,
    defs: &Vec<ItemDefinition>,
    campfire: &mut Campfire,
    source_slot_index: u8,
    target_slot_index: u8,
) -> (r: Result<(), GameError>)
    requires
        old(store).wf(),
    ensures
        final(store).wf(),
        final(store).next_id() == old(store).next_id(),
        ({
            let (rows, c, res) = move_within_container_outcome(
                old(store).rows(),
                defs@,
                *old(campfire),
                source_slot_index,
                target_slot_index,
            );
            final(store).rows() == rows && *final(campfire) == c && r == res
        }),
{
    handle_move_within_container(store, defs, campfire, source_slot_index, target_slot_index)
}

/// Splits fuel from one campfire slot into another.
pub fn split_stack_within_campfire(
    store: &mut ItemStore,
    defs: &Vec<ItemDefinition>,
    campfire: &mut Campfire,
    source_slot_index: u8,
    quantity_to_split: u32,
    target_slot_index: u8,
) -> (r: Result<(), GameError>)
    requires
        old(store).wf(),
        old(store).next_id() < u64::MAX,
    ensures
        final(store).wf(),
        ({
            let (rows, next, c, res) = split_within_container_outcome(
                old(store).rows(),
                old(store).next_id(),
                defs@,
                *old(campfire),
                source_slot_index,
                target_slot_index,
                quantity_to_split,
            );
            final(store).rows() == rows && final(store).next_id() == next && *final(campfire)
                == c && r == res
        }),
{
    handle_split_within_container(
        store,
        defs,
        campfire,
        source_slot_index,
        target_slot_index,
        quantity_to_split,
    )
}

/// Moves the caller's item into the campfire's fuel slots (merging first).
pub fn quick_move_to_campfire(
    store: &mut ItemStore,
    defs: &Vec<ItemDefinition>,
    p: PlayerId,
    campfire: &mut Campfire,
    item_instance_id: u64,
    now: i64,
) -> (r: Result<(), GameError>)
    requires
        old(store).wf(),
        now <= LATEST_TIME,
    ensures
        final(store).wf(),
        final(store).next_id() == old(store).next_id(),
        ({
            let (rows, c, res) = quick_move_to_container_outcome(
                old(store).rows(),
                defs@,
                p,
                *old(campfire),
                item_instance_id,
            );
            final(store).rows() == rows && r == res && *final(campfire) == (if res is Ok {
                after_refuel(c, now)
            } else {
                c
            })
        }),
{
    let res = handle_quick_move_to_container(store, defs, p, campfire, item_instance_id);
    if res.is_ok() {
        schedule_if_unscheduled(campfire, now);
    }
    res
}

/// Moves a fuel slot's item into a player slot; a burning campfire left
/// without fuel goes out.
pub fn move_fuel_item_to_player_slot(
    store: &mut ItemStore,
    defs: &Vec<ItemDefinition>,
    equip: &mut Option<ActiveEquipment>,
    p: PlayerId,
    campfire: &mut Campfire,
    source_slot_index: u8,
    target_slot_type: &String,
    target_slot_index: u32,
) -> (r: Result<(), GameError>)
    requires
        old(store).wf(),
    ensures
        final(store).wf(),
        final(store).next_id() == old(store).next_id(),
        ({
            let (rows, eq, c, res) = move_from_container_outcome(
                old(store).rows(),
                defs@,
                *old(equip),
                p,
                *old(campfire),
                source_slot_index,
                slot_type_of(target_slot_type@),
                target_slot_index,
            );
            final(store).rows() == rows && *final(equip) == eq && r == res && *final(campfire)
                == (if res is Ok {
                after_unfuel(rows, defs@, c)
            } else {
                c
            })
        }),
{
    let res = handle_move_from_container_slot(
        store,
        defs,
        equip,
        p,
        campfire,
        source_slot_index,
        target_slot_type,
        target_slot_index,
    );
    if res.is_ok() {
        extinguish_if_out(store, defs, campfire);
    }
    res
}

/// Splits a fuel slot's stack into a player slot. The campfire is unchanged.
pub fn split_stack_from_campfire(
    store: &mut ItemStore,
    defs: &Vec<ItemDefinition>,
    equip: &mut Option<ActiveEquipment>,
    p: PlayerId,
    campfire: &Campfire,
    source_slot_index: u8,
    quantity_to_split: u32,
    target_slot_type: &String,
    target_slot_index: u32,
) -> (r: Result<(), GameError>)
    requires
        old(store).wf(),
        old(store).next_id() < u64::MAX,
    ensures
        final(store).wf(),
        ({
            let (rows, next, eq, res) = split_from_container_outcome(
                old(store).rows(),
                old(store).next_id(),
                defs@,
                *old(equip),
                p,
                *campfire,
                source_slot_index,
                quantity_to_split,
                slot_type_of(target_slot_type@),
                target_slot_index,
            );
            final(store).rows() == rows && final(store).next_id() == next && *final(equip) == eq
                && r == res
        }),
{
    handle_split_from_container(
        store,
        defs,
        equip,
        p,
        campfire,
        source_slot_index,
        quantity_to_split,
        target_slot_type,
        target_slot_index,
    )
}

/// Where a stack split off a campfire slot goes.
#[derive(Clone, Copy, Debug, PartialEq, Eq, Structural)]
pub enum SplitTarget {
    Player(SlotKind),
    CampfireFuel,
}

/// The target a client names: "inventory", "hotbar" or "campfire_fuel".
pub open spec fn split_target_of(s: Seq<char>) -> Option<SplitTarget> {
    if s == "inventory"@ {
        Some(SplitTarget::Player(SlotKind::Inventory))
    } else if s == "hotbar"@ {
        Some(SplitTarget::Player(SlotKind::Hotbar))
    } else if s == "campfire_fuel"@ {
        Some(SplitTarget::CampfireFuel)
    } else {
        None
    }
}

/// Reads a split target name.
pub fn parse_split_target(s: &String) -> (r: Option<SplitTarget>)
    ensures
        r == split_target_of(s@),
{
    if *s == String::from_str("inventory") {
        Some(SplitTarget::Player(SlotKind::Inventory))
    } else if *s == String::from_str("hotbar") {
        Some(SplitTarget::Player(SlotKind::Hotbar))
    } else if *s == String::from_str("campfire_fuel") {
        Some(SplitTarget::CampfireFuel)
    } else {
        None
    }
}

/// The player slot index a client's number names, cut to the slot kind's
/// index width (16 bits for the inventory, 8 for the hotbar).
pub open spec fn narrowed(kind: SlotKind, idx: u32) -> u32 {
    match kind {
        SlotKind::Inventory => (idx as u16) as u32,
        SlotKind::Hotbar => (idx as u8) as u32,
    }
}

/// Checks a split of `q` items off fuel slot `src`: the row index of the stack.
pub open spec fn fuel_split_check(
    rows: Seq<InventoryItem>,
    defs: Seq<ItemDefinition>,
    c: Campfire,
    src: u8,
    q: u32,
) -> Result<int, GameError> {
    if src >= NUM_FUEL_SLOTS {
        Err(GameError::SlotOutOfBounds { slot: src })
    } else {
        match c.slot_ids()[src as int] {
            None => Err(GameError::SlotEmpty { slot: src }),
            Some(sid) => if !has_id(rows, sid) {
                Err(GameError::ItemNotFound { instance_id: sid })
            } else {
                let item = rows[idx(rows, sid)];
                if def_index(defs, item.item_def_id) == -1 {
                    Err(GameError::DefinitionNotFound { def_id: item.item_def_id })
                } else if !defs[def_index(defs, item.item_def_id)].is_stackable {
                    Err(GameError::NotStackable)
                } else if q == 0 {
                    Err(GameError::ZeroQuantity)
                } else if q >= item.quantity {
                    Err(GameError::QuantityExceedsStack { requested: q, available: item.quantity })
                } else {
                    Ok(idx(rows, sid))
                }
            },
        }
    }
}

/// What splitting `q` items off a fuel slot and sending the new stack to a
/// player slot or to a fuel slot of the same campfire leaves. Any refusal
/// leaves everything as it was.
pub open spec fn split_and_move_outcome(
    rows: Seq<InventoryItem>,
    next: u64,
    defs: Seq<ItemDefinition>,
    equip: Option<ActiveEquipment>,
    p: PlayerId,
    c: Campfire,
    reach: Result<(), GameError>,
    src: u8,
    q: u32,
    target: Option<SplitTarget>,
    idx_: u32,
    now: i64,
) -> (Seq<InventoryItem>, u64, Option<ActiveEquipment>, Campfire, Result<(), GameError>) {
    match fuel_split_check(rows, defs, c, src, q) {
        Err(e) => (rows, next, equip, c, Err(e)),
        Ok(i) => {
            let item = rows[i];
            let rows1 = rows.update(i, InventoryItem { quantity: (item.quantity - q) as u32, ..item }).push(
                InventoryItem {
                    instance_id: next,
                    quantity: q,
                    hotbar_slot: None,
                    inventory_slot: None,
                    ..item
                },
            );
            let next1 = (next + 1) as u64;
            match target {
                Some(SplitTarget::Player(k)) => {
                    let (r2, e2, res) = move_outcome(rows1, defs, equip, p, next, k, narrowed(k, idx_));
                    if res is Ok {
                        (r2, next1, e2, c, res)
                    } else {
                        (rows, next, equip, c, res)
                    }
                },
                Some(SplitTarget::CampfireFuel) => match reach {
                    Err(e) => (rows, next, equip, c, Err(e)),
                    Ok(_) => {
                        let (r2, c2, res) = move_to_container_outcome(rows1, defs, p, c, idx_ as u8, next);
                        if res is Ok {
                            (r2, next1, equip, after_refuel(c2, now), res)
                        } else {
                            (rows, next, equip, c, res)
                        }
                    },
                },
                None => (rows, next, equip, c, Err(GameError::InvalidSlotType)),
            }
        },
    }
}

fn check_fuel_split(
    store: &ItemStore,
    defs: &Vec<ItemDefinition>,
    c: &Campfire,
    src: u8,
    q: u32,
) -> (r: Result<usize, GameError>)
    requires
        store.wf(),
    ensures
        match fuel_split_check(store.rows(), defs@, *c, src, q) {
            Ok(i) => r is Ok && r->Ok_0 as int == i && 0 <= i < store.rows().len(),
            Err(e) => r == Err::<usize, GameError>(e),
        },
{
    if src as usize >= NUM_FUEL_SLOTS {
        return Err(GameError::SlotOutOfBounds { slot: src });
    }
    let sid = match c.get_slot_instance_id(src) {
        Some(sid) => sid,
        None => {
            return Err(GameError::SlotEmpty { slot: src });
        },
    };
    let i = match store.find_index(sid) {
        Some(i) => i,
        None => {
            return Err(GameError::ItemNotFound { instance_id: sid });
        },
    };
    let item = store.get(i);
    let di = match find_def(defs, item.item_def_id) {
        Some(di) => di,
        None => {
            return Err(GameError::DefinitionNotFound { def_id: item.item_def_id });
        },
    };
    if !defs[di].is_stackable {
        return Err(GameError::NotStackable);
    }
    if q == 0 {
        return Err(GameError::ZeroQuantity);
    }
    if q >= item.quantity {
        return Err(GameError::QuantityExceedsStack { requested: q, available: item.quantity });
    }
    Ok(i)
}

/// Splits `quantity_to_split` items off a fuel slot and sends the new stack
/// to a player slot ("inventory", "hotbar") or back into a fuel slot of the
/// same campfire ("campfire_fuel", which needs `reach`).
pub fn split_and_move_from_campfire(
    store: &mut ItemStore,
    defs: &Vec<ItemDefinition>,
    equip: &mut Option<ActiveEquipment>,
    p: PlayerId,
    campfire: &mut Campfire,
    reach: Result<(), GameError>,
    source_slot_index: u8,
    quantity_to_split: u32,
    target_slot_type: &String,
    target_slot_index: u32,
    now: i64,
) -> (r: Result<(), GameError>)
    requires
        old(store).wf(),
        old(store).next_id() < u64::MAX,
        now <= LATEST_TIME,
    ensures
        final(store).wf(),
        ({
            let (rows, next, eq, c, res) = split_and_move_outcome(
                old(store).rows(),
                old(store).next_id(),
                defs@,
                *old(equip),
                p,
                *old(campfire),
                reach,
                source_slot_index,
                quantity_to_split,
                split_target_of(target_slot_type@),
                target_slot_index,
                now,
            );
            final(store).rows() == rows && final(store).next_id() == next && *final(equip) == eq
                && *final(campfire) == c && r == res
        }),
{
    let ghost rows0 = store.rows();
    let ghost next0 = store.next_id();
    let i = match check_fuel_split(store, defs, campfire, source_slot_index, quantity_to_split) {
        Ok(i) => i,
        Err(e) => {
            return Err(e);
        },
    };
    proof {
        match fuel_split_check(rows0, defs@, *campfire, source_slot_index, quantity_to_split) {
            Ok(j) => {
                assert(j == i as int);
            },
            Err(_) => {},
        }
    }
    let item = store.get(i);
    let saved = store.snapshot();
    let c_saved = *campfire;
    let eq_saved = *equip;
    let new_id = match split_stack_helper(store, i, quantity_to_split) {
        Ok(id) => id,
        Err(e) => {
            return Err(e);
        },
    };
    let ghost rows1 = store.rows();
    let res = match parse_split_target(target_slot_type) {
        Some(SplitTarget::Player(SlotKind::Inventory)) => move_to_player_slot(
            store,
            defs,
            equip,
            p,
            new_id,
            SlotKind::Inventory,
            (target_slot_index as u16) as u32,
        ),
        Some(SplitTarget::Player(SlotKind::Hotbar)) => move_to_player_slot(
            store,
            defs,
            equip,
            p,
            new_id,
            SlotKind::Hotbar,
            (target_slot_index as u8) as u32,
        ),
        Some(SplitTarget::CampfireFuel) => {
            match reach {
                Err(e) => Err(e),
                Ok(_) => add_fuel_to_campfire(
                    store,
                    defs,
                    p,
                    campfire,
                    target_slot_index as u8,
                    new_id,
                    now,
                ),
            }
        },
        None => Err(GameError::InvalidSlotType),
    };
    if res.is_err() {
        *store = saved;
        *campfire = c_saved;
        *equip = eq_saved;
    }
    res
}

/// Checks the caller may place item `id` as a `name` placeable: the row index.
pub open spec fn placeable_check(
    rows: Seq<InventoryItem>,
    defs: Seq<ItemDefinition>,
    p: PlayerId,
    id: u64,
    name: Seq<char>,
) -> Result<int, GameError> {
    let d = def_index_by_name(defs, name);
    if d == -1 {
        Err(GameError::NamedDefinitionNotFound)
    } else if !has_id(rows, id) {
        Err(GameError::ItemNotFound { instance_id: id })
    } else if rows[idx(rows, id)].player_identity != p {
        Err(GameError::ItemNotOwned { instance_id: id })
    } else if rows[idx(rows, id)].item_def_id != defs[d].id {
        Err(
            GameError::WrongItemKind {
                expected: defs[d].id,
                actual: rows[idx(rows, id)].item_def_id,
            },
        )
    } else if !in_player_slots(rows[idx(rows, id)]) {
        Err(GameError::NotInPlayerSlots)
    } else {
        Ok(idx(rows, id))
    }
}

/// Checks the caller may place item `id` as a `name` placeable.
pub fn check_placeable(
    store: &ItemStore,
    defs: &Vec<ItemDefinition>,
    p: PlayerId,
    id: u64,
    name: &String,
) -> (r: Result<usize, GameError>)
    requires
        store.wf(),
    ensures
        match placeable_check(store.rows(), defs@, p, id, name@) {
            Ok(i) => r is Ok && r->Ok_0 as int == i && 0 <= i < store.rows().len(),
            Err(e) => r == Err::<usize, GameError>(e),
        },
{
    let d = match find_def_by_name(defs, name) {
        Some(d) => d,
        None => {
            return Err(GameError::NamedDefinitionNotFound);
        },
    };
    let i = match store.find_index(id) {
        Some(i) => i,
        None => {
            return Err(GameError::ItemNotFound { instance_id: id });
        },
    };
    let item = store.get(i);
    if item.player_identity != p {
        return Err(GameError::ItemNotOwned { instance_id: id });
    }
    if item.item_def_id != defs[d].id {
        return Err(GameError::WrongItemKind { expected: defs[d].id, actual: item.item_def_id });
    }
    if item.inventory_slot.is_none() && item.hotbar_slot.is_none() {
        return Err(GameError::NotInPlayerSlots);
    }
    Ok(i)
}

/// Places a campfire from the caller's "Camp Fire" item: the item is used up
/// and the campfire starts burning with 50 Wood in its first fuel slot, the
/// first unit burning five seconds later. The campfire is returned for
/// insertion (its id is assigned on insertion).
pub fn place_campfire(
    store: &mut ItemStore,
    defs: &Vec<ItemDefinition>,
    p: PlayerId,
    item_instance_id: u64,
    chunk_index: u32,
    now: i64,
) -> (r: Result<Campfire, GameError>)
    requires
        old(store).wf(),
        old(store).next_id() < u64::MAX,
        now <= LATEST_TIME,
    ensures
        final(store).wf(),
        ({
            let rows = old(store).rows();
            let wood = def_index_by_name(defs@, "Wood"@);
            match placeable_check(rows, defs@, p, item_instance_id, "Camp Fire"@) {
                Err(e) => r == Err::<Campfire, GameError>(e) && final(store).rows() == rows,
                Ok(i) => if wood == -1 {
                    r == Err::<Campfire, GameError>(GameError::NamedDefinitionNotFound)
                        && final(store).rows() == rows
                } else {
                    let fuel = old(store).next_id();
                    final(store).rows() == rows.remove(i).push(
                        InventoryItem {
                            instance_id: fuel,
                            player_identity: p,
                            item_def_id: defs@[wood].id,
                            quantity: INITIAL_FUEL_QUANTITY,
                            hotbar_slot: None,
                            inventory_slot: None,
                        },
                    ) && final(store).next_id() == fuel + 1 && (r matches Ok(c) && c.id == 0
                        && c.chunk_index == chunk_index && c.placed_by == p && c.placed_at == now
                        && c.is_burning && c.next_fuel_consume_at == Some(
                        plus_secs(now, FUEL_CONSUME_INTERVAL_SECS as int) as i64,
                    ) && c.slot_ids() == seq![Some(fuel), None, None, None, None]
                        && c.slot_defs() == seq![Some(defs@[wood].id), None, None, None, None])
                },
            }
        }),
{
    let ghost rows0 = store.rows();
    let camp_name = String::from_str("Camp Fire");
    let i = match check_placeable(store, defs, p, item_instance_id, &camp_name) {
        Ok(i) => i,
        Err(e) => {
            return Err(e);
        },
    };
    proof {
        match placeable_check(rows0, defs@, p, item_instance_id, "Camp Fire"@) {
            Ok(j) => {
                assert(j == i as int);
            },
            Err(_) => {},
        }
    }
    let wood_name = String::from_str("Wood");
    let wood = match find_def_by_name(defs, &wood_name) {
        Some(wi) => wi,
        None => {
            return Err(GameError::NamedDefinitionNotFound);
        },
    };
    let wood_id = defs[wood].id;
    store.remove(i);
    let fuel = store.insert(
        InventoryItem {
            instance_id: 0,
            player_identity: p,
            item_def_id: wood_id,
            quantity: INITIAL_FUEL_QUANTITY,
            hotbar_slot: None,
            inventory_slot: None,
        },
    );
    Ok(lit_campfire(chunk_index, p, now, fuel, wood_id))
}

/// A newly placed campfire: burning, with the given fuel stack in slot 0.
fn lit_campfire(chunk_index: u32, p: PlayerId, now: i64, fuel: u64, wood_id: u64) -> (c: Campfire)
    requires
        now <= LATEST_TIME,
    ensures
        c.id == 0 && c.chunk_index == chunk_index && c.placed_by == p && c.placed_at == now
            && c.is_burning && c.next_fuel_consume_at == Some(
            plus_secs(now, FUEL_CONSUME_INTERVAL_SECS as int) as i64,
        ) && c.slot_ids() == seq![Some(fuel), None, None, None, None] && c.slot_defs() == seq![
            Some(wood_id),
            None,
            None,
            None,
            None,
        ],
{
    let at = timestamp_plus_secs(now, FUEL_CONSUME_INTERVAL_SECS);
    let mut c = Campfire::new(0, chunk_index, p, now, true, Some(at));
    c.fuel_instance_id_0 = Some(fuel);
    c.fuel_def_id_0 = Some(wood_id);
    assert(c.slot_ids() =~= seq![Some(fuel), None, None, None, None]);
    assert(c.slot_defs() =~= seq![Some(wood_id), None, None, None, None]);
    c
}

/// A fuel tick leaves an unlit campfire, and a lit one whose burn is not yet
/// due, as it was; a lit campfire whose burn was due (or unscheduled) goes on
/// burning exactly when fuel is left after the tick: it is never put out
/// while a slot still holds fuel.
pub proof fn law_fuel_tick_keeps_fire_fed(
    rows: Seq<InventoryItem>,
    defs: Seq<ItemDefinition>,
    c: Campfire,
    now: i64,
)
    ensures
        !c.is_burning ==> fuel_tick_outcome(rows, defs, c, now) == (rows, c),
        c.is_burning && (c.next_fuel_consume_at matches Some(t) ==> now >= t) ==> ({
            let (r2, c2) = fuel_tick_outcome(rows, defs, c, now);
            c2.is_burning <==> has_fuel(r2, defs, c2)
        }),
        c.is_burning && (c.next_fuel_consume_at matches Some(t) && now < t) ==> fuel_tick_outcome(
            rows,
            defs,
            c,
            now,
        ) == (rows, c),
{
    reveal(first_fuel_slot);
    let at = plus_secs(now, FUEL_CONSUME_INTERVAL_SECS as int);
    assert(scheduled(c, at).slot_ids() =~= c.slot_ids());
    assert(extinguished(c).slot_ids() =~= c.slot_ids());
    if c.is_burning && c.next_fuel_consume_at is Some && now >= c.next_fuel_consume_at->0 {
        let k = first_fuel_slot(rows, defs, c);
        if k != -1 {
            let i = idx(rows, c.slot_ids()[k]->0);
            let item = rows[i];
            let rem = (item.quantity - 1) as u32;
            let rows1 = rows.update(i, InventoryItem { quantity: rem, ..item });
            if rem == 0 {
                let rows2 = rows1.remove(i);
                let c2 = put(c, k, None, None);
                assert(extinguished(c2).slot_ids() =~= c2.slot_ids());
            }
        }
    }
}


/// A due fuel tick on a burning campfire that has fuel burns exactly one
/// item: the table holds one item fewer of the burned kind and as many as
/// before of every other kind. A tick that is not due, or finds no fuel,
/// burns nothing.
pub proof fn law_fuel_tick_burns_one(
    rows: Seq<InventoryItem>,
    next: u64,
    defs: Seq<ItemDefinition>,
    c: Campfire,
    now: i64,
)
    requires
        rows_wf(rows, next),
    ensures
        ({
            let r2 = fuel_tick_outcome(rows, defs, c, now).0;
            &&& c.is_burning && has_fuel(rows, defs, c) && (c.next_fuel_consume_at matches Some(t) && now
                >= t) ==> (exists|d: u64|
                kind_total(r2, d) == kind_total(rows, d) - 1 && (forall|d2: u64|
                    d2 != d ==> #[trigger] kind_total(r2, d2) == kind_total(rows, d2)))
            &&& !(c.is_burning && c.next_fuel_consume_at is Some && has_fuel(rows, defs, c)) ==> r2 == rows
            &&& (c.next_fuel_consume_at matches Some(t) && now < t) ==> r2 == rows
        }),
{
    reveal(first_fuel_slot);
    lemma_first_fuel_slot(rows, defs, c);
    if c.is_burning && c.next_fuel_consume_at is Some && now >= c.next_fuel_consume_at->0 {
        let k = first_fuel_slot(rows, defs, c);
        if k != -1 {
            lemma_fuel_slot(rows, defs, c.slot_ids()[k]);
            lemma_idx_in_range(rows, c.slot_ids()[k]->0);
            let i = idx(rows, c.slot_ids()[k]->0);
            let item = rows[i];
            let rem = (item.quantity - 1) as u32;
            let x = InventoryItem { quantity: rem, ..item };
            let rows1 = rows.update(i, x);
            let d = item.item_def_id;
            lemma_kind_total_update(rows, i, x, d);
            assert forall|d2: u64| d2 != d implies #[trigger] kind_total(rows1, d2) == kind_total(rows, d2) by {
                lemma_kind_total_update(rows, i, x, d2);
            }
            if rem == 0 {
                lemma_kind_total_remove(rows1, i, d);
                assert forall|d2: u64| d2 != d implies #[trigger] kind_total(rows1.remove(i), d2) == kind_total(
                    rows1,
                    d2,
                ) by {
                    lemma_kind_total_remove(rows1, i, d2);
                }
            }
            let r2 = fuel_tick_outcome(rows, defs, c, now).0;
            assert(kind_total(r2, d) == kind_total(rows, d) - 1);
        }
    }
}

/// The first fuel slot, when there is one, is a slot holding fuel.
proof fn lemma_first_fuel_slot(rows: Seq<InventoryItem>, defs: Seq<ItemDefinition>, c: Campfire)
    ensures
        first_fuel_slot(rows, defs, c) != -1 ==> 0 <= first_fuel_slot(rows, defs, c) < NUM_FUEL_SLOTS
            && is_fuel(rows, defs, c.slot_ids()[first_fuel_slot(rows, defs, c)]),
{
    reveal(first_fuel_slot);
    let ids = c.slot_ids();
    let f = |k: int| is_fuel(rows, defs, ids[k]);
    if f(0) {
        assert(forall|j: int| 0 <= j < 0 ==> !is_fuel(rows, defs, ids[j]));
    } else if f(1) {
        assert(forall|j: int| 0 <= j < 1 ==> !is_fuel(rows, defs, ids[j]));
    } else if f(2) {
        assert(forall|j: int| 0 <= j < 2 ==> !is_fuel(rows, defs, ids[j]));
    } else if f(3) {
        assert(forall|j: int| 0 <= j < 3 ==> !is_fuel(rows, defs, ids[j]));
    } else if f(4) {
        assert(forall|j: int| 0 <= j < 4 ==> !is_fuel(rows, defs, ids[j]));
    }
}

/// Burning fuel only lowers a fuel stack's quantity or deletes it, so no two
/// of a player's items end up in one slot.
pub proof fn law_fuel_tick_keeps_slots_distinct(
    rows: Seq<InventoryItem>,
    defs: Seq<ItemDefinition>,
    c: Campfire,
    now: i64,
)
    requires
        slots_distinct(rows),
    ensures
        slots_distinct(fuel_tick_outcome(rows, defs, c, now).0),
{
    if c.is_burning && c.next_fuel_consume_at is Some && now >= c.next_fuel_consume_at->0 {
        lemma_first_fuel_slot(rows, defs, c);
        let k = first_fuel_slot(rows, defs, c);
        if k != -1 {
            lemma_fuel_slot(rows, defs, c.slot_ids()[k]);
            lemma_idx_in_range(rows, c.slot_ids()[k]->0);
            let i = idx(rows, c.slot_ids()[k]->0);
            let item = rows[i];
            let rows1 = rows.update(i, InventoryItem { quantity: (item.quantity - 1) as u32, ..item });
            assert(same_places(rows, rows1));
            lemma_same_places(rows, rows1);
            lemma_remove_keeps_distinct(rows1, i);
        }
    }
}

/// A fuel check over all campfires keeps slots distinct, as each tick does.
pub proof fn law_fuel_pass_keeps_slots_distinct(
    rows: Seq<InventoryItem>,
    defs: Seq<ItemDefinition>,
    cs: Seq<Campfire>,
    now: i64,
    n: nat,
)
    requires
        slots_distinct(rows),
    ensures
        slots_distinct(fuel_pass(rows, defs, cs, now, n).0),
    decreases n,
{
    if n > 0 && n <= cs.len() {
        law_fuel_pass_keeps_slots_distinct(rows, defs, cs, now, (n - 1) as nat);
        let (r, c2) = fuel_pass(rows, defs, cs, now, (n - 1) as nat);
        law_fuel_tick_keeps_slots_distinct(r, defs, c2[n - 1], now);
    }
}


/// Splitting a fuel stack and sending the new stack to a player slot or a
/// fuel slot never leaves two of a player's items in one slot: the new stack
/// starts in no slot, and moves as a move to that slot would.
pub proof fn law_split_and_move_keeps_slots_distinct(
    rows: Seq<InventoryItem>,
    next: u64,
    defs: Seq<ItemDefinition>,
    equip: Option<ActiveEquipment>,
    p: PlayerId,
    c: Campfire,
    reach: Result<(), GameError>,
    src: u8,
    q: u32,
    target: Option<SplitTarget>,
    idx_: u32,
    now: i64,
)
    requires
        rows_wf(rows, next),
        next < u64::MAX,
        slots_distinct(rows),
    ensures
        slots_distinct(
            split_and_move_outcome(rows, next, defs, equip, p, c, reach, src, q, target, idx_, now).0,
        ),
{
    match fuel_split_check(rows, defs, c, src, q) {
        Err(_) => {},
        Ok(i) => {
            let sid = c.slot_ids()[src as int]->0;
            let w = choose|w: int| 0 <= w < rows.len() && rows[w].instance_id == sid;
            lemma_idx(rows, next, w);
            lemma_split_off(rows, next, i, q);
            let rows1 = split_off(rows, next, i, q);
            match target {
                Some(SplitTarget::Player(k)) => {
                    law_move_keeps_slots_distinct(
                        rows1,
                        (next + 1) as u64,
                        defs,
                        equip,
                        p,
                        next,
                        k,
                        narrowed(k, idx_),
                    );
                },
                Some(SplitTarget::CampfireFuel) => {
                    law_move_to_container_keeps_slots_distinct(
                        rows1,
                        (next + 1) as u64,
                        defs,
                        p,
                        c,
                        idx_ as u8,
                        next,
                    );
                },
                None => {},
            }
        },
    }
}


/// Placing a campfire deletes the placed item and adds its fuel stack, which
/// sits in no player slot, so no two of a player's items end up in one slot.
pub proof fn law_place_campfire_keeps_slots_distinct(
    rows: Seq<InventoryItem>,
    defs: Seq<ItemDefinition>,
    p: PlayerId,
    id: u64,
    fuel: InventoryItem,
)
    requires
        slots_distinct(rows),
        placeable_check(rows, defs, p, id, "Camp Fire"@) is Ok,
        fuel.hotbar_slot is None,
        fuel.inventory_slot is None,
    ensures
        slots_distinct(rows.remove(placeable_check(rows, defs, p, id, "Camp Fire"@)->Ok_0).push(fuel)),
{
    let i = placeable_check(rows, defs, p, id, "Camp Fire"@)->Ok_0;
    lemma_idx_in_range(rows, id);
    lemma_remove_keeps_distinct(rows, i);
    lemma_push_keeps_distinct(rows.remove(i), fuel);
}

} // verus!
