use vstd::prelude::*;
use crate::types::{PlayerId, EquipmentSlot, InventoryItem, ItemDefinition, def_index_by_name, find_def_by_name};
use crate::store::{ItemStore, slots_distinct, hot_slot_taken, lemma_push_keeps_distinct};
use crate::equipment::{ActiveEquipment, with_worn, row_or_empty};

verus! {

/// The hotbar items a new player starts with: (name, quantity, hotbar slot).
pub open spec fn starting_hotbar() -> Seq<(Seq<char>, u32, u8)> {
    seq![
        ("Stone Hatchet"@, 1u32, 1u8),
        ("Stone Pickaxe"@, 1u32, 2u8),
        ("Wooden Storage Box"@, 1u32, 3u8),
        ("Camp Fire"@, 1u32, 4u8),
    ]
}

/// The armor a new player starts wearing: (name, body slot).
pub open spec fn starting_armor() -> Seq<(Seq<char>, EquipmentSlot)> {
    seq![
        ("Cloth Hood"@, EquipmentSlot::Head),
        ("Cloth Shirt"@, EquipmentSlot::Chest),
        ("Cloth Pants"@, EquipmentSlot::Legs),
        ("Cloth Boots"@, EquipmentSlot::Feet),
        ("Cloth Gloves"@, EquipmentSlot::Hands),
        ("Burlap Backpack"@, EquipmentSlot::Back),
    ]
}

/// The rows after the first `k` starting hotbar items were inserted (those
/// whose definition exists), with the next instance id.
pub open spec fn hotbar_granted(
    rows: Seq<InventoryItem>,
    next: u64,
    defs: Seq<ItemDefinition>,
    p: PlayerId,
    k: int,
) -> (Seq<InventoryItem>, u64)
    decreases k,
{
    if k <= 0 {
        (rows, next)
    } else {
        let (r, n) = hotbar_granted(rows, next, defs, p, k - 1);
        let (name, q, slot) = starting_hotbar()[k - 1];
        let d = def_index_by_name(defs, name);
        if d == -1 {
            (r, n)
        } else {
            (
                r.push(
                    InventoryItem {
                        instance_id: n,
                        player_identity: p,
                        item_def_id: defs[d].id,
                        quantity: q,
                        hotbar_slot: Some(slot),
                        inventory_slot: None,
                    },
                ),
                (n + 1) as u64,
            )
        }
    }
}

/// The rows and equipment row after the first `k` starting armor pieces were
/// created (unplaced) and worn (those whose definition exists).
pub open spec fn armor_granted(
    rows: Seq<InventoryItem>,
    next: u64,
    defs: Seq<ItemDefinition>,
    p: PlayerId,
    e: ActiveEquipment,
    k: int,
) -> (Seq<InventoryItem>, u64, ActiveEquipment)
    decreases k,
{
    if k <= 0 {
        (rows, next, e)
    } else {
        let (r, n, e1) = armor_granted(rows, next, defs, p, e, k - 1);
        let (name, s) = starting_armor()[k - 1];
        let d = def_index_by_name(defs, name);
        if d == -1 {
            (r, n, e1)
        } else {
            (
                r.push(
                    InventoryItem {
                        instance_id: n,
                        player_identity: p,
                        item_def_id: defs[d].id,
                        quantity: 1,
                        hotbar_slot: None,
                        inventory_slot: None,
                    },
                ),
                (n + 1) as u64,
                with_worn(e1, s, Some(n)),
            )
        }
    }
}

fn hotbar_entry(k: usize) -> (r: (String, u32, u8))
    requires
        k < 4,
    ensures
        (r.0@, r.1, r.2) == starting_hotbar()[k as int],
{
    if k == 0 {
        ("Stone Hatchet".to_owned(), 1, 1)
    } else if k == 1 {
        ("Stone Pickaxe".to_owned(), 1, 2)
    } else if k == 2 {
        ("Wooden Storage Box".to_owned(), 1, 3)
    } else {
        ("Camp Fire".to_owned(), 1, 4)
    }
}

fn armor_entry(k: usize) -> (r: (String, EquipmentSlot))
    requires
        k < 6,
    ensures
        (r.0@, r.1) == starting_armor()[k as int],
{
    if k == 0 {
        ("Cloth Hood".to_owned(), EquipmentSlot::Head)
    } else if k == 1 {
        ("Cloth Shirt".to_owned(), EquipmentSlot::Chest)
    } else if k == 2 {
        ("Cloth Pants".to_owned(), EquipmentSlot::Legs)
    } else if k == 3 {
        ("Cloth Boots".to_owned(), EquipmentSlot::Feet)
    } else if k == 4 {
        ("Cloth Gloves".to_owned(), EquipmentSlot::Hands)
    } else {
        ("Burlap Backpack".to_owned(), EquipmentSlot::Back)
    }
}

/// Gives a new player the starting hotbar items (Stone Hatchet, Stone
/// Pickaxe, Wooden Storage Box, Camp Fire in hotbar slots 1 to 4) and wears
/// the starting cloth armor and backpack; the equipment row is created when
/// missing. Items without a definition are skipped.
pub fn grant_starting_items(
    store: &mut ItemStore,
    defs: &Vec<ItemDefinition>,
    equip: &mut Option<ActiveEquipment>,
    p: PlayerId,
)
    requires
        old(store).wf(),
        old(store).next_id() + 10 < u64::MAX,
    ensures
        final(store).wf(),
        ({
            let (r1, n1) = hotbar_granted(old(store).rows(), old(store).next_id(), defs@, p, 4);
            let (r2, n2, e2) = armor_granted(r1, n1, defs@, p, row_or_empty(*old(equip), p), 6);
            final(store).rows() == r2 && final(store).next_id() == n2 && *final(equip) == Some(e2)
        }),
{
    let ghost rows0 = store.rows();
    let ghost next0 = store.next_id();
    let mut k: usize = 0;
    while k < 4
        invariant
            store.wf(),
            k <= 4,
            next0 + 10 < u64::MAX,
            store.next_id() <= next0 + k,
            (store.rows(), store.next_id()) == hotbar_granted(rows0, next0, defs@, p, k as int),
        decreases 4 - k,
    {
        let (name, q, slot) = hotbar_entry(k);
        if let Some(d) = find_def_by_name(defs, &name) {
            let _id = store.insert(
                InventoryItem {
                    instance_id: 0,
                    player_identity: p,
                    item_def_id: defs[d].id,
                    quantity: q,
                    hotbar_slot: Some(slot),
                    inventory_slot: None,
                },
            );
        }
        k = k + 1;
    }
    let ghost rows1 = store.rows();
    let ghost next1 = store.next_id();
    let mut e = match *equip {
        Some(e) => e,
        None => ActiveEquipment::empty(p),
    };
    let ghost e0 = e;
    assert(e0 == row_or_empty(*equip, p));
    let mut j: usize = 0;
    while j < 6
        invariant
            store.wf(),
            j <= 6,
            next0 + 10 < u64::MAX,
            next1 <= next0 + 4,
            store.next_id() <= next1 + j,
            (store.rows(), store.next_id(), e) == armor_granted(rows1, next1, defs@, p, e0, j as int),
        decreases 6 - j,
    {
        let (name, s) = armor_entry(j);
        if let Some(d) = find_def_by_name(defs, &name) {
            let id = store.insert(
                InventoryItem {
                    instance_id: 0,
                    player_identity: p,
                    item_def_id: defs[d].id,
                    quantity: 1,
                    hotbar_slot: None,
                    inventory_slot: None,
                },
            );
            e.set_worn(s, Some(id));
        }
        j = j + 1;
    }
    *equip = Some(e);
}


proof fn lemma_hotbar_granted(rows: Seq<InventoryItem>, next: u64, defs: Seq<ItemDefinition>, p: PlayerId, k: int)
    requires
        0 <= k <= 4,
        slots_distinct(rows),
        forall|j: int|
            0 <= j < 4 && def_index_by_name(defs, #[trigger] starting_hotbar()[j].0) != -1
                ==> !hot_slot_taken(rows, p, starting_hotbar()[j].2),
    ensures
        slots_distinct(hotbar_granted(rows, next, defs, p, k).0),
        forall|s: u8|
            #[trigger] hot_slot_taken(hotbar_granted(rows, next, defs, p, k).0, p, s) ==> hot_slot_taken(
                rows,
                p,
                s,
            ) || (1 <= s && s <= k),
    decreases k,
{
    let h = starting_hotbar();
    assert(h[0].2 == 1u8 && h[1].2 == 2u8 && h[2].2 == 3u8 && h[3].2 == 4u8);
    if k > 0 {
        lemma_hotbar_granted(rows, next, defs, p, k - 1);
        let (r, n) = hotbar_granted(rows, next, defs, p, k - 1);
        let (name, q, slot) = h[k - 1];
        let d = def_index_by_name(defs, name);
        if d != -1 {
            assert(slot == k as u8);
            assert(!hot_slot_taken(rows, p, h[k - 1].2));
            assert(!hot_slot_taken(r, p, slot));
            let x = InventoryItem {
                instance_id: n,
                player_identity: p,
                item_def_id: defs[d].id,
                quantity: q,
                hotbar_slot: Some(slot),
                inventory_slot: None,
            };
            lemma_push_keeps_distinct(r, x);
            let r2 = r.push(x);
            assert forall|s: u8| #[trigger] hot_slot_taken(r2, p, s) implies hot_slot_taken(rows, p, s) || (1
                <= s && s <= k) by {
                let c = choose|c: int| 0 <= c < r2.len() && r2[c].player_identity == p && r2[c].hotbar_slot
                    == Some(s);
                if c < r.len() {
                    assert(r2[c] == r[c]);
                    assert(hot_slot_taken(r, p, s));
                }
            }
        }
    }
}

proof fn lemma_armor_granted(
    rows: Seq<InventoryItem>,
    next: u64,
    defs: Seq<ItemDefinition>,
    p: PlayerId,
    e: ActiveEquipment,
    k: int,
)
    requires
        slots_distinct(rows),
    ensures
        slots_distinct(armor_granted(rows, next, defs, p, e, k).0),
    decreases k,
{
    if k > 0 {
        lemma_armor_granted(rows, next, defs, p, e, k - 1);
        let (r, n, e1) = armor_granted(rows, next, defs, p, e, k - 1);
        let (name, s) = starting_armor()[k - 1];
        let d = def_index_by_name(defs, name);
        if d != -1 {
            lemma_push_keeps_distinct(
                r,
                InventoryItem {
                    instance_id: n,
                    player_identity: p,
                    item_def_id: defs[d].id,
                    quantity: 1,
                    hotbar_slot: None,
                    inventory_slot: None,
                },
            );
        }
    }
}

/// The starting kit goes into hotbar slots 1 to 4 and onto the body, so no
/// two of a player's items end up in one slot, unless the player already
/// had something in a hotbar slot that a starting item goes to.
pub proof fn law_starting_items_keep_slots_distinct(
    rows: Seq<InventoryItem>,
    next: u64,
    defs: Seq<ItemDefinition>,
    p: PlayerId,
    e: ActiveEquipment,
)
    requires
        slots_distinct(rows),
        forall|j: int|
            0 <= j < 4 && def_index_by_name(defs, #[trigger] starting_hotbar()[j].0) != -1
                ==> !hot_slot_taken(rows, p, starting_hotbar()[j].2),
    ensures
        ({
            let (r1, n1) = hotbar_granted(rows, next, defs, p, 4);
            slots_distinct(armor_granted(r1, n1, defs, p, e, 6).0)
        }),
{
    lemma_hotbar_granted(rows, next, defs, p, 4);
    let (r1, n1) = hotbar_granted(rows, next, defs, p, 4);
    lemma_armor_granted(r1, n1, defs, p, e, 6);
}

} // verus!
