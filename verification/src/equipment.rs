use vstd::prelude::*;
use vstd::string::StringExecFns;
use crate::types::{
    PlayerId, EquipmentSlot, InventoryItem, ItemDefinition, ItemCategory, def_index, find_def,
};
use crate::store::{
    ItemStore, rows_wf, single_location, in_player_slots, has_id, idx, at_inventory, unslotted,
    first_free_inv, lemma_idx, slots_distinct, lemma_unslot_keeps_distinct,
    lemma_place_free_keeps_distinct, lemma_first_free_is_free,
};
use crate::slots::{get_player_item, find_first_empty_inventory_slot};
use crate::errors::GameError;

verus! {

/// A player's equipment row: the main-hand item and the six worn armor pieces.
#[derive(Clone, Copy, Debug, PartialEq, Eq, Structural)]
pub struct ActiveEquipment {
    pub player_identity: PlayerId,
    pub equipped_item_def_id: Option<u64>,
    pub equipped_item_instance_id: Option<u64>,
    pub swing_start_time_ms: u64,
    pub head_item_instance_id: Option<u64>,
    pub chest_item_instance_id: Option<u64>,
    pub legs_item_instance_id: Option<u64>,
    pub feet_item_instance_id: Option<u64>,
    pub hands_item_instance_id: Option<u64>,
    pub back_item_instance_id: Option<u64>,
}

/// A fresh equipment row: nothing held, nothing worn.
pub open spec fn empty_equipment(p: PlayerId) -> ActiveEquipment {
    ActiveEquipment {
        player_identity: p,
        equipped_item_def_id: None,
        equipped_item_instance_id: None,
        swing_start_time_ms: 0,
        head_item_instance_id: None,
        chest_item_instance_id: None,
        legs_item_instance_id: None,
        feet_item_instance_id: None,
        hands_item_instance_id: None,
        back_item_instance_id: None,
    }
}

/// The item worn in a body slot.
pub open spec fn worn(e: ActiveEquipment, s: EquipmentSlot) -> Option<u64> {
    match s {
        EquipmentSlot::Head => e.head_item_instance_id,
        EquipmentSlot::Chest => e.chest_item_instance_id,
        EquipmentSlot::Legs => e.legs_item_instance_id,
        EquipmentSlot::Feet => e.feet_item_instance_id,
        EquipmentSlot::Hands => e.hands_item_instance_id,
        EquipmentSlot::Back => e.back_item_instance_id,
    }
}

/// The row with a body slot set to `v`.
pub open spec fn with_worn(e: ActiveEquipment, s: EquipmentSlot, v: Option<u64>) -> ActiveEquipment {
    match s {
        EquipmentSlot::Head => ActiveEquipment { head_item_instance_id: v, ..e },
        EquipmentSlot::Chest => ActiveEquipment { chest_item_instance_id: v, ..e },
        EquipmentSlot::Legs => ActiveEquipment { legs_item_instance_id: v, ..e },
        EquipmentSlot::Feet => ActiveEquipment { feet_item_instance_id: v, ..e },
        EquipmentSlot::Hands => ActiveEquipment { hands_item_instance_id: v, ..e },
        EquipmentSlot::Back => ActiveEquipment { back_item_instance_id: v, ..e },
    }
}

/// The row with the main hand emptied and the swing reset.
pub open spec fn hand_cleared(e: ActiveEquipment) -> ActiveEquipment {
    ActiveEquipment {
        equipped_item_def_id: None,
        equipped_item_instance_id: None,
        swing_start_time_ms: 0,
        ..e
    }
}

/// Empties `v` out of a slot value.
pub open spec fn drop_id(v: Option<u64>, id: u64) -> Option<u64> {
    if v == Some(id) {
        None
    } else {
        v
    }
}

/// The row with item `id` taken out of the main hand and every body slot.
pub open spec fn without_item(e: ActiveEquipment, id: u64) -> ActiveEquipment {
    let h = if e.equipped_item_instance_id == Some(id) {
        hand_cleared(e)
    } else {
        e
    };
    ActiveEquipment {
        head_item_instance_id: drop_id(e.head_item_instance_id, id),
        chest_item_instance_id: drop_id(e.chest_item_instance_id, id),
        legs_item_instance_id: drop_id(e.legs_item_instance_id, id),
        feet_item_instance_id: drop_id(e.feet_item_instance_id, id),
        hands_item_instance_id: drop_id(e.hands_item_instance_id, id),
        back_item_instance_id: drop_id(e.back_item_instance_id, id),
        ..h
    }
}

/// Whether item `id` is held or worn.
pub open spec fn holds_item(e: ActiveEquipment, id: u64) -> bool {
    e.equipped_item_instance_id == Some(id) || worn(e, EquipmentSlot::Head) == Some(id) || worn(
        e,
        EquipmentSlot::Chest,
    ) == Some(id) || worn(e, EquipmentSlot::Legs) == Some(id) || worn(e, EquipmentSlot::Feet)
        == Some(id) || worn(e, EquipmentSlot::Hands) == Some(id) || worn(e, EquipmentSlot::Back)
        == Some(id)
}

/// The equipment rows with item `id` taken out of the player's row, if any.
pub open spec fn equipment_without(eq: Option<ActiveEquipment>, id: u64) -> Option<ActiveEquipment> {
    match eq {
        Some(e) => Some(without_item(e, id)),
        None => None,
    }
}

impl ActiveEquipment {
    /// A fresh row for the player.
    pub fn empty(p: PlayerId) -> (e: ActiveEquipment)
        ensures
            e == empty_equipment(p),
    {
        ActiveEquipment {
            player_identity: p,
            equipped_item_def_id: None,
            equipped_item_instance_id: None,
            swing_start_time_ms: 0,
            head_item_instance_id: None,
            chest_item_instance_id: None,
            legs_item_instance_id: None,
            feet_item_instance_id: None,
            hands_item_instance_id: None,
            back_item_instance_id: None,
        }
    }

    /// The item worn in the body slot.
    pub fn worn_in(&self, s: EquipmentSlot) -> (r: Option<u64>)
        ensures
            r == worn(*self, s),
    {
        match s {
            EquipmentSlot::Head => self.head_item_instance_id,
            EquipmentSlot::Chest => self.chest_item_instance_id,
            EquipmentSlot::Legs => self.legs_item_instance_id,
            EquipmentSlot::Feet => self.feet_item_instance_id,
            EquipmentSlot::Hands => self.hands_item_instance_id,
            EquipmentSlot::Back => self.back_item_instance_id,
        }
    }

    /// Sets the item worn in the body slot.
    pub fn set_worn(&mut self, s: EquipmentSlot, v: Option<u64>)
        ensures
            *final(self) == with_worn(*old(self), s, v),
    {
        match s {
            EquipmentSlot::Head => self.head_item_instance_id = v,
            EquipmentSlot::Chest => self.chest_item_instance_id = v,
            EquipmentSlot::Legs => self.legs_item_instance_id = v,
            EquipmentSlot::Feet => self.feet_item_instance_id = v,
            EquipmentSlot::Hands => self.hands_item_instance_id = v,
            EquipmentSlot::Back => self.back_item_instance_id = v,
        }
    }

    /// Empties the main hand and resets the swing.
    pub fn clear_hand(&mut self)
        ensures
            *final(self) == hand_cleared(*old(self)),
    {
        self.equipped_item_def_id = None;
        self.equipped_item_instance_id = None;
        self.swing_start_time_ms = 0;
    }
}

/// Takes item `id` out of the main hand and all body slots of the player's
/// equipment row, when the player has one. Afterwards the row holds the item
/// nowhere, and every slot that held something else holds it still.
pub fn clear_specific_item_from_equipment_slots(equip: &mut Option<ActiveEquipment>, id: u64)
    ensures
        *final(equip) == equipment_without(*old(equip), id),
        *final(equip) matches Some(e) ==> !holds_item(e, id),
{
    if let Some(e) = equip {
        if e.equipped_item_instance_id == Some(id) {
            e.clear_hand();
        }
        if e.head_item_instance_id == Some(id) {
            e.head_item_instance_id = None;
        }
        if e.chest_item_instance_id == Some(id) {
            e.chest_item_instance_id = None;
        }
        if e.legs_item_instance_id == Some(id) {
            e.legs_item_instance_id = None;
        }
        if e.feet_item_instance_id == Some(id) {
            e.feet_item_instance_id = None;
        }
        if e.hands_item_instance_id == Some(id) {
            e.hands_item_instance_id = None;
        }
        if e.back_item_instance_id == Some(id) {
            e.back_item_instance_id = None;
        }
    }
}

/// The player's equipment row, created empty when missing.
pub open spec fn row_or_empty(eq: Option<ActiveEquipment>, p: PlayerId) -> ActiveEquipment {
    match eq {
        Some(e) => e,
        None => empty_equipment(p),
    }
}

/// Returns the player's equipment row, creating an empty one when missing.
pub fn get_or_create_active_equipment(equip: &mut Option<ActiveEquipment>, p: PlayerId) -> (e:
    ActiveEquipment)
    ensures
        e == row_or_empty(*old(equip), p),
        *final(equip) == Some(e),
{
    match equip {
        Some(e) => *e,
        None => {
            let e = ActiveEquipment::empty(p);
            *equip = Some(e);
            e
        },
    }
}

/// Puts the caller's item `id` into the main hand. An item that cannot be
/// equipped, and armor (worn, not held), empties the main hand instead.
pub fn equip_item(
    store: &ItemStore,
    defs: &Vec<ItemDefinition>,
    equip: &mut Option<ActiveEquipment>,
    p: PlayerId,
    item_instance_id: u64,
) -> (r: Result<(), GameError>)
    requires
        store.wf(),
    ensures
        ({
            let rows = store.rows();
            let id = item_instance_id;
            if !has_id(rows, id) {
                r == Err::<(), GameError>(GameError::ItemNotFound { instance_id: id })
                    && *final(equip) == *old(equip)
            } else if rows[idx(rows, id)].player_identity != p {
                r == Err::<(), GameError>(GameError::ItemNotOwned { instance_id: id })
                    && *final(equip) == *old(equip)
            } else if def_index(defs@, rows[idx(rows, id)].item_def_id) == -1 {
                r == Err::<(), GameError>(
                    GameError::DefinitionNotFound { def_id: rows[idx(rows, id)].item_def_id },
                ) && *final(equip) == *old(equip)
            } else {
                let def = defs@[def_index(defs@, rows[idx(rows, id)].item_def_id)];
                let e = row_or_empty(*old(equip), p);
                r is Ok && *final(equip) == Some(
                    if !def.is_equippable || def.category == ItemCategory::Armor {
                        hand_cleared(e)
                    } else {
                        ActiveEquipment {
                            equipped_item_def_id: Some(def.id),
                            equipped_item_instance_id: Some(id),
                            swing_start_time_ms: 0,
                            ..e
                        }
                    },
                )
            }
        }),
{
    let i = match store.find_index(item_instance_id) {
        Some(i) => i,
        None => {
            return Err(GameError::ItemNotFound { instance_id: item_instance_id });
        },
    };
    let item = store.get(i);
    if item.player_identity != p {
        return Err(GameError::ItemNotOwned { instance_id: item_instance_id });
    }
    let di = match find_def(defs, item.item_def_id) {
        Some(di) => di,
        None => {
            return Err(GameError::DefinitionNotFound { def_id: item.item_def_id });
        },
    };
    let def = &defs[di];
    let mut e = get_or_create_active_equipment(equip, p);
    if !def.is_equippable || def.category == ItemCategory::Armor {
        e.clear_hand();
    } else {
        e.equipped_item_def_id = Some(def.id);
        e.equipped_item_instance_id = Some(item_instance_id);
        e.swing_start_time_ms = 0;
    }
    *equip = Some(e);
    Ok(())
}

/// Empties the main hand of the player's equipment row, if it holds an item.
/// Worn armor stays.
pub fn unequip_item(equip: &mut Option<ActiveEquipment>) -> (r: Result<(), GameError>)
    ensures
        r is Ok,
        *final(equip) == match *old(equip) {
            Some(e) => Some(
                if e.equipped_item_instance_id is Some {
                    hand_cleared(e)
                } else {
                    e
                },
            ),
            None => None,
        },
{
    if let Some(e) = equip {
        if e.equipped_item_instance_id.is_some() {
            e.clear_hand();
        }
    }
    Ok(())
}

/// Checks an item can be worn: its definition is armor with a body slot.
pub open spec fn armor_slot_of(defs: Seq<ItemDefinition>, item: InventoryItem) -> Result<
    EquipmentSlot,
    GameError,
> {
    if def_index(defs, item.item_def_id) == -1 {
        Err(GameError::DefinitionNotFound { def_id: item.item_def_id })
    } else if defs[def_index(defs, item.item_def_id)].category != ItemCategory::Armor {
        Err(GameError::NotArmor)
    } else {
        match defs[def_index(defs, item.item_def_id)].equipment_slot {
            Some(s) => Ok(s),
            None => Err(GameError::NoEquipmentSlot),
        }
    }
}

fn armor_slot(defs: &Vec<ItemDefinition>, item: &InventoryItem) -> (r: Result<
    EquipmentSlot,
    GameError,
>)
    ensures
        r == armor_slot_of(defs@, *item),
{
    let di = match find_def(defs, item.item_def_id) {
        Some(di) => di,
        None => {
            return Err(GameError::DefinitionNotFound { def_id: item.item_def_id });
        },
    };
    if defs[di].category != ItemCategory::Armor {
        return Err(GameError::NotArmor);
    }
    match defs[di].equipment_slot {
        Some(s) => Ok(s),
        None => Err(GameError::NoEquipmentSlot),
    }
}

/// What wearing the caller's armor item `id` leaves: the piece worn before in
/// that body slot takes the place the new piece came from.
pub open spec fn equip_armor_outcome(
    rows: Seq<InventoryItem>,
    defs: Seq<ItemDefinition>,
    equip: Option<ActiveEquipment>,
    p: PlayerId,
    id: u64,
) -> (Seq<InventoryItem>, Option<ActiveEquipment>, Result<(), GameError>) {
    if !has_id(rows, id) || rows[idx(rows, id)].player_identity != p {
        (rows, equip, Err(GameError::ItemNotFoundOrNotOwned { instance_id: id }))
    } else {
        let item = rows[idx(rows, id)];
        match armor_slot_of(defs, item) {
            Err(e) => (rows, equip, Err(e)),
            Ok(s) => {
                let e = row_or_empty(equip, p);
                let r1 = match worn(e, s) {
                    Some(old_id) => if has_id(rows, old_id) {
                        rows.update(
                            idx(rows, old_id),
                            InventoryItem {
                                hotbar_slot: item.hotbar_slot,
                                inventory_slot: item.inventory_slot,
                                ..rows[idx(rows, old_id)]
                            },
                        )
                    } else {
                        rows
                    },
                    None => rows,
                };
                (r1.update(idx(rows, id), unslotted(item)), Some(with_worn(e, s, Some(id))), Ok(()))
            },
        }
    }
}

/// Wears the caller's armor item in its body slot; a piece worn there before
/// goes to the hotbar or inventory slot the new piece came from.
pub fn equip_armor(
    store: &mut ItemStore,
    defs: &Vec<ItemDefinition>,
    equip: &mut Option<ActiveEquipment>,
    p: PlayerId,
    item_instance_id: u64,
) -> (r: Result<(), GameError>)
    requires
        old(store).wf(),
    ensures
        final(store).wf(),
        final(store).next_id() == old(store).next_id(),
        ({
            let (rows, eq, res) = equip_armor_outcome(
                old(store).rows(),
                defs@,
                *old(equip),
                p,
                item_instance_id,
            );
            final(store).rows() == rows && *final(equip) == eq && r == res
        }),
{
    let ghost rows0 = store.rows();
    let i = match get_player_item(store, p, item_instance_id) {
        Some(i) => i,
        None => {
            return Err(GameError::ItemNotFoundOrNotOwned { instance_id: item_instance_id });
        },
    };
    let item = store.get(i);
    let s = match armor_slot(defs, &item) {
        Ok(s) => s,
        Err(e) => {
            return Err(e);
        },
    };
    let mut e = get_or_create_active_equipment(equip, p);
    if let Some(old_id) = e.worn_in(s) {
        if let Some(k) = store.find_index(old_id) {
            let old_item = store.get(k);
            proof {
                assert(single_location(rows0[i as int]));
            }
            store.set(
                k,
                InventoryItem {
                    hotbar_slot: item.hotbar_slot,
                    inventory_slot: item.inventory_slot,
                    ..old_item
                },
            );
        }
    }
    e.set_worn(s, Some(item_instance_id));
    *equip = Some(e);
    store.set(i, InventoryItem { hotbar_slot: None, inventory_slot: None, ..item });
    Ok(())
}

/// What wearing armor from the caller's hotbar or inventory leaves: a
/// different piece worn in that slot goes to the lowest free inventory slot.
pub open spec fn equip_armor_from_inventory_outcome(
    rows: Seq<InventoryItem>,
    defs: Seq<ItemDefinition>,
    equip: Option<ActiveEquipment>,
    p: PlayerId,
    id: u64,
) -> (Seq<InventoryItem>, Option<ActiveEquipment>, Result<(), GameError>) {
    if !has_id(rows, id) || rows[idx(rows, id)].player_identity != p {
        (rows, equip, Err(GameError::ItemNotFoundOrNotOwned { instance_id: id }))
    } else {
        let item = rows[idx(rows, id)];
        match armor_slot_of(defs, item) {
            Err(e) => (rows, equip, Err(e)),
            Ok(s) => if !in_player_slots(item) {
                (rows, equip, Err(GameError::NotInPlayerSlots))
            } else {
                match equip {
                    None => (rows, equip, Err(GameError::EquipmentNotFound)),
                    Some(e) => match worn(e, s) {
                        Some(cur) => if cur == id {
                            (rows, equip, Ok(()))
                        } else {
                            match first_free_inv(rows, p) {
                                None => (rows, equip, Err(GameError::InventoryFull)),
                                Some(free) => if !has_id(rows, cur) || rows[idx(
                                    rows,
                                    cur,
                                )].player_identity != p {
                                    (rows, equip, Err(GameError::EquippedItemMissing))
                                } else {
                                    let r1 = rows.update(
                                        idx(rows, cur),
                                        at_inventory(rows[idx(rows, cur)], free),
                                    );
                                    (
                                        r1.update(idx(rows, id), unslotted(item)),
                                        Some(with_worn(e, s, Some(id))),
                                        Ok(()),
                                    )
                                },
                            }
                        },
                        None => (
                            rows.update(idx(rows, id), unslotted(item)),
                            Some(with_worn(e, s, Some(id))),
                            Ok(()),
                        ),
                    },
                }
            },
        }
    }
}

/// Moves the worn item `cur` of `p` to the lowest free main inventory slot.
fn stow_worn_item(store: &mut ItemStore, p: PlayerId, cur: u64) -> (r: Result<(), GameError>)
    requires
        old(store).wf(),
    ensures
        final(store).wf(),
        final(store).next_id() == old(store).next_id(),
        ({
            let rows = old(store).rows();
            match first_free_inv(rows, p) {
                None => r == Err::<(), GameError>(GameError::InventoryFull) && final(store).rows()
                    == rows,
                Some(free) => if !has_id(rows, cur) || rows[idx(rows, cur)].player_identity != p {
                    r == Err::<(), GameError>(GameError::EquippedItemMissing)
                        && final(store).rows() == rows
                } else {
                    r is Ok && final(store).rows() == rows.update(
                        idx(rows, cur),
                        at_inventory(rows[idx(rows, cur)], free),
                    )
                },
            }
        }),
{
    let free = match find_first_empty_inventory_slot(store, p) {
        Some(free) => free,
        None => {
            return Err(GameError::InventoryFull);
        },
    };
    match get_player_item(store, p, cur) {
        Some(k) => {
            let cur_item = store.get(k);
            store.set(k, InventoryItem { hotbar_slot: None, inventory_slot: Some(free), ..cur_item });
            Ok(())
        },
        None => Err(GameError::EquippedItemMissing),
    }
}

/// Wears armor taken from the caller's hotbar or inventory; a different piece
/// worn in that body slot moves to the lowest free inventory slot.
pub fn equip_armor_from_inventory(
    store: &mut ItemStore,
    defs: &Vec<ItemDefinition>,
    equip: &mut Option<ActiveEquipment>,
    p: PlayerId,
    item_instance_id: u64,
) -> (r: Result<(), GameError>)
    requires
        old(store).wf(),
    ensures
        final(store).wf(),
        final(store).next_id() == old(store).next_id(),
        ({
            let (rows, eq, res) = equip_armor_from_inventory_outcome(
                old(store).rows(),
                defs@,
                *old(equip),
                p,
                item_instance_id,
            );
            final(store).rows() == rows && *final(equip) == eq && r == res
        }),
{
    let ghost rows0 = store.rows();
    let i = match get_player_item(store, p, item_instance_id) {
        Some(i) => i,
        None => {
            return Err(GameError::ItemNotFoundOrNotOwned { instance_id: item_instance_id });
        },
    };
    let item = store.get(i);
    let s = match armor_slot(defs, &item) {
        Ok(s) => s,
        Err(e) => {
            return Err(e);
        },
    };
    if item.inventory_slot.is_none() && item.hotbar_slot.is_none() {
        return Err(GameError::NotInPlayerSlots);
    }
    let e0 = *equip;
    let mut e = match e0 {
        Some(e) => e,
        None => {
            return Err(GameError::EquipmentNotFound);
        },
    };
    let ghost out = equip_armor_from_inventory_outcome(rows0, defs@, e0, p, item_instance_id);
    assert(armor_slot_of(defs@, item) == Ok::<EquipmentSlot, GameError>(s));
    assert(in_player_slots(item));
    if let Some(cur) = e.worn_in(s) {
        if cur == item_instance_id {
            assert(out == (rows0, e0, Ok::<(), GameError>(())));
            return Ok(());
        }
        let res = stow_worn_item(store, p, cur);
        if res.is_err() {
            assert(out == (rows0, e0, res));
            return res;
        }
        proof {
            let r1 = store.rows();
            assert(r1[i as int] == rows0[i as int]);
        }
    }
    e.set_worn(s, Some(item_instance_id));
    *equip = Some(e);
    store.set(i, InventoryItem { hotbar_slot: None, inventory_slot: None, ..item });
    assert(out == (store.rows(), Some(e), Ok::<(), GameError>(())));
    Ok(())
}

/// The body slot a client names ("Head", "Chest", "Legs", "Feet", "Hands", "Back").
pub open spec fn equipment_slot_named(s: Seq<char>) -> Option<EquipmentSlot> {
    if s == "Head"@ {
        Some(EquipmentSlot::Head)
    } else if s == "Chest"@ {
        Some(EquipmentSlot::Chest)
    } else if s == "Legs"@ {
        Some(EquipmentSlot::Legs)
    } else if s == "Feet"@ {
        Some(EquipmentSlot::Feet)
    } else if s == "Hands"@ {
        Some(EquipmentSlot::Hands)
    } else if s == "Back"@ {
        Some(EquipmentSlot::Back)
    } else {
        None
    }
}

/// Reads a body slot name.
pub fn parse_equipment_slot(s: &String) -> (r: Option<EquipmentSlot>)
    ensures
        r == equipment_slot_named(s@),
{
    if *s == String::from_str("Head") {
        Some(EquipmentSlot::Head)
    } else if *s == String::from_str("Chest") {
        Some(EquipmentSlot::Chest)
    } else if *s == String::from_str("Legs") {
        Some(EquipmentSlot::Legs)
    } else if *s == String::from_str("Feet") {
        Some(EquipmentSlot::Feet)
    } else if *s == String::from_str("Hands") {
        Some(EquipmentSlot::Hands)
    } else if *s == String::from_str("Back") {
        Some(EquipmentSlot::Back)
    } else {
        None
    }
}

/// Armor equipped from the hotbar or inventory ends up worn.
pub proof fn law_equipped_armor_is_worn(
    rows: Seq<InventoryItem>,
    defs: Seq<ItemDefinition>,
    equip: Option<ActiveEquipment>,
    p: PlayerId,
    id: u64,
)
    requires
        equip_armor_from_inventory_outcome(rows, defs, equip, p, id).2 is Ok,
    ensures
        equip_armor_from_inventory_outcome(rows, defs, equip, p, id).1 matches Some(e) && holds_item(
            e,
            id,
        ),
{
    let item = rows[idx(rows, id)];
    let s = armor_slot_of(defs, item)->Ok_0;
    let e = equip->0;
    assert(worn(with_worn(e, s, Some(id)), s) == Some(id));
}


/// Every armor piece `p`'s equipment row lists that is in the table belongs
/// to `p`.
pub open spec fn worn_pieces_owned(rows: Seq<InventoryItem>, equip: Option<ActiveEquipment>, p: PlayerId) -> bool {
    forall|s: EquipmentSlot|
        #[trigger] worn(row_or_empty(equip, p), s) matches Some(w) ==> (has_id(rows, w) ==> rows[idx(
            rows,
            w,
        )].player_identity == p)
}

/// Wearing armor never leaves two of a player's items in one slot: the new
/// piece leaves its slot, and the piece worn before takes exactly that slot.
pub proof fn law_equip_armor_keeps_slots_distinct(
    rows: Seq<InventoryItem>,
    next: u64,
    defs: Seq<ItemDefinition>,
    equip: Option<ActiveEquipment>,
    p: PlayerId,
    id: u64,
)
    requires
        rows_wf(rows, next),
        slots_distinct(rows),
        worn_pieces_owned(rows, equip, p),
    ensures
        slots_distinct(equip_armor_outcome(rows, defs, equip, p, id).0),
{
    reveal(slots_distinct);
    if has_id(rows, id) && rows[idx(rows, id)].player_identity == p {
        let w = choose|w: int| 0 <= w < rows.len() && rows[w].instance_id == id;
        lemma_idx(rows, next, w);
        let i = idx(rows, id);
        let item = rows[i];
        if armor_slot_of(defs, item) is Ok {
            let s = armor_slot_of(defs, item)->Ok_0;
            let e = row_or_empty(equip, p);
            let moved = unslotted(item);
            match worn(e, s) {
                Some(old_id) => if has_id(rows, old_id) {
                    let v = choose|v: int| 0 <= v < rows.len() && rows[v].instance_id == old_id;
                    lemma_idx(rows, next, v);
                    let io = idx(rows, old_id);
                    let r1 = rows.update(
                        io,
                        InventoryItem {
                            hotbar_slot: item.hotbar_slot,
                            inventory_slot: item.inventory_slot,
                            ..rows[io]
                        },
                    );
                    let r = r1.update(i, moved);
                    if io == i {
                        lemma_unslot_keeps_distinct(rows, i, moved);
                        assert(r == rows.update(i, moved));
                    } else {
                        assert(rows[io].player_identity == p);
                        assert forall|a: int, b: int|
                            #![trigger r[a], r[b]]
                            0 <= a < r.len() && 0 <= b < r.len() && a != b && r[a].player_identity
                                == r[b].player_identity implies !(r[a].hotbar_slot is Some
                            && r[a].hotbar_slot == r[b].hotbar_slot) && !(r[a].inventory_slot is Some
                            && r[a].inventory_slot == r[b].inventory_slot) by {
                            if a != i && b != i {
                                let a0 = if a == io { i } else { a };
                                let b0 = if b == io { i } else { b };
                                assert(rows[a0] == rows[a0] && rows[b0] == rows[b0]);
                            }
                        }
                    }
                } else {
                    lemma_unslot_keeps_distinct(rows, i, moved);
                },
                None => {
                    lemma_unslot_keeps_distinct(rows, i, moved);
                },
            }
        }
    }
}

/// Wearing armor from the hotbar or inventory never leaves two of a
/// player's items in one slot: the piece worn before goes to a main
/// inventory slot that was free.
pub proof fn law_equip_armor_from_inventory_keeps_slots_distinct(
    rows: Seq<InventoryItem>,
    next: u64,
    defs: Seq<ItemDefinition>,
    equip: Option<ActiveEquipment>,
    p: PlayerId,
    id: u64,
)
    requires
        rows_wf(rows, next),
        slots_distinct(rows),
    ensures
        slots_distinct(equip_armor_from_inventory_outcome(rows, defs, equip, p, id).0),
{
    if has_id(rows, id) && rows[idx(rows, id)].player_identity == p {
        let w = choose|w: int| 0 <= w < rows.len() && rows[w].instance_id == id;
        lemma_idx(rows, next, w);
        let i = idx(rows, id);
        let item = rows[i];
        if armor_slot_of(defs, item) is Ok && in_player_slots(item) && equip is Some {
            let s = armor_slot_of(defs, item)->Ok_0;
            let e = equip->0;
            let moved = unslotted(item);
            match worn(e, s) {
                Some(cur) => {
                    lemma_first_free_is_free(rows, p);
                    if cur != id && first_free_inv(rows, p) is Some && has_id(rows, cur)
                        && rows[idx(rows, cur)].player_identity == p {
                        let free = first_free_inv(rows, p)->0;
                        let v = choose|v: int| 0 <= v < rows.len() && rows[v].instance_id == cur;
                        lemma_idx(rows, next, v);
                        let ic = idx(rows, cur);
                        let stowed = at_inventory(rows[ic], free);
                        lemma_place_free_keeps_distinct(rows, ic, stowed);
                        lemma_unslot_keeps_distinct(rows.update(ic, stowed), i, moved);
                    }
                },
                None => {
                    lemma_unslot_keeps_distinct(rows, i, moved);
                },
            }
        }
    }
}

} // verus!
