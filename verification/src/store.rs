use vstd::prelude::*;
use crate::types::{PlayerId, InventoryItem, NUM_HOTBAR_SLOTS, NUM_INVENTORY_SLOTS};

verus! {

/// The rows of the inventory item table are well formed: instance ids are
/// unique and below the next id to hand out, and no item is in both the
/// hotbar and the main inventory.
pub open spec fn rows_wf(rows: Seq<InventoryItem>, next: u64) -> bool {
    &&& forall|i: int, j: int|
        0 <= i < rows.len() && 0 <= j < rows.len() && i != j ==> rows[i].instance_id
            != rows[j].instance_id
    &&& forall|i: int| 0 <= i < rows.len() ==> rows[i].instance_id < next
    &&& forall|i: int| 0 <= i < rows.len() ==> single_location(#[trigger] rows[i])
}

/// An item is not in both the hotbar and the main inventory.
pub open spec fn single_location(item: InventoryItem) -> bool {
    !(item.hotbar_slot is Some && item.inventory_slot is Some)
}

/// The item is in the owner's hotbar or main inventory.
pub open spec fn in_player_slots(item: InventoryItem) -> bool {
    item.hotbar_slot is Some || item.inventory_slot is Some
}

/// Whether some row has the given instance id.
pub open spec fn has_id(rows: Seq<InventoryItem>, id: u64) -> bool {
    exists|i: int| 0 <= i < rows.len() && rows[i].instance_id == id
}

/// Index of the row with the given instance id, or -1.
pub open spec fn idx(rows: Seq<InventoryItem>, id: u64) -> int {
    if has_id(rows, id) {
        choose|i: int|
            0 <= i < rows.len() && rows[i].instance_id == id && forall|j: int|
                0 <= j < i ==> rows[j].instance_id != id
    } else {
        -1
    }
}

/// The row with the given instance id.
pub open spec fn row(rows: Seq<InventoryItem>, id: u64) -> InventoryItem {
    rows[idx(rows, id)]
}

/// An item placed in the hotbar slot (taken out of the main inventory).
pub open spec fn at_hotbar(item: InventoryItem, slot: u8) -> InventoryItem {
    InventoryItem { hotbar_slot: Some(slot), inventory_slot: None, ..item }
}

/// An item placed in the main inventory slot (taken out of the hotbar).
pub open spec fn at_inventory(item: InventoryItem, slot: u16) -> InventoryItem {
    InventoryItem { hotbar_slot: None, inventory_slot: Some(slot), ..item }
}

/// An item taken out of both the hotbar and the main inventory.
pub open spec fn unslotted(item: InventoryItem) -> InventoryItem {
    InventoryItem { hotbar_slot: None, inventory_slot: None, ..item }
}

/// Index of the first item of the player in the given main inventory slot, or -1.
pub open spec fn inv_slot_idx(rows: Seq<InventoryItem>, p: PlayerId, slot: u16) -> int {
    if exists|i: int|
        0 <= i < rows.len() && rows[i].player_identity == p && rows[i].inventory_slot == Some(
            slot,
        ) {
        choose|i: int|
            0 <= i < rows.len() && rows[i].player_identity == p && rows[i].inventory_slot
                == Some(slot) && forall|j: int|
                0 <= j < i ==> !(rows[j].player_identity == p && rows[j].inventory_slot == Some(
                    slot,
                ))
    } else {
        -1
    }
}

/// Index of the first item of the player in the given hotbar slot, or -1.
pub open spec fn hot_slot_idx(rows: Seq<InventoryItem>, p: PlayerId, slot: u8) -> int {
    if exists|i: int|
        0 <= i < rows.len() && rows[i].player_identity == p && rows[i].hotbar_slot == Some(
            slot,
        ) {
        choose|i: int|
            0 <= i < rows.len() && rows[i].player_identity == p && rows[i].hotbar_slot == Some(
                slot,
            ) && forall|j: int|
                0 <= j < i ==> !(rows[j].player_identity == p && rows[j].hotbar_slot == Some(
                    slot,
                ))
    } else {
        -1
    }
}

/// Whether the player's main inventory slot holds an item.
pub open spec fn inv_slot_taken(rows: Seq<InventoryItem>, p: PlayerId, slot: u16) -> bool {
    exists|i: int|
        0 <= i < rows.len() && rows[i].player_identity == p && rows[i].inventory_slot == Some(
            slot,
        )
}

/// Whether the player's hotbar slot holds an item.
pub open spec fn hot_slot_taken(rows: Seq<InventoryItem>, p: PlayerId, slot: u8) -> bool {
    exists|i: int|
        0 <= i < rows.len() && rows[i].player_identity == p && rows[i].hotbar_slot == Some(slot)
}

/// The lowest free main inventory slot of the player, if any.
#[verifier::opaque]
pub open spec fn first_free_inv(rows: Seq<InventoryItem>, p: PlayerId) -> Option<u16> {
    if exists|s: u16| s < NUM_INVENTORY_SLOTS && !inv_slot_taken(rows, p, s) {
        Some(
            choose|s: u16|
                s < NUM_INVENTORY_SLOTS && !inv_slot_taken(rows, p, s) && forall|t: u16|
                    t < s ==> inv_slot_taken(rows, p, t),
        )
    } else {
        None
    }
}

/// The lowest free hotbar slot of the player, if any.
#[verifier::opaque]
pub open spec fn first_free_hot(rows: Seq<InventoryItem>, p: PlayerId) -> Option<u8> {
    if exists|s: u8| s < NUM_HOTBAR_SLOTS && !hot_slot_taken(rows, p, s) {
        Some(
            choose|s: u8|
                s < NUM_HOTBAR_SLOTS && !hot_slot_taken(rows, p, s) && forall|t: u8|
                    t < s ==> hot_slot_taken(rows, p, t),
        )
    } else {
        None
    }
}

/// No two items of one player share a hotbar slot, and no two share a main
/// inventory slot.
#[verifier::opaque]
pub open spec fn slots_distinct(rows: Seq<InventoryItem>) -> bool {
    forall|i: int, j: int|
        #![trigger rows[i], rows[j]]
        0 <= i < rows.len() && 0 <= j < rows.len() && i != j && rows[i].player_identity
            == rows[j].player_identity ==> !(rows[i].hotbar_slot is Some && rows[i].hotbar_slot
            == rows[j].hotbar_slot) && !(rows[i].inventory_slot is Some && rows[i].inventory_slot
            == rows[j].inventory_slot)
}

/// Two tables whose rows sit, one for one, with the same owner in the same
/// slots.
pub open spec fn same_places(a: Seq<InventoryItem>, b: Seq<InventoryItem>) -> bool {
    &&& a.len() == b.len()
    &&& forall|k: int|
        0 <= k < a.len() ==> (#[trigger] b[k]).player_identity == a[k].player_identity
            && b[k].hotbar_slot == a[k].hotbar_slot && b[k].inventory_slot == a[k].inventory_slot
}

/// Changing only what rows hold, not where they are, keeps slots distinct.
pub proof fn lemma_same_places(a: Seq<InventoryItem>, b: Seq<InventoryItem>)
    requires
        slots_distinct(a),
        same_places(a, b),
    ensures
        slots_distinct(b),
{
    reveal(slots_distinct);
    assert forall|i: int, j: int|
        #![trigger b[i], b[j]]
        0 <= i < b.len() && 0 <= j < b.len() && i != j && b[i].player_identity
            == b[j].player_identity implies !(b[i].hotbar_slot is Some && b[i].hotbar_slot
        == b[j].hotbar_slot) && !(b[i].inventory_slot is Some && b[i].inventory_slot
        == b[j].inventory_slot) by {
        assert(a[i] == a[i] && a[j] == a[j]);
    }
}

/// Removing a row keeps slots distinct.
pub proof fn lemma_remove_keeps_distinct(rows: Seq<InventoryItem>, i: int)
    requires
        slots_distinct(rows),
        0 <= i < rows.len(),
    ensures
        slots_distinct(rows.remove(i)),
{
    reveal(slots_distinct);
    let r = rows.remove(i);
    assert forall|a: int, b: int|
        #![trigger r[a], r[b]]
        0 <= a < r.len() && 0 <= b < r.len() && a != b && r[a].player_identity
            == r[b].player_identity implies !(r[a].hotbar_slot is Some && r[a].hotbar_slot
        == r[b].hotbar_slot) && !(r[a].inventory_slot is Some && r[a].inventory_slot
        == r[b].inventory_slot) by {
        let a0 = if a < i { a } else { a + 1 };
        let b0 = if b < i { b } else { b + 1 };
        assert(r[a] == rows[a0] && r[b] == rows[b0]);
    }
}

/// Taking a row out of every player slot keeps slots distinct.
pub proof fn lemma_unslot_keeps_distinct(rows: Seq<InventoryItem>, i: int, x: InventoryItem)
    requires
        slots_distinct(rows),
        0 <= i < rows.len(),
        x.hotbar_slot is None,
        x.inventory_slot is None,
    ensures
        slots_distinct(rows.update(i, x)),
{
    reveal(slots_distinct);
    let r = rows.update(i, x);
    assert forall|a: int, b: int|
        #![trigger r[a], r[b]]
        0 <= a < r.len() && 0 <= b < r.len() && a != b && r[a].player_identity
            == r[b].player_identity implies !(r[a].hotbar_slot is Some && r[a].hotbar_slot
        == r[b].hotbar_slot) && !(r[a].inventory_slot is Some && r[a].inventory_slot
        == r[b].inventory_slot) by {
        if a != i && b != i {
            assert(r[a] == rows[a] && r[b] == rows[b]);
        }
    }
}

/// A row that goes into slots its owner has free keeps slots distinct.
pub proof fn lemma_push_keeps_distinct(rows: Seq<InventoryItem>, x: InventoryItem)
    requires
        slots_distinct(rows),
        x.hotbar_slot matches Some(h) ==> !hot_slot_taken(rows, x.player_identity, h),
        x.inventory_slot matches Some(k) ==> !inv_slot_taken(rows, x.player_identity, k),
    ensures
        slots_distinct(rows.push(x)),
{
    reveal(slots_distinct);
    let r = rows.push(x);
    let n = rows.len() as int;
    assert forall|a: int, b: int|
        #![trigger r[a], r[b]]
        0 <= a < r.len() && 0 <= b < r.len() && a != b && r[a].player_identity
            == r[b].player_identity implies !(r[a].hotbar_slot is Some && r[a].hotbar_slot
        == r[b].hotbar_slot) && !(r[a].inventory_slot is Some && r[a].inventory_slot
        == r[b].inventory_slot) by {
        if a == n {
            assert(r[b] == rows[b]);
        } else if b == n {
            assert(r[a] == rows[a]);
        } else {
            assert(r[a] == rows[a] && r[b] == rows[b]);
        }
    }
}

/// Putting a row into slots its owner has free keeps slots distinct.
pub proof fn lemma_place_free_keeps_distinct(rows: Seq<InventoryItem>, k: int, x: InventoryItem)
    requires
        slots_distinct(rows),
        0 <= k < rows.len(),
        x.hotbar_slot matches Some(h) ==> !hot_slot_taken(rows, x.player_identity, h),
        x.inventory_slot matches Some(s) ==> !inv_slot_taken(rows, x.player_identity, s),
    ensures
        slots_distinct(rows.update(k, x)),
{
    reveal(slots_distinct);
    let r = rows.update(k, x);
    assert forall|a: int, b: int|
        #![trigger r[a], r[b]]
        0 <= a < r.len() && 0 <= b < r.len() && a != b && r[a].player_identity
            == r[b].player_identity implies !(r[a].hotbar_slot is Some && r[a].hotbar_slot
        == r[b].hotbar_slot) && !(r[a].inventory_slot is Some && r[a].inventory_slot
        == r[b].inventory_slot) by {
        if a == k {
            assert(r[b] == rows[b]);
        } else if b == k {
            assert(r[a] == rows[a]);
        } else {
            assert(r[a] == rows[a] && r[b] == rows[b]);
        }
    }
}

proof fn lemma_first_match(rows: Seq<InventoryItem>, id: u64, n: int)
    requires
        0 <= n <= rows.len(),
        exists|i: int| 0 <= i < n && rows[i].instance_id == id,
    ensures
        exists|i: int|
            0 <= i < n && rows[i].instance_id == id && forall|j: int|
                0 <= j < i ==> rows[j].instance_id != id,
    decreases n,
{
    if exists|i: int| 0 <= i < n - 1 && rows[i].instance_id == id {
        lemma_first_match(rows, id, n - 1);
    } else {
        assert(rows[n - 1].instance_id == id);
    }
}

/// A row with the id is found at its index, whether or not ids repeat.
pub proof fn lemma_idx_in_range(rows: Seq<InventoryItem>, id: u64)
    requires
        has_id(rows, id),
    ensures
        0 <= idx(rows, id) < rows.len(),
        rows[idx(rows, id)].instance_id == id,
{
    lemma_first_match(rows, id, rows.len() as int);
}

/// The lowest free slots are free and in range.
pub proof fn lemma_first_free_is_free(rows: Seq<InventoryItem>, p: PlayerId)
    ensures
        first_free_hot(rows, p) matches Some(h) ==> h < NUM_HOTBAR_SLOTS && !hot_slot_taken(
            rows,
            p,
            h,
        ),
        first_free_inv(rows, p) matches Some(k) ==> k < NUM_INVENTORY_SLOTS && !inv_slot_taken(
            rows,
            p,
            k,
        ),
{
    reveal(first_free_hot);
    reveal(first_free_inv);
}

/// With unique ids, the row at index `i` is the row found by its id.
pub proof fn lemma_idx(rows: Seq<InventoryItem>, next: u64, i: int)
    requires
        rows_wf(rows, next),
        0 <= i < rows.len(),
    ensures
        has_id(rows, rows[i].instance_id),
        idx(rows, rows[i].instance_id) == i,
{
    let id = rows[i].instance_id;
    assert(has_id(rows, id));
    let c = idx(rows, id);
    assert(rows[c].instance_id == id);
}

/// The inventory item table: its rows in table order and the next instance id
/// that an insertion receives.
pub struct ItemStore {
    items: Vec<InventoryItem>,
    next_instance_id: u64,
}

impl ItemStore {
    /// The rows, in table order.
    pub closed spec fn rows(&self) -> Seq<InventoryItem> {
        self.items@
    }

    /// The instance id the next inserted row receives.
    pub closed spec fn next_id(&self) -> u64 {
        self.next_instance_id
    }

    pub open spec fn wf(&self) -> bool {
        rows_wf(self.rows(), self.next_id())
    }

    /// An empty table whose first row will get id 1.
    pub fn new() -> (s: ItemStore)
        ensures
            s.wf(),
            s.rows() == Seq::<InventoryItem>::empty(),
            s.next_id() == 1,
    {
        ItemStore { items: Vec::new(), next_instance_id: 1 }
    }

    /// Builds the table from loaded rows; the next id is one past the largest.
    /// Refused when ids repeat, an item is in both hotbar and inventory, or the
    /// largest id leaves no room for another.
    pub fn from_rows(rows: Vec<InventoryItem>) -> (r: Option<ItemStore>)
        ensures
            r is Some <==> (exists|next: u64| rows_wf(rows@, next)),
            r matches Some(s) ==> s.wf() && s.rows() == rows@,
    {
        let mut max_id: u64 = 0;
        let mut i: usize = 0;
        while i < rows.len()
            invariant
                i <= rows.len(),
                forall|a: int, b: int|
                    0 <= a < i && 0 <= b < rows.len() && a != b ==> rows@[a].instance_id
                        != rows@[b].instance_id,
                forall|a: int| 0 <= a < i ==> rows@[a].instance_id <= max_id,
                forall|a: int| 0 <= a < i ==> single_location(#[trigger] rows@[a]),
                max_id > 0 ==> exists|a: int| 0 <= a < i && rows@[a].instance_id == max_id,
            decreases rows.len() - i,
        {
            let it = rows[i];
            if it.hotbar_slot.is_some() && it.inventory_slot.is_some() {
                assert(!single_location(rows@[i as int]));
                return None;
            }
            let mut j: usize = 0;
            while j < rows.len()
                invariant
                    i < rows.len(),
                    j <= rows.len(),
                    it == rows@[i as int],
                    forall|b: int|
                        0 <= b < j && b != i ==> rows@[i as int].instance_id
                            != rows@[b].instance_id,
                decreases rows.len() - j,
            {
                if j != i && rows[j].instance_id == it.instance_id {
                    assert(forall|next: u64| !rows_wf(rows@, next)) by {
                        assert(rows@[i as int].instance_id == rows@[j as int].instance_id);
                    }
                    return None;
                }
                j = j + 1;
            }
            if it.instance_id > max_id {
                max_id = it.instance_id;
            }
            i = i + 1;
        }
        if max_id == u64::MAX {
            let ghost k = choose|k: int| 0 <= k < rows@.len() && rows@[k].instance_id == max_id;
            assert forall|next: u64| !rows_wf(rows@, next) by {
                if rows_wf(rows@, next) {
                    assert(rows@[k].instance_id < next);
                }
            }
            return None;
        }
        assert(rows_wf(rows@, (max_id + 1) as u64));
        Some(ItemStore { items: rows, next_instance_id: max_id + 1 })
    }

    /// A copy of the table, to roll back to when a request is refused.
    pub fn snapshot(&self) -> (s: ItemStore)
        ensures
            s.rows() == self.rows(),
            s.next_id() == self.next_id(),
    {
        let mut items: Vec<InventoryItem> = Vec::new();
        let mut i: usize = 0;
        while i < self.items.len()
            invariant
                i <= self.items.len(),
                items@ == self.items@.subrange(0, i as int),
            decreases self.items.len() - i,
        {
            items.push(self.items[i]);
            i = i + 1;
            assert(items@ =~= self.items@.subrange(0, i as int));
        }
        assert(items@ =~= self.items@);
        ItemStore { items, next_instance_id: self.next_instance_id }
    }

    /// The instance id the next inserted row receives.
    pub fn next_instance_id(&self) -> (r: u64)
        ensures
            r == self.next_id(),
    {
        self.next_instance_id
    }

    /// The rows, in table order.
    pub fn rows_vec(&self) -> (r: &Vec<InventoryItem>)
        ensures
            r@ == self.rows(),
    {
        &self.items
    }

    pub fn len(&self) -> (n: usize)
        ensures
            n == self.rows().len(),
    {
        self.items.len()
    }

    pub fn get(&self, i: usize) -> (r: InventoryItem)
        requires
            i < self.rows().len(),
        ensures
            r == self.rows()[i as int],
    {
        self.items[i]
    }

    /// Index of the row with the given instance id.
    pub fn find_index(&self, id: u64) -> (r: Option<usize>)
        requires
            self.wf(),
        ensures
            match r {
                Some(i) => i == idx(self.rows(), id) && i < self.rows().len() && has_id(
                    self.rows(),
                    id,
                ),
                None => !has_id(self.rows(), id) && idx(self.rows(), id) == -1,
            },
    {
        let mut i: usize = 0;
        while i < self.items.len()
            invariant
                i <= self.items.len(),
                self.wf(),
                forall|j: int| 0 <= j < i ==> self.items@[j].instance_id != id,
            decreases self.items.len() - i,
        {
            if self.items[i].instance_id == id {
                proof {
                    lemma_idx(self.rows(), self.next_id(), i as int);
                }
                return Some(i);
            }
            i = i + 1;
        }
        None
    }

    /// Replaces the row at index `i` by a row with the same instance id.
    pub fn set(&mut self, i: usize, item: InventoryItem)
        requires
            old(self).wf(),
            i < old(self).rows().len(),
            item.instance_id == old(self).rows()[i as int].instance_id,
            single_location(item),
        ensures
            final(self).wf(),
            final(self).rows() == old(self).rows().update(i as int, item),
            final(self).next_id() == old(self).next_id(),
    {
        self.items.set(i, item);
    }

    /// Deletes the row at index `i`.
    pub fn remove(&mut self, i: usize)
        requires
            old(self).wf(),
            i < old(self).rows().len(),
        ensures
            final(self).wf(),
            final(self).rows() == old(self).rows().remove(i as int),
            final(self).next_id() == old(self).next_id(),
    {
        let ghost old_rows = self.rows();
        self.items.remove(i);
        proof {
            let r = self.rows();
            assert forall|a: int, b: int|
                0 <= a < r.len() && 0 <= b < r.len() && a != b implies r[a].instance_id
                != r[b].instance_id by {
                let a0 = if a < i { a } else { a + 1 };
                let b0 = if b < i { b } else { b + 1 };
                assert(r[a] == old_rows[a0]);
                assert(r[b] == old_rows[b0]);
            }
            assert forall|a: int| 0 <= a < r.len() implies r[a].instance_id < self.next_id()
                && single_location(#[trigger] r[a]) by {
                let a0 = if a < i { a } else { a + 1 };
                assert(r[a] == old_rows[a0]);
            }
        }
    }

    /// Inserts a row, giving it the next instance id; returns that id.
    pub fn insert(&mut self, proto: InventoryItem) -> (id: u64)
        requires
            old(self).wf(),
            old(self).next_id() < u64::MAX,
            single_location(proto),
        ensures
            final(self).wf(),
            id == old(self).next_id(),
            final(self).rows() == old(self).rows().push(
                InventoryItem { instance_id: id, ..proto },
            ),
            final(self).next_id() == old(self).next_id() + 1,
    {
        let id = self.next_instance_id;
        self.next_instance_id = id + 1;
        self.items.push(InventoryItem { instance_id: id, ..proto });
        id
    }
}

} // verus!
