use vstd::prelude::*;
use crate::types::{PlayerId, InventoryItem, ItemDefinition, def_index, find_def};
use crate::store::{
    ItemStore, rows_wf, single_location, in_player_slots, first_free_hot, first_free_inv,
    slots_distinct, same_places, lemma_same_places, lemma_push_keeps_distinct,
    lemma_first_free_is_free, hot_slot_taken, inv_slot_taken,
};
use crate::slots::{find_first_empty_hotbar_slot, find_first_empty_inventory_slot};
use crate::errors::GameError;

verus! {

/// Room left in a stack of `qty` items when a full stack holds `cap`.
pub open spec fn space_left(cap: u32, qty: u32) -> int {
    if cap > qty {
        cap - qty
    } else {
        0
    }
}

/// The result of merging a source stack onto a target stack:
/// (moved, source quantity after, target quantity after, source emptied).
pub open spec fn merge_result(source: InventoryItem, target: InventoryItem, def: ItemDefinition) -> Result<
    (u32, u32, u32, bool),
    GameError,
> {
    if !def.is_stackable || source.item_def_id != target.item_def_id {
        Err(GameError::CannotMerge)
    } else if space_left(def.stack_size, target.quantity) == 0 {
        Err(GameError::TargetStackFull)
    } else {
        let moved = if source.quantity <= space_left(def.stack_size, target.quantity) {
            source.quantity
        } else {
            space_left(def.stack_size, target.quantity) as u32
        };
        Ok(
            (
                moved,
                (source.quantity - moved) as u32,
                (target.quantity + moved) as u32,
                source.quantity - moved == 0,
            ),
        )
    }
}

/// Merges as much of `source` onto `target` as the target's stack has room for.
/// The two quantities after the merge add up to the two before it.
pub fn calculate_merge_result(
    source: &InventoryItem,
    target: &InventoryItem,
    def: &ItemDefinition,
) -> (r: Result<(u32, u32, u32, bool), GameError>)
    ensures
        r == merge_result(*source, *target, *def),
        r matches Ok((moved, s, t, del)) ==> s + t == source.quantity + target.quantity && t
            <= def.stack_size && (moved > 0) == (source.quantity > 0) && del == (s == 0),
{
    if !def.is_stackable || source.item_def_id != target.item_def_id {
        return Err(GameError::CannotMerge);
    }
    let space = def.stack_size.saturating_sub(target.quantity);
    if space == 0 {
        return Err(GameError::TargetStackFull);
    }
    let moved = if source.quantity <= space {
        source.quantity
    } else {
        space
    };
    let s = source.quantity - moved;
    let t = target.quantity + moved;
    Ok((moved, s, t, s == 0))
}

/// How much a row adds to the player's holding of an item kind: its quantity
/// when it belongs to the player, is of that kind and sits in the hotbar or
/// the main inventory.
pub open spec fn held_amount(item: InventoryItem, p: PlayerId, d: u64) -> int {
    if item.player_identity == p && item.item_def_id == d && in_player_slots(item) {
        item.quantity as int
    } else {
        0
    }
}

/// Total quantity of item kind `d` in the hotbar and main inventory of `p`.
pub open spec fn qty_of(rows: Seq<InventoryItem>, p: PlayerId, d: u64) -> int
    decreases rows.len(),
{
    if rows.len() == 0 {
        0
    } else {
        qty_of(rows.drop_last(), p, d) + held_amount(rows.last(), p, d)
    }
}

pub proof fn lemma_qty_push(rows: Seq<InventoryItem>, x: InventoryItem, p: PlayerId, d: u64)
    ensures
        qty_of(rows.push(x), p, d) == qty_of(rows, p, d) + held_amount(x, p, d),
{
    assert(rows.push(x).drop_last() =~= rows);
}

pub proof fn lemma_qty_update(
    rows: Seq<InventoryItem>,
    i: int,
    x: InventoryItem,
    p: PlayerId,
    d: u64,
)
    requires
        0 <= i < rows.len(),
    ensures
        qty_of(rows.update(i, x), p, d) == qty_of(rows, p, d) - held_amount(rows[i], p, d) + held_amount(
            x,
            p,
            d,
        ),
    decreases rows.len(),
{
    if i == rows.len() - 1 {
        assert(rows.update(i, x).drop_last() =~= rows.drop_last());
    } else {
        lemma_qty_update(rows.drop_last(), i, x, p, d);
        assert(rows.update(i, x).drop_last() =~= rows.drop_last().update(i, x));
    }
}

pub proof fn lemma_qty_remove(rows: Seq<InventoryItem>, i: int, p: PlayerId, d: u64)
    requires
        0 <= i < rows.len(),
    ensures
        qty_of(rows.remove(i), p, d) == qty_of(rows, p, d) - held_amount(rows[i], p, d),
    decreases rows.len(),
{
    if i == rows.len() - 1 {
        assert(rows.remove(i) =~= rows.drop_last());
    } else {
        lemma_qty_remove(rows.drop_last(), i, p, d);
        assert(rows.remove(i).drop_last() =~= rows.drop_last().remove(i));
    }
}

/// Whether a stacking pass may top up this row: the player's item of kind `d`
/// in the hotbar (`hot`) or in the main inventory (`!hot`).
pub open spec fn stack_target(item: InventoryItem, p: PlayerId, d: u64, hot: bool) -> bool {
    item.player_identity == p && item.item_def_id == d && (if hot {
        item.hotbar_slot is Some
    } else {
        item.inventory_slot is Some
    })
}

/// Tops up, in table order, the first `n` rows that the pass may top up, while
/// items remain; returns the rows and the quantity still to place.
pub open spec fn stack_pass(
    rows: Seq<InventoryItem>,
    p: PlayerId,
    d: u64,
    cap: u32,
    rem: u32,
    hot: bool,
    n: nat,
) -> (Seq<InventoryItem>, u32)
    decreases n,
{
    if n == 0 {
        (rows, rem)
    } else {
        let (r, m) = stack_pass(rows, p, d, cap, rem, hot, (n - 1) as nat);
        let it = r[n - 1];
        if m > 0 && stack_target(it, p, d, hot) && space_left(cap, it.quantity) > 0 {
            let t = if m <= space_left(cap, it.quantity) {
                m
            } else {
                space_left(cap, it.quantity) as u32
            };
            (r.update(n - 1, InventoryItem { quantity: (it.quantity + t) as u32, ..it }), (m
                - t) as u32)
        } else {
            (r, m)
        }
    }
}

/// A stacking pass keeps the number of rows, the ids and locations of all
/// rows, only raises quantities of rows it may top up, and what it adds to
/// the player's holding is what it takes from the quantity to place.
pub proof fn lemma_stack_pass(
    rows: Seq<InventoryItem>,
    p: PlayerId,
    d: u64,
    cap: u32,
    rem: u32,
    hot: bool,
    n: nat,
)
    requires
        n <= rows.len(),
    ensures
        ({
            let (r, m) = stack_pass(rows, p, d, cap, rem, hot, n);
            &&& r.len() == rows.len()
            &&& m <= rem
            &&& qty_of(r, p, d) + m == qty_of(rows, p, d) + rem
            &&& forall|k: int|
                0 <= k < rows.len() ==> #[trigger] r[k] == rows[k] || (r[k] == InventoryItem {
                    quantity: r[k].quantity,
                    ..rows[k]
                } && stack_target(rows[k], p, d, hot) && r[k].quantity > rows[k].quantity
                    && r[k].quantity <= cap)
            &&& forall|k: int| n <= k < rows.len() ==> #[trigger] r[k] == rows[k]
        }),
    decreases n,
{
    if n > 0 {
        lemma_stack_pass(rows, p, d, cap, rem, hot, (n - 1) as nat);
        let (r, m) = stack_pass(rows, p, d, cap, rem, hot, (n - 1) as nat);
        let it = r[n - 1];
        if m > 0 && stack_target(it, p, d, hot) && space_left(cap, it.quantity) > 0 {
            let t: u32 = if m <= space_left(cap, it.quantity) {
                m
            } else {
                space_left(cap, it.quantity) as u32
            };
            let x = InventoryItem { quantity: (it.quantity + t) as u32, ..it };
            lemma_qty_update(r, n - 1, x, p, d);
        }
    }
}

/// At most this many new stacks are made by one addition: one per player
/// slot (six in the hotbar, twenty-four in the main inventory).
pub const MAX_NEW_STACKS: u64 = 30;

/// The size of the next new stack when `m` items of a kind holding `cap` per
/// stack are left to place: at most `cap` (all of them when the kind sets no
/// size).
pub open spec fn chunk(m: u32, cap: u32) -> u32 {
    if cap == 0 || m <= cap {
        m
    } else {
        cap
    }
}

/// A new stack of `c` items of kind `d` for `p`, with id `next`, in the
/// player's lowest free hotbar slot, else lowest free main inventory slot;
/// none when both are full.
pub open spec fn new_stack_at(rows: Seq<InventoryItem>, p: PlayerId, d: u64, next: u64, c: u32) -> Option<
    InventoryItem,
> {
    let proto = InventoryItem {
        instance_id: next,
        player_identity: p,
        item_def_id: d,
        quantity: c,
        hotbar_slot: None,
        inventory_slot: None,
    };
    match first_free_hot(rows, p) {
        Some(h) => Some(InventoryItem { hotbar_slot: Some(h), ..proto }),
        None => match first_free_inv(rows, p) {
            Some(k) => Some(InventoryItem { inventory_slot: Some(k), ..proto }),
            None => None,
        },
    }
}

/// Places `m` items of kind `d` for `p` as new stacks of at most `cap`
/// items, one after another in free player slots, making at most `fuel`
/// stacks: the rows, the next id, and whether all `m` were placed.
pub open spec fn place_new_stacks(
    rows: Seq<InventoryItem>,
    next: u64,
    p: PlayerId,
    d: u64,
    cap: u32,
    m: u32,
    fuel: nat,
) -> (Seq<InventoryItem>, u64, bool)
    decreases fuel,
{
    if m == 0 {
        (rows, next, true)
    } else if fuel == 0 {
        (rows, next, false)
    } else {
        match new_stack_at(rows, p, d, next, chunk(m, cap)) {
            Some(x) => place_new_stacks(
                rows.push(x),
                (next + 1) as u64,
                p,
                d,
                cap,
                (m - chunk(m, cap)) as u32,
                (fuel - 1) as nat,
            ),
            None => (rows, next, false),
        }
    }
}

proof fn lemma_new_stack_at(rows: Seq<InventoryItem>, p: PlayerId, d: u64, next: u64, c: u32)
    ensures
        new_stack_at(rows, p, d, next, c) matches Some(x) ==> x.instance_id == next && x.player_identity
            == p && x.item_def_id == d && x.quantity == c && single_location(x) && in_player_slots(x)
            && (x.hotbar_slot matches Some(h) ==> !hot_slot_taken(rows, p, h)) && (
        x.inventory_slot matches Some(k) ==> !inv_slot_taken(rows, p, k)),
{
    lemma_first_free_is_free(rows, p);
}

/// New stacks keep the rows before them, take ids from `next` on, belong to
/// `p`, are of kind `d`, sit in free player slots and hold at most `cap`
/// items; when all are placed they add exactly `m` to `p`'s holding of `d`.
pub proof fn lemma_place_new(
    rows: Seq<InventoryItem>,
    next: u64,
    p: PlayerId,
    d: u64,
    cap: u32,
    m: u32,
    fuel: nat,
)
    ensures
        ({
            let (r, n, all) = place_new_stacks(rows, next, p, d, cap, m, fuel);
            &&& rows.len() <= r.len() <= rows.len() + fuel
            &&& next + fuel <= u64::MAX ==> n == next + (r.len() - rows.len())
            &&& forall|k: int| 0 <= k < rows.len() ==> #[trigger] r[k] == rows[k]
            &&& forall|k: int|
                rows.len() <= k < r.len() ==> (next + fuel <= u64::MAX ==> (#[trigger] r[k]).instance_id
                    == next + (k - rows.len())) && r[k].player_identity == p && r[k].item_def_id == d && single_location(r[k])
                    && in_player_slots(r[k]) && (cap > 0 ==> r[k].quantity <= cap)
            &&& slots_distinct(rows) ==> slots_distinct(r)
            &&& all ==> qty_of(r, p, d) == qty_of(rows, p, d) + m
            &&& !all ==> qty_of(r, p, d) < qty_of(rows, p, d) + m
            &&& forall|p2: PlayerId, d2: u64|
                (p2 != p || d2 != d) ==> #[trigger] qty_of(r, p2, d2) == qty_of(rows, p2, d2)
        }),
    decreases fuel,
{
    if m > 0 && fuel > 0 {
        let c = chunk(m, cap);
        lemma_new_stack_at(rows, p, d, next, c);
        match new_stack_at(rows, p, d, next, c) {
            Some(x) => {
                let rows1 = rows.push(x);
                lemma_place_new(rows1, (next + 1) as u64, p, d, cap, (m - c) as u32, (fuel - 1) as nat);
                lemma_qty_push(rows, x, p, d);
                lemma_push_keeps_distinct_if(rows, x);
                let (r, n, all) = place_new_stacks(rows1, (next + 1) as u64, p, d, cap, (m - c) as u32, (fuel - 1) as nat);
                assert forall|k: int| 0 <= k < rows.len() implies #[trigger] r[k] == rows[k] by {
                    assert(r[k] == rows1[k]);
                }
                assert forall|k: int| rows.len() <= k < r.len() implies (next + fuel <= u64::MAX ==> (
                    #[trigger] r[k]).instance_id == next + (k - rows.len())) && r[k].player_identity == p && r[k].item_def_id == d
                    && single_location(r[k]) && in_player_slots(r[k]) && (cap > 0 ==> r[k].quantity
                    <= cap) by {
                    if k == rows.len() {
                        assert(r[k] == rows1[k]);
                    }
                }
                assert forall|p2: PlayerId, d2: u64|
                    (p2 != p || d2 != d) implies #[trigger] qty_of(r, p2, d2) == qty_of(rows, p2, d2) by {
                    lemma_qty_push(rows, x, p2, d2);
                    assert(qty_of(r, p2, d2) == qty_of(rows1, p2, d2));
                }
            },
            None => {},
        }
    }
}

proof fn lemma_push_keeps_distinct_if(rows: Seq<InventoryItem>, x: InventoryItem)
    requires
        x.hotbar_slot matches Some(h) ==> !hot_slot_taken(rows, x.player_identity, h),
        x.inventory_slot matches Some(k) ==> !inv_slot_taken(rows, x.player_identity, k),
    ensures
        slots_distinct(rows) ==> slots_distinct(rows.push(x)),
{
    if slots_distinct(rows) {
        lemma_push_keeps_distinct(rows, x);
    }
}

/// What adding `q` items of kind `d` to player `p` leaves in the table, and
/// whether it succeeds: top up the player's hotbar stacks, then main inventory
/// stacks (stackable kinds only), then put what is left (one item for a kind
/// that does not stack) into new stacks of at most the kind's stack size, each
/// in the lowest free hotbar slot, else the lowest free main inventory slot.
/// A full inventory keeps the stacks topped up and placed so far.
#[verifier::opaque]
pub open spec fn add_item_outcome(
    rows: Seq<InventoryItem>,
    next: u64,
    defs: Seq<ItemDefinition>,
    p: PlayerId,
    d: u64,
    q: u32,
) -> (Seq<InventoryItem>, u64, Result<(), GameError>) {
    if def_index(defs, d) == -1 {
        (rows, next, Err(GameError::DefinitionNotFound { def_id: d }))
    } else {
        let def = defs[def_index(defs, d)];
        let stacks = def.is_stackable && q > 0;
        let (s1, m1) = if stacks {
            stack_pass(rows, p, d, def.stack_size, q, true, rows.len())
        } else {
            (rows, q)
        };
        let (s2, m2) = if stacks && m1 > 0 {
            stack_pass(s1, p, d, def.stack_size, m1, false, s1.len())
        } else {
            (s1, m1)
        };
        if m2 == 0 {
            (s2, next, Ok(()))
        } else {
            let fq: u32 = if def.is_stackable {
                m2
            } else {
                1
            };
            let (r3, n3, all) = place_new_stacks(s2, next, p, d, def.stack_size, fq, MAX_NEW_STACKS as nat);
            (r3, n3, if all {
                Ok(())
            } else {
                Err(GameError::InventoryFull)
            })
        }
    }
}

/// An addition of a stackable kind that succeeds grows the player's holding
/// of that kind by exactly the quantity added.
pub proof fn law_add_item_adds_quantity(
    rows: Seq<InventoryItem>,
    next: u64,
    defs: Seq<ItemDefinition>,
    p: PlayerId,
    d: u64,
    q: u32,
)
    requires
        def_index(defs, d) != -1,
        defs[def_index(defs, d)].is_stackable,
        add_item_outcome(rows, next, defs, p, d, q).2 is Ok,
    ensures
        qty_of(add_item_outcome(rows, next, defs, p, d, q).0, p, d) == qty_of(rows, p, d) + q,
{
    reveal(add_item_outcome);
    let def = defs[def_index(defs, d)];
    if q > 0 {
        lemma_stack_pass(rows, p, d, def.stack_size, q, true, rows.len());
        let (s1, m1) = stack_pass(rows, p, d, def.stack_size, q, true, rows.len());
        if m1 > 0 {
            lemma_stack_pass(s1, p, d, def.stack_size, m1, false, s1.len());
        }
        let (s2, m2) = if m1 > 0 {
            stack_pass(s1, p, d, def.stack_size, m1, false, s1.len())
        } else {
            (s1, m1)
        };
        if m2 > 0 {
            lemma_place_new(s2, next, p, d, def.stack_size, m2, MAX_NEW_STACKS as nat);
        }
    }
}

/// Adding items never puts two of a player's items into one slot: stacks are
/// only topped up, and a new stack goes into a slot its owner has free.
pub proof fn law_add_item_keeps_slots_distinct(
    rows: Seq<InventoryItem>,
    next: u64,
    defs: Seq<ItemDefinition>,
    p: PlayerId,
    d: u64,
    q: u32,
)
    requires
        slots_distinct(rows),
    ensures
        slots_distinct(add_item_outcome(rows, next, defs, p, d, q).0),
{
    reveal(add_item_outcome);
    if def_index(defs, d) != -1 {
        let def = defs[def_index(defs, d)];
        let stacks = def.is_stackable && q > 0;
        if stacks {
            lemma_stack_pass(rows, p, d, def.stack_size, q, true, rows.len());
            let (s1, m1) = stack_pass(rows, p, d, def.stack_size, q, true, rows.len());
            assert(same_places(rows, s1));
            lemma_same_places(rows, s1);
        }
        let (s1, m1) = if stacks {
            stack_pass(rows, p, d, def.stack_size, q, true, rows.len())
        } else {
            (rows, q)
        };
        if stacks && m1 > 0 {
            lemma_stack_pass(s1, p, d, def.stack_size, m1, false, s1.len());
            let (s2, m2) = stack_pass(s1, p, d, def.stack_size, m1, false, s1.len());
            assert(same_places(s1, s2));
            lemma_same_places(s1, s2);
        }
        let (s2, m2) = if stacks && m1 > 0 {
            stack_pass(s1, p, d, def.stack_size, m1, false, s1.len())
        } else {
            (s1, m1)
        };
        if m2 > 0 {
            let fq: u32 = if def.is_stackable {
                m2
            } else {
                1
            };
            lemma_place_new(s2, next, p, d, def.stack_size, fq, MAX_NEW_STACKS as nat);
        }
    }
}

proof fn lemma_qty_pointwise(a: Seq<InventoryItem>, b: Seq<InventoryItem>, p: PlayerId, d: u64)
    requires
        a.len() == b.len(),
        forall|k: int| 0 <= k < a.len() ==> held_amount(#[trigger] a[k], p, d) == held_amount(b[k], p, d),
    ensures
        qty_of(a, p, d) == qty_of(b, p, d),
    decreases a.len(),
{
    if a.len() > 0 {
        lemma_qty_pointwise(a.drop_last(), b.drop_last(), p, d);
    }
}

/// Adding items of kind `d` leaves the player's holding of every other kind
/// as it was, whether the addition succeeds or not.
pub proof fn law_add_item_keeps_other_kinds(
    rows: Seq<InventoryItem>,
    next: u64,
    defs: Seq<ItemDefinition>,
    p: PlayerId,
    d: u64,
    q: u32,
    other: u64,
)
    requires
        other != d,
    ensures
        qty_of(add_item_outcome(rows, next, defs, p, d, q).0, p, other) == qty_of(rows, p, other),
{
    reveal(add_item_outcome);
    if def_index(defs, d) != -1 {
        let def = defs[def_index(defs, d)];
        let stacks = def.is_stackable && q > 0;
        if stacks {
            lemma_stack_pass(rows, p, d, def.stack_size, q, true, rows.len());
        }
        let (s1, m1) = if stacks {
            stack_pass(rows, p, d, def.stack_size, q, true, rows.len())
        } else {
            (rows, q)
        };
        if stacks {
            lemma_qty_pointwise(s1, rows, p, other);
        }
        if stacks && m1 > 0 {
            lemma_stack_pass(s1, p, d, def.stack_size, m1, false, s1.len());
            let (s2, m2) = stack_pass(s1, p, d, def.stack_size, m1, false, s1.len());
            lemma_qty_pointwise(s2, s1, p, other);
        }
        let (s2, m2) = if stacks && m1 > 0 {
            stack_pass(s1, p, d, def.stack_size, m1, false, s1.len())
        } else {
            (s1, m1)
        };
        if m2 > 0 {
            let fq: u32 = if def.is_stackable {
                m2
            } else {
                1
            };
            lemma_place_new(s2, next, p, d, def.stack_size, fq, MAX_NEW_STACKS as nat);
            let r3 = place_new_stacks(s2, next, p, d, def.stack_size, fq, MAX_NEW_STACKS as nat).0;
            assert(qty_of(r3, p, other) == qty_of(s2, p, other));
        }
    }
}

/// An addition keeps every existing row in its place under its id, and
/// leaves the rows that sit in no player slot as they were.
pub proof fn lemma_add_item_keeps_rows(
    rows: Seq<InventoryItem>,
    next: u64,
    defs: Seq<ItemDefinition>,
    p: PlayerId,
    d: u64,
    q: u32,
)
    ensures
        ({
            let r = add_item_outcome(rows, next, defs, p, d, q).0;
            &&& rows.len() <= r.len()
            &&& forall|k: int|
                0 <= k < rows.len() ==> (#[trigger] r[k]).instance_id == rows[k].instance_id
            &&& forall|k: int|
                0 <= k < rows.len() && !in_player_slots(rows[k]) ==> #[trigger] r[k] == rows[k]
            &&& next + MAX_NEW_STACKS <= u64::MAX ==> forall|k: int|
                rows.len() <= k < r.len() ==> (#[trigger] r[k]).instance_id >= next
        }),
{
    reveal(add_item_outcome);
    if def_index(defs, d) != -1 {
        let def = defs[def_index(defs, d)];
        let stacks = def.is_stackable && q > 0;
        if stacks {
            lemma_stack_pass(rows, p, d, def.stack_size, q, true, rows.len());
        }
        let (s1, m1) = if stacks {
            stack_pass(rows, p, d, def.stack_size, q, true, rows.len())
        } else {
            (rows, q)
        };
        if stacks && m1 > 0 {
            lemma_stack_pass(s1, p, d, def.stack_size, m1, false, s1.len());
        }
        let (s2, m2) = if stacks && m1 > 0 {
            stack_pass(s1, p, d, def.stack_size, m1, false, s1.len())
        } else {
            (s1, m1)
        };
        assert(s2.len() == rows.len());
        assert forall|k: int| 0 <= k < rows.len() implies (#[trigger] s2[k]).instance_id
            == rows[k].instance_id && (!in_player_slots(rows[k]) ==> s2[k] == rows[k]) by {
            assert(s1[k].instance_id == rows[k].instance_id);
            assert(!in_player_slots(rows[k]) ==> s1[k] == rows[k]);
        }
        if m2 > 0 {
            let fq: u32 = if def.is_stackable {
                m2
            } else {
                1
            };
            lemma_place_new(s2, next, p, d, def.stack_size, fq, MAX_NEW_STACKS as nat);
            let r3 = place_new_stacks(s2, next, p, d, def.stack_size, fq, MAX_NEW_STACKS as nat).0;
            assert forall|k: int| 0 <= k < rows.len() implies (#[trigger] r3[k]).instance_id
                == rows[k].instance_id && (!in_player_slots(rows[k]) ==> r3[k] == rows[k]) by {
                assert(r3[k] == s2[k]);
            }
            if next + MAX_NEW_STACKS <= u64::MAX {
                assert forall|k: int| rows.len() <= k < r3.len() implies (#[trigger] r3[k]).instance_id
                    >= next by {
                    assert(r3[k].instance_id == next + (k - s2.len()));
                }
            }
        }
    }
}

fn stack_onto_existing(
    store: &mut ItemStore,
    p: PlayerId,
    d: u64,
    cap: u32,
    rem: u32,
    hot: bool,
) -> (m: u32)
    requires
        old(store).wf(),
    ensures
        final(store).wf(),
        (final(store).rows(), m) == stack_pass(
            old(store).rows(),
            p,
            d,
            cap,
            rem,
            hot,
            old(store).rows().len(),
        ),
        final(store).next_id() == old(store).next_id(),
{
    let ghost rows0 = store.rows();
    let mut m = rem;
    let mut i: usize = 0;
    let n = store.len();
    while i < n
        invariant
            store.wf(),
            n == rows0.len(),
            i <= n,
            (store.rows(), m) == stack_pass(rows0, p, d, cap, rem, hot, i as nat),
            store.next_id() == old(store).next_id(),
        decreases n - i,
    {
        proof {
            lemma_stack_pass(rows0, p, d, cap, rem, hot, i as nat);
        }
        let it = store.get(i);
        let matches = it.player_identity == p && it.item_def_id == d && (if hot {
            it.hotbar_slot.is_some()
        } else {
            it.inventory_slot.is_some()
        });
        let space = cap.saturating_sub(it.quantity);
        if m > 0 && matches && space > 0 {
            let t = if m <= space {
                m
            } else {
                space
            };
            proof {
                assert(single_location(store.rows()[i as int]));
            }
            store.set(i, InventoryItem { quantity: it.quantity + t, ..it });
            m = m - t;
        }
        i = i + 1;
    }
    m
}

/// Adds `quantity` items of kind `item_def_id` to player `player_id`: tops up
/// the player's hotbar stacks, then main inventory stacks, in table order,
/// then places the rest in the lowest free hotbar slot, else the lowest free
/// main inventory slot. For a stackable kind the player's holding grows by
/// exactly `quantity` on success; a kind that does not stack gains one item.
pub fn add_item_to_player_inventory(
    store: &mut ItemStore,
    defs: &Vec<ItemDefinition>,
    player_id: PlayerId,
    item_def_id: u64,
    quantity: u32,
) -> (r: Result<(), GameError>)
    requires
        old(store).wf(),
        old(store).next_id() + MAX_NEW_STACKS < u64::MAX,
    ensures
        final(store).wf(),
        old(store).next_id() <= final(store).next_id() <= old(store).next_id() + MAX_NEW_STACKS,
        def_index(defs@, item_def_id) != -1 && defs@[def_index(defs@, item_def_id)].stack_size > 0
            && stacks_within(old(store).rows(), player_id, item_def_id, defs@[def_index(defs@, item_def_id)].stack_size)
            ==> stacks_within(final(store).rows(), player_id, item_def_id, defs@[def_index(defs@, item_def_id)].stack_size),
        ({
            let (rows, next, res) = add_item_outcome(
                old(store).rows(),
                old(store).next_id(),
                defs@,
                player_id,
                item_def_id,
                quantity,
            );
            final(store).rows() == rows && final(store).next_id() == next && r == res
        }),
        r is Ok && defs@[def_index(defs@, item_def_id)].is_stackable ==> qty_of(
            final(store).rows(),
            player_id,
            item_def_id,
        ) == qty_of(old(store).rows(), player_id, item_def_id) + quantity,
        r is Ok && !defs@[def_index(defs@, item_def_id)].is_stackable && quantity > 0 ==> qty_of(
            final(store).rows(),
            player_id,
            item_def_id,
        ) == qty_of(old(store).rows(), player_id, item_def_id) + 1,
{
    proof {
        lemma_add_item_facts(store.rows(), store.next_id(), defs@, player_id, item_def_id, quantity);
    }
    reveal(add_item_outcome);
    let ghost rows0 = store.rows();
    let di = match find_def(defs, item_def_id) {
        Some(i) => i,
        None => {
            return Err(GameError::DefinitionNotFound { def_id: item_def_id });
        },
    };
    let def = &defs[di];
    let cap = def.stack_size;
    let stacks = def.is_stackable && quantity > 0;
    let mut remaining = quantity;
    if stacks {
        proof {
            lemma_stack_pass(rows0, player_id, item_def_id, cap, quantity, true, rows0.len());
        }
        remaining = stack_onto_existing(store, player_id, item_def_id, cap, remaining, true);
        if remaining > 0 {
            let ghost rows1 = store.rows();
            proof {
                lemma_stack_pass(
                    rows1,
                    player_id,
                    item_def_id,
                    cap,
                    remaining,
                    false,
                    rows1.len(),
                );
            }
            remaining = stack_onto_existing(store, player_id, item_def_id, cap, remaining, false);
        }
    }
    if remaining == 0 {
        return Ok(());
    }
    let final_quantity = if def.is_stackable {
        remaining
    } else {
        1
    };
    if place_new_stacks_exec(store, player_id, item_def_id, cap, final_quantity) {
        Ok(())
    } else {
        Err(GameError::InventoryFull)
    }
}

/// Places `m0` items as new stacks of at most `cap` items in the player's
/// free slots, at most `MAX_NEW_STACKS` of them; whether all were placed.
fn place_new_stacks_exec(store: &mut ItemStore, p: PlayerId, d: u64, cap: u32, m0: u32) -> (all: bool)
    requires
        old(store).wf(),
        old(store).next_id() + MAX_NEW_STACKS < u64::MAX,
    ensures
        final(store).wf(),
        (final(store).rows(), final(store).next_id(), all) == place_new_stacks(
            old(store).rows(),
            old(store).next_id(),
            p,
            d,
            cap,
            m0,
            MAX_NEW_STACKS as nat,
        ),
{
    let ghost target = place_new_stacks(store.rows(), store.next_id(), p, d, cap, m0, MAX_NEW_STACKS as nat);
    let mut m = m0;
    let mut fuel: u64 = MAX_NEW_STACKS;
    while m > 0 && fuel > 0
        invariant
            store.wf(),
            fuel <= MAX_NEW_STACKS,
            store.next_id() + fuel < u64::MAX,
            place_new_stacks(store.rows(), store.next_id(), p, d, cap, m, fuel as nat) == target,
            target == place_new_stacks(
                old(store).rows(),
                old(store).next_id(),
                p,
                d,
                cap,
                m0,
                MAX_NEW_STACKS as nat,
            ),
        decreases fuel,
    {
        let c = if cap == 0 || m <= cap {
            m
        } else {
            cap
        };
        let proto = InventoryItem {
            instance_id: 0,
            player_identity: p,
            item_def_id: d,
            quantity: c,
            hotbar_slot: None,
            inventory_slot: None,
        };
        let ghost rows = store.rows();
        let ghost nx = store.next_id();
        assert(c == chunk(m, cap));
        match find_first_empty_hotbar_slot(store, p) {
            Some(h) => {
                let _id = store.insert(InventoryItem { hotbar_slot: Some(h), ..proto });
                assert(new_stack_at(rows, p, d, nx, c) == Some(
                    InventoryItem { instance_id: nx, hotbar_slot: Some(h), ..proto },
                ));
            },
            None => match find_first_empty_inventory_slot(store, p) {
                Some(k) => {
                    let _id = store.insert(InventoryItem { inventory_slot: Some(k), ..proto });
                    assert(new_stack_at(rows, p, d, nx, c) == Some(
                        InventoryItem { instance_id: nx, inventory_slot: Some(k), ..proto },
                    ));
                },
                None => {
                    assert(new_stack_at(rows, p, d, nx, c) is None);
                    assert(place_new_stacks(rows, nx, p, d, cap, m, fuel as nat) == (rows, nx, false));
                    return false;
                },
            },
        }
        m = m - c;
        fuel = fuel - 1;
    }
    m == 0
}

/// What an addition does to the next id and to the holding of its kind.
pub proof fn lemma_add_item_facts(
    rows: Seq<InventoryItem>,
    next: u64,
    defs: Seq<ItemDefinition>,
    p: PlayerId,
    d: u64,
    q: u32,
)
    requires
        next + MAX_NEW_STACKS < u64::MAX,
    ensures
        ({
            let (r, n, res) = add_item_outcome(rows, next, defs, p, d, q);
            &&& next <= n <= next + MAX_NEW_STACKS
            &&& res is Ok && defs[def_index(defs, d)].is_stackable ==> qty_of(r, p, d) == qty_of(rows, p, d) + q
            &&& res is Ok && !defs[def_index(defs, d)].is_stackable && q > 0 ==> qty_of(r, p, d) == qty_of(
                rows,
                p,
                d,
            ) + 1
            &&& def_index(defs, d) != -1 && defs[def_index(defs, d)].stack_size > 0 && stacks_within(
                rows,
                p,
                d,
                defs[def_index(defs, d)].stack_size,
            ) ==> stacks_within(r, p, d, defs[def_index(defs, d)].stack_size)
        }),
{
    reveal(add_item_outcome);
    let (r, n, res) = add_item_outcome(rows, next, defs, p, d, q);
    if def_index(defs, d) != -1 {
        let def = defs[def_index(defs, d)];
        if res is Ok && def.is_stackable {
            law_add_item_adds_quantity(rows, next, defs, p, d, q);
        }
        if def.stack_size > 0 && stacks_within(rows, p, d, def.stack_size) {
            law_add_item_respects_stack_size(rows, next, defs, p, d, q);
        }
        let stacks = def.is_stackable && q > 0;
        if stacks {
            lemma_stack_pass(rows, p, d, def.stack_size, q, true, rows.len());
        }
        let (s1, m1) = if stacks {
            stack_pass(rows, p, d, def.stack_size, q, true, rows.len())
        } else {
            (rows, q)
        };
        if stacks && m1 > 0 {
            lemma_stack_pass(s1, p, d, def.stack_size, m1, false, s1.len());
        }
        let (s2, m2) = if stacks && m1 > 0 {
            stack_pass(s1, p, d, def.stack_size, m1, false, s1.len())
        } else {
            (s1, m1)
        };
        if m2 > 0 {
            let fq: u32 = if def.is_stackable {
                m2
            } else {
                1
            };
            lemma_place_new(s2, next, p, d, def.stack_size, fq, MAX_NEW_STACKS as nat);
        }
    }
}

/// How many items a successful addition of `q` items of kind `d` gives the
/// player: all of them for a kind that stacks (or is unknown), one for a kind
/// that does not stack.
pub open spec fn granted(defs: Seq<ItemDefinition>, d: u64, q: u32) -> int {
    if def_index(defs, d) != -1 && !defs[def_index(defs, d)].is_stackable {
        if q > 0 {
            1
        } else {
            0
        }
    } else {
        q as int
    }
}

/// A successful addition grows the player's holding of the kind by exactly
/// what it grants, and leaves every other kind and every other player's
/// holding as it was.
pub proof fn law_add_item_grants(
    rows: Seq<InventoryItem>,
    next: u64,
    defs: Seq<ItemDefinition>,
    p: PlayerId,
    d: u64,
    q: u32,
)
    ensures
        ({
            let (r, n, res) = add_item_outcome(rows, next, defs, p, d, q);
            &&& res is Ok ==> qty_of(r, p, d) == qty_of(rows, p, d) + granted(defs, d, q)
            &&& forall|p2: PlayerId, d2: u64|
                (p2 != p || d2 != d) ==> #[trigger] qty_of(r, p2, d2) == qty_of(rows, p2, d2)
        }),
{
    reveal(add_item_outcome);
    if def_index(defs, d) != -1 {
        let def = defs[def_index(defs, d)];
        let stacks = def.is_stackable && q > 0;
        if stacks {
            lemma_stack_pass(rows, p, d, def.stack_size, q, true, rows.len());
        }
        let (s1, m1) = if stacks {
            stack_pass(rows, p, d, def.stack_size, q, true, rows.len())
        } else {
            (rows, q)
        };
        if stacks && m1 > 0 {
            lemma_stack_pass(s1, p, d, def.stack_size, m1, false, s1.len());
        }
        let (s2, m2) = if stacks && m1 > 0 {
            stack_pass(s1, p, d, def.stack_size, m1, false, s1.len())
        } else {
            (s1, m1)
        };
        assert forall|p2: PlayerId, d2: u64| (p2 != p || d2 != d) implies #[trigger] qty_of(s2, p2, d2)
            == qty_of(rows, p2, d2) by {
            if stacks {
                lemma_qty_pointwise(s1, rows, p2, d2);
            }
            if stacks && m1 > 0 {
                lemma_qty_pointwise(s2, s1, p2, d2);
            }
        }
        if m2 > 0 {
            let fq: u32 = if def.is_stackable {
                m2
            } else {
                1
            };
            lemma_place_new(s2, next, p, d, def.stack_size, fq, MAX_NEW_STACKS as nat);
        }
    }
}

/// A refused addition of at least one item grants less than a successful
/// one would: the player's holding of the kind grows by less than what
/// success grants (it keeps whatever was topped up or placed before the
/// inventory ran full).
pub proof fn law_add_item_refusal_falls_short(
    rows: Seq<InventoryItem>,
    next: u64,
    defs: Seq<ItemDefinition>,
    p: PlayerId,
    d: u64,
    q: u32,
)
    requires
        q > 0,
        add_item_outcome(rows, next, defs, p, d, q).2 is Err,
    ensures
        qty_of(add_item_outcome(rows, next, defs, p, d, q).0, p, d) < qty_of(rows, p, d) + granted(defs, d, q),
{
    reveal(add_item_outcome);
    if def_index(defs, d) != -1 {
        let def = defs[def_index(defs, d)];
        let stacks = def.is_stackable && q > 0;
        if stacks {
            lemma_stack_pass(rows, p, d, def.stack_size, q, true, rows.len());
        }
        let (s1, m1) = if stacks {
            stack_pass(rows, p, d, def.stack_size, q, true, rows.len())
        } else {
            (rows, q)
        };
        if stacks && m1 > 0 {
            lemma_stack_pass(s1, p, d, def.stack_size, m1, false, s1.len());
        }
        let (s2, m2) = if stacks && m1 > 0 {
            stack_pass(s1, p, d, def.stack_size, m1, false, s1.len())
        } else {
            (s1, m1)
        };
        let fq: u32 = if def.is_stackable {
            m2
        } else {
            1
        };
        lemma_place_new(s2, next, p, d, def.stack_size, fq, MAX_NEW_STACKS as nat);
    }
}

/// Whether every item of kind `d` of `p` holds at most `cap`.
pub open spec fn stacks_within(rows: Seq<InventoryItem>, p: PlayerId, d: u64, cap: u32) -> bool {
    forall|k: int|
        0 <= k < rows.len() && (#[trigger] rows[k]).player_identity == p && rows[k].item_def_id == d
            ==> rows[k].quantity <= cap
}

/// Adding items never makes a stack larger than the kind's stack size: stacks
/// are topped up to it, and what is left goes into new stacks of at most that
/// size. (A kind whose stack size is zero sets no size.)
pub proof fn law_add_item_respects_stack_size(
    rows: Seq<InventoryItem>,
    next: u64,
    defs: Seq<ItemDefinition>,
    p: PlayerId,
    d: u64,
    q: u32,
)
    requires
        def_index(defs, d) != -1,
        defs[def_index(defs, d)].stack_size > 0,
        stacks_within(rows, p, d, defs[def_index(defs, d)].stack_size),
    ensures
        stacks_within(add_item_outcome(rows, next, defs, p, d, q).0, p, d, defs[def_index(defs, d)].stack_size),
{
    reveal(add_item_outcome);
    let def = defs[def_index(defs, d)];
    let cap = def.stack_size;
    let stacks = def.is_stackable && q > 0;
    if stacks {
        lemma_stack_pass(rows, p, d, cap, q, true, rows.len());
    }
    let (s1, m1) = if stacks {
        stack_pass(rows, p, d, cap, q, true, rows.len())
    } else {
        (rows, q)
    };
    assert(stacks_within(s1, p, d, cap)) by {
        assert forall|k: int|
            0 <= k < s1.len() && (#[trigger] s1[k]).player_identity == p && s1[k].item_def_id == d implies s1[k].quantity
            <= cap by {
            assert(rows[k] == rows[k]);
        }
    }
    if stacks && m1 > 0 {
        lemma_stack_pass(s1, p, d, cap, m1, false, s1.len());
    }
    let (s2, m2) = if stacks && m1 > 0 {
        stack_pass(s1, p, d, cap, m1, false, s1.len())
    } else {
        (s1, m1)
    };
    assert(stacks_within(s2, p, d, cap)) by {
        assert forall|k: int|
            0 <= k < s2.len() && (#[trigger] s2[k]).player_identity == p && s2[k].item_def_id == d implies s2[k].quantity
            <= cap by {
            assert(s1[k] == s1[k]);
        }
    }
    if m2 > 0 {
        let fq: u32 = if def.is_stackable {
            m2
        } else {
            1
        };
        lemma_place_new(s2, next, p, d, cap, fq, MAX_NEW_STACKS as nat);
        let r3 = place_new_stacks(s2, next, p, d, cap, fq, MAX_NEW_STACKS as nat).0;
        assert forall|k: int|
            0 <= k < r3.len() && (#[trigger] r3[k]).player_identity == p && r3[k].item_def_id == d implies r3[k].quantity
            <= cap by {
            if k < s2.len() {
                assert(r3[k] == s2[k]);
            }
        }
    }
}

/// Takes `quantity_to_split` items off the stack at row `i` into a new,
/// unplaced stack of the same owner and kind; returns the new instance id.
pub fn split_stack_helper(store: &mut ItemStore, i: usize, quantity_to_split: u32) -> (r: Result<
    u64,
    GameError,
>)
    requires
        old(store).wf(),
        old(store).next_id() < u64::MAX,
        i < old(store).rows().len(),
    ensures
        final(store).wf(),
        ({
            let src = old(store).rows()[i as int];
            if quantity_to_split == 0 || quantity_to_split >= src.quantity {
                r == Err::<u64, GameError>(GameError::InvalidSplitQuantity) && final(store).rows()
                    == old(store).rows() && final(store).next_id() == old(store).next_id()
            } else {
                r == Ok::<u64, GameError>(old(store).next_id()) && final(store).next_id()
                    == old(store).next_id() + 1 && final(store).rows() == old(store).rows().update(
                    i as int,
                    InventoryItem { quantity: (src.quantity - quantity_to_split) as u32, ..src },
                ).push(
                    InventoryItem {
                        instance_id: old(store).next_id(),
                        quantity: quantity_to_split,
                        hotbar_slot: None,
                        inventory_slot: None,
                        ..src
                    },
                )
            }
        }),
{
    let src = store.get(i);
    if quantity_to_split == 0 || quantity_to_split >= src.quantity {
        return Err(GameError::InvalidSplitQuantity);
    }
    proof {
        assert(single_location(store.rows()[i as int]));
    }
    store.set(i, InventoryItem { quantity: src.quantity - quantity_to_split, ..src });
    let id = store.insert(
        InventoryItem {
            instance_id: 0,
            quantity: quantity_to_split,
            hotbar_slot: None,
            inventory_slot: None,
            ..src
        },
    );
    Ok(id)
}

} // verus!
