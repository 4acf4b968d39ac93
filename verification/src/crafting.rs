use vstd::prelude::*;
use crate::types::{PlayerId, InventoryItem, ItemDefinition, def_index_by_name, find_def_by_name};
use crate::store::{ItemStore, in_player_slots, slots_distinct};
use crate::stacking::{
    held_amount, qty_of, lemma_qty_push, add_item_outcome, add_item_to_player_inventory,
    law_add_item_adds_quantity, law_add_item_keeps_other_kinds, law_add_item_keeps_slots_distinct,
    lemma_add_item_facts, law_add_item_grants, law_add_item_refusal_falls_short, granted, MAX_NEW_STACKS,
};
use crate::types::def_index;
use crate::player::{PlayerState, is_alive, find_player};
use crate::errors::GameError;

verus! {

/// One ingredient of a recipe: an item kind and how many of it.
#[derive(Clone, Copy, Debug, PartialEq, Eq, Structural)]
pub struct RecipeIngredient {
    pub item_def_id: u64,
    pub quantity: u32,
}

/// A crafting recipe.
#[derive(Clone, Debug)]
pub struct Recipe {
    pub recipe_id: u64,
    pub output_item_def_id: u64,
    pub output_quantity: u32,
    pub ingredients: Vec<RecipeIngredient>,
    pub crafting_time_secs: u32,
}

/// Total quantity of item kind `d` among the first `m` ingredients.
pub open spec fn required(ings: Seq<RecipeIngredient>, d: u64, m: int) -> int
    decreases m,
{
    if m <= 0 {
        0
    } else {
        required(ings, d, m - 1) + if ings[m - 1].item_def_id == d {
            ings[m - 1].quantity as int
        } else {
            0
        }
    }
}

/// The item kinds among the first `m` ingredients, each once, in order of
/// first appearance.
pub open spec fn req_defs(ings: Seq<RecipeIngredient>, m: int) -> Seq<u64>
    decreases m,
{
    if m <= 0 {
        Seq::empty()
    } else {
        let prev = req_defs(ings, m - 1);
        if prev.contains(ings[m - 1].item_def_id) {
            prev
        } else {
            prev.push(ings[m - 1].item_def_id)
        }
    }
}

/// Every item kind's total requirement fits in 32 bits.
pub open spec fn totals_fit(ings: Seq<RecipeIngredient>) -> bool {
    forall|d: u64| required(ings, d, ings.len() as int) <= u32::MAX
}

/// Quantity of kind `d` the player holds in the hotbar and inventory among
/// the first `k` rows.
pub open spec fn avail(rows: Seq<InventoryItem>, p: PlayerId, d: u64, k: int) -> int {
    qty_of(rows.take(k), p, d)
}

/// How much of kind `d` is still needed when the crafting scan reaches row `k`.
pub open spec fn need_before(
    rows: Seq<InventoryItem>,
    p: PlayerId,
    ings: Seq<RecipeIngredient>,
    d: u64,
    k: int,
) -> int {
    let n = required(ings, d, ings.len() as int) - avail(rows, p, d, k);
    if n > 0 {
        n
    } else {
        0
    }
}

/// How many items the crafting scan takes from row `k`: none for a row that
/// is not the player's hotbar or inventory stack of a needed kind; else as
/// many as are still needed, at most the whole stack.
pub open spec fn take_at(
    rows: Seq<InventoryItem>,
    p: PlayerId,
    ings: Seq<RecipeIngredient>,
    k: int,
) -> Option<u32> {
    let it = rows[k];
    let nb = need_before(rows, p, ings, it.item_def_id, k);
    if it.player_identity == p && in_player_slots(it) && req_defs(
        ings,
        ings.len() as int,
    ).contains(it.item_def_id) && nb > 0 {
        Some(
            if it.quantity <= nb {
                it.quantity
            } else {
                nb as u32
            },
        )
    } else {
        None
    }
}

/// Row `k` after the scan has taken from it: deleted when all of it is taken.
pub open spec fn row_after_take(item: InventoryItem, t: Option<u32>) -> Seq<InventoryItem> {
    match t {
        None => seq![item],
        Some(t) => if t >= item.quantity {
            Seq::empty()
        } else {
            seq![InventoryItem { quantity: (item.quantity - t) as u32, ..item }]
        },
    }
}

/// The first `k` rows after the ingredients were taken from them.
pub open spec fn consumed(
    rows: Seq<InventoryItem>,
    p: PlayerId,
    ings: Seq<RecipeIngredient>,
    k: int,
) -> Seq<InventoryItem>
    decreases k,
{
    if k <= 0 {
        Seq::empty()
    } else {
        consumed(rows, p, ings, k - 1) + row_after_take(rows[k - 1], take_at(rows, p, ings, k - 1))
    }
}

/// The first needed kind, from the `j`-th on, of which the player holds too
/// little, with the amount missing.
pub open spec fn missing_from(
    rows: Seq<InventoryItem>,
    p: PlayerId,
    ings: Seq<RecipeIngredient>,
    j: int,
) -> Option<(u64, u32)>
    decreases req_defs(ings, ings.len() as int).len() - j,
{
    let ds = req_defs(ings, ings.len() as int);
    if j < 0 || j >= ds.len() {
        None
    } else {
        let nb = need_before(rows, p, ings, ds[j], rows.len() as int);
        if nb > 0 {
            Some((ds[j], nb as u32))
        } else {
            missing_from(rows, p, ings, j + 1)
        }
    }
}

proof fn lemma_required_mono(ings: Seq<RecipeIngredient>, d: u64, m: int, n: int)
    requires
        0 <= m <= n,
    ensures
        0 <= required(ings, d, m) <= required(ings, d, n),
    decreases n,
{
    if n > 0 && m < n {
        lemma_required_mono(ings, d, m, n - 1);
    } else if n > 0 {
        lemma_required_mono(ings, d, n - 1, n - 1);
    }
}

proof fn lemma_avail_step(rows: Seq<InventoryItem>, p: PlayerId, d: u64, k: int)
    requires
        0 <= k < rows.len(),
    ensures
        avail(rows, p, d, k + 1) == avail(rows, p, d, k) + held_amount(rows[k], p, d),
{
    assert(rows.take(k + 1) =~= rows.take(k).push(rows[k]));
    lemma_qty_push(rows.take(k), rows[k], p, d);
}

proof fn lemma_qty_nonneg(rows: Seq<InventoryItem>, p: PlayerId, d: u64)
    ensures
        qty_of(rows, p, d) >= 0,
    decreases rows.len(),
{
    if rows.len() > 0 {
        lemma_qty_nonneg(rows.drop_last(), p, d);
    }
}

proof fn lemma_qty_concat(a: Seq<InventoryItem>, b: Seq<InventoryItem>, p: PlayerId, d: u64)
    ensures
        qty_of(a + b, p, d) == qty_of(a, p, d) + qty_of(b, p, d),
    decreases b.len(),
{
    if b.len() == 0 {
        assert(a + b =~= a);
    } else {
        lemma_qty_concat(a, b.drop_last(), p, d);
        assert((a + b).drop_last() =~= a + b.drop_last());
    }
}

/// Taking ingredients from the first `k` rows removes, of each kind, as much
/// as is required or as the player holds there, whichever is less.
proof fn lemma_consumed_qty(
    rows: Seq<InventoryItem>,
    p: PlayerId,
    ings: Seq<RecipeIngredient>,
    d: u64,
    k: int,
)
    requires
        0 <= k <= rows.len(),
    ensures
        ({
            let r = required(ings, d, ings.len() as int);
            let a = avail(rows, p, d, k);
            qty_of(consumed(rows, p, ings, k), p, d) == a - (if r < a {
                r
            } else {
                a
            })
        }),
    decreases k,
{
    let r = required(ings, d, ings.len() as int);
    lemma_required_mono(ings, d, 0, ings.len() as int);
    if k == 0 {
        assert(rows.take(0) =~= Seq::<InventoryItem>::empty());
    } else {
        lemma_consumed_qty(rows, p, ings, d, k - 1);
        lemma_avail_step(rows, p, d, k - 1);
        lemma_qty_nonneg(rows.take(k - 1), p, d);
        let it = rows[k - 1];
        let t = take_at(rows, p, ings, k - 1);
        let tail = row_after_take(it, t);
        lemma_qty_concat(consumed(rows, p, ings, k - 1), tail, p, d);
        if tail.len() == 1 {
            assert(tail =~= Seq::<InventoryItem>::empty().push(tail[0]));
            lemma_qty_push(Seq::<InventoryItem>::empty(), tail[0], p, d);
        } else {
            assert(tail =~= Seq::<InventoryItem>::empty());
        }
        if it.item_def_id == d && it.player_identity == p && in_player_slots(it) && r > 0 {
            lemma_req_defs_contains(ings, d);
        }
    }
}

/// A kind with a positive requirement is among the needed kinds.
proof fn lemma_req_defs_contains(ings: Seq<RecipeIngredient>, d: u64)
    requires
        required(ings, d, ings.len() as int) > 0,
    ensures
        req_defs(ings, ings.len() as int).contains(d),
{
    lemma_req_defs_prefix(ings, d, ings.len() as int);
}

proof fn lemma_req_defs_prefix(ings: Seq<RecipeIngredient>, d: u64, m: int)
    requires
        0 <= m <= ings.len(),
    ensures
        !req_defs(ings, m).contains(d) ==> required(ings, d, m) == 0,
        req_defs(ings, m).no_duplicates(),
    decreases m,
{
    if m > 0 {
        lemma_req_defs_prefix(ings, d, m - 1);
        let prev = req_defs(ings, m - 1);
        let x = ings[m - 1].item_def_id;
        if !prev.contains(x) {
            assert forall|a: int, b: int|
                0 <= a < prev.push(x).len() && 0 <= b < prev.push(x).len() && a != b implies prev.push(
                x,
            )[a] != prev.push(x)[b] by {
                if a == prev.len() {
                    assert(prev.contains(prev[b]));
                } else if b == prev.len() {
                    assert(prev.contains(prev[a]));
                }
            }
            if !prev.push(x).contains(d) {
                assert(!prev.contains(d)) by {
                    if prev.contains(d) {
                        let w = choose|w: int| 0 <= w < prev.len() && prev[w] == d;
                        assert(prev.push(x)[w] == d);
                    }
                }
                assert(x != d) by {
                    assert(prev.push(x)[prev.len() as int] == x);
                }
            }
        } else {
            if !prev.contains(d) {
                assert(x != d);
            }
        }
    }
}

/// No kind is missing from the `j`-th on: nothing is still needed of them.
proof fn lemma_no_missing(rows: Seq<InventoryItem>, p: PlayerId, ings: Seq<RecipeIngredient>, j: int)
    requires
        0 <= j,
        missing_from(rows, p, ings, j) is None,
    ensures
        forall|jj: int|
            j <= jj < req_defs(ings, ings.len() as int).len() ==> need_before(
                rows,
                p,
                ings,
                #[trigger] req_defs(ings, ings.len() as int)[jj],
                rows.len() as int,
            ) == 0,
    decreases req_defs(ings, ings.len() as int).len() - j,
{
    if j < req_defs(ings, ings.len() as int).len() {
        lemma_no_missing(rows, p, ings, j + 1);
    }
}

/// Sums the ingredient list per kind: kinds in order of first appearance.
fn build_needs(ings: &Vec<RecipeIngredient>) -> (needs: Vec<(u64, u32)>)
    requires
        totals_fit(ings@),
    ensures
        needs@.len() == req_defs(ings@, ings@.len() as int).len(),
        forall|j: int|
            0 <= j < needs@.len() ==> #[trigger] needs@[j].0 == req_defs(ings@, ings@.len() as int)[j]
                && needs@[j].1 == required(ings@, needs@[j].0, ings@.len() as int),
{
    let ghost s = ings@;
    let ghost n = s.len() as int;
    let mut needs: Vec<(u64, u32)> = Vec::new();
    let mut m: usize = 0;
    while m < ings.len()
        invariant
            s == ings@,
            n == s.len(),
            totals_fit(s),
            m <= n,
            needs@.len() == req_defs(s, m as int).len(),
            req_defs(s, m as int).no_duplicates(),
            forall|j: int|
                0 <= j < needs@.len() ==> #[trigger] needs@[j].0 == req_defs(s, m as int)[j]
                    && needs@[j].1 == required(s, needs@[j].0, m as int),
            forall|x: u64| !req_defs(s, m as int).contains(x) ==> required(s, x, m as int) == 0,
        decreases n - m,
    {
        let ing = ings[m];
        let ghost prev = req_defs(s, m as int);
        let ghost next = req_defs(s, m + 1);
        assert(forall|x: u64|
            required(s, x, m + 1) == required(s, x, m as int) + if s[m as int].item_def_id == x {
                s[m as int].quantity as int
            } else {
                0
            });
        proof {
            lemma_required_mono(s, ing.item_def_id, m + 1, n);
            lemma_req_defs_prefix(s, ing.item_def_id, m + 1);
        }
        match find_need(&needs, ing.item_def_id) {
            Some(j) => {
                let (d, q) = needs[j];
                assert(prev.contains(ing.item_def_id));
                assert(next == prev);
                needs.set(j, (d, q + ing.quantity));
                assert forall|jj: int| 0 <= jj < needs@.len() implies #[trigger] needs@[jj].0
                    == next[jj] && needs@[jj].1 == required(s, needs@[jj].0, m + 1) by {
                    if jj != j {
                        assert(prev[jj] != prev[j as int]);
                    }
                }
                assert forall|x: u64| !next.contains(x) implies required(s, x, m + 1) == 0 by {
                    assert(required(s, x, m as int) == 0);
                    assert(x != ing.item_def_id);
                    assert(required(s, x, m + 1) == required(s, x, m as int));
                }
            },
            None => {
                assert(!prev.contains(ing.item_def_id)) by {
                    if prev.contains(ing.item_def_id) {
                        let w = choose|w: int| 0 <= w < prev.len() && prev[w] == ing.item_def_id;
                        assert(needs@[w].0 == ing.item_def_id);
                    }
                }
                assert(next == prev.push(ing.item_def_id));
                assert(required(s, ing.item_def_id, m as int) == 0);
                needs.push((ing.item_def_id, ing.quantity));
                assert forall|jj: int| 0 <= jj < needs@.len() implies #[trigger] needs@[jj].0
                    == next[jj] && needs@[jj].1 == required(s, needs@[jj].0, m + 1) by {
                    if jj < prev.len() {
                        assert(prev[jj] != ing.item_def_id) by {
                            assert(prev.contains(prev[jj]));
                        }
                        assert(required(s, prev[jj], m + 1) == required(s, prev[jj], m as int));
                    }
                }
                assert forall|x: u64| !next.contains(x) implies required(s, x, m + 1) == 0 by {
                    assert(next[prev.len() as int] == ing.item_def_id);
                    if prev.contains(x) {
                        let w = choose|w: int| 0 <= w < prev.len() && prev[w] == x;
                        assert(next[w] == x);
                    }
                    assert(!prev.contains(x));
                    assert(required(s, x, m as int) == 0);
                    assert(x != ing.item_def_id);
                    assert(required(s, x, m + 1) == required(s, x, m as int));
                }
            },
        }
        m = m + 1;
    }
    needs
}

/// Index of the entry for kind `d`.
fn find_need(needs: &Vec<(u64, u32)>, d: u64) -> (r: Option<usize>)
    ensures
        match r {
            Some(j) => j < needs@.len() && needs@[j as int].0 == d,
            None => forall|j: int| 0 <= j < needs@.len() ==> needs@[j].0 != d,
        },
{
    let mut j: usize = 0;
    while j < needs.len()
        invariant
            j <= needs@.len(),
            forall|jj: int| 0 <= jj < j ==> needs@[jj].0 != d,
        decreases needs.len() - j,
    {
        if needs[j].0 == d {
            return Some(j);
        }
        j = j + 1;
    }
    None
}

/// Plans the crafting scan over the rows: how much is taken from each row;
/// `needs` ends holding what is still missing of each kind.
fn plan_takes(
    store: &ItemStore,
    p: PlayerId,
    needs: &mut Vec<(u64, u32)>,
    Ghost(ings): Ghost<Seq<RecipeIngredient>>,
) -> (plan: Vec<Option<u32>>)
    requires
        store.wf(),
        old(needs)@.len() == req_defs(ings, ings.len() as int).len(),
        forall|j: int|
            0 <= j < old(needs)@.len() ==> #[trigger] old(needs)@[j].0 == req_defs(
                ings,
                ings.len() as int,
            )[j] && old(needs)@[j].1 == required(ings, old(needs)@[j].0, ings.len() as int),
    ensures
        plan@.len() == store.rows().len(),
        forall|k: int| 0 <= k < plan@.len() ==> #[trigger] plan@[k] == take_at(store.rows(), p, ings, k),
        final(needs)@.len() == old(needs)@.len(),
        forall|j: int|
            0 <= j < final(needs)@.len() ==> #[trigger] final(needs)@[j].0 == req_defs(
                ings,
                ings.len() as int,
            )[j] && final(needs)@[j].1 == need_before(
                store.rows(),
                p,
                ings,
                final(needs)@[j].0,
                store.rows().len() as int,
            ),
{
    let ghost rows = store.rows();
    let ghost ds = req_defs(ings, ings.len() as int);
    let ghost n = rows.len() as int;
    proof {
        lemma_req_defs_prefix(ings, 0, ings.len() as int);
        assert(rows.take(0) =~= Seq::<InventoryItem>::empty());
        assert forall|j: int| 0 <= j < needs@.len() implies needs@[j].1 == need_before(
            rows,
            p,
            ings,
            needs@[j].0,
            0,
        ) by {
            lemma_required_mono(ings, needs@[j].0, 0, ings.len() as int);
        }
    }
    let mut plan: Vec<Option<u32>> = Vec::new();
    let mut k: usize = 0;
    let len = store.len();
    while k < len
        invariant
            store.wf(),
            rows == store.rows(),
            n == len,
            n == rows.len(),
            ds == req_defs(ings, ings.len() as int),
            ds.no_duplicates(),
            k <= n,
            plan@.len() == k,
            forall|kk: int| 0 <= kk < k ==> #[trigger] plan@[kk] == take_at(rows, p, ings, kk),
            needs@.len() == ds.len(),
            forall|j: int|
                0 <= j < needs@.len() ==> #[trigger] needs@[j].0 == ds[j] && needs@[j].1
                    == need_before(rows, p, ings, needs@[j].0, k as int),
        decreases n - k,
    {
        let it = store.get(k);
        let ghost needs0 = needs@;
        proof {
            assert forall|x: u64| #[trigger] avail(rows, p, x, k + 1) == avail(rows, p, x, k as int)
                + held_amount(it, p, x) by {
                lemma_avail_step(rows, p, x, k as int);
            }
        }
        let usable = it.player_identity == p && (it.inventory_slot.is_some() || it.hotbar_slot.is_some());
        let mut step: Option<u32> = None;
        if usable {
            match find_need(needs, it.item_def_id) {
                Some(j) => {
                    let (d, need) = needs[j];
                    assert(ds.contains(it.item_def_id)) by {
                        assert(ds[j as int] == it.item_def_id);
                    }
                    if need > 0 {
                        let t = if it.quantity <= need {
                            it.quantity
                        } else {
                            need
                        };
                        step = Some(t);
                        needs.set(j, (d, need - t));
                        assert forall|jj: int| 0 <= jj < needs@.len() implies #[trigger] needs@[jj].0
                            == ds[jj] && needs@[jj].1 == need_before(rows, p, ings, needs@[jj].0, k + 1) by {
                            if jj != j {
                                assert(ds[jj] != ds[j as int]);
                                assert(avail(rows, p, ds[jj], k + 1) == avail(rows, p, ds[jj], k as int));
                            } else {
                                assert(avail(rows, p, d, k + 1) == avail(rows, p, d, k as int) + it.quantity);
                            }
                        }
                    } else {
                        assert forall|jj: int| 0 <= jj < needs@.len() implies #[trigger] needs@[jj].0
                            == ds[jj] && needs@[jj].1 == need_before(rows, p, ings, needs@[jj].0, k + 1) by {
                            if jj != j {
                                assert(ds[jj] != ds[j as int]);
                                assert(avail(rows, p, ds[jj], k + 1) == avail(rows, p, ds[jj], k as int));
                            } else {
                                assert(avail(rows, p, d, k + 1) == avail(rows, p, d, k as int) + it.quantity);
                            }
                        }
                    }
                },
                None => {
                    assert(!ds.contains(it.item_def_id)) by {
                        if ds.contains(it.item_def_id) {
                            let w = choose|w: int| 0 <= w < ds.len() && ds[w] == it.item_def_id;
                            assert(needs@[w].0 == it.item_def_id);
                        }
                    }
                    assert forall|jj: int| 0 <= jj < needs@.len() implies #[trigger] needs@[jj].0
                        == ds[jj] && needs@[jj].1 == need_before(rows, p, ings, needs@[jj].0, k + 1) by {
                        assert(ds.contains(ds[jj]));
                        assert(avail(rows, p, ds[jj], k + 1) == avail(rows, p, ds[jj], k as int));
                    }
                },
            }
        } else {
            assert forall|jj: int| 0 <= jj < needs@.len() implies #[trigger] needs@[jj].0 == ds[jj]
                && needs@[jj].1 == need_before(rows, p, ings, needs@[jj].0, k + 1) by {
                assert(avail(rows, p, ds[jj], k + 1) == avail(rows, p, ds[jj], k as int));
            }
        }
        assert(step == take_at(rows, p, ings, k as int));
        plan.push(step);
        k = k + 1;
    }
    plan
}

/// Applies a crafting plan: each row loses what is taken from it, and a row
/// that loses all of it is deleted.
fn apply_takes(
    store: &mut ItemStore,
    plan: &Vec<Option<u32>>,
    p: PlayerId,
    Ghost(ings): Ghost<Seq<RecipeIngredient>>,
)
    requires
        old(store).wf(),
        plan@.len() == old(store).rows().len(),
        forall|k: int| 0 <= k < plan@.len() ==> #[trigger] plan@[k] == take_at(old(store).rows(), p, ings, k),
    ensures
        final(store).wf(),
        final(store).next_id() == old(store).next_id(),
        final(store).rows() == consumed(old(store).rows(), p, ings, old(store).rows().len() as int),
{
    let ghost rows0 = store.rows();
    let ghost n = rows0.len() as int;
    let mut k: usize = 0;
    let mut i: usize = 0;
    assert(rows0 =~= consumed(rows0, p, ings, 0) + rows0.subrange(0, n));
    while k < plan.len()
        invariant
            store.wf(),
            store.next_id() == old(store).next_id(),
            n == rows0.len(),
            plan@.len() == n,
            forall|kk: int| 0 <= kk < n ==> #[trigger] plan@[kk] == take_at(rows0, p, ings, kk),
            k <= n,
            store.rows() == consumed(rows0, p, ings, k as int) + rows0.subrange(k as int, n),
            i == consumed(rows0, p, ings, k as int).len(),
        decreases n - k,
    {
        let ghost c = consumed(rows0, p, ings, k as int);
        let ghost rest = rows0.subrange(k + 1, n);
        assert(rows0.subrange(k as int, n) =~= seq![rows0[k as int]] + rest);
        let cur_len = store.len();
        let item = store.get(i);
        assert(item == rows0[k as int]);
        match plan[k] {
            None => {
                assert(c + seq![item] + rest =~= store.rows());
                i = i + 1;
            },
            Some(t) => {
                if t >= item.quantity {
                    store.remove(i);
                    assert(store.rows() =~= c + Seq::<InventoryItem>::empty() + rest);
                } else {
                    let x = InventoryItem { quantity: item.quantity - t, ..item };
                    store.set(i, x);
                    assert(store.rows() =~= c + seq![x] + rest);
                    i = i + 1;
                }
            },
        }
        k = k + 1;
    }
    assert(rows0.subrange(n, n) =~= Seq::<InventoryItem>::empty());
    assert(store.rows() =~= consumed(rows0, p, ings, n));
}

/// An entry of a player's crafting queue.
#[derive(Clone, Copy, Debug, PartialEq, Eq, Structural)]
pub struct CraftingQueueItem {
    pub queue_item_id: u64,
    pub player_identity: PlayerId,
    pub recipe_id: u64,
    pub output_item_def_id: u64,
    pub output_quantity: u32,
    /// Microseconds since the epoch.
    pub start_time: i64,
    /// When this entry finishes (microseconds since the epoch).
    pub finish_time: i64,
}

/// Index of the first recipe with the given id, or -1.
pub open spec fn recipe_index(recipes: Seq<Recipe>, id: u64) -> int {
    if exists|i: int| 0 <= i < recipes.len() && recipes[i].recipe_id == id {
        choose|i: int|
            0 <= i < recipes.len() && recipes[i].recipe_id == id && forall|j: int|
                0 <= j < i ==> recipes[j].recipe_id != id
    } else {
        -1
    }
}

/// Looks up the first recipe with the given id.
pub fn find_recipe(recipes: &Vec<Recipe>, id: u64) -> (r: Option<usize>)
    ensures
        match r {
            Some(i) => i == recipe_index(recipes@, id) && i < recipes.len(),
            None => recipe_index(recipes@, id) == -1,
        },
{
    let mut i: usize = 0;
    while i < recipes.len()
        invariant
            i <= recipes.len(),
            forall|j: int| 0 <= j < i ==> recipes@[j].recipe_id != id,
        decreases recipes.len() - i,
    {
        if recipes[i].recipe_id == id {
            assert(exists|k: int| 0 <= k < recipes.len() && recipes@[k].recipe_id == id);
            let ghost c = recipe_index(recipes@, id);
            assert(c == i as int) by {
                if c < i {
                } else if c > i {
                }
            }
            return Some(i);
        }
        i = i + 1;
    }
    None
}

/// The later of `now` and the finish times of the player's entries among the
/// first `k` of the queue.
pub open spec fn latest_finish(queue: Seq<CraftingQueueItem>, p: PlayerId, now: i64, k: int) -> i64
    decreases k,
{
    if k <= 0 {
        now
    } else {
        let prev = latest_finish(queue, p, now, k - 1);
        if queue[k - 1].player_identity == p && queue[k - 1].finish_time > prev {
            queue[k - 1].finish_time
        } else {
            prev
        }
    }
}

/// When a new entry of the player would finish: after the player's last
/// queued entry (or now), plus the recipe's crafting time.
pub open spec fn craft_finish(queue: Seq<CraftingQueueItem>, p: PlayerId, now: i64, secs: u32) -> int {
    latest_finish(queue, p, now, queue.len() as int) + secs * 1_000_000
}

/// The recipe's requirements fit in 32 bits per kind, and its finish time in
/// the timestamp range.
pub open spec fn craft_fits(recipe: Recipe, queue: Seq<CraftingQueueItem>, p: PlayerId, now: i64) -> bool {
    totals_fit(recipe.ingredients@) && craft_finish(queue, p, now, recipe.crafting_time_secs)
        <= i64::MAX
}

fn latest_finish_of(queue: &Vec<CraftingQueueItem>, p: PlayerId, now: i64) -> (t: i64)
    ensures
        t == latest_finish(queue@, p, now, queue@.len() as int),
{
    let mut t = now;
    let mut k: usize = 0;
    while k < queue.len()
        invariant
            k <= queue@.len(),
            t == latest_finish(queue@, p, now, k as int),
        decreases queue.len() - k,
    {
        if queue[k].player_identity == p && queue[k].finish_time > t {
            t = queue[k].finish_time;
        }
        k = k + 1;
    }
    t
}

proof fn lemma_required_absent(ings: Seq<RecipeIngredient>, d: u64, m: int)
    requires
        0 <= m <= ings.len(),
        forall|k: int| 0 <= k < m ==> (#[trigger] ings[k]).item_def_id != d,
    ensures
        required(ings, d, m) == 0,
    decreases m,
{
    if m > 0 {
        lemma_required_absent(ings, d, m - 1);
    }
}

/// The total the recipe asks of kind `d`, when it fits in 32 bits; some
/// number above `u32::MAX` when it does not.
fn kind_requirement(ings: &Vec<RecipeIngredient>, d: u64) -> (t: u64)
    ensures
        t <= u32::MAX <==> required(ings@, d, ings@.len() as int) <= u32::MAX,
        t <= u32::MAX ==> t == required(ings@, d, ings@.len() as int),
{
    let mut acc: u64 = 0;
    let mut k: usize = 0;
    while k < ings.len()
        invariant
            k <= ings@.len(),
            acc <= u32::MAX,
            acc == required(ings@, d, k as int),
        decreases ings.len() - k,
    {
        if ings[k].item_def_id == d {
            acc = acc + ings[k].quantity as u64;
            if acc > u32::MAX as u64 {
                proof {
                    lemma_required_mono(ings@, d, k + 1, ings@.len() as int);
                }
                return acc;
            }
        }
        k = k + 1;
    }
    acc
}

/// Whether every kind's total among the recipe's ingredients fits in 32 bits.
pub fn recipe_totals_fit(ings: &Vec<RecipeIngredient>) -> (b: bool)
    ensures
        b == totals_fit(ings@),
{
    let n = ings.len();
    let mut j: usize = 0;
    while j < n
        invariant
            n == ings@.len(),
            j <= n,
            forall|jj: int|
                0 <= jj < j ==> required(ings@, (#[trigger] ings@[jj]).item_def_id, n as int)
                    <= u32::MAX,
        decreases n - j,
    {
        let d = ings[j].item_def_id;
        if kind_requirement(ings, d) > u32::MAX as u64 {
            return false;
        }
        j = j + 1;
    }
    assert forall|d: u64| required(ings@, d, n as int) <= u32::MAX by {
        if exists|k: int| 0 <= k < n && ings@[k].item_def_id == d {
            let k = choose|k: int| 0 <= k < n && ings@[k].item_def_id == d;
            assert(required(ings@, ings@[k].item_def_id, n as int) <= u32::MAX);
        } else {
            lemma_required_absent(ings@, d, n as int);
        }
    }
    true
}

/// Whether `start_crafting` may be asked for recipe `recipe_id`: an unknown
/// recipe may always be asked (it is refused); a known one when its totals
/// fit in 32 bits per kind and its finish time in the timestamp range.
pub fn crafting_fits(
    recipes: &Vec<Recipe>,
    queue: &Vec<CraftingQueueItem>,
    p: PlayerId,
    recipe_id: u64,
    now: i64,
) -> (b: bool)
    ensures
        b == (recipe_index(recipes@, recipe_id) != -1 ==> craft_fits(
            recipes@[recipe_index(recipes@, recipe_id)],
            queue@,
            p,
            now,
        )),
{
    match find_recipe(recipes, recipe_id) {
        None => true,
        Some(ri) => {
            let r = &recipes[ri];
            if !recipe_totals_fit(&r.ingredients) {
                return false;
            }
            let last = latest_finish_of(queue, p, now);
            (last as i128) + (r.crafting_time_secs as i128) * 1_000_000 <= i64::MAX as i128
        },
    }
}

/// The number of ingredients that clearing `p`'s queue gives back, saturating
/// at `u64::MAX`.
pub fn refund_count(queue: &Vec<CraftingQueueItem>, recipes: &Vec<Recipe>, p: PlayerId) -> (n: u64)
    ensures
        n == (if refund_list(queue@, recipes@, p, queue@.len() as int).len() <= u64::MAX {
            refund_list(queue@, recipes@, p, queue@.len() as int).len()
        } else {
            u64::MAX as nat
        }),
{
    let mut n: u64 = 0;
    let mut k: usize = 0;
    while k < queue.len()
        invariant
            k <= queue@.len(),
            n == (if refund_list(queue@, recipes@, p, k as int).len() <= u64::MAX {
                refund_list(queue@, recipes@, p, k as int).len()
            } else {
                u64::MAX as nat
            }),
        decreases queue.len() - k,
    {
        let q = queue[k];
        if q.player_identity == p {
            if let Some(ri) = find_recipe(recipes, q.recipe_id) {
                n = n.saturating_add(recipes[ri].ingredients.len() as u64);
            }
        }
        k = k + 1;
    }
    n
}

/// The first kind still missing after the crafting scan, with the amount.
fn first_missing(
    needs: &Vec<(u64, u32)>,
    p: PlayerId,
    Ghost(rows): Ghost<Seq<InventoryItem>>,
    Ghost(ings): Ghost<Seq<RecipeIngredient>>,
) -> (r: Option<(u64, u32)>)
    requires
        needs@.len() == req_defs(ings, ings.len() as int).len(),
        forall|jj: int|
            0 <= jj < needs@.len() ==> #[trigger] needs@[jj].0 == req_defs(ings, ings.len() as int)[jj]
                && needs@[jj].1 == need_before(rows, p, ings, needs@[jj].0, rows.len() as int),
    ensures
        r == missing_from(rows, p, ings, 0),
{
    let ghost ds = req_defs(ings, ings.len() as int);
    let mut j: usize = 0;
    while j < needs.len()
        invariant
            j <= needs@.len(),
            needs@.len() == ds.len(),
            ds == req_defs(ings, ings.len() as int),
            forall|jj: int|
                0 <= jj < needs@.len() ==> #[trigger] needs@[jj].0 == ds[jj] && needs@[jj].1
                    == need_before(rows, p, ings, needs@[jj].0, rows.len() as int),
            missing_from(rows, p, ings, 0) == missing_from(rows, p, ings, j as int),
        decreases needs.len() - j,
    {
        let (d, m) = needs[j];
        if m > 0 {
            return Some((d, m));
        }
        j = j + 1;
    }
    None
}

/// Starts crafting recipe `recipe_id` for player `p`: the ingredients are
/// taken from the player's hotbar and inventory stacks in table order (a
/// stack that gives all it has is deleted), and the new queue entry is
/// returned for insertion (its id is assigned on insertion). It finishes the
/// crafting time after the player's last queued entry, or after now. Missing
/// ingredients refuse the request and take nothing.
pub fn start_crafting(
    store: &mut ItemStore,
    recipes: &Vec<Recipe>,
    queue: &Vec<CraftingQueueItem>,
    p: PlayerId,
    recipe_id: u64,
    now: i64,
) -> (r: Result<CraftingQueueItem, GameError>)
    requires
        old(store).wf(),
        recipe_index(recipes@, recipe_id) != -1 ==> craft_fits(
            recipes@[recipe_index(recipes@, recipe_id)],
            queue@,
            p,
            now,
        ),
    ensures
        final(store).wf(),
        final(store).next_id() == old(store).next_id(),
        recipe_index(recipes@, recipe_id) == -1 ==> r == Err::<CraftingQueueItem, GameError>(
            GameError::RecipeNotFound { recipe_id },
        ) && final(store).rows() == old(store).rows(),
        recipe_index(recipes@, recipe_id) != -1 ==> ({
            let rc = recipes@[recipe_index(recipes@, recipe_id)];
            let ings = rc.ingredients@;
            let rows = old(store).rows();
            match missing_from(rows, p, ings, 0) {
                Some((d, m)) => r == Err::<CraftingQueueItem, GameError>(
                    GameError::MissingIngredient { def_id: d, missing: m },
                ) && final(store).rows() == rows,
                None => final(store).rows() == consumed(rows, p, ings, rows.len() as int) && r
                    == Ok::<CraftingQueueItem, GameError>(
                    CraftingQueueItem {
                        queue_item_id: 0,
                        player_identity: p,
                        recipe_id,
                        output_item_def_id: rc.output_item_def_id,
                        output_quantity: rc.output_quantity,
                        start_time: now,
                        finish_time: craft_finish(queue@, p, now, rc.crafting_time_secs) as i64,
                    },
                ),
            }
        }),
        r is Ok ==> forall|d: u64|
            #[trigger] qty_of(final(store).rows(), p, d) == qty_of(old(store).rows(), p, d) - required(
                recipes@[recipe_index(recipes@, recipe_id)].ingredients@,
                d,
                recipes@[recipe_index(recipes@, recipe_id)].ingredients@.len() as int,
            ),
{
    let ri = match find_recipe(recipes, recipe_id) {
        Some(ri) => ri,
        None => {
            return Err(GameError::RecipeNotFound { recipe_id });
        },
    };
    let recipe = &recipes[ri];
    let ghost ings = recipe.ingredients@;
    let ghost rows0 = store.rows();
    let ghost ds = req_defs(ings, ings.len() as int);
    let mut needs = build_needs(&recipe.ingredients);
    let plan = plan_takes(store, p, &mut needs, Ghost(ings));
    if let Some((d, m)) = first_missing(&needs, p, Ghost(rows0), Ghost(ings)) {
        return Err(GameError::MissingIngredient { def_id: d, missing: m });
    }
    apply_takes(store, &plan, p, Ghost(ings));
    proof {
        let n = rows0.len() as int;
        lemma_no_missing(rows0, p, ings, 0);
        assert(rows0.take(n) =~= rows0);
        assert forall|d: u64| #[trigger] qty_of(store.rows(), p, d) == qty_of(rows0, p, d) - required(
            ings,
            d,
            ings.len() as int,
        ) by {
            lemma_consumed_qty(rows0, p, ings, d, n);
            lemma_qty_nonneg(rows0.take(n), p, d);
            lemma_required_mono(ings, d, 0, ings.len() as int);
            if required(ings, d, ings.len() as int) > 0 {
                lemma_req_defs_contains(ings, d);
                let w = choose|w: int| 0 <= w < ds.len() && ds[w] == d;
                assert(need_before(rows0, p, ings, ds[w], n) == 0);
            }
        }
    }
    let last = latest_finish_of(queue, p, now);
    let finish = last + (recipe.crafting_time_secs as i64) * 1_000_000;
    Ok(
        CraftingQueueItem {
            queue_item_id: 0,
            player_identity: p,
            recipe_id,
            output_item_def_id: recipe.output_item_def_id,
            output_quantity: recipe.output_quantity,
            start_time: now,
            finish_time: finish,
        },
    )
}

proof fn lemma_add_item_next(
    rows: Seq<InventoryItem>,
    next: u64,
    defs: Seq<ItemDefinition>,
    p: PlayerId,
    d: u64,
    q: u32,
)
    requires
        next + MAX_NEW_STACKS < u64::MAX,
    ensures
        next <= add_item_outcome(rows, next, defs, p, d, q).1 <= next + MAX_NEW_STACKS,
{
    lemma_add_item_facts(rows, next, defs, p, d, q);
}

/// What adding the items of `list[..k]` to player `p`, one after another,
/// leaves, with the entries that could not be added. (An addition that fails
/// keeps the stacks it topped up.)
pub open spec fn grant_all(
    rows: Seq<InventoryItem>,
    next: u64,
    defs: Seq<ItemDefinition>,
    p: PlayerId,
    list: Seq<RecipeIngredient>,
    k: int,
) -> (Seq<InventoryItem>, u64, Seq<RecipeIngredient>)
    decreases k,
{
    if k <= 0 {
        (rows, next, Seq::empty())
    } else {
        let (r, n, f) = grant_all(rows, next, defs, p, list, k - 1);
        let g = list[k - 1];
        let (r2, n2, res) = add_item_outcome(r, n, defs, p, g.item_def_id, g.quantity);
        (r2, n2, if res is Ok {
            f
        } else {
            f.push(g)
        })
    }
}

/// Adds each listed entry to player `p`; returns the entries that could not
/// be added.
fn grant_items(
    store: &mut ItemStore,
    defs: &Vec<ItemDefinition>,
    p: PlayerId,
    list: &Vec<RecipeIngredient>,
) -> (failed: Vec<RecipeIngredient>)
    requires
        old(store).wf(),
        old(store).next_id() + MAX_NEW_STACKS * list@.len() < u64::MAX,
    ensures
        final(store).wf(),
        (final(store).rows(), final(store).next_id(), failed@) == grant_all(
            old(store).rows(),
            old(store).next_id(),
            defs@,
            p,
            list@,
            list@.len() as int,
        ),
        final(store).next_id() <= old(store).next_id() + MAX_NEW_STACKS * list@.len(),
{
    let ghost rows0 = store.rows();
    let ghost next0 = store.next_id();
    let mut failed: Vec<RecipeIngredient> = Vec::new();
    let mut k: usize = 0;
    while k < list.len()
        invariant
            store.wf(),
            k <= list@.len(),
            next0 + MAX_NEW_STACKS * list@.len() < u64::MAX,
            store.next_id() <= next0 + MAX_NEW_STACKS * k,
            (store.rows(), store.next_id(), failed@) == grant_all(rows0, next0, defs@, p, list@, k as int),
        decreases list.len() - k,
    {
        let g = list[k];
        proof {
            lemma_add_item_next(store.rows(), store.next_id(), defs@, p, g.item_def_id, g.quantity);
        }
        let res = add_item_to_player_inventory(store, defs, p, g.item_def_id, g.quantity);
        if res.is_err() {
            failed.push(g);
        }
        k = k + 1;
    }
    failed
}

/// The queue entries, among the first `k`, that are not finished at `now`.
pub open spec fn unfinished(queue: Seq<CraftingQueueItem>, now: i64, k: int) -> Seq<CraftingQueueItem>
    decreases k,
{
    if k <= 0 {
        Seq::empty()
    } else if now >= queue[k - 1].finish_time {
        unfinished(queue, now, k - 1)
    } else {
        unfinished(queue, now, k - 1).push(queue[k - 1])
    }
}

/// What finishing the queue entries due at `now`, among the first `k`, in
/// queue order, leaves: the output of an entry whose player is alive is added
/// to that player; what cannot be added is listed (player, kind, quantity) to
/// be dropped near the player. An entry of a missing or dead player yields
/// nothing.
pub open spec fn finish_pass(
    rows: Seq<InventoryItem>,
    next: u64,
    defs: Seq<ItemDefinition>,
    queue: Seq<CraftingQueueItem>,
    players: Seq<PlayerState>,
    now: i64,
    k: int,
) -> (Seq<InventoryItem>, u64, Seq<(PlayerId, u64, u32)>)
    decreases k,
{
    if k <= 0 {
        (rows, next, Seq::empty())
    } else {
        let (r, n, dr) = finish_pass(rows, next, defs, queue, players, now, k - 1);
        let q = queue[k - 1];
        if now >= q.finish_time && is_alive(players, q.player_identity) {
            let (r2, n2, res) = add_item_outcome(
                r,
                n,
                defs,
                q.player_identity,
                q.output_item_def_id,
                q.output_quantity,
            );
            (r2, n2, if res is Ok {
                dr
            } else {
                dr.push((q.player_identity, q.output_item_def_id, q.output_quantity))
            })
        } else {
            (r, n, dr)
        }
    }
}

/// Each queue entry is accounted for when the queue is finished: an entry
/// that is not due, or whose player is missing or dead, changes nothing; a
/// due entry of a living player either grants its output to that player (the
/// player's holding of the output kind grows by what the addition grants,
/// and nothing is listed for dropping) or, when it cannot be granted in full,
/// is listed, as (player, kind, quantity), to be dropped near the player. No other player's holding, and
/// no other kind, changes.
pub proof fn law_finish_accounts_for_output(
    rows: Seq<InventoryItem>,
    next: u64,
    defs: Seq<ItemDefinition>,
    queue: Seq<CraftingQueueItem>,
    players: Seq<PlayerState>,
    now: i64,
    k: int,
)
    requires
        0 <= k < queue.len(),
    ensures
        ({
            let (r, _n, dr) = finish_pass(rows, next, defs, queue, players, now, k);
            let (r2, _n2, dr2) = finish_pass(rows, next, defs, queue, players, now, k + 1);
            let q = queue[k];
            &&& !(now >= q.finish_time && is_alive(players, q.player_identity)) ==> r2 == r && dr2 == dr
            &&& now >= q.finish_time && is_alive(players, q.player_identity) ==> ({
                let before = qty_of(r, q.player_identity, q.output_item_def_id);
                let after = qty_of(r2, q.player_identity, q.output_item_def_id);
                let full = granted(defs, q.output_item_def_id, q.output_quantity);
                ||| dr2 == dr && after == before + full
                ||| dr2 == dr.push((q.player_identity, q.output_item_def_id, q.output_quantity)) && (
                q.output_quantity > 0 ==> after < before + full)
            })
            &&& forall|p2: PlayerId, d2: u64|
                (p2 != q.player_identity || d2 != q.output_item_def_id) ==> #[trigger] qty_of(r2, p2, d2)
                    == qty_of(r, p2, d2)
        }),
{
    let (r, n, dr) = finish_pass(rows, next, defs, queue, players, now, k);
    let q = queue[k];
    law_add_item_grants(r, n, defs, q.player_identity, q.output_item_def_id, q.output_quantity);
    let res = add_item_outcome(r, n, defs, q.player_identity, q.output_item_def_id, q.output_quantity).2;
    if res is Err && q.output_quantity > 0 {
        law_add_item_refusal_falls_short(r, n, defs, q.player_identity, q.output_item_def_id, q.output_quantity);
    }
}

/// Finishes every queue entry due at `now`: grants its output to its player
/// (if alive) and deletes it. Returns what could not be granted, as
/// (player, kind, quantity), to be dropped near the player.
pub fn check_finished_crafting(
    store: &mut ItemStore,
    defs: &Vec<ItemDefinition>,
    queue: &mut Vec<CraftingQueueItem>,
    players: &Vec<PlayerState>,
    now: i64,
) -> (drops: Vec<(PlayerId, u64, u32)>)
    requires
        old(store).wf(),
        old(store).next_id() + MAX_NEW_STACKS * old(queue)@.len() < u64::MAX,
    ensures
        final(store).wf(),
        (final(store).rows(), final(store).next_id(), drops@) == finish_pass(
            old(store).rows(),
            old(store).next_id(),
            defs@,
            old(queue)@,
            players@,
            now,
            old(queue)@.len() as int,
        ),
        final(queue)@ == unfinished(old(queue)@, now, old(queue)@.len() as int),
{
    let ghost rows0 = store.rows();
    let ghost next0 = store.next_id();
    let ghost q0 = queue@;
    let mut drops: Vec<(PlayerId, u64, u32)> = Vec::new();
    let mut kept: Vec<CraftingQueueItem> = Vec::new();
    let mut k: usize = 0;
    while k < queue.len()
        invariant
            store.wf(),
            queue@ == q0,
            k <= q0.len(),
            next0 + MAX_NEW_STACKS * q0.len() < u64::MAX,
            store.next_id() <= next0 + MAX_NEW_STACKS * k,
            (store.rows(), store.next_id(), drops@) == finish_pass(
                rows0,
                next0,
                defs@,
                q0,
                players@,
                now,
                k as int,
            ),
            kept@ == unfinished(q0, now, k as int),
        decreases q0.len() - k,
    {
        let q = queue[k];
        let ghost nxt = finish_pass(rows0, next0, defs@, q0, players@, now, k + 1);
        if now >= q.finish_time {
            let alive = match find_player(players, q.player_identity) {
                Some(pi) => !players[pi].is_dead,
                None => false,
            };
            assert(alive == is_alive(players@, q.player_identity));
            if alive {
                proof {
                    lemma_add_item_next(
                        store.rows(),
                        store.next_id(),
                        defs@,
                        q.player_identity,
                        q.output_item_def_id,
                        q.output_quantity,
                    );
                }
                let res = add_item_to_player_inventory(
                    store,
                    defs,
                    q.player_identity,
                    q.output_item_def_id,
                    q.output_quantity,
                );
                if res.is_err() {
                    drops.push((q.player_identity, q.output_item_def_id, q.output_quantity));
                }
            }
            assert((store.rows(), store.next_id(), drops@) == nxt);
            assert(kept@ == unfinished(q0, now, k + 1));
        } else {
            kept.push(q);
            assert((store.rows(), store.next_id(), drops@) == nxt);
        }
        k = k + 1;
    }
    *queue = kept;
    drops
}

/// Index of the queue entry with the given id, or -1.
pub open spec fn queue_index(queue: Seq<CraftingQueueItem>, id: u64) -> int {
    if exists|i: int| 0 <= i < queue.len() && queue[i].queue_item_id == id {
        choose|i: int|
            0 <= i < queue.len() && queue[i].queue_item_id == id && forall|j: int|
                0 <= j < i ==> queue[j].queue_item_id != id
    } else {
        -1
    }
}

fn find_queue_item(queue: &Vec<CraftingQueueItem>, id: u64) -> (r: Option<usize>)
    ensures
        match r {
            Some(i) => i == queue_index(queue@, id) && i < queue.len(),
            None => queue_index(queue@, id) == -1,
        },
{
    let mut i: usize = 0;
    while i < queue.len()
        invariant
            i <= queue.len(),
            forall|j: int| 0 <= j < i ==> queue@[j].queue_item_id != id,
        decreases queue.len() - i,
    {
        if queue[i].queue_item_id == id {
            assert(exists|k: int| 0 <= k < queue.len() && queue@[k].queue_item_id == id);
            let ghost c = queue_index(queue@, id);
            assert(c == i as int) by {
                if c < i {
                } else if c > i {
                }
            }
            return Some(i);
        }
        i = i + 1;
    }
    None
}

/// Every recipe's refund fits the instance ids left to hand out.
pub open spec fn refunds_fit(next: u64, recipes: Seq<Recipe>) -> bool {
    forall|i: int| 0 <= i < recipes.len() ==> next + MAX_NEW_STACKS * #[trigger] recipes[i].ingredients@.len() < u64::MAX
}

/// What cancelling queue entry `id` leaves: the recipe's ingredients are
/// given back to the caller and the entry is deleted. If some ingredient
/// cannot be given back the request is refused and nothing changes.
pub open spec fn cancel_outcome(
    rows: Seq<InventoryItem>,
    next: u64,
    defs: Seq<ItemDefinition>,
    recipes: Seq<Recipe>,
    queue: Seq<CraftingQueueItem>,
    p: PlayerId,
    id: u64,
) -> (Seq<InventoryItem>, u64, Seq<CraftingQueueItem>, Result<(), GameError>) {
    let qi = queue_index(queue, id);
    if qi == -1 {
        (rows, next, queue, Err(GameError::QueueItemNotFound { queue_item_id: id }))
    } else if queue[qi].player_identity != p {
        (rows, next, queue, Err(GameError::QueueItemNotOwned))
    } else {
        let ri = recipe_index(recipes, queue[qi].recipe_id);
        if ri == -1 {
            (rows, next, queue, Err(GameError::RecipeNotFound { recipe_id: queue[qi].recipe_id }))
        } else {
            let ings = recipes[ri].ingredients@;
            let (r2, n2, failed) = grant_all(rows, next, defs, p, ings, ings.len() as int);
            if failed.len() == 0 {
                (r2, n2, queue.remove(qi), Ok(()))
            } else {
                (rows, next, queue, Err(GameError::RefundDropped))
            }
        }
    }
}

/// Cancels the caller's queue entry `queue_item_id` and gives the recipe's
/// ingredients back.
pub fn cancel_crafting_item(
    store: &mut ItemStore,
    defs: &Vec<ItemDefinition>,
    recipes: &Vec<Recipe>,
    queue: &mut Vec<CraftingQueueItem>,
    p: PlayerId,
    queue_item_id: u64,
) -> (r: Result<(), GameError>)
    requires
        old(store).wf(),
        refunds_fit(old(store).next_id(), recipes@),
    ensures
        final(store).wf(),
        ({
            let (rows, next, q, res) = cancel_outcome(
                old(store).rows(),
                old(store).next_id(),
                defs@,
                recipes@,
                old(queue)@,
                p,
                queue_item_id,
            );
            final(store).rows() == rows && final(store).next_id() == next && final(queue)@ == q
                && r == res
        }),
{
    let qi = match find_queue_item(queue, queue_item_id) {
        Some(qi) => qi,
        None => {
            return Err(GameError::QueueItemNotFound { queue_item_id });
        },
    };
    let entry = queue[qi];
    if entry.player_identity != p {
        return Err(GameError::QueueItemNotOwned);
    }
    let ri = match find_recipe(recipes, entry.recipe_id) {
        Some(ri) => ri,
        None => {
            return Err(GameError::RecipeNotFound { recipe_id: entry.recipe_id });
        },
    };
    assert(store.next_id() + MAX_NEW_STACKS * recipes@[ri as int].ingredients@.len() < u64::MAX);
    let saved = store.snapshot();
    let failed = grant_items(store, defs, p, &recipes[ri].ingredients);
    if failed.len() > 0 {
        *store = saved;
        return Err(GameError::RefundDropped);
    }
    queue.remove(qi);
    Ok(())
}

/// The ingredients of the player's queue entries among the first `k`, in
/// queue order (entries whose recipe is unknown give none).
pub open spec fn refund_list(
    queue: Seq<CraftingQueueItem>,
    recipes: Seq<Recipe>,
    p: PlayerId,
    k: int,
) -> Seq<RecipeIngredient>
    decreases k,
{
    if k <= 0 {
        Seq::empty()
    } else {
        let prev = refund_list(queue, recipes, p, k - 1);
        let q = queue[k - 1];
        if q.player_identity == p && recipe_index(recipes, q.recipe_id) != -1 {
            prev + recipes[recipe_index(recipes, q.recipe_id)].ingredients@
        } else {
            prev
        }
    }
}

/// The queue entries among the first `k` that belong to other players.
pub open spec fn others_entries(queue: Seq<CraftingQueueItem>, p: PlayerId, k: int) -> Seq<
    CraftingQueueItem,
>
    decreases k,
{
    if k <= 0 {
        Seq::empty()
    } else if queue[k - 1].player_identity == p {
        others_entries(queue, p, k - 1)
    } else {
        others_entries(queue, p, k - 1).push(queue[k - 1])
    }
}

/// Deletes all of the player's queue entries and gives their ingredients
/// back; returns the ingredients that could not be given back (to be dropped
/// near the player, if the player is still there).
pub fn clear_player_crafting_queue(
    store: &mut ItemStore,
    defs: &Vec<ItemDefinition>,
    recipes: &Vec<Recipe>,
    queue: &mut Vec<CraftingQueueItem>,
    p: PlayerId,
) -> (failed: Vec<RecipeIngredient>)
    requires
        old(store).wf(),
        old(store).next_id() + MAX_NEW_STACKS * refund_list(old(queue)@, recipes@, p, old(queue)@.len() as int).len()
            < u64::MAX,
    ensures
        final(store).wf(),
        final(queue)@ == others_entries(old(queue)@, p, old(queue)@.len() as int),
        final(store).next_id() <= old(store).next_id() + MAX_NEW_STACKS * refund_list(
            old(queue)@,
            recipes@,
            p,
            old(queue)@.len() as int,
        ).len(),
        (final(store).rows(), final(store).next_id(), failed@) == ({
            let list = refund_list(old(queue)@, recipes@, p, old(queue)@.len() as int);
            grant_all(
                old(store).rows(),
                old(store).next_id(),
                defs@,
                p,
                list,
                list.len() as int,
            )
        }),
{
    let ghost q0 = queue@;
    let mut refunds: Vec<RecipeIngredient> = Vec::new();
    let mut kept: Vec<CraftingQueueItem> = Vec::new();
    let mut k: usize = 0;
    while k < queue.len()
        invariant
            queue@ == q0,
            k <= q0.len(),
            refunds@ == refund_list(q0, recipes@, p, k as int),
            kept@ == others_entries(q0, p, k as int),
        decreases q0.len() - k,
    {
        let q = queue[k];
        if q.player_identity == p {
            if let Some(ri) = find_recipe(recipes, q.recipe_id) {
                let ings = &recipes[ri].ingredients;
                let ghost before = refunds@;
                let mut j: usize = 0;
                while j < ings.len()
                    invariant
                        j <= ings@.len(),
                        refunds@ == before + ings@.subrange(0, j as int),
                    decreases ings.len() - j,
                {
                    refunds.push(ings[j]);
                    j = j + 1;
                    assert(refunds@ =~= before + ings@.subrange(0, j as int));
                }
                assert(ings@.subrange(0, ings@.len() as int) =~= ings@);
            }
        } else {
            kept.push(q);
        }
        k = k + 1;
    }
    *queue = kept;
    grant_items(store, defs, p, &refunds)
}

/// Recipe data by item names: output name, output quantity, ingredients by
/// name and quantity, crafting time in seconds.
pub type RecipeData = (String, u32, Vec<(String, u32)>, u32);

/// Recipe data as values: names as character sequences.
pub type RecipeSpec = (Seq<char>, u32, Seq<(Seq<char>, u32)>, u32);

/// The value of a recipe data entry.
pub open spec fn data_view(e: RecipeData) -> RecipeSpec {
    (e.0@, e.1, e.2@.map_values(|x: (String, u32)| (x.0@, x.1)), e.3)
}

/// The recipes the world starts with.
pub open spec fn initial_recipes() -> Seq<RecipeSpec> {
    seq![
        ("Rock"@, 1u32, seq![("Stone"@, 1u32)], 1u32),
        ("Stone Hatchet"@, 1u32, seq![("Wood"@, 75u32), ("Stone"@, 150u32)], 20u32),
        ("Stone Pickaxe"@, 1u32, seq![("Wood"@, 75u32), ("Stone"@, 150u32)], 20u32),
        ("Camp Fire"@, 1u32, seq![("Wood"@, 50u32), ("Stone"@, 5u32)], 10u32),
        ("Wooden Storage Box"@, 1u32, seq![("Wood"@, 100u32)], 15u32),
    ]
}

fn ingredient_named(name: &str, qty: u32) -> (r: (String, u32))
    ensures
        r.0@ == name@ && r.1 == qty,
{
    (name.to_owned(), qty)
}

/// The recipes the world starts with, by item names.
pub fn get_initial_recipes_data() -> (r: Vec<RecipeData>)
    ensures
        r@.len() == initial_recipes().len(),
        forall|i: int| 0 <= i < r@.len() ==> #[trigger] data_view(r@[i]) == initial_recipes()[i],
{
    let mut r: Vec<RecipeData> = Vec::new();
    let ings0 = vec![ingredient_named("Stone", 1)];
    r.push(("Rock".to_owned(), 1, ings0, 1));
    let ings1 = vec![ingredient_named("Wood", 75), ingredient_named("Stone", 150)];
    r.push(("Stone Hatchet".to_owned(), 1, ings1, 20));
    let ings2 = vec![ingredient_named("Wood", 75), ingredient_named("Stone", 150)];
    r.push(("Stone Pickaxe".to_owned(), 1, ings2, 20));
    let ings3 = vec![ingredient_named("Wood", 50), ingredient_named("Stone", 5)];
    r.push(("Camp Fire".to_owned(), 1, ings3, 10));
    let ings4 = vec![ingredient_named("Wood", 100)];
    r.push(("Wooden Storage Box".to_owned(), 1, ings4, 15));
    assert(data_view(r@[0]) =~~= initial_recipes()[0]);
    assert(data_view(r@[1]) =~~= initial_recipes()[1]);
    assert(data_view(r@[2]) =~~= initial_recipes()[2]);
    assert(data_view(r@[3]) =~~= initial_recipes()[3]);
    assert(data_view(r@[4]) =~~= initial_recipes()[4]);
    r
}

/// Every name in the recipes names an item definition.
pub open spec fn names_resolve(defs: Seq<ItemDefinition>, data: Seq<RecipeSpec>) -> bool {
    forall|i: int|
        0 <= i < data.len() ==> def_index_by_name(defs, #[trigger] data[i].0) != -1 && forall|j: int|
            0 <= j < data[i].2.len() ==> def_index_by_name(defs, #[trigger] data[i].2[j].0) != -1
}

/// The definition id of the first definition with the given name.
pub open spec fn id_named(defs: Seq<ItemDefinition>, name: Seq<char>) -> u64 {
    defs[def_index_by_name(defs, name)].id
}

/// The ingredient `e` names, resolved.
pub open spec fn resolved_ingredient(defs: Seq<ItemDefinition>, e: (Seq<char>, u32)) -> RecipeIngredient {
    RecipeIngredient { item_def_id: id_named(defs, e.0), quantity: e.1 }
}

/// The recipe `r` is the data entry `e` with its names resolved.
pub open spec fn resolved_as(defs: Seq<ItemDefinition>, e: RecipeSpec, r: Recipe) -> bool {
    &&& r.recipe_id == 0
    &&& r.output_item_def_id == id_named(defs, e.0)
    &&& r.output_quantity == e.1
    &&& r.crafting_time_secs == e.3
    &&& r.ingredients@.len() == e.2.len()
    &&& forall|j: int|
        0 <= j < e.2.len() ==> #[trigger] r.ingredients@[j] == resolved_ingredient(defs, e.2[j])
}

/// Resolves the item names of recipe data to definition ids.
proof fn lemma_names_resolve_step(defs: Seq<ItemDefinition>, specs: Seq<RecipeSpec>, i: int)
    requires
        0 <= i < specs.len(),
        names_resolve(defs, specs.take(i)),
        def_index_by_name(defs, specs[i].0) != -1,
        forall|jj: int|
            0 <= jj < specs[i].2.len() ==> def_index_by_name(defs, #[trigger] specs[i].2[jj].0) != -1,
    ensures
        names_resolve(defs, specs.take(i + 1)),
{
    assert forall|ii: int| 0 <= ii < i + 1 implies def_index_by_name(
        defs,
        #[trigger] specs.take(i + 1)[ii].0,
    ) != -1 && forall|jj: int|
        0 <= jj < specs.take(i + 1)[ii].2.len() ==> def_index_by_name(
            defs,
            #[trigger] specs.take(i + 1)[ii].2[jj].0,
        ) != -1 by {
        if ii < i {
            assert(specs.take(i + 1)[ii] == specs.take(i)[ii]);
        } else {
            assert(specs.take(i + 1)[ii] == specs[i]);
        }
    }
}

#[verifier::spinoff_prover]
pub fn resolve_recipes(defs: &Vec<ItemDefinition>, data: &Vec<RecipeData>) -> (r: Result<
    Vec<Recipe>,
    GameError,
>)
    ensures
        match r {
            Ok(v) => names_resolve(defs@, data@.map_values(|e: RecipeData| data_view(e)))
                && v@.len() == data@.len() && forall|i: int|
                0 <= i < data@.len() ==> #[trigger] resolved_as(defs@, data_view(data@[i]), v@[i]),
            Err(e) => !names_resolve(defs@, data@.map_values(|e: RecipeData| data_view(e))) && e
                == GameError::NamedDefinitionNotFound,
        },
{
    let ghost specs = data@.map_values(|e: RecipeData| data_view(e));
    let mut out: Vec<Recipe> = Vec::new();
    let mut i: usize = 0;
    while i < data.len()
        invariant
            specs == data@.map_values(|e: RecipeData| data_view(e)),
            i <= data@.len(),
            out@.len() == i,
            forall|ii: int| 0 <= ii < i ==> #[trigger] resolved_as(defs@, specs[ii], out@[ii]),
            names_resolve(defs@, specs.take(i as int)),
        decreases data.len() - i,
    {
        let e = &data[i];
        assert(specs[i as int] == data_view(*e));
        let od = match find_def_by_name(defs, &e.0) {
            Some(od) => od,
            None => {
                assert(!names_resolve(defs@, specs)) by {
                    assert(def_index_by_name(defs@, specs[i as int].0) == -1);
                }
                return Err(GameError::NamedDefinitionNotFound);
            },
        };
        let mut ings: Vec<RecipeIngredient> = Vec::new();
        let mut j: usize = 0;
        while j < e.2.len()
            invariant
                specs == data@.map_values(|e: RecipeData| data_view(e)),
                specs[i as int] == data_view(*e),
                i < data@.len(),
                specs.len() == data@.len(),
                out@.len() == i,
                forall|ii: int| 0 <= ii < i ==> #[trigger] resolved_as(defs@, specs[ii], out@[ii]),
                names_resolve(defs@, specs.take(i as int)),
                od < defs@.len(),
                od as int == def_index_by_name(defs@, specs[i as int].0),
                j <= e.2@.len(),
                ings@.len() == j,
                forall|jj: int|
                    0 <= jj < j ==> #[trigger] ings@[jj] == resolved_ingredient(defs@, specs[i as int].2[jj])
                        && def_index_by_name(defs@, specs[i as int].2[jj].0) != -1,
                forall|jj: int|
                    0 <= jj < j ==> def_index_by_name(defs@, #[trigger] specs[i as int].2[jj].0) != -1,
            decreases e.2.len() - j,
        {
            assert(specs[i as int].2[j as int] == (e.2@[j as int].0@, e.2@[j as int].1));
            let d = match find_def_by_name(defs, &e.2[j].0) {
                Some(d) => d,
                None => {
                    assert(!names_resolve(defs@, specs)) by {
                        assert(def_index_by_name(defs@, specs[i as int].2[j as int].0) == -1);
                    }
                    return Err(GameError::NamedDefinitionNotFound);
                },
            };
            let ghost nm = specs[i as int].2[j as int];
            let ghost old_ings = ings@;
            assert(nm.0 == e.2@[j as int].0@);
            assert(d as int == def_index_by_name(defs@, nm.0));
            ings.push(RecipeIngredient { item_def_id: defs[d].id, quantity: e.2[j].1 });
            assert(ings@[j as int] == resolved_ingredient(defs@, nm));
            assert forall|jj: int| 0 <= jj < j + 1 implies #[trigger] ings@[jj] == resolved_ingredient(
                defs@,
                specs[i as int].2[jj],
            ) && def_index_by_name(defs@, specs[i as int].2[jj].0) != -1 by {
                if jj < j {
                    assert(ings@[jj] == old_ings[jj]);
                }
            }
            j = j + 1;
        }
        out.push(
            Recipe {
                recipe_id: 0,
                output_item_def_id: defs[od].id,
                output_quantity: e.1,
                ingredients: ings,
                crafting_time_secs: e.3,
            },
        );
        proof {
            assert(resolved_as(defs@, specs[i as int], out@[i as int]));
            assert(specs[i as int].2.len() == e.2@.len());
            lemma_names_resolve_step(defs@, specs, i as int);
        }
        i = i + 1;
    }
    assert(specs.take(specs.len() as int) =~= specs);
    assert forall|i: int| 0 <= i < data@.len() implies #[trigger] resolved_as(
        defs@,
        data_view(data@[i]),
        out@[i],
    ) by {
        assert(specs[i] == data_view(data@[i]));
        assert(resolved_as(defs@, specs[i], out@[i]));
    }
    Ok(out)
}

/// The recipes to seed: none when the recipe table is not empty, else the
/// initial recipes with their item names resolved. A name without a
/// definition refuses the seeding.
pub fn seed_recipes(defs: &Vec<ItemDefinition>, recipe_table_empty: bool) -> (r: Result<
    Vec<Recipe>,
    GameError,
>)
    ensures
        !recipe_table_empty ==> (r matches Ok(v) && v@.len() == 0),
        recipe_table_empty ==> match r {
            Ok(v) => names_resolve(defs@, initial_recipes()) && v@.len() == initial_recipes().len()
                && forall|i: int|
                0 <= i < v@.len() ==> #[trigger] resolved_as(defs@, initial_recipes()[i], v@[i]),
            Err(e) => !names_resolve(defs@, initial_recipes()) && e
                == GameError::NamedDefinitionNotFound,
        },
{
    if !recipe_table_empty {
        return Ok(Vec::new());
    }
    let data = get_initial_recipes_data();
    assert(data@.map_values(|e: RecipeData| data_view(e)) =~= initial_recipes());
    resolve_recipes(defs, &data)
}

/// Every listed kind has a definition, and it stacks.
pub open spec fn all_stackable(defs: Seq<ItemDefinition>, list: Seq<RecipeIngredient>) -> bool {
    forall|j: int|
        0 <= j < list.len() ==> def_index(defs, #[trigger] list[j].item_def_id) != -1
            && defs[def_index(defs, list[j].item_def_id)].is_stackable
}

/// Giving a list of stackable items, when every addition succeeds, grows the
/// player's holding of each kind by the list's total of that kind.
pub proof fn law_grant_all_adds(
    rows: Seq<InventoryItem>,
    next: u64,
    defs: Seq<ItemDefinition>,
    p: PlayerId,
    list: Seq<RecipeIngredient>,
    k: int,
    d: u64,
)
    requires
        0 <= k <= list.len(),
        all_stackable(defs, list),
        grant_all(rows, next, defs, p, list, k).2.len() == 0,
    ensures
        qty_of(grant_all(rows, next, defs, p, list, k).0, p, d) == qty_of(rows, p, d) + required(
            list,
            d,
            k,
        ),
    decreases k,
{
    if k > 0 {
        let (r, n, f) = grant_all(rows, next, defs, p, list, k - 1);
        let g = list[k - 1];
        let (r2, n2, res) = add_item_outcome(r, n, defs, p, g.item_def_id, g.quantity);
        assert(res is Ok && f.len() == 0) by {
            if !(res is Ok) {
                assert(f.push(g).len() > 0);
            }
        }
        law_grant_all_adds(rows, next, defs, p, list, k - 1, d);
        if g.item_def_id == d {
            law_add_item_adds_quantity(r, n, defs, p, g.item_def_id, g.quantity);
        } else {
            law_add_item_keeps_other_kinds(r, n, defs, p, g.item_def_id, g.quantity, d);
        }
    }
}

/// Giving a list of items, one addition after another, never puts two of a
/// player's items into one slot.
pub proof fn law_grant_all_keeps_slots_distinct(
    rows: Seq<InventoryItem>,
    next: u64,
    defs: Seq<ItemDefinition>,
    p: PlayerId,
    list: Seq<RecipeIngredient>,
    k: int,
)
    requires
        0 <= k <= list.len(),
        slots_distinct(rows),
    ensures
        slots_distinct(grant_all(rows, next, defs, p, list, k).0),
    decreases k,
{
    if k > 0 {
        law_grant_all_keeps_slots_distinct(rows, next, defs, p, list, k - 1);
        let (r, n, f) = grant_all(rows, next, defs, p, list, k - 1);
        let g = list[k - 1];
        law_add_item_keeps_slots_distinct(r, n, defs, p, g.item_def_id, g.quantity);
    }
}

/// Two rows with the same owner in the same slots.
pub open spec fn same_place(x: InventoryItem, y: InventoryItem) -> bool {
    x.player_identity == y.player_identity && x.hotbar_slot == y.hotbar_slot && x.inventory_slot
        == y.inventory_slot
}

proof fn lemma_consumed_places(rows: Seq<InventoryItem>, p: PlayerId, ings: Seq<RecipeIngredient>, k: int)
    requires
        0 <= k <= rows.len(),
        slots_distinct(rows),
    ensures
        slots_distinct(consumed(rows, p, ings, k)),
        forall|a: int|
            0 <= a < consumed(rows, p, ings, k).len() ==> exists|m: int|
                0 <= m < k && same_place(#[trigger] consumed(rows, p, ings, k)[a], rows[m]),
    decreases k,
{
    reveal(slots_distinct);
    if k > 0 {
        lemma_consumed_places(rows, p, ings, k - 1);
        let c0 = consumed(rows, p, ings, k - 1);
        let tail = row_after_take(rows[k - 1], take_at(rows, p, ings, k - 1));
        let c = consumed(rows, p, ings, k);
        assert(c == c0 + tail);
        assert forall|a: int| 0 <= a < c.len() implies exists|m: int|
            0 <= m < k && same_place(#[trigger] c[a], rows[m]) by {
            if a < c0.len() {
                assert(c[a] == c0[a]);
                let m = choose|m: int| 0 <= m < k - 1 && same_place(c0[a], rows[m]);
                assert(same_place(c[a], rows[m]));
            } else {
                assert(c[a] == tail[a - c0.len()]);
                assert(same_place(c[a], rows[k - 1]));
            }
        }
        assert forall|a: int, b: int|
            #![trigger c[a], c[b]]
            0 <= a < c.len() && 0 <= b < c.len() && a != b && c[a].player_identity
                == c[b].player_identity implies !(c[a].hotbar_slot is Some && c[a].hotbar_slot
            == c[b].hotbar_slot) && !(c[a].inventory_slot is Some && c[a].inventory_slot
            == c[b].inventory_slot) by {
            if a < c0.len() && b < c0.len() {
                assert(c[a] == c0[a] && c[b] == c0[b]);
            } else if a < c0.len() {
                assert(c[a] == c0[a]);
                let m = choose|m: int| 0 <= m < k - 1 && same_place(c0[a], rows[m]);
                assert(same_place(c[b], rows[k - 1]));
                assert(rows[m] == rows[m] && rows[k - 1] == rows[k - 1]);
            } else if b < c0.len() {
                assert(c[b] == c0[b]);
                let m = choose|m: int| 0 <= m < k - 1 && same_place(c0[b], rows[m]);
                assert(same_place(c[a], rows[k - 1]));
                assert(rows[m] == rows[m] && rows[k - 1] == rows[k - 1]);
            }
        }
    }
}

/// Taking a recipe's ingredients only lowers quantities and deletes rows, so
/// no two of a player's items end up in one slot.
pub proof fn law_consume_keeps_slots_distinct(
    rows: Seq<InventoryItem>,
    p: PlayerId,
    ings: Seq<RecipeIngredient>,
)
    requires
        slots_distinct(rows),
    ensures
        slots_distinct(consumed(rows, p, ings, rows.len() as int)),
{
    lemma_consumed_places(rows, p, ings, rows.len() as int);
}

/// Cancelling a crafting entry only gives items back as additions would, so
/// no two of a player's items end up in one slot.
pub proof fn law_cancel_keeps_slots_distinct(
    rows: Seq<InventoryItem>,
    next: u64,
    defs: Seq<ItemDefinition>,
    recipes: Seq<Recipe>,
    queue: Seq<CraftingQueueItem>,
    p: PlayerId,
    id: u64,
)
    requires
        slots_distinct(rows),
    ensures
        slots_distinct(cancel_outcome(rows, next, defs, recipes, queue, p, id).0),
{
    let qi = queue_index(queue, id);
    if qi != -1 && queue[qi].player_identity == p {
        let ri = recipe_index(recipes, queue[qi].recipe_id);
        if ri != -1 {
            let ings = recipes[ri].ingredients@;
            law_grant_all_keeps_slots_distinct(rows, next, defs, p, ings, ings.len() as int);
        }
    }
}

/// Finishing crafting entries only gives items as additions would, so no
/// two of a player's items end up in one slot.
pub proof fn law_finish_keeps_slots_distinct(
    rows: Seq<InventoryItem>,
    next: u64,
    defs: Seq<ItemDefinition>,
    queue: Seq<CraftingQueueItem>,
    players: Seq<PlayerState>,
    now: i64,
    k: int,
)
    requires
        slots_distinct(rows),
    ensures
        slots_distinct(finish_pass(rows, next, defs, queue, players, now, k).0),
    decreases k,
{
    if k > 0 {
        law_finish_keeps_slots_distinct(rows, next, defs, queue, players, now, k - 1);
        let (r, n, dr) = finish_pass(rows, next, defs, queue, players, now, k - 1);
        let q = queue[k - 1];
        law_add_item_keeps_slots_distinct(r, n, defs, q.player_identity, q.output_item_def_id, q.output_quantity);
    }
}

/// Cancelling a crafting entry gives back what starting it took: when the
/// recipe's kinds all stack and every refund succeeds, the player holds as
/// much of every kind as before the crafting started.
pub proof fn law_cancel_restores_start(
    rows: Seq<InventoryItem>,
    next: u64,
    defs: Seq<ItemDefinition>,
    p: PlayerId,
    ings: Seq<RecipeIngredient>,
    d: u64,
)
    requires
        missing_from(rows, p, ings, 0) is None,
        all_stackable(defs, ings),
        grant_all(
            consumed(rows, p, ings, rows.len() as int),
            next,
            defs,
            p,
            ings,
            ings.len() as int,
        ).2.len() == 0,
    ensures
        qty_of(
            grant_all(
                consumed(rows, p, ings, rows.len() as int),
                next,
                defs,
                p,
                ings,
                ings.len() as int,
            ).0,
            p,
            d,
        ) == qty_of(rows, p, d),
{
    let n = rows.len() as int;
    let ds = req_defs(ings, ings.len() as int);
    law_grant_all_adds(consumed(rows, p, ings, n), next, defs, p, ings, ings.len() as int, d);
    lemma_consumed_qty(rows, p, ings, d, n);
    lemma_no_missing(rows, p, ings, 0);
    lemma_qty_nonneg(rows.take(n), p, d);
    lemma_required_mono(ings, d, 0, ings.len() as int);
    assert(rows.take(n) =~= rows);
    if required(ings, d, ings.len() as int) > 0 {
        lemma_req_defs_contains(ings, d);
        let w = choose|w: int| 0 <= w < ds.len() && ds[w] == d;
        assert(need_before(rows, p, ings, ds[w], n) == 0);
    }
}

/// A new queue entry finishes no earlier than now and than every entry the
/// player has queued.
pub proof fn law_queue_finishes_in_order(queue: Seq<CraftingQueueItem>, p: PlayerId, now: i64, k: int)
    requires
        0 <= k <= queue.len(),
    ensures
        latest_finish(queue, p, now, k) >= now,
        forall|j: int|
            0 <= j < k && #[trigger] queue[j].player_identity == p ==> latest_finish(queue, p, now, k)
                >= queue[j].finish_time,
    decreases k,
{
    if k > 0 {
        law_queue_finishes_in_order(queue, p, now, k - 1);
    }
}

} // verus!
