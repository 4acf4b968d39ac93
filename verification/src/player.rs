use vstd::prelude::*;
use vstd::string::StringSliceAdditionalSpecFns;
use crate::types::{PlayerId, InventoryItem, ItemDefinition, def_index_by_name, find_def_by_name};
use crate::store::{ItemStore, in_player_slots, slots_distinct, hot_slot_taken, lemma_push_keeps_distinct};
use crate::equipment::{ActiveEquipment, hand_cleared, unequip_item};
use crate::crafting::{
    Recipe, RecipeIngredient, CraftingQueueItem, refund_list, others_entries, grant_all,
    clear_player_crafting_queue, law_grant_all_keeps_slots_distinct,
};
use crate::errors::GameError;
use crate::stacking::MAX_NEW_STACKS;
use crate::starting_items::{grant_starting_items, hotbar_granted, armor_granted};
use crate::equipment::row_or_empty;
use crate::time::{LATEST_TIME, plus_secs, timestamp_plus_secs};

verus! {

/// What the rules read and write of a player row: everything but the
/// position and the stats, which the host keeps as floating point.
#[derive(Clone, Debug)]
pub struct PlayerState {
    pub identity: PlayerId,
    pub username: String,
    pub color: String,
    pub direction: String,
    /// Start of the last jump, in milliseconds since the epoch (0: none).
    pub jump_start_time_ms: u64,
    pub is_sprinting: bool,
    pub is_dead: bool,
    /// When a dead player may respawn (microseconds since the epoch).
    pub respawn_at: i64,
    /// Last movement or state change (microseconds since the epoch).
    pub last_update: i64,
    /// Last stat tick (microseconds since the epoch).
    pub last_stat_update: i64,
    pub last_hit_time: Option<i64>,
}

/// Index of the first player row with the given identity, or -1.
pub open spec fn player_index(players: Seq<PlayerState>, id: PlayerId) -> int {
    if exists|i: int| 0 <= i < players.len() && players[i].identity == id {
        choose|i: int|
            0 <= i < players.len() && players[i].identity == id && forall|j: int|
                0 <= j < i ==> players[j].identity != id
    } else {
        -1
    }
}

/// Whether the player has a row and is alive.
pub open spec fn is_alive(players: Seq<PlayerState>, id: PlayerId) -> bool {
    player_index(players, id) != -1 && !players[player_index(players, id)].is_dead
}

/// Looks up the player row with the given identity.
pub fn find_player(players: &Vec<PlayerState>, id: PlayerId) -> (r: Option<usize>)
    ensures
        match r {
            Some(i) => i == player_index(players@, id) && i < players.len(),
            None => player_index(players@, id) == -1,
        },
{
    let mut i: usize = 0;
    while i < players.len()
        invariant
            i <= players.len(),
            forall|j: int| 0 <= j < i ==> players@[j].identity != id,
        decreases players.len() - i,
    {
        if players[i].identity == id {
            assert(exists|k: int| 0 <= k < players.len() && players@[k].identity == id);
            let ghost c = player_index(players@, id);
            assert(c == i as int) by {
                if c < i {
                } else if c > i {
                }
            }
            return Some(i);
        }
        i = i + 1;
    }
    None
}

/// Minimum time between two jumps, in milliseconds.
pub const JUMP_COOLDOWN_MS: u64 = 500;

/// Sum of the bytes.
pub open spec fn byte_sum(b: Seq<u8>) -> int
    decreases b.len(),
{
    if b.len() == 0 {
        0
    } else {
        byte_sum(b.drop_last()) + b.last()
    }
}

/// The player colors, by index.
pub open spec fn palette(i: int) -> Seq<char> {
    if i == 0 {
        "#FF0000"@
    } else if i == 1 {
        "#00FF00"@
    } else if i == 2 {
        "#0000FF"@
    } else if i == 3 {
        "#FFFF00"@
    } else if i == 4 {
        "#FF00FF"@
    } else if i == 5 {
        "#00FFFF"@
    } else if i == 6 {
        "#FF8000"@
    } else {
        "#8000FF"@
    }
}

/// A player's color, picked from eight by the sum of the username's bytes.
pub fn random_color(username: &str) -> (r: String)
    ensures
        r@ == palette(byte_sum(username.spec_bytes()) % 8),
{
    let bytes = username.as_bytes();
    let mut acc: u64 = 0;
    let mut i: usize = 0;
    while i < bytes.len()
        invariant
            bytes@ == username.spec_bytes(),
            i <= bytes@.len(),
            acc < 8,
            acc == byte_sum(bytes@.take(i as int)) % 8,
        decreases bytes.len() - i,
    {
        let b = bytes[i];
        proof {
            assert(bytes@.take(i + 1).drop_last() =~= bytes@.take(i as int));
            assert(bytes@.take(i + 1).last() == b);
            let s = byte_sum(bytes@.take(i as int));
            assert((acc + b) % 8 == (s + b) % 8) by {
                assert(s >= 0) by {
                    lemma_byte_sum_nonneg(bytes@.take(i as int));
                }
            }
        }
        acc = (acc + b as u64) % 8;
        i = i + 1;
    }
    assert(bytes@.take(bytes@.len() as int) =~= bytes@);
    let color = if acc == 0 {
        "#FF0000"
    } else if acc == 1 {
        "#00FF00"
    } else if acc == 2 {
        "#0000FF"
    } else if acc == 3 {
        "#FFFF00"
    } else if acc == 4 {
        "#FF00FF"
    } else if acc == 5 {
        "#00FFFF"
    } else if acc == 6 {
        "#FF8000"
    } else {
        "#8000FF"
    };
    color.to_owned()
}

proof fn lemma_byte_sum_nonneg(b: Seq<u8>)
    ensures
        byte_sum(b) >= 0,
    decreases b.len(),
{
    if b.len() > 0 {
        lemma_byte_sum_nonneg(b.drop_last());
    }
}

proof fn lemma_byte_sum_remove(b: Seq<u8>, i: int)
    requires
        0 <= i < b.len(),
    ensures
        byte_sum(b) == byte_sum(b.remove(i)) + b[i],
    decreases b.len(),
{
    if i == b.len() - 1 {
        assert(b.remove(i) =~= b.drop_last());
    } else {
        lemma_byte_sum_remove(b.drop_last(), i);
        assert(b.remove(i).drop_last() =~= b.drop_last().remove(i));
        assert(b.remove(i).last() == b.last());
    }
}

/// A player's color depends on the username's bytes, not on their order:
/// two usernames whose bytes are a permutation of each other have the same
/// byte sum, and so the same color.
pub proof fn law_color_ignores_byte_order(a: Seq<u8>, b: Seq<u8>)
    requires
        a.to_multiset() == b.to_multiset(),
    ensures
        byte_sum(a) == byte_sum(b),
        palette(byte_sum(a) % 8) == palette(byte_sum(b) % 8),
    decreases a.len(),
{
    broadcast use vstd::seq_lib::group_to_multiset_ensures;
    broadcast use vstd::multiset::group_multiset_axioms;

    if a.len() == 0 {
        assert(b.len() == b.to_multiset().len());
        assert(a.len() == a.to_multiset().len());
    } else {
        let x = a.last();
        let a1 = a.drop_last();
        assert(a =~= a1.push(x));
        assert(b.to_multiset().count(x) > 0);
        assert(b.contains(x));
        let j = choose|j: int| 0 <= j < b.len() && b[j] == x;
        let b1 = b.remove(j);
        assert(a1.to_multiset() =~= b1.to_multiset());
        law_color_ignores_byte_order(a1, b1);
        lemma_byte_sum_remove(b, j);
    }
}

/// What a jump request at `now_ms` leaves: refused for a dead player and
/// within the cooldown of the last jump; else the jump starts now.
pub open spec fn jump_outcome(pl: PlayerState, now_ms: u64, now: i64) -> (PlayerState, Result<
    (),
    GameError,
>) {
    if pl.is_dead {
        (pl, Err(GameError::PlayerDead))
    } else if pl.jump_start_time_ms > 0 && now_ms < pl.jump_start_time_ms + JUMP_COOLDOWN_MS {
        (pl, Err(GameError::JumpCooldown))
    } else {
        (PlayerState { jump_start_time_ms: now_ms, last_update: now, ..pl }, Ok(()))
    }
}

/// Starts a jump at `now_ms`: refused for a dead player and within the
/// cooldown of the last jump.
pub fn jump(player: &mut PlayerState, now_ms: u64, now: i64) -> (r: Result<(), GameError>)
    requires
        old(player).jump_start_time_ms <= u64::MAX - JUMP_COOLDOWN_MS,
    ensures
        (*final(player), r) == jump_outcome(*old(player), now_ms, now),
{
    if player.is_dead {
        return Err(GameError::PlayerDead);
    }
    if player.jump_start_time_ms > 0 && now_ms < player.jump_start_time_ms + JUMP_COOLDOWN_MS {
        return Err(GameError::JumpCooldown);
    }
    player.jump_start_time_ms = now_ms;
    player.last_update = now;
    Ok(())
}

/// Sets the sprinting state; a change records `now` as the last update.
pub fn set_sprinting(player: &mut PlayerState, sprinting: bool, now: i64)
    ensures
        old(player).is_sprinting == sprinting ==> *final(player) == *old(player),
        old(player).is_sprinting != sprinting ==> *final(player) == (PlayerState {
            is_sprinting: sprinting,
            last_update: now,
            ..*old(player)
        }),
{
    if player.is_sprinting != sprinting {
        player.is_sprinting = sprinting;
        player.last_update = now;
    }
}

/// The rows with the player's items removed: all of them, or (with
/// `slotted_only`) those in the hotbar or main inventory; among the first `k`.
pub open spec fn without_player_items(
    rows: Seq<InventoryItem>,
    p: PlayerId,
    slotted_only: bool,
    k: int,
) -> Seq<InventoryItem>
    decreases k,
{
    if k <= 0 {
        Seq::empty()
    } else {
        let prev = without_player_items(rows, p, slotted_only, k - 1);
        let it = rows[k - 1];
        if it.player_identity == p && (!slotted_only || in_player_slots(it)) {
            prev
        } else {
            prev.push(it)
        }
    }
}

/// Deletes the player's items (or only those in the hotbar and inventory).
pub fn delete_player_items(store: &mut ItemStore, p: PlayerId, slotted_only: bool)
    requires
        old(store).wf(),
    ensures
        final(store).wf(),
        final(store).next_id() == old(store).next_id(),
        final(store).rows() == without_player_items(
            old(store).rows(),
            p,
            slotted_only,
            old(store).rows().len() as int,
        ),
{
    let ghost rows0 = store.rows();
    let ghost n = rows0.len() as int;
    let mut k: usize = 0;
    let mut i: usize = 0;
    let len = store.len();
    assert(rows0 =~= without_player_items(rows0, p, slotted_only, 0) + rows0.subrange(0, n));
    while k < len
        invariant
            store.wf(),
            store.next_id() == old(store).next_id(),
            n == rows0.len(),
            n == len,
            k <= n,
            store.rows() == without_player_items(rows0, p, slotted_only, k as int) + rows0.subrange(
                k as int,
                n,
            ),
            i == without_player_items(rows0, p, slotted_only, k as int).len(),
        decreases n - k,
    {
        let ghost c = without_player_items(rows0, p, slotted_only, k as int);
        let ghost rest = rows0.subrange(k + 1, n);
        assert(rows0.subrange(k as int, n) =~= seq![rows0[k as int]] + rest);
        let cur_len = store.len();
        let item = store.get(i);
        assert(item == rows0[k as int]);
        if item.player_identity == p && (!slotted_only || item.inventory_slot.is_some()
            || item.hotbar_slot.is_some()) {
            store.remove(i);
            assert(store.rows() =~= c + rest);
        } else {
            assert(store.rows() =~= c.push(item) + rest);
            i = i + 1;
        }
        k = k + 1;
    }
    assert(rows0.subrange(n, n) =~= Seq::<InventoryItem>::empty());
    assert(store.rows() =~= without_player_items(rows0, p, slotted_only, n));
}

/// Seconds left (rounded up) until `respawn_at`, from `now`.
pub open spec fn secs_until(now: i64, respawn_at: i64) -> int {
    let d = respawn_at - now;
    d / 1_000_000 + if d % 1_000_000 == 0 {
        0int
    } else {
        1int
    }
}

/// Checks a dead player may respawn at `now`.
pub fn check_respawn(player: &PlayerState, now: i64) -> (r: Result<(), GameError>)
    ensures
        !player.is_dead ==> r == Err::<(), GameError>(GameError::NotDead),
        player.is_dead && now < player.respawn_at ==> r == Err::<(), GameError>(
            GameError::RespawnNotReady { remaining_secs: secs_until(now, player.respawn_at) as u64 },
        ),
        player.is_dead && now >= player.respawn_at ==> r == Ok::<(), GameError>(()),
{
    if !player.is_dead {
        return Err(GameError::NotDead);
    }
    if now < player.respawn_at {
        let d: u64 = (player.respawn_at as i128 - now as i128) as u64;
        let secs = d / 1_000_000 + if d % 1_000_000 == 0 {
            0
        } else {
            1
        };
        return Err(GameError::RespawnNotReady { remaining_secs: secs });
    }
    Ok(())
}

/// The player state after a respawn at `now`: alive, not sprinting, no jump
/// or hit recorded, facing `dir`.
pub open spec fn respawned(pl: PlayerState, now: i64, dir: String) -> PlayerState {
    PlayerState {
        jump_start_time_ms: 0,
        is_sprinting: false,
        is_dead: false,
        last_hit_time: None,
        direction: dir,
        last_update: now,
        last_stat_update: now,
        ..pl
    }
}

/// What a respawn leaves in the item table: all the player's items deleted,
/// the crafting queue refunded, and one Rock placed in hotbar slot 0 (when
/// its definition exists). Also the refunds that could not be given.
pub open spec fn respawn_rows(
    rows: Seq<InventoryItem>,
    next: u64,
    defs: Seq<ItemDefinition>,
    recipes: Seq<Recipe>,
    queue: Seq<CraftingQueueItem>,
    p: PlayerId,
) -> (Seq<InventoryItem>, u64, Seq<RecipeIngredient>) {
    let r1 = without_player_items(rows, p, false, rows.len() as int);
    let list = refund_list(queue, recipes, p, queue.len() as int);
    let (r2, n2, failed) = grant_all(r1, next, defs, p, list, list.len() as int);
    let rock = def_index_by_name(defs, "Rock"@);
    if rock == -1 {
        (r2, n2, failed)
    } else {
        (
            r2.push(
                InventoryItem {
                    instance_id: n2,
                    player_identity: p,
                    item_def_id: defs[rock].id,
                    quantity: 1,
                    hotbar_slot: Some(0),
                    inventory_slot: None,
                },
            ),
            (n2 + 1) as u64,
            failed,
        )
    }
}

/// Respawns a dead player whose respawn time has come: the player's items
/// are deleted, the crafting queue is cleared with refunds, one Rock goes to
/// hotbar slot 0, the state is reset and the main hand emptied. Returns the
/// refunds that could not be given (to be dropped near the player).
pub fn request_respawn(
    store: &mut ItemStore,
    defs: &Vec<ItemDefinition>,
    recipes: &Vec<Recipe>,
    queue: &mut Vec<CraftingQueueItem>,
    equip: &mut Option<ActiveEquipment>,
    player: &mut PlayerState,
    now: i64,
) -> (r: Result<Vec<RecipeIngredient>, GameError>)
    requires
        old(store).wf(),
        old(store).next_id() + MAX_NEW_STACKS * refund_list(
            old(queue)@,
            recipes@,
            old(player).identity,
            old(queue)@.len() as int,
        ).len() + 1 < u64::MAX,
    ensures
        final(store).wf(),
        !old(player).is_dead ==> (r matches Err(e) && e == GameError::NotDead),
        old(player).is_dead && now < old(player).respawn_at ==> (r matches Err(e) && e == (
        GameError::RespawnNotReady {
            remaining_secs: secs_until(now, old(player).respawn_at) as u64,
        })),
        !old(player).is_dead || now < old(player).respawn_at ==> final(store).rows() == old(
            store,
        ).rows() && final(queue)@ == old(queue)@ && *final(equip) == *old(equip)
            && *final(player) == *old(player),
        old(player).is_dead && now >= old(player).respawn_at ==> ({
            let p = old(player).identity;
            let (rows, next, failed) = respawn_rows(
                old(store).rows(),
                old(store).next_id(),
                defs@,
                recipes@,
                old(queue)@,
                p,
            );
            &&& r matches Ok(f) && f@ == failed
            &&& final(store).rows() == rows
            &&& final(store).next_id() == next
            &&& final(queue)@ == others_entries(old(queue)@, p, old(queue)@.len() as int)
            &&& *final(player) == respawned(*old(player), now, final(player).direction)
            &&& final(player).direction@ == "down"@
            &&& *final(equip) == match *old(equip) {
                Some(e) => Some(
                    if e.equipped_item_instance_id is Some {
                        hand_cleared(e)
                    } else {
                        e
                    },
                ),
                None => None,
            }
        }),
{
    if let Err(e) = check_respawn(player, now) {
        return Err(e);
    }
    let p = player.identity;
    delete_player_items(store, p, false);
    let failed = clear_player_crafting_queue(store, defs, recipes, queue, p);
    let rock_name = String::from_str("Rock");
    if let Some(rock) = find_def_by_name(defs, &rock_name) {
        let _id = store.insert(
            InventoryItem {
                instance_id: 0,
                player_identity: p,
                item_def_id: defs[rock].id,
                quantity: 1,
                hotbar_slot: Some(0),
                inventory_slot: None,
            },
        );
    }
    player.jump_start_time_ms = 0;
    player.is_sprinting = false;
    player.is_dead = false;
    player.last_hit_time = None;
    player.direction = String::from_str("down");
    player.last_update = now;
    player.last_stat_update = now;
    let _ = unequip_item(equip);
    Ok(failed)
}

/// Checks a registration: the username must be free and the identity new.
pub fn check_registration(players: &Vec<PlayerState>, p: PlayerId, username: &String) -> (r: Result<
    (),
    GameError,
>)
    ensures
        (exists|i: int| 0 <= i < players@.len() && players@[i].username@ == username@) ==> r
            == Err::<(), GameError>(GameError::UsernameTaken),
        !(exists|i: int| 0 <= i < players@.len() && players@[i].username@ == username@) ==> r
            == (if player_index(players@, p) != -1 {
            Err::<(), GameError>(GameError::AlreadyRegistered)
        } else {
            Ok(())
        }),
{
    let mut i: usize = 0;
    while i < players.len()
        invariant
            i <= players@.len(),
            forall|j: int| 0 <= j < i ==> players@[j].username@ != username@,
        decreases players.len() - i,
    {
        if players[i].username == *username {
            return Err(GameError::UsernameTaken);
        }
        i = i + 1;
    }
    if find_player(players, p).is_some() {
        return Err(GameError::AlreadyRegistered);
    }
    Ok(())
}

/// A new player's state at `now`: alive, facing down, colored by username.
pub open spec fn fresh_player(pl: PlayerState, p: PlayerId, username: Seq<char>, now: i64) -> bool {
    &&& pl.identity == p
    &&& pl.username@ == username
    &&& pl.color@ == palette(byte_sum(crate::player::username_bytes(username)) % 8)
    &&& pl.direction@ == "down"@
    &&& pl.jump_start_time_ms == 0
    &&& !pl.is_sprinting
    &&& !pl.is_dead
    &&& pl.respawn_at == now
    &&& pl.last_update == now
    &&& pl.last_stat_update == now
    &&& pl.last_hit_time is None
}

/// The UTF-8 bytes of a username.
pub open spec fn username_bytes(s: Seq<char>) -> Seq<u8> {
    vstd::utf8::encode_utf8(s)
}

/// Registers a new player: the username must be free and the identity new.
/// The player gets the starting items and armor; the new state is returned
/// for insertion (the host places the player).
pub fn register_player(
    store: &mut ItemStore,
    defs: &Vec<ItemDefinition>,
    players: &Vec<PlayerState>,
    equip: &mut Option<ActiveEquipment>,
    p: PlayerId,
    username: String,
    now: i64,
) -> (r: Result<PlayerState, GameError>)
    requires
        old(store).wf(),
        old(store).next_id() + 10 < u64::MAX,
    ensures
        final(store).wf(),
        (exists|i: int| 0 <= i < players@.len() && players@[i].username@ == username@) ==> r
            == Err::<PlayerState, GameError>(GameError::UsernameTaken) && final(store).rows()
            == old(store).rows() && *final(equip) == *old(equip),
        !(exists|i: int| 0 <= i < players@.len() && players@[i].username@ == username@)
            && player_index(players@, p) != -1 ==> r == Err::<PlayerState, GameError>(
            GameError::AlreadyRegistered,
        ) && final(store).rows() == old(store).rows() && *final(equip) == *old(equip),
        !(exists|i: int| 0 <= i < players@.len() && players@[i].username@ == username@)
            && player_index(players@, p) == -1 ==> ({
            let (r1, n1) = hotbar_granted(old(store).rows(), old(store).next_id(), defs@, p, 4);
            let (r2, n2, e2) = armor_granted(r1, n1, defs@, p, row_or_empty(*old(equip), p), 6);
            &&& r matches Ok(pl) && fresh_player(pl, p, username@, now)
            &&& final(store).rows() == r2
            &&& final(store).next_id() == n2
            &&& *final(equip) == Some(e2)
        }),
{
    if let Err(e) = check_registration(players, p, &username) {
        return Err(e);
    }
    let color = random_color(username.as_str());
    let pl = PlayerState {
        identity: p,
        username,
        color,
        direction: String::from_str("down"),
        jump_start_time_ms: 0,
        is_sprinting: false,
        is_dead: false,
        respawn_at: now,
        last_update: now,
        last_stat_update: now,
        last_hit_time: None,
    };
    grant_starting_items(store, defs, equip, p);
    Ok(pl)
}

/// Cleans up after a player leaves: the items in the player's hotbar and
/// inventory are deleted, the equipment row is dropped and the crafting
/// queue is cleared with refunds. Returns the refunds that could not be given.
pub fn identity_disconnected(
    store: &mut ItemStore,
    defs: &Vec<ItemDefinition>,
    recipes: &Vec<Recipe>,
    queue: &mut Vec<CraftingQueueItem>,
    equip: &mut Option<ActiveEquipment>,
    p: PlayerId,
) -> (failed: Vec<RecipeIngredient>)
    requires
        old(store).wf(),
        old(store).next_id() + MAX_NEW_STACKS * refund_list(old(queue)@, recipes@, p, old(queue)@.len() as int).len()
            < u64::MAX,
    ensures
        final(store).wf(),
        *final(equip) is None,
        final(queue)@ == others_entries(old(queue)@, p, old(queue)@.len() as int),
        ({
            let r1 = without_player_items(old(store).rows(), p, true, old(store).rows().len() as int);
            let list = refund_list(old(queue)@, recipes@, p, old(queue)@.len() as int);
            (final(store).rows(), final(store).next_id(), failed@) == grant_all(
                r1,
                old(store).next_id(),
                defs@,
                p,
                list,
                list.len() as int,
            )
        }),
{
    delete_player_items(store, p, true);
    *equip = None;
    clear_player_crafting_queue(store, defs, recipes, queue, p)
}

/// A direction a player can face.
#[derive(Clone, Copy, Debug, PartialEq, Eq, Structural)]
pub enum Facing {
    Up,
    Down,
    Left,
    Right,
}

/// The name of a direction.
pub open spec fn facing_name(f: Facing) -> Seq<char> {
    match f {
        Facing::Up => "up"@,
        Facing::Down => "down"@,
        Facing::Left => "left"@,
        Facing::Right => "right"@,
    }
}

/// Whether a client-sent direction is one of "up", "down", "left", "right".
pub open spec fn is_facing_name(s: Seq<char>) -> bool {
    s == "up"@ || s == "down"@ || s == "left"@ || s == "right"@
}

fn facing_string(f: Facing) -> (r: String)
    ensures
        r@ == facing_name(f),
{
    match f {
        Facing::Up => String::from_str("up"),
        Facing::Down => String::from_str("down"),
        Facing::Left => String::from_str("left"),
        Facing::Right => String::from_str("right"),
    }
}

/// The direction a player faces after a move: the direction the client sent
/// if it is valid (an invalid one keeps the current direction); without one,
/// the direction of the movement, if any (`moved`), else the current one.
pub fn resolve_direction(current: &String, intended: &Option<String>, moved: Option<Facing>) -> (r:
    String)
    ensures
        match intended {
            Some(s) => if is_facing_name(s@) {
                r@ == s@
            } else {
                r@ == current@
            },
            None => match moved {
                Some(f) => r@ == facing_name(f),
                None => r@ == current@,
            },
        },
{
    match intended {
        Some(s) => {
            if *s == String::from_str("up") || *s == String::from_str("down") || *s
                == String::from_str("left") || *s == String::from_str("right") {
                s.clone()
            } else {
                current.clone()
            }
        },
        None => match moved {
            Some(f) => facing_string(f),
            None => current.clone(),
        },
    }
}

/// Seconds after death before a player starved, frozen or otherwise killed
/// by the stat tick may respawn.
pub const STAT_DEATH_RESPAWN_SECS: u64 = 5;

/// A player's death in the stat tick at `now`: marked dead, respawn five
/// seconds later, main hand emptied.
pub fn mark_dead(player: &mut PlayerState, equip: &mut Option<ActiveEquipment>, now: i64)
    requires
        now <= LATEST_TIME,
    ensures
        *final(player) == (PlayerState {
            is_dead: true,
            respawn_at: plus_secs(now, STAT_DEATH_RESPAWN_SECS as int) as i64,
            ..*old(player)
        }),
        *final(equip) == match *old(equip) {
            Some(e) => Some(
                if e.equipped_item_instance_id is Some {
                    hand_cleared(e)
                } else {
                    e
                },
            ),
            None => None,
        },
{
    player.is_dead = true;
    player.respawn_at = timestamp_plus_secs(now, STAT_DEATH_RESPAWN_SECS);
    let _ = unequip_item(equip);
}

/// A second jump within the cooldown of a successful first one is refused;
/// one at or after the cooldown succeeds.
pub proof fn law_jump_cooldown(pl: PlayerState, t1: u64, now1: i64, t2: u64, now2: i64)
    requires
        jump_outcome(pl, t1, now1).1 is Ok,
        t1 > 0,
        t1 <= u64::MAX - JUMP_COOLDOWN_MS,
    ensures
        t2 < t1 + JUMP_COOLDOWN_MS ==> jump_outcome(jump_outcome(pl, t1, now1).0, t2, now2).1
            == Err::<(), GameError>(GameError::JumpCooldown),
        t2 >= t1 + JUMP_COOLDOWN_MS ==> jump_outcome(jump_outcome(pl, t1, now1).0, t2, now2).1
            is Ok,
{
}


proof fn lemma_without_places(rows: Seq<InventoryItem>, p: PlayerId, slotted_only: bool, k: int)
    requires
        0 <= k <= rows.len(),
        slots_distinct(rows),
    ensures
        slots_distinct(without_player_items(rows, p, slotted_only, k)),
        forall|a: int|
            0 <= a < without_player_items(rows, p, slotted_only, k).len() ==> exists|m: int|
                0 <= m < k && #[trigger] without_player_items(rows, p, slotted_only, k)[a] == rows[m],
    decreases k,
{
    reveal(slots_distinct);
    if k > 0 {
        lemma_without_places(rows, p, slotted_only, k - 1);
        let prev = without_player_items(rows, p, slotted_only, k - 1);
        let c = without_player_items(rows, p, slotted_only, k);
        let it = rows[k - 1];
        if !(it.player_identity == p && (!slotted_only || in_player_slots(it))) {
            assert(c == prev.push(it));
            assert forall|a: int| 0 <= a < c.len() implies exists|m: int|
                0 <= m < k && #[trigger] c[a] == rows[m] by {
                if a < prev.len() {
                    assert(c[a] == prev[a]);
                    let m = choose|m: int| 0 <= m < k - 1 && prev[a] == rows[m];
                    assert(c[a] == rows[m]);
                } else {
                    assert(c[a] == rows[k - 1]);
                }
            }
            assert forall|a: int, b: int|
                #![trigger c[a], c[b]]
                0 <= a < c.len() && 0 <= b < c.len() && a != b && c[a].player_identity
                    == c[b].player_identity implies !(c[a].hotbar_slot is Some && c[a].hotbar_slot
                == c[b].hotbar_slot) && !(c[a].inventory_slot is Some && c[a].inventory_slot
                == c[b].inventory_slot) by {
                if a < prev.len() && b < prev.len() {
                    assert(c[a] == prev[a] && c[b] == prev[b]);
                } else if a < prev.len() {
                    let m = choose|m: int| 0 <= m < k - 1 && prev[a] == rows[m];
                    assert(c[a] == rows[m] && c[b] == rows[k - 1]);
                } else if b < prev.len() {
                    let m = choose|m: int| 0 <= m < k - 1 && prev[b] == rows[m];
                    assert(c[b] == rows[m] && c[a] == rows[k - 1]);
                }
            }
        }
    }
}

/// Cleaning up after a player leaves only deletes rows and gives refunds as
/// additions would, so no two of a player's items end up in one slot.
pub proof fn law_disconnect_keeps_slots_distinct(
    rows: Seq<InventoryItem>,
    next: u64,
    defs: Seq<ItemDefinition>,
    recipes: Seq<Recipe>,
    queue: Seq<CraftingQueueItem>,
    p: PlayerId,
)
    requires
        slots_distinct(rows),
    ensures
        ({
            let r1 = without_player_items(rows, p, true, rows.len() as int);
            let list = refund_list(queue, recipes, p, queue.len() as int);
            slots_distinct(grant_all(r1, next, defs, p, list, list.len() as int).0)
        }),
{
    lemma_without_places(rows, p, true, rows.len() as int);
    let r1 = without_player_items(rows, p, true, rows.len() as int);
    let list = refund_list(queue, recipes, p, queue.len() as int);
    law_grant_all_keeps_slots_distinct(r1, next, defs, p, list, list.len() as int);
}

/// Respawning deletes the player's items, gives the crafting refunds as
/// additions would and puts a Rock into hotbar slot 0, so no two of a
/// player's items end up in one slot, unless a refund went into hotbar slot
/// 0 first (then the Rock joins it there).
pub proof fn law_respawn_keeps_slots_distinct(
    rows: Seq<InventoryItem>,
    next: u64,
    defs: Seq<ItemDefinition>,
    recipes: Seq<Recipe>,
    queue: Seq<CraftingQueueItem>,
    p: PlayerId,
)
    requires
        slots_distinct(rows),
        ({
            let r1 = without_player_items(rows, p, false, rows.len() as int);
            let list = refund_list(queue, recipes, p, queue.len() as int);
            def_index_by_name(defs, "Rock"@) != -1 ==> !hot_slot_taken(
                grant_all(r1, next, defs, p, list, list.len() as int).0,
                p,
                0,
            )
        }),
    ensures
        slots_distinct(respawn_rows(rows, next, defs, recipes, queue, p).0),
{
    lemma_without_places(rows, p, false, rows.len() as int);
    let r1 = without_player_items(rows, p, false, rows.len() as int);
    let list = refund_list(queue, recipes, p, queue.len() as int);
    law_grant_all_keeps_slots_distinct(r1, next, defs, p, list, list.len() as int);
    let (r2, n2, failed) = grant_all(r1, next, defs, p, list, list.len() as int);
    let rock = def_index_by_name(defs, "Rock"@);
    if rock != -1 {
        lemma_push_keeps_distinct(
            r2,
            InventoryItem {
                instance_id: n2,
                player_identity: p,
                item_def_id: defs[rock].id,
                quantity: 1,
                hotbar_slot: Some(0),
                inventory_slot: None,
            },
        );
    }
}

} // verus!
