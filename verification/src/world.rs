use vstd::prelude::*;
use rand::rngs::StdRng;
use crate::random::std_gen_range;
use crate::types::{PlayerId, InventoryItem, ItemDefinition, def_index, find_def, def_index_by_name, find_def_by_name};
use crate::store::{ItemStore, slots_distinct};
use crate::stacking::{
    add_item_outcome, add_item_to_player_inventory, law_add_item_keeps_slots_distinct, law_add_item_grants,
    qty_of, MAX_NEW_STACKS,
};
use crate::equipment::ActiveEquipment;
use crate::time::{LATEST_TIME, plus_secs, timestamp_plus_secs};
use crate::errors::GameError;

verus! {

/// World width in tiles.
pub const WORLD_WIDTH_TILES: u32 = 100;

/// World height in tiles.
pub const WORLD_HEIGHT_TILES: u32 = 100;

/// Side of a chunk, in tiles.
pub const CHUNK_SIZE_TILES: u32 = 20;

/// World width in chunks (rounded up).
pub const WORLD_WIDTH_CHUNKS: u32 = 5;

/// Seconds before a depleted tree, stone or picked mushroom comes back.
pub const RESOURCE_RESPAWN_DURATION_SECS: u64 = 300;

/// Health of a fresh stone.
pub const STONE_INITIAL_HEALTH: u32 = 100;

/// Delay before a player killed in combat may respawn, in microseconds.
pub const RESPAWN_DELAY_MICROS: i64 = 5_000_000;

/// The tile rectangle, `margin` tiles in from every edge, in which resources
/// spawn: (min x, max x, min y, max y). A margin too large for the world
/// collapses the range onto its upper end.
pub fn calculate_tile_bounds(world_width_tiles: u32, world_height_tiles: u32, margin: u32) -> (r: (
    u32,
    u32,
    u32,
    u32,
))
    ensures
        r.1 == (if world_width_tiles >= margin {
            world_width_tiles - margin
        } else {
            0
        }),
        r.3 == (if world_height_tiles >= margin {
            world_height_tiles - margin
        } else {
            0
        }),
        r.0 == (if margin <= r.1 {
            margin
        } else {
            r.1
        }),
        r.2 == (if margin <= r.3 {
            margin
        } else {
            r.3
        }),
{
    let max_tile_x = world_width_tiles.saturating_sub(margin);
    let max_tile_y = world_height_tiles.saturating_sub(margin);
    let min_tile_x = if margin <= max_tile_x {
        margin
    } else {
        max_tile_x
    };
    let min_tile_y = if margin <= max_tile_y {
        margin
    } else {
        max_tile_y
    };
    (min_tile_x, max_tile_x, min_tile_y, max_tile_y)
}

/// The row-major index of the chunk holding a tile; tiles beyond the last
/// chunk count to it.
pub open spec fn chunk_index_spec(tile_x: u32, tile_y: u32) -> int {
    let cx = if tile_x / CHUNK_SIZE_TILES < WORLD_WIDTH_CHUNKS - 1 {
        tile_x / CHUNK_SIZE_TILES
    } else {
        (WORLD_WIDTH_CHUNKS - 1) as u32
    };
    let cy = if tile_y / CHUNK_SIZE_TILES < WORLD_WIDTH_CHUNKS - 1 {
        tile_y / CHUNK_SIZE_TILES
    } else {
        (WORLD_WIDTH_CHUNKS - 1) as u32
    };
    cy * WORLD_WIDTH_CHUNKS + cx
}

/// The index of the chunk holding tile (`tile_x`, `tile_y`).
pub fn chunk_index_of_tile(tile_x: u32, tile_y: u32) -> (r: u32)
    ensures
        r == chunk_index_spec(tile_x, tile_y),
        r < WORLD_WIDTH_CHUNKS * WORLD_WIDTH_CHUNKS,
{
    let cx = if tile_x / CHUNK_SIZE_TILES < WORLD_WIDTH_CHUNKS - 1 {
        tile_x / CHUNK_SIZE_TILES
    } else {
        WORLD_WIDTH_CHUNKS - 1
    };
    let cy = if tile_y / CHUNK_SIZE_TILES < WORLD_WIDTH_CHUNKS - 1 {
        tile_y / CHUNK_SIZE_TILES
    } else {
        WORLD_WIDTH_CHUNKS - 1
    };
    cy * WORLD_WIDTH_CHUNKS + cx
}

/// What the rules read and write of a tree or stone: its health and timers
/// (microseconds since the epoch). The position stays with the host.
#[derive(Clone, Copy, Debug, PartialEq, Eq, Structural)]
pub struct ResourceNode {
    pub id: u64,
    pub health: u32,
    pub last_hit_time: Option<i64>,
    pub respawn_at: Option<i64>,
}

/// What the rules read and write of a mushroom: when it comes back.
#[derive(Clone, Copy, Debug, PartialEq, Eq, Structural)]
pub struct MushroomNode {
    pub id: u64,
    pub respawn_at: Option<i64>,
}

/// A node after a hit of `damage` at `now`: health drops (not below zero),
/// the hit time is recorded, and a node brought to zero comes back five
/// minutes later.
pub open spec fn after_hit(n: ResourceNode, damage: u32, now: i64) -> ResourceNode {
    let h = if n.health >= damage {
        (n.health - damage) as u32
    } else {
        0u32
    };
    ResourceNode {
        health: h,
        last_hit_time: Some(now),
        respawn_at: if h == 0 {
            Some(plus_secs(now, RESOURCE_RESPAWN_DURATION_SECS as int) as i64)
        } else {
            n.respawn_at
        },
        ..n
    }
}

/// Hits a tree or stone for `damage`.
pub fn hit_resource(node: &mut ResourceNode, damage: u32, now: i64)
    requires
        now <= LATEST_TIME,
    ensures
        *final(node) == after_hit(*old(node), damage, now),
{
    node.health = node.health.saturating_sub(damage);
    node.last_hit_time = Some(now);
    if node.health == 0 {
        node.respawn_at = Some(timestamp_plus_secs(now, RESOURCE_RESPAWN_DURATION_SECS));
    }
}

/// Whether a depleted node is due to come back at `now`.
pub open spec fn node_due(n: ResourceNode, now: i64) -> bool {
    n.health == 0 && (n.respawn_at matches Some(t) && now >= t)
}

/// The nodes after the respawn check: every due node is back at full health
/// with its timers cleared; the others are unchanged.
pub open spec fn nodes_respawned(ns: Seq<ResourceNode>, full: u32, now: i64) -> Seq<ResourceNode> {
    Seq::new(
        ns.len(),
        |i: int|
            if node_due(ns[i], now) {
                ResourceNode { health: full, last_hit_time: None, respawn_at: None, ..ns[i] }
            } else {
                ns[i]
            },
    )
}

/// Brings back every depleted tree or stone whose respawn time has come.
pub fn respawn_resources(nodes: &mut Vec<ResourceNode>, full_health: u32, now: i64)
    ensures
        final(nodes)@ == nodes_respawned(old(nodes)@, full_health, now),
{
    let ghost ns0 = nodes@;
    let mut i: usize = 0;
    while i < nodes.len()
        invariant
            nodes@.len() == ns0.len(),
            i <= ns0.len(),
            forall|j: int| 0 <= j < i ==> nodes@[j] == nodes_respawned(ns0, full_health, now)[j],
            forall|j: int| i <= j < ns0.len() ==> nodes@[j] == ns0[j],
        decreases ns0.len() - i,
    {
        let n = nodes[i];
        let due = n.health == 0 && match n.respawn_at {
            Some(t) => now >= t,
            None => false,
        };
        if due {
            nodes.set(
                i,
                ResourceNode { health: full_health, last_hit_time: None, respawn_at: None, ..n },
            );
        }
        i = i + 1;
    }
    assert(nodes@ =~= nodes_respawned(ns0, full_health, now));
}

/// The mushrooms after the respawn check: a mushroom whose time has come is
/// back (its timer cleared).
pub open spec fn mushrooms_respawned(ms: Seq<MushroomNode>, now: i64) -> Seq<MushroomNode> {
    Seq::new(
        ms.len(),
        |i: int|
            if ms[i].respawn_at matches Some(t) && now >= t {
                MushroomNode { respawn_at: None, ..ms[i] }
            } else {
                ms[i]
            },
    )
}

/// Brings back every picked mushroom whose respawn time has come.
pub fn respawn_mushrooms(mushrooms: &mut Vec<MushroomNode>, now: i64)
    ensures
        final(mushrooms)@ == mushrooms_respawned(old(mushrooms)@, now),
{
    let ghost ms0 = mushrooms@;
    let mut i: usize = 0;
    while i < mushrooms.len()
        invariant
            mushrooms@.len() == ms0.len(),
            i <= ms0.len(),
            forall|j: int| 0 <= j < i ==> mushrooms@[j] == mushrooms_respawned(ms0, now)[j],
            forall|j: int| i <= j < ms0.len() ==> mushrooms@[j] == ms0[j],
        decreases ms0.len() - i,
    {
        let m = mushrooms[i];
        let due = match m.respawn_at {
            Some(t) => now >= t,
            None => false,
        };
        if due {
            mushrooms.set(i, MushroomNode { respawn_at: None, ..m });
        }
        i = i + 1;
    }
    assert(mushrooms@ =~= mushrooms_respawned(ms0, now));
}

/// Checks for respawns: trees and stones back at the given full health,
/// mushrooms back.
pub fn check_resource_respawns(
    stones: &mut Vec<ResourceNode>,
    trees: &mut Vec<ResourceNode>,
    mushrooms: &mut Vec<MushroomNode>,
    tree_full_health: u32,
    now: i64,
)
    ensures
        final(stones)@ == nodes_respawned(old(stones)@, STONE_INITIAL_HEALTH, now),
        final(trees)@ == nodes_respawned(old(trees)@, tree_full_health, now),
        final(mushrooms)@ == mushrooms_respawned(old(mushrooms)@, now),
{
    respawn_resources(stones, STONE_INITIAL_HEALTH, now);
    respawn_resources(trees, tree_full_health, now);
    respawn_mushrooms(mushrooms, now);
}

/// What picking mushroom `m` leaves: one "Mushroom" item for the caller and
/// the mushroom gone for five minutes. A refused addition changes nothing.
pub open spec fn pick_outcome(
    rows: Seq<InventoryItem>,
    next: u64,
    defs: Seq<ItemDefinition>,
    p: PlayerId,
    m: MushroomNode,
    now: i64,
) -> (Seq<InventoryItem>, u64, MushroomNode, Result<(), GameError>) {
    let d = def_index_by_name(defs, "Mushroom"@);
    if d == -1 {
        (rows, next, m, Err(GameError::NamedDefinitionNotFound))
    } else {
        let (r2, n2, res) = add_item_outcome(rows, next, defs, p, defs[d].id, 1);
        if res is Ok {
            (
                r2,
                n2,
                MushroomNode {
                    respawn_at: Some(plus_secs(now, RESOURCE_RESPAWN_DURATION_SECS as int) as i64),
                    ..m
                },
                res,
            )
        } else {
            (rows, next, m, res)
        }
    }
}

/// Picks a mushroom the caller is close enough to.
pub fn interact_with_mushroom(
    store: &mut ItemStore,
    defs: &Vec<ItemDefinition>,
    p: PlayerId,
    mushroom: &mut MushroomNode,
    now: i64,
) -> (r: Result<(), GameError>)
    requires
        old(store).wf(),
        old(store).next_id() + MAX_NEW_STACKS < u64::MAX,
        now <= LATEST_TIME,
    ensures
        final(store).wf(),
        ({
            let (rows, next, m, res) = pick_outcome(
                old(store).rows(),
                old(store).next_id(),
                defs@,
                p,
                *old(mushroom),
                now,
            );
            final(store).rows() == rows && final(store).next_id() == next && *final(mushroom)
                == m && r == res
        }),
        r is Ok ==> qty_of(final(store).rows(), p, defs@[def_index_by_name(defs@, "Mushroom"@)].id)
            == qty_of(old(store).rows(), p, defs@[def_index_by_name(defs@, "Mushroom"@)].id) + 1,
{
    let name = String::from_str("Mushroom");
    let d = match find_def_by_name(defs, &name) {
        Some(d) => d,
        None => {
            return Err(GameError::NamedDefinitionNotFound);
        },
    };
    let def_id = defs[d].id;
    let saved = store.snapshot();
    let res = add_item_to_player_inventory(store, defs, p, def_id, 1);
    if res.is_err() {
        *store = saved;
        return res;
    }
    mushroom.respawn_at = Some(timestamp_plus_secs(now, RESOURCE_RESPAWN_DURATION_SECS));
    res
}

/// What starting a swing at `now_ms` leaves: the swing time recorded, and
/// the index of the equipped item's definition when it deals damage.
pub open spec fn swing_start_outcome(
    defs: Seq<ItemDefinition>,
    equip: Option<ActiveEquipment>,
    now_ms: u64,
) -> (Option<ActiveEquipment>, Result<Option<usize>, GameError>) {
    match equip {
        None => (equip, Err(GameError::EquipmentNotFound)),
        Some(e) => match e.equipped_item_def_id {
            None => (equip, Err(GameError::NothingEquipped)),
            Some(d) => if def_index(defs, d) == -1 {
                (equip, Err(GameError::DefinitionNotFound { def_id: d }))
            } else {
                (
                    Some(ActiveEquipment { swing_start_time_ms: now_ms, ..e }),
                    Ok(
                        match defs[def_index(defs, d)].damage {
                            Some(dmg) => if dmg > 0 {
                                Some(def_index(defs, d) as usize)
                            } else {
                                None
                            },
                            None => None,
                        },
                    ),
                )
            },
        },
    }
}

/// Starts a swing with the equipped item at `now_ms`: the swing time is
/// recorded. Returns the index of the item's definition when the item deals
/// damage, none when it deals none.
pub fn start_swing(
    defs: &Vec<ItemDefinition>,
    equip: &mut Option<ActiveEquipment>,
    now_ms: u64,
) -> (r: Result<Option<usize>, GameError>)
    ensures
        (*final(equip), r) == swing_start_outcome(defs@, *old(equip), now_ms),
{
    let mut e = match *equip {
        Some(e) => e,
        None => {
            return Err(GameError::EquipmentNotFound);
        },
    };
    let d = match e.equipped_item_def_id {
        Some(d) => d,
        None => {
            return Err(GameError::NothingEquipped);
        },
    };
    let di = match find_def(defs, d) {
        Some(di) => di,
        None => {
            return Err(GameError::DefinitionNotFound { def_id: d });
        },
    };
    e.swing_start_time_ms = now_ms;
    *equip = Some(e);
    match defs[di].damage {
        Some(dmg) => if dmg > 0 {
            Ok(Some(di))
        } else {
            Ok(None)
        },
        None => Ok(None),
    }
}

/// The kind of thing a swing can hit.
#[derive(Clone, Copy, Debug, PartialEq, Eq, Structural)]
pub enum TargetKind {
    Tree,
    Stone,
    Player,
}

/// What a swing hits.
#[derive(Clone, Copy, Debug, PartialEq, Eq, Structural)]
pub enum SwingTarget {
    Tree(u64),
    Stone(u64),
    Player(PlayerId),
}

/// The material a hit on a tree or stone yields.
#[derive(Clone, Copy, Debug, PartialEq, Eq, Structural)]
pub enum Yield {
    Wood,
    Stone,
}

/// Material a swing yields, and how much.
#[derive(Clone, Copy, Debug, PartialEq, Eq, Structural)]
pub struct Gain {
    pub material: Yield,
    pub quantity: u32,
}

/// The outcome of a swing: what is hit, the base damage, and the material
/// (and how much of it) the swinging player receives.
#[derive(Clone, Copy, Debug, PartialEq, Eq, Structural)]
pub struct SwingHit {
    pub target: SwingTarget,
    pub damage: u32,
    pub gain: Option<Gain>,
}

/// The tools with their own targeting rules.
#[derive(Clone, Copy, Debug, PartialEq, Eq, Structural)]
pub enum Tool {
    Pickaxe,
    Hatchet,
    Rock,
    Other,
}

/// The tool an item name stands for.
pub open spec fn tool_named(s: Seq<char>) -> Tool {
    if s == "Stone Pickaxe"@ {
        Tool::Pickaxe
    } else if s == "Stone Hatchet"@ {
        Tool::Hatchet
    } else if s == "Rock"@ {
        Tool::Rock
    } else {
        Tool::Other
    }
}

/// Reads an item name as a tool.
pub fn tool_of(name: &String) -> (t: Tool)
    ensures
        t == tool_named(name@),
{
    if *name == String::from_str("Stone Pickaxe") {
        Tool::Pickaxe
    } else if *name == String::from_str("Stone Hatchet") {
        Tool::Hatchet
    } else if *name == String::from_str("Rock") {
        Tool::Rock
    } else {
        Tool::Other
    }
}

/// What a swing of `tool` (base damage `damage`) hits, given the closest
/// tree, stone and player within the attack arc and which of them is closest
/// overall. A pickaxe prefers a stone, then a player, and yields Stone; a
/// hatchet prefers a tree, then a player, and yields Wood; a rock hits
/// whichever is closest for one damage and yields one Wood or Stone; any
/// other item hits whichever is closest and yields nothing.
pub open spec fn swing_hit(
    tool: Tool,
    damage: u32,
    tree: Option<u64>,
    stone: Option<u64>,
    player: Option<PlayerId>,
    nearest: Option<TargetKind>,
) -> Option<SwingHit> {
    match tool {
        Tool::Pickaxe => match stone {
            Some(s) => Some(
                SwingHit { target: SwingTarget::Stone(s), damage, gain: Some(Gain { material: Yield::Stone, quantity: damage }) },
            ),
            None => match player {
                Some(pl) => Some(SwingHit { target: SwingTarget::Player(pl), damage, gain: None }),
                None => None,
            },
        },
        Tool::Hatchet => match tree {
            Some(t) => Some(
                SwingHit { target: SwingTarget::Tree(t), damage, gain: Some(Gain { material: Yield::Wood, quantity: damage }) },
            ),
            None => match player {
                Some(pl) => Some(SwingHit { target: SwingTarget::Player(pl), damage, gain: None }),
                None => None,
            },
        },
        Tool::Rock => match nearest {
            Some(TargetKind::Tree) => match tree {
                Some(t) => Some(
                    SwingHit { target: SwingTarget::Tree(t), damage: 1, gain: Some(Gain { material: Yield::Wood, quantity: 1 }) },
                ),
                None => None,
            },
            Some(TargetKind::Stone) => match stone {
                Some(s) => Some(
                    SwingHit { target: SwingTarget::Stone(s), damage: 1, gain: Some(Gain { material: Yield::Stone, quantity: 1 }) },
                ),
                None => None,
            },
            Some(TargetKind::Player) => match player {
                Some(pl) => Some(SwingHit { target: SwingTarget::Player(pl), damage: 1, gain: None }),
                None => None,
            },
            None => None,
        },
        Tool::Other => match nearest {
            Some(TargetKind::Tree) => match tree {
                Some(t) => Some(SwingHit { target: SwingTarget::Tree(t), damage, gain: None }),
                None => None,
            },
            Some(TargetKind::Stone) => match stone {
                Some(s) => Some(SwingHit { target: SwingTarget::Stone(s), damage, gain: None }),
                None => None,
            },
            Some(TargetKind::Player) => match player {
                Some(pl) => Some(SwingHit { target: SwingTarget::Player(pl), damage, gain: None }),
                None => None,
            },
            None => None,
        },
    }
}

/// Decides what a swing of the named item hits (see `swing_hit`).
pub fn plan_swing(
    tool_name: &String,
    damage: u32,
    tree: Option<u64>,
    stone: Option<u64>,
    player: Option<PlayerId>,
    nearest: Option<TargetKind>,
) -> (r: Option<SwingHit>)
    ensures
        r == swing_hit(tool_named(tool_name@), damage, tree, stone, player, nearest),
        r matches Some(h) ==> swing_yield_fits(h),
{
    proof {
        law_swing_yield_fits_target(tool_named(tool_name@), damage, tree, stone, player, nearest);
    }
    let tool = tool_of(tool_name);
    match tool {
        Tool::Pickaxe => match stone {
            Some(s) => Some(
                SwingHit { target: SwingTarget::Stone(s), damage, gain: Some(Gain { material: Yield::Stone, quantity: damage }) },
            ),
            None => match player {
                Some(pl) => Some(SwingHit { target: SwingTarget::Player(pl), damage, gain: None }),
                None => None,
            },
        },
        Tool::Hatchet => match tree {
            Some(t) => Some(
                SwingHit { target: SwingTarget::Tree(t), damage, gain: Some(Gain { material: Yield::Wood, quantity: damage }) },
            ),
            None => match player {
                Some(pl) => Some(SwingHit { target: SwingTarget::Player(pl), damage, gain: None }),
                None => None,
            },
        },
        Tool::Rock => match nearest {
            Some(TargetKind::Tree) => match tree {
                Some(t) => Some(
                    SwingHit { target: SwingTarget::Tree(t), damage: 1, gain: Some(Gain { material: Yield::Wood, quantity: 1 }) },
                ),
                None => None,
            },
            Some(TargetKind::Stone) => match stone {
                Some(s) => Some(
                    SwingHit { target: SwingTarget::Stone(s), damage: 1, gain: Some(Gain { material: Yield::Stone, quantity: 1 }) },
                ),
                None => None,
            },
            Some(TargetKind::Player) => match player {
                Some(pl) => Some(SwingHit { target: SwingTarget::Player(pl), damage: 1, gain: None }),
                None => None,
            },
            None => None,
        },
        Tool::Other => match nearest {
            Some(TargetKind::Tree) => match tree {
                Some(t) => Some(SwingHit { target: SwingTarget::Tree(t), damage, gain: None }),
                None => None,
            },
            Some(TargetKind::Stone) => match stone {
                Some(s) => Some(SwingHit { target: SwingTarget::Stone(s), damage, gain: None }),
                None => None,
            },
            Some(TargetKind::Player) => match player {
                Some(pl) => Some(SwingHit { target: SwingTarget::Player(pl), damage, gain: None }),
                None => None,
            },
            None => None,
        },
    }
}

/// The item name of a yield.
pub open spec fn yield_name(y: Yield) -> Seq<char> {
    match y {
        Yield::Wood => "Wood"@,
        Yield::Stone => "Stone"@,
    }
}

/// What a swing's hit on a tree or stone leaves: the node damaged and, when
/// the swing yields material and its definition exists, the material added
/// to the swinging player (a failed addition keeps what it topped up, and
/// the hit stands).
pub open spec fn resource_hit_outcome(
    rows: Seq<InventoryItem>,
    next: u64,
    defs: Seq<ItemDefinition>,
    p: PlayerId,
    n: ResourceNode,
    hit: SwingHit,
    now: i64,
) -> (Seq<InventoryItem>, u64, ResourceNode) {
    let (r2, n2) = match hit.gain {
        Some(g) => {
            let d = def_index_by_name(defs, yield_name(g.material));
            if d == -1 {
                (rows, next)
            } else {
                let (r, nx, _res) = add_item_outcome(rows, next, defs, p, defs[d].id, g.quantity);
                (r, nx)
            }
        },
        None => (rows, next),
    };
    (r2, n2, after_hit(n, hit.damage, now))
}

/// Applies a swing's hit on a tree or stone for player `p`.
pub fn apply_resource_hit(
    store: &mut ItemStore,
    defs: &Vec<ItemDefinition>,
    p: PlayerId,
    node: &mut ResourceNode,
    hit: SwingHit,
    now: i64,
)
    requires
        old(store).wf(),
        old(store).next_id() + MAX_NEW_STACKS < u64::MAX,
        now <= LATEST_TIME,
    ensures
        final(store).wf(),
        (final(store).rows(), final(store).next_id(), *final(node)) == resource_hit_outcome(
            old(store).rows(),
            old(store).next_id(),
            defs@,
            p,
            *old(node),
            hit,
            now,
        ),
{
    hit_resource(node, hit.damage, now);
    if let Some(g) = hit.gain {
        let name = match g.material {
            Yield::Wood => String::from_str("Wood"),
            Yield::Stone => String::from_str("Stone"),
        };
        if let Some(d) = find_def_by_name(defs, &name) {
            let _res = add_item_to_player_inventory(store, defs, p, defs[d].id, g.quantity);
        }
    }
}

/// When a player killed by a swing at `now_micros` may respawn: five seconds
/// later, saturating at the end of the timestamp range.
pub fn combat_respawn_at(now_micros: i64) -> (r: i64)
    ensures
        r == (if now_micros + RESPAWN_DELAY_MICROS > i64::MAX {
            i64::MAX as int
        } else {
            now_micros + RESPAWN_DELAY_MICROS
        }),
{
    if now_micros > i64::MAX - RESPAWN_DELAY_MICROS {
        i64::MAX
    } else {
        now_micros + RESPAWN_DELAY_MICROS
    }
}

/// A tree or stone hit down to zero comes back exactly five minutes later,
/// at the given full health with its timers cleared.
pub proof fn law_depleted_node_respawns(n: ResourceNode, damage: u32, now: i64, t: i64, full: u32)
    requires
        damage >= n.health,
        now <= LATEST_TIME,
    ensures
        after_hit(n, damage, now).health == 0,
        node_due(after_hit(n, damage, now), t) <==> t >= plus_secs(
            now,
            RESOURCE_RESPAWN_DURATION_SECS as int,
        ),
        t >= plus_secs(now, RESOURCE_RESPAWN_DURATION_SECS as int) ==> nodes_respawned(
            seq![after_hit(n, damage, now)],
            full,
            t,
        )[0] == (ResourceNode { id: n.id, health: full, last_hit_time: None, respawn_at: None }),
        t < plus_secs(now, RESOURCE_RESPAWN_DURATION_SECS as int) ==> nodes_respawned(
            seq![after_hit(n, damage, now)],
            full,
            t,
        )[0] == after_hit(n, damage, now),
{
}

/// A hit that leaves health above zero does not start the respawn timer.
pub proof fn law_surviving_node_keeps_timer(n: ResourceNode, damage: u32, now: i64)
    requires
        damage < n.health,
    ensures
        after_hit(n, damage, now).health == n.health - damage,
        after_hit(n, damage, now).respawn_at == n.respawn_at,
        !node_due(after_hit(n, damage, now), now),
{
}

/// A picked mushroom comes back exactly five minutes later.
pub proof fn law_picked_mushroom_respawns(
    rows: Seq<InventoryItem>,
    next: u64,
    defs: Seq<ItemDefinition>,
    p: PlayerId,
    m: MushroomNode,
    now: i64,
    t: i64,
)
    requires
        pick_outcome(rows, next, defs, p, m, now).3 is Ok,
        now <= LATEST_TIME,
    ensures
        ({
            let m2 = pick_outcome(rows, next, defs, p, m, now).2;
            &&& t >= plus_secs(now, RESOURCE_RESPAWN_DURATION_SECS as int) ==> mushrooms_respawned(
                seq![m2],
                t,
            )[0] == (MushroomNode { respawn_at: None, ..m })
            &&& t < plus_secs(now, RESOURCE_RESPAWN_DURATION_SECS as int) ==> mushrooms_respawned(
                seq![m2],
                t,
            )[0] == m2
        }),
{
}

/// The drawn tile (`tx`, `ty`) when it is free, none when it is taken.
pub fn free_tile(tx: u32, ty: u32, occupied: &Vec<(u32, u32)>) -> (r: Option<(u32, u32)>)
    ensures
        r == (if occupied@.contains((tx, ty)) {
            None
        } else {
            Some((tx, ty))
        }),
{
    let mut i: usize = 0;
    while i < occupied.len()
        invariant
            i <= occupied@.len(),
            forall|j: int| 0 <= j < i ==> occupied@[j] != (tx, ty),
        decreases occupied.len() - i,
    {
        if occupied[i].0 == tx && occupied[i].1 == ty {
            assert(occupied@[i as int] == (tx, ty));
            return None;
        }
        i = i + 1;
    }
    Some((tx, ty))
}

/// Whether some occupied tile lies within the bounds.
pub open spec fn some_tile_taken(
    min_tile_x: u32,
    max_tile_x: u32,
    min_tile_y: u32,
    max_tile_y: u32,
    occupied: Seq<(u32, u32)>,
) -> bool {
    exists|t: (u32, u32)|
        occupied.contains(t) && min_tile_x <= t.0 < max_tile_x && min_tile_y <= t.1 < max_tile_y
}

/// Rolls a tile for a resource spawn within the bounds (x in
/// `min_tile_x..max_tile_x`, y likewise): none for empty bounds or a tile
/// already taken. Which tile is drawn is chance; with non-empty bounds and no
/// taken tile inside them, a tile is always found.
pub fn pick_spawn_tile(
    rng: &mut StdRng,
    min_tile_x: u32,
    max_tile_x: u32,
    min_tile_y: u32,
    max_tile_y: u32,
    occupied: &Vec<(u32, u32)>,
) -> (r: Option<(u32, u32)>)
    ensures
        min_tile_x >= max_tile_x || min_tile_y >= max_tile_y ==> r is None,
        min_tile_x < max_tile_x && min_tile_y < max_tile_y && !some_tile_taken(
            min_tile_x,
            max_tile_x,
            min_tile_y,
            max_tile_y,
            occupied@,
        ) ==> r is Some,
        r matches Some(t) ==> min_tile_x <= t.0 < max_tile_x && min_tile_y <= t.1 < max_tile_y
            && !occupied@.contains(t),
        min_tile_x >= max_tile_x || min_tile_y >= max_tile_y ==> *final(rng) == *old(rng),
{
    if min_tile_x >= max_tile_x || min_tile_y >= max_tile_y {
        return None;
    }
    let tx = std_gen_range(rng, min_tile_x, max_tile_x);
    let ty = std_gen_range(rng, min_tile_y, max_tile_y);
    free_tile(tx, ty, occupied)
}

/// One seeding attempt: draws a tile within the bounds and, when it is free
/// and `site_fits` accepts it (the terrain and spacing checks), records it as
/// occupied. Returns whether a resource is to be spawned on the recorded tile.
/// Empty bounds draw nothing and record nothing.
pub fn attempt_spawn_tile<F: Fn((u32, u32)) -> bool>(
    rng: &mut StdRng,
    min_tile_x: u32,
    max_tile_x: u32,
    min_tile_y: u32,
    max_tile_y: u32,
    occupied: &mut Vec<(u32, u32)>,
    site_fits: &F,
) -> (spawned: bool)
    requires
        forall|t: (u32, u32)| site_fits.requires((t,)),
    ensures
        min_tile_x >= max_tile_x || min_tile_y >= max_tile_y ==> !spawned && final(occupied)@
            == old(occupied)@ && *final(rng) == *old(rng),
        spawned ==> ({
            let t = final(occupied)@.last();
            &&& final(occupied)@ == old(occupied)@.push(t)
            &&& min_tile_x <= t.0 < max_tile_x && min_tile_y <= t.1 < max_tile_y
            &&& !old(occupied)@.contains(t)
            &&& site_fits.ensures((t,), true)
        }),
        !spawned ==> final(occupied)@ == old(occupied)@,
{
    match pick_spawn_tile(rng, min_tile_x, max_tile_x, min_tile_y, max_tile_y, occupied) {
        None => false,
        Some(t) => {
            if site_fits(t) {
                occupied.push(t);
                true
            } else {
                false
            }
        },
    }
}


/// Picking a mushroom adds it as an addition would, so no two of a player's
/// items end up in one slot.
pub proof fn law_pick_keeps_slots_distinct(
    rows: Seq<InventoryItem>,
    next: u64,
    defs: Seq<ItemDefinition>,
    p: PlayerId,
    m: MushroomNode,
    now: i64,
)
    requires
        slots_distinct(rows),
    ensures
        slots_distinct(pick_outcome(rows, next, defs, p, m, now).0),
{
    let d = def_index_by_name(defs, "Mushroom"@);
    if d != -1 {
        law_add_item_keeps_slots_distinct(rows, next, defs, p, defs[d].id, 1);
    }
}

/// A swing's hit on a tree or stone adds its yield as an addition would, so
/// no two of a player's items end up in one slot.
pub proof fn law_resource_hit_keeps_slots_distinct(
    rows: Seq<InventoryItem>,
    next: u64,
    defs: Seq<ItemDefinition>,
    p: PlayerId,
    n: ResourceNode,
    hit: SwingHit,
    now: i64,
)
    requires
        slots_distinct(rows),
    ensures
        slots_distinct(resource_hit_outcome(rows, next, defs, p, n, hit, now).0),
{
    if hit.gain is Some {
        let g = hit.gain->0;
        let d = def_index_by_name(defs, yield_name(g.material));
        if d != -1 {
            law_add_item_keeps_slots_distinct(rows, next, defs, p, defs[d].id, g.quantity);
        }
    }
}


/// A hit's yield fits what it hits: a stone yields Stone and a tree yields
/// Wood, as many as the hit's damage; a player yields nothing.
pub open spec fn swing_yield_fits(h: SwingHit) -> bool {
    match h.target {
        SwingTarget::Stone(_) => h.gain matches Some(g) ==> g.material == Yield::Stone && g.quantity
            == h.damage,
        SwingTarget::Tree(_) => h.gain matches Some(g) ==> g.material == Yield::Wood && g.quantity
            == h.damage,
        SwingTarget::Player(_) => h.gain is None,
    }
}

/// Whatever the tool and whatever lies in the arc, a swing's yield fits its
/// target; a swing hits only something that lies in the arc, and a tool
/// that gathers (pickaxe, hatchet, rock) always gathers from the stone or
/// tree it hits.
pub proof fn law_swing_yield_fits_target(
    tool: Tool,
    damage: u32,
    tree: Option<u64>,
    stone: Option<u64>,
    player: Option<PlayerId>,
    nearest: Option<TargetKind>,
)
    ensures
        swing_hit(tool, damage, tree, stone, player, nearest) matches Some(h) ==> {
            &&& swing_yield_fits(h)
            &&& h.target matches SwingTarget::Stone(s) ==> stone == Some(s)
            &&& h.target matches SwingTarget::Tree(t) ==> tree == Some(t)
            &&& h.target matches SwingTarget::Player(pl) ==> player == Some(pl)
            &&& tool != Tool::Other && !(h.target is Player) ==> h.gain is Some
            &&& tool == Tool::Other ==> h.gain is None
            &&& tool == Tool::Pickaxe ==> !(h.target is Tree) && h.damage == damage
            &&& tool == Tool::Hatchet ==> !(h.target is Stone) && h.damage == damage
            &&& tool == Tool::Rock ==> h.damage == 1 && (h.target is Tree ==> nearest == Some(
                TargetKind::Tree)) && (h.target is Stone ==> nearest == Some(TargetKind::Stone)) && (
            h.target is Player ==> nearest == Some(TargetKind::Player))
        },
        tool == Tool::Pickaxe && stone is Some ==> swing_hit(tool, damage, tree, stone, player, nearest)
            == Some(SwingHit { target: SwingTarget::Stone(stone->0), damage, gain: Some(Gain { material: Yield::Stone, quantity: damage }) }),
        tool == Tool::Hatchet && tree is Some ==> swing_hit(tool, damage, tree, stone, player, nearest)
            == Some(SwingHit { target: SwingTarget::Tree(tree->0), damage, gain: Some(Gain { material: Yield::Wood, quantity: damage }) }),
{
}

/// A successful pick gives the picker exactly one Mushroom and changes no
/// other holding; a refused pick changes nothing.
pub proof fn law_pick_gives_one_mushroom(
    rows: Seq<InventoryItem>,
    next: u64,
    defs: Seq<ItemDefinition>,
    p: PlayerId,
    m: MushroomNode,
    now: i64,
)
    ensures
        ({
            let (r, n, m2, res) = pick_outcome(rows, next, defs, p, m, now);
            let mid = defs[def_index_by_name(defs, "Mushroom"@)].id;
            &&& res is Ok ==> qty_of(r, p, mid) == qty_of(rows, p, mid) + 1
            &&& forall|p2: PlayerId, d2: u64|
                (p2 != p || d2 != mid) ==> #[trigger] qty_of(r, p2, d2) == qty_of(rows, p2, d2)
            &&& res is Err ==> r == rows && n == next && m2 == m
        }),
{
    let d = def_index_by_name(defs, "Mushroom"@);
    if d != -1 {
        law_add_item_grants(rows, next, defs, p, defs[d].id, 1);
    }
}

} // verus!
