use vstd::prelude::*;
use rand::rngs::ThreadRng;
use crate::random::thread_gen_range;

verus! {

/// Most enemies the world holds at once.
pub const MAX_ENEMIES: u32 = 50;

/// Time between two attacks of an enemy, in microseconds.
pub const ENEMY_ATTACK_COOLDOWN_MICROS: i64 = 1_000_000;

/// The kinds of enemy.
#[derive(Clone, Copy, Debug, PartialEq, Eq, Structural)]
pub enum EnemyType {
    /// Standard stats.
    Basic,
    /// Faster, less health.
    Fast,
    /// Slower, more health.
    Tank,
    /// Balanced but stronger.
    Elite,
}

/// The kind a roll in 0..4 gives (Basic for a roll out of range).
pub open spec fn enemy_type_of_roll(roll: u32) -> EnemyType {
    if roll == 1 {
        EnemyType::Fast
    } else if roll == 2 {
        EnemyType::Tank
    } else if roll == 3 {
        EnemyType::Elite
    } else {
        EnemyType::Basic
    }
}

/// The kind a roll gives.
pub fn enemy_type_for_roll(roll: u32) -> (t: EnemyType)
    ensures
        t == enemy_type_of_roll(roll),
{
    if roll == 1 {
        EnemyType::Fast
    } else if roll == 2 {
        EnemyType::Tank
    } else if roll == 3 {
        EnemyType::Elite
    } else {
        EnemyType::Basic
    }
}

/// Picks the kind of a new enemy at random.
pub fn random_enemy_type(rng: &mut ThreadRng) -> (t: EnemyType)
    ensures
        exists|roll: u32| roll < 4 && t == enemy_type_of_roll(roll),
{
    let roll = thread_gen_range(rng, 0, 4);
    enemy_type_for_roll(roll)
}

/// Whether more enemies may spawn while `count` are in the world.
pub fn may_spawn_enemies(count: u32) -> (r: bool)
    ensures
        r == (count < MAX_ENEMIES),
{
    count < MAX_ENEMIES
}

/// Whether an enemy that last attacked at `last_attack` (if ever) may
/// attack again at `now`: a full second must have passed.
pub fn enemy_can_attack(last_attack: Option<i64>, now: i64) -> (r: bool)
    ensures
        r == match last_attack {
            Some(t) => now >= t && now - t >= ENEMY_ATTACK_COOLDOWN_MICROS,
            None => true,
        },
{
    match last_attack {
        Some(t) => now >= t && (now as i128 - t as i128) >= ENEMY_ATTACK_COOLDOWN_MICROS as i128,
        None => true,
    }
}

/// Experience for killing an enemy of the kind, in percent of the base:
/// Basic 100, Fast 120, Tank 150, Elite 200.
pub fn kill_experience_percent(t: EnemyType) -> (r: u32)
    ensures
        r == match t {
            EnemyType::Basic => 100u32,
            EnemyType::Fast => 120u32,
            EnemyType::Tank => 150u32,
            EnemyType::Elite => 200u32,
        },
{
    match t {
        EnemyType::Basic => 100,
        EnemyType::Fast => 120,
        EnemyType::Tank => 150,
        EnemyType::Elite => 200,
    }
}

} // verus!
