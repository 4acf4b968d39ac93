use vstd::prelude::*;
use rand::rngs::StdRng;
use crate::types::PlayerId;
use crate::random::std_gen_range;
use crate::errors::GameError;

verus! {

/// How rare a buff is.
#[derive(Clone, Copy, Debug, PartialEq, Eq, Structural)]
pub enum BuffRarity {
    Common,
    Uncommon,
    Rare,
    Epic,
    Legendary,
}

/// The stat a buff improves.
#[derive(Clone, Copy, Debug, PartialEq, Eq, Structural)]
pub enum BuffType {
    /// Percentage increase of health.
    Health,
    /// Percentage increase of attack.
    Attack,
    /// Percentage increase of attack speed.
    AttackSpeed,
    /// Percentage increase of move speed.
    MoveSpeed,
    /// Flat health per ten seconds.
    HpRegen,
    /// Percentage damage reduction.
    Armor,
}

/// A buff offered to a player. Its strength is in tenths: 3 tenths of
/// Attack is a 30% increase, 20 tenths of HpRegen is 2 health per ten seconds.
#[derive(Clone, Copy, Debug, PartialEq, Eq, Structural)]
pub struct Buff {
    pub id: u64,
    pub player_id: PlayerId,
    pub kind: BuffType,
    pub tenths: u32,
    pub rarity: BuffRarity,
}

/// The rarity a roll in 0..100 gives: 50% Common, 25% Uncommon, 15% Rare,
/// 8% Epic, 2% Legendary.
pub open spec fn rarity_of_roll(roll: u32) -> BuffRarity {
    if roll <= 49 {
        BuffRarity::Common
    } else if roll <= 74 {
        BuffRarity::Uncommon
    } else if roll <= 89 {
        BuffRarity::Rare
    } else if roll <= 97 {
        BuffRarity::Epic
    } else if roll <= 99 {
        BuffRarity::Legendary
    } else {
        BuffRarity::Common
    }
}

/// The rarity a roll gives.
pub fn rarity_for_roll(roll: u32) -> (r: BuffRarity)
    ensures
        r == rarity_of_roll(roll),
{
    if roll <= 49 {
        BuffRarity::Common
    } else if roll <= 74 {
        BuffRarity::Uncommon
    } else if roll <= 89 {
        BuffRarity::Rare
    } else if roll <= 97 {
        BuffRarity::Epic
    } else if roll <= 99 {
        BuffRarity::Legendary
    } else {
        BuffRarity::Common
    }
}

/// Rolls a rarity in 0..100 with the generator.
pub fn get_random_rarity(rng: &mut StdRng) -> (r: BuffRarity)
    ensures
        exists|roll: u32| roll < 100 && r == rarity_of_roll(roll),
{
    let roll = std_gen_range(rng, 0, 100);
    rarity_for_roll(roll)
}

/// The rank of a rarity, 1 (Common) to 5 (Legendary).
pub open spec fn rarity_rank(r: BuffRarity) -> u32 {
    match r {
        BuffRarity::Common => 1,
        BuffRarity::Uncommon => 2,
        BuffRarity::Rare => 3,
        BuffRarity::Epic => 4,
        BuffRarity::Legendary => 5,
    }
}

/// The buff a roll in 0..6 and a rarity give: the kind by the roll, the
/// strength by the rarity (a tenth per rank; a whole health per rank for
/// HpRegen). A roll out of range gives a tenth of Health.
pub open spec fn buff_of_roll(roll: u32, rarity: BuffRarity) -> (BuffType, u32) {
    let rank = rarity_rank(rarity);
    if roll == 0 {
        (BuffType::Health, rank)
    } else if roll == 1 {
        (BuffType::Attack, rank)
    } else if roll == 2 {
        (BuffType::AttackSpeed, rank)
    } else if roll == 3 {
        (BuffType::MoveSpeed, rank)
    } else if roll == 4 {
        (BuffType::HpRegen, (10 * rank) as u32)
    } else if roll == 5 {
        (BuffType::Armor, rank)
    } else {
        (BuffType::Health, 1u32)
    }
}

fn rank_of(rarity: BuffRarity) -> (r: u32)
    ensures
        r == rarity_rank(rarity),
{
    match rarity {
        BuffRarity::Common => 1,
        BuffRarity::Uncommon => 2,
        BuffRarity::Rare => 3,
        BuffRarity::Epic => 4,
        BuffRarity::Legendary => 5,
    }
}

/// The buff a roll and a rarity give.
pub fn buff_for_roll(roll: u32, rarity: BuffRarity) -> (r: (BuffType, u32))
    ensures
        r == buff_of_roll(roll, rarity),
{
    let rank = rank_of(rarity);
    if roll == 0 {
        (BuffType::Health, rank)
    } else if roll == 1 {
        (BuffType::Attack, rank)
    } else if roll == 2 {
        (BuffType::AttackSpeed, rank)
    } else if roll == 3 {
        (BuffType::MoveSpeed, rank)
    } else if roll == 4 {
        (BuffType::HpRegen, 10 * rank)
    } else if roll == 5 {
        (BuffType::Armor, rank)
    } else {
        (BuffType::Health, 1)
    }
}

/// Rolls a buff kind in 0..6 with the generator, at the given rarity.
pub fn get_random_buff(rng: &mut StdRng, rarity: BuffRarity) -> (r: (BuffType, u32))
    ensures
        exists|roll: u32| roll < 6 && r == buff_of_roll(roll, rarity),
{
    let roll = std_gen_range(rng, 0, 6);
    buff_for_roll(roll, rarity)
}

/// Index of the buff with the given id, or -1.
pub open spec fn buff_index(buffs: Seq<Buff>, id: u64) -> int {
    if exists|i: int| 0 <= i < buffs.len() && buffs[i].id == id {
        choose|i: int|
            0 <= i < buffs.len() && buffs[i].id == id && forall|j: int| 0 <= j < i ==> buffs[j].id != id
    } else {
        -1
    }
}

/// The buffs among the first `k` that belong to other players.
pub open spec fn others_buffs(buffs: Seq<Buff>, p: PlayerId, k: int) -> Seq<Buff>
    decreases k,
{
    if k <= 0 {
        Seq::empty()
    } else if buffs[k - 1].player_id == p {
        others_buffs(buffs, p, k - 1)
    } else {
        others_buffs(buffs, p, k - 1).push(buffs[k - 1])
    }
}

/// What selecting buff `id` leaves: the caller's buff is returned and all
/// buffs offered to the caller are withdrawn.
pub open spec fn select_outcome(buffs: Seq<Buff>, p: PlayerId, id: u64) -> (Seq<Buff>, Result<
    Buff,
    GameError,
>) {
    let i = buff_index(buffs, id);
    if i == -1 {
        (buffs, Err(GameError::BuffNotFound { buff_id: id }))
    } else if buffs[i].player_id != p {
        (buffs, Err(GameError::BuffNotOwned))
    } else {
        (others_buffs(buffs, p, buffs.len() as int), Ok(buffs[i]))
    }
}

/// Selects the caller's offered buff `buff_id`: returns it (for its effect
/// on the caller's stats) and withdraws all buffs offered to the caller.
pub fn select_buff(buffs: &mut Vec<Buff>, p: PlayerId, buff_id: u64) -> (r: Result<Buff, GameError>)
    ensures
        (final(buffs)@, r) == select_outcome(old(buffs)@, p, buff_id),
{
    let ghost b0 = buffs@;
    let ghost out = select_outcome(b0, p, buff_id);
    let bi = match find_buff(buffs, buff_id) {
        Some(bi) => bi,
        None => {
            assert(out == (b0, Err::<Buff, GameError>(GameError::BuffNotFound { buff_id })));
            return Err(GameError::BuffNotFound { buff_id });
        },
    };
    let chosen = buffs[bi];
    if chosen.player_id != p {
        assert(out == (b0, Err::<Buff, GameError>(GameError::BuffNotOwned)));
        return Err(GameError::BuffNotOwned);
    }
    assert(out == (others_buffs(b0, p, b0.len() as int), Ok::<Buff, GameError>(chosen)));
    *buffs = buffs_of_others(buffs, p);
    Ok(chosen)
}

fn buffs_of_others(buffs: &Vec<Buff>, p: PlayerId) -> (r: Vec<Buff>)
    ensures
        r@ == others_buffs(buffs@, p, buffs@.len() as int),
{
    let mut kept: Vec<Buff> = Vec::new();
    let mut k: usize = 0;
    while k < buffs.len()
        invariant
            k <= buffs@.len(),
            kept@ == others_buffs(buffs@, p, k as int),
        decreases buffs@.len() - k,
    {
        if buffs[k].player_id != p {
            kept.push(buffs[k]);
        }
        k = k + 1;
    }
    kept
}

fn find_buff(buffs: &Vec<Buff>, id: u64) -> (r: Option<usize>)
    ensures
        match r {
            Some(i) => i == buff_index(buffs@, id) && i < buffs.len(),
            None => buff_index(buffs@, id) == -1,
        },
{
    let mut i: usize = 0;
    while i < buffs.len()
        invariant
            i <= buffs.len(),
            forall|j: int| 0 <= j < i ==> buffs@[j].id != id,
        decreases buffs.len() - i,
    {
        if buffs[i].id == id {
            assert(exists|k: int| 0 <= k < buffs.len() && buffs@[k].id == id);
            let ghost c = buff_index(buffs@, id);
            assert(c == i as int) by {
                if c < i {
                } else if c > i {
                }
            }
            return Some(i);
        }
        i = i + 1;
    }
    None
}

} // verus!
