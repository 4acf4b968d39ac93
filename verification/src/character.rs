use vstd::prelude::*;
use crate::types::PlayerId;
use crate::errors::GameError;

verus! {

/// The playable characters.
#[derive(Clone, Copy, Debug, PartialEq, Eq, Structural)]
pub enum CharacterType {
    /// Tank: more health.
    Til,
    /// Runner: faster movement.
    Marc,
    /// Fighter: faster attacks.
    Max,
    /// All-rounder: faster health regeneration.
    Chris,
}

/// A stat a character bonus scales.
#[derive(Clone, Copy, Debug, PartialEq, Eq, Structural)]
pub enum StatKind {
    Health,
    MoveSpeed,
    AttackSpeed,
    HpRegen,
}

/// A player's chosen character.
#[derive(Clone, Copy, Debug, PartialEq, Eq, Structural)]
pub struct Character {
    pub player_id: PlayerId,
    pub character_type: CharacterType,
}

/// The stat a character scales and by how much, in percent of the base:
/// Til 150% health, Marc 130% move speed, Max 140% attack speed, Chris 200%
/// health regeneration.
pub open spec fn bonus_of(t: CharacterType) -> (StatKind, u32) {
    match t {
        CharacterType::Til => (StatKind::Health, 150),
        CharacterType::Marc => (StatKind::MoveSpeed, 130),
        CharacterType::Max => (StatKind::AttackSpeed, 140),
        CharacterType::Chris => (StatKind::HpRegen, 200),
    }
}

/// The stat a character scales and by how much (percent of the base).
pub fn character_bonus(t: CharacterType) -> (r: (StatKind, u32))
    ensures
        r == bonus_of(t),
{
    match t {
        CharacterType::Til => (StatKind::Health, 150),
        CharacterType::Marc => (StatKind::MoveSpeed, 130),
        CharacterType::Max => (StatKind::AttackSpeed, 140),
        CharacterType::Chris => (StatKind::HpRegen, 200),
    }
}

/// Selects the caller's character, once: returns the new row for insertion.
pub fn select_character(
    characters: &Vec<Character>,
    p: PlayerId,
    character_type: CharacterType,
) -> (r: Result<Character, GameError>)
    ensures
        (exists|i: int| 0 <= i < characters@.len() && characters@[i].player_id == p) ==> r
            == Err::<Character, GameError>(GameError::CharacterAlreadySelected),
        !(exists|i: int| 0 <= i < characters@.len() && characters@[i].player_id == p) ==> r
            == Ok::<Character, GameError>(Character { player_id: p, character_type }),
{
    let mut i: usize = 0;
    while i < characters.len()
        invariant
            i <= characters@.len(),
            forall|j: int| 0 <= j < i ==> characters@[j].player_id != p,
        decreases characters.len() - i,
    {
        if characters[i].player_id == p {
            return Err(GameError::CharacterAlreadySelected);
        }
        i = i + 1;
    }
    Ok(Character { player_id: p, character_type })
}

} // verus!
