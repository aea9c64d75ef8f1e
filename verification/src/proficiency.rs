//! Proficiency: its levels, the proficiency bonus and the bonuses derived from it.

use vstd::prelude::*;

verus! {

/// How proficient a creature is with a check, save or tool.
#[derive(Clone, Copy, Debug, PartialEq, Eq, Structural, PartialOrd, Ord, Hash)]
pub enum Level {
    NotProficient,
    HalfDown,
    HalfUp,
    Full,
    Double,
}

/// The part of the proficiency bonus `bonus` that a proficiency level adds to a roll.
pub open spec fn spec_level_bonus(level: Level, bonus: int) -> int {
    match level {
        Level::NotProficient => 0,
        Level::HalfDown => bonus / 2,
        Level::HalfUp => (bonus + 1) / 2,
        Level::Full => bonus,
        Level::Double => 2 * bonus,
    }
}

impl Level {
    /// The amount this level adds to a roll, given the proficiency bonus
    /// (halved rounding down or up, whole, or doubled).
    pub fn bonus(&self, proficiency_bonus: u32) -> (r: u32)
        requires
            proficiency_bonus <= u32::MAX / 2,
        ensures
            r == spec_level_bonus(*self, proficiency_bonus as int),
    {
        match self {
            Level::NotProficient => 0,
            Level::HalfDown => proficiency_bonus / 2,
            Level::HalfUp => (proficiency_bonus + 1) / 2,
            Level::Full => proficiency_bonus,
            Level::Double => 2 * proficiency_bonus,
        }
    }
}

/// The proficiency bonus of a character of the given total level:
/// +2 at levels 1-4, +3 at 5-8, +4 at 9-12, +5 at 13-16 and +6 from level 17 on.
pub open spec fn spec_proficiency_bonus(character_level: nat) -> nat {
    if character_level <= 4 {
        2
    } else if character_level <= 8 {
        3
    } else if character_level <= 12 {
        4
    } else if character_level <= 16 {
        5
    } else {
        6
    }
}

/// The proficiency bonus that a character of this total level has.
pub fn proficiency_bonus(character_level: u32) -> (r: u32)
    ensures
        r == spec_proficiency_bonus(character_level as nat),
{
    if character_level <= 4 {
        2
    } else if character_level <= 8 {
        3
    } else if character_level <= 12 {
        4
    } else if character_level <= 16 {
        5
    } else {
        6
    }
}

/// The bonus never shrinks as a character gains levels.
pub proof fn lemma_proficiency_bonus_monotonic(a: nat, b: nat)
    requires
        a <= b,
    ensures
        spec_proficiency_bonus(a) <= spec_proficiency_bonus(b),
{
}

/// The rows of the proficiency bonus table: first level, last level (none for the open row) and bonus.
pub open spec fn spec_level_map() -> Seq<(u32, Option<u32>, u32)> {
    seq![(1u32, Some(4u32), 2u32), (5, Some(8), 3), (9, Some(12), 4), (13, Some(16), 5), (17, None, 6)]
}

/// The table of proficiency bonuses by character level, as shown to the player.
pub fn level_map() -> (r: Vec<(u32, Option<u32>, u32)>)
    ensures
        r@ == spec_level_map(),
{
    let r = vec![(1u32, Some(4u32), 2u32), (5, Some(8), 3), (9, Some(12), 4), (13, Some(16), 5), (17, None, 6)];
    assert(r@ =~= spec_level_map());
    r
}

/// Each row of the table agrees with the bonus of every level it covers.
pub proof fn lemma_level_map_agrees(row: int, character_level: nat)
    requires
        0 <= row < spec_level_map().len(),
        spec_level_map()[row].0 <= character_level,
        spec_level_map()[row].1 matches Some(last) ==> character_level <= last,
    ensures
        spec_proficiency_bonus(character_level) == spec_level_map()[row].2,
{
}

/// A flat bonus to a roll, which applies always or only in some situation.
#[derive(Clone, Debug)]
pub struct Bonus {
    pub value: i32,
    /// The situation in which the bonus applies; `None` when it always applies.
    pub context: Option<String>,
}

/// Sum of the bonuses that always apply (those without a context).
pub open spec fn contextless_sum(bonuses: Seq<Bonus>) -> int
    decreases bonuses.len(),
{
    if bonuses.len() == 0 {
        0
    } else {
        contextless_sum(bonuses.drop_last()) + match bonuses.last().context {
            None => bonuses.last().value as int,
            Some(_) => 0,
        }
    }
}

proof fn lemma_contextless_sum_bound(bonuses: Seq<Bonus>)
    ensures
        -(bonuses.len() * 0x8000_0000) <= contextless_sum(bonuses) <= bonuses.len() * 0x8000_0000,
    decreases bonuses.len(),
{
    if bonuses.len() > 0 {
        lemma_contextless_sum_bound(bonuses.drop_last());
    }
}

/// The total modifier of a check or saving throw: the ability modifier, the part of the
/// proficiency bonus that the proficiency level grants, and every bonus that has no context.
pub open spec fn spec_check_modifier(
    ability_modifier: int,
    level: Level,
    proficiency_bonus: int,
    bonuses: Seq<Bonus>,
) -> int {
    ability_modifier + spec_level_bonus(level, proficiency_bonus) + contextless_sum(bonuses)
}

/// The modifier added to a d20 for a check or saving throw; bonuses with a context are left out.
pub fn check_modifier(
    ability_modifier: i32,
    level: Level,
    proficiency_bonus: u32,
    bonuses: &Vec<Bonus>,
) -> (r: i64)
    requires
        proficiency_bonus <= u32::MAX / 2,
        bonuses.len() < 0x1000_0000,
    ensures
        r == spec_check_modifier(ability_modifier as int, level, proficiency_bonus as int, bonuses@),
{
    let mut total: i64 = ability_modifier as i64 + level.bonus(proficiency_bonus) as i64;
    let mut i: usize = 0;
    while i < bonuses.len()
        invariant
            i <= bonuses@.len(),
            bonuses@.len() < 0x1000_0000,
            total == ability_modifier + spec_level_bonus(level, proficiency_bonus as int)
                + contextless_sum(bonuses@.take(i as int)),
        decreases bonuses@.len() - i,
    {
        proof {
            assert(bonuses@.take(i as int + 1).drop_last() =~= bonuses@.take(i as int));
            lemma_contextless_sum_bound(bonuses@.take(i as int + 1));
        }
        if bonuses[i].context.is_none() {
            total = total + bonuses[i].value as i64;
        }
        i = i + 1;
    }
    assert(bonuses@.take(bonuses@.len() as int) =~= bonuses@);
    total
}

/// The bonus to a spell attack roll: the casting ability's modifier plus the full proficiency bonus.
pub fn spell_attack_bonus(ability_modifier: i32, proficiency_bonus: u32) -> (r: i64)
    requires
        proficiency_bonus <= u32::MAX / 2,
    ensures
        r == ability_modifier + proficiency_bonus,
{
    ability_modifier as i64 + proficiency_bonus as i64
}

/// The difficulty class of a spell's saving throw: 8 plus the spell attack bonus.
pub fn spell_save_dc(ability_modifier: i32, proficiency_bonus: u32) -> (r: i64)
    requires
        proficiency_bonus <= u32::MAX / 2,
    ensures
        r == 8 + ability_modifier + proficiency_bonus,
{
    8 + spell_attack_bonus(ability_modifier, proficiency_bonus)
}

/// The proficiency bonus grows by one every four levels, from +2 at level 1 to +6 at level 17
/// and above, and never falls as the level rises.
pub proof fn law_proficiency_bonus_steps(level: nat, higher: nat)
    ensures
        1 <= level <= 20 ==> spec_proficiency_bonus(level) == 2 + (level - 1) / 4,
        level >= 17 ==> spec_proficiency_bonus(level) == 6,
        level <= higher ==> spec_proficiency_bonus(level) <= spec_proficiency_bonus(higher),
{
}

/// The levels of proficiency add, in order, nothing, half the bonus rounded down, half rounded
/// up, the bonus, and twice the bonus; for a bonus of zero or more each adds at least as much as
/// the one before.
pub proof fn law_level_bonus_order(bonus: int)
    requires
        bonus >= 0,
    ensures
        spec_level_bonus(Level::NotProficient, bonus) == 0,
        2 * spec_level_bonus(Level::HalfDown, bonus) <= bonus < 2 * spec_level_bonus(Level::HalfDown, bonus) + 2,
        spec_level_bonus(Level::HalfUp, bonus) == bonus - spec_level_bonus(Level::HalfDown, bonus),
        spec_level_bonus(Level::Full, bonus) == bonus,
        spec_level_bonus(Level::Double, bonus) == bonus + bonus,
        spec_level_bonus(Level::NotProficient, bonus) <= spec_level_bonus(Level::HalfDown, bonus)
            <= spec_level_bonus(Level::HalfUp, bonus) <= spec_level_bonus(Level::Full, bonus)
            <= spec_level_bonus(Level::Double, bonus),
{
}

} // verus!
