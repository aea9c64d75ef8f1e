//! Changes that features, items and conditions make to a character.

use vstd::prelude::*;
use crate::ability::{Ability, Skill};
use crate::damage::DamageType;
use crate::item::{armor, weapon};
use crate::proficiency;
use crate::roll::{self, Roll};
use crate::copies::{copy_opt_text, copy_texts, copy_vec};

verus! {

/// A value that is either fixed by the content or chosen by the player.
pub enum Selector<T> {
    /// This exact value.
    Specific(T),
    /// One of `options`, chosen by the player; `id` names the choice.
    AnyOf { id: Option<String>, options: Vec<T> },
    /// Any value at all, chosen by the player; `id` names the choice.
    Any { id: Option<String> },
}

/// How a creature stands towards a damage type.
#[derive(Clone, Copy, Debug, PartialEq, Eq, Structural, PartialOrd, Ord, Hash)]
pub enum Defense {
    Resistance,
    Immunity,
    Vulnerability,
}

/// Raises the range of a sense (such as darkvision) to at least this many feet.
pub struct AddMaxSense(pub String, pub u32);

/// Raises the speed of a kind of movement to at least this many feet.
pub struct AddMaxSpeed(pub String, pub u32);

/// Adds years to the life expectancy.
#[derive(Clone, Copy, Debug, PartialEq, Eq, Structural)]
pub struct AddLifeExpectancy(pub u32);

/// Adds to the largest height of the character.
#[derive(Clone, Copy, Debug, PartialEq, Eq, Structural)]
pub enum AddMaxHeight {
    /// A fixed number of inches.
    Value(u32),
    /// A rolled number of inches.
    Roll(Roll),
}

/// Gives advantage or disadvantage on checks of a skill.
pub struct AddSkillModifier {
    pub skill: Skill,
    pub modifier: roll::Modifier,
    /// The situation in which it applies; always when none.
    pub criteria: Option<String>,
}

/// Grants proficiency in a skill.
pub struct AddSkill {
    pub skill: Selector<Skill>,
    pub proficiency: proficiency::Level,
}

/// Increases an ability score.
pub struct AddAbilityScore {
    pub ability: Selector<Ability>,
    pub value: u32,
}

/// Gives advantage on saving throws of an ability (all abilities when none).
pub struct AddSavingThrowModifier {
    pub ability: Option<Ability>,
    /// What the saving throws must be against; anything when none.
    pub target: Option<String>,
}

/// Grants a defense against a damage type (all damage when none).
pub struct AddDefense {
    pub defense: Defense,
    pub damage_type: Option<DamageType>,
}

/// Adds another way of computing armor class.
pub struct AddArmorClassFormula(pub armor::ArmorClassFormula);

/// Proficiency with a kind or class of weapon.
pub enum WeaponProficiency {
    Kind(weapon::Kind),
    Classification(String),
}

/// Grants a proficiency.
pub enum AddProficiency {
    SavingThrow(Ability),
    Skill(Selector<Skill>, proficiency::Level),
    Language(Selector<String>),
    Armor(armor::Kind),
    Weapon(WeaponProficiency),
}

/// Any one change to a character.
pub enum BoxedMutator {
    AddMaxSense(AddMaxSense),
    AddMaxSpeed(AddMaxSpeed),
    AddLifeExpectancy(AddLifeExpectancy),
    AddMaxHeight(AddMaxHeight),
    AddSkillModifier(AddSkillModifier),
    AddSkill(AddSkill),
    AddAbilityScore(AddAbilityScore),
    AddSavingThrowModifier(AddSavingThrowModifier),
    AddDefense(AddDefense),
    AddArmorClassFormula(AddArmorClassFormula),
    AddProficiency(AddProficiency),
}

/// Whether two choices of value are alike: the same value, or the same id and options.
pub open spec fn same_selector<T>(a: Selector<T>, b: Selector<T>) -> bool {
    match (a, b) {
        (Selector::Specific(x), Selector::Specific(y)) => x == y,
        (Selector::AnyOf { id: i1, options: o1 }, Selector::AnyOf { id: i2, options: o2 }) => i1 == i2 && o1@ == o2@,
        (Selector::Any { id: i1 }, Selector::Any { id: i2 }) => i1 == i2,
        _ => false,
    }
}

impl<T: Copy> Selector<T> {
    /// A copy of the choice.
    pub fn duplicate(&self) -> (r: Selector<T>)
        ensures
            same_selector(r, *self),
    {
        match self {
            Selector::Specific(x) => Selector::Specific(*x),
            Selector::AnyOf { id, options } => Selector::AnyOf { id: copy_opt_text(id), options: copy_vec(options) },
            Selector::Any { id } => Selector::Any { id: copy_opt_text(id) },
        }
    }
}

/// A copy of a choice of text.
pub fn duplicate_text_selector(s: &Selector<String>) -> (r: Selector<String>)
    ensures
        same_selector(r, *s),
{
    match s {
        Selector::Specific(x) => Selector::Specific(x.clone()),
        Selector::AnyOf { id, options } => Selector::AnyOf { id: copy_opt_text(id), options: copy_texts(options) },
        Selector::Any { id } => Selector::Any { id: copy_opt_text(id) },
    }
}

/// Whether two changes are alike in every part, lists by their contents.
pub open spec fn same_mutator(a: BoxedMutator, b: BoxedMutator) -> bool {
    match (a, b) {
        (BoxedMutator::AddSkill(x), BoxedMutator::AddSkill(y)) => same_selector(x.skill, y.skill)
            && x.proficiency == y.proficiency,
        (BoxedMutator::AddAbilityScore(x), BoxedMutator::AddAbilityScore(y)) => same_selector(x.ability, y.ability)
            && x.value == y.value,
        (BoxedMutator::AddArmorClassFormula(x), BoxedMutator::AddArmorClassFormula(y)) => armor::same_formula(x.0, y.0),
        (BoxedMutator::AddProficiency(x), BoxedMutator::AddProficiency(y)) => match (x, y) {
            (AddProficiency::Skill(s1, l1), AddProficiency::Skill(s2, l2)) => same_selector(s1, s2) && l1 == l2,
            (AddProficiency::Language(s1), AddProficiency::Language(s2)) => same_selector(s1, s2),
            _ => x == y,
        },
        _ => a == b,
    }
}

impl BoxedMutator {
    /// A copy of the change.
    pub fn duplicate(&self) -> (r: BoxedMutator)
        ensures
            same_mutator(r, *self),
    {
        match self {
            BoxedMutator::AddMaxSense(m) => BoxedMutator::AddMaxSense(AddMaxSense(m.0.clone(), m.1)),
            BoxedMutator::AddMaxSpeed(m) => BoxedMutator::AddMaxSpeed(AddMaxSpeed(m.0.clone(), m.1)),
            BoxedMutator::AddLifeExpectancy(m) => BoxedMutator::AddLifeExpectancy(*m),
            BoxedMutator::AddMaxHeight(m) => BoxedMutator::AddMaxHeight(*m),
            BoxedMutator::AddSkillModifier(m) => BoxedMutator::AddSkillModifier(
                AddSkillModifier { skill: m.skill, modifier: m.modifier, criteria: copy_opt_text(&m.criteria) },
            ),
            BoxedMutator::AddSkill(m) => BoxedMutator::AddSkill(
                AddSkill { skill: m.skill.duplicate(), proficiency: m.proficiency },
            ),
            BoxedMutator::AddAbilityScore(m) => BoxedMutator::AddAbilityScore(
                AddAbilityScore { ability: m.ability.duplicate(), value: m.value },
            ),
            BoxedMutator::AddSavingThrowModifier(m) => BoxedMutator::AddSavingThrowModifier(
                AddSavingThrowModifier { ability: m.ability, target: copy_opt_text(&m.target) },
            ),
            BoxedMutator::AddDefense(m) => BoxedMutator::AddDefense(
                AddDefense { defense: m.defense, damage_type: m.damage_type },
            ),
            BoxedMutator::AddArmorClassFormula(m) => BoxedMutator::AddArmorClassFormula(
                AddArmorClassFormula(m.0.duplicate()),
            ),
            BoxedMutator::AddProficiency(p) => BoxedMutator::AddProficiency(
                match p {
                    AddProficiency::SavingThrow(a) => AddProficiency::SavingThrow(*a),
                    AddProficiency::Skill(s, l) => AddProficiency::Skill(s.duplicate(), *l),
                    AddProficiency::Language(s) => AddProficiency::Language(duplicate_text_selector(s)),
                    AddProficiency::Armor(k) => AddProficiency::Armor(*k),
                    AddProficiency::Weapon(w) => AddProficiency::Weapon(
                        match w {
                            WeaponProficiency::Kind(k) => WeaponProficiency::Kind(*k),
                            WeaponProficiency::Classification(c) => WeaponProficiency::Classification(c.clone()),
                        },
                    ),
                },
            ),
        }
    }
}

} // verus!
