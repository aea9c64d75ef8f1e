use vstd::prelude::*;
use crate::ability::{Ability, Skill};
use crate::item::armor::{self, Armor, ArmorClassFormula, BoundedAbility};
use crate::item::{Equipment, Item, ItemKind};
use crate::mutator::{AddSkillModifier, BoxedMutator};
use crate::roll;

verus! {

/// Whether `r` is a suit of armor with exactly these properties; when `stealth_disadvantage`
/// holds, its only modifier is disadvantage on Stealth checks, otherwise it has none.
pub open spec fn is_armor_item(
    r: Item,
    name: Seq<char>,
    weight: u32,
    worth: u64,
    kind: armor::Kind,
    base: u32,
    bonuses: Seq<BoundedAbility>,
    min_strength_score: Option<u32>,
    stealth_disadvantage: bool,
) -> bool {
    &&& r.name@ == name
    &&& r.description is None
    &&& r.weight == weight
    &&& r.worth == worth
    &&& r.notes is None
    &&& r.kind matches ItemKind::Equipment(e)
    &&& e.weapon is None
    &&& e.armor matches Some(a)
    &&& a.kind == kind
    &&& a.formula.base == base
    &&& a.formula.bonuses@ == bonuses
    &&& a.min_strength_score == min_strength_score
    &&& if stealth_disadvantage {
        &&& e.modifiers@.len() == 1
        &&& e.modifiers@[0] matches BoxedMutator::AddSkillModifier(m)
        &&& m.skill == Skill::Stealth
        &&& m.modifier == roll::Modifier::Disadvantage
        &&& m.criteria is None
    } else {
        e.modifiers@.len() == 0
    }
}

fn stealth_disadvantage() -> (r: BoxedMutator)
    ensures
        r matches BoxedMutator::AddSkillModifier(m) && m.skill == Skill::Stealth
            && m.modifier == roll::Modifier::Disadvantage && m.criteria is None,
{
    BoxedMutator::AddSkillModifier(AddSkillModifier {
        skill: Skill::Stealth,
        modifier: roll::Modifier::Disadvantage,
        criteria: None,
    })
}

/// Leather armor: light, AC 11 + Dexterity modifier, 10 lb., 10 gold.
pub fn leather() -> (r: Item)
    ensures
        is_armor_item(r, "Leather Armor"@, 10, 1000, armor::Kind::Light, 11,
            seq![BoundedAbility { ability: Ability::Dexterity, min: None, max: None }], None, false),
{
    let bonuses = vec![BoundedAbility::unbounded(Ability::Dexterity)];
    assert(bonuses@ =~= seq![BoundedAbility { ability: Ability::Dexterity, min: None, max: None }]);
    let modifiers: Vec<BoxedMutator> = Vec::new();
    Item {
        name: "Leather Armor".to_owned(),
        description: None,
        weight: 10,
        worth: 1000,
        notes: None,
        kind: ItemKind::Equipment(Equipment {
            modifiers,
            armor: Some(Armor {
                kind: armor::Kind::Light,
                formula: ArmorClassFormula { base: 11, bonuses },
                min_strength_score: None,
            }),
            weapon: None,
        }),
    }
}

/// Scale mail: medium, AC 14 + Dexterity modifier (max 2), disadvantage on Stealth, 45 lb., 50 gold.
pub fn scale_mail() -> (r: Item)
    ensures
        is_armor_item(r, "Scale Mail"@, 45, 5000, armor::Kind::Medium, 14,
            seq![BoundedAbility { ability: Ability::Dexterity, min: None, max: Some(2) }], None, true),
{
    let bonuses = vec![BoundedAbility { ability: Ability::Dexterity, max: Some(2), min: None }];
    assert(bonuses@ =~= seq![BoundedAbility { ability: Ability::Dexterity, min: None, max: Some(2) }]);
    Item {
        name: "Scale Mail".to_owned(),
        description: None,
        weight: 45,
        worth: 5000,
        notes: None,
        kind: ItemKind::Equipment(Equipment {
            modifiers: vec![stealth_disadvantage()],
            armor: Some(Armor {
                kind: armor::Kind::Medium,
                formula: ArmorClassFormula { base: 14, bonuses },
                min_strength_score: None,
            }),
            weapon: None,
        }),
    }
}

/// Splint armor: heavy, AC 17, Strength 15 needed, disadvantage on Stealth, 60 lb., 200 gold.
pub fn splint() -> (r: Item)
    ensures
        is_armor_item(r, "Splint"@, 60, 20000, armor::Kind::Heavy, 17, Seq::empty(), Some(15), true),
{
    let bonuses: Vec<BoundedAbility> = Vec::new();
    assert(bonuses@ =~= Seq::<BoundedAbility>::empty());
    Item {
        name: "Splint".to_owned(),
        description: None,
        weight: 60,
        worth: 20000,
        notes: None,
        kind: ItemKind::Equipment(Equipment {
            modifiers: vec![stealth_disadvantage()],
            armor: Some(Armor {
                kind: armor::Kind::Heavy,
                formula: ArmorClassFormula { base: 17, bonuses },
                min_strength_score: Some(15),
            }),
            weapon: None,
        }),
    }
}

} // verus!
