//! Classes.

use vstd::prelude::*;
use crate::ability::{Ability, Skill};
use crate::character::{Class, Feature, Level, Subclass};
use crate::condition::{Condition, Custom, RAGING_TEXT};
use crate::criteria::{BoxedCriteria, HasArmorEquipped};
use crate::damage::DamageType;
use crate::item::armor::{self, ArmorClassFormula, BoundedAbility};
use crate::item::weapon;
use crate::mutator::{
    AddArmorClassFormula, AddDefense, AddProficiency, AddSavingThrowModifier, BoxedMutator, Defense,
    Selector, WeaponProficiency,
};
use crate::proficiency;
use crate::roll::Die;

verus! {

/// The opening of the Rage feature's description.
pub const RAGE_INTRO_TEXT: &'static str = "In battle, you fight with primal ferocity. On your turn, you can enter a rage as a bonus action.\n";

/// The close of the Rage feature's description.
pub const RAGE_OUTRO_TEXT: &'static str = "\nYour rage lasts for 1 minute. It ends early if you are knocked unconscious or if your turn ends and you haven't attacked \
				a hostile creature since your last turn or taken damage since then. You can also end your rage on your turn as a bonus action.

				Once you have used all your rages, you must finish a long rest before you can rage again.";

/// The description of Unarmored Defense.
pub const UNARMORED_DEFENSE_TEXT: &'static str = "While you are not wearing any armor, your Armor Class equals 10 + your Dexterity modifier + your Constitution modifier. You can use a shield and still gain this benefit.";

/// The description of Reckless Attack.
pub const RECKLESS_ATTACK_TEXT: &'static str = "Starting at 2nd level, you can throw aside all concern for defense \
					to attack with fierce desperation. When you make your first attack on your turn, \
					you can decide to attack recklessly. Doing so gives you advantage on melee weapon \
					attack rolls using Strength during this turn, but attack rolls against you have \
					advantage until your next turn.";

/// The description of Danger Sense.
pub const DANGER_SENSE_TEXT: &'static str = "At 2nd level, you gain an uncanny sense of when things nearby aren't \
						as they should be, giving you an edge when you dodge away from danger.
						You have advantage on Dexterity saving throws against effects that you can see, \
						such as traps and spells. To gain this benefit, you can't be blinded, deafened, or incapacitated.";

/// The description of Extra Attack.
pub const EXTRA_ATTACK_TEXT: &'static str = "Beginning at 5th level, you can attack twice, instead of once, \
					whenever you take the Attack action on your turn.";

/// The description of Fast Movement.
pub const FAST_MOVEMENT_TEXT: &'static str = "Starting at 5th level, your speed increases by 10 feet \
				while you aren't wearing heavy armor.";

/// The skills a barbarian may choose proficiency in.
pub open spec fn barbarian_skill_options() -> Seq<Skill> {
    seq![Skill::AnimalHandling, Skill::Athletics, Skill::Intimidation, Skill::Nature, Skill::Perception, Skill::Survival]
}

/// Whether a change grants full proficiency in one barbarian skill, chosen under `id`.
pub open spec fn grants_skill_choice(m: BoxedMutator, id: Seq<char>) -> bool {
    m matches BoxedMutator::AddProficiency(AddProficiency::Skill(Selector::AnyOf { id: Some(i), options }, level))
        && i@ == id && options@ == barbarian_skill_options() && level == proficiency::Level::Full
}

/// Whether a requirement is that no armor of the listed kinds is equipped.
pub open spec fn requires_no_armor(c: Option<BoxedCriteria>, kinds: Seq<armor::Kind>) -> bool {
    c matches Some(BoxedCriteria::HasArmorEquipped(h)) && h.inverted && h.kinds@ == kinds
}

/// Whether `f` is a feature with this name and description, no activation, no changes and no requirement.
pub open spec fn is_plain_feature(f: Feature, name: Seq<char>, description: Seq<char>) -> bool {
    &&& f.name@ == name
    &&& f.description@ == description
    &&& f.action is None
    &&& f.mutators@.len() == 0
    &&& f.criteria is None
}

/// The first barbarian level: proficiency with all armor, simple and martial weapons,
/// Strength and Constitution saves and two skills; the Rage and Unarmored Defense features.
pub open spec fn is_barbarian_level_1(l: Level) -> bool {
    &&& l.mutators@.len() == 9
    &&& l.mutators@[0] == BoxedMutator::AddProficiency(AddProficiency::Armor(armor::Kind::Light))
    &&& l.mutators@[1] == BoxedMutator::AddProficiency(AddProficiency::Armor(armor::Kind::Medium))
    &&& l.mutators@[2] == BoxedMutator::AddProficiency(AddProficiency::Armor(armor::Kind::Heavy))
    &&& l.mutators@[3] == BoxedMutator::AddProficiency(AddProficiency::Weapon(WeaponProficiency::Kind(weapon::Kind::Simple)))
    &&& l.mutators@[4] == BoxedMutator::AddProficiency(AddProficiency::Weapon(WeaponProficiency::Kind(weapon::Kind::Martial)))
    &&& l.mutators@[5] == BoxedMutator::AddProficiency(AddProficiency::SavingThrow(Ability::Strength))
    &&& l.mutators@[6] == BoxedMutator::AddProficiency(AddProficiency::SavingThrow(Ability::Constitution))
    &&& grants_skill_choice(l.mutators@[7], "skillA"@)
    &&& grants_skill_choice(l.mutators@[8], "skillB"@)
    &&& l.features@.len() == 2
    &&& is_plain_feature(l.features@[0], "Rage"@, RAGE_INTRO_TEXT@ + RAGING_TEXT@ + RAGE_OUTRO_TEXT@)
    &&& l.features@[1].name@ == "Unarmored Defense"@
    &&& l.features@[1].description@ == UNARMORED_DEFENSE_TEXT@
    &&& l.features@[1].action is None
    &&& l.features@[1].mutators@.len() == 1
    &&& l.features@[1].mutators@[0] matches BoxedMutator::AddArmorClassFormula(AddArmorClassFormula(f))
        && f.base == 10 && f.bonuses@ == seq![
            BoundedAbility { ability: Ability::Dexterity, min: None, max: None },
            BoundedAbility { ability: Ability::Constitution, min: None, max: None },
        ]
    &&& requires_no_armor(l.features@[1].criteria, Seq::empty())
}

/// The second barbarian level: Reckless Attack, and Danger Sense with advantage on
/// Dexterity saves against effects you can see.
pub open spec fn is_barbarian_level_2(l: Level) -> bool {
    &&& l.mutators@.len() == 0
    &&& l.features@.len() == 2
    &&& is_plain_feature(l.features@[0], "Reckless Attack"@, RECKLESS_ATTACK_TEXT@)
    &&& l.features@[1].name@ == "Danger Sense"@
    &&& l.features@[1].description@ == DANGER_SENSE_TEXT@
    &&& l.features@[1].action is None
    &&& l.features@[1].criteria is None
    &&& l.features@[1].mutators@.len() == 1
    &&& l.features@[1].mutators@[0] matches BoxedMutator::AddSavingThrowModifier(m)
        && m.ability == Some(Ability::Dexterity) && (m.target matches Some(t) && t@ == "effects you can see"@)
}

/// A level that grants nothing.
pub open spec fn is_empty_level(l: Level) -> bool {
    l.mutators@.len() == 0 && l.features@.len() == 0
}

/// The fifth barbarian level: Extra Attack, and Fast Movement while not in heavy armor.
pub open spec fn is_barbarian_level_5(l: Level) -> bool {
    &&& l.mutators@.len() == 0
    &&& l.features@.len() == 2
    &&& is_plain_feature(l.features@[0], "Extra Attack"@, EXTRA_ATTACK_TEXT@)
    &&& l.features@[1].name@ == "Fast Movement"@
    &&& l.features@[1].description@ == FAST_MOVEMENT_TEXT@
    &&& l.features@[1].action is None
    &&& l.features@[1].mutators@.len() == 0
    &&& requires_no_armor(l.features@[1].criteria, seq![armor::Kind::Heavy])
}

/// What the barbarian grants at level `index + 1`.
pub open spec fn is_barbarian_level(index: int, l: Level) -> bool {
    if index == 0 {
        is_barbarian_level_1(l)
    } else if index == 1 {
        is_barbarian_level_2(l)
    } else if index == 4 {
        is_barbarian_level_5(l)
    } else {
        is_empty_level(l)
    }
}

fn skill_choice(id: &str) -> (m: BoxedMutator)
    ensures
        grants_skill_choice(m, id@),
{
    let options = vec![
        Skill::AnimalHandling,
        Skill::Athletics,
        Skill::Intimidation,
        Skill::Nature,
        Skill::Perception,
        Skill::Survival,
    ];
    assert(options@ =~= barbarian_skill_options());
    BoxedMutator::AddProficiency(AddProficiency::Skill(
        Selector::AnyOf { id: Some(id.to_owned()), options },
        proficiency::Level::Full,
    ))
}

fn no_armor_of(kinds: Vec<armor::Kind>) -> (c: Option<BoxedCriteria>)
    ensures
        requires_no_armor(c, kinds@),
{
    Some(BoxedCriteria::HasArmorEquipped(HasArmorEquipped { inverted: true, kinds }))
}

fn resistance(damage_type: DamageType) -> (m: BoxedMutator)
    ensures
        m matches BoxedMutator::AddDefense(d) && d.defense == Defense::Resistance && d.damage_type == Some(damage_type),
{
    BoxedMutator::AddDefense(AddDefense { defense: Defense::Resistance, damage_type: Some(damage_type) })
}

fn rage() -> (f: Feature)
    ensures
        is_plain_feature(f, "Rage"@, RAGE_INTRO_TEXT@ + RAGING_TEXT@ + RAGE_OUTRO_TEXT@),
{
    let condition = Custom {
        name: "Raging".to_owned(),
        description: RAGING_TEXT.to_owned(),
        mutators: vec![
            BoxedMutator::AddSavingThrowModifier(AddSavingThrowModifier { ability: Some(Ability::Strength), target: None }),
            resistance(DamageType::Bludgeoning),
            resistance(DamageType::Piercing),
            resistance(DamageType::Slashing),
        ],
        criteria: no_armor_of(vec![armor::Kind::Heavy]),
    };
    let mut desc = RAGE_INTRO_TEXT.to_owned();
    desc.append(condition.description().as_str());
    desc.append(RAGE_OUTRO_TEXT);
    Feature { name: "Rage".to_owned(), description: desc, action: None, mutators: Vec::new(), criteria: None }
}

fn barbarian_level_1() -> (l: Level)
    ensures
        is_barbarian_level_1(l),
{
    let bonuses = vec![BoundedAbility::unbounded(Ability::Dexterity), BoundedAbility::unbounded(Ability::Constitution)];
    assert(bonuses@ =~= seq![
        BoundedAbility { ability: Ability::Dexterity, min: None, max: None },
        BoundedAbility { ability: Ability::Constitution, min: None, max: None },
    ]);
    let unarmored = Feature {
        name: "Unarmored Defense".to_owned(),
        description: UNARMORED_DEFENSE_TEXT.to_owned(),
        action: None,
        mutators: vec![BoxedMutator::AddArmorClassFormula(AddArmorClassFormula(ArmorClassFormula { base: 10, bonuses }))],
        criteria: no_armor_of(Vec::new()),
    };
    Level {
        mutators: vec![
            BoxedMutator::AddProficiency(AddProficiency::Armor(armor::Kind::Light)),
            BoxedMutator::AddProficiency(AddProficiency::Armor(armor::Kind::Medium)),
            BoxedMutator::AddProficiency(AddProficiency::Armor(armor::Kind::Heavy)),
            BoxedMutator::AddProficiency(AddProficiency::Weapon(WeaponProficiency::Kind(weapon::Kind::Simple))),
            BoxedMutator::AddProficiency(AddProficiency::Weapon(WeaponProficiency::Kind(weapon::Kind::Martial))),
            BoxedMutator::AddProficiency(AddProficiency::SavingThrow(Ability::Strength)),
            BoxedMutator::AddProficiency(AddProficiency::SavingThrow(Ability::Constitution)),
            skill_choice("skillA"),
            skill_choice("skillB"),
        ],
        features: vec![rage(), unarmored],
    }
}

fn barbarian_level_2() -> (l: Level)
    ensures
        is_barbarian_level_2(l),
{
    let danger_sense = Feature::new(
        "Danger Sense",
        DANGER_SENSE_TEXT,
        vec![BoxedMutator::AddSavingThrowModifier(AddSavingThrowModifier {
            ability: Some(Ability::Dexterity),
            target: Some("effects you can see".to_owned()),
        })],
    );
    Level {
        mutators: Vec::new(),
        features: vec![Feature::new("Reckless Attack", RECKLESS_ATTACK_TEXT, Vec::new()), danger_sense],
    }
}

fn barbarian_level_5() -> (l: Level)
    ensures
        is_barbarian_level_5(l),
{
    let heavy = vec![armor::Kind::Heavy];
    assert(heavy@ =~= seq![armor::Kind::Heavy]);
    let fast_movement = Feature {
        name: "Fast Movement".to_owned(),
        description: FAST_MOVEMENT_TEXT.to_owned(),
        action: None,
        mutators: Vec::new(),
        criteria: no_armor_of(heavy),
    };
    Level {
        mutators: Vec::new(),
        features: vec![Feature::new("Extra Attack", EXTRA_ATTACK_TEXT, Vec::new()), fast_movement],
    }
}

/// The barbarian class with the given number of levels taken (content exists for the first
/// five; levels beyond the fifth add nothing) and the given subclass.
pub fn barbarian(levels: usize, subclass: Option<Subclass>) -> (r: Class)
    ensures
        r.name@ == "Barbarian"@,
        r.hit_die == Die::D12,
        r.subclass_selection_level == 3,
        r.subclass == subclass,
        r.levels@.len() == if levels < 5 { levels as int } else { 5 },
        forall|i: int| 0 <= i < r.levels@.len() ==> is_barbarian_level(i, #[trigger] r.levels@[i]),
{
    let mut class = Class {
        name: "Barbarian".to_owned(),
        hit_die: Die::D12,
        subclass_selection_level: 3,
        subclass,
        levels: Vec::new(),
    };
    if levels >= 1 {
        class.levels.push(barbarian_level_1());
    }
    if levels >= 2 {
        class.levels.push(barbarian_level_2());
    }
    if levels >= 3 {
        class.levels.push(Level::empty());
    }
    if levels >= 4 {
        class.levels.push(Level::empty());
    }
    if levels >= 5 {
        class.levels.push(barbarian_level_5());
    }
    class
}

} // verus!
