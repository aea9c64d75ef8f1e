use dnd5e::ability::{Ability, Skill};
use dnd5e::character::ActivationKind;
use dnd5e::condition::RAGING_TEXT;
use dnd5e::content::background::anthropologist;
use dnd5e::content::class::{barbarian, RAGE_INTRO_TEXT, RAGE_OUTRO_TEXT};
use dnd5e::content::culture::changeling;
use dnd5e::content::lineage::{shapechanger, voice_changer};
use dnd5e::content::upbringing::incognito;
use dnd5e::criteria::BoxedCriteria;
use dnd5e::item::armor::Kind as ArmorKind;
use dnd5e::mutator::{AddMaxHeight, BoxedMutator, Selector};
use dnd5e::roll::Die;

#[test]
fn anthropologist_background() {
    let b = anthropologist();
    assert_eq!(b.name, "Anthropologist");
    assert_eq!(b.mutators.len(), 2);
    assert_eq!(b.features.len(), 2);
    assert_eq!(b.features[0].name, "Languages");
    assert_eq!(b.features[1].name, "Adept Linguist");
    match &b.mutators[1] {
        BoxedMutator::AddSkill(s) => match s.skill {
            Selector::Specific(skill) => assert_eq!(skill, Skill::Religion),
            _ => panic!("expected a specific skill"),
        },
        _ => panic!("expected a skill"),
    }
}

#[test]
fn changeling_lineages() {
    let s = shapechanger();
    assert_eq!(s.name, "Changeling (Shapechanger)");
    assert_eq!(s.features[0].name, "Shapechanger");
    assert_eq!(s.features[0].action, Some(ActivationKind::Action));
    match &s.mutators[1] {
        BoxedMutator::AddMaxHeight(AddMaxHeight::Value(v)) => assert_eq!(*v, 30),
        _ => panic!("expected a height"),
    }
    let v = voice_changer();
    assert_eq!(v.name, "Changeling (Voice Changer)");
    assert_eq!(v.features[0].name, "Voice Change");
    let culture = changeling();
    assert_eq!(culture.lineages[0].name, "Changeling (Shapechanger)");
    assert_eq!(culture.lineages[1].name, "Changeling (Voice Changer)");
    assert_eq!(culture.upbringing.name, "Incognito");
}

#[test]
fn incognito_upbringing() {
    let u = incognito();
    assert_eq!(u.features.len(), 3);
    match &u.features[0].mutators[1] {
        BoxedMutator::AddAbilityScore(a) => match &a.ability {
            Selector::AnyOf { id, options } => {
                assert!(id.is_none());
                assert_eq!(
                    options,
                    &vec![Ability::Strength, Ability::Dexterity, Ability::Constitution, Ability::Intelligence, Ability::Wisdom]
                );
            }
            _ => panic!("expected a choice"),
        },
        _ => panic!("expected an ability score"),
    }
    assert_eq!(u.features[2].mutators.len(), 3);
}

#[test]
fn barbarian_levels() {
    assert_eq!(barbarian(0, None).levels.len(), 0);
    assert_eq!(barbarian(3, None).levels.len(), 3);
    let class = barbarian(20, None);
    assert_eq!(class.name, "Barbarian");
    assert_eq!(class.hit_die, Die::D12);
    assert_eq!(class.subclass_selection_level, 3);
    assert_eq!(class.levels.len(), 5);
    assert_eq!(class.levels[0].mutators.len(), 9);
    assert_eq!(class.levels[0].features[0].name, "Rage");
    assert_eq!(
        class.levels[0].features[0].description,
        format!("{RAGE_INTRO_TEXT}{RAGING_TEXT}{RAGE_OUTRO_TEXT}")
    );
    assert_eq!(class.levels[1].features[1].name, "Danger Sense");
    assert!(class.levels[2].features.is_empty());
    assert!(class.levels[3].features.is_empty());
    assert_eq!(class.levels[4].features[1].name, "Fast Movement");
    match &class.levels[4].features[1].criteria {
        Some(BoxedCriteria::HasArmorEquipped(c)) => {
            assert!(c.inverted);
            assert_eq!(c.kinds, vec![ArmorKind::Heavy]);
        }
        None => panic!("expected a requirement"),
    }
}
