use dnd5e::ability::{Ability, Skill};
use dnd5e::content::items::armor::{leather, scale_mail, splint};
use dnd5e::content::items::weapon::{club, crossbow_light, dagger, greatclub, halberd, quarterstaff};
use dnd5e::content::items::{goggles_of_night, travelers_clothes};
use dnd5e::damage::DamageType;
use dnd5e::item::armor::{BoundedAbility, Kind as ArmorKind};
use dnd5e::item::weapon::{Kind as WeaponKind, Property};
use dnd5e::item::ItemKind;
use dnd5e::mutator::BoxedMutator;
use dnd5e::roll::{Die, Modifier, Roll};

#[test]
fn clothes_and_goggles() {
    let clothes = travelers_clothes();
    assert_eq!(clothes.name, "Traveler's Clothes");
    assert_eq!(clothes.weight, 4);
    assert_eq!(clothes.worth, 200);
    assert!(clothes.description.unwrap().starts_with("This set of clothes"));
    assert!(!travelers_clothes().is_equipable());
    let goggles = goggles_of_night();
    assert!(goggles.is_equipable());
    match goggles.kind {
        ItemKind::Equipment(e) => match &e.modifiers[0] {
            BoxedMutator::AddMaxSense(sense) => {
                assert_eq!(sense.0, "Darkvision");
                assert_eq!(sense.1, 60);
            }
            _ => panic!("expected a sense"),
        },
        _ => panic!("expected equipment"),
    }
}

#[test]
fn armor_items() {
    let item = scale_mail();
    assert_eq!(item.name, "Scale Mail");
    assert_eq!(item.worth, 5000);
    match item.kind {
        ItemKind::Equipment(e) => {
            let armor = e.armor.unwrap();
            assert_eq!(armor.kind, ArmorKind::Medium);
            assert_eq!(armor.formula.base, 14);
            assert_eq!(
                armor.formula.bonuses,
                vec![BoundedAbility { ability: Ability::Dexterity, min: None, max: Some(2) }]
            );
            match &e.modifiers[0] {
                BoxedMutator::AddSkillModifier(m) => {
                    assert_eq!(m.skill, Skill::Stealth);
                    assert_eq!(m.modifier, Modifier::Disadvantage);
                }
                _ => panic!("expected a skill modifier"),
            }
        }
        _ => panic!("expected equipment"),
    }
    match splint().kind {
        ItemKind::Equipment(e) => {
            let armor = e.armor.unwrap();
            assert_eq!(armor.kind, ArmorKind::Heavy);
            assert_eq!(armor.min_strength_score, Some(15));
            assert!(armor.formula.bonuses.is_empty());
        }
        _ => panic!("expected equipment"),
    }
    match leather().kind {
        ItemKind::Equipment(e) => {
            assert!(e.modifiers.is_empty());
            assert_eq!(e.armor.unwrap().formula.base, 11);
        }
        _ => panic!("expected equipment"),
    }
}

#[test]
fn weapon_items() {
    let expectations = vec![
        (club(), "Club", WeaponKind::Simple, Die::D4, DamageType::Bludgeoning, vec![Property::Light]),
        (
            dagger(),
            "Dagger",
            WeaponKind::Simple,
            Die::D4,
            DamageType::Piercing,
            vec![Property::Light, Property::Finesse, Property::Thrown(20, 60)],
        ),
        (greatclub(), "Greatclub", WeaponKind::Simple, Die::D8, DamageType::Bludgeoning, vec![Property::TwoHanded]),
        (
            quarterstaff(),
            "Quarterstaff",
            WeaponKind::Simple,
            Die::D6,
            DamageType::Bludgeoning,
            vec![Property::Versatile(Roll { amount: 1, die: Die::D8 })],
        ),
        (crossbow_light(), "CrossbowLight", WeaponKind::Simple, Die::D8, DamageType::Piercing, vec![Property::TwoHanded]),
        (
            halberd(),
            "Halberd",
            WeaponKind::Martial,
            Die::D10,
            DamageType::Slashing,
            vec![Property::TwoHanded, Property::Heavy, Property::Reach],
        ),
    ];
    for (item, classification, kind, die, damage_type, properties) in expectations {
        match item.kind {
            ItemKind::Equipment(e) => {
                let w = e.weapon.unwrap();
                assert_eq!(w.classification, classification);
                assert_eq!(w.kind, kind);
                let damage = w.damage.unwrap();
                assert_eq!(damage.roll, Some(Roll { amount: 1, die }));
                assert_eq!(damage.damage_type, damage_type);
                assert_eq!(w.properties, properties);
            }
            _ => panic!("expected equipment"),
        }
    }
    match crossbow_light().kind {
        ItemKind::Equipment(e) => {
            let range = e.weapon.unwrap().range.unwrap();
            assert_eq!((range.short_range, range.long_range), (80, 320));
            assert!(range.requires_ammunition && range.requires_loading);
        }
        _ => panic!("expected equipment"),
    }
    assert_eq!(crossbow_light().name, "Crossbow (Light)");
    assert_eq!(dagger().worth, 200);
    assert_eq!(halberd().weight, 6);
}
