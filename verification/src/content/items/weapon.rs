use vstd::prelude::*;
use crate::damage::DamageType;
use crate::item::weapon::{self, Property, Range, Weapon, WeaponDamage};
use crate::item::{Equipment, Item, ItemKind};
use crate::mutator::BoxedMutator;
use crate::roll::{Die, Roll};

verus! {

/// Whether `r` is a weapon with exactly these properties, dealing one die of damage
/// with no bonus and granting no other modifier.
pub open spec fn is_weapon_item(
    r: Item,
    name: Seq<char>,
    classification: Seq<char>,
    weight: u32,
    worth: u64,
    kind: weapon::Kind,
    die: Die,
    damage_type: DamageType,
    properties: Seq<Property>,
    range: Option<Range>,
) -> bool {
    &&& r.name@ == name
    &&& r.description is None
    &&& r.weight == weight
    &&& r.worth == worth
    &&& r.notes is None
    &&& r.kind matches ItemKind::Equipment(e)
    &&& e.armor is None
    &&& e.modifiers@.len() == 0
    &&& e.weapon matches Some(w)
    &&& w.kind == kind
    &&& w.classification@ == classification
    &&& w.damage == Some(WeaponDamage { roll: Some(Roll { amount: 1, die }), bonus: 0, damage_type })
    &&& w.properties@ == properties
    &&& w.range == range
}

fn weapon_item(
    name: &str,
    classification: &str,
    weight: u32,
    worth: u64,
    kind: weapon::Kind,
    die: Die,
    damage_type: DamageType,
    properties: Vec<Property>,
    range: Option<Range>,
) -> (r: Item)
    ensures
        r.name@ == name@,
        r.description is None,
        r.weight == weight,
        r.worth == worth,
        r.notes is None,
        r.kind matches ItemKind::Equipment(e) && e.armor is None && e.modifiers@.len() == 0
            && (e.weapon matches Some(w) && w.kind == kind && w.classification@ == classification@
            && w.damage == Some(WeaponDamage { roll: Some(Roll { amount: 1, die }), bonus: 0, damage_type })
            && w.properties@ == properties@ && w.range == range),
{
    let modifiers: Vec<BoxedMutator> = Vec::new();
    Item {
        name: name.to_owned(),
        description: None,
        weight,
        worth,
        notes: None,
        kind: ItemKind::Equipment(Equipment {
            modifiers,
            armor: None,
            weapon: Some(Weapon {
                kind,
                classification: classification.to_owned(),
                damage: Some(WeaponDamage { roll: Some(Roll { amount: 1, die }), bonus: 0, damage_type }),
                properties,
                range,
            }),
        }),
    }
}

/// A club: simple, 1d4 bludgeoning, light; 2 lb., 1 silver.
pub fn club() -> (r: Item)
    ensures
        is_weapon_item(r, "Club"@, "Club"@, 2, 10, weapon::Kind::Simple, Die::D4, DamageType::Bludgeoning,
            seq![Property::Light], None),
{
    let properties = vec![Property::Light];
    assert(properties@ =~= seq![Property::Light]);
    weapon_item("Club", "Club", 2, 10, weapon::Kind::Simple, Die::D4, DamageType::Bludgeoning, properties, None)
}

/// A dagger: simple, 1d4 piercing, light, finesse, thrown (20/60); 1 lb., 2 gold.
pub fn dagger() -> (r: Item)
    ensures
        is_weapon_item(r, "Dagger"@, "Dagger"@, 1, 200, weapon::Kind::Simple, Die::D4, DamageType::Piercing,
            seq![Property::Light, Property::Finesse, Property::Thrown(20, 60)], None),
{
    let properties = vec![Property::Light, Property::Finesse, Property::Thrown(20, 60)];
    assert(properties@ =~= seq![Property::Light, Property::Finesse, Property::Thrown(20, 60)]);
    weapon_item("Dagger", "Dagger", 1, 200, weapon::Kind::Simple, Die::D4, DamageType::Piercing, properties, None)
}

/// A greatclub: simple, 1d8 bludgeoning, two-handed; 10 lb., 2 silver.
pub fn greatclub() -> (r: Item)
    ensures
        is_weapon_item(r, "Greatclub"@, "Greatclub"@, 10, 20, weapon::Kind::Simple, Die::D8, DamageType::Bludgeoning,
            seq![Property::TwoHanded], None),
{
    let properties = vec![Property::TwoHanded];
    assert(properties@ =~= seq![Property::TwoHanded]);
    weapon_item("Greatclub", "Greatclub", 10, 20, weapon::Kind::Simple, Die::D8, DamageType::Bludgeoning, properties, None)
}

/// A quarterstaff: simple, 1d6 bludgeoning, versatile (1d8); 4 lb., 2 silver.
pub fn quarterstaff() -> (r: Item)
    ensures
        is_weapon_item(r, "Quarterstaff"@, "Quarterstaff"@, 4, 20, weapon::Kind::Simple, Die::D6, DamageType::Bludgeoning,
            seq![Property::Versatile(Roll { amount: 1, die: Die::D8 })], None),
{
    let properties = vec![Property::Versatile(Roll { amount: 1, die: Die::D8 })];
    assert(properties@ =~= seq![Property::Versatile(Roll { amount: 1, die: Die::D8 })]);
    weapon_item("Quarterstaff", "Quarterstaff", 4, 20, weapon::Kind::Simple, Die::D6, DamageType::Bludgeoning, properties, None)
}

/// A light crossbow: simple, 1d8 piercing, two-handed, range 80/320 with ammunition and loading; 5 lb., 25 gold.
pub fn crossbow_light() -> (r: Item)
    ensures
        is_weapon_item(r, "Crossbow (Light)"@, "CrossbowLight"@, 5, 2500, weapon::Kind::Simple, Die::D8, DamageType::Piercing,
            seq![Property::TwoHanded], Some(Range { short_range: 80, long_range: 320, requires_ammunition: true, requires_loading: true })),
{
    let properties = vec![Property::TwoHanded];
    assert(properties@ =~= seq![Property::TwoHanded]);
    weapon_item("Crossbow (Light)", "CrossbowLight", 5, 2500, weapon::Kind::Simple, Die::D8, DamageType::Piercing, properties, Some(Range { short_range: 80, long_range: 320, requires_ammunition: true, requires_loading: true }))
}

/// A halberd: martial, 1d10 slashing, two-handed, heavy, reach; 6 lb., 20 gold.
pub fn halberd() -> (r: Item)
    ensures
        is_weapon_item(r, "Halberd"@, "Halberd"@, 6, 2000, weapon::Kind::Martial, Die::D10, DamageType::Slashing,
            seq![Property::TwoHanded, Property::Heavy, Property::Reach], None),
{
    let properties = vec![Property::TwoHanded, Property::Heavy, Property::Reach];
    assert(properties@ =~= seq![Property::TwoHanded, Property::Heavy, Property::Reach]);
    weapon_item("Halberd", "Halberd", 6, 2000, weapon::Kind::Martial, Die::D10, DamageType::Slashing, properties, None)
}

} // verus!
