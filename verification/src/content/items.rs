//! Adventuring gear, armor and weapons.

pub mod armor;
pub mod weapon;

use vstd::prelude::*;
use crate::item::{Equipment, Item, ItemKind};
use crate::mutator::{AddMaxSense, BoxedMutator};

verus! {

/// The description of traveler's clothes.
pub const TRAVELERS_CLOTHES_TEXT: &'static str = "This set of clothes could consist of boots, a wool skirt or breeches, \
		a sturdy belt, a shirt (perhaps with a vest or jacket), and an ample cloak with a hood.";

/// The description of goggles of night.
pub const GOGGLES_OF_NIGHT_TEXT: &'static str = "While wearing these dark lenses, you have darkvision \
		out to a range of 60 feet. If you already have darkvision, wearing the \
		goggles increases its range by 60 feet.";

/// A set of traveler's clothes: 4 lb., worth 2 silver (200 copper).
pub fn travelers_clothes() -> (r: Item)
    ensures
        r.name@ == "Traveler's Clothes"@,
        r.description matches Some(d) && d@ == TRAVELERS_CLOTHES_TEXT@,
        r.weight == 4,
        r.worth == 200,
        r.notes is None,
        r.kind == (ItemKind::Simple { count: 1 }),
{
    Item {
        name: "Traveler's Clothes".to_owned(),
        description: Some(TRAVELERS_CLOTHES_TEXT.to_owned()),
        weight: 4,
        worth: 200,
        notes: None,
        kind: ItemKind::Simple { count: 1 },
    }
}

/// Goggles of night: equipment that raises darkvision to at least 60 feet.
pub fn goggles_of_night() -> (r: Item)
    ensures
        r.name@ == "Goggles of Night"@,
        r.description matches Some(d) && d@ == GOGGLES_OF_NIGHT_TEXT@,
        r.weight == 0,
        r.worth == 0,
        r.notes is None,
        r.kind matches ItemKind::Equipment(e) && e.armor is None && e.weapon is None
            && e.modifiers@.len() == 1
            && (e.modifiers@[0] matches BoxedMutator::AddMaxSense(m) && m.0@ == "Darkvision"@ && m.1 == 60),
{
    Item {
        name: "Goggles of Night".to_owned(),
        description: Some(GOGGLES_OF_NIGHT_TEXT.to_owned()),
        weight: 0,
        worth: 0,
        notes: None,
        kind: ItemKind::Equipment(Equipment {
            modifiers: vec![BoxedMutator::AddMaxSense(AddMaxSense("Darkvision".to_owned(), 60))],
            armor: None,
            weapon: None,
        }),
    }
}

} // verus!
