//! The parts a character is built from: features, origins, classes and inventory.

use vstd::prelude::*;
use crate::criteria::BoxedCriteria;
use crate::item::Item;
use crate::mutator::BoxedMutator;
use crate::roll::Die;

verus! {

/// What it takes to use a feature.
#[derive(Clone, Copy, Debug, PartialEq, Eq, Structural)]
pub enum ActivationKind {
    Action,
    Bonus,
    Reaction,
    Special,
    Minute(u32),
    Hour(u32),
}

/// A named ability or trait that a character gains.
pub struct Feature {
    pub name: String,
    pub description: String,
    /// What using the feature costs, when it must be activated.
    pub action: Option<ActivationKind>,
    pub mutators: Vec<BoxedMutator>,
    /// The requirement that must hold for the feature to apply.
    pub criteria: Option<BoxedCriteria>,
}

impl Feature {
    /// A feature with a name, a description and changes, that needs no activation and has no requirement.
    pub fn new(name: &str, description: &str, mutators: Vec<BoxedMutator>) -> (f: Feature)
        ensures
            f.name@ == name@,
            f.description@ == description@,
            f.action is None,
            f.mutators@ == mutators@,
            f.criteria is None,
    {
        Feature {
            name: name.to_owned(),
            description: description.to_owned(),
            action: None,
            mutators,
            criteria: None,
        }
    }
}

/// The history a character comes from.
pub struct Background {
    pub name: String,
    pub description: String,
    pub mutators: Vec<BoxedMutator>,
    pub features: Vec<Feature>,
}

/// A lineage: the traits a character inherits.
pub struct Lineage {
    pub name: String,
    pub description: String,
    pub mutators: Vec<BoxedMutator>,
    pub features: Vec<Feature>,
}

/// An upbringing: the traits a character learns while growing up.
pub struct Upbringing {
    pub name: String,
    pub description: String,
    pub mutators: Vec<BoxedMutator>,
    pub features: Vec<Feature>,
}

/// A culture: two lineages and an upbringing that belong together.
pub struct Culture {
    pub lineages: [Lineage; 2],
    pub upbringing: Upbringing,
}

/// What a class grants at one of its levels.
pub struct Level {
    pub mutators: Vec<BoxedMutator>,
    pub features: Vec<Feature>,
}

impl Level {
    /// A level that grants nothing.
    pub fn empty() -> (r: Level)
        ensures
            r.mutators@.len() == 0,
            r.features@.len() == 0,
    {
        Level { mutators: Vec::new(), features: Vec::new() }
    }
}

/// A specialisation of a class.
pub struct Subclass {
    pub name: String,
    pub levels: Vec<Level>,
}

/// A character class, with the levels taken in it.
pub struct Class {
    pub name: String,
    pub hit_die: Die,
    /// The class level at which the subclass is chosen.
    pub subclass_selection_level: u32,
    pub subclass: Option<Subclass>,
    /// What each level taken grants, from the first level on.
    pub levels: Vec<Level>,
}

/// An item in a character's inventory, with whether it is equipped.
pub struct InventoryEntry {
    pub item: Item,
    pub equipped: bool,
}

/// The items a character carries.
pub struct Inventory {
    pub items: Vec<InventoryEntry>,
}

/// The state of a character that requirements are checked against.
pub struct Character {
    pub inventory: Inventory,
}

} // verus!
