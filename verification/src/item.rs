//! Items that a character can carry, wear and wield.

pub mod armor;
pub mod weapon;

use vstd::prelude::*;
use crate::copies::copy_opt_text;
use crate::mutator::{same_mutator, BoxedMutator};

verus! {

/// Wearable or wieldable properties of an item.
pub struct Equipment {
    /// Changes the item makes to its bearer while equipped.
    pub modifiers: Vec<BoxedMutator>,
    pub armor: Option<armor::Armor>,
    pub weapon: Option<weapon::Weapon>,
}

/// What sort of thing an item is.
pub enum ItemKind {
    /// A plain item, possibly stacked.
    Simple { count: u32 },
    /// An item that can be equipped.
    Equipment(Equipment),
}

/// An item in the game world.
pub struct Item {
    pub name: String,
    pub description: Option<String>,
    /// Weight in pounds.
    pub weight: u32,
    /// Value in copper pieces.
    pub worth: u64,
    pub notes: Option<String>,
    pub kind: ItemKind,
}

impl Item {
    /// Whether the item can be equipped (it is equipment).
    pub fn is_equipable(&self) -> (r: bool)
        ensures
            r == (self.kind is Equipment),
    {
        match &self.kind {
            ItemKind::Equipment(_) => true,
            ItemKind::Simple { .. } => false,
        }
    }
}

/// The label of the equip checkbox in the item details.
pub fn equip_label(is_equipped: bool) -> (s: &'static str)
    ensures
        s@ == if is_equipped { "Equipped"@ } else { "Not Equipped"@ },
{
    if is_equipped { "Equipped" } else { "Not Equipped" }
}

/// The count of a stack after the plus (`up`) or minus button of the item details: one more
/// or one less, held within the range of a `u32` (as `saturating_add` and `saturating_sub`).
pub fn step_count(count: u32, up: bool) -> (r: u32)
    ensures
        r == if up {
            if count == u32::MAX { count } else { (count + 1) as u32 }
        } else {
            if count == 0 { 0 } else { (count - 1) as u32 }
        },
{
    if up {
        count.saturating_add(1)
    } else {
        count.saturating_sub(1)
    }
}

/// Whether two pieces of equipment are alike: the same changes, armor and weapon.
pub open spec fn same_equipment(a: Equipment, b: Equipment) -> bool {
    &&& a.modifiers@.len() == b.modifiers@.len()
    &&& forall|i: int| 0 <= i < a.modifiers@.len() ==> same_mutator(#[trigger] a.modifiers@[i], b.modifiers@[i])
    &&& match (a.armor, b.armor) {
        (Some(x), Some(y)) => armor::same_armor(x, y),
        (None, None) => true,
        _ => false,
    }
    &&& match (a.weapon, b.weapon) {
        (Some(x), Some(y)) => weapon::same_weapon(x, y),
        (None, None) => true,
        _ => false,
    }
}

/// Whether two items are alike in every part, lists by their contents.
pub open spec fn same_item(a: Item, b: Item) -> bool {
    &&& a.name == b.name
    &&& a.description == b.description
    &&& a.weight == b.weight
    &&& a.worth == b.worth
    &&& a.notes == b.notes
    &&& match (a.kind, b.kind) {
        (ItemKind::Simple { count: x }, ItemKind::Simple { count: y }) => x == y,
        (ItemKind::Equipment(x), ItemKind::Equipment(y)) => same_equipment(x, y),
        _ => false,
    }
}

impl Equipment {
    /// A copy of the equipment.
    pub fn duplicate(&self) -> (r: Equipment)
        ensures
            same_equipment(r, *self),
    {
        let mut modifiers: Vec<BoxedMutator> = Vec::new();
        let mut i: usize = 0;
        while i < self.modifiers.len()
            invariant
                i <= self.modifiers@.len(),
                modifiers@.len() == i,
                forall|j: int| 0 <= j < i ==> same_mutator(#[trigger] modifiers@[j], self.modifiers@[j]),
            decreases self.modifiers@.len() - i,
        {
            modifiers.push(self.modifiers[i].duplicate());
            i = i + 1;
        }
        let armor = match &self.armor {
            Some(a) => Some(a.duplicate()),
            None => None,
        };
        let weapon = match &self.weapon {
            Some(w) => Some(w.duplicate()),
            None => None,
        };
        Equipment { modifiers, armor, weapon }
    }
}

impl Item {
    /// A copy of the item.
    pub fn duplicate(&self) -> (r: Item)
        ensures
            same_item(r, *self),
    {
        let kind = match &self.kind {
            ItemKind::Simple { count } => ItemKind::Simple { count: *count },
            ItemKind::Equipment(e) => ItemKind::Equipment(e.duplicate()),
        };
        Item {
            name: self.name.clone(),
            description: copy_opt_text(&self.description),
            weight: self.weight,
            worth: self.worth,
            notes: copy_opt_text(&self.notes),
            kind,
        }
    }
}

} // verus!
