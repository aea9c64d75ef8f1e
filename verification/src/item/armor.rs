use vstd::prelude::*;
use crate::copies::copy_vec;
use crate::ability::Ability;

verus! {

/// The weight class of a suit of armor.
#[derive(Clone, Copy, Debug, PartialEq, Eq, Structural, PartialOrd, Ord, Hash)]
pub enum Kind {
    Light,
    Medium,
    Heavy,
}

/// All armor kinds in declaration order, which is also their sort order.
pub open spec fn all_kinds() -> Seq<Kind> {
    seq![Kind::Light, Kind::Medium, Kind::Heavy]
}

/// The lower-case name of an armor kind.
pub open spec fn kind_name(kind: Kind) -> Seq<char> {
    match kind {
        Kind::Light => "light"@,
        Kind::Medium => "medium"@,
        Kind::Heavy => "heavy"@,
    }
}

impl Kind {
    /// The lower-case name of the kind, such as `heavy`.
    pub fn lowercase_name(&self) -> (s: &'static str)
        ensures
            s@ == kind_name(*self),
    {
        match self {
            Kind::Light => "light",
            Kind::Medium => "medium",
            Kind::Heavy => "heavy",
        }
    }
}

/// An ability modifier added to armor class, optionally clamped from below and above.
#[derive(Clone, Copy, Debug, PartialEq, Eq, Structural)]
pub struct BoundedAbility {
    pub ability: Ability,
    pub min: Option<i32>,
    pub max: Option<i32>,
}

impl BoundedAbility {
    /// The whole modifier of `ability`, unbounded.
    pub fn unbounded(ability: Ability) -> (r: BoundedAbility)
        ensures
            r == (BoundedAbility { ability, min: None, max: None }),
    {
        BoundedAbility { ability, min: None, max: None }
    }
}

/// Armor class as a base value plus bounded ability modifiers.
pub struct ArmorClassFormula {
    pub base: u32,
    pub bonuses: Vec<BoundedAbility>,
}

/// Armor that can be worn.
pub struct Armor {
    pub kind: Kind,
    pub formula: ArmorClassFormula,
    /// The Strength score needed to wear the armor without penalty.
    pub min_strength_score: Option<u32>,
}

/// Whether two formulas are alike: the same base and the same bonuses.
pub open spec fn same_formula(a: ArmorClassFormula, b: ArmorClassFormula) -> bool {
    a.base == b.base && a.bonuses@ == b.bonuses@
}

/// Whether two pieces of armor are alike in every part.
pub open spec fn same_armor(a: Armor, b: Armor) -> bool {
    a.kind == b.kind && same_formula(a.formula, b.formula) && a.min_strength_score == b.min_strength_score
}

impl ArmorClassFormula {
    /// A copy of the formula.
    pub fn duplicate(&self) -> (r: ArmorClassFormula)
        ensures
            same_formula(r, *self),
    {
        ArmorClassFormula { base: self.base, bonuses: copy_vec(&self.bonuses) }
    }
}

impl Armor {
    /// A copy of the armor.
    pub fn duplicate(&self) -> (r: Armor)
        ensures
            same_armor(r, *self),
    {
        Armor { kind: self.kind, formula: self.formula.duplicate(), min_strength_score: self.min_strength_score }
    }
}

} // verus!
