use vstd::prelude::*;
use crate::copies::copy_vec;
use crate::roll::{roll_text, Roll};
use crate::text::{decimal, int_decimal, push_decimal, push_int, push_signed, signed_decimal};
use crate::damage::DamageType;

verus! {

/// The training a weapon needs.
#[derive(Clone, Copy, Debug, PartialEq, Eq, Structural, PartialOrd, Ord, Hash)]
pub enum Kind {
    Simple,
    Martial,
}

/// A property of a weapon.
#[derive(Clone, Copy, Debug, PartialEq, Eq, Structural)]
pub enum Property {
    Light,
    Finesse,
    Heavy,
    Reach,
    TwoHanded,
    /// Can be thrown, with a short and a long range in feet.
    Thrown(u32, u32),
    /// Can be wielded in two hands for this damage roll.
    Versatile(Roll),
}

/// The damage a weapon deals on a hit.
#[derive(Clone, Copy, Debug, PartialEq, Eq, Structural)]
pub struct WeaponDamage {
    pub roll: Option<Roll>,
    pub bonus: i32,
    pub damage_type: DamageType,
}

/// The range of a ranged weapon.
#[derive(Clone, Copy, Debug, PartialEq, Eq, Structural)]
pub struct Range {
    pub short_range: u32,
    pub long_range: u32,
    pub requires_ammunition: bool,
    pub requires_loading: bool,
}

/// A weapon.
pub struct Weapon {
    pub kind: Kind,
    pub classification: String,
    pub damage: Option<WeaponDamage>,
    pub properties: Vec<Property>,
    pub range: Option<Range>,
}

/// How the item details show a weapon's damage: the bonus alone without a roll, the roll
/// alone with no bonus, otherwise the roll followed by the signed bonus (`1d6+1`).
pub open spec fn damage_text(d: WeaponDamage) -> Seq<char> {
    match d.roll {
        None => int_decimal(d.bonus as int),
        Some(r) => if d.bonus == 0 { roll_text(r) } else { roll_text(r) + signed_decimal(d.bonus as int) },
    }
}

impl WeaponDamage {
    /// The damage as the item details show it (the damage type is shown apart).
    pub fn text(&self) -> (s: String)
        ensures
            s@ == damage_text(*self),
    {
        let mut s = String::new();
        match self.roll {
            None => push_int(&mut s, self.bonus as i64),
            Some(r) => {
                s = r.to_string();
                if self.bonus != 0 {
                    push_signed(&mut s, self.bonus as i64);
                }
            },
        }
        assert(s@ =~= damage_text(*self));
        s
    }
}

impl Range {
    /// The range as the item details show it: `<short> ft. / <long> ft.`
    pub fn text(&self) -> (s: String)
        ensures
            s@ == decimal(self.short_range as nat) + " ft. / "@ + decimal(self.long_range as nat) + " ft."@,
    {
        let mut s = String::new();
        push_decimal(&mut s, self.short_range as u64);
        s.append(" ft. / ");
        push_decimal(&mut s, self.long_range as u64);
        s.append(" ft.");
        assert(s@ =~= decimal(self.short_range as nat) + " ft. / "@ + decimal(self.long_range as nat) + " ft."@);
        s
    }
}

/// Whether two weapons are alike in every part.
pub open spec fn same_weapon(a: Weapon, b: Weapon) -> bool {
    &&& a.kind == b.kind
    &&& a.classification == b.classification
    &&& a.damage == b.damage
    &&& a.properties@ == b.properties@
    &&& a.range == b.range
}

impl Weapon {
    /// A copy of the weapon.
    pub fn duplicate(&self) -> (r: Weapon)
        ensures
            same_weapon(r, *self),
    {
        Weapon {
            kind: self.kind,
            classification: self.classification.clone(),
            damage: self.damage,
            properties: copy_vec(&self.properties),
            range: self.range,
        }
    }
}

} // verus!
