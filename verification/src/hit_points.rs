//! Hit points: healing, damage, temporary hit points and death saving throws.

use vstd::prelude::*;
use crate::text::{parse_u32, spec_parse_u32};

verus! {

/// The hit points of a character and its death saving throw tallies.
#[derive(Clone, Copy, Debug, PartialEq, Eq, Structural)]
pub struct HitPoints {
    pub current: u32,
    /// Temporary hit points: a buffer lost before real hit points.
    pub temp: u32,
    pub failure_saves: u8,
    pub success_saves: u8,
}

/// The smaller of two numbers.
pub open spec fn min(a: int, b: int) -> int {
    if a <= b { a } else { b }
}

/// Hit points after healing `amount`: they rise but never past the maximum (hit points
/// already above the maximum stay). Regaining any hit point resets both death save tallies.
pub open spec fn spec_heal(hp: HitPoints, amount: nat, max: nat) -> HitPoints {
    let current = if hp.current >= max { hp.current as int } else { min(hp.current + amount, max as int) };
    HitPoints {
        current: current as u32,
        temp: hp.temp,
        failure_saves: if current > hp.current { 0 } else { hp.failure_saves },
        success_saves: if current > hp.current { 0 } else { hp.success_saves },
    }
}

/// Hit points after taking `amount` damage: temporary hit points are lost first and the rest
/// of the damage comes off the current hit points, which stop at zero.
pub open spec fn spec_damage(hp: HitPoints, amount: nat) -> HitPoints {
    let absorbed = min(hp.temp as int, amount as int);
    let rest = amount - absorbed;
    HitPoints {
        current: (hp.current - min(hp.current as int, rest)) as u32,
        temp: (hp.temp - absorbed) as u32,
        failure_saves: hp.failure_saves,
        success_saves: hp.success_saves,
    }
}

/// Hit points after a change of `delta`: healing when positive, damage when negative.
pub open spec fn spec_plus_hp(hp: HitPoints, delta: int, max: nat) -> HitPoints {
    if delta >= 0 {
        spec_heal(hp, delta as nat, max)
    } else {
        spec_damage(hp, (-delta) as nat)
    }
}

impl HitPoints {
    /// The hit points after healing (positive `delta`) or damage (negative `delta`),
    /// with `max` the hit point maximum.
    pub fn plus_hp(&self, delta: i32, max: u32) -> (r: HitPoints)
        ensures
            r == spec_plus_hp(*self, delta as int, max as nat),
    {
        if delta >= 0 {
            let amount = delta as u32;
            let current = if self.current >= max {
                self.current
            } else if amount >= max - self.current {
                max
            } else {
                self.current + amount
            };
            let regained = current > self.current;
            HitPoints {
                current,
                temp: self.temp,
                failure_saves: if regained { 0 } else { self.failure_saves },
                success_saves: if regained { 0 } else { self.success_saves },
            }
        } else {
            let amount: u32 = if delta == i32::MIN { 0x8000_0000u32 } else { (-delta) as u32 };
            let absorbed = if self.temp <= amount { self.temp } else { amount };
            let rest = amount - absorbed;
            let lost = if self.current <= rest { self.current } else { rest };
            HitPoints {
                current: self.current - lost,
                temp: self.temp - absorbed,
                failure_saves: self.failure_saves,
                success_saves: self.success_saves,
            }
        }
    }

    /// Applies a change of `delta` hit points in place (see `plus_hp`).
    pub fn apply_delta(&mut self, delta: i32, max: u32)
        ensures
            *final(self) == spec_plus_hp(*old(self), delta as int, max as nat),
    {
        *self = self.plus_hp(delta, max);
    }

    /// Sets the temporary hit points.
    pub fn set_temp(&mut self, value: u32)
        ensures
            *final(self) == (HitPoints { temp: value, ..*old(self) }),
    {
        self.temp = value;
    }
}

/// Healing never lifts hit points past the maximum, and never touches temporary hit points.
pub proof fn law_heal_bounded(hp: HitPoints, amount: nat, max: nat)
    requires
        hp.current <= max,
        max <= u32::MAX,
    ensures
        spec_heal(hp, amount, max).current <= max,
        spec_heal(hp, amount, max).current >= hp.current,
        spec_heal(hp, amount, max).temp == hp.temp,
{
}

/// Damage never raises hit points, and damage that the temporary hit points can absorb
/// leaves the current hit points untouched.
pub proof fn law_damage_absorbed_by_temp(hp: HitPoints, amount: nat)
    ensures
        spec_damage(hp, amount).current <= hp.current,
        spec_damage(hp, amount).temp <= hp.temp,
        amount <= hp.temp ==> spec_damage(hp, amount).current == hp.current
            && spec_damage(hp, amount).temp == hp.temp - amount,
        amount > hp.temp ==> spec_damage(hp, amount).temp == 0,
{
}

/// Damage without temporary hit points that does not drop the creature to zero, healed by
/// the same amount, gives back the hit points it had.
pub proof fn law_damage_then_heal(hp: HitPoints, amount: nat, max: nat)
    requires
        hp.temp == 0,
        amount < hp.current,
        hp.current <= max,
        max <= u32::MAX,
    ensures
        spec_heal(spec_damage(hp, amount), amount, max).current == hp.current,
{
}

/// The new tally of death saves after one box is ticked (`checked`) or cleared;
/// it stays within 0 to 255.
pub fn toggle_death_save(count: u8, checked: bool) -> (r: u8)
    ensures
        checked ==> r == min(count + 1, 255),
        !checked ==> r == if count == 0 { 0 } else { count - 1 },
{
    if checked {
        if count == 255 { 255 } else { count + 1 }
    } else {
        if count == 0 { 0 } else { count - 1 }
    }
}

/// Whether the death save box at `index` (0, 1 or 2) is shown ticked for a tally of `count`.
pub fn death_save_box_checked(count: u8, index: u8) -> (r: bool)
    ensures
        r == (count > index),
{
    count > index
}

/// The healing shown for a pending change: the change when positive, else zero.
pub fn healing_amount(delta: i32) -> (r: u32)
    ensures
        r == if delta > 0 { delta as int } else { 0 },
{
    if delta > 0 { delta as u32 } else { 0 }
}

/// The damage shown for a pending change: its size when negative, else zero.
pub fn damage_amount(delta: i32) -> (r: u32)
    ensures
        r == if delta < 0 { -(delta as int) } else { 0 },
{
    if delta < 0 {
        if delta == i32::MIN { 0x8000_0000u32 } else { (-delta) as u32 }
    } else {
        0
    }
}

/// One step of the pending change, up or down, saturating at the bounds of `i32`.
pub fn step_delta(delta: i32, up: bool) -> (r: i32)
    ensures
        up ==> r == if delta == i32::MAX { i32::MAX as int } else { delta + 1 },
        !up ==> r == if delta == i32::MIN { i32::MIN as int } else { delta - 1 },
{
    if up {
        if delta == i32::MAX { i32::MAX } else { delta + 1 }
    } else {
        if delta == i32::MIN { i32::MIN } else { delta - 1 }
    }
}

/// How a value changes, shown by colour.
#[derive(Clone, Copy, Debug, PartialEq, Eq, Structural)]
pub enum ChangeKind {
    Heal,
    Damage,
    Unchanged,
}

/// Whether a number rose, fell or stayed.
pub fn change_kind(previous: u32, next: u32) -> (r: ChangeKind)
    ensures
        r == if next > previous {
            ChangeKind::Heal
        } else if next < previous {
            ChangeKind::Damage
        } else {
            ChangeKind::Unchanged
        },
{
    if next > previous {
        ChangeKind::Heal
    } else if next < previous {
        ChangeKind::Damage
    } else {
        ChangeKind::Unchanged
    }
}

/// The amount typed in the quick heal/damage box: 1 when the box is empty, otherwise the
/// number typed, or none when it is not a number.
pub fn quick_amount(input: &str) -> (r: Option<u32>)
    ensures
        input@.len() == 0 ==> r == Some(1u32),
        input@.len() > 0 ==> r == spec_parse_u32(input@),
{
    if input.is_empty() {
        Some(1)
    } else {
        parse_u32(input)
    }
}

/// Whether a key press may reach a whole-number box: a single-byte key that is not a digit is
/// refused; digits and named keys (such as `Backspace`) pass.
pub fn accepts_uint_key(key: &str) -> (r: bool)
    ensures
        r == !(key.len() == 1 && spec_parse_u32(key@) is None),
{
    !(key.len() == 1 && parse_u32(key).is_none())
}

} // verus!
