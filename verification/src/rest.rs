//! Short and long rests: spending hit dice, regaining hit points and restoring uses.

use vstd::prelude::*;
use crate::hit_points::{spec_heal, HitPoints};
use crate::roll::{die_index, Die};
use crate::text::str_eq;

verus! {

/// The hit dice to be spent from one class during a short rest.
pub struct ClassHitDice {
    pub class_name: String,
    pub count: u32,
    /// Where the class keeps its tally of spent hit dice.
    pub data_path: String,
}

/// The hit dice chosen to be spent during a short rest, and the hit points rolled on them.
pub struct HitDiceToConsume {
    /// One entry per class, in the order classes were first added; class names are distinct.
    by_class: Vec<ClassHitDice>,
    /// How many dice of each kind will be rolled, indexed from d4 to d20.
    rolls: Vec<u32>,
    /// The sum the player rolled on those dice.
    rolled_hp: u32,
}

/// The entries of a selection as plain values: class name, dice count and data path.
pub open spec fn entries_view(v: Seq<ClassHitDice>) -> Seq<(Seq<char>, u32, Seq<char>)> {
    v.map_values(|e: ClassHitDice| (e.class_name@, e.count, e.data_path@))
}

/// The index of the entry for `name`, if there is one.
pub open spec fn entry_index(entries: Seq<(Seq<char>, u32, Seq<char>)>, name: Seq<char>) -> Option<int> {
    if exists|i: int| 0 <= i < entries.len() && entries[i].0 == name {
        Some(choose|i: int| 0 <= i < entries.len() && entries[i].0 == name)
    } else {
        None
    }
}

/// Whether the entries name each class at most once.
pub open spec fn distinct_names(entries: Seq<(Seq<char>, u32, Seq<char>)>) -> bool {
    forall|i: int, j: int| 0 <= i < entries.len() && 0 <= j < entries.len() && i != j
        ==> entries[i].0 != entries[j].0
}

/// The entries after `delta` dice of the class `name` are added (positive) or taken back
/// (negative): a new class is added only for a positive change; counts saturate at 0 and `u32::MAX`.
pub open spec fn entries_after_add(
    entries: Seq<(Seq<char>, u32, Seq<char>)>,
    name: Seq<char>,
    delta: int,
    path: Seq<char>,
) -> Seq<(Seq<char>, u32, Seq<char>)> {
    match entry_index(entries, name) {
        None => if delta > 0 { entries.push((name, delta as u32, path)) } else { entries },
        Some(i) => {
            let count = entries[i].1 as int;
            let new_count = if delta > 0 {
                if count + delta > u32::MAX { u32::MAX as int } else { count + delta }
            } else if delta < 0 {
                if count + delta < 0 { 0 } else { count + delta }
            } else {
                count
            };
            entries.update(i, (entries[i].0, new_count as u32, entries[i].2))
        },
    }
}

/// The total number of dice in the per-die counts.
pub open spec fn total_dice(rolls: Seq<u32>) -> nat
    decreases rolls.len(),
{
    if rolls.len() == 0 { 0 } else { total_dice(rolls.drop_last()) + rolls.last() as nat }
}

/// Hit points regained from spent hit dice: the rolled sum plus the Constitution modifier once
/// per die, never below zero.
pub open spec fn spec_hp_to_gain(rolled_hp: int, dice: int, constitution_modifier: int) -> int {
    if rolled_hp + dice * constitution_modifier >= 0 { rolled_hp + dice * constitution_modifier } else { 0 }
}

proof fn lemma_total_dice_bound(rolls: Seq<u32>)
    ensures
        total_dice(rolls) <= rolls.len() * 0x1_0000_0000,
    decreases rolls.len(),
{
    if rolls.len() > 0 {
        lemma_total_dice_bound(rolls.drop_last());
    }
}

impl HitDiceToConsume {
    /// The entries as plain values.
    pub closed spec fn entries(&self) -> Seq<(Seq<char>, u32, Seq<char>)> {
        entries_view(self.by_class@)
    }

    /// How many dice of each kind will be rolled, from d4 to d20.
    pub closed spec fn dice(&self) -> Seq<u32> {
        self.rolls@
    }

    /// The hit points the player rolled.
    pub closed spec fn rolled(&self) -> u32 {
        self.rolled_hp
    }

    /// The selection is well formed: a count for each kind of die and class names distinct.
    pub closed spec fn wf(&self) -> bool {
        self.rolls@.len() == 6 && distinct_names(self.entries())
    }

    /// An empty selection.
    pub fn new() -> (r: HitDiceToConsume)
        ensures
            r.wf(),
            r.entries().len() == 0,
            r.dice() == seq![0u32, 0, 0, 0, 0, 0],
            r.rolled() == 0,
    {
        let r = HitDiceToConsume { by_class: Vec::new(), rolls: vec![0, 0, 0, 0, 0, 0], rolled_hp: 0 };
        assert(r.entries() =~= Seq::empty());
        assert(r.dice() =~= seq![0u32, 0, 0, 0, 0, 0]);
        r
    }

    /// Adds `delta` dice (taken back when negative) of kind `die` to spend from the class
    /// `class_name`, whose spent dice are kept at `data_path`.
    pub fn add(&mut self, class_name: &str, die: Die, delta: i32, data_path: &str)
        requires
            old(self).wf(),
            delta > 0 ==> old(self).dice()[die_index(die) as int] + delta <= u32::MAX,
        ensures
            final(self).wf(),
            final(self).entries() == entries_after_add(old(self).entries(), class_name@, delta as int, data_path@),
            final(self).dice() == old(self).dice().update(
                die_index(die) as int,
                (if delta > 0 {
                    old(self).dice()[die_index(die) as int] + delta
                } else if old(self).dice()[die_index(die) as int] + delta < 0 {
                    0
                } else {
                    old(self).dice()[die_index(die) as int] + delta
                }) as u32,
            ),
            final(self).rolled() == old(self).rolled(),
    {
        let ghost old_entries = self.entries();
        let mut found: Option<usize> = None;
        let mut i: usize = 0;
        while i < self.by_class.len()
            invariant
                i <= self.by_class@.len(),
                self.entries() == old_entries,
                found is None ==> forall|j: int| 0 <= j < i ==> old_entries[j].0 != class_name@,
                found matches Some(k) ==> k < self.by_class@.len() && old_entries[k as int].0 == class_name@,
            decreases self.by_class@.len() - i,
        {
            assert(old_entries[i as int].0 == self.by_class@[i as int].class_name@);
            if found.is_none() && str_eq(self.by_class[i].class_name.as_str(), class_name) {
                found = Some(i);
            }
            i = i + 1;
        }
        proof {
            match found {
                Some(k) => {
                    assert(old_entries[k as int].0 == class_name@);
                    let c = entry_index(old_entries, class_name@);
                    assert(c is Some);
                    let ci = c->0;
                    assert(old_entries[ci].0 == class_name@);
                    assert(ci == k);
                },
                None => {
                    assert(entry_index(old_entries, class_name@) is None);
                },
            }
        }
        match found {
            None => {
                if delta > 0 {
                    self.by_class.push(ClassHitDice {
                        class_name: class_name.to_owned(),
                        count: delta as u32,
                        data_path: data_path.to_owned(),
                    });
                    assert(self.entries() =~= old_entries.push((class_name@, delta as u32, data_path@)));
                }
            },
            Some(k) => {
                let mut entry = self.by_class.remove(k);
                if delta > 0 {
                    let d = delta as u32;
                    entry.count = if entry.count > u32::MAX - d { u32::MAX } else { entry.count + d };
                } else if delta < 0 {
                    let d: u32 = if delta == i32::MIN { 0x8000_0000u32 } else { (-delta) as u32 };
                    entry.count = if entry.count < d { 0 } else { entry.count - d };
                }
                self.by_class.insert(k, entry);
                assert(self.entries() =~= entries_after_add(old_entries, class_name@, delta as int, data_path@));
            },
        }
        let idx: usize = match die {
            Die::D4 => 0,
            Die::D6 => 1,
            Die::D8 => 2,
            Die::D10 => 3,
            Die::D12 => 4,
            Die::D20 => 5,
        };
        let current = self.rolls[idx];
        if delta > 0 {
            self.rolls.set(idx, current + delta as u32);
        } else {
            let d: u32 = if delta == i32::MIN { 0x8000_0000u32 } else { (-delta) as u32 };
            self.rolls.set(idx, if current < d { 0 } else { current - d });
        }
    }

    /// The hit points the player rolled.
    pub fn rolled_hp(&self) -> (r: u32)
        ensures
            r == self.rolled(),
    {
        self.rolled_hp
    }

    /// Sets the hit points the player rolled.
    pub fn set_rolled_hp(&mut self, rolled_hp: u32)
        ensures
            final(self).entries() == old(self).entries(),
            final(self).dice() == old(self).dice(),
            final(self).rolled() == rolled_hp,
            old(self).wf() ==> final(self).wf(),
    {
        self.rolled_hp = rolled_hp;
    }

    /// The number of dice to roll.
    pub fn total_num_rolls(&self) -> (r: u64)
        requires
            self.wf(),
        ensures
            r == total_dice(self.dice()),
    {
        let mut total: u64 = 0;
        let mut i: usize = 0;
        while i < self.rolls.len()
            invariant
                self.rolls@.len() == 6,
                i <= 6,
                total == total_dice(self.rolls@.take(i as int)),
            decreases 6 - i,
        {
            proof {
                assert(self.rolls@.take(i as int + 1).drop_last() =~= self.rolls@.take(i as int));
                lemma_total_dice_bound(self.rolls@.take(i as int + 1));
            }
            total = total + self.rolls[i] as u64;
            i = i + 1;
        }
        assert(self.rolls@.take(6) =~= self.rolls@);
        total
    }

    /// Whether no die is chosen.
    pub fn is_empty(&self) -> (r: bool)
        requires
            self.wf(),
        ensures
            r == (total_dice(self.dice()) == 0),
    {
        self.total_num_rolls() == 0
    }

    /// Whether the rest can be taken: no dice are chosen, or some hit points were rolled.
    pub fn has_valid_input(&self) -> (r: bool)
        requires
            self.wf(),
        ensures
            r == (total_dice(self.dice()) == 0 || self.rolled() > 0),
    {
        self.total_num_rolls() == 0 || self.rolled_hp > 0
    }

    /// The hit points the rest restores: the rolled sum plus the Constitution modifier
    /// once per die, never below zero.
    pub fn hp_to_gain(&self, constitution_modifier: i32) -> (r: u128)
        requires
            self.wf(),
        ensures
            r == spec_hp_to_gain(self.rolled() as int, total_dice(self.dice()) as int, constitution_modifier as int),
    {
        let dice = self.total_num_rolls();
        proof {
            lemma_total_dice_bound(self.rolls@);
            assert(dice as int * constitution_modifier as int <= 0x8_0000_0000 * 0x8000_0000) by (nonlinear_arith)
                requires dice <= 0x8_0000_0000, -0x8000_0000 <= constitution_modifier < 0x8000_0000;
            assert(dice as int * constitution_modifier as int >= -0x8_0000_0000 * 0x8000_0000) by (nonlinear_arith)
                requires dice <= 0x8_0000_0000, -0x8000_0000 <= constitution_modifier < 0x8000_0000;
        }
        let total: i128 = self.rolled_hp as i128 + dice as i128 * constitution_modifier as i128;
        if total >= 0 { total as u128 } else { 0 }
    }

    /// The dice to spend per class, with where each class keeps its tally, in the order added.
    pub fn consumed_uses(&self) -> (r: Vec<(u32, String)>)
        ensures
            r@.len() == self.entries().len(),
            forall|i: int| 0 <= i < r@.len() ==> (#[trigger] r@[i]).0 == self.entries()[i].1
                && r@[i].1@ == self.entries()[i].2,
    {
        let mut r: Vec<(u32, String)> = Vec::new();
        let mut i: usize = 0;
        while i < self.by_class.len()
            invariant
                i <= self.by_class@.len(),
                r@.len() == i,
                forall|j: int| 0 <= j < i ==> (#[trigger] r@[j]).0 == self.entries()[j].1
                    && r@[j].1@ == self.entries()[j].2,
            decreases self.by_class@.len() - i,
        {
            let entry = &self.by_class[i];
            r.push((entry.count, entry.data_path.clone()));
            i = i + 1;
        }
        r
    }
}

proof fn lemma_entry_index_unique(entries: Seq<(Seq<char>, u32, Seq<char>)>, name: Seq<char>, i: int)
    requires
        distinct_names(entries),
        0 <= i < entries.len(),
        entries[i].0 == name,
    ensures
        entry_index(entries, name) == Some(i),
{
}

/// Choosing `delta` more dice of a class already in the selection and then taking the same
/// number back leaves its count as it was, when the count did not saturate.
pub proof fn law_add_then_take_back(
    entries: Seq<(Seq<char>, u32, Seq<char>)>,
    name: Seq<char>,
    delta: int,
    path: Seq<char>,
    i: int,
)
    requires
        distinct_names(entries),
        0 <= i < entries.len(),
        entries[i].0 == name,
        0 < delta,
        entries[i].1 + delta <= u32::MAX,
    ensures
        entries_after_add(entries_after_add(entries, name, delta, path), name, -delta, path) == entries,
{
    lemma_entry_index_unique(entries, name, i);
    let mid = entries_after_add(entries, name, delta, path);
    assert(distinct_names(mid));
    lemma_entry_index_unique(mid, name, i);
    assert(entries_after_add(mid, name, -delta, path) =~= entries);
}

/// After a long rest: hit points at the maximum, no temporary hit points, no death saves.
pub fn long_rest(max_hp: u32) -> (r: HitPoints)
    ensures
        r == (HitPoints { current: max_hp, temp: 0, failure_saves: 0, success_saves: 0 }),
{
    HitPoints { current: max_hp, temp: 0, failure_saves: 0, success_saves: 0 }
}

/// After a short rest: the hit points gained from the hit dice spent are added to the
/// current hit points; temporary hit points and death saves stay as they were.
pub fn short_rest(hp: HitPoints, gained: u128) -> (r: HitPoints)
    requires
        hp.current + gained <= u32::MAX,
    ensures
        r == (HitPoints { current: (hp.current + gained) as u32, ..hp }),
{
    HitPoints { current: hp.current + gained as u32, ..hp }
}

/// The new tally of spent hit dice of a class after spending `used` more (none kept counts as zero).
pub fn spend_hit_dice(spent: Option<u32>, used: u32) -> (r: u32)
    ensures
        r == ({
            let s = match spent { Some(s) => s as int, None => 0 };
            if s + used > u32::MAX { u32::MAX as int } else { s + used }
        }),
{
    let s = match spent {
        Some(s) => s,
        None => 0,
    };
    if s > u32::MAX - used { u32::MAX } else { s + used }
}

/// The tally stored for a feature's uses after a rest restores `restored` of them: cleared
/// (none stored) when all are restored, otherwise the stored tally (none counts as zero) plus
/// the amount, held within the range of a `u32` (as `saturating_add`).
pub fn restore_uses(spent: Option<u32>, restored: Option<u32>) -> (r: Option<u32>)
    ensures
        restored is None ==> r is None,
        restored matches Some(n) ==> r == Some(({
            let s = match spent { Some(s) => s as int, None => 0 };
            if s + n > u32::MAX { u32::MAX as int } else { s + n }
        }) as u32),
{
    match restored {
        None => None,
        Some(n) => {
            let s = match spent {
                Some(s) => s,
                None => 0,
            };
            Some(s.saturating_add(n))
        },
    }
}

/// The total level of all classes with hit die `die`.
pub open spec fn levels_with_die(classes: Seq<(Die, u32)>, die: Die) -> nat
    decreases classes.len(),
{
    if classes.len() == 0 {
        0
    } else {
        levels_with_die(classes.drop_last(), die) + if classes.last().0 == die { classes.last().1 as nat } else { 0 }
    }
}

/// All dice from largest to smallest.
pub open spec fn dice_descending() -> Seq<Die> {
    seq![Die::D20, Die::D12, Die::D10, Die::D8, Die::D6, Die::D4]
}

/// Half the hit dice of each kind, largest die first, leaving out kinds with none.
pub open spec fn halves(classes: Seq<(Die, u32)>) -> Seq<(u64, Die)> {
    dice_descending().map_values(|d: Die| ((levels_with_die(classes, d) / 2) as u64, d)).filter(
        |e: (u64, Die)| e.0 > 0,
    )
}

/// The hit dice a long rest restores, as shown before the rest: half of each kind of die
/// (rounded down), largest first, leaving out kinds of which that is none.
pub open spec fn spec_hit_dice_regained(classes: Seq<(Die, u32)>) -> Seq<(u64, Die)> {
    halves(classes)
}

proof fn lemma_levels_bound(classes: Seq<(Die, u32)>, die: Die)
    ensures
        levels_with_die(classes, die) <= classes.len() * 0x1_0000_0000,
    decreases classes.len(),
{
    if classes.len() > 0 {
        lemma_levels_bound(classes.drop_last(), die);
    }
}

fn levels_of(classes: &Vec<(Die, u32)>, die: Die) -> (r: u64)
    requires
        classes@.len() <= u32::MAX,
    ensures
        r == levels_with_die(classes@, die),
{
    let mut total: u64 = 0;
    let mut i: usize = 0;
    while i < classes.len()
        invariant
            i <= classes@.len(),
            classes@.len() <= u32::MAX,
            total == levels_with_die(classes@.take(i as int), die),
        decreases classes@.len() - i,
    {
        proof {
            assert(classes@.take(i as int + 1).drop_last() =~= classes@.take(i as int));
            lemma_levels_bound(classes@.take(i as int + 1), die);
            assert((i + 1) * 0x1_0000_0000 <= 0x1_0000_0000 * 0x1_0000_0000) by (nonlinear_arith)
                requires i + 1 <= 0x1_0000_0000;
        }
        if classes[i].0 == die {
            total = total + classes[i].1 as u64;
        }
        i = i + 1;
    }
    assert(classes@.take(classes@.len() as int) =~= classes@);
    total
}

/// The hit dice a long rest restores for classes given as (hit die, class level).
pub fn hit_dice_regained(classes: &Vec<(Die, u32)>) -> (r: Vec<(u64, Die)>)
    requires
        classes@.len() <= u32::MAX,
    ensures
        r@ == spec_hit_dice_regained(classes@),
{
    let order = vec![Die::D20, Die::D12, Die::D10, Die::D8, Die::D6, Die::D4];
    assert(order@ =~= dice_descending());
    let ghost full = dice_descending().map_values(|d: Die| ((levels_with_die(classes@, d) / 2) as u64, d));
    let mut r: Vec<(u64, Die)> = Vec::new();
    let mut i: usize = 0;
    while i < order.len()
        invariant
            order@ == dice_descending(),
            classes@.len() <= u32::MAX,
            i <= 6,
            full == dice_descending().map_values(|d: Die| ((levels_with_die(classes@, d) / 2) as u64, d)),
            r@ == full.take(i as int).filter(|e: (u64, Die)| e.0 > 0),
        decreases 6 - i,
    {
        proof {
            reveal(Seq::filter);
            assert(full.take(i as int + 1).drop_last() =~= full.take(i as int));
        }
        let d = order[i];
        let levels = levels_of(classes, d);
        if levels / 2 > 0 {
            r.push((levels / 2, d));
        }
        i = i + 1;
    }
    assert(full.take(6) =~= full);
    r
}

/// The long rest restores hit dice whenever the character has at least two of a kind, and
/// of each kind it lists it restores half the dice of that kind.
pub proof fn law_long_rest_regains_some(classes: Seq<(Die, u32)>, die: Die)
    requires
        classes.len() <= u32::MAX,
        levels_with_die(classes, die) >= 2,
    ensures
        spec_hit_dice_regained(classes).len() > 0,
        forall|k: int| 0 <= k < spec_hit_dice_regained(classes).len() ==> {
            let e = #[trigger] spec_hit_dice_regained(classes)[k];
            e.0 == levels_with_die(classes, e.1) / 2 && e.0 > 0
        },
{
    let full = dice_descending().map_values(|d: Die| ((levels_with_die(classes, d) / 2) as u64, d));
    let pred = |e: (u64, Die)| e.0 > 0;
    let k = match die {
        Die::D20 => 0int,
        Die::D12 => 1,
        Die::D10 => 2,
        Die::D8 => 3,
        Die::D6 => 4,
        Die::D4 => 5,
    };
    lemma_levels_bound(classes, die);
    assert(classes.len() * 0x1_0000_0000 <= 0xFFFF_FFFF * 0x1_0000_0000) by (nonlinear_arith)
        requires classes.len() <= 0xFFFF_FFFF;
    assert(full[k] == ((levels_with_die(classes, die) / 2) as u64, die));
    full.lemma_filter_contains(pred, k);
    assert forall|j: int| 0 <= j < spec_hit_dice_regained(classes).len() implies {
        let e = #[trigger] spec_hit_dice_regained(classes)[j];
        e.0 == levels_with_die(classes, e.1) / 2 && e.0 > 0
    } by {
        full.lemma_filter_pred(pred, j);
        let e = full.filter(pred)[j];
        full.lemma_filter_contains_rev(pred, e);
        let w = choose|w: int| 0 <= w < full.len() && full[w] == e;
        lemma_levels_bound(classes, e.1);
        assert(classes.len() * 0x1_0000_0000 <= 0xFFFF_FFFF * 0x1_0000_0000) by (nonlinear_arith)
            requires classes.len() <= 0xFFFF_FFFF;
    }
}

} // verus!
