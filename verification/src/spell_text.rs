//! The texts of a spell's row in the spells panel and of its details: casting time, range,
//! area, duration, components, the check and damage columns, and how it is cast.

use vstd::prelude::*;
use crate::ability::{spec_abbreviated_name, Ability};
use crate::roll::{roll_text, Roll};
use crate::spells::{spec_rank_suffix, rank_suffix, to_upper_case, upper_case};
use crate::text::{decimal, int_decimal, push_decimal, push_int, push_signed, signed_decimal};

verus! {

/// How long a spell takes to cast.
pub enum CastingDuration {
    Action,
    Bonus,
    /// A reaction, to the trigger when one is given.
    Reaction(Option<String>),
    /// An amount of a unit of time, such as 10 and `minutes`.
    Unit(u32, String),
}

/// The casting time in the spell row: `1A`, `1BA`, `1R`, or the amount and the first letter
/// of the unit (`10m`).
pub open spec fn casting_time_short(d: CastingDuration) -> Seq<char> {
    match d {
        CastingDuration::Action => "1A"@,
        CastingDuration::Bonus => "1BA"@,
        CastingDuration::Reaction(_) => "1R"@,
        CastingDuration::Unit(amount, unit) => decimal(amount as nat) + unit@.subrange(0, 1),
    }
}

/// The casting time of a spell row (a unit of time must be named by at least one letter).
pub fn casting_time_column(d: &CastingDuration) -> (s: String)
    requires
        d matches CastingDuration::Unit(_, unit) ==> unit@.len() > 0,
    ensures
        s@ == casting_time_short(*d),
{
    match d {
        CastingDuration::Action => "1A".to_owned(),
        CastingDuration::Bonus => "1BA".to_owned(),
        CastingDuration::Reaction(_) => "1R".to_owned(),
        CastingDuration::Unit(amount, unit) => {
            let mut s = String::new();
            push_decimal(&mut s, *amount as u64);
            s.append(unit.as_str().substring_char(0, 1));
            assert(s@ =~= casting_time_short(*d));
            s
        },
    }
}

/// The casting time in the spell details: `1 action`, `1 bonus action`, `1 reaction` (with
/// its trigger in brackets), or the amount and unit; ` (ritual)` after it for a ritual.
pub open spec fn casting_time_long(d: CastingDuration, ritual: bool) -> Seq<char> {
    (match d {
        CastingDuration::Action => "1 action"@,
        CastingDuration::Bonus => "1 bonus action"@,
        CastingDuration::Reaction(None) => "1 reaction"@,
        CastingDuration::Reaction(Some(trigger)) => "1 reaction ("@ + trigger@ + ")"@,
        CastingDuration::Unit(amount, unit) => decimal(amount as nat) + " "@ + unit@,
    }) + if ritual { " (ritual)"@ } else { Seq::empty() }
}

/// The casting time line of the spell details.
pub fn casting_time_text(d: &CastingDuration, ritual: bool) -> (s: String)
    ensures
        s@ == casting_time_long(*d, ritual),
{
    let mut s = String::new();
    match d {
        CastingDuration::Action => s.append("1 action"),
        CastingDuration::Bonus => s.append("1 bonus action"),
        CastingDuration::Reaction(None) => s.append("1 reaction"),
        CastingDuration::Reaction(Some(trigger)) => {
            s.append("1 reaction (");
            s.append(trigger.as_str());
            s.append(")");
        },
        CastingDuration::Unit(amount, unit) => {
            push_decimal(&mut s, *amount as u64);
            s.append(" ");
            s.append(unit.as_str());
        },
    }
    if ritual {
        s.append(" (ritual)");
    }
    assert(s@ =~= casting_time_long(*d, ritual));
    s
}

/// How far a spell reaches.
pub enum SpellRange {
    OnlySelf,
    Touch,
    Unit { distance: u32, unit: String },
    Sight,
    Unlimited,
}

/// The range of a spell: `Self`, `Touch`, the distance and unit, `Sight` or `Unlimited`.
pub open spec fn range_words(r: SpellRange) -> Seq<char> {
    match r {
        SpellRange::OnlySelf => "Self"@,
        SpellRange::Touch => "Touch"@,
        SpellRange::Unit { distance, unit } => decimal(distance as nat) + " "@ + unit@,
        SpellRange::Sight => "Sight"@,
        SpellRange::Unlimited => "Unlimited"@,
    }
}

/// The range of a spell as the row and the details show it.
pub fn range_text(r: &SpellRange) -> (s: String)
    ensures
        s@ == range_words(*r),
{
    match r {
        SpellRange::OnlySelf => "Self".to_owned(),
        SpellRange::Touch => "Touch".to_owned(),
        SpellRange::Unit { distance, unit } => {
            let mut s = String::new();
            push_decimal(&mut s, *distance as u64);
            s.append(" ");
            s.append(unit.as_str());
            assert(s@ =~= range_words(*r));
            s
        },
        SpellRange::Sight => "Sight".to_owned(),
        SpellRange::Unlimited => "Unlimited".to_owned(),
    }
}

/// The rank line of the spell details: `Cantrip`, or the rank with its suffix and ` Level`.
pub fn rank_line(rank: u8) -> (s: String)
    ensures
        s@ == if rank == 0 { "Cantrip"@ } else { decimal(rank as nat) + spec_rank_suffix(rank) + " Level"@ },
{
    let mut s = String::new();
    if rank == 0 {
        s.append("Cantrip");
    } else {
        push_decimal(&mut s, rank as u64);
        s.append(rank_suffix(rank));
        s.append(" Level");
    }
    assert(s@ =~= if rank == 0 { "Cantrip"@ } else { decimal(rank as nat) + spec_rank_suffix(rank) + " Level"@ });
    s
}

/// How long a spell lasts.
pub enum DurationKind {
    Instantaneous,
    Unit(u32, String),
    Special,
}

/// The duration line of the spell details, with ` (requires concentration)` when it does.
pub open spec fn duration_words(d: DurationKind, concentration: bool) -> Seq<char> {
    (match d {
        DurationKind::Instantaneous => "Instantaneous"@,
        DurationKind::Unit(amount, unit) => decimal(amount as nat) + " "@ + unit@,
        DurationKind::Special => "Special"@,
    }) + if concentration { " (requires concentration)"@ } else { Seq::empty() }
}

/// The duration of a spell as the details show it.
pub fn duration_text(d: &DurationKind, concentration: bool) -> (s: String)
    ensures
        s@ == duration_words(*d, concentration),
{
    let mut s = String::new();
    match d {
        DurationKind::Instantaneous => s.append("Instantaneous"),
        DurationKind::Unit(amount, unit) => {
            push_decimal(&mut s, *amount as u64);
            s.append(" ");
            s.append(unit.as_str());
        },
        DurationKind::Special => s.append("Special"),
    }
    if concentration {
        s.append(" (requires concentration)");
    }
    assert(s@ =~= duration_words(*d, concentration));
    s
}

/// The area of a spell as its details show it, such as `20ft. Sphere` or `10ft. x 40ft. Cylinder`.
pub open spec fn spell_area_words(a: crate::actions::AreaOfEffect) -> Seq<char> {
    match a {
        crate::actions::AreaOfEffect::Cone { length } => decimal(length as nat) + "ft. Cone"@,
        crate::actions::AreaOfEffect::Cube { size } => decimal(size as nat) + "ft. Cube"@,
        crate::actions::AreaOfEffect::Cylinder { radius, height } => decimal(radius as nat) + "ft. x "@
            + decimal(height as nat) + "ft. Cylinder"@,
        crate::actions::AreaOfEffect::Line { width, length } => decimal(width as nat) + "ft. x "@
            + decimal(length as nat) + "ft. Line"@,
        crate::actions::AreaOfEffect::Sphere { radius } => decimal(radius as nat) + "ft. Sphere"@,
    }
}

/// The area of effect line of the spell details.
pub fn spell_area_text(a: crate::actions::AreaOfEffect) -> (s: String)
    ensures
        s@ == spell_area_words(a),
{
    let mut s = String::new();
    match a {
        crate::actions::AreaOfEffect::Cone { length } => {
            push_decimal(&mut s, length as u64);
            s.append("ft. Cone");
        },
        crate::actions::AreaOfEffect::Cube { size } => {
            push_decimal(&mut s, size as u64);
            s.append("ft. Cube");
        },
        crate::actions::AreaOfEffect::Cylinder { radius, height } => {
            push_decimal(&mut s, radius as u64);
            s.append("ft. x ");
            push_decimal(&mut s, height as u64);
            s.append("ft. Cylinder");
        },
        crate::actions::AreaOfEffect::Line { width, length } => {
            push_decimal(&mut s, width as u64);
            s.append("ft. x ");
            push_decimal(&mut s, length as u64);
            s.append("ft. Line");
        },
        crate::actions::AreaOfEffect::Sphere { radius } => {
            push_decimal(&mut s, radius as u64);
            s.append("ft. Sphere");
        },
    }
    assert(s@ =~= spell_area_words(a));
    s
}

/// The components list of the spell details: `Verbal`, `Somatic`, then each material as
/// `Material: <material>`, followed by ` (consumed)` when the casting uses it up.
pub open spec fn component_words(verbal: bool, somatic: bool, materials: Seq<(Seq<char>, bool)>) -> Seq<Seq<char>> {
    (if verbal { seq!["Verbal"@] } else { Seq::empty() })
        + (if somatic { seq!["Somatic"@] } else { Seq::empty() })
        + materials.map_values(|m: (Seq<char>, bool)| "Material: "@ + m.0 + if m.1 { " (consumed)"@ } else { Seq::empty() })
}

/// The entries of the components list.
pub fn component_items(verbal: bool, somatic: bool, materials: &Vec<(String, bool)>) -> (r: Vec<String>)
    ensures
        r@.map_values(|s: String| s@) == component_words(verbal, somatic, materials@.map_values(|m: (String, bool)| (m.0@, m.1))),
{
    let ghost mv = materials@.map_values(|m: (String, bool)| (m.0@, m.1));
    let ghost f = |m: (Seq<char>, bool)| "Material: "@ + m.0 + if m.1 { " (consumed)"@ } else { Seq::empty() };
    let mut r: Vec<String> = Vec::new();
    if verbal {
        r.push("Verbal".to_owned());
    }
    if somatic {
        r.push("Somatic".to_owned());
    }
    let ghost head = r@.map_values(|s: String| s@);
    assert(head =~= (if verbal { seq!["Verbal"@] } else { Seq::empty() })
        + (if somatic { seq!["Somatic"@] } else { Seq::empty() }));
    let mut i: usize = 0;
    while i < materials.len()
        invariant
            i <= materials@.len(),
            mv == materials@.map_values(|m: (String, bool)| (m.0@, m.1)),
            f == (|m: (Seq<char>, bool)| "Material: "@ + m.0 + if m.1 { " (consumed)"@ } else { Seq::empty() }),
            r@.map_values(|s: String| s@) == head + mv.take(i as int).map_values(f),
        decreases materials@.len() - i,
    {
        let ghost before = r@.map_values(|s: String| s@);
        let mut line = "Material: ".to_owned();
        line.append(materials[i].0.as_str());
        if materials[i].1 {
            line.append(" (consumed)");
        }
        r.push(line);
        proof {
            assert(mv.take(i as int + 1) =~= mv.take(i as int).push(mv[i as int]));
            assert(mv.take(i as int + 1).map_values(f) =~= mv.take(i as int).map_values(f).push(f(mv[i as int])));
            assert(r@.map_values(|s: String| s@) =~= before.push(f(mv[i as int])));
        }
        i = i + 1;
    }
    assert(mv.take(mv.len() as int) =~= mv);
    r
}

/// Where a spell's module comes from.
pub enum ModuleSource {
    Local { name: String },
    Github { user_org: String, repository: String },
}

/// The source line of the spell details: `<name> (local)` or `<user>:<repository> (github)`.
pub fn module_source_text(m: &ModuleSource) -> (s: String)
    ensures
        s@ == match *m {
            ModuleSource::Local { name } => name@ + " (local)"@,
            ModuleSource::Github { user_org, repository } => user_org@ + ":"@ + repository@ + " (github)"@,
        },
{
    let mut s = String::new();
    match m {
        ModuleSource::Local { name } => {
            s.append(name.as_str());
            s.append(" (local)");
        },
        ModuleSource::Github { user_org, repository } => {
            s.append(user_org.as_str());
            s.append(":");
            s.append(repository.as_str());
            s.append(" (github)");
        },
    }
    assert(s@ =~= match *m {
        ModuleSource::Local { name } => name@ + " (local)"@,
        ModuleSource::Github { user_org, repository } => user_org@ + ":"@ + repository@ + " (github)"@,
    });
    s
}

/// What a spell asks of its target.
#[derive(Clone, Copy, Debug, PartialEq, Eq, Structural)]
pub enum SpellCheck {
    AttackRoll,
    /// A saving throw of an ability, against a fixed difficulty when one is given.
    SavingThrow(Ability, Option<i32>),
}

/// The check column of a spell row: `--` without a check; the attack modifier with its sign;
/// or the saving throw's ability (upper-cased by `convert_case`) and difficulty, which is the
/// fixed one or 8 plus the attack modifier.
pub open spec fn check_words(check: Option<SpellCheck>, modifier: i32) -> Seq<char> {
    match check {
        None => "--"@,
        Some(SpellCheck::AttackRoll) => signed_decimal(modifier as int),
        Some(SpellCheck::SavingThrow(ability, fixed)) => upper_case(spec_abbreviated_name(ability)) + " "@
            + int_decimal(match fixed { Some(dc) => dc as int, None => 8 + modifier }),
    }
}

/// The check column of a spell row, given the caster's attack modifier (ability modifier plus
/// proficiency bonus).
pub fn check_column(check: Option<SpellCheck>, modifier: i32) -> (s: String)
    requires
        modifier <= i32::MAX - 8,
    ensures
        s@ == check_words(check, modifier),
{
    let mut s = String::new();
    match check {
        None => s.append("--"),
        Some(SpellCheck::AttackRoll) => push_signed(&mut s, modifier as i64),
        Some(SpellCheck::SavingThrow(ability, fixed)) => {
            let upper = to_upper_case(ability.abbreviated_name());
            s.append(upper.as_str());
            s.append(" ");
            let dc = match fixed {
                Some(dc) => dc,
                None => 8 + modifier,
            };
            push_int(&mut s, dc as i64);
        },
    }
    assert(s@ =~= check_words(check, modifier));
    s
}

/// The rolls of a damage column joined by `+`.
pub open spec fn joined_rolls(rolls: Seq<Roll>) -> Seq<char>
    decreases rolls.len(),
{
    if rolls.len() == 0 {
        Seq::empty()
    } else if rolls.len() == 1 {
        roll_text(rolls[0])
    } else {
        joined_rolls(rolls.drop_last()) + "+"@ + roll_text(rolls.last())
    }
}

/// The damage column of a spell row: its rolls joined by `+`, then the bonus with its sign
/// when it is not zero.
pub fn damage_column(rolls: &Vec<Roll>, bonus: i32) -> (s: String)
    ensures
        s@ == joined_rolls(rolls@) + if bonus != 0 { signed_decimal(bonus as int) } else { Seq::empty() },
{
    let mut s = String::new();
    let mut i: usize = 0;
    while i < rolls.len()
        invariant
            i <= rolls@.len(),
            s@ == joined_rolls(rolls@.take(i as int)),
        decreases rolls@.len() - i,
    {
        let ghost before = s@;
        if i != 0 {
            s.append("+");
        }
        let r = rolls[i].to_string();
        s.append(r.as_str());
        proof {
            assert(rolls@.take(i as int + 1).drop_last() =~= rolls@.take(i as int));
            if i == 0 {
                assert(rolls@.take(1) =~= seq![rolls@[0]]);
            }
        }
        i = i + 1;
    }
    assert(rolls@.take(rolls@.len() as int) =~= rolls@);
    if bonus != 0 {
        push_signed(&mut s, bonus as i64);
    }
    s
}

/// How a spell row's button casts the spell.
#[derive(Clone, Copy, Debug, PartialEq, Eq)]
pub enum UseSpell {
    /// Only as a ritual.
    RitualOnly,
    /// A cantrip, at will.
    AtWill,
    /// With a slot of the section's rank (slots used and total, when the rank has slots).
    Slot { spell_rank: u8, slot_rank: u8, slots: Option<(usize, usize)> },
    /// With one of a limited number of uses.
    LimitedUse { uses_consumed: u32, max_uses: u32 },
}

/// How the spell of a row is cast: a ritual-only listing as a ritual; a cantrip without
/// limited uses at will; another spell without limited uses with a slot of the section;
/// otherwise with its limited uses.
pub fn use_kind(
    ritual_only: bool,
    spell_rank: u8,
    section_rank: u8,
    slots: Option<(usize, usize)>,
    limited_uses: Option<(u32, u32)>,
) -> (r: UseSpell)
    ensures
        r == if ritual_only {
            UseSpell::RitualOnly
        } else {
            match limited_uses {
                None => if spell_rank == 0 {
                    UseSpell::AtWill
                } else {
                    UseSpell::Slot { spell_rank, slot_rank: section_rank, slots }
                },
                Some((consumed, max)) => UseSpell::LimitedUse { uses_consumed: consumed, max_uses: max },
            }
        },
{
    if ritual_only {
        UseSpell::RitualOnly
    } else {
        match limited_uses {
            None => if spell_rank == 0 {
                UseSpell::AtWill
            } else {
                UseSpell::Slot { spell_rank, slot_rank: section_rank, slots }
            },
            Some((consumed, max)) => UseSpell::LimitedUse { uses_consumed: consumed, max_uses: max },
        }
    }
}

/// The note after the source of a spell cast with limited uses: the uses left of the total,
/// and the rest that restores them, such as `(2/3 per Long rest)`.
pub fn limited_use_note(uses_consumed: u32, max_uses: u32, reset_rest: Option<&str>) -> (s: String)
    ensures
        s@ == "("@ + decimal((if uses_consumed >= max_uses { 0 } else { max_uses - uses_consumed }) as nat) + "/"@
            + decimal(max_uses as nat) + match reset_rest { Some(rest) => " per "@ + rest@ + " rest"@, None => Seq::empty() }
            + ")"@,
{
    let mut s = String::new();
    s.append("(");
    push_decimal(&mut s, max_uses.saturating_sub(uses_consumed) as u64);
    s.append("/");
    push_decimal(&mut s, max_uses as u64);
    match reset_rest {
        Some(rest) => {
            s.append(" per ");
            s.append(rest);
            s.append(" rest");
        },
        None => {},
    }
    s.append(")");
    assert(s@ =~= "("@ + decimal((if uses_consumed >= max_uses { 0 } else { max_uses - uses_consumed }) as nat) + "/"@
        + decimal(max_uses as nat) + match reset_rest { Some(rest) => " per "@ + rest@ + " rest"@, None => Seq::empty() }
        + ")"@);
    s
}

/// Whether the ritual mark is shown on a spell row: the spell is a ritual, and it is listed
/// as a ritual only or its caster may cast the rituals it has selected.
pub fn shows_ritual_mark(is_ritual: bool, ritual_only: bool, caster_casts_selected_rituals: bool) -> (r: bool)
    ensures
        r == (is_ritual && (ritual_only || caster_casts_selected_rituals)),
{
    is_ritual && (ritual_only || caster_casts_selected_rituals)
}

/// The footer of a caster's spell modal for one kind of spell, such as `Cantrips: 2 / 3`,
/// and whether it is marked as a warning (fewer chosen than allowed).
pub fn capacity_text(name: &str, num: usize, max: usize) -> (r: (String, bool))
    ensures
        r.0@ == name@ + ": "@ + decimal(num as nat) + " / "@ + decimal(max as nat),
        r.1 == (num < max),
{
    let mut s = String::new();
    s.append(name);
    s.append(": ");
    push_decimal(&mut s, num as u64);
    s.append(" / ");
    push_decimal(&mut s, max as u64);
    assert(s@ =~= name@ + ": "@ + decimal(num as nat) + " / "@ + decimal(max as nat));
    (s, num < max)
}

/// Values joined by ` | `, each with its sign (`+2 | -1`) or as a plain number.
pub open spec fn joined_values(values: Seq<i32>, signed: bool) -> Seq<char>
    decreases values.len(),
{
    let text = |v: i32| if signed { signed_decimal(v as int) } else { int_decimal(v as int) };
    if values.len() == 0 {
        Seq::empty()
    } else if values.len() == 1 {
        text(values[0])
    } else {
        joined_values(values.drop_last(), signed) + " | "@ + text(values.last())
    }
}

/// A row of the casters' statistics in the spells panel (one value per caster): modifiers
/// and attack bonuses are shown with their sign, save difficulties as plain numbers.
pub fn stats_line(values: &Vec<i32>, signed: bool) -> (s: String)
    ensures
        s@ == joined_values(values@, signed),
{
    let mut s = String::new();
    let mut i: usize = 0;
    while i < values.len()
        invariant
            i <= values@.len(),
            s@ == joined_values(values@.take(i as int), signed),
        decreases values@.len() - i,
    {
        if i != 0 {
            s.append(" | ");
        }
        if signed {
            push_signed(&mut s, values[i] as i64);
        } else {
            push_int(&mut s, values[i] as i64);
        }
        proof {
            assert(values@.take(i as int + 1).drop_last() =~= values@.take(i as int));
            if i == 0 {
                assert(values@.take(1) =~= seq![values@[0]]);
            }
        }
        i = i + 1;
    }
    assert(values@.take(values@.len() as int) =~= values@);
    s
}

/// The save difficulty of a caster: 8 plus its attack bonus (ability modifier and proficiency).
pub fn caster_save_dc(attack_bonus: i32) -> (r: i32)
    requires
        attack_bonus <= i32::MAX - 8,
    ensures
        r == 8 + attack_bonus,
{
    8 + attack_bonus
}

} // verus!
