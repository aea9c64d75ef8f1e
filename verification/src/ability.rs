//! Abilities and skills: names, modifiers, the skill table and passive scores.

use vstd::prelude::*;

verus! {

/// The six ability scores of a creature.
#[derive(Clone, Copy, Debug, PartialEq, Eq, Structural, PartialOrd, Ord, Hash)]
pub enum Ability {
    Strength,
    Dexterity,
    Constitution,
    Intelligence,
    Wisdom,
    Charisma,
}

/// All abilities in declaration order.
pub open spec fn all_abilities() -> Seq<Ability> {
    seq![
        Ability::Strength,
        Ability::Dexterity,
        Ability::Constitution,
        Ability::Intelligence,
        Ability::Wisdom,
        Ability::Charisma,
    ]
}

/// The modifier that an ability score grants: the score minus ten, halved and rounded down.
pub open spec fn spec_ability_modifier(score: int) -> int {
    (score - 10) / 2
}

impl Ability {
    /// Every ability, in declaration order.
    pub fn all() -> (r: Vec<Ability>)
        ensures
            r@ == all_abilities(),
    {
        let r = vec![
            Ability::Strength,
            Ability::Dexterity,
            Ability::Constitution,
            Ability::Intelligence,
            Ability::Wisdom,
            Ability::Charisma,
        ];
        assert(r@ =~= all_abilities());
        r
    }

    /// Every ability but `excluded`, in declaration order (the complement of a one-element set).
    pub fn all_except(excluded: Ability) -> (r: Vec<Ability>)
        ensures
            r@ == all_abilities().filter(|a: Ability| a != excluded),
    {
        let all = Ability::all();
        let mut r: Vec<Ability> = Vec::new();
        let mut i: usize = 0;
        while i < all.len()
            invariant
                all@ == all_abilities(),
                i <= all@.len(),
                r@ == all@.take(i as int).filter(|a: Ability| a != excluded),
            decreases all@.len() - i,
        {
            let a = all[i];
            proof {
                reveal(Seq::filter);
                assert(all@.take(i as int + 1).drop_last() =~= all@.take(i as int));
            }
            if a != excluded {
                r.push(a);
            }
            i = i + 1;
        }
        assert(all@.take(all@.len() as int) =~= all@);
        r
    }
}

/// The full name of an ability.
pub open spec fn spec_long_name(a: Ability) -> Seq<char> {
    match a {
        Ability::Strength => "Strength"@,
        Ability::Dexterity => "Dexterity"@,
        Ability::Constitution => "Constitution"@,
        Ability::Intelligence => "Intelligence"@,
        Ability::Wisdom => "Wisdom"@,
        Ability::Charisma => "Charisma"@,
    }
}

/// The three-letter abbreviation of an ability, in lower case.
pub open spec fn spec_abbreviated_name(a: Ability) -> Seq<char> {
    match a {
        Ability::Strength => "str"@,
        Ability::Dexterity => "dex"@,
        Ability::Constitution => "con"@,
        Ability::Intelligence => "int"@,
        Ability::Wisdom => "wis"@,
        Ability::Charisma => "cha"@,
    }
}

/// The abbreviation of an ability in upper case, as shown on the sheet.
pub open spec fn spec_abbreviation_upper(a: Ability) -> Seq<char> {
    match a {
        Ability::Strength => "STR"@,
        Ability::Dexterity => "DEX"@,
        Ability::Constitution => "CON"@,
        Ability::Intelligence => "INT"@,
        Ability::Wisdom => "WIS"@,
        Ability::Charisma => "CHA"@,
    }
}

impl Ability {
    /// The full name, such as `Dexterity`.
    pub fn long_name(&self) -> (s: &'static str)
        ensures
            s@ == spec_long_name(*self),
    {
        match self {
            Ability::Strength => "Strength",
            Ability::Dexterity => "Dexterity",
            Ability::Constitution => "Constitution",
            Ability::Intelligence => "Intelligence",
            Ability::Wisdom => "Wisdom",
            Ability::Charisma => "Charisma",
        }
    }

    /// The lower-case abbreviation, such as `dex`.
    pub fn abbreviated_name(&self) -> (s: &'static str)
        ensures
            s@ == spec_abbreviated_name(*self),
    {
        match self {
            Ability::Strength => "str",
            Ability::Dexterity => "dex",
            Ability::Constitution => "con",
            Ability::Intelligence => "int",
            Ability::Wisdom => "wis",
            Ability::Charisma => "cha",
        }
    }

    /// The upper-case abbreviation, such as `DEX`.
    pub fn abbreviation_upper(&self) -> (s: &'static str)
        ensures
            s@ == spec_abbreviation_upper(*self),
    {
        match self {
            Ability::Strength => "STR",
            Ability::Dexterity => "DEX",
            Ability::Constitution => "CON",
            Ability::Intelligence => "INT",
            Ability::Wisdom => "WIS",
            Ability::Charisma => "CHA",
        }
    }
}

/// The line describing advantage or disadvantage on saving throws of an ability:
/// `on DEX`, followed by ` against` and the target when there is one.
pub open spec fn spec_saving_throw_modifier_text(a: Ability, target: Option<Seq<char>>) -> Seq<char> {
    "on "@ + spec_abbreviation_upper(a) + match target {
        Some(t) => " against "@ + t,
        None => Seq::empty(),
    }
}

/// The line describing a saving throw modifier of an ability (the glyph of the modifier is drawn apart).
pub fn saving_throw_modifier_text(ability: Ability, target: &Option<String>) -> (s: String)
    ensures
        s@ == spec_saving_throw_modifier_text(ability, match target { Some(t) => Some(t@), None => None }),
{
    let mut s = "on ".to_owned();
    s.append(ability.abbreviation_upper());
    match target {
        Some(t) => {
            s.append(" against ");
            s.append(t.as_str());
        },
        None => {},
    }
    s
}

/// The line describing advantage or disadvantage on checks of an ability:
/// `on STR checks`, followed by ` when` and the situation when there is one.
pub fn ability_check_modifier_text(ability: Ability, context: &Option<String>) -> (s: String)
    ensures
        s@ == "on "@ + spec_abbreviation_upper(ability) + " checks"@ + match context {
            Some(t) => " when "@ + t@,
            None => Seq::empty(),
        },
{
    let mut s = "on ".to_owned();
    s.append(ability.abbreviation_upper());
    s.append(" checks");
    match context {
        Some(t) => {
            s.append(" when ");
            s.append(t.as_str());
        },
        None => {},
    }
    s
}

/// The modifier that an ability score grants (10 and 11 give +0, 8 and 9 give -1, 12 and 13 give +1).
pub fn ability_modifier(score: u32) -> (m: i32)
    ensures
        m == spec_ability_modifier(score as int),
{
    if score >= 10 {
        ((score - 10) / 2) as i32
    } else {
        -(((11 - score) / 2) as i32)
    }
}

/// The skills, each tied to one ability.
#[derive(Clone, Copy, Debug, PartialEq, Eq, Structural, PartialOrd, Ord, Hash)]
pub enum Skill {
    Acrobatics,
    AnimalHandling,
    Arcana,
    Athletics,
    Deception,
    History,
    Insight,
    Intimidation,
    Investigation,
    Medicine,
    Nature,
    Perception,
    Performance,
    Persuasion,
    Religion,
    SleightOfHand,
    Stealth,
    Survival,
}

/// The ability that a skill check uses.
pub open spec fn spec_skill_ability(skill: Skill) -> Ability {
    match skill {
        Skill::Athletics => Ability::Strength,
        Skill::Acrobatics | Skill::SleightOfHand | Skill::Stealth => Ability::Dexterity,
        Skill::Arcana | Skill::History | Skill::Investigation | Skill::Nature
        | Skill::Religion => Ability::Intelligence,
        Skill::AnimalHandling | Skill::Insight | Skill::Medicine | Skill::Perception
        | Skill::Survival => Ability::Wisdom,
        Skill::Deception | Skill::Intimidation | Skill::Performance
        | Skill::Persuasion => Ability::Charisma,
    }
}

impl Skill {
    /// The ability that checks of this skill use.
    pub fn ability(&self) -> (a: Ability)
        ensures
            a == spec_skill_ability(*self),
    {
        match self {
            Skill::Athletics => Ability::Strength,
            Skill::Acrobatics | Skill::SleightOfHand | Skill::Stealth => Ability::Dexterity,
            Skill::Arcana | Skill::History | Skill::Investigation | Skill::Nature
            | Skill::Religion => Ability::Intelligence,
            Skill::AnimalHandling | Skill::Insight | Skill::Medicine | Skill::Perception
            | Skill::Survival => Ability::Wisdom,
            Skill::Deception | Skill::Intimidation | Skill::Performance
            | Skill::Persuasion => Ability::Charisma,
        }
    }
}


/// All skills, in the order of their names.
pub open spec fn all_skills() -> Seq<Skill> {
    seq![
        Skill::Acrobatics,
        Skill::AnimalHandling,
        Skill::Arcana,
        Skill::Athletics,
        Skill::Deception,
        Skill::History,
        Skill::Insight,
        Skill::Intimidation,
        Skill::Investigation,
        Skill::Medicine,
        Skill::Nature,
        Skill::Perception,
        Skill::Performance,
        Skill::Persuasion,
        Skill::Religion,
        Skill::SleightOfHand,
        Skill::Stealth,
        Skill::Survival,
    ]
}

/// The name of a skill as shown on the sheet.
pub open spec fn spec_skill_name(skill: Skill) -> Seq<char> {
    match skill {
        Skill::Acrobatics => "Acrobatics"@,
        Skill::AnimalHandling => "Animal Handling"@,
        Skill::Arcana => "Arcana"@,
        Skill::Athletics => "Athletics"@,
        Skill::Deception => "Deception"@,
        Skill::History => "History"@,
        Skill::Insight => "Insight"@,
        Skill::Intimidation => "Intimidation"@,
        Skill::Investigation => "Investigation"@,
        Skill::Medicine => "Medicine"@,
        Skill::Nature => "Nature"@,
        Skill::Perception => "Perception"@,
        Skill::Performance => "Performance"@,
        Skill::Persuasion => "Persuasion"@,
        Skill::Religion => "Religion"@,
        Skill::SleightOfHand => "Sleight of Hand"@,
        Skill::Stealth => "Stealth"@,
        Skill::Survival => "Survival"@,
    }
}

/// The skills that use an ability, in the order of their names.
pub open spec fn skills_of(a: Ability) -> Seq<Skill> {
    all_skills().filter(|s: Skill| spec_skill_ability(s) == a)
}

/// The groups of the skill table: one group of every skill when ordered alphabetically;
/// otherwise one group per ability that has skills, in ability order.
pub open spec fn spec_skill_groups(by_ability: bool) -> Seq<(Option<Ability>, Seq<Skill>)> {
    if !by_ability {
        seq![(None, all_skills())]
    } else {
        all_abilities().filter(|a: Ability| skills_of(a).len() > 0).map_values(
            |a: Ability| (Some(a), skills_of(a)),
        )
    }
}

impl Skill {
    /// Every skill, in the order of their names.
    pub fn all() -> (r: Vec<Skill>)
        ensures
            r@ == all_skills(),
    {
        let r = vec![
            Skill::Acrobatics,
        Skill::AnimalHandling,
        Skill::Arcana,
        Skill::Athletics,
        Skill::Deception,
        Skill::History,
        Skill::Insight,
        Skill::Intimidation,
        Skill::Investigation,
        Skill::Medicine,
        Skill::Nature,
        Skill::Perception,
        Skill::Performance,
        Skill::Persuasion,
        Skill::Religion,
        Skill::SleightOfHand,
        Skill::Stealth,
        Skill::Survival,
        ];
        assert(r@ =~= all_skills());
        r
    }

    /// The name shown for the skill, such as `Sleight of Hand`.
    pub fn display_name(&self) -> (s: &'static str)
        ensures
            s@ == spec_skill_name(*self),
    {
        match self {
            Skill::Acrobatics => "Acrobatics",
            Skill::AnimalHandling => "Animal Handling",
            Skill::Arcana => "Arcana",
            Skill::Athletics => "Athletics",
            Skill::Deception => "Deception",
            Skill::History => "History",
            Skill::Insight => "Insight",
            Skill::Intimidation => "Intimidation",
            Skill::Investigation => "Investigation",
            Skill::Medicine => "Medicine",
            Skill::Nature => "Nature",
            Skill::Perception => "Perception",
            Skill::Performance => "Performance",
            Skill::Persuasion => "Persuasion",
            Skill::Religion => "Religion",
            Skill::SleightOfHand => "Sleight of Hand",
            Skill::Stealth => "Stealth",
            Skill::Survival => "Survival",
        }
    }
}

fn skills_using(a: Ability) -> (r: Vec<Skill>)
    ensures
        r@ == skills_of(a),
{
    let all = Skill::all();
    let ghost pred = |s: Skill| spec_skill_ability(s) == a;
    let mut r: Vec<Skill> = Vec::new();
    let mut i: usize = 0;
    while i < all.len()
        invariant
            all@ == all_skills(),
            i <= all@.len(),
            pred == (|s: Skill| spec_skill_ability(s) == a),
            r@ == all@.take(i as int).filter(pred),
        decreases all@.len() - i,
    {
        proof {
            reveal(Seq::filter);
            assert(all@.take(i as int + 1).drop_last() =~= all@.take(i as int));
        }
        if all[i].ability() == a {
            r.push(all[i]);
        }
        i = i + 1;
    }
    assert(all@.take(all@.len() as int) =~= all@);
    r
}

/// The groups of skills shown in the skill table, ordered alphabetically or by ability.
pub fn skill_groups(by_ability: bool) -> (r: Vec<(Option<Ability>, Vec<Skill>)>)
    ensures
        r@.len() == spec_skill_groups(by_ability).len(),
        forall|i: int| 0 <= i < r@.len() ==> (#[trigger] r@[i]).0 == spec_skill_groups(by_ability)[i].0
            && r@[i].1@ == spec_skill_groups(by_ability)[i].1,
{
    if !by_ability {
        let mut r: Vec<(Option<Ability>, Vec<Skill>)> = Vec::new();
        r.push((None, Skill::all()));
        return r;
    }
    let abilities = Ability::all();
    let ghost pred = |a: Ability| skills_of(a).len() > 0;
    let ghost f = |a: Ability| (Some(a), skills_of(a));
    let mut r: Vec<(Option<Ability>, Vec<Skill>)> = Vec::new();
    let mut i: usize = 0;
    while i < abilities.len()
        invariant
            abilities@ == all_abilities(),
            i <= abilities@.len(),
            pred == (|a: Ability| skills_of(a).len() > 0),
            f == (|a: Ability| (Some(a), skills_of(a))),
            r@.len() == abilities@.take(i as int).filter(pred).len(),
            forall|j: int| 0 <= j < r@.len() ==> (#[trigger] r@[j]).0 == abilities@.take(i as int).filter(pred).map_values(f)[j].0
                && r@[j].1@ == abilities@.take(i as int).filter(pred).map_values(f)[j].1,
        decreases abilities@.len() - i,
    {
        proof {
            reveal(Seq::filter);
            assert(abilities@.take(i as int + 1).drop_last() =~= abilities@.take(i as int));
        }
        let a = abilities[i];
        let skills = skills_using(a);
        if skills.len() > 0 {
            r.push((Some(a), skills));
        }
        i = i + 1;
    }
    assert(abilities@.take(abilities@.len() as int) =~= abilities@);
    r
}

/// The passive score of a skill: 10 plus its check modifier.
pub fn passive_score(modifier: i64) -> (r: i64)
    requires
        modifier <= i64::MAX - 10,
    ensures
        r == 10 + modifier,
{
    10 + modifier
}

/// The skills of each ability, as the rules give them: Athletics for Strength; Acrobatics,
/// Sleight of Hand and Stealth for Dexterity; none for Constitution; Arcana, History,
/// Investigation, Nature and Religion for Intelligence; Animal Handling, Insight, Medicine,
/// Perception and Survival for Wisdom; Deception, Intimidation, Performance and Persuasion for
/// Charisma.
pub proof fn law_skills_of_abilities()
    ensures
        skills_of(Ability::Strength) == seq![Skill::Athletics],
        skills_of(Ability::Dexterity) == seq![Skill::Acrobatics, Skill::SleightOfHand, Skill::Stealth],
        skills_of(Ability::Constitution) == Seq::<Skill>::empty(),
        skills_of(Ability::Intelligence) == seq![Skill::Arcana, Skill::History, Skill::Investigation, Skill::Nature, Skill::Religion],
        skills_of(Ability::Wisdom) == seq![Skill::AnimalHandling, Skill::Insight, Skill::Medicine, Skill::Perception, Skill::Survival],
        skills_of(Ability::Charisma) == seq![Skill::Deception, Skill::Intimidation, Skill::Performance, Skill::Persuasion],
{
    reveal_with_fuel(Seq::filter, 19);
    assert(skills_of(Ability::Strength) =~= seq![Skill::Athletics]);
    assert(skills_of(Ability::Dexterity) =~= seq![Skill::Acrobatics, Skill::SleightOfHand, Skill::Stealth]);
    assert(skills_of(Ability::Constitution) =~= Seq::<Skill>::empty());
    assert(skills_of(Ability::Intelligence) =~= seq![Skill::Arcana, Skill::History, Skill::Investigation, Skill::Nature, Skill::Religion]);
    assert(skills_of(Ability::Wisdom) =~= seq![Skill::AnimalHandling, Skill::Insight, Skill::Medicine, Skill::Perception, Skill::Survival]);
    assert(skills_of(Ability::Charisma) =~= seq![Skill::Deception, Skill::Intimidation, Skill::Performance, Skill::Persuasion]);
}

/// Every skill uses the ability whose list names it.
pub proof fn law_skill_ability_of_each()
    ensures
        forall|s: Skill| #[trigger] skills_of(spec_skill_ability(s)).contains(s),
        spec_skill_ability(Skill::Investigation) == Ability::Intelligence,
{
    law_skills_of_abilities();
    assert forall|s: Skill| #[trigger] skills_of(spec_skill_ability(s)).contains(s) by {
        match s {
            Skill::Athletics => { assert(skills_of(Ability::Strength)[0] == s); },
            Skill::Acrobatics => { assert(skills_of(Ability::Dexterity)[0] == s); },
            Skill::SleightOfHand => { assert(skills_of(Ability::Dexterity)[1] == s); },
            Skill::Stealth => { assert(skills_of(Ability::Dexterity)[2] == s); },
            Skill::Arcana => { assert(skills_of(Ability::Intelligence)[0] == s); },
            Skill::History => { assert(skills_of(Ability::Intelligence)[1] == s); },
            Skill::Investigation => { assert(skills_of(Ability::Intelligence)[2] == s); },
            Skill::Nature => { assert(skills_of(Ability::Intelligence)[3] == s); },
            Skill::Religion => { assert(skills_of(Ability::Intelligence)[4] == s); },
            Skill::AnimalHandling => { assert(skills_of(Ability::Wisdom)[0] == s); },
            Skill::Insight => { assert(skills_of(Ability::Wisdom)[1] == s); },
            Skill::Medicine => { assert(skills_of(Ability::Wisdom)[2] == s); },
            Skill::Perception => { assert(skills_of(Ability::Wisdom)[3] == s); },
            Skill::Survival => { assert(skills_of(Ability::Wisdom)[4] == s); },
            Skill::Deception => { assert(skills_of(Ability::Charisma)[0] == s); },
            Skill::Intimidation => { assert(skills_of(Ability::Charisma)[1] == s); },
            Skill::Performance => { assert(skills_of(Ability::Charisma)[2] == s); },
            Skill::Persuasion => { assert(skills_of(Ability::Charisma)[3] == s); },
        }
    }
}

/// An ability modifier is the score minus ten halved and rounded down: twice the modifier is
/// the score minus ten or one less, a score of 10 or 11 gives 0, and a higher score never
/// gives a lower modifier.
pub proof fn law_ability_modifier(score: int, higher: int)
    ensures
        2 * spec_ability_modifier(score) == score - 10 || 2 * spec_ability_modifier(score) == score - 11,
        (score == 10 || score == 11) ==> spec_ability_modifier(score) == 0,
        score <= higher ==> spec_ability_modifier(score) <= spec_ability_modifier(higher),
{
}

} // verus!
