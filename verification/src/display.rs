//! How measurements and labels are presented on the sheet.

use vstd::prelude::*;
use crate::character::ActivationKind;
use crate::text::{decimal, push_decimal, str_eq};

verus! {

/// How a height is shown.
#[derive(Clone, Copy, Debug, PartialEq, Eq, Structural)]
pub enum HeightDisplay {
    /// Feet and inches (the default).
    ImperialMixed,
    /// Inches only.
    Imperial,
    /// Centimetres.
    Metric,
}

/// Centimetres in a number of inches, rounded to the nearest whole (halves up).
pub open spec fn inches_to_cm(inches: nat) -> nat {
    (inches * 254 + 50) / 100
}

/// Kilograms in a number of pounds (0.45359237 kg each), rounded to the nearest whole (halves up).
pub open spec fn lbs_to_kg(lbs: nat) -> nat {
    (lbs * 45359237 + 50000000) / 100000000
}

/// The text of a height.
pub open spec fn height_text(d: HeightDisplay, inches: nat) -> Seq<char> {
    match d {
        HeightDisplay::Imperial => decimal(inches) + " inches"@,
        HeightDisplay::ImperialMixed => decimal(inches / 12) + " ft "@ + decimal(inches % 12) + " inches"@,
        HeightDisplay::Metric => decimal(inches_to_cm(inches)) + " cm"@,
    }
}

impl HeightDisplay {
    /// The default presentation: feet and inches.
    pub fn default_display() -> (r: HeightDisplay)
        ensures
            r == HeightDisplay::ImperialMixed,
    {
        HeightDisplay::ImperialMixed
    }

    /// Shows a height given in inches, such as `5 ft 11 inches`, `71 inches` or `180 cm`.
    pub fn format(&self, inches: u32) -> (s: String)
        ensures
            s@ == height_text(*self, inches as nat),
    {
        let mut s = String::new();
        match self {
            HeightDisplay::Imperial => {
                push_decimal(&mut s, inches as u64);
                s.append(" inches");
            },
            HeightDisplay::ImperialMixed => {
                push_decimal(&mut s, (inches / 12) as u64);
                s.append(" ft ");
                push_decimal(&mut s, (inches % 12) as u64);
                s.append(" inches");
            },
            HeightDisplay::Metric => {
                let cm = (inches as u64 * 254 + 50) / 100;
                push_decimal(&mut s, cm);
                s.append(" cm");
            },
        }
        assert(s@ =~= height_text(*self, inches as nat));
        s
    }

    /// The presentation a click switches to: mixed, then inches, then metric, then mixed again.
    pub fn next(&self) -> (r: HeightDisplay)
        ensures
            r == match self {
                HeightDisplay::ImperialMixed => HeightDisplay::Imperial,
                HeightDisplay::Imperial => HeightDisplay::Metric,
                HeightDisplay::Metric => HeightDisplay::ImperialMixed,
            },
    {
        match self {
            HeightDisplay::ImperialMixed => HeightDisplay::Imperial,
            HeightDisplay::Imperial => HeightDisplay::Metric,
            HeightDisplay::Metric => HeightDisplay::ImperialMixed,
        }
    }
}

/// How a weight is shown.
#[derive(Clone, Copy, Debug, PartialEq, Eq, Structural)]
pub enum WeightDisplay {
    /// Pounds (the default).
    Imperial,
    /// Kilograms.
    Metric,
}

/// The text of a weight.
pub open spec fn weight_text(d: WeightDisplay, lbs: nat) -> Seq<char> {
    match d {
        WeightDisplay::Imperial => decimal(lbs) + " lbs"@,
        WeightDisplay::Metric => decimal(lbs_to_kg(lbs)) + " kgs"@,
    }
}

impl WeightDisplay {
    /// Shows a weight given in pounds, such as `180 lbs` or `82 kgs`.
    pub fn format(&self, lbs: u32) -> (s: String)
        ensures
            s@ == weight_text(*self, lbs as nat),
    {
        let mut s = String::new();
        match self {
            WeightDisplay::Imperial => {
                push_decimal(&mut s, lbs as u64);
                s.append(" lbs");
            },
            WeightDisplay::Metric => {
                let kg = (lbs as u64 * 45359237 + 50000000) / 100000000;
                push_decimal(&mut s, kg);
                s.append(" kgs");
            },
        }
        assert(s@ =~= weight_text(*self, lbs as nat));
        s
    }

    /// The presentation a click switches to.
    pub fn next(&self) -> (r: WeightDisplay)
        ensures
            r == match self {
                WeightDisplay::Imperial => WeightDisplay::Metric,
                WeightDisplay::Metric => WeightDisplay::Imperial,
            },
    {
        match self {
            WeightDisplay::Imperial => WeightDisplay::Metric,
            WeightDisplay::Metric => WeightDisplay::Imperial,
        }
    }
}

/// Switching the height presentation three times comes back to where it started.
pub proof fn law_height_display_cycle(d: HeightDisplay)
    ensures
        ({
            let next = |x: HeightDisplay| match x {
                HeightDisplay::ImperialMixed => HeightDisplay::Imperial,
                HeightDisplay::Imperial => HeightDisplay::Metric,
                HeightDisplay::Metric => HeightDisplay::ImperialMixed,
            };
            next(next(next(d))) == d
        }),
{
}

/// The groups of the actions panel.
#[derive(Clone, Copy, Debug, PartialEq, Eq, Structural, PartialOrd, Ord, Hash)]
pub enum ActionTag {
    Attack,
    Action,
    BonusAction,
    Reaction,
    Other,
    LimitedUse,
    Passive,
}

impl ActionTag {
    /// The group in which a feature with this activation is listed.
    pub fn from_activation(value: ActivationKind) -> (r: ActionTag)
        ensures
            r == match value {
                ActivationKind::Action => ActionTag::Action,
                ActivationKind::Bonus => ActionTag::BonusAction,
                ActivationKind::Reaction => ActionTag::Reaction,
                _ => ActionTag::Other,
            },
    {
        match value {
            ActivationKind::Action => Self::Action,
            ActivationKind::Bonus => Self::BonusAction,
            ActivationKind::Reaction => Self::Reaction,
            ActivationKind::Special => Self::Other,
            ActivationKind::Minute(_) => Self::Other,
            ActivationKind::Hour(_) => Self::Other,
        }
    }

    /// The heading of the group.
    pub fn display_name(&self) -> (s: &'static str)
        ensures
            s@ == match self {
                ActionTag::Attack => "Attack"@,
                ActionTag::Action => "Action"@,
                ActionTag::BonusAction => "Bonus Action"@,
                ActionTag::Reaction => "Reaction"@,
                ActionTag::Other => "Other"@,
                ActionTag::LimitedUse => "Limited Use"@,
                ActionTag::Passive => "Passive"@,
            },
    {
        match self {
            Self::Attack => "Attack",
            Self::Action => "Action",
            Self::BonusAction => "Bonus Action",
            Self::Reaction => "Reaction",
            Self::Other => "Other",
            Self::LimitedUse => "Limited Use",
            Self::Passive => "Passive",
        }
    }
}

/// The action budget line: actions, attacks per action (only when attacks are shown),
/// bonus actions and reactions, separated by commas.
pub open spec fn budget_text(actions: u32, attacks: Option<u32>, bonus: u32, reactions: u32) -> Seq<char> {
    decimal(actions as nat) + " Actions"@ + match attacks {
        Some(a) => ", "@ + decimal(a as nat) + " Attacks per Action"@,
        None => Seq::empty(),
    } + ", "@ + decimal(bonus as nat) + " Bonus Actions"@ + ", "@ + decimal(reactions as nat) + " Reactions"@
}

/// The text of the action budget, such as `1 Actions, 2 Attacks per Action, 1 Bonus Actions, 1 Reactions`.
pub fn action_budget_text(actions: u32, attacks: Option<u32>, bonus: u32, reactions: u32) -> (s: String)
    ensures
        s@ == budget_text(actions, attacks, bonus, reactions),
{
    let mut s = String::new();
    push_decimal(&mut s, actions as u64);
    s.append(" Actions");
    match attacks {
        Some(a) => {
            s.append(", ");
            push_decimal(&mut s, a as u64);
            s.append(" Attacks per Action");
        },
        None => {},
    }
    s.append(", ");
    push_decimal(&mut s, bonus as u64);
    s.append(" Bonus Actions, ");
    push_decimal(&mut s, reactions as u64);
    s.append(" Reactions");
    proof {
        reveal_strlit(" Bonus Actions, ");
        reveal_strlit(" Bonus Actions");
        reveal_strlit(", ");
    }
    assert(s@ =~= budget_text(actions, attacks, bonus, reactions));
    s
}

/// The age shown on the sheet: `--` when none is set (zero), otherwise the number.
pub fn age_text(age: u32) -> (s: String)
    ensures
        s@ == if age == 0 { "--"@ } else { decimal(age as nat) },
{
    if age == 0 {
        "--".to_owned()
    } else {
        crate::text::to_decimal(age as u64)
    }
}

/// How the skill table is ordered.
#[derive(Clone, Copy, Debug, PartialEq, Eq, Structural)]
pub enum Presentation {
    Alphabetical,
    ByAbility,
}

/// The name of an ordering, also used as its stored value.
pub open spec fn presentation_name(p: Presentation) -> Seq<char> {
    match p {
        Presentation::Alphabetical => "Alphabetical"@,
        Presentation::ByAbility => "By Ability"@,
    }
}

impl Presentation {
    /// The name shown for the ordering.
    pub fn display_name(&self) -> (s: &'static str)
        ensures
            s@ == presentation_name(*self),
    {
        match self {
            Self::Alphabetical => "Alphabetical",
            Self::ByAbility => "By Ability",
        }
    }

    /// The ordering with the given name; none for any other text.
    pub fn from_str(s: &str) -> (r: Option<Presentation>)
        ensures
            r == if s@ == "Alphabetical"@ {
                Some(Presentation::Alphabetical)
            } else if s@ == "By Ability"@ {
                Some(Presentation::ByAbility)
            } else {
                None
            },
    {
        if str_eq(s, "Alphabetical") {
            Some(Self::Alphabetical)
        } else if str_eq(s, "By Ability") {
            Some(Self::ByAbility)
        } else {
            None
        }
    }
}

/// Reading back the name of an ordering gives the same ordering.
pub proof fn law_presentation_round_trip(p: Presentation)
    ensures
        (if presentation_name(p) == "Alphabetical"@ {
            Some(Presentation::Alphabetical)
        } else if presentation_name(p) == "By Ability"@ {
            Some(Presentation::ByAbility)
        } else {
            None
        }) == Some(p),
{
    reveal_strlit("Alphabetical");
    reveal_strlit("By Ability");
    assert("Alphabetical"@ != "By Ability"@) by {
        assert("Alphabetical"@.len() != "By Ability"@.len());
    }
}

/// Texts with a separator between each two, as `Itertools::intersperse` gives them.
pub open spec fn interspersed(items: Seq<Seq<char>>, separator: Seq<char>) -> Seq<Seq<char>>
    decreases items.len(),
{
    if items.len() <= 1 {
        items
    } else {
        interspersed(items.drop_last(), separator).push(separator).push(items.last())
    }
}

/// The names of a group in the sheet header (classes, for instance) with a separator between
/// each two; none when the group has no names.
pub fn group_names(names: &Vec<String>, separator: &str) -> (r: Option<Vec<String>>)
    ensures
        match r {
            None => names@.len() == 0,
            Some(v) => names@.len() > 0
                && v@.map_values(|s: String| s@) == interspersed(names@.map_values(|s: String| s@), separator@),
        },
{
    if names.len() == 0 {
        return None;
    }
    let ghost nv = names@.map_values(|s: String| s@);
    let mut out: Vec<String> = Vec::new();
    out.push(names[0].clone());
    let mut i: usize = 1;
    proof {
        assert(nv.take(1).len() <= 1);
        assert(out@.map_values(|s: String| s@) =~= nv.take(1));
    }
    while i < names.len()
        invariant
            1 <= i <= names@.len(),
            nv == names@.map_values(|s: String| s@),
            out@.map_values(|s: String| s@) == interspersed(nv.take(i as int), separator@),
        decreases names@.len() - i,
    {
        let ghost before = out@.map_values(|s: String| s@);
        out.push(separator.to_owned());
        out.push(names[i].clone());
        proof {
            assert(nv.take(i as int + 1).drop_last() =~= nv.take(i as int));
            assert(nv.take(i as int + 1).last() == names@[i as int]@);
            assert(out@.map_values(|s: String| s@) =~= before.push(separator@).push(names@[i as int]@));
        }
        i = i + 1;
    }
    assert(nv.take(names@.len() as int) =~= nv);
    Some(out)
}

} // verus!
