//! Conditions that affect a creature, exhaustion levels among them.

use vstd::prelude::*;
use crate::criteria::BoxedCriteria;
use crate::mutator::BoxedMutator;
use crate::order::{sorted_texts, texts_sorted, texts_view};

verus! {

/// A condition that alters what a creature can do.
pub trait Condition {
    /// The rules text of the condition.
    fn description(&self) -> String;
}

/// The rules text of the Blinded condition.
pub const BLINDED_TEXT: &'static str = "A blinded creature can't see and automatically fails any ability check that requires sight. 
		Attack rolls against the creature have advantage, and the creature's attack rolls have disadvantage.";

/// The rules text of the Charmed condition.
pub const CHARMED_TEXT: &'static str = "A charmed creature can't attack the charmer or target the charmer with harmful abilities or magical effects. 
		The charmer has advantage on any ability check to interact socially with the creature.";

/// The rules text of the Deafened condition.
pub const DEAFENED_TEXT: &'static str = "A deafened creature can't hear and automatically fails any ability check that requires hearing.";

/// The rules text of the Frightened condition.
pub const FRIGHTENED_TEXT: &'static str = "A frightened creature has disadvantage on ability checks and attack rolls while the source of its fear is within line of sight. 
		The creature can't willingly move closer to the source of its fear.";

/// The rules text of the Grappled condition.
pub const GRAPPLED_TEXT: &'static str = "A grappled creature's speed becomes 0, and it can't benefit from any bonus to its speed. 
		The condition ends if the grappler is incapacitated (see the condition). 
		The condition also ends if an effect removes the grappled creature from the reach of \
		the grappler or grappling effect, such as when a creature is hurled away by the thunder-wave spell.";

/// The rules text of the Incapacitated condition.
pub const INCAPACITATED_TEXT: &'static str = "An incapacitated creature can't take actions or reactions.";

/// The rules text of the Invisible condition.
pub const INVISIBLE_TEXT: &'static str = "An invisible creature is impossible to see without the aid of magic or a special sense. \
		For the purpose of hiding, the creature is heavily obscured. The creature's location can be \
		detected by any noise it makes or any tracks it leaves. 
		Attack rolls against the creature have disadvantage, and the creature's attack rolls have advantage.";

/// The rules text of the Paralyzed condition.
pub const PARALYZED_TEXT: &'static str = "A paralyzed creature is incapacitated (see the condition) and can't move or speak. 
		The creature automatically fails Strength and Dexterity saving throws. Attack rolls against the creature have advantage. 
		Any attack that hits the creature is a critical hit if the attacker is within 5 feet of the creature.";

/// The rules text of the Petrified condition.
pub const PETRIFIED_TEXT: &'static str = "A petrified creature is transformed, along with any nonmagical object it is wearing or carrying, \
		into a solid inanimate substance (usually stone). Its weight increases by a factor of ten, and it ceases aging. 
		The creature is incapacitated (see the condition), can't move or speak, and is unaware of its surroundings. 
		Attack rolls against the creature have advantage. 
		The creature automatically fails Strength and Dexterity saving throws. 
		The creature has resistance to all damage. 
		The creature is immune to poison and disease, although a poison or disease already \
		in its system is suspended, not neutralized.";

/// The rules text of the Poisoned condition.
pub const POISONED_TEXT: &'static str = "A poisoned creature has disadvantage on attack rolls and ability checks.";

/// The rules text of the Prone condition.
pub const PRONE_TEXT: &'static str = "A prone creature's only movement option is to crawl, unless it stands up and thereby ends the condition. 
		The creature has disadvantage on attack rolls. 
		An attack roll against the creature has advantage if the attacker is within 5 feet of the creature. \
		Otherwise, the attack roll has disadvantage.";

/// The rules text of the Restrained condition.
pub const RESTRAINED_TEXT: &'static str = "A restrained creature's speed becomes 0, and it can't benefit from any bonus to its speed. 
		Attack rolls against the creature have advantage, and the creature's attack rolls have disadvantage. 
		The creature has disadvantage on Dexterity saving throws.";

/// The rules text of the Stunned condition.
pub const STUNNED_TEXT: &'static str = "A stunned creature is incapacitated (see the condition), can't move, and can speak only falteringly. 
		The creature automatically fails Strength and Dexterity saving throws. 
		Attack rolls against the creature have advantage.";

/// The rules text of the Unconscious condition.
pub const UNCONSCIOUS_TEXT: &'static str = "An unconscious creature is incapacitated (see the condition), can't move or speak, and is unaware of its surroundings. 
		The creature drops whatever it's holding and falls prone. 
		The creature automatically fails Strength and Dexterity saving throws. 
		Attack rolls against the creature have advantage. 
		Any attack that hits the creature is a critical hit if the attacker is within 5 feet of the creature.";

/// The rules text of the exhaustion condition.
pub const EXHAUSTION_TEXT: &'static str = "Some special abilities and environmental hazards, such as starvation and the long-term effects of \
		freezing or scorching temperatures, can lead to a special condition called exhaustion. \
		Exhaustion is measured in six levels. An effect can give a creature one or more levels of exhaustion, \
		as specified in the effect's description. 
		If an already exhausted creature suffers another effect that causes exhaustion, \
		its current level of exhaustion increases by the amount specified in the effect's description. 
		A creature suffers the effect of its current level of exhaustion as well as all lower levels. \
		For example, a creature suffering level 2 exhaustion has its speed halved and has disadvantage on ability checks. 
		An effect that removes exhaustion reduces its level as specified in the effect's description, \
		with all exhaustion effects ending if a creature's exhaustion level is reduced below 1. 
		Finishing a long rest reduces a creature's exhaustion level by 1, \
		provided that the creature has also ingested some food and drink.\n";

#[derive(Clone, Copy, Debug, PartialEq, Eq, Structural)]
pub struct Blinded;

impl Condition for Blinded {
    fn description(&self) -> (s: String)
        ensures
            s@ == BLINDED_TEXT@,
    {
        BLINDED_TEXT.to_owned()
    }
}

#[derive(Clone, Copy, Debug, PartialEq, Eq, Structural)]
pub struct Charmed;

impl Condition for Charmed {
    fn description(&self) -> (s: String)
        ensures
            s@ == CHARMED_TEXT@,
    {
        CHARMED_TEXT.to_owned()
    }
}

#[derive(Clone, Copy, Debug, PartialEq, Eq, Structural)]
pub struct Deafened;

impl Condition for Deafened {
    fn description(&self) -> (s: String)
        ensures
            s@ == DEAFENED_TEXT@,
    {
        DEAFENED_TEXT.to_owned()
    }
}

#[derive(Clone, Copy, Debug, PartialEq, Eq, Structural)]
pub struct Frightened;

impl Condition for Frightened {
    fn description(&self) -> (s: String)
        ensures
            s@ == FRIGHTENED_TEXT@,
    {
        FRIGHTENED_TEXT.to_owned()
    }
}

#[derive(Clone, Copy, Debug, PartialEq, Eq, Structural)]
pub struct Grappled;

impl Condition for Grappled {
    fn description(&self) -> (s: String)
        ensures
            s@ == GRAPPLED_TEXT@,
    {
        GRAPPLED_TEXT.to_owned()
    }
}

#[derive(Clone, Copy, Debug, PartialEq, Eq, Structural)]
pub struct Incapacitated;

impl Condition for Incapacitated {
    fn description(&self) -> (s: String)
        ensures
            s@ == INCAPACITATED_TEXT@,
    {
        INCAPACITATED_TEXT.to_owned()
    }
}

#[derive(Clone, Copy, Debug, PartialEq, Eq, Structural)]
pub struct Invisible;

impl Condition for Invisible {
    fn description(&self) -> (s: String)
        ensures
            s@ == INVISIBLE_TEXT@,
    {
        INVISIBLE_TEXT.to_owned()
    }
}

#[derive(Clone, Copy, Debug, PartialEq, Eq, Structural)]
pub struct Paralyzed;

impl Condition for Paralyzed {
    fn description(&self) -> (s: String)
        ensures
            s@ == PARALYZED_TEXT@,
    {
        PARALYZED_TEXT.to_owned()
    }
}

#[derive(Clone, Copy, Debug, PartialEq, Eq, Structural)]
pub struct Petrified;

impl Condition for Petrified {
    fn description(&self) -> (s: String)
        ensures
            s@ == PETRIFIED_TEXT@,
    {
        PETRIFIED_TEXT.to_owned()
    }
}

#[derive(Clone, Copy, Debug, PartialEq, Eq, Structural)]
pub struct Poisoned;

impl Condition for Poisoned {
    fn description(&self) -> (s: String)
        ensures
            s@ == POISONED_TEXT@,
    {
        POISONED_TEXT.to_owned()
    }
}

#[derive(Clone, Copy, Debug, PartialEq, Eq, Structural)]
pub struct Prone;

impl Condition for Prone {
    fn description(&self) -> (s: String)
        ensures
            s@ == PRONE_TEXT@,
    {
        PRONE_TEXT.to_owned()
    }
}

#[derive(Clone, Copy, Debug, PartialEq, Eq, Structural)]
pub struct Restrained;

impl Condition for Restrained {
    fn description(&self) -> (s: String)
        ensures
            s@ == RESTRAINED_TEXT@,
    {
        RESTRAINED_TEXT.to_owned()
    }
}

#[derive(Clone, Copy, Debug, PartialEq, Eq, Structural)]
pub struct Stunned;

impl Condition for Stunned {
    fn description(&self) -> (s: String)
        ensures
            s@ == STUNNED_TEXT@,
    {
        STUNNED_TEXT.to_owned()
    }
}

#[derive(Clone, Copy, Debug, PartialEq, Eq, Structural)]
pub struct Unconscious;

impl Condition for Unconscious {
    fn description(&self) -> (s: String)
        ensures
            s@ == UNCONSCIOUS_TEXT@,
    {
        UNCONSCIOUS_TEXT.to_owned()
    }
}

/// The six levels of exhaustion, each adding its effect to those of the levels below it.
#[derive(Clone, Copy, Debug, PartialEq, Eq, Structural, PartialOrd, Ord)]
pub enum Exhaustion {
    Level1,
    Level2,
    Level3,
    Level4,
    Level5,
    Level6,
}

/// The number of a level of exhaustion, from 1 to 6.
pub open spec fn exhaustion_level(e: Exhaustion) -> nat {
    match e {
        Exhaustion::Level1 => 1,
        Exhaustion::Level2 => 2,
        Exhaustion::Level3 => 3,
        Exhaustion::Level4 => 4,
        Exhaustion::Level5 => 5,
        Exhaustion::Level6 => 6,
    }
}

/// The level of exhaustion with the given number (numbers above 6 give level 6).
pub open spec fn exhaustion_of(n: int) -> Exhaustion {
    if n <= 1 {
        Exhaustion::Level1
    } else if n == 2 {
        Exhaustion::Level2
    } else if n == 3 {
        Exhaustion::Level3
    } else if n == 4 {
        Exhaustion::Level4
    } else if n == 5 {
        Exhaustion::Level5
    } else {
        Exhaustion::Level6
    }
}

/// A level and all levels below it, from that level down to level 1.
pub open spec fn levels_down_from(e: Exhaustion) -> Seq<Exhaustion> {
    Seq::new(exhaustion_level(e), |i: int| exhaustion_of(exhaustion_level(e) - i))
}

/// The name shown for a level of exhaustion.
pub open spec fn exhaustion_name(e: Exhaustion) -> Seq<char> {
    match e {
        Exhaustion::Level1 => "Level 1"@,
        Exhaustion::Level2 => "Level 2"@,
        Exhaustion::Level3 => "Level 3"@,
        Exhaustion::Level4 => "Level 4"@,
        Exhaustion::Level5 => "Level 5"@,
        Exhaustion::Level6 => "Level 6"@,
    }
}

/// The effect that a level of exhaustion adds.
pub open spec fn exhaustion_effect(e: Exhaustion) -> Seq<char> {
    match e {
        Exhaustion::Level1 => "Disadvantage on ability checks"@,
        Exhaustion::Level2 => "Speed halved"@,
        Exhaustion::Level3 => "Disadvantage on attack rolls and saving throws"@,
        Exhaustion::Level4 => "Hit point maximum halved"@,
        Exhaustion::Level5 => "Speed reduced to 0"@,
        Exhaustion::Level6 => "Death"@,
    }
}

/// The level above a level of exhaustion; none above level 6.
pub open spec fn spec_next(e: Exhaustion) -> Option<Exhaustion> {
    if exhaustion_level(e) < 6 { Some(exhaustion_of(exhaustion_level(e) as int + 1)) } else { None }
}

/// The level below a level of exhaustion; none below level 1.
pub open spec fn spec_prev(e: Exhaustion) -> Option<Exhaustion> {
    if exhaustion_level(e) > 1 { Some(exhaustion_of(exhaustion_level(e) - 1)) } else { None }
}

impl Exhaustion {
    /// The name of this level, such as `Level 3`.
    pub fn name(&self) -> (s: &'static str)
        ensures
            s@ == exhaustion_name(*self),
    {
        match self {
            Self::Level1 => "Level 1",
            Self::Level2 => "Level 2",
            Self::Level3 => "Level 3",
            Self::Level4 => "Level 4",
            Self::Level5 => "Level 5",
            Self::Level6 => "Level 6",
        }
    }

    /// The effect that this level adds to those of the levels below it.
    pub fn description(&self) -> (s: &'static str)
        ensures
            s@ == exhaustion_effect(*self),
    {
        match self {
            Self::Level1 => "Disadvantage on ability checks",
            Self::Level2 => "Speed halved",
            Self::Level3 => "Disadvantage on attack rolls and saving throws",
            Self::Level4 => "Hit point maximum halved",
            Self::Level5 => "Speed reduced to 0",
            Self::Level6 => "Death",
        }
    }

    /// The level above this one; none above level 6.
    pub fn next(&self) -> (r: Option<Self>)
        ensures
            r == spec_next(*self),
    {
        match self {
            Self::Level1 => Some(Self::Level2),
            Self::Level2 => Some(Self::Level3),
            Self::Level3 => Some(Self::Level4),
            Self::Level4 => Some(Self::Level5),
            Self::Level5 => Some(Self::Level6),
            Self::Level6 => None,
        }
    }

    /// The level below this one; none below level 1.
    pub fn prev(&self) -> (r: Option<Self>)
        ensures
            r == spec_prev(*self),
    {
        match self {
            Self::Level1 => None,
            Self::Level2 => Some(Self::Level1),
            Self::Level3 => Some(Self::Level2),
            Self::Level4 => Some(Self::Level3),
            Self::Level5 => Some(Self::Level4),
            Self::Level6 => Some(Self::Level5),
        }
    }

    /// This level and every level below it, from this level down to level 1.
    pub fn to_vec(self) -> (v: Vec<Self>)
        ensures
            v@ == levels_down_from(self),
    {
        let mut l = self;
        let mut v = vec![self];
        loop
            invariant
                v@.len() >= 1,
                v@.last() == l,
                exhaustion_level(l) + v@.len() == exhaustion_level(self) + 1,
                forall|i: int| 0 <= i < v@.len() ==> exhaustion_level(#[trigger] v@[i]) + i == exhaustion_level(self),
            ensures
                v@.len() == exhaustion_level(self),
                forall|i: int| 0 <= i < v@.len() ==> exhaustion_level(#[trigger] v@[i]) + i == exhaustion_level(self),
            decreases exhaustion_level(l),
        {
            match l.prev() {
                Some(level) => {
                    v.push(level);
                    l = level;
                },
                None => {
                    break;
                },
            }
        }
        assert forall|i: int| 0 <= i < v@.len() implies v@[i] == levels_down_from(self)[i] by {
            let k = exhaustion_level(v@[i]);
            assert(k == exhaustion_level(self) - i);
        }
        assert(v@ =~= levels_down_from(self));
        v
    }
}

/// Going up one level of exhaustion and back down returns to the same level, and the other way round.
pub proof fn law_next_prev_inverse(e: Exhaustion)
    ensures
        spec_next(e) matches Some(n) ==> spec_prev(n) == Some(e),
        spec_prev(e) matches Some(p) ==> spec_next(p) == Some(e),
        spec_next(e) is None <==> e == Exhaustion::Level6,
        spec_prev(e) is None <==> e == Exhaustion::Level1,
{
}

/// The list of levels starts at the given level, holds one entry per level down to 1, and
/// every entry is one level below the one before it.
pub proof fn law_levels_down_from(e: Exhaustion)
    ensures
        levels_down_from(e).len() == exhaustion_level(e),
        levels_down_from(e)[0] == e,
        levels_down_from(e).last() == Exhaustion::Level1,
        forall|i: int| 0 < i < levels_down_from(e).len() ==> spec_prev(levels_down_from(e)[i - 1]) == Some(
            #[trigger] levels_down_from(e)[i],
        ),
{
}

/// The list of effects of the given levels, one line each after the heading.
pub open spec fn effects_text(levels: Seq<Exhaustion>) -> Seq<char>
    decreases levels.len(),
{
    if levels.len() == 0 {
        "Effects:"@
    } else {
        effects_text(levels.drop_last()) + "\n"@ + exhaustion_name(levels.last()) + ": "@
            + exhaustion_effect(levels.last())
    }
}

/// The condition of an exhausted creature, at some level of exhaustion.
#[derive(Clone, Copy, Debug, PartialEq, Eq, Structural)]
pub struct Exhasted(pub Exhaustion);

impl Condition for Exhasted {
    fn description(&self) -> (s: String)
        ensures
            s@ == EXHAUSTION_TEXT@ + effects_text(levels_down_from(self.0)),
    {
        let mut desc = EXHAUSTION_TEXT.to_owned();
        let levels = self.0.to_vec();
        let mut effects = "Effects:".to_owned();
        let mut i: usize = 0;
        while i < levels.len()
            invariant
                i <= levels@.len(),
                effects@ == effects_text(levels@.take(i as int)),
            decreases levels@.len() - i,
        {
            let level = levels[i];
            effects.append("\n");
            effects.append(level.name());
            effects.append(": ");
            effects.append(level.description());
            assert(levels@.take(i as int + 1).drop_last() =~= levels@.take(i as int));
            i = i + 1;
        }
        assert(levels@.take(levels@.len() as int) =~= levels@);
        desc.append(effects.as_str());
        desc
    }
}


/// The rules text of the barbarian's raging condition.
pub const RAGING_TEXT: &'static str = "While raging, you gain the following benefits \
		if you aren't wearing heavy armor:
		- You have advantage on Strength checks and Strength saving throws.
		- When you make a melee weapon attack using Strength, you gain a bonus to the damage roll.
		- You have resistance to bludgeoning, piercing, and slashing damage.
		
		If you are able to cast spells, you can't cast them or concentrate on them while raging.";

/// A condition defined by content, with its own rules text and effects.
pub struct Custom {
    pub name: String,
    pub description: String,
    /// The changes the condition makes while it applies.
    pub mutators: Vec<BoxedMutator>,
    /// The requirement that must hold for the condition to take effect.
    pub criteria: Option<BoxedCriteria>,
}

impl Condition for Custom {
    fn description(&self) -> (s: String)
        ensures
            s@ == self.description@,
    {
        self.description.clone()
    }
}

/// Any one condition.
pub enum BoxedCondition {
    Blinded(Blinded),
    Charmed(Charmed),
    Deafened(Deafened),
    Frightened(Frightened),
    Grappled(Grappled),
    Incapacitated(Incapacitated),
    Invisible(Invisible),
    Paralyzed(Paralyzed),
    Petrified(Petrified),
    Poisoned(Poisoned),
    Prone(Prone),
    Restrained(Restrained),
    Stunned(Stunned),
    Unconscious(Unconscious),
    Exhausted(Exhasted),
    Custom(Custom),
}

/// The rules text of a condition.
pub open spec fn condition_text(c: BoxedCondition) -> Seq<char> {
    match c {
        BoxedCondition::Blinded(_) => BLINDED_TEXT@,
        BoxedCondition::Charmed(_) => CHARMED_TEXT@,
        BoxedCondition::Deafened(_) => DEAFENED_TEXT@,
        BoxedCondition::Frightened(_) => FRIGHTENED_TEXT@,
        BoxedCondition::Grappled(_) => GRAPPLED_TEXT@,
        BoxedCondition::Incapacitated(_) => INCAPACITATED_TEXT@,
        BoxedCondition::Invisible(_) => INVISIBLE_TEXT@,
        BoxedCondition::Paralyzed(_) => PARALYZED_TEXT@,
        BoxedCondition::Petrified(_) => PETRIFIED_TEXT@,
        BoxedCondition::Poisoned(_) => POISONED_TEXT@,
        BoxedCondition::Prone(_) => PRONE_TEXT@,
        BoxedCondition::Restrained(_) => RESTRAINED_TEXT@,
        BoxedCondition::Stunned(_) => STUNNED_TEXT@,
        BoxedCondition::Unconscious(_) => UNCONSCIOUS_TEXT@,
        BoxedCondition::Exhausted(e) => EXHAUSTION_TEXT@ + effects_text(levels_down_from(e.0)),
        BoxedCondition::Custom(c) => c.description@,
    }
}

impl BoxedCondition {
    /// The rules text of the condition held.
    pub fn description(&self) -> (s: String)
        ensures
            s@ == condition_text(*self),
    {
        match self {
            BoxedCondition::Blinded(c) => c.description(),
            BoxedCondition::Charmed(c) => c.description(),
            BoxedCondition::Deafened(c) => c.description(),
            BoxedCondition::Frightened(c) => c.description(),
            BoxedCondition::Grappled(c) => c.description(),
            BoxedCondition::Incapacitated(c) => c.description(),
            BoxedCondition::Invisible(c) => c.description(),
            BoxedCondition::Paralyzed(c) => c.description(),
            BoxedCondition::Petrified(c) => c.description(),
            BoxedCondition::Poisoned(c) => c.description(),
            BoxedCondition::Prone(c) => c.description(),
            BoxedCondition::Restrained(c) => c.description(),
            BoxedCondition::Stunned(c) => c.description(),
            BoxedCondition::Unconscious(c) => c.description(),
            BoxedCondition::Exhausted(c) => c.description(),
            BoxedCondition::Custom(c) => c.description(),
        }
    }
}

/// A condition on the character as the conditions card reads it: its name and the
/// conditions it implies.
pub struct AppliedCondition {
    pub name: String,
    pub implied: Vec<ImpliedCondition>,
}

/// A condition implied by another: named by id (listed on its own), or written out.
pub enum ImpliedCondition {
    Id(String),
    Custom(AppliedCondition),
}

/// The tags that implied conditions add: the name of each written-out one, followed by the
/// tags of what it implies in turn, in order.
pub open spec fn implied_tags(s: Seq<ImpliedCondition>) -> Seq<Seq<char>>
    decreases s,
{
    if s.len() == 0 {
        Seq::empty()
    } else {
        implied_tags(s.drop_last()) + match s.last() {
            ImpliedCondition::Id(_) => Seq::empty(),
            ImpliedCondition::Custom(c) => seq![c.name@] + implied_tags(c.implied@),
        }
    }
}

/// The tags a condition adds to the conditions card: its name, then those of the
/// written-out conditions it implies.
pub open spec fn condition_tags(c: AppliedCondition) -> Seq<Seq<char>> {
    seq![c.name@] + implied_tags(c.implied@)
}

/// Appends the tags of a condition to `out`.
pub fn insert_condition_tag(out: &mut Vec<String>, condition: &AppliedCondition)
    ensures
        final(out)@.map_values(|s: String| s@) == old(out)@.map_values(|s: String| s@) + condition_tags(*condition),
    decreases condition,
{
    let ghost start = out@.map_values(|s: String| s@);
    out.push(condition.name.clone());
    let mut i: usize = 0;
    proof {
        assert(condition.implied@.take(0) =~= Seq::<ImpliedCondition>::empty());
        assert(out@.map_values(|s: String| s@) =~= start + seq![condition.name@] + implied_tags(condition.implied@.take(0)));
    }
    while i < condition.implied.len()
        invariant
            i <= condition.implied@.len(),
            out@.map_values(|s: String| s@) == start + seq![condition.name@] + implied_tags(condition.implied@.take(i as int)),
        decreases condition.implied@.len() - i,
    {
        let ghost before = out@.map_values(|s: String| s@);
        assert(condition.implied@.take(i as int + 1).drop_last() =~= condition.implied@.take(i as int));
        match &condition.implied[i] {
            ImpliedCondition::Custom(inner) => {
                insert_condition_tag(out, inner);
            },
            ImpliedCondition::Id(_) => {},
        }
        proof {
            assert(out@.map_values(|s: String| s@) =~= start + seq![condition.name@] + implied_tags(condition.implied@.take(i as int + 1)));
        }
        i = i + 1;
    }
    assert(condition.implied@.take(condition.implied@.len() as int) =~= condition.implied@);
}

/// The tags of several conditions, one after another.
pub open spec fn all_condition_tags(conditions: Seq<AppliedCondition>) -> Seq<Seq<char>>
    decreases conditions.len(),
{
    if conditions.len() == 0 {
        Seq::empty()
    } else {
        all_condition_tags(conditions.drop_last()) + condition_tags(conditions.last())
    }
}

/// The tags shown on the conditions card: those of every condition on the character, sorted.
pub fn card_tags(conditions: &Vec<AppliedCondition>) -> (r: Vec<String>)
    ensures
        texts_sorted(texts_view(r)),
        texts_view(r).to_multiset() == all_condition_tags(conditions@).to_multiset(),
{
    let mut names: Vec<String> = Vec::new();
    let mut i: usize = 0;
    while i < conditions.len()
        invariant
            i <= conditions@.len(),
            texts_view(names) == all_condition_tags(conditions@.take(i as int)),
        decreases conditions@.len() - i,
    {
        insert_condition_tag(&mut names, &conditions[i]);
        assert(conditions@.take(i as int + 1).drop_last() =~= conditions@.take(i as int));
        i = i + 1;
    }
    assert(conditions@.take(conditions@.len() as int) =~= conditions@);
    sorted_texts(&names)
}

} // verus!
