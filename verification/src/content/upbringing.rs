//! Upbringings.

use vstd::prelude::*;
use crate::ability::{all_abilities, Ability, Skill};
use crate::character::{Feature, Upbringing};
use crate::content::background::{any_language, grants_any_language};
use crate::mutator::{AddAbilityScore, AddProficiency, AddSkill, BoxedMutator, Selector};
use crate::proficiency;

verus! {

/// The description of the incognito upbringing.
pub const INCOGNITO_TEXT: &'static str = "You were brought up by those who were not what they seemed.";

/// The description of the Ability Score Increase feature.
pub const INCOGNITO_ASI_TEXT: &'static str = "Your Charisma score increases by 2. In addition, one ability score of your choice increases by 1.";

/// The description of the Good with People feature.
pub const GOOD_WITH_PEOPLE_TEXT: &'static str = "You gain proficiency with two of the following skills of your choice: Deception, Insight, Intimidation, and Persuasion.";

/// The description of the incognito Languages feature.
pub const INCOGNITO_LANGUAGES_TEXT: &'static str = "You can speak, read, and write Common and two other languages of your choice.";

/// Whether `u` is the incognito upbringing: +2 Charisma and +1 to another ability of choice;
/// proficiency in one skill chosen from Deception, Insight, Intimidation and Persuasion;
/// Common and two languages of choice.
pub open spec fn is_incognito(u: Upbringing) -> bool {
    &&& u.name@ == "Incognito"@
    &&& u.description@ == INCOGNITO_TEXT@
    &&& u.mutators@.len() == 0
    &&& u.features@.len() == 3
    &&& u.features@[0].name@ == "Ability Score Increase"@
    &&& u.features@[0].description@ == INCOGNITO_ASI_TEXT@
    &&& u.features@[0].mutators@.len() == 2
    &&& u.features@[0].mutators@[0] matches BoxedMutator::AddAbilityScore(a)
        && a.ability == Selector::Specific(Ability::Charisma) && a.value == 2
    &&& u.features@[0].mutators@[1] matches BoxedMutator::AddAbilityScore(a)
        && (a.ability matches Selector::AnyOf { id: None, options }
        && options@ == all_abilities().filter(|x: Ability| x != Ability::Charisma)) && a.value == 1
    &&& u.features@[1].name@ == "Good with People"@
    &&& u.features@[1].description@ == GOOD_WITH_PEOPLE_TEXT@
    &&& u.features@[1].mutators@.len() == 1
    &&& u.features@[1].mutators@[0] matches BoxedMutator::AddSkill(s)
        && (s.skill matches Selector::AnyOf { id: None, options }
        && options@ == seq![Skill::Deception, Skill::Insight, Skill::Intimidation, Skill::Persuasion])
        && s.proficiency == proficiency::Level::Full
    &&& u.features@[2].name@ == "Languages"@
    &&& u.features@[2].description@ == INCOGNITO_LANGUAGES_TEXT@
    &&& u.features@[2].mutators@.len() == 3
    &&& u.features@[2].mutators@[0] matches BoxedMutator::AddProficiency(AddProficiency::Language(Selector::Specific(l)))
        && l@ == "Common"@
    &&& grants_any_language(u.features@[2].mutators@[1], "langA"@)
    &&& grants_any_language(u.features@[2].mutators@[2], "langB"@)
    &&& forall|i: int| 0 <= i < 3 ==> (#[trigger] u.features@[i]).action is None && u.features@[i].criteria is None
}

/// The incognito upbringing: brought up by those who were not what they seemed.
pub fn incognito() -> (r: Upbringing)
    ensures
        is_incognito(r),
{
    let asi = Feature::new(
        "Ability Score Increase",
        INCOGNITO_ASI_TEXT,
        vec![
            BoxedMutator::AddAbilityScore(AddAbilityScore { ability: Selector::Specific(Ability::Charisma), value: 2 }),
            BoxedMutator::AddAbilityScore(AddAbilityScore {
                ability: Selector::AnyOf { id: None, options: Ability::all_except(Ability::Charisma) },
                value: 1,
            }),
        ],
    );
    let skill_options = vec![Skill::Deception, Skill::Insight, Skill::Intimidation, Skill::Persuasion];
    assert(skill_options@ =~= seq![Skill::Deception, Skill::Insight, Skill::Intimidation, Skill::Persuasion]);
    let people = Feature::new(
        "Good with People",
        GOOD_WITH_PEOPLE_TEXT,
        vec![BoxedMutator::AddSkill(AddSkill {
            skill: Selector::AnyOf { id: None, options: skill_options },
            proficiency: proficiency::Level::Full,
        })],
    );
    let languages = Feature::new(
        "Languages",
        INCOGNITO_LANGUAGES_TEXT,
        vec![
            BoxedMutator::AddProficiency(AddProficiency::Language(Selector::Specific("Common".to_owned()))),
            any_language("langA"),
            any_language("langB"),
        ],
    );
    let r = Upbringing {
        name: "Incognito".to_owned(),
        description: INCOGNITO_TEXT.to_owned(),
        mutators: Vec::new(),
        features: vec![asi, people, languages],
    };
    assert(forall|i: int| 0 <= i < 3 ==> (#[trigger] r.features@[i]).action is None && r.features@[i].criteria is None);
    r
}

} // verus!
