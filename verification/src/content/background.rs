//! Backgrounds.

use vstd::prelude::*;
use crate::ability::Skill;
use crate::character::{Background, Feature};
use crate::mutator::{AddProficiency, AddSkill, BoxedMutator, Selector};
use crate::proficiency;

verus! {

/// The description of the anthropologist background.
pub const ANTHROPOLOGIST_TEXT: &'static str = "You have always been fascinated by other cultures, from the most ancient and \
		primeval lost lands to the most modern civilizations. By studying other cultures' customs, philosophies, \
		laws, rituals, religious beliefs, languages, and art, you have learned how tribes, empires, \
		and all forms of society in between craft their own destinies and doom. This knowledge came to \
		you not only through books and scrolls, but also through first-hand observation—by visiting far-flung \
		settlements and exploring local histories and customs.";

/// The description of the anthropologist's Languages feature.
pub const ANTHROPOLOGIST_LANGUAGES_TEXT: &'static str = "You can speak, read, and write two languages of your choice.";

/// The description of the anthropologist's Adept Linguist feature.
pub const ADEPT_LINGUIST_TEXT: &'static str = "You can communicate with humanoids who don't speak any language you know. \
				You must observe the humanoids interacting with one another for at least 1 day, \
				after which you learn a handful of important words, expressions, and gestures—enough \
				to communicate on a rudimentary level.";

/// Whether a change grants full proficiency in exactly this skill.
pub open spec fn grants_skill(m: BoxedMutator, skill: Skill) -> bool {
    m matches BoxedMutator::AddSkill(s) && s.skill == Selector::Specific(skill)
        && s.proficiency == proficiency::Level::Full
}

/// Whether a change grants a language of the player's choice, named by the choice `id`.
pub open spec fn grants_any_language(m: BoxedMutator, id: Seq<char>) -> bool {
    m matches BoxedMutator::AddProficiency(AddProficiency::Language(Selector::Any { id: Some(i) })) && i@ == id
}

pub(crate) fn full_skill(skill: Skill) -> (m: BoxedMutator)
    ensures
        grants_skill(m, skill),
{
    BoxedMutator::AddSkill(AddSkill { skill: Selector::Specific(skill), proficiency: proficiency::Level::Full })
}

pub(crate) fn any_language(id: &str) -> (m: BoxedMutator)
    ensures
        grants_any_language(m, id@),
{
    BoxedMutator::AddProficiency(AddProficiency::Language(Selector::Any { id: Some(id.to_owned()) }))
}

/// The anthropologist: proficient in Insight and Religion, speaks two languages of choice
/// and can learn to communicate with any humanoids by observing them.
pub fn anthropologist() -> (r: Background)
    ensures
        r.name@ == "Anthropologist"@,
        r.description@ == ANTHROPOLOGIST_TEXT@,
        r.mutators@.len() == 2,
        grants_skill(r.mutators@[0], Skill::Insight),
        grants_skill(r.mutators@[1], Skill::Religion),
        r.features@.len() == 2,
        r.features@[0].name@ == "Languages"@,
        r.features@[0].description@ == ANTHROPOLOGIST_LANGUAGES_TEXT@,
        r.features@[0].action is None,
        r.features@[0].criteria is None,
        r.features@[0].mutators@.len() == 2,
        grants_any_language(r.features@[0].mutators@[0], "langA"@),
        grants_any_language(r.features@[0].mutators@[1], "langB"@),
        r.features@[1].name@ == "Adept Linguist"@,
        r.features@[1].description@ == ADEPT_LINGUIST_TEXT@,
        r.features@[1].action is None,
        r.features@[1].criteria is None,
        r.features@[1].mutators@.len() == 0,
{
    let languages = Feature::new(
        "Languages",
        ANTHROPOLOGIST_LANGUAGES_TEXT,
        vec![any_language("langA"), any_language("langB")],
    );
    let linguist = Feature::new("Adept Linguist", ADEPT_LINGUIST_TEXT, Vec::new());
    Background {
        name: "Anthropologist".to_owned(),
        description: ANTHROPOLOGIST_TEXT.to_owned(),
        mutators: vec![full_skill(Skill::Insight), full_skill(Skill::Religion)],
        features: vec![languages, linguist],
    }
}

} // verus!
