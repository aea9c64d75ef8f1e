//! Lineages.

use vstd::prelude::*;
use crate::character::{ActivationKind, Feature, Lineage};
use crate::mutator::{AddLifeExpectancy, AddMaxHeight, AddMaxSpeed, BoxedMutator};
use crate::roll::{Die, Roll};

verus! {

/// The description of the shapechanger changeling lineage.
pub const SHAPECHANGER_TEXT: &'static str = "One of your birth parents is a changeling. You can change your appearance at will.
		- Your life expectancy increases by 50 years.
		- Your height increases by 30 + 1d4 inches.";

/// The description of the Shapechanger feature.
pub const SHAPECHANGER_FEATURE_TEXT: &'static str = "As an action, you can change your appearance. You determine the specifics of the changes, \
				including your coloration, hair length, and sex. You can also adjust your height and weight, \
				but not so much that your size changes. While shapechanged, none of your game statistics change. \
				You can't duplicate the appearance of a creature you've never seen, and you must adopt a form that has \
				the same basic arrangement of limbs that you have. Your voice, clothing, and equipment aren't changed by this trait. \
				You stay in the new form until you use an action to revert to your true form or until you die.";

/// The description of the voice changer changeling lineage.
pub const VOICE_CHANGER_TEXT: &'static str = "One of your birth parents is a changeling. You can perfectly mimic another person's voice.";

/// The description of the Voice Change feature.
pub const VOICE_CHANGE_FEATURE_TEXT: &'static str = "As an action, you can change your voice. You can't duplicate the voice of a creature you've never heard. \
				Your appearance remains the same. You keep your mimicked voice until you use an action to revert to your true voice.";

/// The changes every changeling lineage makes: 50 more years of life, 30 + 1d4 inches of
/// height, and a walking speed of at least 30 feet.
pub open spec fn changeling_mutators(m: Seq<BoxedMutator>) -> bool {
    &&& m.len() == 4
    &&& m[0] == BoxedMutator::AddLifeExpectancy(AddLifeExpectancy(50))
    &&& m[1] == BoxedMutator::AddMaxHeight(AddMaxHeight::Value(30))
    &&& m[2] == BoxedMutator::AddMaxHeight(AddMaxHeight::Roll(Roll { amount: 1, die: Die::D4 }))
    &&& m[3] matches BoxedMutator::AddMaxSpeed(s) && s.0@ == "Walking"@ && s.1 == 30
}

/// Whether `l` is a changeling lineage with this name and description whose one feature
/// is an action with this name and description.
pub open spec fn is_changeling_lineage(
    l: Lineage,
    name: Seq<char>,
    description: Seq<char>,
    feature_name: Seq<char>,
    feature_description: Seq<char>,
) -> bool {
    &&& l.name@ == name
    &&& l.description@ == description
    &&& changeling_mutators(l.mutators@)
    &&& l.features@.len() == 1
    &&& l.features@[0].name@ == feature_name
    &&& l.features@[0].description@ == feature_description
    &&& l.features@[0].action == Some(ActivationKind::Action)
    &&& l.features@[0].mutators@.len() == 0
    &&& l.features@[0].criteria is None
}

/// Whether `l` is the shapechanger lineage.
pub open spec fn is_shapechanger(l: Lineage) -> bool {
    is_changeling_lineage(l, "Changeling (Shapechanger)"@, SHAPECHANGER_TEXT@, "Shapechanger"@,
        SHAPECHANGER_FEATURE_TEXT@)
}

/// Whether `l` is the voice changer lineage.
pub open spec fn is_voice_changer(l: Lineage) -> bool {
    is_changeling_lineage(l, "Changeling (Voice Changer)"@, VOICE_CHANGER_TEXT@, "Voice Change"@,
        VOICE_CHANGE_FEATURE_TEXT@)
}

fn changeling_lineage(
    name: &str,
    description: &str,
    feature_name: &str,
    feature_description: &str,
) -> (l: Lineage)
    ensures
        is_changeling_lineage(l, name@, description@, feature_name@, feature_description@),
{
    let mutators = vec![
        BoxedMutator::AddLifeExpectancy(AddLifeExpectancy(50)),
        BoxedMutator::AddMaxHeight(AddMaxHeight::Value(30)),
        BoxedMutator::AddMaxHeight(AddMaxHeight::Roll(Roll { amount: 1, die: Die::D4 })),
        BoxedMutator::AddMaxSpeed(AddMaxSpeed("Walking".to_owned(), 30)),
    ];
    let feature = Feature {
        name: feature_name.to_owned(),
        description: feature_description.to_owned(),
        action: Some(ActivationKind::Action),
        mutators: Vec::new(),
        criteria: None,
    };
    Lineage {
        name: name.to_owned(),
        description: description.to_owned(),
        mutators,
        features: vec![feature],
    }
}

/// The changeling lineage of one who can change appearance at will.
pub fn shapechanger() -> (r: Lineage)
    ensures
        is_shapechanger(r),
{
    changeling_lineage("Changeling (Shapechanger)", SHAPECHANGER_TEXT, "Shapechanger", SHAPECHANGER_FEATURE_TEXT)
}

/// The changeling lineage of one who can mimic another person's voice.
pub fn voice_changer() -> (r: Lineage)
    ensures
        is_voice_changer(r),
{
    changeling_lineage("Changeling (Voice Changer)", VOICE_CHANGER_TEXT, "Voice Change", VOICE_CHANGE_FEATURE_TEXT)
}

} // verus!
