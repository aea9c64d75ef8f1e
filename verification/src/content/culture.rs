//! Cultures.

use vstd::prelude::*;
use crate::character::Culture;
use crate::content::lineage::{is_shapechanger, is_voice_changer, shapechanger, voice_changer};
use crate::content::upbringing::{incognito, is_incognito};

verus! {

/// The changeling culture: the shapechanger and voice changer lineages, raised incognito.
pub fn changeling() -> (r: Culture)
    ensures
        is_shapechanger(r.lineages[0]),
        is_voice_changer(r.lineages[1]),
        is_incognito(r.upbringing),
{
    Culture { lineages: [shapechanger(), voice_changer()], upbringing: incognito() }
}

} // verus!
