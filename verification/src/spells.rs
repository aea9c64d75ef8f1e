//! Spell sections of the sheet: which rank sections list a spell, section titles and the
//! actions offered in a caster's spell list.

use vstd::prelude::*;
use convert_case::{Case, Casing};
use crate::text::{decimal, push_decimal};

verus! {

/// The highest spell rank.
pub const MAX_SPELL_RANK: u8 = 9;

/// The ordinal suffix shown after a spell rank: `st`, `nd`, `rd`, `th` (for 4 to 9), else none.
pub open spec fn spec_rank_suffix(rank: u8) -> Seq<char> {
    if rank == 1 {
        "st"@
    } else if rank == 2 {
        "nd"@
    } else if rank == 3 {
        "rd"@
    } else if 4 <= rank <= 9 {
        "th"@
    } else {
        ""@
    }
}

/// The ordinal suffix of a spell rank.
pub fn rank_suffix(rank: u8) -> (s: &'static str)
    ensures
        s@ == spec_rank_suffix(rank),
{
    if rank == 1 {
        "st"
    } else if rank == 2 {
        "nd"
    } else if rank == 3 {
        "rd"
    } else if 4 <= rank && rank <= 9 {
        "th"
    } else {
        ""
    }
}

/// The ranks a spell can be cast at: its forced rank when it has one; its own rank when it
/// is not cast with a slot; otherwise its rank and every higher rank up to 9 (a cantrip only at 0).
pub open spec fn castable_ranks(spell_rank: u8, forced_rank: Option<u8>, cast_via_slot: bool) -> Seq<u8> {
    match forced_rank {
        Some(r) => seq![r],
        None => if !cast_via_slot {
            seq![spell_rank]
        } else if spell_rank == 0 {
            seq![0u8]
        } else if spell_rank <= MAX_SPELL_RANK {
            Seq::new((MAX_SPELL_RANK - spell_rank + 1) as nat, |i: int| (spell_rank + i) as u8)
        } else {
            Seq::empty()
        },
    }
}

/// Whether the section of `rank` lists spells cast at that rank: it exists (rank at most 9)
/// and is the cantrip section or has spell slots.
pub open spec fn section_accepts(rank: u8, has_slots: Seq<bool>) -> bool {
    rank <= MAX_SPELL_RANK && (rank == 0 || has_slots[rank as int])
}

/// The rank sections that list a spell, given which sections have spell slots.
pub fn spell_sections(
    spell_rank: u8,
    forced_rank: Option<u8>,
    cast_via_slot: bool,
    has_slots: &Vec<bool>,
) -> (r: Vec<u8>)
    requires
        has_slots@.len() == MAX_SPELL_RANK + 1,
    ensures
        r@ == castable_ranks(spell_rank, forced_rank, cast_via_slot).filter(|k: u8| section_accepts(k, has_slots@)),
{
    let ranks: Vec<u8> = match forced_rank {
        Some(f) => vec![f],
        None => {
            if !cast_via_slot {
                vec![spell_rank]
            } else if spell_rank == 0 {
                vec![0u8]
            } else {
                let mut v: Vec<u8> = Vec::new();
                let mut k: u8 = spell_rank;
                while k <= MAX_SPELL_RANK
                    invariant
                        spell_rank >= 1,
                        spell_rank <= k <= MAX_SPELL_RANK + 1 || (spell_rank > MAX_SPELL_RANK && k == spell_rank),
                        v@ == Seq::new((k - spell_rank) as nat, |i: int| (spell_rank + i) as u8),
                    decreases MAX_SPELL_RANK + 1 - k,
                {
                    v.push(k);
                    k = k + 1;
                    assert(v@ =~= Seq::new((k - spell_rank) as nat, |i: int| (spell_rank + i) as u8));
                }
                v
            }
        },
    };
    let ghost all = castable_ranks(spell_rank, forced_rank, cast_via_slot);
    proof {
        if forced_rank is None && cast_via_slot && spell_rank != 0 {
            if spell_rank <= MAX_SPELL_RANK {
                assert(ranks@ =~= all);
            } else {
                assert(ranks@ =~= all);
            }
        } else {
            assert(ranks@ =~= all);
        }
    }
    let ghost pred = |k: u8| section_accepts(k, has_slots@);
    let mut r: Vec<u8> = Vec::new();
    let mut i: usize = 0;
    while i < ranks.len()
        invariant
            has_slots@.len() == MAX_SPELL_RANK + 1,
            ranks@ == all,
            i <= ranks@.len(),
            pred == (|k: u8| section_accepts(k, has_slots@)),
            r@ == all.take(i as int).filter(pred),
        decreases ranks@.len() - i,
    {
        proof {
            reveal(Seq::filter);
            assert(all.take(i as int + 1).drop_last() =~= all.take(i as int));
        }
        let k = ranks[i];
        if k <= MAX_SPELL_RANK && (k == 0 || has_slots[k as usize]) {
            r.push(k);
        }
        i = i + 1;
    }
    assert(all.take(all.len() as int) =~= all);
    r
}

/// The section a ritual is listed in: a ritual is cast only at the spell's own rank, and
/// only when the spell can be cast as a ritual and that section exists.
pub fn ritual_section(spell_rank: u8, cast_via_ritual: bool) -> (r: Option<u8>)
    ensures
        r == if cast_via_ritual && spell_rank <= MAX_SPELL_RANK { Some(spell_rank) } else { None::<u8> },
{
    if cast_via_ritual && spell_rank <= MAX_SPELL_RANK {
        Some(spell_rank)
    } else {
        None
    }
}

/// Whether a rank section is shown: it lists spells, or it is a levelled rank with slots.
pub fn section_shown(rank: u8, spell_count: usize, has_slots: bool) -> (r: bool)
    ensures
        r == !(spell_count == 0 && (!has_slots || rank == 0)),
{
    !(spell_count == 0 && (!has_slots || rank == 0))
}

/// The upper-case form that `convert_case` gives a text (`Case::Upper`: words split at its
/// default boundaries, upper-cased and joined by spaces).
pub uninterp spec fn upper_case(s: Seq<char>) -> Seq<char>;

/// Calls `convert_case::Casing::to_case` with `Case::Upper`. The contract claims only that
/// the result is a function of the text (named `upper_case`), which holds as the conversion
/// reads nothing but its argument; what that function is, is not stated.
#[verifier::external_body]
pub(crate) fn to_upper_case(s: &str) -> (r: String)
    ensures
        r@ == upper_case(s@),
{
    s.to_case(Case::Upper)
}

/// The words of a section title before upper-casing: `cantrip`, or the suffix and `level`.
pub open spec fn title_words(rank: u8) -> Seq<char> {
    if rank == 0 { "cantrip"@ } else { spec_rank_suffix(rank) + " level"@ }
}

/// The title of a section given the upper-cased words: the words alone for cantrips,
/// the rank in digits before them otherwise.
pub open spec fn title_from_upper(rank: u8, upper: Seq<char>) -> Seq<char> {
    if rank == 0 { upper } else { decimal(rank as nat) + upper }
}

/// Builds a section title from the upper-cased words, such as `1` and `ST LEVEL` into `1ST LEVEL`.
pub fn section_title_from(rank: u8, upper: &str) -> (s: String)
    ensures
        s@ == title_from_upper(rank, upper@),
{
    let mut s = String::new();
    if rank != 0 {
        push_decimal(&mut s, rank as u64);
    }
    s.append(upper);
    assert(s@ =~= title_from_upper(rank, upper@));
    s
}

/// The title of the section of a rank: `CANTRIP`, `1ST LEVEL`, `2ND LEVEL` and so on.
pub fn section_title(rank: u8) -> (s: String)
    ensures
        s@ == title_from_upper(rank, upper_case(title_words(rank))),
{
    let mut words = String::new();
    if rank == 0 {
        words.append("cantrip");
    } else {
        words.append(rank_suffix(rank));
        words.append(" level");
    }
    assert(words@ =~= title_words(rank));
    let upper = to_upper_case(words.as_str());
    section_title_from(rank, upper.as_str())
}

/// The rank of a spell as written in running text: `Cantrip` or, for instance, `3rd`.
pub fn rank_label(rank: u8) -> (s: String)
    ensures
        s@ == if rank == 0 { "Cantrip"@ } else { decimal(rank as nat) + spec_rank_suffix(rank) },
{
    let mut s = String::new();
    if rank == 0 {
        s.append("Cantrip");
    } else {
        push_decimal(&mut s, rank as u64);
        s.append(rank_suffix(rank));
    }
    assert(s@ =~= if rank == 0 { "Cantrip"@ } else { decimal(rank as nat) + spec_rank_suffix(rank) });
    s
}

/// How a caster readies spells.
#[derive(Clone, Copy, Debug, PartialEq, Eq, Structural)]
pub enum CasterKind {
    /// Casts any spell it knows.
    Known,
    /// Prepares spells from a list.
    Prepared,
}

/// The two lists in which a caster's spells appear.
#[derive(Clone, Copy, Debug, PartialEq, Eq, Structural)]
pub enum SpellListSection {
    Selected,
    Available,
}

/// The look of the button of a spell list entry.
#[derive(Clone, Copy, Debug, PartialEq, Eq, Structural)]
pub enum ButtonStyle {
    OutlineTheme,
    Theme,
    OutlineSecondary,
}

/// Whether a caster can select another spell of a rank: cantrips and spells are counted
/// apart, against their own capacities; with no selections yet it always can.
pub fn can_select_more(
    rank: u8,
    selections: Option<(usize, usize)>,
    max_cantrips: usize,
    max_spells: usize,
) -> (r: bool)
    ensures
        r == match selections {
            None => true,
            Some((cantrips, spells)) => if rank == 0 { cantrips < max_cantrips } else { spells < max_spells },
        },
{
    match selections {
        None => true,
        Some((cantrips, spells)) => if rank == 0 {
            cantrips < max_cantrips
        } else {
            spells < max_spells
        },
    }
}

/// The name of the action on a spell list entry.
pub open spec fn spec_action_name(kind: CasterKind, rank: u8, is_selected: bool, section: SpellListSection) -> Seq<char> {
    if rank == 0 || kind == CasterKind::Known {
        if is_selected { "Delete"@ } else { "Learn"@ }
    } else if !is_selected {
        "Prepare"@
    } else if section == SpellListSection::Selected {
        "Unprepare"@
    } else {
        "Prepared"@
    }
}

/// The action offered on a spell list entry: its name, the button's look, and whether the
/// button is disabled (an unselected spell in the available list when no more can be chosen).
pub fn spell_list_action(
    kind: CasterKind,
    rank: u8,
    is_selected: bool,
    section: SpellListSection,
    can_select_more: bool,
) -> (r: (&'static str, ButtonStyle, bool))
    ensures
        r.0@ == spec_action_name(kind, rank, is_selected, section),
        r.1 == match section {
            SpellListSection::Selected => ButtonStyle::OutlineTheme,
            SpellListSection::Available => if is_selected {
                ButtonStyle::Theme
            } else if can_select_more {
                ButtonStyle::OutlineTheme
            } else {
                ButtonStyle::OutlineSecondary
            },
        },
        r.2 == (section == SpellListSection::Available && !is_selected && !can_select_more),
{
    let (style, disabled) = match section {
        SpellListSection::Selected => (ButtonStyle::OutlineTheme, false),
        SpellListSection::Available => if is_selected {
            (ButtonStyle::Theme, false)
        } else if can_select_more {
            (ButtonStyle::OutlineTheme, false)
        } else {
            (ButtonStyle::OutlineSecondary, true)
        },
    };
    let name = if rank == 0 || kind == CasterKind::Known {
        if is_selected { "Delete" } else { "Learn" }
    } else if !is_selected {
        "Prepare"
    } else {
        match section {
            SpellListSection::Selected => "Unprepare",
            SpellListSection::Available => "Prepared",
        }
    };
    (name, style, disabled)
}

/// The sections a spell is listed in: a forced rank alone decides, whatever the casting; a
/// spell not cast with a slot is listed at its own rank only; a spell cast with a slot is
/// listed at its rank and every higher one (a cantrip at rank 0 only); in each case only
/// where the section takes spells.
pub proof fn law_listed_ranks(spell_rank: u8, forced_rank: Option<u8>, cast_via_slot: bool, has_slots: Seq<bool>, k: u8)
    ensures
        forced_rank matches Some(f) ==> (castable_ranks(spell_rank, forced_rank, cast_via_slot).filter(
            |x: u8| section_accepts(x, has_slots),
        ) == if section_accepts(f, has_slots) { seq![f] } else { Seq::<u8>::empty() }),
        forced_rank is None && !cast_via_slot ==> (castable_ranks(spell_rank, forced_rank, cast_via_slot).filter(
            |x: u8| section_accepts(x, has_slots),
        ) == if section_accepts(spell_rank, has_slots) { seq![spell_rank] } else { Seq::<u8>::empty() }),
        forced_rank is None && cast_via_slot && spell_rank > 0 ==> (castable_ranks(
            spell_rank,
            forced_rank,
            cast_via_slot,
        ).contains(k) == (spell_rank <= k <= MAX_SPELL_RANK)),
        forced_rank is None && cast_via_slot && spell_rank == 0 ==> (castable_ranks(
            spell_rank,
            forced_rank,
            cast_via_slot,
        ).contains(k) == (k == 0)),
{
    let pred = |x: u8| section_accepts(x, has_slots);
    reveal_with_fuel(Seq::filter, 2);
    match forced_rank {
        Some(f) => {
            assert(seq![f].drop_last() =~= Seq::<u8>::empty());
        },
        None => {
            if !cast_via_slot {
                assert(seq![spell_rank].drop_last() =~= Seq::<u8>::empty());
            } else if spell_rank > 0 {
                let s = castable_ranks(spell_rank, forced_rank, cast_via_slot);
                if spell_rank <= k <= MAX_SPELL_RANK {
                    assert(s[(k - spell_rank) as int] == k);
                }
            } else {
                let s = castable_ranks(spell_rank, forced_rank, cast_via_slot);
                if k == 0 {
                    assert(s[0] == k);
                }
            }
        },
    }
}

/// The action offered on a spell list entry: a cantrip, or any spell of a caster that knows
/// its spells, is learned or deleted; a levelled spell of a preparing caster is prepared when
/// not selected, and otherwise unprepared from the selected list or shown as prepared in the
/// available list.
pub proof fn law_spell_list_action_names(kind: CasterKind, rank: u8, is_selected: bool, section: SpellListSection)
    ensures
        (rank == 0 || kind == CasterKind::Known) && !is_selected ==> spec_action_name(kind, rank, is_selected, section) == "Learn"@,
        (rank == 0 || kind == CasterKind::Known) && is_selected ==> spec_action_name(kind, rank, is_selected, section) == "Delete"@,
        kind == CasterKind::Prepared && rank > 0 && !is_selected ==> spec_action_name(kind, rank, is_selected, section) == "Prepare"@,
        kind == CasterKind::Prepared && rank > 0 && is_selected && section == SpellListSection::Selected
            ==> spec_action_name(kind, rank, is_selected, section) == "Unprepare"@,
        kind == CasterKind::Prepared && rank > 0 && is_selected && section == SpellListSection::Available
            ==> spec_action_name(kind, rank, is_selected, section) == "Prepared"@,
{
}

} // verus!
