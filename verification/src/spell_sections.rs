//! The rank sections of the spells panel: the spell slots of each rank, and the spells each
//! section lists, sorted by name, then source.

use vstd::prelude::*;
use crate::actions::clone_path;
use crate::order::{compare_key, key_order, lemma_key_order, path_view, Order};
use crate::spells::{castable_ranks, section_accepts, MAX_SPELL_RANK};

verus! {

/// Where a spell that can be cast as a ritual comes from.
pub enum RitualSource {
    /// A caster that may cast its rituals without preparing them.
    Caster(String),
    /// A feature (by path) that keeps the spell always prepared.
    AlwaysPrepared(Vec<String>),
}

/// Where a listed spell is found on the character.
pub enum SpellLocation {
    /// Selected (known or prepared) by a caster.
    Selected { spell_id: String, caster_id: String },
    /// Always prepared, granted by the feature at `source`.
    AlwaysPrepared { spell_id: String, source: Vec<String> },
    /// Castable only as a ritual.
    AvailableAsRitual { spell_id: String, source: RitualSource },
}

/// A location as plain values: the spell, the caster (if a caster is named), the source
/// path (if a source is named), and whether the spell is listed as a ritual only.
pub open spec fn location_view(l: SpellLocation) -> (Seq<char>, Option<Seq<char>>, Option<Seq<Seq<char>>>, bool) {
    match l {
        SpellLocation::Selected { spell_id, caster_id } => (spell_id@, Some(caster_id@), None, false),
        SpellLocation::AlwaysPrepared { spell_id, source } => (spell_id@, None, Some(path_view(source)), false),
        SpellLocation::AvailableAsRitual { spell_id, source } => ritual_view(spell_id@, source),
    }
}

/// The plain values of a ritual-only location of the spell `spell_id`.
pub open spec fn ritual_view(spell_id: Seq<char>, source: RitualSource) -> (Seq<char>, Option<Seq<char>>, Option<Seq<Seq<char>>>, bool) {
    match source {
        RitualSource::Caster(c) => (spell_id, Some(c@), None, true),
        RitualSource::AlwaysPrepared(p) => (spell_id, None, Some(path_view(p)), true),
    }
}

/// A copy of a location.
pub fn copy_location(l: &SpellLocation) -> (r: SpellLocation)
    ensures
        location_view(r) == location_view(*l),
{
    match l {
        SpellLocation::Selected { spell_id, caster_id } => SpellLocation::Selected {
            spell_id: spell_id.clone(),
            caster_id: caster_id.clone(),
        },
        SpellLocation::AlwaysPrepared { spell_id, source } => SpellLocation::AlwaysPrepared {
            spell_id: spell_id.clone(),
            source: clone_path(source),
        },
        SpellLocation::AvailableAsRitual { spell_id, source } => SpellLocation::AvailableAsRitual {
            spell_id: spell_id.clone(),
            source: match source {
                RitualSource::Caster(c) => RitualSource::Caster(c.clone()),
                RitualSource::AlwaysPrepared(p) => RitualSource::AlwaysPrepared(clone_path(p)),
            },
        },
    }
}

/// A spell listed in a section: its name, the source of its spellcasting entry, and where
/// it is found.
pub struct SpellRow {
    pub name: String,
    pub source: Vec<String>,
    pub location: SpellLocation,
}

/// A row as plain values: name, source and location.
pub type RowView = (Seq<char>, Seq<Seq<char>>, (Seq<char>, Option<Seq<char>>, Option<Seq<Seq<char>>>, bool));

/// A row as plain values.
pub open spec fn row_view(r: SpellRow) -> RowView {
    (r.name@, path_view(r.source), location_view(r.location))
}

/// Whether rows are in order of name, then source (rows with equal keys may be adjacent).
pub open spec fn rows_sorted(rows: Seq<RowView>) -> bool {
    forall|i: int, j: int| 0 <= i < j < rows.len() ==> key_order(rows[i].0, rows[i].1, rows[j].0, rows[j].1) <= 0
}

/// Whether `after` is `before` with `row` put in at some place.
pub open spec fn row_inserted(
    before: Seq<RowView>,
    after: Seq<RowView>,
    row: RowView,
) -> bool {
    exists|idx: int| 0 <= idx <= before.len() && after == before.insert(idx, row)
}

/// Putting a row in at some place adds one row and takes none away: the rows after are
/// those before and the new one, each as often.
pub proof fn law_row_inserted(before: Seq<RowView>, after: Seq<RowView>, row: RowView)
    requires
        row_inserted(before, after, row),
    ensures
        after.len() == before.len() + 1,
        after.to_multiset() == before.to_multiset().insert(row),
{
    let idx = choose|idx: int| 0 <= idx <= before.len() && after == before.insert(idx, row);
    vstd::seq_lib::to_multiset_insert(before, idx, row);
}

/// One rank section: its spell slots (used and total), if the character has any of the
/// rank, and the spells it lists.
pub struct SpellSection {
    pub slot_count: Option<(usize, usize)>,
    pub rows: Vec<SpellRow>,
}

impl SpellSection {
    /// The listed spells, as plain values, in order.
    pub open spec fn rows_view(self) -> Seq<RowView> {
        self.rows@.map_values(|r: SpellRow| row_view(r))
    }

    /// Lists a spell at the place a binary search by name, then source, finds, which keeps
    /// the rows in order (a spell whose key is already listed goes next to those rows).
    pub fn insert_spell(&mut self, row: SpellRow)
        requires
            rows_sorted(old(self).rows_view()),
        ensures
            final(self).slot_count == old(self).slot_count,
            rows_sorted(final(self).rows_view()),
            row_inserted(old(self).rows_view(), final(self).rows_view(), row_view(row)),
            final(self).rows_view().len() == old(self).rows_view().len() + 1,
            final(self).rows_view().to_multiset() == old(self).rows_view().to_multiset().insert(row_view(row)),
    {
        let ghost v = self.rows_view();
        let ghost nk = row_view(row);
        let mut lo: usize = 0;
        let mut hi: usize = self.rows.len();
        while lo < hi
            invariant
                *self == *old(self),
                v == self.rows_view(),
                v.len() == self.rows@.len(),
                nk == row_view(row),
                rows_sorted(v),
                lo <= hi <= v.len(),
                forall|i: int| 0 <= i < lo ==> key_order((#[trigger] v[i]).0, v[i].1, nk.0, nk.1) <= 0,
                forall|i: int| hi <= i < v.len() ==> key_order(nk.0, nk.1, (#[trigger] v[i]).0, v[i].1) <= 0,
            decreases hi - lo,
        {
            let mid = lo + (hi - lo) / 2;
            assert(v[mid as int] == row_view(self.rows@[mid as int]));
            let c = compare_key(self.rows[mid].name.as_str(), &self.rows[mid].source, row.name.as_str(), &row.source);
            let ghost km = v[mid as int];
            proof { lemma_key_order(km.0, km.1, nk.0, nk.1, km.0, km.1); }
            match c {
                Order::Less => {
                    proof {
                        assert forall|i: int| 0 <= i < mid + 1 implies key_order((#[trigger] v[i]).0, v[i].1, nk.0, nk.1) <= 0 by {
                            if i < mid {
                                lemma_key_order(v[i].0, v[i].1, km.0, km.1, nk.0, nk.1);
                            }
                        }
                    }
                    lo = mid + 1;
                },
                Order::Greater => {
                    proof {
                        assert forall|i: int| mid <= i < v.len() implies key_order(nk.0, nk.1, (#[trigger] v[i]).0, v[i].1) <= 0 by {
                            if i > mid {
                                lemma_key_order(nk.0, nk.1, km.0, km.1, v[i].0, v[i].1);
                            }
                        }
                    }
                    hi = mid;
                },
                Order::Equal => {
                    proof {
                        assert forall|i: int| 0 <= i < mid implies key_order((#[trigger] v[i]).0, v[i].1, nk.0, nk.1) <= 0 by {
                            lemma_key_order(v[i].0, v[i].1, km.0, km.1, nk.0, nk.1);
                        }
                        assert forall|i: int| mid <= i < v.len() implies key_order(nk.0, nk.1, (#[trigger] v[i]).0, v[i].1) <= 0 by {
                            lemma_key_order(nk.0, nk.1, km.0, km.1, v[i].0, v[i].1);
                        }
                    }
                    lo = mid;
                    hi = mid;
                },
            }
        }
        self.rows.insert(lo, row);
        proof {
            let w = self.rows_view();
            assert(w =~= v.insert(lo as int, nk));
            assert forall|i: int, j: int| 0 <= i < j < w.len() implies key_order(w[i].0, w[i].1, w[j].0, w[j].1) <= 0 by {
                if j < lo {
                } else if j == lo {
                } else if i == lo {
                    assert(w[j] == v[j - 1]);
                } else if i < lo {
                    assert(w[j] == v[j - 1]);
                } else {
                    assert(w[i] == v[i - 1]);
                    assert(w[j] == v[j - 1]);
                }
            }
            law_row_inserted(v, w, nk);
        }
    }
}

/// The sections of ranks 0 (cantrips) to 9.
pub struct SpellSections {
    sections: Vec<SpellSection>,
}

/// Whether the spell of this rank, forced rank and casting is listed in section `k`, given
/// which sections have spell slots.
pub open spec fn lists_at(k: int, spell_rank: u8, forced_rank: Option<u8>, cast_via_slot: bool, has_slots: Seq<bool>) -> bool {
    0 <= k <= MAX_SPELL_RANK
        && castable_ranks(spell_rank, forced_rank, cast_via_slot).contains(k as u8)
        && section_accepts(k as u8, has_slots)
}

/// Whether a spell of this rank, forced rank and casting can be cast at rank `k`.
fn castable_at(k: u8, spell_rank: u8, forced_rank: Option<u8>, cast_via_slot: bool) -> (r: bool)
    requires
        k <= MAX_SPELL_RANK,
    ensures
        r == castable_ranks(spell_rank, forced_rank, cast_via_slot).contains(k),
{
    let ghost s = castable_ranks(spell_rank, forced_rank, cast_via_slot);
    match forced_rank {
        Some(f) => {
            proof { if k == f { assert(s[0] == k); } }
            k == f
        },
        None => if !cast_via_slot {
            proof { if k == spell_rank { assert(s[0] == k); } }
            k == spell_rank
        } else if spell_rank == 0 {
            proof { if k == 0 { assert(s[0] == k); } }
            k == 0
        } else {
            proof {
                if spell_rank <= k {
                    assert(s[(k - spell_rank) as int] == k);
                }
            }
            spell_rank <= k
        },
    }
}

/// What listing a spell (as `SpellSections::insert_spell` does) makes of the sections: the
/// row goes into each section that lists the spell, the others and all slot counts stay.
pub open spec fn spell_listed(
    before: SpellSections, after: SpellSections, row: RowView,
    spell_rank: u8, forced_rank: Option<u8>, cast_via_slot: bool,
) -> bool {
    &&& forall|k: int| 0 <= k <= MAX_SPELL_RANK ==> (#[trigger] after.sections()[k]).slot_count
        == before.sections()[k].slot_count
    &&& forall|k: int| 0 <= k <= MAX_SPELL_RANK && lists_at(k, spell_rank, forced_rank, cast_via_slot, before.has_slots())
        ==> row_inserted(before.sections()[k].rows_view(), #[trigger] after.sections()[k].rows_view(), row)
    &&& forall|k: int| 0 <= k <= MAX_SPELL_RANK && !lists_at(k, spell_rank, forced_rank, cast_via_slot, before.has_slots())
        ==> #[trigger] after.sections()[k].rows_view() == before.sections()[k].rows_view()
}

/// What listing a ritual (as `SpellSections::insert_as_ritual` does) makes of the sections:
/// the row goes into the section of the spell's rank when it can be cast as a ritual; the
/// others and all slot counts stay.
pub open spec fn ritual_listed(before: SpellSections, after: SpellSections, row: RowView, spell_rank: u8, cast_via_ritual: bool) -> bool {
    &&& forall|k: int| 0 <= k <= MAX_SPELL_RANK ==> (#[trigger] after.sections()[k]).slot_count
        == before.sections()[k].slot_count
    &&& forall|k: int| 0 <= k <= MAX_SPELL_RANK && cast_via_ritual && k == spell_rank
        ==> row_inserted(before.sections()[k].rows_view(), #[trigger] after.sections()[k].rows_view(), row)
    &&& forall|k: int| 0 <= k <= MAX_SPELL_RANK && !(cast_via_ritual && k == spell_rank)
        ==> #[trigger] after.sections()[k].rows_view() == before.sections()[k].rows_view()
}

impl SpellSections {
    /// The ten sections, by rank.
    pub closed spec fn sections(self) -> Seq<SpellSection> {
        self.sections@
    }

    /// Ten sections, each listing its spells in order.
    pub open spec fn wf(self) -> bool {
        &&& self.sections().len() == MAX_SPELL_RANK + 1
        &&& forall|k: int| 0 <= k < self.sections().len() ==> rows_sorted(#[trigger] self.sections()[k].rows_view())
    }

    /// Which sections have spell slots.
    pub open spec fn has_slots(self) -> Seq<bool> {
        Seq::new((MAX_SPELL_RANK + 1) as nat, |k: int| self.sections()[k].slot_count is Some)
    }

    /// The sections before anything is known: no slots, no spells.
    pub fn new() -> (r: SpellSections)
        ensures
            r.wf(),
            forall|k: int| 0 <= k <= MAX_SPELL_RANK ==> (#[trigger] r.sections()[k]).slot_count is None
                && r.sections()[k].rows_view().len() == 0,
    {
        let mut sections: Vec<SpellSection> = Vec::new();
        let mut k: u8 = 0;
        while k <= MAX_SPELL_RANK
            invariant
                k <= MAX_SPELL_RANK + 1,
                sections@.len() == k,
                forall|j: int| 0 <= j < k ==> (#[trigger] sections@[j]).slot_count is None
                    && sections@[j].rows@.len() == 0,
            decreases MAX_SPELL_RANK + 1 - k,
        {
            sections.push(SpellSection { slot_count: None, rows: Vec::new() });
            k = k + 1;
        }
        let r = SpellSections { sections };
        assert forall|j: int| 0 <= j < r.sections().len() implies rows_sorted(#[trigger] r.sections()[j].rows_view()) by {
            assert(r.sections()[j].rows_view().len() == 0);
        }
        r
    }

    /// The section of a rank.
    pub fn section(&self, rank: u8) -> (r: &SpellSection)
        requires
            self.wf(),
            rank <= MAX_SPELL_RANK,
        ensures
            *r == self.sections()[rank as int],
    {
        &self.sections[rank as usize]
    }

    /// Records the spell slots of a rank: `consumed` used of `max`.
    pub fn set_slots(&mut self, rank: u8, consumed: usize, max: usize)
        requires
            old(self).wf(),
            rank <= MAX_SPELL_RANK,
        ensures
            final(self).wf(),
            final(self).sections()[rank as int].slot_count == Some((consumed, max)),
            final(self).sections()[rank as int].rows_view() == old(self).sections()[rank as int].rows_view(),
            forall|k: int| 0 <= k <= MAX_SPELL_RANK && k != rank ==> #[trigger] final(self).sections()[k] == old(self).sections()[k],
    {
        let mut s = self.sections.remove(rank as usize);
        s.slot_count = Some((consumed, max));
        self.sections.insert(rank as usize, s);
        proof {
            let old_s = old(self).sections();
            assert(self.sections() =~= old_s.update(rank as int, s));
            assert forall|k: int| 0 <= k < self.sections().len() implies rows_sorted(#[trigger] self.sections()[k].rows_view()) by {
                if k != rank {
                    assert(rows_sorted(old_s[k].rows_view()));
                }
            }
        }
    }

    /// Lists a spell in every section of a rank it can be cast at: its forced rank, its own
    /// rank, or (cast with a slot) its rank and every higher one; a section lists it only if
    /// it is the cantrip section or has spell slots.
    pub fn insert_spell(
        &mut self,
        name: &str,
        spell_rank: u8,
        forced_rank: Option<u8>,
        cast_via_slot: bool,
        source: &Vec<String>,
        location: &SpellLocation,
    )
        requires
            old(self).wf(),
        ensures
            final(self).wf(),
            spell_listed(*old(self), *final(self), (name@, path_view(*source), location_view(*location)),
                spell_rank, forced_rank, cast_via_slot),
    {
        let ghost slots = old(self).has_slots();
        let ghost nv = (name@, path_view(*source), location_view(*location));
        let mut k: u8 = 0;
        while k <= MAX_SPELL_RANK
            invariant
                k <= MAX_SPELL_RANK + 1,
                self.wf(),
                slots == old(self).has_slots(),
                nv == (name@, path_view(*source), location_view(*location)),
                forall|j: int| 0 <= j <= MAX_SPELL_RANK ==> (#[trigger] self.sections()[j]).slot_count
                    == old(self).sections()[j].slot_count,
                forall|j: int| 0 <= j < k && lists_at(j, spell_rank, forced_rank, cast_via_slot, slots)
                    ==> row_inserted(old(self).sections()[j].rows_view(), #[trigger] self.sections()[j].rows_view(), nv),
                forall|j: int| 0 <= j < k && !lists_at(j, spell_rank, forced_rank, cast_via_slot, slots)
                    ==> #[trigger] self.sections()[j].rows_view() == old(self).sections()[j].rows_view(),
                forall|j: int| k <= j <= MAX_SPELL_RANK ==> #[trigger] self.sections()[j] == old(self).sections()[j],
            decreases MAX_SPELL_RANK + 1 - k,
        {
            let has = self.sections[k as usize].slot_count.is_some();
            assert(has == slots[k as int]);
            if castable_at(k, spell_rank, forced_rank, cast_via_slot) && (k == 0 || has) {
                let row = SpellRow { name: name.to_owned(), source: clone_path(source), location: copy_location(location) };
                assert(row_view(row) == nv);
                let ghost rv = row_view(row);
                let ghost before = self.sections();
                let mut s = self.sections.remove(k as usize);
                assert(s == before[k as int]);
                s.insert_spell(row);
                let ghost s_after = s;
                self.sections.insert(k as usize, s);
                proof {
                    assert(self.sections() =~= before.update(k as int, s_after));
                    assert forall|j: int| 0 <= j < self.sections().len() implies rows_sorted(#[trigger] self.sections()[j].rows_view()) by {
                        if j != k {
                            assert(rows_sorted(before[j].rows_view()));
                        }
                    }
                    assert(before[k as int] == old(self).sections()[k as int]);
                    let idx = choose|idx: int| 0 <= idx <= before[k as int].rows_view().len()
                        && s_after.rows_view() == before[k as int].rows_view().insert(idx, rv);
                    assert(0 <= idx <= before[k as int].rows_view().len());
                    assert(self.sections()[k as int].rows_view() == old(self).sections()[k as int].rows_view().insert(idx, nv));
                    assert forall|j: int| 0 <= j < k + 1 && lists_at(j, spell_rank, forced_rank, cast_via_slot, slots)
                        implies row_inserted(old(self).sections()[j].rows_view(), #[trigger] self.sections()[j].rows_view(), nv) by {
                        if j < k {
                            assert(self.sections()[j] == before[j]);
                        } else {
                            assert(self.sections()[j].rows_view() == old(self).sections()[j].rows_view().insert(idx, nv));
                        }
                    }
                    assert forall|j: int| 0 <= j < k + 1 && !lists_at(j, spell_rank, forced_rank, cast_via_slot, slots)
                        implies #[trigger] self.sections()[j].rows_view() == old(self).sections()[j].rows_view() by {
                        assert(j != k);
                        assert(self.sections()[j] == before[j]);
                    }
                    assert forall|j: int| k < j <= MAX_SPELL_RANK implies #[trigger] self.sections()[j] == old(self).sections()[j] by {
                        assert(self.sections()[j] == before[j]);
                    }
                    assert forall|j: int| 0 <= j <= MAX_SPELL_RANK implies (#[trigger] self.sections()[j]).slot_count
                        == old(self).sections()[j].slot_count by {
                        if j != k {
                            assert(self.sections()[j] == before[j]);
                        }
                    }
                }
            } else {
                assert(!lists_at(k as int, spell_rank, forced_rank, cast_via_slot, slots));
                assert(self.sections()[k as int] == old(self).sections()[k as int]);
            }
            k = k + 1;
        }
    }

    /// Lists a spell castable as a ritual in the section of its own rank (a ritual is cast
    /// only at the spell's rank), whether or not that section has slots; nothing happens when
    /// the spell cannot be cast as a ritual or its rank has no section.
    pub fn insert_as_ritual(
        &mut self,
        name: &str,
        spell_rank: u8,
        cast_via_ritual: bool,
        source: &Vec<String>,
        spell_id: &str,
        ritual_source: RitualSource,
    )
        requires
            old(self).wf(),
        ensures
            final(self).wf(),
            ritual_listed(*old(self), *final(self), (name@, path_view(*source), ritual_view(spell_id@, ritual_source)),
                spell_rank, cast_via_ritual),
    {
        if !cast_via_ritual || spell_rank > MAX_SPELL_RANK {
            return;
        }
        let location = SpellLocation::AvailableAsRitual { spell_id: spell_id.to_owned(), source: ritual_source };
        let row = SpellRow { name: name.to_owned(), source: clone_path(source), location };
        let ghost before = self.sections();
        let ghost rv = row_view(row);
        let mut s = self.sections.remove(spell_rank as usize);
        assert(s == before[spell_rank as int]);
        s.insert_spell(row);
        let ghost s_after = s;
        self.sections.insert(spell_rank as usize, s);
        proof {
            assert(self.sections() =~= before.update(spell_rank as int, s_after));
            assert forall|j: int| 0 <= j < self.sections().len() implies rows_sorted(#[trigger] self.sections()[j].rows_view()) by {
                if j != spell_rank {
                    assert(rows_sorted(before[j].rows_view()));
                }
            }
        }
    }

    /// Lists a spell a caster has selected, cast with the caster's spellcasting entry.
    pub fn insert_selected(
        &mut self,
        name: &str,
        spell_rank: u8,
        forced_rank: Option<u8>,
        cast_via_slot: bool,
        entry_source: &Vec<String>,
        spell_id: &str,
        caster_id: &str,
    )
        requires
            old(self).wf(),
        ensures
            final(self).wf(),
            spell_listed(*old(self), *final(self), (name@, path_view(*entry_source), (spell_id@, Some(caster_id@), None, false)),
                spell_rank, forced_rank, cast_via_slot),
    {
        let location = SpellLocation::Selected { spell_id: spell_id.to_owned(), caster_id: caster_id.to_owned() };
        self.insert_spell(name, spell_rank, forced_rank, cast_via_slot, entry_source, &location);
    }

    /// Lists a spell that a feature keeps always prepared: as a spell cast through its entry,
    /// then, when the entry allows it, as a ritual.
    pub fn insert_always_prepared(
        &mut self,
        name: &str,
        spell_rank: u8,
        forced_rank: Option<u8>,
        cast_via_slot: bool,
        cast_via_ritual: bool,
        entry_source: &Vec<String>,
        spell_id: &str,
        granted_by: &Vec<String>,
    )
        requires
            old(self).wf(),
        ensures
            final(self).wf(),
            exists|mid: SpellSections| spell_listed(*old(self), mid,
                    (name@, path_view(*entry_source), (spell_id@, None, Some(path_view(*granted_by)), false)),
                    spell_rank, forced_rank, cast_via_slot)
                && ritual_listed(mid, *final(self),
                    (name@, path_view(*entry_source), (spell_id@, None, Some(path_view(*granted_by)), true)),
                    spell_rank, cast_via_ritual),
    {
        let location = SpellLocation::AlwaysPrepared { spell_id: spell_id.to_owned(), source: clone_path(granted_by) };
        self.insert_spell(name, spell_rank, forced_rank, cast_via_slot, entry_source, &location);
        let ghost mid = *self;
        let source = clone_path(granted_by);
        self.insert_as_ritual(name, spell_rank, cast_via_ritual, entry_source, spell_id, RitualSource::AlwaysPrepared(source));
        assert(spell_listed(*old(self), mid,
            (name@, path_view(*entry_source), (spell_id@, None, Some(path_view(*granted_by)), false)),
            spell_rank, forced_rank, cast_via_slot));
    }
}

/// A forced rank decides the section a spell goes into, whatever its casting: it is listed in
/// the section of the forced rank when that section takes spells, and in no other.
pub proof fn law_forced_rank_section(k: int, spell_rank: u8, f: u8, cast_via_slot: bool, has_slots: Seq<bool>)
    ensures
        lists_at(k, spell_rank, Some(f), cast_via_slot, has_slots) == (k == f && section_accepts(f, has_slots)),
{
    let s = castable_ranks(spell_rank, Some(f), cast_via_slot);
    assert(s[0] == f);
}

} // verus!
