//! Starting equipment: choosing among the options of a group, and adding up what was chosen.

use vstd::prelude::*;
use crate::currency::{can_add, spec_add, Wallet};
use crate::copies::copy_texts;
use crate::item::{same_item, Item};
use crate::order::{path_eq, path_view};
use crate::text::{decimal, parse_usize, spec_parse_usize, to_decimal};

verus! {

/// The indices chosen in a group, read from the stored values; values that are not indices
/// are skipped.
pub open spec fn spec_selected_indices(values: Seq<Seq<char>>) -> Seq<usize>
    decreases values.len(),
{
    if values.len() == 0 {
        Seq::empty()
    } else {
        spec_selected_indices(values.drop_last()) + match spec_parse_usize(values.last()) {
            Some(i) => seq![i],
            None => Seq::empty(),
        }
    }
}

/// The chosen option indices of a group; none stored gives none chosen.
pub fn selected_indices(values: Option<&Vec<String>>) -> (r: Vec<usize>)
    ensures
        match values {
            None => r@.len() == 0,
            Some(v) => r@ == spec_selected_indices(v@.map_values(|s: String| s@)),
        },
{
    match values {
        None => Vec::new(),
        Some(v) => {
            let ghost views = v@.map_values(|s: String| s@);
            let mut r: Vec<usize> = Vec::new();
            let mut i: usize = 0;
            while i < v.len()
                invariant
                    i <= v@.len(),
                    views == v@.map_values(|s: String| s@),
                    r@ == spec_selected_indices(views.take(i as int)),
                decreases v@.len() - i,
            {
                assert(views.take(i as int + 1).drop_last() =~= views.take(i as int));
                match parse_usize(v[i].as_str()) {
                    Some(idx) => r.push(idx),
                    None => {},
                }
                assert(r@ =~= spec_selected_indices(views.take(i as int + 1)));
                i = i + 1;
            }
            assert(views.take(v@.len() as int) =~= views);
            r
        },
    }
}

/// What happens to the stored choices of a group when an option is ticked or cleared.
#[derive(Clone, Copy, Debug, PartialEq, Eq, Structural)]
pub enum SelectionChange {
    /// The option's index is removed from the choices.
    Remove,
    /// The option's index becomes the only choice (groups where one option is picked).
    Replace,
    /// The option's index is added to the choices.
    Insert,
}

/// The change for ticking (`should_be_selected`) or clearing an option of a group from which
/// `pick_max` options are picked.
pub fn selection_change(should_be_selected: bool, pick_max: usize) -> (r: SelectionChange)
    ensures
        r == if !should_be_selected {
            SelectionChange::Remove
        } else if pick_max == 1 {
            SelectionChange::Replace
        } else {
            SelectionChange::Insert
        },
{
    if !should_be_selected {
        SelectionChange::Remove
    } else if pick_max == 1 {
        SelectionChange::Replace
    } else {
        SelectionChange::Insert
    }
}

/// Whether another option can be ticked: a single pick can always be moved; otherwise fewer
/// than `pick_max` are ticked.
pub fn can_select_new(pick_max: usize, selected: usize) -> (r: bool)
    ensures
        r == (pick_max == 1 || selected < pick_max),
{
    pick_max == 1 || selected < pick_max
}

/// Whether the checkbox of an option is disabled: the group is disabled, or the option is not
/// ticked and no other can be ticked.
pub fn option_disabled(disabled: bool, can_select_new: bool, is_selected: bool) -> (r: bool)
    ensures
        r == (disabled || (!can_select_new && !is_selected)),
{
    disabled || (!can_select_new && !is_selected)
}

/// Whether an option is marked as a choice still to make: the group is enabled and nothing
/// in it is ticked.
pub fn option_missing_value(disabled: bool, has_any_selected: bool) -> (r: bool)
    ensures
        r == (!disabled && !has_any_selected),
{
    !disabled && !has_any_selected
}

/// What the chosen starting equipment adds up to: coins, items to fetch by id, items given
/// outright, and the groups (by selection path) where a choice is still missing.
pub struct SelectedEquipment {
    pub wallet: Wallet,
    pub item_ids: Vec<String>,
    pub items: Vec<Item>,
    pub missing_selections: Vec<Vec<String>>,
}

/// `after` is `before` extended by `other`: coins added, and the lists of `other` after those
/// of `before`.
pub open spec fn extended(before: SelectedEquipment, other: SelectedEquipment, after: SelectedEquipment) -> bool {
    &&& after.wallet == spec_add(before.wallet, other.wallet)
    &&& after.item_ids@ == before.item_ids@ + other.item_ids@
    &&& after.items@ == before.items@ + other.items@
    &&& after.missing_selections@ == before.missing_selections@ + other.missing_selections@
}

impl SelectedEquipment {
    /// Nothing selected.
    pub fn empty() -> (r: SelectedEquipment)
        ensures
            r.wallet == (Wallet { copper: 0, silver: 0, electrum: 0, gold: 0, platinum: 0 }),
            r.item_ids@.len() == 0,
            r.items@.len() == 0,
            r.missing_selections@.len() == 0,
    {
        SelectedEquipment { wallet: Wallet::empty(), item_ids: Vec::new(), items: Vec::new(), missing_selections: Vec::new() }
    }

    /// Adds what `other` selects: its coins to the purse, and its items and missing choices
    /// after the ones already here.
    pub fn extend(&mut self, other: SelectedEquipment)
        requires
            can_add(old(self).wallet, other.wallet),
        ensures
            extended(*old(self), other, *final(self)),
    {
        let SelectedEquipment { wallet, mut item_ids, mut items, mut missing_selections } = other;
        self.wallet.add(wallet);
        self.item_ids.append(&mut item_ids);
        self.items.append(&mut items);
        self.missing_selections.append(&mut missing_selections);
    }

    /// Whether a choice is still missing somewhere.
    pub fn is_missing_selections(&self) -> (r: bool)
        ensures
            r == (self.missing_selections@.len() > 0),
    {
        self.missing_selections.len() > 0
    }
}


/// A starting-equipment entry: coins, items, an item of the player's choosing, or a group of
/// entries to pick from.
pub enum StartingEquipment {
    /// Coins for the purse.
    Currency(Wallet),
    /// A number of copies of the item with the given id.
    Specific(String, usize),
    /// An item given as it stands.
    Custom(Item),
    /// An item the player picks; its id is stored at the entry's selection path.
    SelectItem,
    /// Entries of which `pick` are chosen; the chosen indices are stored at the group's
    /// selection path.
    Group { entries: Vec<StartingEquipment>, pick: usize },
}

/// Coin counts: copper, silver, electrum, gold, platinum.
pub type Coins = (nat, nat, nat, nat, nat);

/// What the contracts see of a selection: coins, item ids, items and missing paths.
pub type SelectionView = (Coins, Seq<Seq<char>>, Seq<Item>, Seq<Seq<Seq<char>>>);

/// A stored value: its text, and that text read as a source id (`None` where it is not one).
pub type StoredValue = (Seq<char>, Option<Seq<char>>);

/// Stored choices: each a selection path with its values, in the order they are looked up.
pub type StoredChoices = Seq<(Seq<Seq<char>>, Seq<StoredValue>)>;

/// The coin counts of a purse.
pub open spec fn coins_of(w: Wallet) -> Coins {
    (w.copper as nat, w.silver as nat, w.electrum as nat, w.gold as nat, w.platinum as nat)
}

/// No coins at all.
pub open spec fn no_coins() -> Coins {
    (0nat, 0nat, 0nat, 0nat, 0nat)
}

/// Whether each count fits a purse.
pub open spec fn coins_fit(c: Coins) -> bool {
    c.0 <= u64::MAX && c.1 <= u64::MAX && c.2 <= u64::MAX && c.3 <= u64::MAX && c.4 <= u64::MAX
}

/// Whether each count of `a` is at most that of `b`.
pub open spec fn coins_le(a: Coins, b: Coins) -> bool {
    a.0 <= b.0 && a.1 <= b.1 && a.2 <= b.2 && a.3 <= b.3 && a.4 <= b.4
}

/// What the contracts see of a selection.
pub open spec fn selection_view(s: SelectedEquipment) -> SelectionView {
    (
        coins_of(s.wallet),
        s.item_ids.deep_view(),
        s.items@,
        s.missing_selections.deep_view(),
    )
}

/// Whether a selection matches a view: equal coins, ids and missing paths, and items alike
/// one by one.
pub open spec fn agrees(s: SelectedEquipment, v: SelectionView) -> bool {
    &&& coins_of(s.wallet) == v.0
    &&& s.item_ids.deep_view() == v.1
    &&& s.items@.len() == v.2.len()
    &&& forall|i: int| 0 <= i < v.2.len() ==> same_item(#[trigger] s.items@[i], v.2[i])
    &&& s.missing_selections.deep_view() == v.3
}

/// A selection of nothing.
pub open spec fn nothing_selected() -> SelectionView {
    (no_coins(), Seq::empty(), Seq::empty(), Seq::empty())
}

/// A selection that only records the choice at `path` as missing.
pub open spec fn missing_at(path: Seq<Seq<char>>) -> SelectionView {
    (no_coins(), Seq::empty(), Seq::empty(), seq![path])
}

/// Two selections one after the other: coins added, lists concatenated.
pub open spec fn joined(a: SelectionView, b: SelectionView) -> SelectionView {
    (
        (a.0.0 + b.0.0, a.0.1 + b.0.1, a.0.2 + b.0.2, a.0.3 + b.0.3, a.0.4 + b.0.4),
        a.1 + b.1,
        a.2 + b.2,
        a.3 + b.3,
    )
}

/// The values stored for `path`: those of the first entry with that path.
pub open spec fn stored_at(store: StoredChoices, path: Seq<Seq<char>>) -> Option<Seq<StoredValue>>
    decreases store.len(),
{
    if store.len() == 0 {
        None
    } else if store[0].0 == path {
        Some(store[0].1)
    } else {
        stored_at(store.drop_first(), path)
    }
}

/// The values stored for `path`, none when nothing is stored.
pub open spec fn values_at(store: StoredChoices, path: Seq<Seq<char>>) -> Seq<StoredValue> {
    match stored_at(store, path) {
        Some(v) => v,
        None => Seq::empty(),
    }
}

/// What `e` at `path` selects; for a group with stored indices, what the first `k` of them
/// select, each index that names an entry adding that entry's selection at the path extended
/// by the index.
pub open spec fn selection_upto(
    e: StartingEquipment,
    path: Seq<Seq<char>>,
    store: StoredChoices,
    k: nat,
) -> SelectionView
    decreases e, k,
{
    match e {
        StartingEquipment::Currency(w) => (coins_of(w), Seq::empty(), Seq::empty(), Seq::empty()),
        StartingEquipment::Specific(id, quantity) => (
            no_coins(),
            Seq::new(quantity as nat, |i: int| id@),
            Seq::empty(),
            Seq::empty(),
        ),
        StartingEquipment::Custom(item) => (no_coins(), Seq::empty(), seq![item], Seq::empty()),
        StartingEquipment::SelectItem => {
            let vals = values_at(store, path);
            if vals.len() == 0 {
                missing_at(path)
            } else {
                match vals[0].1 {
                    Some(id) => (no_coins(), seq![id], Seq::empty(), Seq::empty()),
                    None => nothing_selected(),
                }
            }
        },
        StartingEquipment::Group { entries, pick } => {
            let vals = values_at(store, path);
            if vals.len() == 0 {
                missing_at(path)
            } else if k == 0 {
                nothing_selected()
            } else {
                let before = selection_upto(e, path, store, (k - 1) as nat);
                match spec_parse_usize(vals[k - 1].0) {
                    Some(idx) => if idx < entries@.len() {
                        let child = path.push(decimal(idx as nat));
                        joined(
                            before,
                            selection_upto(entries@[idx as int], child, store, values_at(store, child).len()),
                        )
                    } else {
                        before
                    },
                    None => before,
                }
            }
        },
    }
}

/// What `e` at `path` selects, given the stored choices.
pub open spec fn selection(e: StartingEquipment, path: Seq<Seq<char>>, store: StoredChoices) -> SelectionView {
    selection_upto(e, path, store, values_at(store, path).len())
}

/// Taking more of a group's stored indices never lowers a coin count.
proof fn lemma_selection_grows(e: StartingEquipment, path: Seq<Seq<char>>, store: StoredChoices, k: nat, k2: nat)
    requires
        k <= k2,
    ensures
        coins_le(selection_upto(e, path, store, k).0, selection_upto(e, path, store, k2).0),
    decreases k2,
{
    if k < k2 {
        lemma_selection_grows(e, path, store, k, (k2 - 1) as nat);
    }
}

/// After an extension a choice is missing exactly when one was missing on either side.
pub proof fn law_extend_missing(before: SelectedEquipment, other: SelectedEquipment, after: SelectedEquipment)
    requires
        extended(before, other, after),
    ensures
        (after.missing_selections@.len() > 0) == (before.missing_selections@.len() > 0
            || other.missing_selections@.len() > 0),
{
}

/// Extending by an empty selection changes nothing.
pub proof fn law_extend_by_nothing(before: SelectedEquipment, other: SelectedEquipment, after: SelectedEquipment)
    requires
        extended(before, other, after),
        other.wallet == (Wallet { copper: 0, silver: 0, electrum: 0, gold: 0, platinum: 0 }),
        other.item_ids@.len() == 0,
        other.items@.len() == 0,
        other.missing_selections@.len() == 0,
    ensures
        after.wallet == before.wallet,
        after.item_ids@ == before.item_ids@,
        after.items@ == before.items@,
        after.missing_selections@ == before.missing_selections@,
{
    assert(after.item_ids@ =~= before.item_ids@);
    assert(after.items@ =~= before.items@);
    assert(after.missing_selections@ =~= before.missing_selections@);
}

/// An extension, seen through the contracts, joins the two selections: coins added where
/// they fit, lists one after the other.
pub proof fn law_extend_joins(before: SelectedEquipment, other: SelectedEquipment, after: SelectedEquipment)
    requires
        extended(before, other, after),
        can_add(before.wallet, other.wallet),
    ensures
        selection_view(after) == joined(selection_view(before), selection_view(other)),
{
    assert(after.item_ids.deep_view() =~= before.item_ids.deep_view() + other.item_ids.deep_view());
    assert(after.missing_selections.deep_view() =~= before.missing_selections.deep_view()
        + other.missing_selections.deep_view());
}

/// Joining selections that match two views gives one that matches the joined view.
proof fn lemma_joined_agrees(
    x: SelectedEquipment,
    y: SelectedEquipment,
    z: SelectedEquipment,
    vx: SelectionView,
    vy: SelectionView,
)
    requires
        selection_view(z) == joined(selection_view(x), selection_view(y)),
        agrees(x, vx),
        agrees(y, vy),
    ensures
        agrees(z, joined(vx, vy)),
{
    let v = joined(vx, vy);
    assert(z.items@ == x.items@ + y.items@);
    assert forall|i: int| 0 <= i < v.2.len() implies same_item(#[trigger] z.items@[i], v.2[i]) by {
        if i < x.items@.len() {
            assert(z.items@[i] == x.items@[i]);
        } else {
            assert(z.items@[i] == y.items@[i - x.items@.len()]);
        }
    }
}

/// The values stored for `path`, found as `stored_at` finds them.
fn stored_values<'a>(
    store: &'a Vec<(Vec<String>, Vec<(String, Option<String>)>)>,
    path: &Vec<String>,
) -> (r: Option<&'a Vec<(String, Option<String>)>>)
    ensures
        match r {
            Some(v) => stored_at(store.deep_view(), path.deep_view()) == Some(v.deep_view()),
            None => stored_at(store.deep_view(), path.deep_view()) is None,
        },
{
    let mut i: usize = 0;
    assert(store.deep_view().skip(0) =~= store.deep_view());
    while i < store.len()
        invariant
            i <= store@.len(),
            stored_at(store.deep_view(), path.deep_view()) == stored_at(store.deep_view().skip(i as int), path.deep_view()),
        decreases store@.len() - i,
    {
        let ghost rest = store.deep_view().skip(i as int);
        assert(rest[0] == store.deep_view()[i as int]);
        assert(path_view(store@[i as int].0) =~= store@[i as int].0.deep_view());
        assert(path_view(*path) =~= path.deep_view());
        if path_eq(&store[i].0, path) {
            return Some(&store[i].1);
        }
        assert(rest.drop_first() =~= store.deep_view().skip(i as int + 1));
        i = i + 1;
    }
    None
}

/// `path` extended by the decimal notation of `idx`.
fn child_path(path: &Vec<String>, idx: usize) -> (r: Vec<String>)
    ensures
        r.deep_view() == path.deep_view().push(decimal(idx as nat)),
{
    let mut r = copy_texts(path);
    r.push(to_decimal(idx as u64));
    assert(r.deep_view() =~= path.deep_view().push(decimal(idx as nat)));
    r
}

/// The selection that records the choice at `path` as missing.
fn missing_selection(path: &Vec<String>) -> (r: SelectedEquipment)
    ensures
        selection_view(r) == missing_at(path.deep_view()),
        agrees(r, missing_at(path.deep_view())),
{
    let mut r = SelectedEquipment::empty();
    let p = copy_texts(path);
    assert(p.deep_view() =~= path.deep_view());
    r.missing_selections.push(p);
    assert(selection_view(r).1 =~= Seq::<Seq<char>>::empty());
    assert(selection_view(r).2 =~= Seq::<Item>::empty());
    assert(selection_view(r).3 =~= seq![path.deep_view()]);
    r
}

impl SelectedEquipment {
    /// What a starting-equipment entry at `path` selects, given the stored choices: coins,
    /// items by id or as they stand, the stored item of a free choice, and for a group what
    /// each stored index that names an entry selects; where nothing is stored for a choice, its
    /// path is a missing selection.
    pub fn find_selections(
        element: &StartingEquipment,
        path: &Vec<String>,
        store: &Vec<(Vec<String>, Vec<(String, Option<String>)>)>,
    ) -> (r: SelectedEquipment)
        requires
            coins_fit(selection(*element, path.deep_view(), store.deep_view()).0),
        ensures
            agrees(r, selection(*element, path.deep_view(), store.deep_view())),
        decreases element,
    {
        let ghost pv = path.deep_view();
        let ghost sv = store.deep_view();
        match element {
            StartingEquipment::Currency(w) => {
                let mut r = SelectedEquipment::empty();
                r.wallet = *w;
                assert(selection_view(r).1 =~= Seq::<Seq<char>>::empty());
                assert(selection_view(r).2 =~= Seq::<Item>::empty());
                assert(selection_view(r).3 =~= Seq::<Seq<Seq<char>>>::empty());
                r
            },
            StartingEquipment::Specific(id, quantity) => {
                let mut r = SelectedEquipment::empty();
                let mut i: usize = 0;
                while i < *quantity
                    invariant
                        i <= *quantity,
                        r.wallet == (Wallet { copper: 0, silver: 0, electrum: 0, gold: 0, platinum: 0 }),
                        r.items@.len() == 0,
                        r.missing_selections@.len() == 0,
                        r.item_ids@.len() == i,
                        forall|j: int| 0 <= j < i ==> r.item_ids@[j]@ == id@,
                    decreases *quantity - i,
                {
                    r.item_ids.push(id.clone());
                    i = i + 1;
                }
                assert(r.item_ids.deep_view() =~= Seq::new(*quantity as nat, |j: int| id@));
                assert(selection_view(r).2 =~= Seq::<Item>::empty());
                assert(selection_view(r).3 =~= Seq::<Seq<Seq<char>>>::empty());
                r
            },
            StartingEquipment::Custom(item) => {
                let mut r = SelectedEquipment::empty();
                r.items.push(item.duplicate());
                assert(selection_view(r).1 =~= Seq::<Seq<char>>::empty());
                assert(selection_view(r).3 =~= Seq::<Seq<Seq<char>>>::empty());
                r
            },
            StartingEquipment::SelectItem => {
                match stored_values(store, path) {
                    Some(vals) if vals.len() > 0 => {
                        let mut r = SelectedEquipment::empty();
                        assert(vals.deep_view()[0] == vals@[0].deep_view());
                        match &vals[0].1 {
                            Some(id) => {
                                r.item_ids.push(id.clone());
                                assert(selection_view(r).1 =~= seq![id@]);
                            },
                            None => {
                                assert(selection_view(r).1 =~= Seq::<Seq<char>>::empty());
                            },
                        }
                        assert(selection_view(r).2 =~= Seq::<Item>::empty());
                        assert(selection_view(r).3 =~= Seq::<Seq<Seq<char>>>::empty());
                        r
                    },
                    _ => missing_selection(path),
                }
            },
            StartingEquipment::Group { entries, pick } => {
                let vals = match stored_values(store, path) {
                    Some(vals) if vals.len() > 0 => vals,
                    _ => {
                        return missing_selection(path);
                    },
                };
                let mut selected = SelectedEquipment::empty();
                assert(selection_view(selected) =~= nothing_selected());
                let mut k: usize = 0;
                while k < vals.len()
                    invariant
                        k <= vals@.len(),
                        vals@.len() > 0,
                        *element == (StartingEquipment::Group { entries: *entries, pick: *pick }),
                        vals.deep_view() == values_at(sv, pv),
                        pv == path.deep_view(),
                        sv == store.deep_view(),
                        agrees(selected, selection_upto(*element, pv, sv, k as nat)),
                        coins_fit(selection(*element, pv, sv).0),
                    decreases vals@.len() - k,
                {
                    proof {
                        lemma_selection_grows(*element, pv, sv, (k + 1) as nat, vals@.len() as nat);
                    }
                    assert(vals.deep_view()[k as int].0 == vals@[k as int].0@);
                    match parse_usize(vals[k].0.as_str()) {
                        Some(idx) => {
                            if idx < entries.len() {
                                let child = child_path(path, idx);
                                let part = SelectedEquipment::find_selections(&entries[idx], &child, store);
                                let ghost before = selected;
                                selected.extend(part);
                                proof {
                                    law_extend_joins(before, part, selected);
                                    lemma_joined_agrees(
                                        before,
                                        part,
                                        selected,
                                        selection_upto(*element, pv, sv, k as nat),
                                        selection(entries@[idx as int], child.deep_view(), sv),
                                    );
                                }
                            }
                        },
                        None => {},
                    }
                    k = k + 1;
                }
                selected
            },
        }
    }
}

} // verus!
