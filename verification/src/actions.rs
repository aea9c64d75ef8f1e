//! The actions panel: which features it lists under the selected tags, how it groups them
//! (alphabetically, children under their display parent), and the texts of its attack table.

use vstd::prelude::*;
use crate::ability::{spec_long_name, Ability};
use crate::character::ActivationKind;
use crate::display::ActionTag;
use crate::order::{
    compare_key, compare_text, key_order, lemma_key_order, lemma_text_order_basics,
    lemma_text_order_transitive, path_eq, path_view, text_order, Order,
};
use crate::roll::{roll_text, Roll};
use crate::text::{decimal, int_decimal, push_decimal, push_int, push_signed, signed_decimal};

verus! {

/// The tags whose features the panel lists: every tag, or a single one.
#[derive(Clone, Copy, Debug, PartialEq, Eq, Structural)]
pub struct TagSelection {
    pub attack: bool,
    pub action: bool,
    pub bonus_action: bool,
    pub reaction: bool,
    pub other: bool,
    pub limited_use: bool,
    pub passive: bool,
}

/// The selection of one tag alone.
pub open spec fn only_tag(tag: ActionTag) -> TagSelection {
    TagSelection {
        attack: tag == ActionTag::Attack,
        action: tag == ActionTag::Action,
        bonus_action: tag == ActionTag::BonusAction,
        reaction: tag == ActionTag::Reaction,
        other: tag == ActionTag::Other,
        limited_use: tag == ActionTag::LimitedUse,
        passive: tag == ActionTag::Passive,
    }
}

/// Whether a selection holds a tag.
pub open spec fn selects(s: TagSelection, tag: ActionTag) -> bool {
    match tag {
        ActionTag::Attack => s.attack,
        ActionTag::Action => s.action,
        ActionTag::BonusAction => s.bonus_action,
        ActionTag::Reaction => s.reaction,
        ActionTag::Other => s.other,
        ActionTag::LimitedUse => s.limited_use,
        ActionTag::Passive => s.passive,
    }
}

impl TagSelection {
    /// Every tag (what the panel shows at first, and under `All`).
    pub fn all() -> (r: TagSelection)
        ensures
            forall|t: ActionTag| selects(r, t),
    {
        TagSelection {
            attack: true,
            action: true,
            bonus_action: true,
            reaction: true,
            other: true,
            limited_use: true,
            passive: true,
        }
    }

    /// The single tag `tag`.
    pub fn only(tag: ActionTag) -> (r: TagSelection)
        ensures
            forall|t: ActionTag| selects(r, t) == (t == tag),
            r == only_tag(tag),
    {
        TagSelection {
            attack: tag == ActionTag::Attack,
            action: tag == ActionTag::Action,
            bonus_action: tag == ActionTag::BonusAction,
            reaction: tag == ActionTag::Reaction,
            other: tag == ActionTag::Other,
            limited_use: tag == ActionTag::LimitedUse,
            passive: tag == ActionTag::Passive,
        }
    }

    /// Whether the selection holds `tag`.
    pub fn contains(&self, tag: ActionTag) -> (r: bool)
        ensures
            r == selects(*self, tag),
    {
        match tag {
            ActionTag::Attack => self.attack,
            ActionTag::Action => self.action,
            ActionTag::BonusAction => self.bonus_action,
            ActionTag::Reaction => self.reaction,
            ActionTag::Other => self.other,
            ActionTag::LimitedUse => self.limited_use,
            ActionTag::Passive => self.passive,
        }
    }
}

/// What the panel reads of a feature's action.
#[derive(Clone, Copy, Debug, PartialEq, Eq, Structural)]
pub struct ActionSummary {
    pub activation: ActivationKind,
    /// The action has a limited number of uses.
    pub limited_use: bool,
    /// The action makes an attack (listed in the attack table).
    pub has_attack: bool,
    /// The attack is made with a weapon.
    pub weapon_attack: bool,
}

/// Whether an activation is one of the three regular kinds: action, bonus action, reaction.
pub open spec fn is_regular(kind: ActivationKind) -> bool {
    kind == ActivationKind::Action || kind == ActivationKind::Bonus || kind == ActivationKind::Reaction
}

/// Whether a feature is listed under the selected tags. A feature without an action is
/// listed under `Passive`. A feature whose action attacks with a weapon is never listed (it
/// appears in the attack table only). Otherwise it is listed when a selected tag matches its
/// activation (`Other` for anything but the three regular kinds), or `Limited Use` is
/// selected and its uses are limited.
pub open spec fn spec_is_relevant(tags: TagSelection, action: Option<ActionSummary>) -> bool {
    match action {
        None => tags.passive,
        Some(a) => !a.weapon_attack && (
            (tags.action && a.activation == ActivationKind::Action)
            || (tags.bonus_action && a.activation == ActivationKind::Bonus)
            || (tags.reaction && a.activation == ActivationKind::Reaction)
            || (tags.other && !is_regular(a.activation))
            || (tags.limited_use && a.limited_use)),
    }
}

/// Whether a feature with this action is listed under the selected tags.
pub fn is_relevant(tags: TagSelection, action: Option<ActionSummary>) -> (r: bool)
    ensures
        r == spec_is_relevant(tags, action),
{
    match action {
        None => tags.passive,
        Some(a) => {
            let mut passes_any = false;
            if tags.action {
                passes_any = passes_any || a.activation == ActivationKind::Action;
            }
            if tags.bonus_action {
                passes_any = passes_any || a.activation == ActivationKind::Bonus;
            }
            if tags.reaction {
                passes_any = passes_any || a.activation == ActivationKind::Reaction;
            }
            if tags.other {
                let regular = match a.activation {
                    ActivationKind::Action | ActivationKind::Bonus | ActivationKind::Reaction => true,
                    _ => false,
                };
                passes_any = passes_any || !regular;
            }
            if tags.limited_use {
                passes_any = passes_any || a.limited_use;
            }
            if a.weapon_attack {
                passes_any = false;
            }
            passes_any
        },
    }
}

/// The tag under which a collapsed feature is grouped: that of its activation, `Passive`
/// without an action.
pub fn collapsed_tag(action: Option<ActionSummary>) -> (r: ActionTag)
    ensures
        r == match action {
            None => ActionTag::Passive,
            Some(a) => match a.activation {
                ActivationKind::Action => ActionTag::Action,
                ActivationKind::Bonus => ActionTag::BonusAction,
                ActivationKind::Reaction => ActionTag::Reaction,
                _ => ActionTag::Other,
            },
        },
{
    match action {
        None => ActionTag::Passive,
        Some(a) => ActionTag::from_activation(a.activation),
    }
}

/// The hit column of an attack made with a roll: the bonus with its sign, such as `+5`.
pub fn attack_roll_text(bonus: i32) -> (s: String)
    ensures
        s@ == signed_decimal(bonus as int),
{
    let mut s = String::new();
    push_signed(&mut s, bonus as i64);
    assert(s@ =~= signed_decimal(bonus as int));
    s
}

/// The damage column of the attack table: the bonus alone (never below zero) without a roll;
/// the roll alone with no bonus; otherwise the roll, ` + ` or ` - `, and the size of the bonus.
pub open spec fn attack_damage_text(roll: Option<Roll>, bonus: int) -> Seq<char> {
    match roll {
        None => decimal(if bonus < 0 { 0 } else { bonus as nat }),
        Some(r) => if bonus == 0 {
            roll_text(r)
        } else if bonus > 0 {
            roll_text(r) + " + "@ + decimal(bonus as nat)
        } else {
            roll_text(r) + " - "@ + decimal((-bonus) as nat)
        },
    }
}

/// The damage column of an attack: its roll and its total bonus.
pub fn damage_column_text(roll: Option<Roll>, bonus: i32) -> (s: String)
    ensures
        s@ == attack_damage_text(roll, bonus as int),
{
    let mut s = String::new();
    match roll {
        None => {
            let shown: u64 = if bonus < 0 { 0 } else { bonus as u64 };
            push_decimal(&mut s, shown);
        },
        Some(r) => {
            s = r.to_string();
            if bonus > 0 {
                s.append(" + ");
                push_decimal(&mut s, bonus as u64);
            } else if bonus < 0 {
                s.append(" - ");
                let magnitude: u64 = if bonus == i32::MIN { 0x8000_0000u64 } else { (-bonus) as u64 };
                push_decimal(&mut s, magnitude);
            }
        },
    }
    assert(s@ =~= attack_damage_text(roll, bonus as int));
    s
}

/// The range column of an attack: `<reach>ft.` in melee, `<short> / <long>` at range.
pub open spec fn range_column(melee_reach: Option<u32>, ranged: Option<(u32, u32)>) -> Seq<char> {
    match melee_reach {
        Some(reach) => decimal(reach as nat) + "ft."@,
        None => match ranged {
            Some((short, long)) => decimal(short as nat) + " / "@ + decimal(long as nat),
            None => Seq::empty(),
        },
    }
}

/// The range column of an attack, melee or ranged (empty when the attack has no kind).
pub fn range_column_text(melee_reach: Option<u32>, ranged: Option<(u32, u32)>) -> (s: String)
    ensures
        s@ == range_column(melee_reach, ranged),
{
    let mut s = String::new();
    match melee_reach {
        Some(reach) => {
            push_decimal(&mut s, reach as u64);
            s.append("ft.");
        },
        None => match ranged {
            Some((short, long)) => {
                push_decimal(&mut s, short as u64);
                s.append(" / ");
                push_decimal(&mut s, long as u64);
            },
            None => {},
        },
    }
    assert(s@ =~= range_column(melee_reach, ranged));
    s
}

/// The area an attack affects, with its sizes in feet.
#[derive(Clone, Copy, Debug, PartialEq, Eq, Structural)]
pub enum AreaOfEffect {
    Cone { length: u32 },
    Cube { size: u32 },
    Cylinder { radius: u32, height: u32 },
    Line { width: u32, length: u32 },
    Sphere { radius: u32 },
}

/// How the feature details show an area of effect, such as `Cone (15 ft)` or
/// `Cylinder (10 ft. radius, 40 ft. height)`.
pub open spec fn area_text(a: AreaOfEffect) -> Seq<char> {
    match a {
        AreaOfEffect::Cone { length } => "Cone ("@ + decimal(length as nat) + " ft)"@,
        AreaOfEffect::Cube { size } => "Cube ("@ + decimal(size as nat) + " ft)"@,
        AreaOfEffect::Cylinder { radius, height } => "Cylinder ("@ + decimal(radius as nat) + " ft. radius, "@
            + decimal(height as nat) + " ft. height)"@,
        AreaOfEffect::Line { width, length } => "Line ("@ + decimal(width as nat) + " ft. width, "@
            + decimal(length as nat) + " ft. length)"@,
        AreaOfEffect::Sphere { radius } => "Sphere ("@ + decimal(radius as nat) + " ft)"@,
    }
}

/// The text of an area of effect.
pub fn area_of_effect_text(a: AreaOfEffect) -> (s: String)
    ensures
        s@ == area_text(a),
{
    let mut s = String::new();
    match a {
        AreaOfEffect::Cone { length } => {
            s.append("Cone (");
            push_decimal(&mut s, length as u64);
            s.append(" ft)");
        },
        AreaOfEffect::Cube { size } => {
            s.append("Cube (");
            push_decimal(&mut s, size as u64);
            s.append(" ft)");
        },
        AreaOfEffect::Cylinder { radius, height } => {
            s.append("Cylinder (");
            push_decimal(&mut s, radius as u64);
            s.append(" ft. radius, ");
            push_decimal(&mut s, height as u64);
            s.append(" ft. height)");
        },
        AreaOfEffect::Line { width, length } => {
            s.append("Line (");
            push_decimal(&mut s, width as u64);
            s.append(" ft. width, ");
            push_decimal(&mut s, length as u64);
            s.append(" ft. length)");
        },
        AreaOfEffect::Sphere { radius } => {
            s.append("Sphere (");
            push_decimal(&mut s, radius as u64);
            s.append(" ft)");
        },
    }
    assert(s@ =~= area_text(a));
    s
}

/// The kind and range lines of an attack in the feature details: `Melee` and `<reach> ft.`,
/// or `Ranged` and `<short> ft / <long> ft`; none when the attack has no kind.
pub fn attack_kind_lines(melee_reach: Option<u32>, ranged: Option<(u32, u32)>) -> (r: Option<(&'static str, String)>)
    ensures
        match melee_reach {
            Some(reach) => r matches Some((kind, range))
                && kind@ == "Melee"@ && range@ == decimal(reach as nat) + " ft."@,
            None => match ranged {
                Some((short, long)) => r matches Some((kind, range))
                    && kind@ == "Ranged"@ && range@ == decimal(short as nat) + " ft / "@ + decimal(long as nat) + " ft"@,
                None => r is None,
            },
        },
{
    match melee_reach {
        Some(reach) => {
            let mut s = String::new();
            push_decimal(&mut s, reach as u64);
            s.append(" ft.");
            assert(s@ =~= decimal(reach as nat) + " ft."@);
            Some(("Melee", s))
        },
        None => match ranged {
            Some((short, long)) => {
                let mut s = String::new();
                push_decimal(&mut s, short as u64);
                s.append(" ft / ");
                push_decimal(&mut s, long as u64);
                s.append(" ft");
                assert(s@ =~= decimal(short as nat) + " ft / "@ + decimal(long as nat) + " ft"@);
                Some(("Ranged", s))
            },
            None => None,
        },
    }
}

/// The name of the modifier an attack adds, such as `Dexterity modifier` (empty without one).
pub open spec fn modifier_words(ability: Option<Ability>) -> Seq<char> {
    match ability {
        Some(a) => spec_long_name(a) + " modifier"@,
        None => Seq::empty(),
    }
}

fn push_modifier_words(s: &mut String, ability: Option<Ability>)
    ensures
        final(s)@ == old(s)@ + modifier_words(ability),
{
    match ability {
        Some(a) => {
            s.append(a.long_name());
            s.append(" modifier");
        },
        None => {},
    }
    assert(final(s)@ =~= old(s)@ + modifier_words(ability));
}

/// What the to-hit bonus of an attack roll is made of, such as
/// ` (Strength modifier + proficiency bonus)`.
pub fn to_hit_breakdown(ability: Option<Ability>, proficient: bool) -> (s: String)
    ensures
        s@ == " ("@ + modifier_words(ability) + (if proficient { " + proficiency bonus"@ } else { Seq::empty() }) + ")"@,
{
    let mut s = String::new();
    s.append(" (");
    push_modifier_words(&mut s, ability);
    if proficient {
        s.append(" + proficiency bonus");
    }
    s.append(")");
    assert(s@ =~= " ("@ + modifier_words(ability) + (if proficient { " + proficiency bonus"@ } else { Seq::empty() }) + ")"@);
    s
}

/// The saving throw line of an attack, such as `Dexterity - DC 13`.
pub fn saving_throw_line(save: Ability, dc: i32) -> (s: String)
    ensures
        s@ == spec_long_name(save) + " - DC "@ + int_decimal(dc as int),
{
    let mut s = String::new();
    s.append(save.long_name());
    s.append(" - DC ");
    push_int(&mut s, dc as i64);
    assert(s@ =~= spec_long_name(save) + " - DC "@ + int_decimal(dc as int));
    s
}

/// What the difficulty of a saving throw is made of, such as
/// `(8 + Wisdom modifier + proficiency bonus)`; the base is left out when it is not positive.
pub fn save_dc_breakdown(base: i32, dc_ability: Option<Ability>, proficient: bool) -> (s: String)
    ensures
        s@ == "("@ + (if base > 0 { decimal(base as nat) } else { Seq::empty() })
            + (match dc_ability { Some(a) => " + "@ + spec_long_name(a) + " modifier"@, None => Seq::empty() })
            + (if proficient { " + proficiency bonus"@ } else { Seq::empty() }) + ")"@,
{
    let mut s = String::new();
    s.append("(");
    if base > 0 {
        push_decimal(&mut s, base as u64);
    }
    match dc_ability {
        Some(a) => {
            s.append(" + ");
            s.append(a.long_name());
            s.append(" modifier");
        },
        None => {},
    }
    if proficient {
        s.append(" + proficiency bonus");
    }
    s.append(")");
    assert(s@ =~= "("@ + (if base > 0 { decimal(base as nat) } else { Seq::empty() })
        + (match dc_ability { Some(a) => " + "@ + spec_long_name(a) + " modifier"@, None => Seq::empty() })
        + (if proficient { " + proficiency bonus"@ } else { Seq::empty() }) + ")"@);
    s
}

/// The note after the damage of an attack, shown when its bonus is positive and differs from
/// the base bonus: the damage with the base bonus, then the modifier added, such as
/// ` (1d6 + 1 + Dexterity modifier)`.
pub fn damage_breakdown(roll: Option<Roll>, bonus: i32, base_bonus: i32, ability: Option<Ability>) -> (r: Option<String>)
    ensures
        match r {
            Some(s) => bonus > 0 && bonus != base_bonus
                && s@ == " ("@ + attack_damage_text(roll, base_bonus as int) + " + "@ + modifier_words(ability) + ")"@,
            None => !(bonus > 0 && bonus != base_bonus),
        },
{
    if bonus > 0 && bonus != base_bonus {
        let mut s = String::new();
        s.append(" (");
        let base = damage_column_text(roll, base_bonus);
        s.append(base.as_str());
        s.append(" + ");
        push_modifier_words(&mut s, ability);
        s.append(")");
        assert(s@ =~= " ("@ + attack_damage_text(roll, base_bonus as int) + " + "@ + modifier_words(ability) + ")"@);
        Some(s)
    } else {
        None
    }
}

/// A copy of a path.
pub fn clone_path(p: &Vec<String>) -> (r: Vec<String>)
    ensures
        path_view(r) == path_view(*p),
{
    let mut r: Vec<String> = Vec::new();
    let mut i: usize = 0;
    while i < p.len()
        invariant
            i <= p@.len(),
            r@.len() == i,
            forall|j: int| 0 <= j < i ==> (#[trigger] r@[j])@ == p@[j]@,
        decreases p@.len() - i,
    {
        let c = p[i].clone();
        r.push(c);
        i = i + 1;
    }
    assert(path_view(r) =~= path_view(*p));
    r
}

/// A feature listed in the panel, with the features shown under it.
pub struct FeatureEntry {
    pub path: Vec<String>,
    pub name: String,
    pub action: Option<ActionSummary>,
    /// Whether the feature is listed under the selected tags (a feature that is not may still
    /// be shown for the sake of its children).
    pub is_relevant: bool,
    pub children: FeatureDisplayGroup,
}

/// The path of an entry as texts.
pub open spec fn entry_path(e: FeatureEntry) -> Seq<Seq<char>> {
    path_view(e.path)
}

/// Features listed alphabetically by name, then by path, each also found by its path.
pub struct FeatureDisplayGroup {
    order: Vec<Vec<String>>,
    by_path: Vec<FeatureEntry>,
}

impl FeatureDisplayGroup {
    /// The paths of the listed features, in listing order.
    pub closed spec fn paths(self) -> Seq<Seq<Seq<char>>> {
        self.order@.map_values(|p: Vec<String>| path_view(p))
    }

    /// The features held, one per path.
    pub closed spec fn entries(self) -> Seq<FeatureEntry> {
        self.by_path@
    }

    /// Whether a feature with path `p` is held.
    pub open spec fn has(self, p: Seq<Seq<char>>) -> bool {
        exists|i: int| 0 <= i < self.entries().len() && entry_path(#[trigger] self.entries()[i]) == p
    }

    /// The feature held under path `p`.
    pub open spec fn get(self, p: Seq<Seq<char>>) -> FeatureEntry {
        self.entries()[choose|i: int| 0 <= i < self.entries().len() && entry_path(#[trigger] self.entries()[i]) == p]
    }

    /// The features in listing order.
    pub open spec fn listed(self) -> Seq<FeatureEntry> {
        self.paths().map_values(|p: Seq<Seq<char>>| self.get(p))
    }

    /// Whether the feature under `p` comes before an entry named `name` with path `q`.
    pub open spec fn before(self, p: Seq<Seq<char>>, name: Seq<char>, q: Seq<Seq<char>>) -> bool {
        key_order(self.get(p).name@, p, name, q) < 0
    }

    /// Whether an entry named `name` with path `q` comes before the feature under `p`.
    pub open spec fn after(self, p: Seq<Seq<char>>, name: Seq<char>, q: Seq<Seq<char>>) -> bool {
        key_order(name, q, self.get(p).name@, p) < 0
    }

    /// Whether the listing is in strictly increasing order of name, then path.
    pub open spec fn sorted(self) -> bool {
        forall|i: int, j: int| 0 <= i < j < self.paths().len()
            ==> self.before(self.paths()[i], self.get(self.paths()[j]).name@, self.paths()[j])
    }

    /// The group's own invariant: one feature per path, and the listing names exactly the
    /// held features.
    pub closed spec fn wf(self) -> bool {
        &&& forall|i: int, j: int| 0 <= i < j < self.by_path@.len()
            ==> entry_path(self.by_path@[i]) != entry_path(self.by_path@[j])
        &&& forall|i: int| 0 <= i < self.paths().len() ==> self.has(#[trigger] self.paths()[i])
        &&& forall|j: int| 0 <= j < self.by_path@.len()
            ==> self.paths().contains(entry_path(#[trigger] self.by_path@[j]))
    }

    /// Whether the children of every held feature are well formed.
    pub open spec fn children_wf(self) -> bool {
        forall|i: int| 0 <= i < self.entries().len() ==> (#[trigger] self.entries()[i]).children.wf()
    }

    proof fn lemma_get(self, i: int)
        requires
            self.wf(),
            0 <= i < self.entries().len(),
        ensures
            self.has(entry_path(self.entries()[i])),
            self.get(entry_path(self.entries()[i])) == self.entries()[i],
    {
        let p = entry_path(self.entries()[i]);
        assert(entry_path(self.entries()[i]) == p);
        let j = choose|j: int| 0 <= j < self.entries().len() && entry_path(#[trigger] self.entries()[j]) == p;
        if j != i {
            if j < i {
                assert(entry_path(self.by_path@[j]) != entry_path(self.by_path@[i]));
            } else {
                assert(entry_path(self.by_path@[i]) != entry_path(self.by_path@[j]));
            }
        }
    }

    /// An empty group.
    pub fn new() -> (g: FeatureDisplayGroup)
        ensures
            g.wf(),
            g.paths().len() == 0,
            g.entries().len() == 0,
            forall|p: Seq<Seq<char>>| !g.has(p),
    {
        let g = FeatureDisplayGroup { order: Vec::new(), by_path: Vec::new() };
        assert(g.paths() =~= Seq::empty());
        g
    }

    /// Whether nothing is listed.
    pub fn is_empty(&self) -> (r: bool)
        ensures
            r == (self.paths().len() == 0),
            r && self.wf() ==> forall|p: Seq<Seq<char>>| !self.has(p),
    {
        proof {
            if self.paths().len() == 0 && self.wf() {
                assert forall|p: Seq<Seq<char>>| !self.has(p) by {
                    if self.has(p) {
                        let i = choose|i: int| 0 <= i < self.entries().len() && entry_path(#[trigger] self.entries()[i]) == p;
                        assert(self.paths().contains(entry_path(self.by_path@[i])));
                    }
                }
            }
        }
        self.order.len() == 0
    }

    /// The position of the feature with path `path` among the held ones.
    fn find(&self, path: &Vec<String>) -> (r: Option<usize>)
        requires
            self.wf(),
        ensures
            match r {
                Some(i) => i < self.entries().len()
                    && entry_path(self.entries()[i as int]) == path_view(*path)
                    && self.has(path_view(*path))
                    && self.get(path_view(*path)) == self.entries()[i as int],
                None => !self.has(path_view(*path)),
            },
    {
        let mut i: usize = 0;
        while i < self.by_path.len()
            invariant
                self.wf(),
                i <= self.by_path@.len(),
                forall|j: int| 0 <= j < i ==> entry_path(#[trigger] self.by_path@[j]) != path_view(*path),
            decreases self.by_path@.len() - i,
        {
            if path_eq(&self.by_path[i].path, path) {
                proof { self.lemma_get(i as int); }
                return Some(i);
            }
            i = i + 1;
        }
        None
    }

    proof fn lemma_insert_keeps_paths(old_paths: Seq<Seq<Seq<char>>>, idx: int, np: Seq<Seq<char>>, x: Seq<Seq<char>>)
        requires
            0 <= idx <= old_paths.len(),
            old_paths.contains(x),
        ensures
            old_paths.insert(idx, np).contains(x),
    {
        let k = choose|k: int| 0 <= k < old_paths.len() && old_paths[k] == x;
        if k < idx {
            assert(old_paths.insert(idx, np)[k] == x);
        } else {
            assert(old_paths.insert(idx, np)[k + 1] == x);
        }
    }

    /// Adds a feature, replacing the one held under the same path. Its path enters the
    /// listing where a binary search by name, then path, places it: where it keeps the listing
    /// sorted when the listing was sorted and the path is new (when the listing is not sorted
    /// the place is unspecified, as for `slice::binary_search_by`).
    pub fn insert(&mut self, entry: FeatureEntry)
        requires
            old(self).wf(),
        ensures
            final(self).wf(),
            inserted(*old(self), *final(self), entry),
            old(self).children_wf() && entry.children.wf() ==> final(self).children_wf(),
    {
        let ghost np = entry_path(entry);
        let ghost nname = entry.name@;
        let ghost sorted_new = self.sorted() && !self.has(np);
        let mut lo: usize = 0;
        let mut hi: usize = self.order.len();
        while lo < hi
            invariant
                self.wf(),
                *self == *old(self),
                np == entry_path(entry),
                nname == entry.name@,
                sorted_new == (self.sorted() && !self.has(np)),
                lo <= hi <= self.paths().len(),
                self.paths().len() == self.order@.len(),
                sorted_new ==> forall|i: int| 0 <= i < lo ==> self.before(#[trigger] self.paths()[i], nname, np),
                sorted_new ==> forall|i: int| hi <= i < self.paths().len() ==> self.after(#[trigger] self.paths()[i], nname, np),
            decreases hi - lo,
        {
            let mid = lo + (hi - lo) / 2;
            let ghost pm = self.paths()[mid as int];
            assert(pm == path_view(self.order@[mid as int]));
            assert(self.has(pm));
            let j = self.find(&self.order[mid]).unwrap();
            let c = compare_key(self.by_path[j].name.as_str(), &self.order[mid], entry.name.as_str(), &entry.path);
            match c {
                Order::Less => {
                    proof {
                        if sorted_new {
                            assert forall|i: int| 0 <= i < mid + 1 implies self.before(#[trigger] self.paths()[i], nname, np) by {
                                if i < mid {
                                    let pi = self.paths()[i];
                                    assert(self.before(pi, self.get(pm).name@, pm));
                                    lemma_key_order(self.get(pi).name@, pi, self.get(pm).name@, pm, nname, np);
                                }
                            }
                        }
                    }
                    lo = mid + 1;
                },
                Order::Greater => {
                    proof {
                        if sorted_new {
                            assert forall|i: int| mid <= i < self.paths().len() implies self.after(#[trigger] self.paths()[i], nname, np) by {
                                if i > mid {
                                    let pi = self.paths()[i];
                                    assert(self.before(pm, self.get(pi).name@, pi));
                                    lemma_key_order(nname, np, self.get(pm).name@, pm, self.get(pi).name@, pi);
                                }
                                lemma_key_order(nname, np, self.get(pm).name@, pm, nname, np);
                            }
                        }
                    }
                    hi = mid;
                },
                Order::Equal => {
                    proof {
                        lemma_key_order(self.get(pm).name@, pm, nname, np, nname, np);
                    }
                    lo = mid;
                    hi = mid;
                },
            }
        }
        let idx = lo;
        let ghost old_paths = self.paths();
        let ghost old_entries = self.entries();
        let p = clone_path(&entry.path);
        let found = self.find(&entry.path);
        let ghost at: int = match found { Some(i) => i as int, None => old_entries.len() as int };
        match found {
            Some(i) => { self.by_path.set(i, entry); },
            None => { self.by_path.push(entry); },
        }
        self.order.insert(idx, p);
        proof {
            let new_entries = self.entries();
            assert(self.paths() =~= old_paths.insert(idx as int, np));
            assert(new_entries[at] == entry);
            assert forall|k: int| 0 <= k < new_entries.len() && k != at implies new_entries[k] == old_entries[k] by {}
            // one entry per path
            assert forall|a: int, b: int| 0 <= a < b < self.by_path@.len()
                implies entry_path(self.by_path@[a]) != entry_path(self.by_path@[b]) by {
                if a != at && b != at {
                    assert(entry_path(old_entries[a]) != entry_path(old_entries[b]));
                } else if found is Some {
                    assert(entry_path(old_entries[at]) == np);
                    if a == at {
                        assert(entry_path(old_entries[a]) != entry_path(old_entries[b]));
                    } else {
                        assert(entry_path(old_entries[a]) != entry_path(old_entries[b]));
                    }
                } else {
                    if a == at {
                        assert(false);
                    } else {
                        assert(!old(self).has(np));
                        assert(entry_path(old_entries[a]) != np);
                    }
                }
            }
            // what is held
            assert forall|q: Seq<Seq<char>>| #[trigger] self.has(q) == (old(self).has(q) || q == np) by {
                if self.has(q) {
                    let k = choose|k: int| 0 <= k < new_entries.len() && entry_path(#[trigger] new_entries[k]) == q;
                    if k != at {
                        assert(entry_path(old_entries[k]) == q);
                    }
                }
                if old(self).has(q) {
                    let k = choose|k: int| 0 <= k < old_entries.len() && entry_path(#[trigger] old_entries[k]) == q;
                    if k != at {
                        assert(entry_path(new_entries[k]) == q);
                    } else {
                        assert(entry_path(new_entries[at]) == q);
                    }
                }
                if q == np {
                    assert(entry_path(new_entries[at]) == q);
                }
            }
            // the listing names exactly the held features
            assert forall|k: int| 0 <= k < self.paths().len() implies self.has(#[trigger] self.paths()[k]) by {
                if k < idx {
                    assert(self.paths()[k] == old_paths[k]);
                    assert(old(self).has(old_paths[k]));
                } else if k > idx {
                    assert(self.paths()[k] == old_paths[k - 1]);
                    assert(old(self).has(old_paths[k - 1]));
                }
            }
            assert forall|k: int| 0 <= k < self.by_path@.len() implies self.paths().contains(entry_path(#[trigger] self.by_path@[k])) by {
                if k == at {
                    assert(self.paths()[idx as int] == np);
                } else {
                    assert(old_paths.contains(entry_path(old_entries[k])));
                    Self::lemma_insert_keeps_paths(old_paths, idx as int, np, entry_path(old_entries[k]));
                }
            }
            assert(self.wf());
            self.lemma_get(at);
            assert forall|q: Seq<Seq<char>>| q != np && old(self).has(q) implies #[trigger] self.get(q) == old(self).get(q) by {
                let k = choose|k: int| 0 <= k < old_entries.len() && entry_path(#[trigger] old_entries[k]) == q;
                old(self).lemma_get(k);
                assert(k != at);
                self.lemma_get(k);
            }
            // sorted stays sorted
            if sorted_new {
                let np_paths = self.paths();
                assert forall|a: int, b: int| 0 <= a < b < np_paths.len()
                    implies self.before(np_paths[a], self.get(np_paths[b]).name@, np_paths[b]) by {
                    let pa = np_paths[a];
                    let pb = np_paths[b];
                    if a < idx {
                        assert(pa == old_paths[a]);
                        assert(old(self).has(pa));
                        assert(pa != np);
                    }
                    if a > idx {
                        assert(pa == old_paths[a - 1]);
                        assert(old(self).has(pa));
                        assert(pa != np);
                    }
                    if b < idx {
                        assert(pb == old_paths[b]);
                        assert(old(self).has(pb));
                        assert(pb != np);
                    }
                    if b > idx {
                        assert(pb == old_paths[b - 1]);
                        assert(old(self).has(pb));
                        assert(pb != np);
                    }
                    if b < idx {
                        assert(old(self).before(old_paths[a], old(self).get(old_paths[b]).name@, old_paths[b]));
                    } else if b == idx {
                        assert(old(self).before(old_paths[a], nname, np));
                    } else if a == idx {
                        assert(old(self).after(old_paths[b - 1], nname, np));
                    } else if a < idx {
                        assert(old(self).before(old_paths[a], old(self).get(old_paths[b - 1]).name@, old_paths[b - 1]));
                    } else {
                        assert(old(self).before(old_paths[a - 1], old(self).get(old_paths[b - 1]).name@, old_paths[b - 1]));
                    }
                }
            }
            if old(self).children_wf() && entry.children.wf() {
                assert forall|k: int| 0 <= k < new_entries.len() implies (#[trigger] new_entries[k]).children.wf() by {
                    if k != at {
                        assert(old_entries[k].children.wf());
                    }
                }
            }
        }
    }

    /// Takes out the feature held under `path` (if any), and every mention of that path from
    /// the listing.
    pub fn remove(&mut self, path: &Vec<String>) -> (r: Option<FeatureEntry>)
        requires
            old(self).wf(),
        ensures
            final(self).wf(),
            removed(*old(self), *final(self), path_view(*path), r),
            old(self).children_wf() ==> final(self).children_wf(),
    {
        let ghost pv = path_view(*path);
        let ghost pred = other_than(pv);
        let found = self.find(path);
        let i = match found {
            None => {
                proof {
                    assert forall|k: int| 0 <= k < self.paths().len() implies pred(#[trigger] self.paths()[k]) by {
                        assert(self.has(self.paths()[k]));
                    }
                    lemma_filter_all(self.paths(), pred);
                }
                return None;
            },
            Some(i) => i,
        };
        let ghost old_paths = self.paths();
        let ghost old_entries = self.entries();
        let removed = self.by_path.remove(i);
        let mut kept: Vec<Vec<String>> = Vec::new();
        let ghost mut idxs: Seq<int> = Seq::empty();
        let mut k: usize = 0;
        while k < self.order.len()
            invariant
                k <= self.order@.len(),
                self.order@ == old(self).order@,
                old_paths == old(self).paths(),
                old_paths.len() == self.order@.len(),
                pv == path_view(*path),
                pred == other_than(pv),
                kept@.map_values(|p: Vec<String>| path_view(p)) == old_paths.take(k as int).filter(pred),
                idxs.len() == kept@.len(),
                forall|a: int| 0 <= a < idxs.len() ==> 0 <= #[trigger] idxs[a] < k
                    && path_view(kept@[a]) == old_paths[idxs[a]],
                forall|a: int, b: int| 0 <= a < b < idxs.len() ==> idxs[a] < idxs[b],
                forall|a: int| 0 <= a < kept@.len() ==> path_view(#[trigger] kept@[a]) != pv,
                forall|m: int| 0 <= m < k && old_paths[m] != pv
                    ==> kept@.map_values(|p: Vec<String>| path_view(p)).contains(#[trigger] old_paths[m]),
            decreases self.order@.len() - k,
        {
            proof {
                reveal(Seq::filter);
                assert(old_paths.take(k as int + 1).drop_last() =~= old_paths.take(k as int));
                assert(old_paths[k as int] == path_view(self.order@[k as int]));
            }
            let ghost before_view = kept@.map_values(|p: Vec<String>| path_view(p));
            if !path_eq(&self.order[k], path) {
                let c = clone_path(&self.order[k]);
                kept.push(c);
                proof {
                    idxs = idxs.push(k as int);
                    let after_view = kept@.map_values(|p: Vec<String>| path_view(p));
                    assert(after_view =~= before_view.push(old_paths[k as int]));
                    assert forall|m: int| 0 <= m < k + 1 && old_paths[m] != pv
                        implies after_view.contains(#[trigger] old_paths[m]) by {
                        if m < k {
                            let w = choose|w: int| 0 <= w < before_view.len() && before_view[w] == old_paths[m];
                            assert(after_view[w] == old_paths[m]);
                        } else {
                            assert(after_view[before_view.len() as int] == old_paths[m]);
                        }
                    }
                }
            }
            k = k + 1;
        }
        self.order = kept;
        proof {
            assert(old_paths.take(old_paths.len() as int) =~= old_paths);
            let new_entries = self.entries();
            assert(new_entries =~= old_entries.remove(i as int));
            assert(entry_path(old_entries[i as int]) == pv);
            // entries other than the removed one keep their places, shifted past it
            assert forall|q: Seq<Seq<char>>| #[trigger] self.has(q) == (old(self).has(q) && q != pv) by {
                if self.has(q) {
                    let w = choose|w: int| 0 <= w < new_entries.len() && entry_path(#[trigger] new_entries[w]) == q;
                    if w < i {
                        assert(new_entries[w] == old_entries[w]);
                        assert(entry_path(old_entries[w]) != entry_path(old_entries[i as int]));
                    } else {
                        assert(new_entries[w] == old_entries[w + 1]);
                        assert(entry_path(old_entries[i as int]) != entry_path(old_entries[w + 1]));
                    }
                }
                if old(self).has(q) && q != pv {
                    let w = choose|w: int| 0 <= w < old_entries.len() && entry_path(#[trigger] old_entries[w]) == q;
                    if w < i {
                        assert(entry_path(new_entries[w]) == q);
                    } else {
                        assert(w != i);
                        assert(entry_path(new_entries[w - 1]) == q);
                    }
                }
            }
            assert forall|a: int, b: int| 0 <= a < b < self.by_path@.len()
                implies entry_path(self.by_path@[a]) != entry_path(self.by_path@[b]) by {
                let oa = if a < i { a } else { a + 1 };
                let ob = if b < i { b } else { b + 1 };
                assert(new_entries[a] == old_entries[oa]);
                assert(new_entries[b] == old_entries[ob]);
                assert(entry_path(old_entries[oa]) != entry_path(old_entries[ob]));
            }
            let new_paths = self.paths();
            assert(new_paths == old_paths.filter(pred));
            assert forall|a: int| 0 <= a < new_paths.len() implies self.has(#[trigger] new_paths[a]) by {
                assert(new_paths[a] == old_paths[idxs[a]]);
                assert(old(self).has(old_paths[idxs[a]]));
            }
            assert forall|w: int| 0 <= w < self.by_path@.len() implies new_paths.contains(entry_path(#[trigger] self.by_path@[w])) by {
                let ow = if w < i { w } else { w + 1 };
                assert(new_entries[w] == old_entries[ow]);
                assert(ow != i);
                assert(entry_path(old_entries[ow]) != entry_path(old_entries[i as int]) || ow == i);
                let pw = entry_path(old_entries[ow]);
                assert(old_paths.contains(pw));
                let m = choose|m: int| 0 <= m < old_paths.len() && old_paths[m] == pw;
                assert(old_paths[m] != pv);
            }
            assert(self.wf());
            old(self).lemma_get(i as int);
            assert forall|q: Seq<Seq<char>>| q != pv && old(self).has(q) implies #[trigger] self.get(q) == old(self).get(q) by {
                let w = choose|w: int| 0 <= w < old_entries.len() && entry_path(#[trigger] old_entries[w]) == q;
                old(self).lemma_get(w);
                assert(w != i);
                if w < i {
                    assert(new_entries[w] == old_entries[w]);
                    self.lemma_get(w);
                } else {
                    assert(new_entries[w - 1] == old_entries[w]);
                    self.lemma_get(w - 1);
                }
            }
            if old(self).sorted() {
                assert forall|a: int, b: int| 0 <= a < b < new_paths.len()
                    implies self.before(new_paths[a], self.get(new_paths[b]).name@, new_paths[b]) by {
                    assert(idxs[a] < idxs[b]);
                    assert(new_paths[a] == old_paths[idxs[a]]);
                    assert(new_paths[b] == old_paths[idxs[b]]);
                    assert(old(self).has(old_paths[idxs[a]]));
                    assert(old(self).has(old_paths[idxs[b]]));
                    assert(old(self).before(old_paths[idxs[a]], old(self).get(old_paths[idxs[b]]).name@, old_paths[idxs[b]]));
                }
            }
            if old(self).children_wf() {
                assert forall|w: int| 0 <= w < new_entries.len() implies (#[trigger] new_entries[w]).children.wf() by {
                    let ow = if w < i { w } else { w + 1 };
                    assert(new_entries[w] == old_entries[ow]);
                    assert(old_entries[ow].children.wf());
                }
            }
        }
        Some(removed)
    }
}

impl FeatureDisplayGroup {
    /// The features in listing order.
    pub fn iter(&self) -> (r: Vec<&FeatureEntry>)
        requires
            self.wf(),
        ensures
            r@.len() == self.paths().len(),
            forall|k: int| 0 <= k < r@.len() ==> *(#[trigger] r@[k]) == self.get(self.paths()[k]),
    {
        let mut r: Vec<&FeatureEntry> = Vec::new();
        let mut k: usize = 0;
        while k < self.order.len()
            invariant
                self.wf(),
                k <= self.order@.len(),
                self.paths().len() == self.order@.len(),
                r@.len() == k,
                forall|a: int| 0 <= a < k ==> *(#[trigger] r@[a]) == self.get(self.paths()[a]),
            decreases self.order@.len() - k,
        {
            assert(self.paths()[k as int] == path_view(self.order@[k as int]));
            assert(self.has(self.paths()[k as int]));
            let j = self.find(&self.order[k]).unwrap();
            r.push(&self.by_path[j]);
            k = k + 1;
        }
        r
    }

    /// Takes the features out in listing order; a path listed twice gives its feature once,
    /// at its first place.
    pub fn into_iter(self) -> (r: Vec<FeatureEntry>)
        requires
            self.wf(),
        ensures
            r@ == first_occurrences(self.paths()).map_values(|p: Seq<Seq<char>>| self.get(p)),
            self.sorted() ==> r@ == self.listed(),
    {
        let ghost g = self;
        let ghost gp = self.paths();
        let ghost f = |p: Seq<Seq<char>>| g.get(p);
        let FeatureDisplayGroup { order, by_path } = self;
        let mut entries = by_path;
        proof {
            assert forall|w: int| 0 <= w < entries@.len() implies #[trigger] entries@[w] == g.get(entry_path(entries@[w])) by {
                g.lemma_get(w);
            }
            assert(gp.take(0) =~= Seq::<Seq<Seq<char>>>::empty());
            assert(first_occurrences(gp.take(0)) =~= Seq::<Seq<Seq<char>>>::empty());
        }
        let mut r: Vec<FeatureEntry> = Vec::new();
        let mut k: usize = 0;
        while k < order.len()
            invariant
                g.wf(),
                gp == g.paths(),
                f == (|p: Seq<Seq<char>>| g.get(p)),
                gp == order@.map_values(|p: Vec<String>| path_view(p)),
                k <= order@.len(),
                forall|a: int, b: int| 0 <= a < b < entries@.len()
                    ==> entry_path(entries@[a]) != entry_path(entries@[b]),
                forall|q: Seq<Seq<char>>| (exists|w: int| 0 <= w < entries@.len() && entry_path(#[trigger] entries@[w]) == q)
                    == (g.has(q) && !gp.take(k as int).contains(q)),
                forall|w: int| 0 <= w < entries@.len() ==> #[trigger] entries@[w] == g.get(entry_path(entries@[w])),
                r@ == first_occurrences(gp.take(k as int)).map_values(f),
            decreases order@.len() - k,
        {
            let ghost q = gp[k as int];
            assert(q == path_view(order@[k as int]));
            assert(gp.take(k as int + 1).drop_last() =~= gp.take(k as int));
            assert(gp.take(k as int + 1).last() == q);
            let found = position_of(&entries, &order[k]);
            match found {
                Some(j) => {
                    let ghost before = entries@;
                    let e = entries.remove(j);
                    r.push(e);
                    proof {
                        assert(!gp.take(k as int).contains(q));
                        assert(first_occurrences(gp.take(k as int + 1)) == first_occurrences(gp.take(k as int)).push(q));
                        assert(r@ =~= first_occurrences(gp.take(k as int + 1)).map_values(f));
                        assert(entries@ =~= before.remove(j as int));
                        assert forall|a: int, b: int| 0 <= a < b < entries@.len()
                            implies entry_path(entries@[a]) != entry_path(entries@[b]) by {
                            let oa = if a < j { a } else { a + 1 };
                            let ob = if b < j { b } else { b + 1 };
                            assert(entries@[a] == before[oa]);
                            assert(entries@[b] == before[ob]);
                        }
                        assert forall|w: int| 0 <= w < entries@.len() implies #[trigger] entries@[w] == g.get(entry_path(entries@[w])) by {
                            let ow = if w < j { w } else { w + 1 };
                            assert(entries@[w] == before[ow]);
                        }
                        assert forall|x: Seq<Seq<char>>| (exists|w: int| 0 <= w < entries@.len() && entry_path(#[trigger] entries@[w]) == x)
                            == (g.has(x) && !gp.take(k as int + 1).contains(x)) by {
                            let now = exists|w: int| 0 <= w < entries@.len() && entry_path(#[trigger] entries@[w]) == x;
                            let was = exists|w: int| 0 <= w < before.len() && entry_path(#[trigger] before[w]) == x;
                            if now {
                                let w = choose|w: int| 0 <= w < entries@.len() && entry_path(#[trigger] entries@[w]) == x;
                                let ow = if w < j { w } else { w + 1 };
                                assert(entries@[w] == before[ow]);
                                assert(ow != j);
                                assert(entry_path(before[ow]) != entry_path(before[j as int]));
                                assert(was);
                                assert(x != q);
                                if gp.take(k as int + 1).contains(x) {
                                    let m = choose|m: int| 0 <= m < k + 1 && #[trigger] gp.take(k as int + 1)[m] == x;
                                    assert(m != k);
                                    assert(gp.take(k as int)[m] == x);
                                }
                            }
                            if g.has(x) && !gp.take(k as int + 1).contains(x) {
                                assert(!gp.take(k as int).contains(x)) by {
                                    if gp.take(k as int).contains(x) {
                                        let m = choose|m: int| 0 <= m < k && #[trigger] gp.take(k as int)[m] == x;
                                        assert(gp.take(k as int + 1)[m] == x);
                                    }
                                }
                                assert(was);
                                let w = choose|w: int| 0 <= w < before.len() && entry_path(#[trigger] before[w]) == x;
                                assert(x != q) by {
                                    assert(gp.take(k as int + 1)[k as int] == q);
                                }
                                assert(w != j);
                                if w < j {
                                    assert(entries@[w] == before[w]);
                                } else {
                                    assert(entries@[w - 1] == before[w]);
                                }
                            }
                        }
                    }
                },
                None => {
                    proof {
                        assert(g.has(q)) by {
                            assert(g.has(gp[k as int]));
                        }
                        assert(gp.take(k as int).contains(q));
                        assert(first_occurrences(gp.take(k as int + 1)) == first_occurrences(gp.take(k as int)));
                        assert forall|x: Seq<Seq<char>>| (exists|w: int| 0 <= w < entries@.len() && entry_path(#[trigger] entries@[w]) == x)
                            == (g.has(x) && !gp.take(k as int + 1).contains(x)) by {
                            if gp.take(k as int + 1).contains(x) && !gp.take(k as int).contains(x) {
                                let m = choose|m: int| 0 <= m < k + 1 && #[trigger] gp.take(k as int + 1)[m] == x;
                                if m < k {
                                    assert(gp.take(k as int)[m] == x);
                                } else {
                                    assert(x == q);
                                }
                            }
                            if gp.take(k as int).contains(x) {
                                let m = choose|m: int| 0 <= m < k && #[trigger] gp.take(k as int)[m] == x;
                                assert(gp.take(k as int + 1)[m] == x);
                            }
                        }
                    }
                },
            }
            k = k + 1;
        }
        proof {
            assert(gp.take(gp.len() as int) =~= gp);
            if g.sorted() {
                assert forall|a: int, b: int| 0 <= a < b < gp.len() implies gp[a] != gp[b] by {
                    assert(g.before(gp[a], g.get(gp[b]).name@, gp[b]));
                    lemma_key_order(g.get(gp[a]).name@, gp[a], g.get(gp[a]).name@, gp[a], g.get(gp[a]).name@, gp[a]);
                }
                lemma_first_occurrences_distinct(gp);
            }
        }
        r
    }
}

/// What taking the feature under `p` out of `before` gives: `r` is the feature taken (if
/// any), `after` holds the others, and the listing loses every mention of `p`.
pub open spec fn removed(before: FeatureDisplayGroup, after: FeatureDisplayGroup, p: Seq<Seq<char>>, r: Option<FeatureEntry>) -> bool {
    &&& r == if before.has(p) { Some(before.get(p)) } else { None }
    &&& forall|q: Seq<Seq<char>>| #[trigger] after.has(q) == (before.has(q) && q != p)
    &&& forall|q: Seq<Seq<char>>| q != p && before.has(q) ==> #[trigger] after.get(q) == before.get(q)
    &&& after.paths() == before.paths().filter(other_than(p))
    &&& !before.has(p) ==> after.paths() == before.paths()
    &&& before.sorted() ==> after.sorted()
}

/// Whether a path is not `p`.
pub open spec fn other_than(p: Seq<Seq<char>>) -> spec_fn(Seq<Seq<char>>) -> bool {
    |q: Seq<Seq<char>>| q != p
}

/// What adding `entry` to `before` gives in `after` (as `FeatureDisplayGroup::insert` does).
pub open spec fn inserted(before: FeatureDisplayGroup, after: FeatureDisplayGroup, entry: FeatureEntry) -> bool {
    &&& forall|p: Seq<Seq<char>>| #[trigger] after.has(p) == (before.has(p) || p == entry_path(entry))
    &&& after.get(entry_path(entry)) == entry
    &&& forall|p: Seq<Seq<char>>| p != entry_path(entry) && before.has(p) ==> #[trigger] after.get(p) == before.get(p)
    &&& exists|idx: int| 0 <= idx <= before.paths().len() && after.paths() == before.paths().insert(idx, entry_path(entry))
    &&& before.sorted() && !before.has(entry_path(entry)) ==> after.sorted()
}

impl FeatureDisplayGroup {
    /// Adds `entry` to the children of the feature held under `parent`, and tells whether
    /// there was such a feature (when there is none, nothing changes).
    pub fn insert_child(&mut self, parent: &Vec<String>, entry: FeatureEntry) -> (r: bool)
        requires
            old(self).wf(),
            old(self).children_wf(),
            entry.children.wf(),
        ensures
            final(self).wf(),
            final(self).children_wf(),
            r == old(self).has(path_view(*parent)),
            final(self).paths() == old(self).paths(),
            forall|q: Seq<Seq<char>>| #[trigger] final(self).has(q) == old(self).has(q),
            forall|q: Seq<Seq<char>>| q != path_view(*parent) && old(self).has(q)
                ==> #[trigger] final(self).get(q) == old(self).get(q),
            r ==> ({
                let before = old(self).get(path_view(*parent));
                let after = final(self).get(path_view(*parent));
                &&& after.path == before.path
                &&& after.name == before.name
                &&& after.action == before.action
                &&& after.is_relevant == before.is_relevant
                &&& inserted(before.children, after.children, entry)
            }),
            !r ==> *final(self) == *old(self),
    {
        let ghost pp = path_view(*parent);
        let found = self.find(parent);
        match found {
            None => false,
            Some(i) => {
                let ghost old_entries = self.entries();
                let ghost old_paths = self.paths();
                let mut e = self.by_path.remove(i);
                let ghost e_before = e;
                assert(e.children.wf()) by {
                    assert(old_entries[i as int].children.wf());
                }
                e.children.insert(entry);
                let ghost e_after = e;
                self.by_path.insert(i, e);
                proof {
                    let new_entries = self.entries();
                    assert(new_entries =~= old_entries.update(i as int, e_after));
                    assert(self.paths() == old_paths);
                    assert forall|k: int| 0 <= k < new_entries.len() implies entry_path(#[trigger] new_entries[k]) == entry_path(old_entries[k]) by {}
                    assert forall|a: int, b: int| 0 <= a < b < self.by_path@.len()
                        implies entry_path(self.by_path@[a]) != entry_path(self.by_path@[b]) by {
                        assert(entry_path(new_entries[a]) == entry_path(old_entries[a]));
                        assert(entry_path(new_entries[b]) == entry_path(old_entries[b]));
                    }
                    assert forall|q: Seq<Seq<char>>| #[trigger] self.has(q) == old(self).has(q) by {
                        if self.has(q) {
                            let w = choose|w: int| 0 <= w < new_entries.len() && entry_path(#[trigger] new_entries[w]) == q;
                            assert(entry_path(old_entries[w]) == q);
                        }
                        if old(self).has(q) {
                            let w = choose|w: int| 0 <= w < old_entries.len() && entry_path(#[trigger] old_entries[w]) == q;
                            assert(entry_path(new_entries[w]) == q);
                        }
                    }
                    assert forall|k: int| 0 <= k < self.paths().len() implies self.has(#[trigger] self.paths()[k]) by {
                        assert(old(self).has(old_paths[k]));
                    }
                    assert forall|w: int| 0 <= w < self.by_path@.len() implies self.paths().contains(entry_path(#[trigger] self.by_path@[w])) by {
                        assert(entry_path(new_entries[w]) == entry_path(old_entries[w]));
                        assert(old_paths.contains(entry_path(old_entries[w])));
                    }
                    assert(self.wf());
                    assert forall|k: int| 0 <= k < new_entries.len() implies (#[trigger] new_entries[k]).children.wf() by {
                        if k != i {
                            assert(old_entries[k].children.wf());
                        }
                    }
                    self.lemma_get(i as int);
                    old(self).lemma_get(i as int);
                    assert forall|q: Seq<Seq<char>>| q != pp && old(self).has(q) implies #[trigger] self.get(q) == old(self).get(q) by {
                        let w = choose|w: int| 0 <= w < old_entries.len() && entry_path(#[trigger] old_entries[w]) == q;
                        old(self).lemma_get(w);
                        self.lemma_get(w);
                    }
                }
                true
            },
        }
    }
}

/// The position in `entries` of the feature with path `path`.
fn position_of(entries: &Vec<FeatureEntry>, path: &Vec<String>) -> (r: Option<usize>)
    ensures
        match r {
            Some(j) => j < entries@.len() && entry_path(entries@[j as int]) == path_view(*path),
            None => forall|w: int| 0 <= w < entries@.len() ==> entry_path(#[trigger] entries@[w]) != path_view(*path),
        },
{
    let mut j: usize = 0;
    while j < entries.len()
        invariant
            j <= entries@.len(),
            forall|w: int| 0 <= w < j ==> entry_path(#[trigger] entries@[w]) != path_view(*path),
        decreases entries@.len() - j,
    {
        if path_eq(&entries[j].path, path) {
            return Some(j);
        }
        j = j + 1;
    }
    None
}

/// The elements of a sequence at their first places, later repetitions left out.
pub open spec fn first_occurrences<A>(s: Seq<A>) -> Seq<A>
    decreases s.len(),
{
    if s.len() == 0 {
        s
    } else if s.drop_last().contains(s.last()) {
        first_occurrences(s.drop_last())
    } else {
        first_occurrences(s.drop_last()).push(s.last())
    }
}

/// A sequence without repetitions is its own first occurrences.
proof fn lemma_first_occurrences_distinct<A>(s: Seq<A>)
    requires
        forall|a: int, b: int| 0 <= a < b < s.len() ==> s[a] != s[b],
    ensures
        first_occurrences(s) == s,
    decreases s.len(),
{
    if s.len() > 0 {
        lemma_first_occurrences_distinct(s.drop_last());
        if s.drop_last().contains(s.last()) {
            let m = choose|m: int| 0 <= m < s.len() - 1 && s.drop_last()[m] == s.last();
            assert(s[m] == s[s.len() - 1]);
        }
        assert(s.drop_last().push(s.last()) =~= s);
    }
}

/// Taking out the feature just added under a path the group did not hold gives the group
/// back: the same listing and the same features, and the feature taken is the one added.
pub proof fn law_insert_then_remove(
    g0: FeatureDisplayGroup,
    g1: FeatureDisplayGroup,
    g2: FeatureDisplayGroup,
    e: FeatureEntry,
    r: Option<FeatureEntry>,
)
    requires
        g0.wf(),
        !g0.has(entry_path(e)),
        inserted(g0, g1, e),
        removed(g1, g2, entry_path(e), r),
    ensures
        r == Some(e),
        g2.paths() == g0.paths(),
        forall|q: Seq<Seq<char>>| #[trigger] g2.has(q) == g0.has(q),
        forall|q: Seq<Seq<char>>| g0.has(q) ==> #[trigger] g2.get(q) == g0.get(q),
{
    let p = entry_path(e);
    let idx = choose|idx: int| 0 <= idx <= g0.paths().len() && g1.paths() == g0.paths().insert(idx, p);
    let s = g0.paths();
    assert forall|k: int| 0 <= k < s.len() implies #[trigger] s[k] != p by {
        assert(g0.has(s[k]));
    }
    lemma_filter_insert_absent(s, idx, p);
}

/// Taking out a path the group does not hold takes nothing and leaves the group as it was:
/// the same listing and the same features.
pub proof fn law_remove_unheld(g0: FeatureDisplayGroup, g1: FeatureDisplayGroup, p: Seq<Seq<char>>, r: Option<FeatureEntry>)
    requires
        !g0.has(p),
        removed(g0, g1, p, r),
    ensures
        r is None,
        g1.paths() == g0.paths(),
        forall|q: Seq<Seq<char>>| #[trigger] g1.has(q) == g0.has(q),
        forall|q: Seq<Seq<char>>| g0.has(q) ==> #[trigger] g1.get(q) == g0.get(q),
{
}

/// Putting `p` into a sequence without it and filtering it out again gives the sequence back.
proof fn lemma_filter_insert_absent(s: Seq<Seq<Seq<char>>>, idx: int, p: Seq<Seq<char>>)
    requires
        0 <= idx <= s.len(),
        forall|k: int| 0 <= k < s.len() ==> #[trigger] s[k] != p,
    ensures
        s.insert(idx, p).filter(other_than(p)) == s,
    decreases s.len(),
{
    reveal(Seq::filter);
    let t = s.insert(idx, p);
    if idx == s.len() {
        assert(t.drop_last() =~= s);
        lemma_filter_all(s, other_than(p));
    } else {
        assert(t.drop_last() =~= s.drop_last().insert(idx, p));
        lemma_filter_insert_absent(s.drop_last(), idx, p);
        assert(t.last() == s.last());
        assert(s.drop_last().push(s.last()) =~= s);
    }
}

/// Filtering by a predicate that every element meets gives the sequence back.
proof fn lemma_filter_all<A>(s: Seq<A>, pred: spec_fn(A) -> bool)
    requires
        forall|k: int| 0 <= k < s.len() ==> pred(#[trigger] s[k]),
    ensures
        s.filter(pred) == s,
    decreases s.len(),
{
    reveal(Seq::filter);
    if s.len() > 0 {
        lemma_filter_all(s.drop_last(), pred);
        assert(s.drop_last().push(s.last()) =~= s);
    }
}

/// A feature as the actions panel reads it.
pub struct PanelFeature {
    pub path: Vec<String>,
    pub name: String,
    /// The feature under which this one is shown, if any.
    pub parent: Option<Vec<String>>,
    /// Listed by name only, among the other features.
    pub collapsed: bool,
    pub action: Option<ActionSummary>,
}

/// The path of a feature as texts.
pub open spec fn feature_path(f: PanelFeature) -> Seq<Seq<char>> {
    path_view(f.path)
}

/// Whether `f` is listed under the selected tags and shown under the feature with path `p`.
pub open spec fn is_child_of(tags: TagSelection, f: PanelFeature, p: Seq<Seq<char>>) -> bool {
    match f.parent {
        Some(pp) => path_view(pp) == p && spec_is_relevant(tags, f.action),
        None => false,
    }
}

/// Whether `f` is listed under the selected tags and shown under some display parent.
pub open spec fn under_a_parent(tags: TagSelection, f: PanelFeature) -> bool {
    f.parent is Some && spec_is_relevant(tags, f.action)
}

/// Whether some feature of `fs` is listed under the selected tags and shown under `p`.
pub open spec fn has_relevant_child(tags: TagSelection, fs: Seq<PanelFeature>, p: Seq<Seq<char>>) -> bool {
    exists|j: int| 0 <= j < fs.len() && is_child_of(tags, #[trigger] fs[j], p)
}

/// Whether a feature is listed at the top of the panel: it has no display parent, and it is
/// not collapsed or features listed under the selected tags are shown under it.
pub open spec fn at_root(tags: TagSelection, fs: Seq<PanelFeature>, f: PanelFeature) -> bool {
    f.parent is None && (!f.collapsed || has_relevant_child(tags, fs, feature_path(f)))
}

/// Whether a feature is listed among the other features, by name only.
pub open spec fn stays_collapsed(tags: TagSelection, fs: Seq<PanelFeature>, f: PanelFeature) -> bool {
    f.parent is None && f.collapsed && !has_relevant_child(tags, fs, feature_path(f))
}

/// Whether an entry shows a feature: same path, name and action, listed as the tags say.
pub open spec fn shows(tags: TagSelection, e: FeatureEntry, f: PanelFeature) -> bool {
    &&& entry_path(e) == feature_path(f)
    &&& e.name@ == f.name@
    &&& e.action == f.action
    &&& e.is_relevant == spec_is_relevant(tags, f.action)
}

/// Whether no two features share a path.
pub open spec fn distinct_paths(fs: Seq<PanelFeature>) -> bool {
    forall|i: int, j: int| 0 <= i < j < fs.len() ==> feature_path(fs[i]) != feature_path(fs[j])
}

/// Whether a group holds nothing.
pub open spec fn holds_nothing(g: FeatureDisplayGroup) -> bool {
    g.wf() && g.paths().len() == 0 && forall|q: Seq<Seq<char>>| !g.has(q)
}

/// The entry for a feature, with no children yet.
fn entry_for(f: PanelFeature, tags: TagSelection) -> (r: (Option<Vec<String>>, bool, FeatureEntry))
    ensures
        r.0 == f.parent,
        r.1 == f.collapsed,
        shows(tags, r.2, f),
        holds_nothing(r.2.children),
{
    let is_relevant = is_relevant(tags, f.action);
    let PanelFeature { path, name, parent, collapsed, action } = f;
    (parent, collapsed, FeatureEntry { path, name, action, is_relevant, children: FeatureDisplayGroup::new() })
}

/// Sorts features into the top-level list and the collapsed list, and sets aside those
/// listed under a display parent (with the parent's path and their place in the input).
fn gather(features: Vec<PanelFeature>, tags: TagSelection)
    -> (r: (FeatureDisplayGroup, FeatureDisplayGroup, Vec<(Vec<String>, FeatureEntry)>, Ghost<Seq<int>>))
    ensures
        r.0.wf(),
        r.1.wf(),
        r.0.children_wf(),
        r.1.children_wf(),
        r.3@.len() == r.2@.len(),
        forall|a: int| 0 <= a < r.2@.len() ==> {
            let j = #[trigger] r.3@[a];
            &&& 0 <= j < features@.len()
            &&& is_child_of(tags, features@[j], path_view(r.2@[a].0))
            &&& shows(tags, r.2@[a].1, features@[j])
            &&& holds_nothing(r.2@[a].1.children)
        },
        forall|a: int, b: int| 0 <= a < b < r.3@.len() ==> r.3@[a] < r.3@[b],
        forall|j: int| 0 <= j < features@.len() && under_a_parent(tags, #[trigger] features@[j])
            ==> exists|a: int| 0 <= a < r.3@.len() && #[trigger] r.3@[a] == j,
        distinct_paths(features@) ==> {
            &&& r.0.sorted()
            &&& r.1.sorted()
            &&& forall|p: Seq<Seq<char>>| #[trigger] r.0.has(p) == exists|i: int| 0 <= i < features@.len()
                && features@[i].parent is None && !features@[i].collapsed && feature_path(#[trigger] features@[i]) == p
            &&& forall|p: Seq<Seq<char>>| #[trigger] r.1.has(p) == exists|i: int| 0 <= i < features@.len()
                && features@[i].parent is None && features@[i].collapsed && feature_path(#[trigger] features@[i]) == p
            &&& forall|i: int| 0 <= i < features@.len() && features@[i].parent is None && !features@[i].collapsed
                ==> shows(tags, r.0.get(feature_path(#[trigger] features@[i])), features@[i])
                    && holds_nothing(r.0.get(feature_path(features@[i])).children)
            &&& forall|i: int| 0 <= i < features@.len() && features@[i].parent is None && features@[i].collapsed
                ==> shows(tags, r.1.get(feature_path(#[trigger] features@[i])), features@[i])
                    && holds_nothing(r.1.get(feature_path(features@[i])).children)
        },
{
    let ghost fs = features@;
    let n = features.len();
    let mut rest = features;
    let mut root = FeatureDisplayGroup::new();
    let mut collapsed = FeatureDisplayGroup::new();
    let mut pending: Vec<(Vec<String>, FeatureEntry)> = Vec::new();
    let ghost mut pidx: Seq<int> = Seq::empty();
    let mut k: usize = 0;
    assert(fs.skip(0) =~= fs);
    while rest.len() > 0
        invariant
            k <= fs.len(),
            n == fs.len(),
            rest@ == fs.skip(k as int),
            root.wf(),
            collapsed.wf(),
            root.children_wf(),
            collapsed.children_wf(),
            pidx.len() == pending@.len(),
            forall|a: int| 0 <= a < pending@.len() ==> {
                let j = #[trigger] pidx[a];
                &&& 0 <= j < k
                &&& is_child_of(tags, fs[j], path_view(pending@[a].0))
                &&& shows(tags, pending@[a].1, fs[j])
                &&& holds_nothing(pending@[a].1.children)
            },
            forall|a: int, b: int| 0 <= a < b < pidx.len() ==> pidx[a] < pidx[b],
            forall|j: int| 0 <= j < k && under_a_parent(tags, #[trigger] fs[j])
                ==> exists|a: int| 0 <= a < pidx.len() && #[trigger] pidx[a] == j,
            distinct_paths(fs) ==> {
                &&& root.sorted()
                &&& collapsed.sorted()
                &&& forall|p: Seq<Seq<char>>| #[trigger] root.has(p) == exists|i: int| 0 <= i < k
                    && fs[i].parent is None && !fs[i].collapsed && feature_path(#[trigger] fs[i]) == p
                &&& forall|p: Seq<Seq<char>>| #[trigger] collapsed.has(p) == exists|i: int| 0 <= i < k
                    && fs[i].parent is None && fs[i].collapsed && feature_path(#[trigger] fs[i]) == p
                &&& forall|i: int| 0 <= i < k && fs[i].parent is None && !fs[i].collapsed
                    ==> shows(tags, root.get(feature_path(#[trigger] fs[i])), fs[i])
                        && holds_nothing(root.get(feature_path(fs[i])).children)
                &&& forall|i: int| 0 <= i < k && fs[i].parent is None && fs[i].collapsed
                    ==> shows(tags, collapsed.get(feature_path(#[trigger] fs[i])), fs[i])
                        && holds_nothing(collapsed.get(feature_path(fs[i])).children)
            },
        decreases fs.len() - k,
    {
        let f = rest.remove(0);
        assert(f == fs[k as int]);
        assert(rest@ =~= fs.skip(k as int + 1));
        let ghost fk = fs[k as int];
        let (parent, is_collapsed, entry) = entry_for(f, tags);
        let ghost e = entry;
        match parent {
            Some(pp) => {
                if entry.is_relevant {
                    let ghost old_pending = pending@;
                    pending.push((pp, entry));
                    proof {
                        let old_pidx = pidx;
                        pidx = pidx.push(k as int);
                        assert(fk.parent == Some(pp));
                        assert(pending@ =~= old_pending.push((pp, e)));
                        assert forall|a: int| 0 <= a < pending@.len() implies {
                            let j = #[trigger] pidx[a];
                            &&& 0 <= j < k + 1
                            &&& is_child_of(tags, fs[j], path_view(pending@[a].0))
                            &&& shows(tags, pending@[a].1, fs[j])
                            &&& holds_nothing(pending@[a].1.children)
                        } by {
                            if a < old_pending.len() {
                                assert(pidx[a] == old_pidx[a]);
                                assert(pending@[a] == old_pending[a]);
                            }
                        }
                        assert forall|j: int| 0 <= j < k + 1 && under_a_parent(tags, #[trigger] fs[j])
                            implies exists|a: int| 0 <= a < pidx.len() && #[trigger] pidx[a] == j by {
                            if j == k {
                                assert(pidx[pidx.len() - 1] == j);
                            } else {
                                let a = choose|a: int| 0 <= a < old_pidx.len() && #[trigger] old_pidx[a] == j;
                                assert(pidx[a] == j);
                            }
                        }
                    }
                } else {
                    proof {
                        assert forall|j: int| 0 <= j < k + 1 && under_a_parent(tags, #[trigger] fs[j])
                            implies exists|a: int| 0 <= a < pidx.len() && #[trigger] pidx[a] == j by {
                            if j == k {
                                assert(!spec_is_relevant(tags, fk.action));
                            }
                        }
                    }
                }
                proof {
                    if distinct_paths(fs) {
                        assert forall|q: Seq<Seq<char>>| #[trigger] root.has(q) == exists|i: int| 0 <= i < k + 1
                            && fs[i].parent is None && !fs[i].collapsed && feature_path(#[trigger] fs[i]) == q by {
                            if exists|i: int| 0 <= i < k + 1 && fs[i].parent is None && !fs[i].collapsed && feature_path(#[trigger] fs[i]) == q {
                                let i = choose|i: int| 0 <= i < k + 1 && fs[i].parent is None && !fs[i].collapsed && feature_path(#[trigger] fs[i]) == q;
                                assert(i != k);
                            }
                        }
                        assert forall|q: Seq<Seq<char>>| #[trigger] collapsed.has(q) == exists|i: int| 0 <= i < k + 1
                            && fs[i].parent is None && fs[i].collapsed && feature_path(#[trigger] fs[i]) == q by {
                            if exists|i: int| 0 <= i < k + 1 && fs[i].parent is None && fs[i].collapsed && feature_path(#[trigger] fs[i]) == q {
                                let i = choose|i: int| 0 <= i < k + 1 && fs[i].parent is None && fs[i].collapsed && feature_path(#[trigger] fs[i]) == q;
                                assert(i != k);
                            }
                        }
                    }
                }
            },
            None => {
                if is_collapsed {
                    let ghost before = collapsed;
                    collapsed.insert(entry);
                    proof {
                        if distinct_paths(fs) {
                            assert(!before.has(feature_path(fk))) by {
                                if before.has(feature_path(fk)) {
                                    let i = choose|i: int| 0 <= i < k && fs[i].parent is None && fs[i].collapsed && feature_path(#[trigger] fs[i]) == feature_path(fk);
                                    assert(feature_path(fs[i]) != feature_path(fs[k as int]));
                                }
                            }
                            assert forall|q: Seq<Seq<char>>| #[trigger] collapsed.has(q) == exists|i: int| 0 <= i < k + 1
                                && fs[i].parent is None && fs[i].collapsed && feature_path(#[trigger] fs[i]) == q by {
                                if q == feature_path(fk) {
                                    assert(fs[k as int].parent is None && fs[k as int].collapsed && feature_path(fs[k as int]) == q);
                                }
                                if exists|i: int| 0 <= i < k + 1 && fs[i].parent is None && fs[i].collapsed && feature_path(#[trigger] fs[i]) == q {
                                    let i = choose|i: int| 0 <= i < k + 1 && fs[i].parent is None && fs[i].collapsed && feature_path(#[trigger] fs[i]) == q;
                                    if i < k {
                                        assert(before.has(q));
                                    }
                                }
                            }
                            assert forall|q: Seq<Seq<char>>| #[trigger] root.has(q) == exists|i: int| 0 <= i < k + 1
                                && fs[i].parent is None && !fs[i].collapsed && feature_path(#[trigger] fs[i]) == q by {
                                if exists|i: int| 0 <= i < k + 1 && fs[i].parent is None && !fs[i].collapsed && feature_path(#[trigger] fs[i]) == q {
                                    let i = choose|i: int| 0 <= i < k + 1 && fs[i].parent is None && !fs[i].collapsed && feature_path(#[trigger] fs[i]) == q;
                                    assert(i != k);
                                }
                            }
                            assert forall|i: int| 0 <= i < k + 1 && fs[i].parent is None && fs[i].collapsed
                                implies shows(tags, collapsed.get(feature_path(#[trigger] fs[i])), fs[i])
                                    && holds_nothing(collapsed.get(feature_path(fs[i])).children) by {
                                if i < k {
                                    assert(feature_path(fs[i]) != feature_path(fs[k as int]));
                                    assert(before.has(feature_path(fs[i])));
                                }
                            }
                        }
                        assert forall|j: int| 0 <= j < k + 1 && under_a_parent(tags, #[trigger] fs[j])
                            implies exists|a: int| 0 <= a < pidx.len() && #[trigger] pidx[a] == j by {
                            assert(j != k);
                        }
                    }
                } else {
                    let ghost before = root;
                    root.insert(entry);
                    proof {
                        if distinct_paths(fs) {
                            assert(!before.has(feature_path(fk))) by {
                                if before.has(feature_path(fk)) {
                                    let i = choose|i: int| 0 <= i < k && fs[i].parent is None && !fs[i].collapsed && feature_path(#[trigger] fs[i]) == feature_path(fk);
                                    assert(feature_path(fs[i]) != feature_path(fs[k as int]));
                                }
                            }
                            assert forall|q: Seq<Seq<char>>| #[trigger] root.has(q) == exists|i: int| 0 <= i < k + 1
                                && fs[i].parent is None && !fs[i].collapsed && feature_path(#[trigger] fs[i]) == q by {
                                if q == feature_path(fk) {
                                    assert(fs[k as int].parent is None && !fs[k as int].collapsed && feature_path(fs[k as int]) == q);
                                }
                                if exists|i: int| 0 <= i < k + 1 && fs[i].parent is None && !fs[i].collapsed && feature_path(#[trigger] fs[i]) == q {
                                    let i = choose|i: int| 0 <= i < k + 1 && fs[i].parent is None && !fs[i].collapsed && feature_path(#[trigger] fs[i]) == q;
                                    if i < k {
                                        assert(before.has(q));
                                    }
                                }
                            }
                            assert forall|q: Seq<Seq<char>>| #[trigger] collapsed.has(q) == exists|i: int| 0 <= i < k + 1
                                && fs[i].parent is None && fs[i].collapsed && feature_path(#[trigger] fs[i]) == q by {
                                if exists|i: int| 0 <= i < k + 1 && fs[i].parent is None && fs[i].collapsed && feature_path(#[trigger] fs[i]) == q {
                                    let i = choose|i: int| 0 <= i < k + 1 && fs[i].parent is None && fs[i].collapsed && feature_path(#[trigger] fs[i]) == q;
                                    assert(i != k);
                                }
                            }
                            assert forall|i: int| 0 <= i < k + 1 && fs[i].parent is None && !fs[i].collapsed
                                implies shows(tags, root.get(feature_path(#[trigger] fs[i])), fs[i])
                                    && holds_nothing(root.get(feature_path(fs[i])).children) by {
                                if i < k {
                                    assert(feature_path(fs[i]) != feature_path(fs[k as int]));
                                    assert(before.has(feature_path(fs[i])));
                                }
                            }
                        }
                        assert forall|j: int| 0 <= j < k + 1 && under_a_parent(tags, #[trigger] fs[j])
                            implies exists|a: int| 0 <= a < pidx.len() && #[trigger] pidx[a] == j by {
                            assert(j != k);
                        }
                    }
                }
            },
        }
        k = k + 1;
    }
    assert(k == fs.len());
    let r = (root, collapsed, pending, Ghost(pidx));
    assert forall|j: int| 0 <= j < fs.len() && under_a_parent(tags, #[trigger] fs[j])
        implies exists|a: int| 0 <= a < r.3@.len() && #[trigger] r.3@[a] == j by {
        let a = choose|a: int| 0 <= a < pidx.len() && #[trigger] pidx[a] == j;
        assert(r.3@[a] == j);
    }
    r
}

/// Whether one of the first `m` features set aside names `p` as its display parent.
pub open spec fn claimed(pend: Seq<(Vec<String>, FeatureEntry)>, m: int, p: Seq<Seq<char>>) -> bool {
    exists|a: int| 0 <= a < m && path_view((#[trigger] pend[a]).0) == p
}

/// Whether the children of the entry `e` are the first `m` features set aside under `p`.
pub open spec fn children_so_far(e: FeatureEntry, pend: Seq<(Vec<String>, FeatureEntry)>, m: int, p: Seq<Seq<char>>) -> bool {
    &&& e.children.sorted()
    &&& forall|q: Seq<Seq<char>>| #[trigger] e.children.has(q) == exists|a: int| 0 <= a < m
        && path_view((#[trigger] pend[a]).0) == p && entry_path(pend[a].1) == q
    &&& forall|a: int| 0 <= a < m && path_view((#[trigger] pend[a]).0) == p
        ==> e.children.get(entry_path(pend[a].1)) == pend[a].1
}

/// The features set aside under a display parent, with their places in the input: each is
/// listed under the selected tags and shown under the named parent; every such feature is
/// there, in input order.
pub open spec fn set_aside(tags: TagSelection, fs: Seq<PanelFeature>, pend: Seq<(Vec<String>, FeatureEntry)>, pidx: Seq<int>) -> bool {
    &&& pidx.len() == pend.len()
    &&& forall|a: int| 0 <= a < pend.len() ==> {
        let j = #[trigger] pidx[a];
        &&& 0 <= j < fs.len()
        &&& is_child_of(tags, fs[j], path_view(pend[a].0))
        &&& shows(tags, pend[a].1, fs[j])
        &&& holds_nothing(pend[a].1.children)
    }
    &&& forall|a: int, b: int| 0 <= a < b < pidx.len() ==> pidx[a] < pidx[b]
    &&& forall|j: int| 0 <= j < fs.len() && under_a_parent(tags, #[trigger] fs[j])
        ==> exists|a: int| 0 <= a < pidx.len() && #[trigger] pidx[a] == j
}

/// The two lists after the first `m` features set aside were attached to their parents.
pub open spec fn grouped_so_far(
    tags: TagSelection, fs: Seq<PanelFeature>, pend: Seq<(Vec<String>, FeatureEntry)>, m: int,
    root: FeatureDisplayGroup, collapsed: FeatureDisplayGroup,
) -> bool {
    &&& root.sorted()
    &&& collapsed.sorted()
    &&& forall|p: Seq<Seq<char>>| #[trigger] root.has(p) == exists|i: int| 0 <= i < fs.len()
        && fs[i].parent is None && feature_path(#[trigger] fs[i]) == p
        && (!fs[i].collapsed || claimed(pend, m, p))
    &&& forall|p: Seq<Seq<char>>| #[trigger] collapsed.has(p) == exists|i: int| 0 <= i < fs.len()
        && fs[i].parent is None && feature_path(#[trigger] fs[i]) == p
        && fs[i].collapsed && !claimed(pend, m, p)
    &&& forall|i: int| 0 <= i < fs.len() && fs[i].parent is None
        && (!fs[i].collapsed || claimed(pend, m, feature_path(fs[i])))
        ==> shows(tags, root.get(feature_path(#[trigger] fs[i])), fs[i])
            && children_so_far(root.get(feature_path(fs[i])), pend, m, feature_path(fs[i]))
    &&& forall|i: int| 0 <= i < fs.len() && fs[i].parent is None && fs[i].collapsed
        && !claimed(pend, m, feature_path(fs[i]))
        ==> shows(tags, collapsed.get(feature_path(#[trigger] fs[i])), fs[i])
            && holds_nothing(collapsed.get(feature_path(fs[i])).children)
}

/// How the actions panel lists the features `fs`: the top-level list holds the features
/// listed at the top, the collapsed list those that stay collapsed, both sorted; each entry
/// shows its feature, and a top-level entry's children are exactly the features listed under
/// it (sorted, each showing its feature, without children of their own).
pub open spec fn grouped(tags: TagSelection, fs: Seq<PanelFeature>, root: FeatureDisplayGroup, collapsed: FeatureDisplayGroup) -> bool {
    &&& root.sorted()
    &&& collapsed.sorted()
    &&& forall|p: Seq<Seq<char>>| #[trigger] root.has(p) == exists|i: int| 0 <= i < fs.len()
        && at_root(tags, fs, fs[i]) && feature_path(#[trigger] fs[i]) == p
    &&& forall|p: Seq<Seq<char>>| #[trigger] collapsed.has(p) == exists|i: int| 0 <= i < fs.len()
        && stays_collapsed(tags, fs, fs[i]) && feature_path(#[trigger] fs[i]) == p
    &&& forall|i: int| 0 <= i < fs.len() && at_root(tags, fs, #[trigger] fs[i]) ==> {
        let e = root.get(feature_path(fs[i]));
        &&& shows(tags, e, fs[i])
        &&& e.children.sorted()
        &&& forall|q: Seq<Seq<char>>| #[trigger] e.children.has(q) == exists|j: int| 0 <= j < fs.len()
            && is_child_of(tags, fs[j], feature_path(fs[i])) && feature_path(#[trigger] fs[j]) == q
        &&& forall|j: int| 0 <= j < fs.len() && is_child_of(tags, #[trigger] fs[j], feature_path(fs[i]))
            ==> shows(tags, e.children.get(feature_path(fs[j])), fs[j])
                && holds_nothing(e.children.get(feature_path(fs[j])).children)
    }
    &&& forall|i: int| 0 <= i < fs.len() && stays_collapsed(tags, fs, #[trigger] fs[i])
        ==> shows(tags, collapsed.get(feature_path(fs[i])), fs[i])
            && holds_nothing(collapsed.get(feature_path(fs[i])).children)
}

/// One step of attaching a set-aside feature: its collapsed parent (if any) moves to the
/// top-level list, and it joins the children of its parent there.
proof fn lemma_group_step(
    tags: TagSelection, fs: Seq<PanelFeature>, pend: Seq<(Vec<String>, FeatureEntry)>, pidx: Seq<int>, m: int,
    pp: Seq<Seq<char>>, ep: Seq<Seq<char>>,
    collapsed0: FeatureDisplayGroup, collapsed: FeatureDisplayGroup,
    root0: FeatureDisplayGroup, root2: FeatureDisplayGroup, root: FeatureDisplayGroup,
    moved: Option<FeatureEntry>, attached: bool,
)
    requires
        distinct_paths(fs),
        set_aside(tags, fs, pend, pidx),
        0 <= m < pend.len(),
        pp == path_view(pend[m].0),
        ep == entry_path(pend[m].1),
        forall|a: int| 0 <= a < m ==> entry_path((#[trigger] pend[a]).1) != ep,
        forall|p: Seq<Seq<char>>| #[trigger] claimed(pend, m + 1, p) == (claimed(pend, m, p) || p == pp),
        grouped_so_far(tags, fs, pend, m, root0, collapsed0),
        root0.wf(),
        collapsed0.wf(),
        moved == (if collapsed0.has(pp) { Some(collapsed0.get(pp)) } else { None::<FeatureEntry> }),
        forall|q: Seq<Seq<char>>| #[trigger] collapsed.has(q) == (collapsed0.has(q) && q != pp),
        forall|q: Seq<Seq<char>>| q != pp && collapsed0.has(q) ==> #[trigger] collapsed.get(q) == collapsed0.get(q),
        collapsed0.sorted() ==> collapsed.sorted(),
        match moved {
            Some(e) => inserted(root0, root2, e),
            None => root2 == root0,
        },
        attached == root2.has(pp),
        root.paths() == root2.paths(),
        forall|q: Seq<Seq<char>>| #[trigger] root.has(q) == root2.has(q),
        forall|q: Seq<Seq<char>>| q != pp && root2.has(q) ==> #[trigger] root.get(q) == root2.get(q),
        attached ==> ({
            let before = root2.get(pp);
            let after = root.get(pp);
            &&& after.path == before.path
            &&& after.name == before.name
            &&& after.action == before.action
            &&& after.is_relevant == before.is_relevant
            &&& inserted(before.children, after.children, pend[m].1)
        }),
        !attached ==> root == root2,
    ensures
        grouped_so_far(tags, fs, pend, m + 1, root, collapsed),
{
    let mc = m + 1;
    // which top-level feature the parent path names, if any
    assert(moved is Some ==> !root0.has(pp)) by {
        if moved is Some && root0.has(pp) {
            let i = choose|i: int| 0 <= i < fs.len() && fs[i].parent is None && feature_path(#[trigger] fs[i]) == pp
                && fs[i].collapsed && !claimed(pend, m, pp);
            let i2 = choose|i2: int| 0 <= i2 < fs.len() && fs[i2].parent is None && feature_path(#[trigger] fs[i2]) == pp
                && (!fs[i2].collapsed || claimed(pend, m, pp));
            if i != i2 {
                if i < i2 { assert(feature_path(fs[i]) != feature_path(fs[i2])); }
                else { assert(feature_path(fs[i2]) != feature_path(fs[i])); }
            }
        }
    }
    assert(root2.sorted());
    assert(forall|q: Seq<Seq<char>>| #[trigger] root2.has(q) == (root0.has(q) || (moved is Some && q == pp)));
    assert(forall|q: Seq<Seq<char>>| root0.has(q) && !(moved is Some && q == pp) ==> #[trigger] root2.get(q) == root0.get(q));
    // names are unchanged by attaching a child, so the order is kept
    assert forall|q: Seq<Seq<char>>| root2.has(q) implies #[trigger] root.get(q).name == root2.get(q).name by {}
    assert(root.paths() == root2.paths());
    assert forall|a: int, b: int| 0 <= a < b < root.paths().len()
        implies root.before(root.paths()[a], root.get(root.paths()[b]).name@, root.paths()[b]) by {
        assert(root2.has(root2.paths()[a]));
        assert(root2.has(root2.paths()[b]));
        assert(root2.before(root2.paths()[a], root2.get(root2.paths()[b]).name@, root2.paths()[b]));
    }
    assert(root.sorted());
    // what the top-level list holds
    assert forall|p: Seq<Seq<char>>| #[trigger] root.has(p) == exists|i: int| 0 <= i < fs.len()
        && fs[i].parent is None && feature_path(#[trigger] fs[i]) == p
        && (!fs[i].collapsed || claimed(pend, mc, p)) by {
        assert(root.has(p) == root2.has(p));
        if p == pp {
            if root.has(p) {
                if root0.has(p) {
                    let i = choose|i: int| 0 <= i < fs.len() && fs[i].parent is None && feature_path(#[trigger] fs[i]) == p
                        && (!fs[i].collapsed || claimed(pend, m, p));
                    assert(claimed(pend, mc, p));
                } else {
                    assert(collapsed0.has(pp));
                    let i = choose|i: int| 0 <= i < fs.len() && fs[i].parent is None && feature_path(#[trigger] fs[i]) == p
                        && fs[i].collapsed && !claimed(pend, m, p);
                    assert(claimed(pend, mc, p));
                }
            }
            if exists|i: int| 0 <= i < fs.len() && fs[i].parent is None && feature_path(#[trigger] fs[i]) == p
                && (!fs[i].collapsed || claimed(pend, mc, p)) {
                let i = choose|i: int| 0 <= i < fs.len() && fs[i].parent is None && feature_path(#[trigger] fs[i]) == p
                    && (!fs[i].collapsed || claimed(pend, mc, p));
                if !fs[i].collapsed || claimed(pend, m, p) {
                    assert(root0.has(p));
                } else {
                    assert(collapsed0.has(p));
                }
            }
        } else {
            assert(claimed(pend, mc, p) == claimed(pend, m, p));
        }
    }
    // what the collapsed list holds
    assert forall|p: Seq<Seq<char>>| #[trigger] collapsed.has(p) == exists|i: int| 0 <= i < fs.len()
        && fs[i].parent is None && feature_path(#[trigger] fs[i]) == p
        && fs[i].collapsed && !claimed(pend, mc, p) by {
        assert(claimed(pend, mc, p) == (claimed(pend, m, p) || p == pp));
    }
    // the entries of the collapsed list
    assert forall|i: int| 0 <= i < fs.len() && fs[i].parent is None && fs[i].collapsed
        && !claimed(pend, mc, feature_path(fs[i]))
        implies shows(tags, collapsed.get(feature_path(#[trigger] fs[i])), fs[i])
            && holds_nothing(collapsed.get(feature_path(fs[i])).children) by {
        let p = feature_path(fs[i]);
        assert(claimed(pend, mc, p) == (claimed(pend, m, p) || p == pp));
        assert(collapsed0.has(p));
    }
    // the entries of the top-level list and their children
    assert forall|i: int| 0 <= i < fs.len() && fs[i].parent is None
        && (!fs[i].collapsed || claimed(pend, mc, feature_path(fs[i])))
        implies shows(tags, root.get(feature_path(#[trigger] fs[i])), fs[i])
            && children_so_far(root.get(feature_path(fs[i])), pend, mc, feature_path(fs[i])) by {
        let p = feature_path(fs[i]);
        assert(claimed(pend, mc, p) == (claimed(pend, m, p) || p == pp));
        if p != pp {
            assert(root0.has(p));
            assert(root.get(p) == root0.get(p));
            let e = root0.get(p);
            assert forall|q: Seq<Seq<char>>| #[trigger] e.children.has(q) == exists|a: int| 0 <= a < mc
                && path_view((#[trigger] pend[a]).0) == p && entry_path(pend[a].1) == q by {
                if exists|a: int| 0 <= a < mc && path_view((#[trigger] pend[a]).0) == p && entry_path(pend[a].1) == q {
                    let a = choose|a: int| 0 <= a < mc && path_view((#[trigger] pend[a]).0) == p && entry_path(pend[a].1) == q;
                    assert(a != m);
                }
            }
        } else {
            let e2 = root2.get(pp);
            assert(root2.has(pp));
            assert(attached);
            let e = root.get(pp);
            if moved is Some {
                assert(collapsed0.has(pp));
                let i0 = choose|i0: int| 0 <= i0 < fs.len() && fs[i0].parent is None && feature_path(#[trigger] fs[i0]) == pp
                    && fs[i0].collapsed && !claimed(pend, m, pp);
                if i0 != i {
                    if i0 < i { assert(feature_path(fs[i0]) != feature_path(fs[i])); }
                    else { assert(feature_path(fs[i]) != feature_path(fs[i0])); }
                }
                assert(e2 == collapsed0.get(pp));
                assert(holds_nothing(e2.children));
                assert(e2.children.sorted());
                assert forall|q: Seq<Seq<char>>| #[trigger] e.children.has(q) == exists|a: int| 0 <= a < mc
                    && path_view((#[trigger] pend[a]).0) == pp && entry_path(pend[a].1) == q by {
                    if q == ep {
                        assert(path_view(pend[m].0) == pp && entry_path(pend[m].1) == q);
                    }
                    if exists|a: int| 0 <= a < mc && path_view((#[trigger] pend[a]).0) == pp && entry_path(pend[a].1) == q {
                        let a = choose|a: int| 0 <= a < mc && path_view((#[trigger] pend[a]).0) == pp && entry_path(pend[a].1) == q;
                        if a < m {
                            assert(claimed(pend, m, pp));
                        }
                    }
                }
                assert forall|a: int| 0 <= a < mc && path_view((#[trigger] pend[a]).0) == pp
                    implies e.children.get(entry_path(pend[a].1)) == pend[a].1 by {
                    if a < m {
                        assert(claimed(pend, m, pp));
                    }
                }
            } else {
                assert(root0.has(pp)) by {
                    if !fs[i].collapsed {
                    } else if !claimed(pend, m, pp) {
                        assert(collapsed0.has(pp));
                    }
                }
                assert(e2 == root0.get(pp));
                assert(children_so_far(e2, pend, m, pp));
                assert(!e2.children.has(ep));
                assert forall|q: Seq<Seq<char>>| #[trigger] e.children.has(q) == exists|a: int| 0 <= a < mc
                    && path_view((#[trigger] pend[a]).0) == pp && entry_path(pend[a].1) == q by {
                    if q == ep {
                        assert(path_view(pend[m].0) == pp && entry_path(pend[m].1) == q);
                    }
                    if exists|a: int| 0 <= a < mc && path_view((#[trigger] pend[a]).0) == pp && entry_path(pend[a].1) == q {
                        let a = choose|a: int| 0 <= a < mc && path_view((#[trigger] pend[a]).0) == pp && entry_path(pend[a].1) == q;
                        if a < m {
                            assert(e2.children.has(q));
                        }
                    }
                    if e2.children.has(q) {
                        let a = choose|a: int| 0 <= a < m && path_view((#[trigger] pend[a]).0) == pp && entry_path(pend[a].1) == q;
                        assert(0 <= a < mc);
                    }
                }
                assert forall|a: int| 0 <= a < mc && path_view((#[trigger] pend[a]).0) == pp
                    implies e.children.get(entry_path(pend[a].1)) == pend[a].1 by {
                    if a < m {
                        assert(e2.children.has(entry_path(pend[a].1)));
                        assert(entry_path(pend[a].1) != ep);
                    }
                }
            }
        }
    }
}

/// Once every set-aside feature is attached, the lists are as the panel shows them.
proof fn lemma_group_final(
    tags: TagSelection, fs: Seq<PanelFeature>, pend: Seq<(Vec<String>, FeatureEntry)>, pidx: Seq<int>,
    root: FeatureDisplayGroup, collapsed: FeatureDisplayGroup,
)
    requires
        distinct_paths(fs),
        set_aside(tags, fs, pend, pidx),
        grouped_so_far(tags, fs, pend, pend.len() as int, root, collapsed),
    ensures
        grouped(tags, fs, root, collapsed),
{
            // a parent is named by a feature set aside exactly when it has a relevant child
    assert forall|p: Seq<Seq<char>>| #[trigger] claimed(pend, pend.len() as int, p) == has_relevant_child(tags, fs, p) by {
        if claimed(pend, pend.len() as int, p) {
            let a = choose|a: int| 0 <= a < pend.len() && path_view((#[trigger] pend[a]).0) == p;
            let j = pidx[a];
            assert(is_child_of(tags, fs[j], p));
        }
        if has_relevant_child(tags, fs, p) {
            let j = choose|j: int| 0 <= j < fs.len() && is_child_of(tags, #[trigger] fs[j], p);
            assert(under_a_parent(tags, fs[j]));
            let a = choose|a: int| 0 <= a < pidx.len() && #[trigger] pidx[a] == j;
            assert(is_child_of(tags, fs[j], path_view(pend[a].0)));
            assert(path_view(pend[a].0) == p);
        }
    }
    assert forall|p: Seq<Seq<char>>| #[trigger] root.has(p) == exists|i: int| 0 <= i < fs.len()
        && at_root(tags, fs, fs[i]) && feature_path(#[trigger] fs[i]) == p by {
        if root.has(p) {
            let i = choose|i: int| 0 <= i < fs.len() && fs[i].parent is None && feature_path(#[trigger] fs[i]) == p
                && (!fs[i].collapsed || claimed(pend, pend.len() as int, p));
            assert(at_root(tags, fs, fs[i]));
        }
        if exists|i: int| 0 <= i < fs.len() && at_root(tags, fs, fs[i]) && feature_path(#[trigger] fs[i]) == p {
            let i = choose|i: int| 0 <= i < fs.len() && at_root(tags, fs, fs[i]) && feature_path(#[trigger] fs[i]) == p;
            assert(claimed(pend, pend.len() as int, p) == has_relevant_child(tags, fs, p));
        }
    }
    assert forall|p: Seq<Seq<char>>| #[trigger] collapsed.has(p) == exists|i: int| 0 <= i < fs.len()
        && stays_collapsed(tags, fs, fs[i]) && feature_path(#[trigger] fs[i]) == p by {
        if collapsed.has(p) {
            let i = choose|i: int| 0 <= i < fs.len() && fs[i].parent is None && feature_path(#[trigger] fs[i]) == p
                && fs[i].collapsed && !claimed(pend, pend.len() as int, p);
            assert(stays_collapsed(tags, fs, fs[i]));
        }
        if exists|i: int| 0 <= i < fs.len() && stays_collapsed(tags, fs, fs[i]) && feature_path(#[trigger] fs[i]) == p {
            let i = choose|i: int| 0 <= i < fs.len() && stays_collapsed(tags, fs, fs[i]) && feature_path(#[trigger] fs[i]) == p;
            assert(claimed(pend, pend.len() as int, p) == has_relevant_child(tags, fs, p));
        }
    }
    assert forall|i: int| 0 <= i < fs.len() && stays_collapsed(tags, fs, #[trigger] fs[i])
        implies shows(tags, collapsed.get(feature_path(fs[i])), fs[i])
            && holds_nothing(collapsed.get(feature_path(fs[i])).children) by {
        assert(claimed(pend, pend.len() as int, feature_path(fs[i])) == has_relevant_child(tags, fs, feature_path(fs[i])));
    }
    assert forall|i: int| 0 <= i < fs.len() && at_root(tags, fs, #[trigger] fs[i]) implies {
        let e = root.get(feature_path(fs[i]));
        &&& shows(tags, e, fs[i])
        &&& e.children.sorted()
        &&& forall|q: Seq<Seq<char>>| #[trigger] e.children.has(q) == exists|j: int| 0 <= j < fs.len()
            && is_child_of(tags, fs[j], feature_path(fs[i])) && feature_path(#[trigger] fs[j]) == q
        &&& forall|j: int| 0 <= j < fs.len() && is_child_of(tags, #[trigger] fs[j], feature_path(fs[i]))
            ==> shows(tags, e.children.get(feature_path(fs[j])), fs[j])
                && holds_nothing(e.children.get(feature_path(fs[j])).children)
    } by {
        let p = feature_path(fs[i]);
        assert(claimed(pend, pend.len() as int, p) == has_relevant_child(tags, fs, p));
        let e = root.get(p);
        assert(children_so_far(e, pend, pend.len() as int, p));
        assert forall|q: Seq<Seq<char>>| #[trigger] e.children.has(q) == exists|j: int| 0 <= j < fs.len()
            && is_child_of(tags, fs[j], p) && feature_path(#[trigger] fs[j]) == q by {
            if e.children.has(q) {
                let a = choose|a: int| 0 <= a < pend.len() && path_view((#[trigger] pend[a]).0) == p && entry_path(pend[a].1) == q;
                let j = pidx[a];
                assert(is_child_of(tags, fs[j], p) && feature_path(fs[j]) == q);
            }
            if exists|j: int| 0 <= j < fs.len() && is_child_of(tags, fs[j], p) && feature_path(#[trigger] fs[j]) == q {
                let j = choose|j: int| 0 <= j < fs.len() && is_child_of(tags, fs[j], p) && feature_path(#[trigger] fs[j]) == q;
                assert(under_a_parent(tags, fs[j]));
                let a = choose|a: int| 0 <= a < pidx.len() && #[trigger] pidx[a] == j;
                assert(is_child_of(tags, fs[j], path_view(pend[a].0)));
                assert(0 <= a < pend.len() && path_view(pend[a].0) == p && entry_path(pend[a].1) == q);
            }
        }
        assert forall|j: int| 0 <= j < fs.len() && is_child_of(tags, #[trigger] fs[j], p)
            implies shows(tags, e.children.get(feature_path(fs[j])), fs[j])
                && holds_nothing(e.children.get(feature_path(fs[j])).children) by {
            assert(under_a_parent(tags, fs[j]));
            let a = choose|a: int| 0 <= a < pidx.len() && #[trigger] pidx[a] == j;
            assert(is_child_of(tags, fs[j], path_view(pend[a].0)));
            assert(path_view(pend[a].0) == p);
            assert(e.children.get(entry_path(pend[a].1)) == pend[a].1);
        }
    }
}

/// Groups the features of the actions panel: the top-level list and the list of other
/// (collapsed) features, each alphabetical by name, then path. A feature with a display
/// parent is listed under that parent when the selected tags list it; a collapsed parent of
/// such a feature moves to the top-level list; a feature whose parent is missing is left out.
pub fn group_features(features: Vec<PanelFeature>, tags: TagSelection) -> (r: (FeatureDisplayGroup, FeatureDisplayGroup))
    ensures
        r.0.wf(),
        r.1.wf(),
        r.0.children_wf(),
        r.1.children_wf(),
        distinct_paths(features@) ==> grouped(tags, features@, r.0, r.1),
{
    let ghost fs = features@;
    let (mut root, mut collapsed, mut pending, Ghost(pidx)) = gather(features, tags);
    let ghost pend = pending@;
    let ghost distinct = distinct_paths(fs);
    let n = pending.len();
    let mut m: usize = 0;
    proof {
        assert(pend.skip(0) =~= pend);
        if distinct {
            assert forall|i: int| 0 <= i < fs.len() && fs[i].parent is None && (!fs[i].collapsed || claimed(pend, 0, feature_path(fs[i])))
                implies children_so_far(root.get(feature_path(#[trigger] fs[i])), pend, 0, feature_path(fs[i])) by {
                let e = root.get(feature_path(fs[i]));
                assert(holds_nothing(e.children));
            }
        }
    }
    while pending.len() > 0
        invariant
            n == pend.len(),
            m <= n,
            pending@ == pend.skip(m as int),
            root.wf(),
            collapsed.wf(),
            root.children_wf(),
            collapsed.children_wf(),
            distinct == distinct_paths(fs),
            set_aside(tags, fs, pend, pidx),
            distinct ==> grouped_so_far(tags, fs, pend, m as int, root, collapsed),
        decreases n - m,
    {
        let (parent, entry) = pending.remove(0);
        assert((parent, entry) == pend[m as int]);
        assert(pending@ =~= pend.skip(m as int + 1));
        let ghost pp = path_view(parent);
        let ghost ep = entry_path(entry);
        let ghost root0 = root;
        let ghost collapsed0 = collapsed;
        assert(entry.children.wf()) by {
            assert(0 <= pidx[m as int] < fs.len());
            assert(holds_nothing(pend[m as int].1.children));
        }
        let moved = collapsed.remove(&parent);
        match moved {
            Some(prev) => {
                proof {
                    let w = choose|w: int| 0 <= w < collapsed0.entries().len() && entry_path(#[trigger] collapsed0.entries()[w]) == pp;
                    collapsed0.lemma_get(w);
                    assert(prev.children.wf());
                }
                root.insert(prev);
            },
            None => {},
        }
        let ghost root2 = root;
        let attached = root.insert_child(&parent, entry);
        proof {
            let j = pidx[m as int];
            assert(is_child_of(tags, fs[j], pp));
            assert(ep == feature_path(fs[j]));
            assert forall|p: Seq<Seq<char>>| #[trigger] claimed(pend, m as int + 1, p) == (claimed(pend, m as int, p) || p == pp) by {
                if claimed(pend, m as int + 1, p) {
                    let a = choose|a: int| 0 <= a < m + 1 && path_view((#[trigger] pend[a]).0) == p;
                    if a < m {
                        assert(claimed(pend, m as int, p));
                    }
                }
                if claimed(pend, m as int, p) {
                    let a = choose|a: int| 0 <= a < m && path_view((#[trigger] pend[a]).0) == p;
                    assert(0 <= a < m + 1 && path_view(pend[a].0) == p);
                }
                if p == pp {
                    assert(path_view(pend[m as int].0) == p);
                }
            }
            if distinct {
                assert forall|a: int| 0 <= a < m implies entry_path((#[trigger] pend[a]).1) != ep by {
                    assert(pidx[a] < pidx[m as int]);
                    assert(feature_path(fs[pidx[a]]) != feature_path(fs[pidx[m as int]]));
                }
                lemma_group_step(tags, fs, pend, pidx, m as int, pp, ep, collapsed0, collapsed, root0, root2, root, moved, attached);
            }
        }
        m = m + 1;
    }
    proof {
        if distinct {
            lemma_group_final(tags, fs, pend, pidx, root, collapsed);
        }
    }
    (root, collapsed)
}

/// Whether a feature has a row in the attack table (its action makes an attack).
pub open spec fn attacks(f: PanelFeature) -> bool {
    match f.action {
        Some(a) => a.has_attack,
        None => false,
    }
}

/// Whether the row of feature `i` comes before that of feature `j` in the attack table:
/// by name, features of the same name in input order (the sort is stable).
pub open spec fn row_before(fs: Seq<PanelFeature>, i: int, j: int) -> bool {
    text_order(fs[i].name@, fs[j].name@) < 0 || (text_order(fs[i].name@, fs[j].name@) == 0 && i < j)
}

/// The rows of the attack table: the positions of the features whose action makes an attack,
/// each once, sorted by name (a stable sort, as `slice::sort_by` on the names).
pub fn attack_rows(features: &Vec<PanelFeature>) -> (r: Vec<usize>)
    ensures
        forall|a: int| 0 <= a < r@.len() ==> (#[trigger] r@[a]) < features@.len() && attacks(features@[r@[a] as int]),
        forall|i: int| 0 <= i < features@.len() && attacks(#[trigger] features@[i]) ==> r@.contains(i as usize),
        forall|a: int, b: int| 0 <= a < b < r@.len() ==> row_before(features@, r@[a] as int, r@[b] as int),
{
    let ghost fs = features@;
    let mut r: Vec<usize> = Vec::new();
    let mut i: usize = 0;
    while i < features.len()
        invariant
            fs == features@,
            i <= fs.len(),
            forall|a: int| 0 <= a < r@.len() ==> (#[trigger] r@[a]) < i && attacks(fs[r@[a] as int]),
            forall|k: int| 0 <= k < i && attacks(#[trigger] fs[k]) ==> r@.contains(k as usize),
            forall|a: int, b: int| 0 <= a < b < r@.len() ==> row_before(fs, r@[a] as int, r@[b] as int),
        decreases fs.len() - i,
    {
        let is_attack = match &features[i].action {
            Some(a) => a.has_attack,
            None => false,
        };
        if is_attack {
            // the place after every row whose name is not after this one
            let mut pos: usize = r.len();
            while pos > 0
                invariant
                    pos <= r@.len(),
                    forall|a: int| pos <= a < r@.len() ==> text_order(fs[i as int].name@, fs[#[trigger] r@[a] as int].name@) < 0,
                    forall|a: int| 0 <= a < r@.len() ==> (#[trigger] r@[a]) < i,
                    fs == features@,
                    i < fs.len(),
                ensures
                    pos <= r@.len(),
                    forall|a: int| pos <= a < r@.len() ==> text_order(fs[i as int].name@, fs[#[trigger] r@[a] as int].name@) < 0,
                    pos == 0 || text_order(fs[r@[pos - 1] as int].name@, fs[i as int].name@) <= 0,
                decreases pos,
            {
                let c = compare_text(features[r[pos - 1]].name.as_str(), features[i].name.as_str());
                match c {
                    Order::Greater => {
                        proof { lemma_text_order_basics(fs[r@[pos - 1] as int].name@, fs[i as int].name@); }
                        pos = pos - 1;
                    },
                    _ => { break; },
                }
            }
            let ghost before = r@;
            r.insert(pos, i);
            proof {
                assert(r@ =~= before.insert(pos as int, i));
                assert forall|a: int, b: int| 0 <= a < b < r@.len() implies row_before(fs, r@[a] as int, r@[b] as int) by {
                    let ia = r@[a] as int;
                    let ib = r@[b] as int;
                    if b < pos {
                        assert(row_before(fs, before[a] as int, before[b] as int));
                    } else if a > pos {
                        assert(row_before(fs, before[a - 1] as int, before[b - 1] as int));
                    } else if a < pos && b > pos {
                        assert(row_before(fs, before[a] as int, before[b - 1] as int));
                    } else if a == pos {
                        // the new row before a later one, whose name is after its own
                        assert(text_order(fs[i as int].name@, fs[before[b - 1] as int].name@) < 0);
                    } else {
                        // an earlier row before the new one
                        assert(before[a] < i);
                        let na = fs[before[a] as int].name@;
                        let np = fs[before[pos - 1] as int].name@;
                        let ni = fs[i as int].name@;
                        if a < pos - 1 {
                            assert(row_before(fs, before[a] as int, before[pos - 1] as int));
                            lemma_text_order_basics(na, np);
                            lemma_text_order_basics(np, ni);
                            lemma_text_order_transitive(na, np, ni);
                        }
                        lemma_text_order_basics(na, ni);
                    }
                }
                assert forall|k: int| 0 <= k < i + 1 && attacks(#[trigger] fs[k]) implies r@.contains(k as usize) by {
                    if k == i {
                        assert(r@[pos as int] == i);
                    } else {
                        let w = choose|w: int| 0 <= w < before.len() && before[w] == k as usize;
                        if w < pos {
                            assert(r@[w] == k as usize);
                        } else {
                            assert(r@[w + 1] == k as usize);
                        }
                    }
                }
            }
        } else {
            proof {
                assert forall|k: int| 0 <= k < i + 1 && attacks(#[trigger] fs[k]) implies r@.contains(k as usize) by {
                    assert(k != i);
                }
            }
        }
        i = i + 1;
    }
    r
}

/// Whether a feature is named as its display parent's last path component, in which case
/// the details leave its title out.
pub fn same_name_as_parent(parent: Option<&Vec<String>>, name: &str) -> (r: bool)
    ensures
        r == match parent {
            Some(p) => p@.len() > 0 && p@.last()@ == name@,
            None => false,
        },
{
    match parent {
        None => false,
        Some(p) => {
            if p.len() == 0 {
                false
            } else {
                crate::text::str_eq(p[p.len() - 1].as_str(), name)
            }
        },
    }
}

/// Texts joined by `, `.
pub open spec fn comma_joined(items: Seq<Seq<char>>) -> Seq<char>
    decreases items.len(),
{
    if items.len() == 0 {
        Seq::empty()
    } else if items.len() == 1 {
        items[0]
    } else {
        comma_joined(items.drop_last()) + ", "@ + items.last()
    }
}

/// The names of the conditions an action applies, as its overview lists them: each followed
/// by `, ` but the last.
pub fn applied_conditions_text(names: &Vec<String>) -> (s: String)
    ensures
        s@ == comma_joined(names@.map_values(|n: String| n@)),
{
    let ghost nv = names@.map_values(|n: String| n@);
    let mut s = String::new();
    let mut i: usize = 0;
    while i < names.len()
        invariant
            i <= names@.len(),
            nv == names@.map_values(|n: String| n@),
            s@ == comma_joined(nv.take(i as int)),
        decreases names@.len() - i,
    {
        if i != 0 {
            s.append(", ");
        }
        s.append(names[i].as_str());
        proof {
            assert(nv.take(i as int + 1).drop_last() =~= nv.take(i as int));
            if i == 0 {
                assert(nv.take(1) =~= seq![nv[0]]);
            }
        }
        i = i + 1;
    }
    assert(nv.take(nv.len() as int) =~= nv);
    s
}

/// Whether the panel shows a top-level entry: it is listed under the selected tags, or it has
/// children to show.
pub open spec fn is_shown(e: FeatureEntry) -> bool {
    e.is_relevant || e.children.paths().len() > 0
}

/// The entries that the panel shows, in order.
pub open spec fn shown(entries: Seq<FeatureEntry>) -> Seq<FeatureEntry>
    decreases entries.len(),
{
    if entries.len() == 0 {
        Seq::empty()
    } else {
        shown(entries.drop_last()) + if is_shown(entries.last()) {
            seq![entries.last()]
        } else {
            Seq::empty()
        }
    }
}

/// The top-level entries the panel shows: those of `root`, in listing order, that are
/// relevant or have children; an entry that is neither is hidden.
pub fn shown_roots(root: FeatureDisplayGroup) -> (r: Vec<FeatureEntry>)
    requires
        root.wf(),
    ensures
        r@ == shown(first_occurrences(root.paths()).map_values(|p: Seq<Seq<char>>| root.get(p))),
        root.sorted() ==> r@ == shown(root.listed()),
{
    let mut rest = root.into_iter();
    let ghost all = rest@;
    let mut r: Vec<FeatureEntry> = Vec::new();
    let ghost mut k: int = 0;
    while rest.len() > 0
        invariant
            0 <= k <= all.len(),
            rest@ == all.skip(k),
            rest@.len() == all.len() - k,
            r@ == shown(all.take(k)),
        decreases rest@.len(),
    {
        let e = rest.remove(0);
        assert(e == all[k]);
        assert(all.take(k + 1).drop_last() =~= all.take(k));
        let keep = e.is_relevant || !e.children.is_empty();
        if keep {
            r.push(e);
        }
        assert(rest@ =~= all.skip(k + 1));
        proof {
            k = k + 1;
        }
        assert(r@ =~= shown(all.take(k)));
    }
    assert(all.take(k) =~= all);
    r
}

/// Under a selection of one tag alone, a feature is listed exactly when that tag matches it:
/// Action, Bonus Action and Reaction each list the actions of their own kind, Other the
/// actions of any other kind, Limited Use the actions with limited uses, Passive the features
/// without an action, and Attack no feature at all (attacks go to the attack table).
pub proof fn law_single_tag(s: TagSelection, tag: ActionTag, a: ActionSummary)
    requires
        forall|t: ActionTag| selects(s, t) == (t == tag),
        !a.weapon_attack,
    ensures
        tag == ActionTag::Action ==> (spec_is_relevant(s, Some(a)) == (a.activation == ActivationKind::Action)),
        tag == ActionTag::BonusAction ==> (spec_is_relevant(s, Some(a)) == (a.activation == ActivationKind::Bonus)),
        tag == ActionTag::Reaction ==> (spec_is_relevant(s, Some(a)) == (a.activation == ActivationKind::Reaction)),
        tag == ActionTag::Other ==> (spec_is_relevant(s, Some(a)) == (a.activation != ActivationKind::Action
            && a.activation != ActivationKind::Bonus && a.activation != ActivationKind::Reaction)),
        tag == ActionTag::LimitedUse ==> (spec_is_relevant(s, Some(a)) == a.limited_use),
        tag == ActionTag::Passive || tag == ActionTag::Attack ==> !spec_is_relevant(s, Some(a)),
        spec_is_relevant(s, None) == (tag == ActionTag::Passive),
{
    assert(selects(s, ActionTag::Attack) == (ActionTag::Attack == tag));
    assert(selects(s, ActionTag::Action) == (ActionTag::Action == tag));
    assert(selects(s, ActionTag::BonusAction) == (ActionTag::BonusAction == tag));
    assert(selects(s, ActionTag::Reaction) == (ActionTag::Reaction == tag));
    assert(selects(s, ActionTag::Other) == (ActionTag::Other == tag));
    assert(selects(s, ActionTag::LimitedUse) == (ActionTag::LimitedUse == tag));
    assert(selects(s, ActionTag::Passive) == (ActionTag::Passive == tag));
}

/// A feature is listed under a selection exactly when it is listed under one of the selected
/// tags alone; a feature that attacks with a weapon is listed under none.
pub proof fn law_selection_is_union(s: TagSelection, action: Option<ActionSummary>)
    ensures
        spec_is_relevant(s, action) == exists|t: ActionTag| selects(s, t) && #[trigger] spec_is_relevant(only_tag(t), action),
        (action matches Some(a) && a.weapon_attack) ==> !spec_is_relevant(s, action),
{
    let one = |t: ActionTag| only_tag(t);
    if spec_is_relevant(s, action) {
        if s.action && spec_is_relevant(one(ActionTag::Action), action) {
            assert(selects(s, ActionTag::Action));
        } else if s.bonus_action && spec_is_relevant(one(ActionTag::BonusAction), action) {
            assert(selects(s, ActionTag::BonusAction));
        } else if s.reaction && spec_is_relevant(one(ActionTag::Reaction), action) {
            assert(selects(s, ActionTag::Reaction));
        } else if s.other && spec_is_relevant(one(ActionTag::Other), action) {
            assert(selects(s, ActionTag::Other));
        } else if s.limited_use && spec_is_relevant(one(ActionTag::LimitedUse), action) {
            assert(selects(s, ActionTag::LimitedUse));
        } else {
            assert(selects(s, ActionTag::Passive));
            assert(spec_is_relevant(one(ActionTag::Passive), action));
        }
    }
}

} // verus!
