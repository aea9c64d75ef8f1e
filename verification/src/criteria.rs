//! Requirements that a character must meet for a feature or condition to apply.

use vstd::prelude::*;
use crate::character::{Character, InventoryEntry};
use crate::item::{armor, ItemKind};

verus! {

/// A requirement on a character.
pub trait Criteria {
    /// `Ok` when the character meets the requirement, otherwise the reason it does not.
    fn evaluate(&self, character: &Character) -> Result<(), String>;
}

/// Checks whether the character has armor equipped.
pub struct HasArmorEquipped {
    /// By default the requirement is that a piece of armor is equipped.
    /// When this flag is set, the requirement is that no armor (of the listed kinds) is equipped.
    pub inverted: bool,
    /// The armor kinds to check, as a set; when empty, all armor counts.
    pub kinds: Vec<armor::Kind>,
}

/// The names of the listed kinds, each once, in sort order (light, medium, heavy).
pub open spec fn sorted_kind_names(kinds: Seq<armor::Kind>) -> Seq<Seq<char>> {
    (if kinds.contains(armor::Kind::Light) { seq!["light"@] } else { Seq::empty() })
        + (if kinds.contains(armor::Kind::Medium) { seq!["medium"@] } else { Seq::empty() })
        + (if kinds.contains(armor::Kind::Heavy) { seq!["heavy"@] } else { Seq::empty() })
}

/// Items separated by commas.
pub open spec fn comma_list(names: Seq<Seq<char>>) -> Seq<char>
    decreases names.len(),
{
    if names.len() <= 1 {
        if names.len() == 0 { Seq::empty() } else { names[0] }
    } else {
        comma_list(names.drop_last()) + ", "@ + names.last()
    }
}

/// A list in English: `a`, `a or b`, `a, b, or c` (for the joiner `or`).
pub open spec fn english_list(names: Seq<Seq<char>>, joiner: Seq<char>) -> Seq<char> {
    if names.len() == 1 {
        names[0]
    } else if names.len() == 2 {
        names[0] + " "@ + joiner + " "@ + names[1]
    } else {
        comma_list(names.drop_last()) + ", "@ + joiner + " "@ + names.last()
    }
}

/// Whether an inventory entry is equipped armor of a kind that the requirement counts.
pub open spec fn counts_as_armor(kinds: Seq<armor::Kind>, entry: InventoryEntry) -> bool {
    &&& entry.equipped
    &&& entry.item.kind matches ItemKind::Equipment(equipment)
    &&& equipment.armor matches Some(a)
    &&& (kinds.len() == 0 || kinds.contains(a.kind))
}

/// The outcome of the check over `items`, read from the front: the first counted armor decides,
/// otherwise the lack of any.
pub open spec fn armor_check(
    inverted: bool,
    kinds: Seq<armor::Kind>,
    items: Seq<InventoryEntry>,
    joiner_list: Seq<char>,
) -> Result<(), Seq<char>>
    decreases items.len(),
{
    if items.len() == 0 {
        if inverted {
            Ok(())
        } else {
            Err("No "@ + joiner_list + "armor equipped"@)
        }
    } else if counts_as_armor(kinds, items[0]) {
        if inverted {
            Err("\""@ + items[0].item.name@ + "\" is already equipped."@)
        } else {
            Ok(())
        }
    } else {
        armor_check(inverted, kinds, items.drop_first(), joiner_list)
    }
}

/// The kind list as it appears in the failure message: empty when all armor counts,
/// otherwise the English list with `or` and a trailing space.
pub open spec fn missing_armor_list(kinds: Seq<armor::Kind>) -> Seq<char> {
    if kinds.len() == 0 {
        Seq::empty()
    } else {
        english_list(sorted_kind_names(kinds), "or"@) + " "@
    }
}

fn contains_kind(kinds: &Vec<armor::Kind>, kind: armor::Kind) -> (r: bool)
    ensures
        r == kinds@.contains(kind),
{
    let mut i: usize = 0;
    while i < kinds.len()
        invariant
            i <= kinds@.len(),
            forall|j: int| 0 <= j < i ==> kinds@[j] != kind,
        decreases kinds@.len() - i,
    {
        if kinds[i] == kind {
            return true;
        }
        i = i + 1;
    }
    false
}

impl HasArmorEquipped {
    /// The listed kinds in sort order as an English list joined by `joiner`
    /// (`light`, `light or heavy`, `light, medium, or heavy`); none when no kind is listed.
    pub fn kind_list(&self, joiner: &str) -> (r: Option<String>)
        ensures
            self.kinds@.len() == 0 ==> r is None,
            self.kinds@.len() > 0 ==> (r matches Some(s) && s@ == english_list(sorted_kind_names(self.kinds@), joiner@)),
    {
        if self.kinds.len() == 0 {
            return None;
        }
        let mut names: Vec<&'static str> = Vec::new();
        if contains_kind(&self.kinds, armor::Kind::Light) {
            names.push(armor::Kind::Light.lowercase_name());
        }
        if contains_kind(&self.kinds, armor::Kind::Medium) {
            names.push(armor::Kind::Medium.lowercase_name());
        }
        if contains_kind(&self.kinds, armor::Kind::Heavy) {
            names.push(armor::Kind::Heavy.lowercase_name());
        }
        let ghost spec_names = sorted_kind_names(self.kinds@);
        assert(names@.map_values(|n: &'static str| n@) =~= spec_names);
        proof {
            let k = self.kinds@[0];
            assert(self.kinds@.contains(k));
            match k {
                armor::Kind::Light => {},
                armor::Kind::Medium => {},
                armor::Kind::Heavy => {},
            }
        }
        assert(names@.len() == spec_names.len());
        assert(1 <= names@.len() <= 3);
        proof { reveal_strlit(" "); reveal_strlit(", "); }
        let mut s = String::new();
        if names.len() == 1 {
            s.append(names[0]);
            assert(s@ =~= spec_names[0]);
        } else if names.len() == 2 {
            s.append(names[0]);
            s.append(" ");
            s.append(joiner);
            s.append(" ");
            s.append(names[1]);
            assert(s@ =~= spec_names[0] + " "@ + joiner@ + " "@ + spec_names[1]);
        } else {
            s.append(names[0]);
            s.append(", ");
            s.append(names[1]);
            s.append(", ");
            s.append(joiner);
            s.append(" ");
            s.append(names[2]);
            proof {
                let front = spec_names.drop_last();
                assert(front.drop_last() =~= seq![spec_names[0]]);
                assert(comma_list(front.drop_last()) == spec_names[0]);
                assert(comma_list(front) == spec_names[0] + ", "@ + spec_names[1]);
            }
            assert(s@ =~= comma_list(spec_names.drop_last()) + ", "@ + joiner@ + " "@ + spec_names.last());
        }
        Some(s)
    }
}

impl Criteria for HasArmorEquipped {
    fn evaluate(&self, character: &Character) -> (r: Result<(), String>)
        ensures
            match armor_check(self.inverted, self.kinds@, character.inventory.items@, missing_armor_list(self.kinds@)) {
                Ok(()) => r is Ok,
                Err(m) => r matches Err(e) && e@ == m,
            },
    {
        let items = &character.inventory.items;
        let ghost list = missing_armor_list(self.kinds@);
        assert(items@.skip(0) =~= items@);
        let mut i: usize = 0;
        while i < items.len()
            invariant
                i <= items@.len(),
                items@ == character.inventory.items@,
                list == missing_armor_list(self.kinds@),
                armor_check(self.inverted, self.kinds@, items@, list)
                    == armor_check(self.inverted, self.kinds@, items@.skip(i as int), list),
            decreases items@.len() - i,
        {
            let entry = &items[i];
            assert(items@.skip(i as int)[0] == items@[i as int]);
            assert(items@.skip(i as int).drop_first() =~= items@.skip(i as int + 1));
            let mut counted = false;
            if entry.equipped {
                match &entry.item.kind {
                    ItemKind::Equipment(equipment) => match &equipment.armor {
                        Some(a) => {
                            counted = self.kinds.len() == 0 || contains_kind(&self.kinds, a.kind);
                        },
                        None => {},
                    },
                    ItemKind::Simple { .. } => {},
                }
            }
            assert(counted == counts_as_armor(self.kinds@, items@[i as int]));
            if counted {
                assert(items@.skip(i as int).len() > 0);
                assert(counts_as_armor(self.kinds@, items@.skip(i as int)[0]));
                if self.inverted {
                    proof { reveal_strlit("\""); reveal_strlit("\" is already equipped."); }
                    let mut msg = "\"".to_owned();
                    msg.append(entry.item.name.as_str());
                    msg.append("\" is already equipped.");
                    assert(msg@ =~= "\""@ + items@.skip(i as int)[0].item.name@ + "\" is already equipped."@);
                    assert(armor_check(self.inverted, self.kinds@, items@.skip(i as int), list)
                        == Err::<(), Seq<char>>("\""@ + items@.skip(i as int)[0].item.name@ + "\" is already equipped."@));
                    return Err(msg);
                } else {
                    return Ok(());
                }
            }
            i = i + 1;
        }
        assert(items@.skip(i as int) =~= Seq::<InventoryEntry>::empty());
        if self.inverted {
            Ok(())
        } else {
            let mut msg = "No ".to_owned();
            match self.kind_list("or") {
                None => {},
                Some(kinds) => {
                    msg.append(kinds.as_str());
                    msg.append(" ");
                },
            }
            msg.append("armor equipped");
            assert(msg@ =~= "No "@ + list + "armor equipped"@);
            Err(msg)
        }
    }
}

/// The inverted check passes exactly when the plain check fails, over the same armor kinds
/// and inventory.
pub proof fn law_inverted_is_complement(kinds: Seq<armor::Kind>, items: Seq<InventoryEntry>, list: Seq<char>)
    ensures
        armor_check(true, kinds, items, list) is Ok <==> armor_check(false, kinds, items, list) is Err,
    decreases items.len(),
{
    if items.len() > 0 && !counts_as_armor(kinds, items[0]) {
        law_inverted_is_complement(kinds, items.drop_first(), list);
    }
}

/// With no armor equipped, the plain check fails and the inverted one passes.
pub proof fn law_no_equipped_armor(kinds: Seq<armor::Kind>, items: Seq<InventoryEntry>, list: Seq<char>)
    requires
        forall|i: int| 0 <= i < items.len() ==> !(#[trigger] items[i]).equipped,
    ensures
        armor_check(true, kinds, items, list) is Ok,
        armor_check(false, kinds, items, list) == Err::<(), Seq<char>>("No "@ + list + "armor equipped"@),
    decreases items.len(),
{
    if items.len() > 0 {
        assert forall|i: int| 0 <= i < items.drop_first().len() implies !(#[trigger] items.drop_first()[i]).equipped by {
            assert(items.drop_first()[i] == items[i + 1]);
        }
        law_no_equipped_armor(kinds, items.drop_first(), list);
    }
}

/// The listed kinds act as a set: two lists naming the same kinds (in any order, with any
/// repeats) give the same kind names, the same message and the same outcome.
pub proof fn law_kinds_as_set(k1: Seq<armor::Kind>, k2: Seq<armor::Kind>, inverted: bool, items: Seq<InventoryEntry>)
    requires
        forall|k: armor::Kind| #[trigger] k1.contains(k) == k2.contains(k),
    ensures
        sorted_kind_names(k1) == sorted_kind_names(k2),
        missing_armor_list(k1) == missing_armor_list(k2),
        armor_check(inverted, k1, items, missing_armor_list(k1)) == armor_check(inverted, k2, items, missing_armor_list(k2)),
    decreases items.len(),
{
    assert((k1.len() == 0) == (k2.len() == 0)) by {
        if k1.len() > 0 {
            assert(k1[0] == k1[0]);
            assert(k1.contains(k1[0]));
            assert(k2.contains(k1[0]));
            let w = choose|w: int| 0 <= w < k2.len() && k2[w] == k1[0];
        }
        if k2.len() > 0 {
            assert(k2[0] == k2[0]);
            assert(k2.contains(k2[0]));
            assert(k1.contains(k2[0]));
            let w = choose|w: int| 0 <= w < k1.len() && k1[w] == k2[0];
        }
    }
    if items.len() > 0 {
        law_kinds_as_set(k1, k2, inverted, items.drop_first());
    }
}

/// Any one requirement.
pub enum BoxedCriteria {
    HasArmorEquipped(HasArmorEquipped),
}

impl BoxedCriteria {
    /// Checks the requirement that this holds.
    pub fn evaluate(&self, character: &Character) -> (r: Result<(), String>)
        ensures
            match self {
                BoxedCriteria::HasArmorEquipped(c) => match armor_check(
                    c.inverted, c.kinds@, character.inventory.items@, missing_armor_list(c.kinds@),
                ) {
                    Ok(()) => r is Ok,
                    Err(m) => r matches Err(e) && e@ == m,
                },
            },
    {
        match self {
            BoxedCriteria::HasArmorEquipped(c) => c.evaluate(character),
        }
    }
}

} // verus!
