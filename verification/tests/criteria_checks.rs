use dnd5e::character::{Character, Inventory, InventoryEntry};
use dnd5e::content::items::armor::{leather, splint};
use dnd5e::content::items::{travelers_clothes, weapon::club};
use dnd5e::criteria::{BoxedCriteria, Criteria, HasArmorEquipped};
use dnd5e::item::armor::Kind;

fn character(items: Vec<(dnd5e::item::Item, bool)>) -> Character {
    Character {
        inventory: Inventory {
            items: items.into_iter().map(|(item, equipped)| InventoryEntry { item, equipped }).collect(),
        },
    }
}

#[test]
fn kind_list_formats() {
    let none = HasArmorEquipped { inverted: false, kinds: vec![] };
    assert_eq!(none.kind_list("or"), None);
    let one = HasArmorEquipped { inverted: false, kinds: vec![Kind::Heavy] };
    assert_eq!(one.kind_list("or").as_deref(), Some("heavy"));
    let two = HasArmorEquipped { inverted: false, kinds: vec![Kind::Heavy, Kind::Light] };
    assert_eq!(two.kind_list("or").as_deref(), Some("light or heavy"));
    let three = HasArmorEquipped { inverted: false, kinds: vec![Kind::Medium, Kind::Heavy, Kind::Light] };
    assert_eq!(three.kind_list("and").as_deref(), Some("light, medium, and heavy"));
    let dup = HasArmorEquipped { inverted: false, kinds: vec![Kind::Medium, Kind::Medium] };
    assert_eq!(dup.kind_list("or").as_deref(), Some("medium"));
}

#[test]
fn armor_required_and_missing() {
    let c = character(vec![(travelers_clothes(), true), (leather(), false)]);
    let any = HasArmorEquipped { inverted: false, kinds: vec![] };
    assert_eq!(any.evaluate(&c), Err("No armor equipped".to_owned()));
    let heavy = HasArmorEquipped { inverted: false, kinds: vec![Kind::Heavy, Kind::Medium] };
    assert_eq!(heavy.evaluate(&c), Err("No medium or heavy armor equipped".to_owned()));
    let not_any = HasArmorEquipped { inverted: true, kinds: vec![] };
    assert_eq!(not_any.evaluate(&c), Ok(()));
}

#[test]
fn armor_equipped_counts() {
    let c = character(vec![(club(), true), (leather(), true), (splint(), true)]);
    let any = HasArmorEquipped { inverted: false, kinds: vec![] };
    assert_eq!(any.evaluate(&c), Ok(()));
    let no_armor = HasArmorEquipped { inverted: true, kinds: vec![] };
    assert_eq!(no_armor.evaluate(&c), Err("\"Leather Armor\" is already equipped.".to_owned()));
    let no_heavy = HasArmorEquipped { inverted: true, kinds: vec![Kind::Heavy] };
    assert_eq!(no_heavy.evaluate(&c), Err("\"Splint\" is already equipped.".to_owned()));
    let medium = HasArmorEquipped { inverted: false, kinds: vec![Kind::Medium] };
    assert_eq!(medium.evaluate(&c), Err("No medium armor equipped".to_owned()));
    let boxed = BoxedCriteria::HasArmorEquipped(HasArmorEquipped { inverted: true, kinds: vec![Kind::Medium] });
    assert_eq!(boxed.evaluate(&c), Ok(()));
}

#[test]
fn inverted_is_complement_on_examples() {
    let inventories = vec![
        character(vec![]),
        character(vec![(leather(), true)]),
        character(vec![(leather(), false), (club(), true)]),
    ];
    for c in &inventories {
        for kinds in [vec![], vec![Kind::Light], vec![Kind::Heavy]] {
            let plain = HasArmorEquipped { inverted: false, kinds: kinds.clone() };
            let inverted = HasArmorEquipped { inverted: true, kinds };
            assert_eq!(plain.evaluate(c).is_ok(), inverted.evaluate(c).is_err());
        }
    }
}

#[test]
fn kind_list_names_a_repeated_kind_once() {
    let twice = HasArmorEquipped { inverted: false, kinds: vec![Kind::Heavy, Kind::Heavy] };
    assert_eq!(twice.kind_list("or").as_deref(), Some("heavy"));
    let mixed = HasArmorEquipped { inverted: false, kinds: vec![Kind::Heavy, Kind::Light, Kind::Heavy] };
    let once = HasArmorEquipped { inverted: false, kinds: vec![Kind::Light, Kind::Heavy] };
    assert_eq!(mixed.kind_list("or"), once.kind_list("or"));
}
