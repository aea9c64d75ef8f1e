use dnd5e::content::items::armor::leather;
use dnd5e::content::items::{travelers_clothes, weapon::club};
use dnd5e::item::ItemKind;
use dnd5e::currency::Wallet;
use dnd5e::equipment_choice::{SelectedEquipment, StartingEquipment};

fn path(segments: &[&str]) -> Vec<String> {
    segments.iter().map(|s| s.to_string()).collect()
}

fn gold(amount: u64) -> Wallet {
    Wallet { copper: 0, silver: 0, electrum: 0, gold: amount, platinum: 0 }
}

/// Stored choices; a value reads as a source id here when it holds a `/`.
fn stored(entries: &[(&[&str], &[&str])]) -> Vec<(Vec<String>, Vec<(String, Option<String>)>)> {
    entries
        .iter()
        .map(|(p, v)| {
            let values = v
                .iter()
                .map(|s| (s.to_string(), if s.contains('/') { Some(s.to_string()) } else { None }))
                .collect();
            (path(p), values)
        })
        .collect()
}

#[test]
fn coins_and_items_need_no_choice() {
    let at = path(&["starting_equipment", "0"]);
    let none = stored(&[]);
    let coins = SelectedEquipment::find_selections(&StartingEquipment::Currency(gold(10)), &at, &none);
    assert_eq!(coins.wallet, gold(10));
    assert!(!coins.is_missing_selections());

    let rope = StartingEquipment::Specific("items/rope".to_string(), 2);
    let ropes = SelectedEquipment::find_selections(&rope, &at, &none);
    assert_eq!(ropes.item_ids, path(&["items/rope", "items/rope"]));
    assert_eq!(ropes.wallet, Wallet::empty());

    let clothes = SelectedEquipment::find_selections(&StartingEquipment::Custom(travelers_clothes()), &at, &none);
    assert_eq!(clothes.items.len(), 1);
    assert_eq!(clothes.items[0].name, "Traveler's Clothes");
    assert_eq!(clothes.items[0].worth, 200);
    let weapon = SelectedEquipment::find_selections(&StartingEquipment::Custom(club()), &at, &none);
    assert_eq!(weapon.items[0].name, "Club");
    assert!(weapon.items[0].is_equipable());
}

#[test]
fn a_free_choice_takes_the_stored_item_or_is_missing() {
    let at = path(&["starting_equipment", "1"]);
    let missing = SelectedEquipment::find_selections(&StartingEquipment::SelectItem, &at, &stored(&[]));
    assert!(missing.is_missing_selections());
    assert_eq!(missing.missing_selections, vec![at.clone()]);
    assert!(missing.item_ids.is_empty());

    let store = stored(&[(&["starting_equipment", "1"], &["items/dagger", "items/spear"])]);
    let chosen = SelectedEquipment::find_selections(&StartingEquipment::SelectItem, &at, &store);
    assert_eq!(chosen.item_ids, path(&["items/dagger"]));
    assert!(!chosen.is_missing_selections());

    let empty = stored(&[(&["starting_equipment", "1"], &[])]);
    let still_missing = SelectedEquipment::find_selections(&StartingEquipment::SelectItem, &at, &empty);
    assert_eq!(still_missing.missing_selections, vec![at]);
}

#[test]
fn a_group_adds_up_the_picked_entries() {
    let group = StartingEquipment::Group {
        entries: vec![
            StartingEquipment::Currency(gold(5)),
            StartingEquipment::Specific("items/rope".to_string(), 1),
            StartingEquipment::Currency(gold(7)),
        ],
        pick: 2,
    };
    let at = path(&["starting_equipment", "2"]);
    let store = stored(&[(&["starting_equipment", "2"], &["2", "not a number", "9", "1", "2"])]);
    let picked = SelectedEquipment::find_selections(&group, &at, &store);
    assert_eq!(picked.wallet, gold(14));
    assert_eq!(picked.item_ids, path(&["items/rope"]));
    assert!(!picked.is_missing_selections());

    let unpicked = SelectedEquipment::find_selections(&group, &at, &stored(&[]));
    assert_eq!(unpicked.missing_selections, vec![at.clone()]);
    assert_eq!(unpicked.wallet, Wallet::empty());
}

#[test]
fn a_nested_choice_is_looked_up_under_the_index() {
    let group = StartingEquipment::Group {
        entries: vec![StartingEquipment::SelectItem, StartingEquipment::SelectItem],
        pick: 1,
    };
    let at = path(&["starting_equipment", "0"]);
    let store = stored(&[
        (&["starting_equipment", "0"], &["1", "0"]),
        (&["starting_equipment", "0", "1"], &["items/lute"]),
        (&["starting_equipment", "0", "1"], &["items/drum"]),
    ]);
    let picked = SelectedEquipment::find_selections(&group, &at, &store);
    assert_eq!(picked.item_ids, path(&["items/lute"]));
    assert_eq!(picked.missing_selections, vec![path(&["starting_equipment", "0", "0"])]);
    assert!(picked.is_missing_selections());
}

#[test]
fn extending_keeps_both_sides() {
    let at = path(&["starting_equipment", "0"]);
    let mut total = SelectedEquipment::find_selections(&StartingEquipment::Currency(gold(3)), &at, &stored(&[]));
    total.extend(SelectedEquipment::find_selections(&StartingEquipment::SelectItem, &at, &stored(&[])));
    assert_eq!(total.wallet, gold(3));
    assert!(total.is_missing_selections());
    total.extend(SelectedEquipment::empty());
    assert_eq!(total.wallet, gold(3));
    assert_eq!(total.missing_selections, vec![at]);
}

#[test]
fn a_stored_value_that_is_no_source_id_selects_nothing() {
    let at = path(&["starting_equipment", "1"]);
    let store = stored(&[(&["starting_equipment", "1"], &["no such source"])]);
    let chosen = SelectedEquipment::find_selections(&StartingEquipment::SelectItem, &at, &store);
    assert!(chosen.item_ids.is_empty());
    assert!(!chosen.is_missing_selections());
    assert_eq!(chosen.wallet, Wallet::empty());
}

#[test]
fn a_custom_item_keeps_its_equipment() {
    let at = path(&["starting_equipment", "0"]);
    let given = SelectedEquipment::find_selections(&StartingEquipment::Custom(leather()), &at, &stored(&[]));
    let original = leather();
    let (ItemKind::Equipment(copy), ItemKind::Equipment(source)) = (&given.items[0].kind, &original.kind) else {
        panic!("armor is equipment");
    };
    let (copy_armor, source_armor) = (copy.armor.as_ref().unwrap(), source.armor.as_ref().unwrap());
    assert_eq!(copy_armor.kind, source_armor.kind);
    assert_eq!(copy_armor.formula.base, source_armor.formula.base);
    assert_eq!(copy_armor.formula.bonuses, source_armor.formula.bonuses);
    assert_eq!(copy.modifiers.len(), source.modifiers.len());
    assert!(copy.weapon.is_none());
    assert_eq!(given.items[0].name, original.name);
}
