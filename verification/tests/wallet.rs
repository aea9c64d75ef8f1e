use dnd5e::currency::{Kind, Wallet};
use dnd5e::content::items::{travelers_clothes, weapon::club};
use dnd5e::purchase::{add_items, AddedItems};

fn wallet(copper: u64, silver: u64, electrum: u64, gold: u64, platinum: u64) -> Wallet {
    Wallet { copper, silver, electrum, gold, platinum }
}

#[test]
fn coin_values() {
    assert_eq!(Kind::Gold.multiplier(), 100);
    assert_eq!(Kind::Electrum.multiplier(), 50);
    assert_eq!(Kind::Platinum.abbreviation(), "pp");
    let w = wallet(5, 4, 1, 2, 1);
    assert_eq!(w.total_value(), 5 + 40 + 50 + 200 + 1000);
    assert_eq!(w.total_value_in_gold(), 12);
    assert_eq!(w.get(Kind::Silver), 4);
}

#[test]
fn set_and_empty() {
    let mut w = Wallet::empty();
    assert!(w.is_empty());
    w.set(Kind::Gold, 3);
    assert!(!w.is_empty());
    assert_eq!(w, wallet(0, 0, 0, 3, 0));
}

#[test]
fn coins_descending_skips_empty_kinds() {
    let w = wallet(1, 0, 0, 7, 2);
    assert_eq!(w.coins_descending(), vec![(Kind::Platinum, 2), (Kind::Gold, 7), (Kind::Copper, 1)]);
    assert!(Wallet::empty().coins_descending().is_empty());
}

#[test]
fn add_then_remove_restores() {
    let original = wallet(3, 1, 0, 10, 0);
    let coins = wallet(2, 5, 1, 0, 4);
    let mut w = original;
    w.add(coins);
    assert_eq!(w, wallet(5, 6, 1, 10, 4));
    assert!(w.contains(&coins, false));
    w.remove(coins, false);
    assert_eq!(w, original);
}

#[test]
fn contains_with_and_without_exchange() {
    let w = wallet(0, 0, 0, 1, 0);
    let cost = wallet(50, 0, 0, 0, 0);
    assert!(!w.contains(&cost, false));
    assert!(w.contains(&cost, true));
    assert!(!w.contains(&wallet(101, 0, 0, 0, 0), true));
}

#[test]
fn remove_with_exchange_keeps_the_rest_of_the_value() {
    let mut w = wallet(0, 0, 0, 1, 0);
    w.remove(wallet(37, 0, 0, 0, 0), true);
    assert_eq!(w.total_value(), 63);
    assert_eq!(w, wallet(3, 1, 1, 0, 0));
    let mut exact = wallet(2, 2, 0, 0, 0);
    exact.remove(wallet(1, 1, 0, 0, 0), true);
    assert_eq!(exact, wallet(1, 1, 0, 0, 0));
}

#[test]
fn normalize_keeps_value() {
    let mut w = wallet(1234, 15, 3, 9, 0);
    let before = w.total_value();
    w.normalize();
    assert_eq!(w.total_value(), before);
    assert_eq!(w, wallet(4, 3, 0, 4, 2));
    let again = w;
    w.normalize();
    assert_eq!(w, again);
    assert_eq!(Wallet::from_value(1999), wallet(9, 4, 1, 9, 1));
}

#[test]
fn adding_simple_items_stacks_and_pays() {
    let mut purse = wallet(0, 0, 0, 5, 0);
    let cost = wallet(0, 0, 0, 2, 0);
    match add_items(&mut purse, travelers_clothes(), 3, cost, false) {
        AddedItems::Stack(item) => {
            assert_eq!(item.name, "Traveler's Clothes");
            assert!(matches!(item.kind, dnd5e::item::ItemKind::Simple { count: 3 }));
        }
        AddedItems::Copies(..) => panic!("a simple item stacks"),
    }
    assert_eq!(purse, wallet(0, 0, 0, 3, 0));
}

#[test]
fn adding_equipment_makes_copies_and_free_items_cost_nothing() {
    let mut purse = wallet(1, 2, 3, 4, 5);
    match add_items(&mut purse, club(), 2, Wallet::empty(), true) {
        AddedItems::Copies(item, amount) => {
            assert_eq!(item.name, "Club");
            assert_eq!(amount, 2);
        }
        AddedItems::Stack(_) => panic!("equipment does not stack"),
    }
    assert_eq!(purse, wallet(1, 2, 3, 4, 5));
}
