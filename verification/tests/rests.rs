use dnd5e::hit_points::HitPoints;
use dnd5e::rest::{hit_dice_regained, long_rest, restore_uses, short_rest, spend_hit_dice, HitDiceToConsume};
use dnd5e::roll::Die;

#[test]
fn choosing_hit_dice() {
    let mut dice = HitDiceToConsume::new();
    assert!(dice.is_empty());
    assert!(dice.has_valid_input());
    dice.add("Barbarian", Die::D12, 2, "Barbarian/hit_die");
    dice.add("Wizard", Die::D6, 1, "Wizard/hit_die");
    assert_eq!(dice.total_num_rolls(), 3);
    assert!(!dice.has_valid_input());
    dice.set_rolled_hp(14);
    assert!(dice.has_valid_input());
    assert_eq!(dice.rolled_hp(), 14);
    assert_eq!(dice.hp_to_gain(2), 20);
    assert_eq!(dice.hp_to_gain(-5), 0);
    assert_eq!(
        dice.consumed_uses(),
        vec![(2, "Barbarian/hit_die".to_owned()), (1, "Wizard/hit_die".to_owned())]
    );
}

#[test]
fn taking_back_hit_dice() {
    let mut dice = HitDiceToConsume::new();
    dice.add("Barbarian", Die::D12, 3, "b");
    dice.add("Barbarian", Die::D12, -1, "b");
    assert_eq!(dice.consumed_uses(), vec![(2, "b".to_owned())]);
    assert_eq!(dice.total_num_rolls(), 2);
    dice.add("Barbarian", Die::D12, 1, "b");
    dice.add("Barbarian", Die::D12, -1, "b");
    assert_eq!(dice.consumed_uses(), vec![(2, "b".to_owned())]);
    dice.add("Rogue", Die::D8, -1, "r");
    assert_eq!(dice.consumed_uses().len(), 1);
    dice.add("Barbarian", Die::D12, -5, "b");
    assert_eq!(dice.consumed_uses(), vec![(0, "b".to_owned())]);
    assert!(dice.is_empty());
}

#[test]
fn long_and_short_rest() {
    assert_eq!(long_rest(30), HitPoints { current: 30, temp: 0, failure_saves: 0, success_saves: 0 });
    let hp = HitPoints { current: 10, temp: 2, failure_saves: 1, success_saves: 2 };
    assert_eq!(short_rest(hp, 5).current, 15);
    assert_eq!(short_rest(hp, 50).current, 60);
    assert_eq!(short_rest(hp, 5).temp, 2);
    assert_eq!(short_rest(hp, 5).failure_saves, 1);
    assert_eq!(short_rest(hp, 5).success_saves, 2);
}

#[test]
fn spending_and_restoring_uses() {
    assert_eq!(spend_hit_dice(None, 2), 2);
    assert_eq!(spend_hit_dice(Some(3), 2), 5);
    assert_eq!(spend_hit_dice(Some(u32::MAX), 2), u32::MAX);
    assert_eq!(restore_uses(Some(3), None), None);
    assert_eq!(restore_uses(Some(3), Some(2)), Some(5));
    assert_eq!(restore_uses(Some(1), Some(4)), Some(5));
    assert_eq!(restore_uses(None, Some(1)), Some(1));
    assert_eq!(restore_uses(Some(u32::MAX), Some(1)), Some(u32::MAX));
}

#[test]
fn hit_dice_regained_on_long_rest() {
    assert_eq!(hit_dice_regained(&vec![(Die::D12, 4), (Die::D6, 2)]), vec![(2, Die::D12), (1, Die::D6)]);
    assert!(hit_dice_regained(&vec![(Die::D8, 1)]).is_empty());
    assert!(hit_dice_regained(&vec![(Die::D8, 1), (Die::D10, 1)]).is_empty());
    assert_eq!(hit_dice_regained(&vec![(Die::D8, 3), (Die::D8, 2)]), vec![(2, Die::D8)]);
    assert!(hit_dice_regained(&vec![]).is_empty());
}
