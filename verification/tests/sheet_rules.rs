use dnd5e::ability::{
    ability_check_modifier_text, passive_score, saving_throw_modifier_text, skill_groups, Ability,
    Skill,
};
use dnd5e::currency::Wallet;
use dnd5e::display::{action_budget_text, age_text, group_names};
use dnd5e::equipment_choice::{
    can_select_new, option_disabled, option_missing_value, selected_indices, selection_change,
    SelectedEquipment, SelectionChange,
};
use dnd5e::purchase::{
    add_items_message, buy_items_message, clamp_amount, purchase_cost, stacked_count, step_amount,
};
use dnd5e::damage::DamageType;
use dnd5e::item::weapon::{Range, WeaponDamage};
use dnd5e::item::{equip_label, step_count};
use dnd5e::roll::{Die, Roll};
use dnd5e::text::parse_usize;

#[test]
fn ability_names() {
    assert_eq!(Ability::Dexterity.long_name(), "Dexterity");
    assert_eq!(Ability::Dexterity.abbreviated_name(), "dex");
    assert_eq!(Ability::Dexterity.abbreviation_upper(), "DEX");
    assert_eq!(Skill::SleightOfHand.display_name(), "Sleight of Hand");
    assert_eq!(Skill::AnimalHandling.display_name(), "Animal Handling");
}

#[test]
fn modifier_lines() {
    assert_eq!(saving_throw_modifier_text(Ability::Wisdom, &None), "on WIS");
    assert_eq!(
        saving_throw_modifier_text(Ability::Constitution, &Some("poison".to_owned())),
        "on CON against poison"
    );
    assert_eq!(ability_check_modifier_text(Ability::Strength, &None), "on STR checks");
    assert_eq!(
        ability_check_modifier_text(Ability::Charisma, &Some("lying".to_owned())),
        "on CHA checks when lying"
    );
}

#[test]
fn skill_table_groups() {
    let alpha = skill_groups(false);
    assert_eq!(alpha.len(), 1);
    assert_eq!(alpha[0].0, None);
    assert_eq!(alpha[0].1.len(), 18);
    assert_eq!(alpha[0].1[0], Skill::Acrobatics);

    let grouped = skill_groups(true);
    // Constitution has no skills, so five groups remain.
    assert_eq!(grouped.len(), 5);
    assert_eq!(grouped[0].0, Some(Ability::Strength));
    assert_eq!(grouped[0].1, vec![Skill::Athletics]);
    assert_eq!(grouped[1].0, Some(Ability::Dexterity));
    assert_eq!(
        grouped[1].1,
        vec![Skill::Acrobatics, Skill::SleightOfHand, Skill::Stealth]
    );
    assert_eq!(grouped[2].0, Some(Ability::Intelligence));
    assert_eq!(grouped[4].0, Some(Ability::Charisma));
    let total: usize = grouped.iter().map(|g| g.1.len()).sum();
    assert_eq!(total, 18);
}

#[test]
fn passive_scores() {
    assert_eq!(passive_score(0), 10);
    assert_eq!(passive_score(5), 15);
    assert_eq!(passive_score(-2), 8);
}

#[test]
fn action_budget_and_age() {
    assert_eq!(
        action_budget_text(1, Some(2), 1, 1),
        "1 Actions, 2 Attacks per Action, 1 Bonus Actions, 1 Reactions"
    );
    assert_eq!(action_budget_text(1, None, 0, 1), "1 Actions, 0 Bonus Actions, 1 Reactions");
    assert_eq!(age_text(0), "--");
    assert_eq!(age_text(27), "27");
}

#[test]
fn index_parsing() {
    assert_eq!(parse_usize("0"), Some(0));
    assert_eq!(parse_usize("42"), Some(42));
    assert_eq!(parse_usize("+7"), Some(7));
    assert_eq!(parse_usize(""), None);
    assert_eq!(parse_usize("-1"), None);
    assert_eq!(parse_usize("1a"), None);
    assert_eq!(parse_usize("99999999999999999999999"), None);
}

#[test]
fn equipment_group_choices() {
    assert_eq!(selected_indices(None), Vec::<usize>::new());
    let stored = vec!["2".to_owned(), "x".to_owned(), "0".to_owned()];
    assert_eq!(selected_indices(Some(&stored)), vec![2, 0]);

    assert_eq!(selection_change(false, 1), SelectionChange::Remove);
    assert_eq!(selection_change(true, 1), SelectionChange::Replace);
    assert_eq!(selection_change(true, 2), SelectionChange::Insert);

    assert!(can_select_new(1, 1));
    assert!(can_select_new(2, 1));
    assert!(!can_select_new(2, 2));

    assert!(option_disabled(true, true, true));
    assert!(option_disabled(false, false, false));
    assert!(!option_disabled(false, false, true));
    assert!(!option_disabled(false, true, false));

    assert!(option_missing_value(false, false));
    assert!(!option_missing_value(true, false));
    assert!(!option_missing_value(false, true));
}

#[test]
fn browser_amounts() {
    assert_eq!(clamp_amount(0), 1);
    assert_eq!(clamp_amount(50), 50);
    assert_eq!(clamp_amount(1000), 999);
    assert_eq!(step_amount(1, false), 1);
    assert_eq!(step_amount(1, true), 2);
    assert_eq!(step_amount(999, true), 999);
    assert_eq!(step_amount(5, false), 4);
    assert_eq!(stacked_count(20, 3), 60);
}

#[test]
fn browser_messages() {
    assert_eq!(add_items_message(1, 1), "Add 1 item to your equipment.");
    assert_eq!(add_items_message(4, 1), "Add 4 items to your equipment.");
    assert_eq!(add_items_message(1, 20), "Add 20 items to your equipment.");
    assert_eq!(add_items_message(3, 20), "Add 3 batches of 20 items to your equipment.");
    assert_eq!(buy_items_message(2, 1), "Buy 2 items for ");
}

#[test]
fn purchase_prices() {
    let worth = Wallet { copper: 0, silver: 0, electrum: 0, gold: 1, platinum: 0 };
    let plain = purchase_cost(worth, 15, false);
    assert_eq!(plain, Wallet { copper: 0, silver: 0, electrum: 0, gold: 15, platinum: 0 });
    let exchanged = purchase_cost(worth, 15, true);
    assert_eq!(exchanged, Wallet { copper: 0, silver: 0, electrum: 0, gold: 5, platinum: 1 });
    let small = Wallet { copper: 5, silver: 1, electrum: 0, gold: 0, platinum: 0 };
    assert_eq!(
        purchase_cost(small, 4, true),
        Wallet { copper: 0, silver: 1, electrum: 1, gold: 0, platinum: 0 }
    );
}

#[test]
fn starting_equipment_totals() {
    let mut total = SelectedEquipment::empty();
    assert!(!total.is_missing_selections());
    let mut part = SelectedEquipment::empty();
    part.wallet.gold = 10;
    part.item_ids.push("explorers-pack".to_owned());
    total.extend(part);
    let mut other = SelectedEquipment::empty();
    other.wallet.gold = 5;
    other.wallet.silver = 3;
    other.item_ids.push("dagger".to_owned());
    other.missing_selections.push(vec!["starting_equipment".to_owned(), "0".to_owned()]);
    total.extend(other);
    assert_eq!(total.wallet.gold, 15);
    assert_eq!(total.wallet.silver, 3);
    assert_eq!(total.item_ids, vec!["explorers-pack".to_owned(), "dagger".to_owned()]);
    assert!(total.is_missing_selections());
}

#[test]
fn header_group_names() {
    assert_eq!(group_names(&Vec::new(), "/"), None);
    assert_eq!(group_names(&vec!["Barbarian".to_owned()], "/"), Some(vec!["Barbarian".to_owned()]));
    assert_eq!(
        group_names(&vec!["Barbarian".to_owned(), "Rogue".to_owned(), "Wizard".to_owned()], " / "),
        Some(vec![
            "Barbarian".to_owned(),
            " / ".to_owned(),
            "Rogue".to_owned(),
            " / ".to_owned(),
            "Wizard".to_owned()
        ])
    );
}

#[test]
fn item_details_texts() {
    let d6 = Roll::new(1, Die::D6);
    let damage = |roll, bonus| WeaponDamage { roll, bonus, damage_type: DamageType::Slashing };
    assert_eq!(damage(Some(d6), 0).text(), "1d6");
    assert_eq!(damage(Some(d6), 2).text(), "1d6+2");
    assert_eq!(damage(Some(d6), -1).text(), "1d6-1");
    assert_eq!(damage(None, 1).text(), "1");
    assert_eq!(damage(None, -3).text(), "-3");
    let range = Range { short_range: 80, long_range: 320, requires_ammunition: true, requires_loading: true };
    assert_eq!(range.text(), "80 ft. / 320 ft.");
    assert_eq!(equip_label(true), "Equipped");
    assert_eq!(equip_label(false), "Not Equipped");
    assert_eq!(step_count(3, true), 4);
    assert_eq!(step_count(0, false), 0);
    assert_eq!(step_count(u32::MAX, true), u32::MAX);
}
