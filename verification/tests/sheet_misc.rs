use dnd5e::ability::{ability_modifier, Ability, Skill};
use dnd5e::character::ActivationKind;
use dnd5e::display::{ActionTag, HeightDisplay, Presentation, WeightDisplay};
use dnd5e::proficiency::{
    check_modifier, level_map, proficiency_bonus, spell_attack_bonus, spell_save_dc, Bonus, Level,
};
use dnd5e::roll::{total_of, Die, Roll};
use dnd5e::text::{normalize_export, parse_u32, push_int, push_signed, replace_all, str_eq, to_decimal};
use dnd5e::uses::{
    can_choose_more, can_use, consume_uses, counter_style, use_box_checked, use_box_locked,
    uses_remaining, uses_remaining_after, CounterStyle,
};

#[test]
fn abilities_and_modifiers() {
    assert_eq!(ability_modifier(10), 0);
    assert_eq!(ability_modifier(11), 0);
    assert_eq!(ability_modifier(9), -1);
    assert_eq!(ability_modifier(8), -1);
    assert_eq!(ability_modifier(15), 2);
    assert_eq!(ability_modifier(1), -5);
    assert_eq!(ability_modifier(0), -5);
    assert_eq!(Ability::all().len(), 6);
    assert_eq!(Ability::all_except(Ability::Strength)[0], Ability::Dexterity);
    assert_eq!(Skill::Stealth.ability(), Ability::Dexterity);
    assert_eq!(Skill::Insight.ability(), Ability::Wisdom);
}

#[test]
fn proficiency_rules() {
    assert_eq!(proficiency_bonus(1), 2);
    assert_eq!(proficiency_bonus(5), 3);
    assert_eq!(proficiency_bonus(12), 4);
    assert_eq!(proficiency_bonus(17), 6);
    for (first, last, bonus) in level_map() {
        assert_eq!(proficiency_bonus(first), bonus);
        if let Some(last) = last {
            assert_eq!(proficiency_bonus(last), bonus);
        }
    }
    assert_eq!(Level::HalfDown.bonus(3), 1);
    assert_eq!(Level::HalfUp.bonus(3), 2);
    assert_eq!(Level::Double.bonus(3), 6);
    assert_eq!(Level::NotProficient.bonus(3), 0);
    let bonuses = vec![
        Bonus { value: 1, context: None },
        Bonus { value: 5, context: Some("against poison".to_owned()) },
        Bonus { value: -2, context: None },
    ];
    assert_eq!(check_modifier(3, Level::Full, 2, &bonuses), 4);
    assert_eq!(spell_attack_bonus(3, 2), 5);
    assert_eq!(spell_save_dc(3, 2), 13);
}

#[test]
fn dice_rolls() {
    assert_eq!(Die::D12.sides(), 12);
    let roll = Roll::new(3, Die::D6);
    assert_eq!(roll.to_string(), "3d6");
    for _ in 0..20 {
        let total = roll.roll();
        assert!((3..=18).contains(&total));
    }
    assert_eq!(Roll::new(0, Die::D20).roll(), 0);
    assert_eq!(Roll::new(2, Die::D4).to_string(), "2d4");
}

#[test]
fn roll_totals_sum_the_faces() {
    assert_eq!(total_of(&vec![3, 6, 1]), 10);
    assert_eq!(total_of(&vec![]), 0);
    assert_eq!(total_of(&vec![20]), 20);
}

#[test]
fn measurements() {
    assert_eq!(HeightDisplay::default_display().format(71), "5 ft 11 inches");
    assert_eq!(HeightDisplay::Imperial.format(71), "71 inches");
    assert_eq!(HeightDisplay::Metric.format(71), "180 cm");
    assert_eq!(WeightDisplay::Imperial.format(180), "180 lbs");
    assert_eq!(WeightDisplay::Metric.format(180), "82 kgs");
    let d = HeightDisplay::Metric;
    assert_eq!(d.next().next().next(), d);
    assert_eq!(WeightDisplay::Imperial.next().next(), WeightDisplay::Imperial);
}

#[test]
fn labels() {
    assert_eq!(ActionTag::from_activation(ActivationKind::Bonus), ActionTag::BonusAction);
    assert_eq!(ActionTag::from_activation(ActivationKind::Minute(10)), ActionTag::Other);
    assert_eq!(ActionTag::LimitedUse.display_name(), "Limited Use");
    assert_eq!(Presentation::from_str("By Ability"), Some(Presentation::ByAbility));
    assert_eq!(Presentation::from_str(Presentation::Alphabetical.display_name()), Some(Presentation::Alphabetical));
    assert_eq!(Presentation::from_str("by ability"), None);
}

#[test]
fn text_helpers() {
    assert_eq!(to_decimal(0), "0");
    assert_eq!(to_decimal(1207), "1207");
    let mut s = String::new();
    push_signed(&mut s, 3);
    push_signed(&mut s, -2);
    push_signed(&mut s, 0);
    push_int(&mut s, -7);
    push_int(&mut s, 7);
    assert_eq!(s, "+3-2+0-77");
    assert_eq!(parse_u32("4294967295"), Some(u32::MAX));
    assert_eq!(parse_u32(""), None);
    assert_eq!(parse_u32("+"), None);
    assert_eq!(parse_u32("12a"), None);
    assert!(str_eq("abc", "abc"));
    assert!(!str_eq("abc", "abd"));
}

#[test]
fn use_counters() {
    assert_eq!(counter_style(0), CounterStyle::Hidden);
    assert_eq!(counter_style(5), CounterStyle::Checkboxes);
    assert_eq!(counter_style(6), CounterStyle::Numeric);
    assert_eq!(consume_uses(2, -5), 0);
    assert_eq!(consume_uses(2, 3), 5);
    assert_eq!(consume_uses(consume_uses(2, 3), -3), 2);
    assert!(can_use(1, 2));
    assert!(!can_use(2, 2));
    assert_eq!(uses_remaining(3, 5), 0);
    assert_eq!(uses_remaining_after(5, 2, -1), 2);
    assert!(use_box_checked(2, 1, 2));
    assert!(!use_box_checked(3, 1, 2));
    assert!(use_box_locked(0, 1));
    assert!(can_choose_more(1, 1, 3));
    assert!(!can_choose_more(2, 1, 3));
}

#[test]
fn replace_all_goes_left_to_right_without_overlap() {
    assert_eq!(replace_all("aaa", "aa", "b"), "ba");
    assert_eq!(replace_all("a-b-c", "-", ", "), "a, b, c");
    assert_eq!(replace_all("abc", "x", "y"), "abc");
    assert_eq!(replace_all("", "x", "y"), "");
}

#[test]
fn export_text_unescapes_and_uses_tabs() {
    assert_eq!(normalize_export("a\\r\\nb\\tc"), "a\nb\tc");
    assert_eq!(normalize_export("    x\n        y"), "\tx\n\t\ty");
    assert_eq!(normalize_export("plain"), "plain");
}
