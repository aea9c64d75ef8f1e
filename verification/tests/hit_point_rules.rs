use dnd5e::hit_points::{
    accepts_uint_key, change_kind, damage_amount, death_save_box_checked, healing_amount, quick_amount,
    step_delta, toggle_death_save, ChangeKind, HitPoints,
};

fn hp(current: u32, temp: u32) -> HitPoints {
    HitPoints { current, temp, failure_saves: 0, success_saves: 0 }
}

#[test]
fn healing_is_capped_at_max() {
    assert_eq!(hp(14, 0).plus_hp(8, 20).current, 20);
    assert_eq!(hp(14, 3).plus_hp(2, 20), hp(16, 3));
    assert_eq!(hp(25, 0).plus_hp(5, 20).current, 25);
}

#[test]
fn temporary_hit_points_absorb_damage_first() {
    assert_eq!(hp(20, 5).plus_hp(-7, 20), hp(18, 0));
    assert_eq!(hp(20, 10).plus_hp(-4, 20), hp(20, 6));
    assert_eq!(hp(6, 0).plus_hp(-18, 12), hp(0, 0));
    assert_eq!(hp(6, 0).plus_hp(i32::MIN, 12), hp(0, 0));
}

#[test]
fn damage_then_heal_restores() {
    let start = hp(15, 0);
    let hurt = start.plus_hp(-6, 20);
    assert_eq!(hurt.plus_hp(6, 20), start);
}

#[test]
fn regaining_hit_points_resets_death_saves() {
    let down = HitPoints { current: 0, temp: 0, failure_saves: 2, success_saves: 1 };
    let up = down.plus_hp(3, 10);
    assert_eq!(up, hp(3, 0));
    let still = down.plus_hp(0, 10);
    assert_eq!(still, down);
    let mut applied = down;
    applied.apply_delta(3, 10);
    assert_eq!(applied, up);
    applied.set_temp(4);
    assert_eq!(applied.temp, 4);
}

#[test]
fn death_save_boxes() {
    assert_eq!(toggle_death_save(1, true), 2);
    assert_eq!(toggle_death_save(0, false), 0);
    assert_eq!(toggle_death_save(255, true), 255);
    assert!(death_save_box_checked(2, 1));
    assert!(!death_save_box_checked(2, 2));
}

#[test]
fn pending_change_form() {
    assert_eq!(healing_amount(7), 7);
    assert_eq!(healing_amount(-7), 0);
    assert_eq!(damage_amount(-7), 7);
    assert_eq!(damage_amount(i32::MIN), 2147483648);
    assert_eq!(damage_amount(3), 0);
    assert_eq!(step_delta(i32::MAX, true), i32::MAX);
    assert_eq!(step_delta(0, false), -1);
    assert_eq!(change_kind(10, 12), ChangeKind::Heal);
    assert_eq!(change_kind(10, 2), ChangeKind::Damage);
    assert_eq!(change_kind(10, 10), ChangeKind::Unchanged);
}

#[test]
fn quick_amount_input() {
    assert_eq!(quick_amount(""), Some(1));
    assert_eq!(quick_amount("12"), Some(12));
    assert_eq!(quick_amount("+3"), Some(3));
    assert_eq!(quick_amount("abc"), None);
    assert_eq!(quick_amount("-1"), None);
    assert_eq!(quick_amount("4294967296"), None);
    assert!(accepts_uint_key("7"));
    assert!(!accepts_uint_key("a"));
    assert!(accepts_uint_key("Backspace"));
}
