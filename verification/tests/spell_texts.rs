use dnd5e::ability::Ability;
use dnd5e::actions::AreaOfEffect;
use dnd5e::roll::{Die, Roll};
use dnd5e::spell_text::{
    capacity_text, casting_time_column, casting_time_text, check_column, component_items,
    damage_column, duration_text, limited_use_note, module_source_text, range_text, rank_line,
    shows_ritual_mark, spell_area_text, stats_line, caster_save_dc, use_kind, CastingDuration, DurationKind, ModuleSource,
    SpellCheck, SpellRange, UseSpell,
};

#[test]
fn casting_times() {
    assert_eq!(casting_time_column(&CastingDuration::Action), "1A");
    assert_eq!(casting_time_column(&CastingDuration::Bonus), "1BA");
    assert_eq!(casting_time_column(&CastingDuration::Reaction(None)), "1R");
    assert_eq!(casting_time_column(&CastingDuration::Unit(10, "minutes".to_owned())), "10m");
    assert_eq!(casting_time_text(&CastingDuration::Action, false), "1 action");
    assert_eq!(casting_time_text(&CastingDuration::Bonus, false), "1 bonus action");
    assert_eq!(
        casting_time_text(&CastingDuration::Reaction(Some("when you are hit".to_owned())), false),
        "1 reaction (when you are hit)"
    );
    assert_eq!(casting_time_text(&CastingDuration::Unit(1, "minute".to_owned()), true), "1 minute (ritual)");
}

#[test]
fn ranges_areas_durations() {
    assert_eq!(range_text(&SpellRange::OnlySelf), "Self");
    assert_eq!(range_text(&SpellRange::Touch), "Touch");
    assert_eq!(range_text(&SpellRange::Unit { distance: 120, unit: "feet".to_owned() }), "120 feet");
    assert_eq!(range_text(&SpellRange::Sight), "Sight");
    assert_eq!(range_text(&SpellRange::Unlimited), "Unlimited");
    assert_eq!(spell_area_text(AreaOfEffect::Sphere { radius: 20 }), "20ft. Sphere");
    assert_eq!(spell_area_text(AreaOfEffect::Cylinder { radius: 10, height: 40 }), "10ft. x 40ft. Cylinder");
    assert_eq!(spell_area_text(AreaOfEffect::Cone { length: 15 }), "15ft. Cone");
    assert_eq!(duration_text(&DurationKind::Instantaneous, false), "Instantaneous");
    assert_eq!(duration_text(&DurationKind::Unit(1, "hour".to_owned()), true), "1 hour (requires concentration)");
    assert_eq!(duration_text(&DurationKind::Special, false), "Special");
    assert_eq!(rank_line(0), "Cantrip");
    assert_eq!(rank_line(3), "3rd Level");
}

#[test]
fn components_and_sources() {
    let materials = vec![("a pinch of salt".to_owned(), false), ("a diamond".to_owned(), true)];
    assert_eq!(
        component_items(true, false, &materials),
        vec!["Verbal", "Material: a pinch of salt", "Material: a diamond (consumed)"]
    );
    assert_eq!(component_items(false, true, &Vec::new()), vec!["Somatic"]);
    assert_eq!(module_source_text(&ModuleSource::Local { name: "homebrew".to_owned() }), "homebrew (local)");
    assert_eq!(
        module_source_text(&ModuleSource::Github { user_org: "org".to_owned(), repository: "srd".to_owned() }),
        "org:srd (github)"
    );
}

#[test]
fn check_and_damage_columns() {
    assert_eq!(check_column(None, 5), "--");
    assert_eq!(check_column(Some(SpellCheck::AttackRoll), 5), "+5");
    assert_eq!(check_column(Some(SpellCheck::AttackRoll), -1), "-1");
    // the ability is upper-cased by convert_case
    assert_eq!(check_column(Some(SpellCheck::SavingThrow(Ability::Dexterity, None)), 5), "DEX 13");
    assert_eq!(check_column(Some(SpellCheck::SavingThrow(Ability::Wisdom, Some(15))), 5), "WIS 15");
    let rolls = vec![Roll::new(8, Die::D6), Roll::new(1, Die::D4)];
    assert_eq!(damage_column(&rolls, 0), "8d6+1d4");
    assert_eq!(damage_column(&rolls, 3), "8d6+1d4+3");
    assert_eq!(damage_column(&vec![Roll::new(1, Die::D10)], -1), "1d10-1");
}

#[test]
fn casting_a_row() {
    assert_eq!(use_kind(true, 1, 1, None, None), UseSpell::RitualOnly);
    assert_eq!(use_kind(false, 0, 0, None, None), UseSpell::AtWill);
    assert_eq!(
        use_kind(false, 1, 3, Some((1, 2)), None),
        UseSpell::Slot { spell_rank: 1, slot_rank: 3, slots: Some((1, 2)) }
    );
    assert_eq!(use_kind(false, 2, 2, None, Some((1, 3))), UseSpell::LimitedUse { uses_consumed: 1, max_uses: 3 });
    assert_eq!(limited_use_note(1, 3, Some("Long")), "(2/3 per Long rest)");
    assert_eq!(limited_use_note(5, 3, None), "(0/3)");
    assert!(shows_ritual_mark(true, true, false));
    assert!(shows_ritual_mark(true, false, true));
    assert!(!shows_ritual_mark(true, false, false));
    assert!(!shows_ritual_mark(false, true, true));
    assert_eq!(capacity_text("Cantrips", 2, 3), ("Cantrips: 2 / 3".to_owned(), true));
    assert_eq!(capacity_text("Spells", 4, 4), ("Spells: 4 / 4".to_owned(), false));
}

#[test]
fn caster_statistics() {
    assert_eq!(stats_line(&vec![3, -1], true), "+3 | -1");
    assert_eq!(stats_line(&vec![13, 9], false), "13 | 9");
    assert_eq!(stats_line(&vec![5], true), "+5");
    assert_eq!(stats_line(&Vec::new(), true), "");
    assert_eq!(caster_save_dc(5), 13);
}
