use dnd5e::spell_sections::{RitualSource, SpellLocation, SpellRow, SpellSection, SpellSections};

fn path(parts: &[&str]) -> Vec<String> {
    parts.iter().map(|p| p.to_string()).collect()
}

fn selected(spell: &str) -> SpellLocation {
    SpellLocation::Selected { spell_id: spell.to_owned(), caster_id: "Wizard".to_owned() }
}

fn names(sections: &SpellSections, rank: u8) -> Vec<String> {
    sections.section(rank).rows.iter().map(|r| r.name.clone()).collect()
}

#[test]
fn sections_start_empty() {
    let sections = SpellSections::new();
    for rank in 0..=9u8 {
        assert!(sections.section(rank).slot_count.is_none());
        assert!(sections.section(rank).rows.is_empty());
    }
}

#[test]
fn spells_go_to_sections_with_slots() {
    let mut sections = SpellSections::new();
    sections.set_slots(1, 1, 4);
    sections.set_slots(2, 0, 2);
    assert_eq!(sections.section(1).slot_count, Some((1, 4)));
    let source = path(&["Wizard"]);
    // upcast with a slot: listed at its rank and every higher rank with slots
    sections.insert_spell("Magic Missile", 1, None, true, &source, &selected("magic-missile"));
    assert_eq!(names(&sections, 1), vec!["Magic Missile"]);
    assert_eq!(names(&sections, 2), vec!["Magic Missile"]);
    assert!(sections.section(3).rows.is_empty());
    // cantrips always have their section
    sections.insert_spell("Fire Bolt", 0, None, true, &source, &selected("fire-bolt"));
    assert_eq!(names(&sections, 0), vec!["Fire Bolt"]);
    // a spell of a rank without slots is not listed
    sections.insert_spell("Fireball", 3, None, true, &source, &selected("fireball"));
    assert!(sections.section(3).rows.is_empty());
    // a forced rank lists it only there
    sections.insert_spell("Burning Hands", 1, Some(2), true, &source, &selected("burning-hands"));
    assert_eq!(names(&sections, 1), vec!["Magic Missile"]);
    assert_eq!(names(&sections, 2), vec!["Burning Hands", "Magic Missile"]);
}

#[test]
fn rows_are_sorted_by_name_then_source() {
    let mut sections = SpellSections::new();
    let wizard = path(&["Wizard"]);
    let cleric = path(&["Cleric"]);
    sections.insert_spell("Light", 0, None, false, &wizard, &selected("light"));
    sections.insert_spell("Guidance", 0, None, false, &cleric, &selected("guidance"));
    sections.insert_spell("Light", 0, None, false, &cleric, &selected("light"));
    sections.insert_spell("Acid Splash", 0, None, false, &wizard, &selected("acid-splash"));
    assert_eq!(names(&sections, 0), vec!["Acid Splash", "Guidance", "Light", "Light"]);
    let rows = &sections.section(0).rows;
    assert_eq!(rows[2].source, cleric);
    assert_eq!(rows[3].source, wizard);
}

#[test]
fn rituals_listed_at_their_rank() {
    let mut sections = SpellSections::new();
    let wizard = path(&["Wizard"]);
    // no slots are needed for a ritual
    sections.insert_as_ritual("Detect Magic", 1, true, &wizard, "detect-magic", RitualSource::Caster("Wizard".to_owned()));
    assert_eq!(names(&sections, 1), vec!["Detect Magic"]);
    match &sections.section(1).rows[0].location {
        SpellLocation::AvailableAsRitual { spell_id, source: RitualSource::Caster(c) } => {
            assert_eq!(spell_id, "detect-magic");
            assert_eq!(c, "Wizard");
        }
        _ => panic!("expected a ritual location"),
    }
    // not castable as a ritual: nothing happens
    sections.insert_as_ritual("Alarm", 1, false, &wizard, "alarm", RitualSource::AlwaysPrepared(path(&["Feat"])));
    assert_eq!(names(&sections, 1), vec!["Detect Magic"]);
    // a rank without a section: nothing happens
    sections.insert_as_ritual("Odd", 12, true, &wizard, "odd", RitualSource::Caster("Wizard".to_owned()));
    for rank in 2..=9u8 {
        assert!(sections.section(rank).rows.is_empty());
    }
}

#[test]
fn selected_and_always_prepared_spells() {
    let mut sections = SpellSections::new();
    sections.set_slots(1, 0, 2);
    let wizard = path(&["Wizard"]);
    sections.insert_selected("Shield", 1, None, true, &wizard, "shield", "Wizard");
    match &sections.section(1).rows[0].location {
        SpellLocation::Selected { spell_id, caster_id } => {
            assert_eq!(spell_id, "shield");
            assert_eq!(caster_id, "Wizard");
        }
        _ => panic!("expected a selected spell"),
    }
    // an always-prepared ritual: listed once as a spell and once as a ritual
    let domain = path(&["Cleric", "Domain"]);
    sections.insert_always_prepared("Detect Magic", 1, None, true, true, &domain, "detect-magic", &domain);
    assert_eq!(names(&sections, 1), vec!["Detect Magic", "Detect Magic", "Shield"]);
    let ritual_rows = sections
        .section(1)
        .rows
        .iter()
        .filter(|r| matches!(r.location, SpellLocation::AvailableAsRitual { source: RitualSource::AlwaysPrepared(_), .. }))
        .count();
    assert_eq!(ritual_rows, 1);
}

fn selected_row(name: &str, source: &str) -> SpellRow {
    SpellRow {
        name: name.to_string(),
        source: vec![source.to_string()],
        location: SpellLocation::Selected { spell_id: name.to_lowercase(), caster_id: "wizard".to_string() },
    }
}

#[test]
fn a_section_keeps_its_rows_sorted_by_name_then_source() {
    let mut section = SpellSection { slot_count: Some((1, 4)), rows: Vec::new() };
    section.insert_spell(selected_row("Shield", "wizard"));
    section.insert_spell(selected_row("Mage Armor", "wizard"));
    section.insert_spell(selected_row("Shield", "cleric"));
    section.insert_spell(selected_row("Sleep", "wizard"));
    let keys: Vec<(String, String)> =
        section.rows.iter().map(|r| (r.name.clone(), r.source[0].clone())).collect();
    assert_eq!(
        keys,
        vec![
            ("Mage Armor".to_string(), "wizard".to_string()),
            ("Shield".to_string(), "cleric".to_string()),
            ("Shield".to_string(), "wizard".to_string()),
            ("Sleep".to_string(), "wizard".to_string()),
        ]
    );
    assert_eq!(section.slot_count, Some((1, 4)));
}
