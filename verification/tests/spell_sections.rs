use dnd5e::spells::{
    can_select_more, rank_label, rank_suffix, ritual_section, section_shown, section_title,
    section_title_from, spell_list_action, spell_sections, ButtonStyle, CasterKind, SpellListSection,
};

#[test]
fn suffixes_and_labels() {
    assert_eq!(rank_suffix(1), "st");
    assert_eq!(rank_suffix(2), "nd");
    assert_eq!(rank_suffix(3), "rd");
    assert_eq!(rank_suffix(7), "th");
    assert_eq!(rank_suffix(0), "");
    assert_eq!(rank_suffix(12), "");
    assert_eq!(rank_label(0), "Cantrip");
    assert_eq!(rank_label(3), "3rd");
}

#[test]
fn section_titles() {
    assert_eq!(section_title(0), "CANTRIP");
    assert_eq!(section_title(1), "1ST LEVEL");
    assert_eq!(section_title(9), "9TH LEVEL");
    assert_eq!(section_title_from(2, "ND LEVEL"), "2ND LEVEL");
    assert_eq!(section_title_from(0, "CANTRIP"), "CANTRIP");
}

#[test]
fn sections_listing_a_spell() {
    let mut slots = vec![false; 10];
    slots[1] = true;
    slots[2] = true;
    slots[3] = true;
    assert_eq!(spell_sections(1, None, true, &slots), vec![1, 2, 3]);
    assert_eq!(spell_sections(2, None, false, &slots), vec![2]);
    assert_eq!(spell_sections(5, None, false, &slots), Vec::<u8>::new());
    assert_eq!(spell_sections(0, None, true, &slots), vec![0]);
    assert_eq!(spell_sections(1, Some(3), true, &slots), vec![3]);
    assert_eq!(spell_sections(12, None, true, &slots), Vec::<u8>::new());
    assert_eq!(ritual_section(3, true), Some(3));
    assert_eq!(ritual_section(3, false), None);
    assert!(section_shown(2, 1, false));
    assert!(section_shown(2, 0, true));
    assert!(!section_shown(0, 0, true));
}

#[test]
fn spell_list_actions() {
    assert_eq!(
        spell_list_action(CasterKind::Prepared, 1, true, SpellListSection::Selected, true),
        ("Unprepare", ButtonStyle::OutlineTheme, false)
    );
    assert_eq!(
        spell_list_action(CasterKind::Prepared, 1, true, SpellListSection::Available, true),
        ("Prepared", ButtonStyle::Theme, false)
    );
    assert_eq!(
        spell_list_action(CasterKind::Prepared, 0, false, SpellListSection::Available, false),
        ("Learn", ButtonStyle::OutlineSecondary, true)
    );
    assert_eq!(
        spell_list_action(CasterKind::Known, 2, true, SpellListSection::Available, false),
        ("Delete", ButtonStyle::Theme, false)
    );
    assert!(can_select_more(0, None, 0, 0));
    assert!(can_select_more(0, Some((1, 9)), 2, 3));
    assert!(!can_select_more(1, Some((1, 3)), 2, 3));
}
