use dnd5e::ability::Ability;
use dnd5e::actions::{
    area_of_effect_text, attack_kind_lines, attack_roll_text, attack_rows, collapsed_tag,
    damage_breakdown, damage_column_text, group_features, is_relevant, range_column_text,
    save_dc_breakdown, saving_throw_line, to_hit_breakdown, ActionSummary, AreaOfEffect,
    FeatureDisplayGroup, FeatureEntry, PanelFeature, TagSelection,
};
use dnd5e::actions::{applied_conditions_text, same_name_as_parent, shown_roots};
use dnd5e::character::ActivationKind;
use dnd5e::display::ActionTag;
use dnd5e::order::{compare_path, compare_text, Order};
use dnd5e::roll::{Die, Roll};

fn path(parts: &[&str]) -> Vec<String> {
    parts.iter().map(|p| p.to_string()).collect()
}

fn action(activation: ActivationKind) -> ActionSummary {
    ActionSummary { activation, limited_use: false, has_attack: false, weapon_attack: false }
}

fn feature(p: &[&str], name: &str, parent: Option<&[&str]>, collapsed: bool, act: Option<ActionSummary>) -> PanelFeature {
    PanelFeature {
        path: path(p),
        name: name.to_owned(),
        parent: parent.map(path),
        collapsed,
        action: act,
    }
}

fn entry(p: &[&str], name: &str) -> FeatureEntry {
    FeatureEntry {
        path: path(p),
        name: name.to_owned(),
        action: None,
        is_relevant: true,
        children: FeatureDisplayGroup::new(),
    }
}

fn names(group: &FeatureDisplayGroup) -> Vec<String> {
    group.iter().iter().map(|e| e.name.clone()).collect()
}

#[test]
fn text_and_path_order() {
    assert_eq!(compare_text("abc", "abd"), Order::Less);
    assert_eq!(compare_text("ab", "abc"), Order::Less);
    assert_eq!(compare_text("b", "abc"), Order::Greater);
    assert_eq!(compare_text("same", "same"), Order::Equal);
    // paths compare by component: "a" comes before "a-c" although '/' is after '-'
    assert_eq!(compare_path(&path(&["a", "b"]), &path(&["a-c"])), Order::Less);
    assert_eq!(compare_path(&path(&["a"]), &path(&["a", "b"])), Order::Less);
    assert_eq!(compare_path(&path(&["x", "y"]), &path(&["x", "y"])), Order::Equal);
}

#[test]
fn tag_selection_filters_features() {
    let all = TagSelection::all();
    assert!(all.contains(ActionTag::Passive));
    let only_bonus = TagSelection::only(ActionTag::BonusAction);
    assert!(only_bonus.contains(ActionTag::BonusAction));
    assert!(!only_bonus.contains(ActionTag::Action));

    assert!(is_relevant(all, None));
    assert!(!is_relevant(only_bonus, None));
    assert!(is_relevant(only_bonus, Some(action(ActivationKind::Bonus))));
    assert!(!is_relevant(only_bonus, Some(action(ActivationKind::Action))));
    let other = TagSelection::only(ActionTag::Other);
    assert!(is_relevant(other, Some(action(ActivationKind::Minute(10)))));
    assert!(!is_relevant(other, Some(action(ActivationKind::Reaction))));
    let limited = TagSelection::only(ActionTag::LimitedUse);
    let mut rage = action(ActivationKind::Bonus);
    rage.limited_use = true;
    assert!(is_relevant(limited, Some(rage)));
    let mut sword = action(ActivationKind::Action);
    sword.has_attack = true;
    sword.weapon_attack = true;
    assert!(!is_relevant(all, Some(sword)));

    assert_eq!(collapsed_tag(None), ActionTag::Passive);
    assert_eq!(collapsed_tag(Some(action(ActivationKind::Hour(1)))), ActionTag::Other);
    assert_eq!(collapsed_tag(Some(action(ActivationKind::Reaction))), ActionTag::Reaction);
}

#[test]
fn attack_table_texts() {
    assert_eq!(attack_roll_text(5), "+5");
    assert_eq!(attack_roll_text(0), "+0");
    assert_eq!(attack_roll_text(-2), "-2");
    let d8 = Roll::new(1, Die::D8);
    assert_eq!(damage_column_text(Some(d8), 0), "1d8");
    assert_eq!(damage_column_text(Some(d8), 3), "1d8 + 3");
    assert_eq!(damage_column_text(Some(d8), -1), "1d8 - 1");
    assert_eq!(damage_column_text(None, 4), "4");
    assert_eq!(damage_column_text(None, -4), "0");
    assert_eq!(range_column_text(Some(5), None), "5ft.");
    assert_eq!(range_column_text(None, Some((80, 320))), "80 / 320");
    assert_eq!(range_column_text(None, None), "");
}

#[test]
fn attack_rows_sorted_by_name_stably() {
    let mut atk = action(ActivationKind::Action);
    atk.has_attack = true;
    let features = vec![
        feature(&["Shortsword"], "Shortsword", None, false, Some(atk)),
        feature(&["Rage"], "Rage", None, false, Some(action(ActivationKind::Bonus))),
        feature(&["Dagger"], "Dagger", None, false, Some(atk)),
        feature(&["Dagger 2"], "Dagger", None, false, Some(atk)),
        feature(&["Darkvision"], "Darkvision", None, false, None),
    ];
    assert_eq!(attack_rows(&features), vec![2, 3, 0]);
}

#[test]
fn group_keeps_alphabetical_order() {
    let mut group = FeatureDisplayGroup::new();
    assert!(group.is_empty());
    group.insert(entry(&["b"], "Rage"));
    group.insert(entry(&["a"], "Darkvision"));
    group.insert(entry(&["c"], "Unarmored Defense"));
    group.insert(entry(&["d"], "Darkvision"));
    assert!(!group.is_empty());
    assert_eq!(names(&group), vec!["Darkvision", "Darkvision", "Rage", "Unarmored Defense"]);
    let paths: Vec<Vec<String>> = group.iter().iter().map(|e| e.path.clone()).collect();
    assert_eq!(paths[0], path(&["a"]));
    assert_eq!(paths[1], path(&["d"]));

    let removed = group.remove(&path(&["b"])).expect("held");
    assert_eq!(removed.name, "Rage");
    assert!(group.remove(&path(&["b"])).is_none());
    assert_eq!(names(&group), vec!["Darkvision", "Darkvision", "Unarmored Defense"]);

    assert!(group.insert_child(&path(&["c"]), entry(&["c", "x"], "Child")));
    assert!(!group.insert_child(&path(&["zzz"]), entry(&["zzz", "x"], "Orphan")));
    let taken = group.into_iter();
    assert_eq!(taken.len(), 3);
    assert_eq!(taken[2].children.iter().len(), 1);
}

#[test]
fn group_features_builds_the_panel() {
    let all = TagSelection::all();
    let features = vec![
        feature(&["Barbarian", "Rage"], "Rage", None, false, Some(action(ActivationKind::Bonus))),
        feature(&["Barbarian", "Rage", "Persistent"], "Persistent Rage", Some(&["Barbarian", "Rage"]), false, None),
        feature(&["Lineage", "Darkvision"], "Darkvision", None, true, None),
        feature(&["Culture", "Languages"], "Languages", None, true, None),
        feature(&["Lineage", "Darkvision", "Superior"], "Superior Darkvision", Some(&["Lineage", "Darkvision"]), false, None),
        feature(&["Missing", "Child"], "Orphan", Some(&["Nowhere"]), false, None),
        feature(&["Barbarian", "Danger Sense"], "Danger Sense", None, false, None),
    ];
    let (root, collapsed) = group_features(features, all);
    // Darkvision has a listed child, so it leaves the collapsed list.
    assert_eq!(names(&root), vec!["Danger Sense", "Darkvision", "Rage"]);
    assert_eq!(names(&collapsed), vec!["Languages"]);
    let rows = root.iter();
    assert_eq!(names(&rows[1].children), vec!["Superior Darkvision"]);
    assert_eq!(names(&rows[2].children), vec!["Persistent Rage"]);
    assert!(rows[0].children.is_empty());

    // With only bonus actions selected, passive children are not listed, and the collapsed
    // feature stays collapsed.
    let features = vec![
        feature(&["Lineage", "Darkvision"], "Darkvision", None, true, None),
        feature(&["Lineage", "Darkvision", "Superior"], "Superior Darkvision", Some(&["Lineage", "Darkvision"]), false, None),
    ];
    let (root, collapsed) = group_features(features, TagSelection::only(ActionTag::BonusAction));
    assert!(root.is_empty());
    assert_eq!(names(&collapsed), vec!["Darkvision"]);
    assert!(!collapsed.iter()[0].is_relevant);
}

#[test]
fn insert_then_remove_gives_the_group_back() {
    let mut group = FeatureDisplayGroup::new();
    group.insert(entry(&["a"], "Alert"));
    group.insert(entry(&["c"], "Cunning Action"));
    let before = names(&group);
    group.insert(entry(&["b"], "Brave"));
    assert_eq!(names(&group), vec!["Alert", "Brave", "Cunning Action"]);
    let taken = group.remove(&path(&["b"])).expect("just added");
    assert_eq!(taken.name, "Brave");
    assert_eq!(names(&group), before);
}

#[test]
fn feature_details_texts() {
    assert_eq!(area_of_effect_text(AreaOfEffect::Cone { length: 15 }), "Cone (15 ft)");
    assert_eq!(area_of_effect_text(AreaOfEffect::Cube { size: 10 }), "Cube (10 ft)");
    assert_eq!(
        area_of_effect_text(AreaOfEffect::Cylinder { radius: 10, height: 40 }),
        "Cylinder (10 ft. radius, 40 ft. height)"
    );
    assert_eq!(
        area_of_effect_text(AreaOfEffect::Line { width: 5, length: 30 }),
        "Line (5 ft. width, 30 ft. length)"
    );
    assert_eq!(area_of_effect_text(AreaOfEffect::Sphere { radius: 20 }), "Sphere (20 ft)");

    assert_eq!(attack_kind_lines(Some(5), None), Some(("Melee", "5 ft.".to_owned())));
    assert_eq!(attack_kind_lines(None, Some((30, 120))), Some(("Ranged", "30 ft / 120 ft".to_owned())));
    assert_eq!(attack_kind_lines(None, None), None);

    assert_eq!(to_hit_breakdown(Some(Ability::Strength), true), " (Strength modifier + proficiency bonus)");
    assert_eq!(to_hit_breakdown(None, false), " ()");
    assert_eq!(saving_throw_line(Ability::Dexterity, 13), "Dexterity - DC 13");
    assert_eq!(save_dc_breakdown(8, Some(Ability::Wisdom), true), "(8 + Wisdom modifier + proficiency bonus)");
    assert_eq!(save_dc_breakdown(0, None, false), "()");

    let d6 = Roll::new(1, Die::D6);
    assert_eq!(damage_breakdown(Some(d6), 4, 1, Some(Ability::Dexterity)), Some(" (1d6 + 1 + Dexterity modifier)".to_owned()));
    assert_eq!(damage_breakdown(Some(d6), 1, 1, Some(Ability::Dexterity)), None);
    assert_eq!(damage_breakdown(Some(d6), -1, 1, None), None);
}

#[test]
fn parent_name_is_the_last_path_segment() {
    let parent = vec!["Fighter".to_string(), "Second Wind".to_string()];
    assert!(same_name_as_parent(Some(&parent), "Second Wind"));
    assert!(!same_name_as_parent(Some(&parent), "Fighter"));
    assert!(!same_name_as_parent(Some(&Vec::new()), "Second Wind"));
    assert!(!same_name_as_parent(None, "Second Wind"));
}

#[test]
fn applied_conditions_are_comma_joined() {
    assert_eq!(applied_conditions_text(&vec![]), "");
    assert_eq!(applied_conditions_text(&vec!["Prone".to_string()]), "Prone");
    assert_eq!(
        applied_conditions_text(&vec!["Prone".to_string(), "Grappled".to_string(), "Blinded".to_string()]),
        "Prone, Grappled, Blinded"
    );
}

#[test]
fn roots_without_relevance_or_children_are_hidden() {
    let mut root = FeatureDisplayGroup::new();
    root.insert(entry(&["a"], "Rage"));
    let mut hidden = entry(&["b"], "Longsword Attack");
    hidden.is_relevant = false;
    root.insert(hidden);
    let mut parent = entry(&["c"], "Fighting Style");
    parent.is_relevant = false;
    parent.children.insert(entry(&["c", "d"], "Dueling"));
    root.insert(parent);
    let shown: Vec<String> = shown_roots(root).into_iter().map(|e| e.name).collect();
    assert_eq!(shown, vec!["Fighting Style".to_string(), "Rage".to_string()]);
}
