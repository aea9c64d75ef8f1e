use dnd5e::condition::{
    card_tags, insert_condition_tag, AppliedCondition, BoxedCondition, Blinded, Condition, Custom,
    Exhasted, Exhaustion, ImpliedCondition, Poisoned, BLINDED_TEXT, EXHAUSTION_TEXT, POISONED_TEXT,
};
use dnd5e::order::sorted_texts;

#[test]
fn exhaustion_names_and_effects() {
    assert_eq!(Exhaustion::Level1.name(), "Level 1");
    assert_eq!(Exhaustion::Level6.name(), "Level 6");
    assert_eq!(Exhaustion::Level2.description(), "Speed halved");
    assert_eq!(Exhaustion::Level6.description(), "Death");
}

#[test]
fn exhaustion_next_and_prev_are_inverse() {
    let all = [
        Exhaustion::Level1,
        Exhaustion::Level2,
        Exhaustion::Level3,
        Exhaustion::Level4,
        Exhaustion::Level5,
        Exhaustion::Level6,
    ];
    for level in all {
        if let Some(n) = level.next() {
            assert_eq!(n.prev(), Some(level));
        }
        if let Some(p) = level.prev() {
            assert_eq!(p.next(), Some(level));
        }
    }
    assert_eq!(Exhaustion::Level6.next(), None);
    assert_eq!(Exhaustion::Level1.prev(), None);
    assert_eq!(Exhaustion::Level3.next(), Some(Exhaustion::Level4));
}

#[test]
fn exhaustion_to_vec_lists_this_and_lower_levels() {
    assert_eq!(
        Exhaustion::Level3.to_vec(),
        vec![Exhaustion::Level3, Exhaustion::Level2, Exhaustion::Level1]
    );
    assert_eq!(Exhaustion::Level1.to_vec(), vec![Exhaustion::Level1]);
    assert_eq!(Exhaustion::Level6.to_vec().len(), 6);
}

#[test]
fn exhausted_description_lists_effects() {
    let desc = Exhasted(Exhaustion::Level2).description();
    let expected = format!(
        "{}Effects:\nLevel 2: Speed halved\nLevel 1: Disadvantage on ability checks",
        EXHAUSTION_TEXT
    );
    assert_eq!(desc, expected);
}

#[test]
fn condition_descriptions() {
    assert_eq!(Blinded.description(), BLINDED_TEXT);
    assert!(Blinded.description().starts_with("A blinded creature can't see"));
    assert_eq!(
        Poisoned.description(),
        "A poisoned creature has disadvantage on attack rolls and ability checks."
    );
    assert_eq!(BoxedCondition::Poisoned(Poisoned).description(), POISONED_TEXT);
    let custom = Custom {
        name: "Hexed".to_owned(),
        description: "Cursed by a hex.".to_owned(),
        mutators: Vec::new(),
        criteria: None,
    };
    assert_eq!(custom.description(), "Cursed by a hex.");
    assert_eq!(BoxedCondition::Custom(custom).description(), "Cursed by a hex.");
}

#[test]
fn condition_tags_follow_implied_conditions() {
    let stunned_like = AppliedCondition {
        name: "Dazed".to_owned(),
        implied: vec![
            ImpliedCondition::Id("incapacitated".to_owned()),
            ImpliedCondition::Custom(AppliedCondition {
                name: "Slowed".to_owned(),
                implied: vec![ImpliedCondition::Custom(AppliedCondition { name: "Tired".to_owned(), implied: Vec::new() })],
            }),
            ImpliedCondition::Custom(AppliedCondition { name: "Shaken".to_owned(), implied: Vec::new() }),
        ],
    };
    let mut out = vec!["Prone".to_owned()];
    insert_condition_tag(&mut out, &stunned_like);
    assert_eq!(out, vec!["Prone", "Dazed", "Slowed", "Tired", "Shaken"]);
}

#[test]
fn conditions_card_lists_sorted_tags() {
    let conditions = vec![
        AppliedCondition {
            name: "Poisoned".to_owned(),
            implied: vec![ImpliedCondition::Custom(AppliedCondition { name: "Nauseous".to_owned(), implied: Vec::new() })],
        },
        AppliedCondition { name: "Blinded".to_owned(), implied: Vec::new() },
        AppliedCondition { name: "Blinded".to_owned(), implied: vec![ImpliedCondition::Id("x".to_owned())] },
    ];
    assert_eq!(card_tags(&conditions), vec!["Blinded", "Blinded", "Nauseous", "Poisoned"]);
    assert!(card_tags(&Vec::new()).is_empty());
}

#[test]
fn texts_sort_like_str_order() {
    let v = vec!["b".to_owned(), "a".to_owned(), "B".to_owned(), "ab".to_owned(), "a".to_owned()];
    assert_eq!(sorted_texts(&v), vec!["B", "a", "a", "ab", "b"]);
}
