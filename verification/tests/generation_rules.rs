use dnd5e::generation::{
    get_pt_buy_cost, point_buy_option_disabled, point_buy_start, points_remaining, points_used,
    standard_array_remaining, standard_array_start, GeneratorMethod,
};

#[test]
fn point_buy_costs() {
    assert_eq!(get_pt_buy_cost(8), 0);
    assert_eq!(get_pt_buy_cost(13), 5);
    assert_eq!(get_pt_buy_cost(14), 7);
    assert_eq!(get_pt_buy_cost(15), 9);
    assert_eq!(get_pt_buy_cost(7), 0);
    assert_eq!(get_pt_buy_cost(16), 0);
}

#[test]
fn point_buy_start_fits_the_budget() {
    let start = point_buy_start(&vec![15, 15, 15, 15, 3, 20]);
    assert_eq!(start, vec![15, 15, 15, 8, 8, 8]);
    assert_eq!(points_used(&start), 27);
    assert_eq!(points_remaining(&start), 0);
    let kept = point_buy_start(&vec![10, 12, 14, 8, 9, 13]);
    assert_eq!(kept, vec![10, 12, 14, 8, 9, 13]);
    assert_eq!(points_remaining(&kept), 27 - (2 + 4 + 7 + 0 + 1 + 5));
    for scores in [vec![0; 6], vec![15; 6], vec![14, 14, 14, 14, 14, 14]] {
        let start = point_buy_start(&scores);
        assert!(start.iter().all(|s| (8..=15).contains(s)));
        assert!(points_used(&start) <= 27);
    }
}

#[test]
fn point_buy_options() {
    assert!(!point_buy_option_disabled(8, 15, 9));
    assert!(point_buy_option_disabled(8, 15, 8));
    assert!(!point_buy_option_disabled(15, 8, 0));
}

#[test]
fn standard_array() {
    let start = standard_array_start(&vec![15, 15, 8, 9, 10, 13]);
    assert_eq!(start, vec![15, 0, 8, 0, 10, 13]);
    assert_eq!(standard_array_remaining(&start), vec![12, 14]);
    assert_eq!(standard_array_remaining(&vec![0; 6]), vec![8, 10, 12, 13, 14, 15]);
}

#[test]
fn generator_methods() {
    assert_eq!(GeneratorMethod::all(), vec![GeneratorMethod::PointBuy, GeneratorMethod::StandardArray]);
    assert_eq!(GeneratorMethod::PointBuy.display_name(), "Point Buy");
    for m in GeneratorMethod::all() {
        assert_eq!(GeneratorMethod::from_str(&m.to_string()), Some(m));
    }
    assert_eq!(GeneratorMethod::from_str("Point Buy"), None);
}
