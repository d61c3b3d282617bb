//! Booster simulation: template choice, sheet draws and card ordering.

use mtgjson_sdk::booster::{
    arrange_by_ids, build_sheet, build_templates, cards_by_uuid_query, draw_from_sheet, draw_sheets,
    select_template, sheet_requests, BoosterPack, BoosterSheet,
};
use mtgjson_sdk::sampling::{
    pick_index, sample_with_replacement, sample_without_replacement, take_pick, template_for_roll,
    total_weight,
};
use mtgjson_sdk::MtgjsonError;

fn strings(v: &[&str]) -> Vec<String> {
    v.iter().map(|s| s.to_string()).collect()
}

fn sheet(cards: &[(&str, i64)], allow_duplicates: bool) -> BoosterSheet {
    BoosterSheet {
        allow_duplicates: Some(allow_duplicates),
        balance_colors: None,
        cards: cards.iter().map(|(c, w)| (c.to_string(), *w)).collect(),
        foil: false,
        fixed: None,
        total_weight: cards.iter().map(|(_, w)| *w).sum(),
    }
}

#[test]
fn without_replacement_draws_each_card_once() {
    for _ in 0..50 {
        let mut r = sample_without_replacement(&strings(&["a", "b", "c"]), &vec![1, 1, 1], 3);
        r.sort();
        assert_eq!(r, strings(&["a", "b", "c"]));
    }
}

#[test]
fn with_replacement_draws_exactly_the_count() {
    let ids = strings(&["a", "b", "c"]);
    let mut seen = std::collections::HashSet::new();
    for _ in 0..200 {
        let r = sample_with_replacement(&ids, &vec![1, 1, 1], 10);
        assert_eq!(r.len(), 10);
        for id in &r {
            assert!(ids.contains(id));
            seen.insert(id.clone());
        }
    }
    assert_eq!(seen.len(), 3);
}

#[test]
fn more_picks_than_cards_is_capped() {
    let r = sample_without_replacement(&strings(&["a", "b", "c"]), &vec![1, 2, 3], 7);
    assert_eq!(r.len(), 3);
    let s = sheet(&[("a", 1), ("b", 1)], false);
    assert_eq!(draw_from_sheet(&s, 5).len(), 2);
}

#[test]
fn nonpositive_weights_draw_nothing() {
    let ids = strings(&["a", "b", "c"]);
    assert!(sample_with_replacement(&ids, &vec![0, -1, 0], 4).is_empty());
    assert!(sample_without_replacement(&ids, &vec![0, -1, 0], 4).is_empty());
    assert!(draw_from_sheet(&sheet(&[("a", 0), ("b", -2)], true), 3).is_empty());
    assert!(draw_from_sheet(&sheet(&[("a", 0), ("b", -2)], false), 3).is_empty());
}

#[test]
fn zero_weight_cards_are_never_drawn() {
    for _ in 0..100 {
        let r = sample_with_replacement(&strings(&["a", "b"]), &vec![0, 4], 5);
        assert_eq!(r, strings(&["b", "b", "b", "b", "b"]));
        let r = sample_without_replacement(&strings(&["a", "b"]), &vec![0, 4], 2);
        assert_eq!(r, strings(&["b"]));
    }
}

#[test]
fn roulette_stops_where_running_total_exceeds_roll() {
    let w = vec![2, 3, 5];
    assert_eq!(total_weight(&w), 10);
    let expected = [0usize, 0, 1, 1, 1, 2, 2, 2, 2, 2];
    for roll in 0..10 {
        assert_eq!(pick_index(&w, roll as i128), expected[roll]);
    }
    let with_negative = vec![5, -3, 4];
    assert_eq!(total_weight(&with_negative), 6);
    assert_eq!(pick_index(&with_negative, 1), 0);
    assert_eq!(pick_index(&with_negative, 5), 2);
}

#[test]
fn template_roll_is_uniform_index_without_positive_total() {
    assert_eq!(template_for_roll(&vec![0, 0, 0], 2), 2);
    assert_eq!(template_for_roll(&vec![1, 3], 1), 1);
    assert_eq!(template_for_roll(&vec![1, 3], 0), 0);
}

#[test]
fn take_pick_removes_the_drawn_card() {
    let mut ids = strings(&["a", "b", "c"]);
    let mut w = vec![1, 1, 1];
    let got = take_pick(&mut ids, &mut w, 1);
    assert_eq!(got, "b");
    assert_eq!(ids, strings(&["a", "c"]));
    assert_eq!(w, vec![1, 1]);
}

#[test]
fn templates_group_contents_by_index() {
    let weights = vec![(Some(0), Some(3)), (Some(1), None), (None, Some(2))];
    let contents = vec![
        (Some(0), Some("common".to_string()), Some(10)),
        (Some(1), Some("foil".to_string()), None),
        (Some(0), Some("rare".to_string()), Some(1)),
        (None, None, Some(4)),
    ];
    let t = build_templates(&weights, &contents);
    assert_eq!(t.len(), 3);
    assert_eq!(t[0].weight, 3);
    assert_eq!(t[0].contents, vec![("common".to_string(), 10), ("rare".to_string(), 1), (String::new(), 4)]);
    assert_eq!(t[1].weight, 1);
    assert_eq!(t[1].contents, vec![("foil".to_string(), 1)]);
    assert_eq!(t[2].weight, 2);
    assert_eq!(t[2].contents, t[0].contents);
}

#[test]
fn sheet_rows_default_and_skip() {
    assert!(build_sheet(None, None, None, None, None, &vec![]).is_none());
    let rows = vec![(Some("u1".to_string()), Some(5)), (None, Some(9)), (Some(String::new()), Some(2)), (Some("u2".to_string()), None)];
    let s = build_sheet(None, Some(true), None, None, Some(6), &rows).unwrap();
    assert_eq!(s.cards, vec![("u1".to_string(), 5), ("u2".to_string(), 1)]);
    assert_eq!(s.allow_duplicates, Some(false));
    assert!(s.foil);
    assert_eq!(s.total_weight, 6);
}

#[test]
fn repeated_rows_keep_the_last_value_in_first_place() {
    let rows = vec![(Some("u1".to_string()), Some(5)), (Some("u2".to_string()), Some(2)), (Some("u1".to_string()), Some(7))];
    let s = build_sheet(None, None, None, None, None, &rows).unwrap();
    assert_eq!(s.cards, vec![("u1".to_string(), 7), ("u2".to_string(), 2)]);
    let contents = vec![
        (Some(0), Some("common".to_string()), Some(10)),
        (Some(0), Some("rare".to_string()), Some(1)),
        (Some(0), Some("common".to_string()), Some(9)),
    ];
    let t = build_templates(&vec![(Some(0), Some(1))], &contents);
    assert_eq!(t[0].contents, vec![("common".to_string(), 9), ("rare".to_string(), 1)]);
}

#[test]
fn without_replacement_draws_while_weight_remains() {
    for _ in 0..100 {
        let mut r = sample_without_replacement(&strings(&["a", "b", "c"]), &vec![1, 0, 2], 2);
        r.sort();
        assert_eq!(r, strings(&["a", "c"]));
        assert_eq!(sample_without_replacement(&strings(&["a", "b"]), &vec![1, 0], 2), strings(&["a"]));
    }
}

#[test]
fn zero_weight_template_is_never_chosen() {
    let packs = vec![
        BoosterPack { contents: vec![], weight: 0 },
        BoosterPack { contents: vec![], weight: 1 },
    ];
    for _ in 0..100 {
        assert_eq!(select_template(&packs, "MH3", "draft"), Ok(1));
    }
}

#[test]
fn requests_skip_sheets_without_picks() {
    let pack = BoosterPack {
        contents: vec![("a".to_string(), 2), ("b".to_string(), 0), ("c".to_string(), -1), ("d".to_string(), 1)],
        weight: 1,
    };
    assert_eq!(sheet_requests(&pack), vec![("a".to_string(), 2), ("d".to_string(), 1)]);
}

#[test]
fn absent_sheet_contributes_nothing() {
    let requests = vec![("a".to_string(), 2), ("missing".to_string(), 3)];
    let sheets = vec![Some(sheet(&[("x", 1), ("y", 1)], false)), None];
    assert_eq!(draw_sheets(&requests, &sheets).len(), 2);
}

#[test]
fn mh3_draft_pack_has_fourteen_cards_in_draw_order() {
    let weights = vec![(Some(0), Some(1))];
    let contents = vec![
        (Some(0), Some("common".to_string()), Some(10)),
        (Some(0), Some("uncommon".to_string()), Some(3)),
        (Some(0), Some("rare".to_string()), Some(1)),
    ];
    let templates = build_templates(&weights, &contents);
    let chosen = select_template(&templates, "MH3", "draft").unwrap();
    assert_eq!(chosen, 0);
    let requests = sheet_requests(&templates[chosen]);
    let pool = |prefix: &str, n: usize| -> Vec<(Option<String>, Option<i64>)> {
        (0..n).map(|i| (Some(format!("{prefix}-{i}")), Some(1))).collect()
    };
    let sheets: Vec<Option<BoosterSheet>> = vec![
        build_sheet(None, None, None, Some(false), None, &pool("c", 80)),
        build_sheet(None, None, None, Some(false), None, &pool("u", 40)),
        build_sheet(None, None, None, Some(false), None, &pool("r", 20)),
    ];
    let drawn = draw_sheets(&requests, &sheets);
    assert_eq!(drawn.len(), 14);
    assert!(drawn[..10].iter().all(|d| d.starts_with("c-")));
    assert!(drawn[10..13].iter().all(|d| d.starts_with("u-")));
    assert!(drawn[13].starts_with("r-"));
    let mut fetched: Vec<Option<String>> = drawn.iter().rev().map(|d| Some(d.clone())).collect();
    fetched.push(None);
    let order = arrange_by_ids(&drawn, &fetched);
    assert_eq!(order.len(), 14);
    for (k, row) in order.iter().enumerate() {
        assert_eq!(fetched[*row].as_deref(), Some(drawn[k].as_str()));
    }
    assert_eq!(
        cards_by_uuid_query(3),
        "SELECT * FROM cards WHERE uuid IN (?, ?, ?)"
    );
}

#[test]
fn unconfigured_set_is_not_found() {
    let templates = build_templates(&vec![], &vec![]);
    match select_template(&templates, "XXX", "draft") {
        Err(MtgjsonError::NotFound(m)) => {
            assert_eq!(m, "No booster configuration found for set 'XXX' type 'draft'")
        }
        other => panic!("expected not found, got {:?}", other),
    }
}

#[test]
fn duplicates_are_fetched_once_and_returned_twice() {
    let ids = strings(&["x", "y", "x", "z"]);
    let rows = vec![Some("y".to_string()), Some("x".to_string()), None];
    assert_eq!(arrange_by_ids(&ids, &rows), vec![1, 0, 1]);
}
