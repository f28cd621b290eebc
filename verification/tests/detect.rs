use magicwindows::detect::{find_best_match, score_layout};
use magicwindows::layout::{DetectionKey, DetectionResult, Layout};

fn make_layout(id: &str, keys: Vec<(&str, &str)>) -> Layout {
    let detection_keys = keys
        .into_iter()
        .map(|(code, expected)| DetectionKey {
            event_code: code.to_string(),
            prompt: Vec::new(),
            expected_base: expected.to_string(),
        })
        .collect();

    Layout {
        id: id.to_string(),
        name: Vec::new(),
        locale: "en-US".to_string(),
        locale_id: "00000409".to_string(),
        dll_name: "test".to_string(),
        description: Vec::new(),
        detection_keys,
        keys: Vec::new(),
        dead_keys: Vec::new(),
    }
}

fn result(code: &str, ch: &str) -> DetectionResult {
    DetectionResult { event_code: code.into(), received_char: ch.into() }
}

#[test]
fn perfect_match() {
    let layout = make_layout("fr", vec![("Backquote", "@"), ("Digit8", "!")]);
    let results = vec![
        DetectionResult {
            event_code: "Backquote".into(),
            received_char: "@".into(),
        },
        DetectionResult {
            event_code: "Digit8".into(),
            received_char: "!".into(),
        },
    ];
    assert_eq!(score_layout(&layout, &results), 2);
}

#[test]
fn no_match() {
    let layout = make_layout("fr", vec![("Backquote", "@")]);
    let results = vec![DetectionResult {
        event_code: "Backquote".into(),
        received_char: "`".into(),
    }];
    assert_eq!(score_layout(&layout, &results), 0);
}

#[test]
fn best_match_single() {
    let l1 = make_layout("fr", vec![("Backquote", "@"), ("Digit8", "!")]);
    let l2 = make_layout("de", vec![("Backquote", "^"), ("Digit8", "8")]);
    let results = vec![
        DetectionResult {
            event_code: "Backquote".into(),
            received_char: "@".into(),
        },
        DetectionResult {
            event_code: "Digit8".into(),
            received_char: "!".into(),
        },
    ];
    assert_eq!(
        find_best_match(&[l1, l2], &results),
        Some("fr".to_string())
    );
}

#[test]
fn ambiguous_returns_none() {
    let l1 = make_layout("a", vec![("Backquote", "@")]);
    let l2 = make_layout("b", vec![("Backquote", "@")]);
    let results = vec![DetectionResult {
        event_code: "Backquote".into(),
        received_char: "@".into(),
    }];
    assert_eq!(find_best_match(&[l1, l2], &results), None);
}

#[test]
fn score_counts_each_result_once_per_matching_key() {
    let layout = make_layout("fr", vec![("Backquote", "@"), ("Digit8", "!"), ("KeyQ", "a")]);
    let results = vec![result("Digit8", "!"), result("KeyQ", "q"), result("Backquote", "@")];
    assert_eq!(score_layout(&layout, &results), 2);
}

#[test]
fn unknown_event_codes_score_nothing() {
    let layout = make_layout("fr", vec![("Backquote", "@")]);
    assert_eq!(score_layout(&layout, &[result("Minus", "@")]), 0);
}

#[test]
fn no_layouts_gives_no_match() {
    assert_eq!(find_best_match(&[], &[result("Backquote", "@")]), None);
}

#[test]
fn zero_scores_tie_gives_no_match() {
    let l1 = make_layout("a", vec![("Backquote", "@")]);
    let l2 = make_layout("b", vec![("Backquote", "^")]);
    assert_eq!(find_best_match(&[l1, l2], &[result("Backquote", "x")]), None);
}

#[test]
fn single_layout_with_zero_score_gives_no_match() {
    let l1 = make_layout("only", vec![("Backquote", "@")]);
    assert_eq!(find_best_match(&[l1], &[result("Backquote", "x")]), None);
}

#[test]
fn no_results_gives_no_match() {
    let l1 = make_layout("only", vec![("Backquote", "@")]);
    assert_eq!(find_best_match(&[l1], &[]), None);
}

#[test]
fn later_higher_score_clears_an_earlier_tie() {
    let l1 = make_layout("a", vec![("Backquote", "@")]);
    let l2 = make_layout("b", vec![("Backquote", "@")]);
    let l3 = make_layout("c", vec![("Backquote", "@"), ("Digit8", "!")]);
    let rs = vec![result("Backquote", "@"), result("Digit8", "!")];
    assert_eq!(find_best_match(&[l1, l2, l3], &rs), Some("c".to_string()));
}

#[test]
fn best_of_three_is_unique_highest() {
    let l1 = make_layout("a", vec![("Backquote", "@"), ("Digit8", "!")]);
    let l2 = make_layout("b", vec![("Backquote", "@"), ("Digit8", "8")]);
    let l3 = make_layout("c", vec![("Backquote", "^"), ("Digit8", "8")]);
    let rs = vec![result("Backquote", "@"), result("Digit8", "8")];
    assert_eq!(find_best_match(&[l1, l2, l3], &rs), Some("b".to_string()));
}

#[test]
fn a_result_scores_at_most_one_point() {
    let layout = make_layout("fr", vec![("Backquote", "@"), ("Backquote", "@"), ("Digit8", "!")]);
    assert_eq!(score_layout(&layout, &[result("Backquote", "@")]), 1);
    assert_eq!(score_layout(&layout, &[result("Backquote", "@"), result("Digit8", "!")]), 2);
}
