use magicwindows::catalog::{check_layout_id, detection_keys, sort_layouts_by_id};
use magicwindows::layout::{DetectionKey, Layout};

fn s(x: &str) -> String {
    x.to_string()
}

fn layout(id: &str, dll: &str, keys: &[(&str, &str)]) -> Layout {
    Layout {
        id: s(id),
        name: Vec::new(),
        locale: s("en-US"),
        locale_id: s("00000409"),
        dll_name: s(dll),
        description: Vec::new(),
        detection_keys: keys
            .iter()
            .map(|(c, e)| DetectionKey { event_code: s(c), prompt: vec![(s("en"), s(e))], expected_base: s(e) })
            .collect(),
        keys: Vec::new(),
        dead_keys: Vec::new(),
    }
}

#[test]
fn layout_ids_are_checked() {
    assert_eq!(check_layout_id("apple-fr_azerty1"), Ok(()));
    assert_eq!(check_layout_id(""), Err(s("Invalid layout ID: ''")));
    assert_eq!(check_layout_id("../etc"), Err(s("Invalid layout ID: '../etc'")));
    assert_eq!(check_layout_id("apple fr"), Err(s("Invalid layout ID: 'apple fr'")));
    assert_eq!(check_layout_id("applé"), Err(s("Invalid layout ID: 'applé'")));
}

#[test]
fn layouts_are_sorted_by_id_stably() {
    let mut ls = vec![
        layout("apple-us-qwerty", "first", &[]),
        layout("apple-de-qwertz", "de", &[]),
        layout("apple-us-qwerty", "second", &[]),
        layout("apple-fr-azerty", "fr", &[]),
    ];
    sort_layouts_by_id(&mut ls);
    let order: Vec<(&str, &str)> = ls.iter().map(|l| (l.id.as_str(), l.dll_name.as_str())).collect();
    assert_eq!(
        order,
        vec![
            ("apple-de-qwertz", "de"),
            ("apple-fr-azerty", "fr"),
            ("apple-us-qwerty", "first"),
            ("apple-us-qwerty", "second"),
        ]
    );
}

#[test]
fn sorting_compares_by_code_point() {
    let mut ls = vec![layout("b", "1", &[]), layout("B", "2", &[]), layout("ab", "3", &[]), layout("a", "4", &[])];
    sort_layouts_by_id(&mut ls);
    let ids: Vec<&str> = ls.iter().map(|l| l.id.as_str()).collect();
    assert_eq!(ids, vec!["B", "a", "ab", "b"]);
}

#[test]
fn detection_keys_are_deduplicated_by_event_code() {
    let ls = vec![
        layout("apple-fr-azerty", "fr", &[("Backquote", "@"), ("Digit8", "!")]),
        layout("apple-de-qwertz", "de", &[("Backquote", "^"), ("KeyY", "z")]),
    ];
    let keys = detection_keys(&ls);
    let got: Vec<(&str, &str)> = keys.iter().map(|k| (k.event_code.as_str(), k.expected_base.as_str())).collect();
    assert_eq!(got, vec![("Backquote", "@"), ("Digit8", "!"), ("KeyY", "z")]);
    assert_eq!(keys[0].prompt, vec![(s("en"), s("@"))]);
    assert!(detection_keys(&[]).is_empty());
}
