use magicwindows::f12_remap::{f12_action_from_entries, f12_pairs_with_action, is_f12_source, F12Action};
use magicwindows::scancode_map::{derive_state, modifier_pairs_from_toggles, ModifierToggles, RawScancodePair};

fn pair(new_code: &str, old_code: &str) -> RawScancodePair {
    RawScancodePair { new_code: new_code.to_string(), old_code: old_code.to_string() }
}

#[test]
fn dest_scancode_round_trip() {
    for a in [
        F12Action::Disabled, F12Action::Calculator, F12Action::Search,
        F12Action::Mail, F12Action::AppsMenu, F12Action::VolumeMute,
    ] {
        let s = a.dest_scancode().unwrap();
        assert_eq!(F12Action::from_dest_scancode(s), Some(a));
    }
}

#[test]
fn default_has_no_dest() {
    assert!(F12Action::Default.dest_scancode().is_none());
    assert!(F12Action::from_dest_scancode("ffff").is_none());
}

#[test]
fn is_f12_source_is_case_insensitive() {
    assert!(is_f12_source("5800"));
    assert!(is_f12_source("5800".to_uppercase().as_str()));
    assert!(!is_f12_source("5BE0")); // LWIN
}

#[test]
fn destination_codes_are_the_documented_ones() {
    assert_eq!(F12Action::Disabled.dest_scancode(), Some("0000"));
    assert_eq!(F12Action::Calculator.dest_scancode(), Some("21E0"));
    assert_eq!(F12Action::from_dest_scancode("21e0"), Some(F12Action::Calculator));
}

#[test]
fn action_is_read_from_the_first_known_f12_entry() {
    let entries = vec![
        pair("1D00", "3A00"),
        pair("FFFF", "5800"),
        pair("21E0", "5800"),
        pair("0000", "5800"),
    ];
    assert_eq!(f12_action_from_entries(&entries), F12Action::Calculator);
    assert_eq!(f12_action_from_entries(&[pair("1D00", "3A00")]), F12Action::Default);
}

#[test]
fn setting_an_action_replaces_f12_entries_and_keeps_others() {
    let entries = vec![pair("1D00", "3A00"), pair("21E0", "5800"), pair("5BE0", "1D00")];
    let out = f12_pairs_with_action(&entries, F12Action::VolumeMute);
    let dest = F12Action::VolumeMute.dest_scancode().unwrap();
    assert_eq!(out, vec![pair("1D00", "3A00"), pair("5BE0", "1D00"), pair(dest, "5800")]);
    assert_eq!(f12_action_from_entries(&out), F12Action::VolumeMute);
}

#[test]
fn setting_default_removes_the_f12_entry() {
    let entries = vec![pair("21E0", "5800"), pair("1D00", "3A00")];
    let out = f12_pairs_with_action(&entries, F12Action::Default);
    assert_eq!(out, vec![pair("1D00", "3A00")]);
    assert_eq!(f12_action_from_entries(&out), F12Action::Default);
}

#[test]
fn setting_f12_keeps_the_modifier_toggles() {
    let toggles = ModifierToggles { swap_cmd_ctrl_left: true, caps_to_ctrl: true, ..Default::default() };
    let mut entries = modifier_pairs_from_toggles(&toggles);
    entries.push(pair("21E0", "5800"));
    for a in [F12Action::Default, F12Action::Mail, F12Action::Disabled] {
        let out = f12_pairs_with_action(&entries, a);
        let state = derive_state(&out);
        assert_eq!(state.current, toggles);
        assert_eq!(f12_action_from_entries(&out), a);
    }
}
