use magicwindows::scancode_map::{
    build_scancode_map, build_scancode_map_from_pairs, derive_state, is_modifier_source,
    modifier_pairs_from_toggles, parse_scancode_map, ModifierToggles, RawScancodePair,
};

fn header(entry_count: u32) -> Vec<u8> {
    let mut v = vec![0u8; 8];
    v.extend_from_slice(&entry_count.to_le_bytes());
    v
}

fn terminator() -> [u8; 4] { [0, 0, 0, 0] }

fn make_pair(new_lo: u8, new_hi: u8, old_lo: u8, old_hi: u8) -> RawScancodePair {
    RawScancodePair {
        new_code: format!("{:02X}{:02X}", new_lo, new_hi),
        old_code: format!("{:02X}{:02X}", old_lo, old_hi),
    }
}

#[test]
fn empty_toggles_produces_empty_vec() {
    let bytes = build_scancode_map(&ModifierToggles::default());
    assert!(bytes.is_empty(),
        "all-off toggles should produce an empty vec so the caller can DELETE the registry value");
}

#[test]
fn caps_to_ctrl_only() {
    let bytes = build_scancode_map(&ModifierToggles { caps_to_ctrl: true, ..Default::default() });
    let mut expected = header(2); // 1 mapping + 1 terminator
    expected.extend_from_slice(&[0x1D, 0x00, 0x3A, 0x00]); // LCtrl ← CapsLock
    expected.extend_from_slice(&terminator());
    assert_eq!(bytes, expected);
}

#[test]
fn swap_cmd_ctrl_left_produces_two_entries() {
    let bytes = build_scancode_map(&ModifierToggles { swap_cmd_ctrl_left: true, ..Default::default() });
    let mut expected = header(3); // 2 mappings + 1 terminator
    expected.extend_from_slice(&[0x1D, 0x00, 0x5B, 0xE0]); // LCtrl ← LWin
    expected.extend_from_slice(&[0x5B, 0xE0, 0x1D, 0x00]); // LWin ← LCtrl
    expected.extend_from_slice(&terminator());
    assert_eq!(bytes, expected);
}

#[test]
fn swap_cmd_ctrl_both_sides() {
    let bytes = build_scancode_map(&ModifierToggles {
        swap_cmd_ctrl_left:  true,
        swap_cmd_ctrl_right: true,
        ..Default::default()
    });
    let mut expected = header(5); // 4 mappings + 1 terminator
    expected.extend_from_slice(&[0x1D, 0x00, 0x5B, 0xE0]); // LCtrl ← LWin
    expected.extend_from_slice(&[0x5B, 0xE0, 0x1D, 0x00]); // LWin ← LCtrl
    expected.extend_from_slice(&[0x1D, 0xE0, 0x5C, 0xE0]); // RCtrl ← RWin
    expected.extend_from_slice(&[0x5C, 0xE0, 0x1D, 0xE0]); // RWin ← RCtrl
    expected.extend_from_slice(&terminator());
    assert_eq!(bytes, expected);
}

#[test]
fn swap_option_cmd_both_sides() {
    let bytes = build_scancode_map(&ModifierToggles { swap_option_cmd: true, ..Default::default() });
    let mut expected = header(5);
    expected.extend_from_slice(&[0x38, 0x00, 0x5B, 0xE0]); // LAlt ← LWin
    expected.extend_from_slice(&[0x5B, 0xE0, 0x38, 0x00]); // LWin ← LAlt
    expected.extend_from_slice(&[0x38, 0xE0, 0x5C, 0xE0]); // RAlt ← RWin
    expected.extend_from_slice(&[0x5C, 0xE0, 0x38, 0xE0]); // RWin ← RAlt
    expected.extend_from_slice(&terminator());
    assert_eq!(bytes, expected);
}

/// The pair-based pipeline (`build_scancode_map_from_pairs ∘
/// modifier_pairs_from_toggles`) emits the exact same bytes as
/// `build_scancode_map(toggles)`.
#[test]
fn pair_pipeline_is_byte_identical_to_legacy_for_all_toggle_combos() {
    for n in 0u8..16 {
        let toggles = ModifierToggles {
            swap_cmd_ctrl_left:  (n & 0b0001) != 0,
            swap_cmd_ctrl_right: (n & 0b0010) != 0,
            caps_to_ctrl:        (n & 0b0100) != 0,
            swap_option_cmd:     (n & 0b1000) != 0,
        };
        let legacy_bytes = build_scancode_map(&toggles);
        let via_pairs = build_scancode_map_from_pairs(&modifier_pairs_from_toggles(&toggles));
        assert_eq!(
            legacy_bytes, via_pairs,
            "byte mismatch for toggles {:?}", toggles
        );
    }
}

#[test]
fn is_modifier_source_recognizes_known_modifiers() {
    // All modifier source scancodes the toggles emit/consume.
    assert!(is_modifier_source("1D00")); // LCTRL
    assert!(is_modifier_source("1DE0")); // RCTRL
    assert!(is_modifier_source("5BE0")); // LWIN
    assert!(is_modifier_source("5CE0")); // RWIN
    assert!(is_modifier_source("3800")); // LALT
    assert!(is_modifier_source("38E0")); // RALT
    assert!(is_modifier_source("3A00")); // CAPS
}

#[test]
fn is_modifier_source_is_case_insensitive() {
    assert!(is_modifier_source("5be0"));
    assert!(is_modifier_source("5Be0"));
}

#[test]
fn is_modifier_source_rejects_non_modifier_scancodes() {
    assert!(!is_modifier_source("5800")); // F12 / Eject
    assert!(!is_modifier_source("0000"));
    assert!(!is_modifier_source("21E0")); // Calculator
}

#[test]
fn parse_empty_input_returns_empty_list() {
    assert_eq!(parse_scancode_map(&[]).unwrap(), Vec::new());
}

#[test]
fn parse_header_only_blob() {
    // 8-byte header + count=1 (just terminator) + 4-byte terminator = 16 bytes
    let bytes = [0u8; 16];
    let mut bytes_with_count = bytes.to_vec();
    bytes_with_count[8] = 1; // count = 1
    assert_eq!(parse_scancode_map(&bytes_with_count).unwrap(), Vec::new());
}

#[test]
fn parse_caps_to_ctrl_blob() {
    let mut bytes = vec![0u8; 8];
    bytes.extend_from_slice(&2u32.to_le_bytes());      // count = 2
    bytes.extend_from_slice(&[0x1D, 0x00, 0x3A, 0x00]); // LCtrl ← CapsLock
    bytes.extend_from_slice(&[0u8; 4]);                 // terminator
    let parsed = parse_scancode_map(&bytes).unwrap();
    assert_eq!(parsed, vec![make_pair(0x1D, 0x00, 0x3A, 0x00)]);
}

#[test]
fn parse_rejects_truncated_input() {
    // Header says 5 entries but only 1 follows
    let mut bytes = vec![0u8; 8];
    bytes.extend_from_slice(&5u32.to_le_bytes());
    bytes.extend_from_slice(&[0x1D, 0x00, 0x3A, 0x00]);
    // missing 3 entries + terminator
    assert!(parse_scancode_map(&bytes).is_err());
}

#[test]
fn derive_state_recognizes_caps_only() {
    let pairs = vec![make_pair(0x1D, 0x00, 0x3A, 0x00)];
    let state = derive_state(&pairs);
    assert!(state.current.caps_to_ctrl);
    assert!(!state.current.swap_cmd_ctrl_left);
    assert!(!state.has_external_mappings);
}

#[test]
fn derive_state_recognizes_cmd_ctrl_left() {
    let pairs = vec![
        make_pair(0x1D, 0x00, 0x5B, 0xE0), // LCtrl ← LWin
        make_pair(0x5B, 0xE0, 0x1D, 0x00), // LWin ← LCtrl
    ];
    let state = derive_state(&pairs);
    assert!(state.current.swap_cmd_ctrl_left);
    assert!(!state.current.swap_cmd_ctrl_right);
    assert!(!state.has_external_mappings);
}

#[test]
fn derive_state_flags_external_mappings() {
    // Half a swap pair (only one direction) — not a recognized toggle
    let pairs = vec![make_pair(0x1D, 0x00, 0x5B, 0xE0)];
    let state = derive_state(&pairs);
    assert!(!state.current.swap_cmd_ctrl_left);
    assert!(state.has_external_mappings);
}

#[test]
fn derive_state_recognizes_compound_toggles() {
    // Cmd↔Ctrl both sides + Caps→Ctrl
    let pairs = vec![
        make_pair(0x1D, 0x00, 0x5B, 0xE0),
        make_pair(0x5B, 0xE0, 0x1D, 0x00),
        make_pair(0x1D, 0xE0, 0x5C, 0xE0),
        make_pair(0x5C, 0xE0, 0x1D, 0xE0),
        make_pair(0x1D, 0x00, 0x3A, 0x00),
    ];
    let state = derive_state(&pairs);
    assert!(state.current.swap_cmd_ctrl_left);
    assert!(state.current.swap_cmd_ctrl_right);
    assert!(state.current.caps_to_ctrl);
    assert!(!state.current.swap_option_cmd);
    assert!(!state.has_external_mappings);
}

// ── Further cases ────────────────────────────────────────────────────────

#[test]
fn every_toggle_combination_reads_back() {
    for n in 0u8..16 {
        let toggles = ModifierToggles {
            swap_cmd_ctrl_left: (n & 1) != 0,
            swap_cmd_ctrl_right: (n & 2) != 0,
            caps_to_ctrl: (n & 4) != 0,
            swap_option_cmd: (n & 8) != 0,
        };
        let bytes = build_scancode_map(&toggles);
        let pairs = parse_scancode_map(&bytes).unwrap();
        assert_eq!(pairs, modifier_pairs_from_toggles(&toggles));
        let state = derive_state(&pairs);
        assert_eq!(state.current, toggles);
        assert!(!state.has_external_mappings);
    }
}

#[test]
fn parse_rejects_short_blob_with_message() {
    assert_eq!(
        parse_scancode_map(&[0u8; 15]).unwrap_err(),
        "Scancode Map too short: 15 bytes (need >= 16)"
    );
}

#[test]
fn parse_reads_lower_codes_as_upper_hex() {
    let mut bytes = header(2);
    bytes.extend_from_slice(&[0x0a, 0x00, 0xbc, 0xe0]);
    bytes.extend_from_slice(&terminator());
    let parsed = parse_scancode_map(&bytes).unwrap();
    assert_eq!(parsed, vec![make_pair(0x0A, 0x00, 0xBC, 0xE0)]);
}

#[test]
fn malformed_codes_are_written_as_zero_bytes() {
    let pairs = vec![RawScancodePair { new_code: "zz".into(), old_code: "3A00".into() }];
    let mut expected = header(2);
    expected.extend_from_slice(&[0x00, 0x00, 0x3A, 0x00]);
    expected.extend_from_slice(&terminator());
    assert_eq!(build_scancode_map_from_pairs(&pairs), expected);
}

#[test]
fn no_pairs_builds_empty_value() {
    assert!(build_scancode_map_from_pairs(&[]).is_empty());
}

#[test]
fn option_cmd_alone_is_recognized() {
    let pairs = modifier_pairs_from_toggles(&ModifierToggles { swap_option_cmd: true, ..Default::default() });
    assert_eq!(pairs.len(), 4);
    let state = derive_state(&pairs);
    assert!(state.current.swap_option_cmd);
    assert!(!state.current.swap_cmd_ctrl_left);
    assert_eq!(state.raw_entries, pairs);
}

#[test]
fn only_four_ascii_hex_digits_are_decoded() {
    let pairs = vec![
        RawScancodePair { new_code: "+1FF".into(), old_code: "1d00".into() },
        RawScancodePair { new_code: "aé1".into(), old_code: "3A0".into() },
        RawScancodePair { new_code: "١٢٣٤".into(), old_code: "5be0".into() },
    ];
    let mut expected = header(4);
    expected.extend_from_slice(&[0x00, 0x00, 0x1D, 0x00]);
    expected.extend_from_slice(&[0x00, 0x00, 0x00, 0x00]);
    expected.extend_from_slice(&[0x00, 0x00, 0x5B, 0xE0]);
    expected.extend_from_slice(&terminator());
    assert_eq!(build_scancode_map_from_pairs(&pairs), expected);
}
