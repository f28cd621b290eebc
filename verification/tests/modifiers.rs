use base64::Engine;
use magicwindows::modifiers::{
    clear_scancode_map_job, modifier_state_from_output, raw_pairs_job, scancode_bytes_from_output,
    scancode_map_job, SCANCODE_CLEAR_SCRIPT, SCANCODE_WRITE_HEAD, SCANCODE_WRITE_TAIL,
};
use magicwindows::scancode_map::{build_scancode_map, ModifierToggles, RawScancodePair};

fn b64(bytes: &[u8]) -> String {
    base64::engine::general_purpose::STANDARD.encode(bytes)
}

fn payload(script: &str) -> String {
    assert!(script.starts_with(SCANCODE_WRITE_HEAD));
    assert!(script.ends_with(SCANCODE_WRITE_TAIL));
    script[SCANCODE_WRITE_HEAD.len()..script.len() - SCANCODE_WRITE_TAIL.len()].to_string()
}

#[test]
fn absent_value_reads_as_no_bytes() {
    assert_eq!(scancode_bytes_from_output("NONE\r\n"), Ok(vec![]));
    assert_eq!(scancode_bytes_from_output(""), Ok(vec![]));
    assert_eq!(scancode_bytes_from_output(" \n"), Ok(vec![]));
}

#[test]
fn base64_output_is_decoded() {
    assert_eq!(scancode_bytes_from_output("HQA6AA==\r\n"), Ok(vec![0x1D, 0x00, 0x3A, 0x00]));
}

#[test]
fn bad_base64_is_reported() {
    let e = scancode_bytes_from_output("!!!!").unwrap_err();
    assert!(e.starts_with("Bad base64 from PowerShell: "), "{e}");
    assert!(e.len() > "Bad base64 from PowerShell: ".len());
}

#[test]
fn state_is_read_from_output() {
    let bytes = build_scancode_map(&ModifierToggles { caps_to_ctrl: true, ..Default::default() });
    let state = modifier_state_from_output(&format!("{}\r\n", b64(&bytes))).unwrap();
    assert!(state.current.caps_to_ctrl);
    assert!(!state.current.swap_option_cmd);
    assert!(!state.has_external_mappings);
    assert_eq!(state.raw_entries, vec![RawScancodePair { new_code: "1D00".into(), old_code: "3A00".into() }]);

    let empty = modifier_state_from_output("NONE").unwrap();
    assert_eq!(empty.current, ModifierToggles::default());
    assert!(empty.raw_entries.is_empty());
}

#[test]
fn malformed_value_is_reported() {
    assert_eq!(
        modifier_state_from_output(&b64(&[0u8; 15])).unwrap_err(),
        "Scancode Map too short: 15 bytes (need >= 16)"
    );
}

#[test]
fn no_toggles_deletes_the_value() {
    let job = scancode_map_job(&ModifierToggles::default());
    assert_eq!(job.label, "scancode_clear");
    assert_eq!(job.script, SCANCODE_CLEAR_SCRIPT);
    let clear = clear_scancode_map_job();
    assert_eq!(clear.label, "scancode_clear");
    assert_eq!(clear.script, SCANCODE_CLEAR_SCRIPT);
}

#[test]
fn toggles_are_written_as_base64() {
    let toggles = ModifierToggles { caps_to_ctrl: true, ..Default::default() };
    let job = scancode_map_job(&toggles);
    assert_eq!(job.label, "scancode_write");
    let text = payload(&job.script);
    assert_eq!(text, "AAAAAAAAAAACAAAAHQA6AAAAAAA=");
    assert!(job.script.contains("[Convert]::FromBase64String('AAAAAAAAAAACAAAAHQA6AAAAAAA=')"));
}

#[test]
fn written_value_reads_back_as_the_same_toggles() {
    for n in 1u8..16 {
        let toggles = ModifierToggles {
            swap_cmd_ctrl_left: (n & 1) != 0,
            swap_cmd_ctrl_right: (n & 2) != 0,
            caps_to_ctrl: (n & 4) != 0,
            swap_option_cmd: (n & 8) != 0,
        };
        let job = scancode_map_job(&toggles);
        let state = modifier_state_from_output(&payload(&job.script)).unwrap();
        assert_eq!(state.current, toggles);
        assert!(!state.has_external_mappings);
    }
}

#[test]
fn raw_pairs_are_written_or_cleared() {
    let job = raw_pairs_job(&[]);
    assert_eq!(job.label, "scancode_clear");
    let pairs = vec![RawScancodePair { new_code: "21E0".into(), old_code: "5800".into() }];
    let job = raw_pairs_job(&pairs);
    assert_eq!(job.label, "scancode_write");
    let state = modifier_state_from_output(&payload(&job.script)).unwrap();
    assert_eq!(state.raw_entries, pairs);
    assert!(state.has_external_mappings);
}
