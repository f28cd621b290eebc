use magicwindows::health_check::{check_klid, control_key_report, control_key_result, probe_script};

#[test]
fn klids_must_be_eight_hex_digits() {
    assert_eq!(check_klid("a001040c"), Ok(()));
    assert_eq!(check_klid("0000040C"), Ok(()));
    assert_eq!(check_klid("a001040"), Err("invalid KLID: \"a001040\"".to_string()));
    assert_eq!(check_klid("a001040g"), Err("invalid KLID: \"a001040g\"".to_string()));
    assert_eq!(check_klid("ab'\"cdef"), Err("invalid KLID: \"ab'\\\"cdef\"".to_string()));
    assert_eq!(check_klid("a00104\n0"), Err("invalid KLID: \"a00104\\n0\"".to_string()));
}

#[test]
fn probe_script_loads_the_klid() {
    let script = probe_script("a001040c");
    assert!(script.contains("$hkl = [Probe]::LoadKeyboardLayout('a001040c', 0x82)\n"));
    assert!(script.contains("Write-Error \"LoadKeyboardLayout failed for KLID 'a001040c'\"\n"));
    assert!(script.contains("  klid = 'a001040c'\n"));
    assert!(script.ends_with("$o | ConvertTo-Json -Compress\n"));
}

#[test]
fn produced_text_is_listed_as_hex() {
    let r = control_key_result("Tab", 0x09, false, "");
    assert!(r.passed);
    assert_eq!(r.produced, "");
    let r = control_key_result("Enter", 0x0D, true, "\r\n");
    assert!(!r.passed);
    assert_eq!(r.produced, "000D,000A");
    assert_eq!((r.name.as_str(), r.vk, r.shift), ("Enter", 0x0D, true));
    let r = control_key_result("Escape", 0x1B, false, "\u{1F600}a");
    assert_eq!(r.produced, "1F600,0061");
}

#[test]
fn report_from_probe_output() {
    let out = "{\"klid\":\"a001040c\",\"enter\":\"\",\"shiftEnter\":\"\\r\",\"tab\":\"\",\"back\":\"\",\"esc\":\"\"}\r\n";
    let rep = control_key_report("a001040c".to_string(), true, out, "").unwrap();
    assert_eq!(rep.klid, "a001040c");
    let names: Vec<&str> = rep.results.iter().map(|r| r.name.as_str()).collect();
    assert_eq!(names, vec!["Enter", "Shift+Enter", "Tab", "Backspace", "Escape"]);
    let vks: Vec<u8> = rep.results.iter().map(|r| r.vk).collect();
    assert_eq!(vks, vec![0x0D, 0x0D, 0x09, 0x08, 0x1B]);
    assert!(rep.results[1].shift);
    assert!(!rep.results[1].passed);
    assert_eq!(rep.results[1].produced, "000D");
    assert!(rep.results[0].passed && rep.results[2].passed && rep.results[3].passed && rep.results[4].passed);
    assert!(!rep.all_passed);
}

#[test]
fn clean_probe_passes_and_missing_members_count_as_no_output() {
    let rep = control_key_report("a001040c".to_string(), true, "{\"enter\":\"\",\"tab\":null}", "").unwrap();
    assert!(rep.all_passed);
    assert_eq!(rep.results.len(), 5);
}

#[test]
fn probe_failures_are_reported() {
    assert_eq!(
        control_key_report("a001040c".to_string(), false, "", "oops\r\n").unwrap_err(),
        "probe failed: oops\r\n"
    );
    let e = control_key_report("a001040c".to_string(), true, "not json\n", "").unwrap_err();
    assert!(e.starts_with("parse probe output: "), "{e}");
    assert!(e.ends_with("\nraw: not json\n"), "{e}");
}
