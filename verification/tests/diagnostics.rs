use magicwindows::diagnostics::{diagnostics_report, transcript_tail_lines, truncate_transcript, unsupported_platform_report};
use magicwindows::layout::InstalledLayoutInfo;
use magicwindows::scancode_map::{derive_state, ModifierState, RawScancodePair};

fn info(klid: &str, file: &str, text: &str, magic: bool) -> InstalledLayoutInfo {
    InstalledLayoutInfo {
        klid: klid.into(),
        layout_file: file.into(),
        layout_text: text.into(),
        is_magic_windows: magic,
        is_in_use: false,
    }
}

fn state(pairs: &[RawScancodePair]) -> ModifierState {
    derive_state(pairs)
}

#[test]
fn full_report() {
    let layouts = Ok(vec![
        info("0000040c", "KBDFR.DLL", "French", false),
        info("a001040c", "kbdaplfr.dll", "Apple French (AZERTY)", true),
    ]);
    let sc = Ok(state(&[RawScancodePair { new_code: "1D00".into(), old_code: "3A00".into() }]));
    let report = diagnostics_report(
        "1.2.3",
        Some("\r\nMicrosoft Windows [Version 10.0.22631]\r\n"),
        Some("0x0409040C\r\n"),
        &layouts,
        &sc,
        "line one\nline two",
    );
    assert_eq!(
        report,
        "## MagicWindows Bug Report\n\n\
**App version:** 1.2.3\n\
**OS:** Microsoft Windows [Version 10.0.22631]\n\
**Active layout (HKL):** 0x0409040C\n\
\n\
**Installed MagicWindows layouts:**\n\
- `a001040c` / `kbdaplfr.dll` / \"Apple French (AZERTY)\"\n\
\n\
**All installed keyboard layouts:**\n\
- `0000040c` / `KBDFR.DLL` / \"French\"\n\
- `a001040c` / `kbdaplfr.dll` / \"Apple French (AZERTY)\"\n\
\n\
**Scancode Map (modifier swaps):**\n\
- new=`1D00` old=`3A00`\n\
\n\
**Last elevated PS transcript (tail 50 lines):**\n\n```\nline one\nline two\n```\n"
    );
}

#[test]
fn failed_collectors_leave_markers() {
    let report = diagnostics_report(
        "0.1.0",
        None,
        None,
        &Err("access denied".to_string()),
        &Err("powershell read failed: x".to_string()),
        "*(no transcript files)*",
    );
    assert_eq!(
        report,
        "## MagicWindows Bug Report\n\n\
**App version:** 0.1.0\n\
**OS:** *(ver command failed)*\n\
**Active layout (HKL):** *(lookup failed)*\n\
\n\
**Installed layouts:** *(collector failed: access denied)*\n\n\
**Scancode Map:** *(collector failed: powershell read failed: x)*\n\n\
**Last elevated PS transcript (tail 50 lines):**\n\n```\n*(no transcript files)*\n```\n"
    );
}

#[test]
fn empty_collections_say_none() {
    let report = diagnostics_report(
        "1",
        Some("v"),
        Some("h"),
        &Ok(vec![info("00000409", "KBDUS.DLL", "US", false)]),
        &Ok(state(&[])),
        "",
    );
    assert!(report.contains("**Installed MagicWindows layouts:**\n- *(none)*\n\n"));
    assert!(report.contains("**Scancode Map (modifier swaps):**\n- *(none)*\n\n"));
}

#[test]
fn unsupported_platform_report_has_the_version() {
    assert_eq!(
        unsupported_platform_report("1.2.3"),
        "## MagicWindows Bug Report\n\n**App version:** 1.2.3\n**OS:** non-Windows (not supported)\n"
    );
}

#[test]
fn tail_keeps_the_last_lines() {
    assert_eq!(transcript_tail_lines("a\r\nb\nc\n", 2), "b\nc");
    assert_eq!(transcript_tail_lines("a\nb", 5), "a\nb");
    assert_eq!(transcript_tail_lines("", 3), "");
    assert_eq!(transcript_tail_lines("a\n\nb\n", 2), "\nb");
    assert_eq!(transcript_tail_lines("x\r", 1), "x\r");
    assert_eq!(transcript_tail_lines("a\nb\nc", 0), "");
}

#[test]
fn long_tails_are_cut_to_their_last_bytes() {
    assert_eq!(truncate_transcript("short"), "short");
    let long = format!("{}{}", "a".repeat(1000), "b".repeat(8192));
    let cut = truncate_transcript(&long);
    assert_eq!(cut, format!("*(truncated from 9192 to 8192 bytes)*\n{}", "b".repeat(8192)));
    let exact = "c".repeat(8192);
    assert_eq!(truncate_transcript(&exact), exact);
}

#[test]
fn cut_moves_to_the_next_character_boundary() {
    let tail = format!("{}a", "é".repeat(4096));
    assert_eq!(tail.len(), 8193);
    let cut = truncate_transcript(&tail);
    assert_eq!(cut, format!("*(truncated from 8193 to 8192 bytes)*\n{}a", "é".repeat(4095)));
}
