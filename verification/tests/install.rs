use magicwindows::install::{
    preload_purge_outcome, PRELOAD_PURGE_SCRIPT, activate_script, activation_outcome, elevated_outcome, elevated_wrapper_script, get_install_dir,
    install_script, launcher_script, parse_install_markers, uninstall_script,
};
use magicwindows::layout::{DetectionKey, KeyMapping, Layout};

fn s(x: &str) -> String {
    x.to_string()
}

fn layout(name: &str) -> Layout {
    Layout {
        id: s("apple-fr-azerty"),
        name: vec![(s("en"), s(name))],
        locale: s("fr-FR"),
        locale_id: s("0000040c"),
        dll_name: s("kbdaplfr"),
        description: Vec::new(),
        detection_keys: vec![DetectionKey { event_code: s("Backquote"), prompt: Vec::new(), expected_base: s("@") }],
        keys: vec![(
            s("10"),
            KeyMapping {
                vk: s("A"),
                cap: s("1"),
                base: s("0061"),
                shift: s("0041"),
                ctrl: s("-1"),
                altgr: s("-1"),
                altgr_shift: s("-1"),
            },
        )],
        dead_keys: Vec::new(),
    }
}

#[test]
fn install_dir_prefers_local_app_data() {
    assert_eq!(
        get_install_dir(Some("C:\\Users\\me\\AppData\\Local"), "C:\\Temp", '\\'),
        "C:\\Users\\me\\AppData\\Local\\MagicWindows\\layouts"
    );
    assert_eq!(get_install_dir(None, "C:\\Temp", '\\'), "C:\\Temp\\MagicWindows\\layouts");
}

#[test]
fn install_dir_joins_like_a_windows_path() {
    assert_eq!(get_install_dir(None, "C:\\Temp\\", '\\'), "C:\\Temp\\MagicWindows\\layouts");
    assert_eq!(get_install_dir(Some("D:/data/"), "x", '\\'), "D:/data/MagicWindows\\layouts");
    assert_eq!(get_install_dir(Some("C:"), "x", '\\'), "C:MagicWindows\\layouts");
    assert_eq!(get_install_dir(Some(""), "x", '\\'), "MagicWindows\\layouts");
}

#[test]
fn install_dir_uses_the_platform_separator() {
    assert_eq!(get_install_dir(None, "/tmp", '/'), "/tmp/MagicWindows/layouts");
    assert_eq!(get_install_dir(Some("/home/me/.local/"), "/tmp", '/'), "/home/me/.local/MagicWindows/layouts");
    assert_eq!(get_install_dir(Some("C:"), "/tmp", '/'), "C:/MagicWindows/layouts");
    let native = get_install_dir(None, "/tmp", std::path::MAIN_SEPARATOR);
    assert!(std::path::Path::new(&native).ends_with(std::path::Path::new("MagicWindows").join("layouts")));
}

#[test]
fn verbatim_install_dir_is_rebuilt_from_its_components() {
    assert_eq!(
        get_install_dir(Some("\\\\?\\C:\\a\\\\b"), "x", '\\'),
        "\\\\?\\C:\\a\\b\\MagicWindows\\layouts"
    );
    assert_eq!(
        get_install_dir(Some("\\\\?\\C:\\Users\\me\\"), "x", '\\'),
        "\\\\?\\C:\\Users\\me\\MagicWindows\\layouts"
    );
    assert_eq!(get_install_dir(Some("\\\\?\\C:"), "x", '\\'), "\\\\?\\C:\\MagicWindows\\layouts");
    assert_eq!(
        get_install_dir(Some("\\\\?\\UNC\\srv\\share\\\\x\\"), "x", '\\'),
        "\\\\?\\UNC\\srv\\share\\x\\MagicWindows\\layouts"
    );
    // Off Windows nothing is verbatim.
    assert_eq!(get_install_dir(Some("\\\\?\\C:\\a\\\\b"), "x", '/'), "\\\\?\\C:\\a\\\\b/MagicWindows/layouts");
}

#[test]
fn install_script_carries_the_layout() {
    let script = install_script("D:\\res\\kbd_dlls\\kbdaplfr.dll", &layout("Apple French (AZERTY)"));
    assert!(script.starts_with("\n$ErrorActionPreference = 'Stop'\n"));
    assert!(script.contains(
        "$DllPath   = 'D:\\res\\kbd_dlls\\kbdaplfr.dll'\n$DllName   = 'kbdaplfr'\n$LocaleId  = '0000040c'\n$LayoutName = 'Apple French (AZERTY)'\n"
    ));
    assert!(script.contains("Set-ItemProperty -LiteralPath $markerKey -Name 'LastInstalledKLID'"));
    assert!(script.ends_with("Write-Host 'Keyboard layout installed successfully.'\n"));
    assert!(script.contains("$destWow64 = Join-Path $wow64 $dllFileName\n"));
    assert!(script.contains("Copy-Item -LiteralPath $DllPath -Destination $destWow64 -Force\n"));
    assert!(!script.contains("Remove-Item -LiteralPath $staleWow64"));
}

#[test]
fn install_script_escapes_quotes_in_the_name() {
    let script = install_script("x.dll", &layout("Apple 'Pro' French"));
    assert!(script.contains("$LayoutName = 'Apple \\'Pro\\' French'\n"));
}

#[test]
fn install_script_falls_back_to_the_id() {
    let mut l = layout("unused");
    l.name = vec![(s("fr"), s("Français"))];
    let script = install_script("x.dll", &l);
    assert!(script.contains("$LayoutName = 'apple-fr-azerty'\n"));
}

#[test]
fn uninstall_script_names_the_dll() {
    let script = uninstall_script(&layout("n"));
    assert!(script.contains("$DllName = 'kbdaplfr'\n"));
    assert!(script.ends_with("Write-Host 'Keyboard layout uninstalled successfully.'\n"));
    assert!(script.contains("-Name 'LastUninstalledKLIDs' -Value ($removedKlids -join ',')"));
}

#[test]
fn preload_purge_reads_the_removed_klids() {
    assert!(PRELOAD_PURGE_SCRIPT.contains("-Name 'LastUninstalledKLIDs'"));
    assert!(PRELOAD_PURGE_SCRIPT.contains("'HKCU:\\Keyboard Layout\\Preload'"));
    assert_eq!(preload_purge_outcome(true, "x"), Ok(()));
    assert_eq!(preload_purge_outcome(false, " no \n"), Err(s("Preload purge PS failed: no")));
}

#[test]
fn wrapper_script_is_exact() {
    let w = elevated_wrapper_script("C:\\t\\x_transcript.txt", "C:\\t\\x_exitcode.txt", "BODY");
    assert_eq!(
        w,
        "$ErrorActionPreference = 'Continue'\ntry { Start-Transcript -Path 'C:\\t\\x_transcript.txt' -Force | Out-Null } catch { }\n'PENDING' | Out-File -LiteralPath 'C:\\t\\x_exitcode.txt' -Encoding ascii -Force\n$childExit = 1\ntry {\nBODY\n    $childExit = 0\n} catch {\n    Write-Host \"[run_elevated_ps] child threw: $_\"\n    $childExit = 1\n}\ntry { Stop-Transcript | Out-Null } catch { }\n$childExit | Out-File -LiteralPath 'C:\\t\\x_exitcode.txt' -Encoding ascii -Force\nexit $childExit\n"
    );
}

#[test]
fn launcher_script_is_exact() {
    assert_eq!(
        launcher_script("C:\\t\\x.ps1"),
        "\n$ErrorActionPreference = 'Stop'\ntry {\n    $proc = Start-Process powershell `\n        -ArgumentList @('-ExecutionPolicy','Bypass','-NoProfile','-File','C:\\t\\x.ps1') `\n        -Verb RunAs `\n        -Wait `\n        -PassThru\n} catch {\n    Write-Error \"Start-Process failed: $_\"\n    exit 2\n}\nif ($null -eq $proc) {\n    Write-Error \"Start-Process returned null (UAC cancelled?)\"\n    exit 3\n}\nexit $proc.ExitCode\n"
    );
}

#[test]
fn launcher_failure_reports_exit_code_and_transcript() {
    assert_eq!(
        elevated_outcome(false, Some(5), " err \r\n", "0", " tr\n"),
        Err(s("Elevation launcher failed (exit Some(5)): err\nTranscript:\ntr"))
    );
    assert_eq!(
        elevated_outcome(false, None, "", "", ""),
        Err(s("Elevation launcher failed (exit None): \nTranscript:\n"))
    );
    assert_eq!(
        elevated_outcome(false, Some(-1073741510), "e", "", "t"),
        Err(s("Elevation launcher failed (exit Some(-1073741510)): e\nTranscript:\nt"))
    );
}

#[test]
fn child_status_decides_the_outcome() {
    assert_eq!(
        elevated_outcome(true, Some(0), " x\n", "NEVER_RAN", "t"),
        Err(s("Elevated child never ran (UAC cancelled or Start-Process failed silently). Launcher stderr: x"))
    );
    assert_eq!(
        elevated_outcome(true, Some(0), "", "PENDING\r\n", "  log \n"),
        Err(s("Elevated child started but did not finish (crashed before exitcode write). Transcript:\nlog"))
    );
    assert_eq!(
        elevated_outcome(true, Some(1), "", "1\r\n", "log"),
        Err(s("Elevated child failed (exit 1). Transcript:\nlog"))
    );
    assert_eq!(
        elevated_outcome(true, Some(0), "", "", "log"),
        Err(s("Elevated child failed (exit ). Transcript:\nlog"))
    );
    assert_eq!(
        elevated_outcome(true, Some(0), "", "0\r\n", " full transcript \n"),
        Ok(s(" full transcript \n"))
    );
}

#[test]
fn markers_are_parsed() {
    assert_eq!(
        parse_install_markers("a001040c|fr-FR|a002040c, a003040c,\r\n"),
        Ok((s("a001040c"), s("fr-FR"), vec![s("a002040c"), s("a003040c")]))
    );
    assert_eq!(parse_install_markers("a001040c|fr-FR"), Ok((s("a001040c"), s("fr-FR"), vec![])));
    assert_eq!(parse_install_markers(" k | t | "), Ok((s("k"), s("t"), vec![])));
    assert_eq!(parse_install_markers("k|t|x|y"), Ok((s("k"), s("t"), vec![s("x|y")])));
}

#[test]
fn marker_errors() {
    assert_eq!(parse_install_markers("NONE\r\n"), Err(s("HKLM markers absent")));
    assert_eq!(parse_install_markers("  "), Err(s("HKLM markers absent")));
    assert_eq!(parse_install_markers("a001040c"), Err(s("malformed marker output")));
    assert_eq!(parse_install_markers("|fr-FR|"), Err(s("empty KLID or LANGTAG in markers")));
    assert_eq!(parse_install_markers("a001040c| |x"), Err(s("empty KLID or LANGTAG in markers")));
}

#[test]
fn activation_script_carries_tip_and_stale_klids() {
    let script = activate_script("a001040c", "fr-FR", &[s("a002040c"), s("it's")]);
    assert!(script.contains(
        "$tip       = '040c:a001040c'\n$langTag   = 'fr-FR'\n$klid      = 'a001040c'\n$staleKlids = @('a002040c','it''s')\n"
    ));
    assert!(script.ends_with("Write-Host \"[activate] done\"\n"));
    let none = activate_script("ab", "en-US", &[]);
    assert!(none.contains("$tip       = 'ab:ab'\n"));
    assert!(none.contains("$staleKlids = @()\n"));
}

#[test]
fn activation_outcome_reports_stderr() {
    assert_eq!(activation_outcome(true, "ignored"), Ok(()));
    assert_eq!(activation_outcome(false, " bad \n"), Err(s("Activation PS failed: bad")));
}
