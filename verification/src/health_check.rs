//! The control-key regression probe. It loads the target layout by KLID and
//! asks which text Enter, Shift+Enter, Tab, Backspace and Escape produce
//! under it; each must produce none, or Chromium-based apps swallow the
//! keystroke as text input. This module holds which KLIDs may be probed,
//! the probe script, and the report built from the probe's output.
use vstd::prelude::*;
use crate::json::{
    JsonDoc, JsonDocView, doc_view, json_doc, json_ok, member_text, member_string, parse_json_doc,
};
use crate::text::{fmt_hex, format_hex, chars_of, string_of, trim, trimmed};

verus! {

broadcast use vstd::string::group_string_axioms;

/// The outcome of probing one key.
#[derive(Debug, Clone)]
pub struct ControlKeyResult {
    /// The key as shown to the user ("Enter", "Shift+Enter", ...).
    pub name: String,
    pub vk: u8,
    pub shift: bool,
    /// No text was produced.
    pub passed: bool,
    /// Hex representation of what ToUnicodeEx produced (empty = no output).
    pub produced: String,
}

/// The outcome of probing all keys of one layout.
#[derive(Debug, Clone)]
pub struct ControlKeyReport {
    /// Echo of the KLID that was loaded for the probe.
    pub klid: String,
    pub results: Vec<ControlKeyResult>,
    pub all_passed: bool,
}

// ── Script text ──────────────────────────────────────────────────────────

/// The probe script up to the KLID it loads.
pub const PROBE_SCRIPT_HEAD: &'static str = r#"
Add-Type @'
using System;
using System.Runtime.InteropServices;
using System.Text;
public class Probe {
  [DllImport("user32.dll", CharSet=CharSet.Unicode)]
  public static extern IntPtr LoadKeyboardLayout(string klid, uint flags);
  [DllImport("user32.dll", CharSet=CharSet.Unicode)]
  public static extern int ToUnicodeEx(uint vk, uint sc, byte[] state, StringBuilder buf, int sz, uint flags, IntPtr hkl);
  [DllImport("user32.dll")]
  public static extern uint MapVirtualKeyEx(uint code, uint mapType, IntPtr hkl);

  public static string Probe(IntPtr hkl, uint vk, bool shift) {
    // MAPVK_VK_TO_VSC_EX = 4 (returns the scancode, including extended bit)
    uint sc = MapVirtualKeyEx(vk, 4, hkl);
    var state = new byte[256];
    if (shift) state[0x10] = 0x80;
    var buf = new StringBuilder(8);
    int n = ToUnicodeEx(vk, sc, state, buf, buf.Capacity, 0, hkl);
    return n > 0 ? buf.ToString() : "";
  }
}
'@

# KLF_NOTELLSHELL = 0x80, KLF_SUBSTITUTE_OK = 0x02. Loads without changing
# the active foreground layout for the calling thread.
$hkl = [Probe]::LoadKeyboardLayout('"#;

/// The probe script between the loaded KLID and the one its error names.
pub const PROBE_SCRIPT_LOAD_FAILED: &'static str = r#"', 0x82)
if ($hkl -eq [IntPtr]::Zero) {
  Write-Error "LoadKeyboardLayout failed for KLID '"#;

/// The probe script between the error's KLID and the echoed one.
pub const PROBE_SCRIPT_ECHO: &'static str = r#"'"
  exit 1
}

$o = New-Object PSObject -Property @{
  klid = '"#;

/// The probe script after the echoed KLID.
pub const PROBE_SCRIPT_TAIL: &'static str = r#"'
  enter = [Probe]::Probe($hkl, 0x0D, $false)
  shiftEnter = [Probe]::Probe($hkl, 0x0D, $true)
  tab = [Probe]::Probe($hkl, 0x09, $false)
  back = [Probe]::Probe($hkl, 0x08, $false)
  esc = [Probe]::Probe($hkl, 0x1B, $false)
}
$o | ConvertTo-Json -Compress
"#;

// ── KLIDs ─────────────────────────────────────────────────────────────────

/// An ASCII hexadecimal digit (`char::is_ascii_hexdigit`).
pub open spec fn is_ascii_hex(c: char) -> bool {
    ('0' <= c && c <= '9') || ('a' <= c && c <= 'f') || ('A' <= c && c <= 'F')
}

/// A KLID that may be put into the probe script: eight hexadecimal digits.
pub open spec fn valid_klid(k: Seq<char>) -> bool {
    k.len() == 8 && forall|i: int| 0 <= i < 8 ==> is_ascii_hex(#[trigger] k[i])
}

/// What `format!("{:?}", s)` gives for a string: `s` quoted, with the
/// escapes of `char::escape_debug`.
pub uninterp spec fn debug_text(s: Seq<char>) -> Seq<char>;

/// `format!("{:?}", s)` for a string slice (its `Debug` form); the result is
/// what `debug_text` names.
#[verifier::external_body]
fn debug_quoted(s: &str) -> (r: String)
    ensures
        r@ == debug_text(s@),
{
    format!("{s:?}")
}

/// Sanity-check the KLID before injecting it into a PowerShell string.
/// KLIDs are 8 hex characters (the MagicWindows ones start with 'a').
pub fn check_klid(klid: &str) -> (r: Result<(), String>)
    ensures
        valid_klid(klid@) ==> r is Ok,
        !valid_klid(klid@) ==> (r matches Err(e) && e@ == "invalid KLID: "@ + debug_text(klid@)),
{
    let cs = chars_of(klid);
    let mut ok = cs.len() == 8;
    let mut i: usize = 0;
    while ok && i < cs.len()
        invariant
            cs@ == klid@,
            i <= cs.len(),
            ok ==> cs.len() == 8,
            ok ==> forall|j: int| 0 <= j < i ==> is_ascii_hex(#[trigger] cs@[j]),
            !ok ==> !valid_klid(klid@),
        decreases cs.len() - i,
    {
        let c = cs[i];
        if !(('0' <= c && c <= '9') || ('a' <= c && c <= 'f') || ('A' <= c && c <= 'F')) {
            ok = false;
        }
        i = i + 1;
    }
    if ok {
        Ok(())
    } else {
        let mut e = string_of("invalid KLID: ");
        e.append(debug_quoted(klid).as_str());
        Err(e)
    }
}

/// A KLID that passes the check holds only hexadecimal digits, so it can
/// neither end the single-quoted PowerShell strings it is put into nor
/// start an expansion.
pub proof fn valid_klid_is_inert(k: Seq<char>)
    requires
        valid_klid(k),
    ensures
        forall|i: int|
            0 <= i < k.len() ==> #[trigger] k[i] != '\'' && k[i] != '"' && k[i] != '$' && k[i]
                != '`' && k[i] != '\n',
{
    assert forall|i: int| 0 <= i < k.len() implies #[trigger] k[i] != '\'' && k[i] != '"' && k[i]
        != '$' && k[i] != '`' && k[i] != '\n' by {
        assert(is_ascii_hex(k[i]));
    }
}

/// The probe script for `klid`.
pub open spec fn probe_script_text(klid: Seq<char>) -> Seq<char> {
    PROBE_SCRIPT_HEAD@ + klid + PROBE_SCRIPT_LOAD_FAILED@ + klid + PROBE_SCRIPT_ECHO@ + klid
        + PROBE_SCRIPT_TAIL@
}

/// The script that loads `klid` and prints, as one JSON object, what each
/// probed key produces under it.
pub fn probe_script(klid: &str) -> (s: String)
    ensures
        s@ == probe_script_text(klid@),
{
    let mut s = string_of(PROBE_SCRIPT_HEAD);
    s.append(klid);
    s.append(PROBE_SCRIPT_LOAD_FAILED);
    s.append(klid);
    s.append(PROBE_SCRIPT_ECHO);
    s.append(klid);
    s.append(PROBE_SCRIPT_TAIL);
    assert(s@ =~= probe_script_text(klid@));
    s
}

// ── Report ────────────────────────────────────────────────────────────────

/// The characters of `s` as four-digit upper-case hex code points, separated
/// by commas.
pub open spec fn produced_hex(s: Seq<char>) -> Seq<char>
    decreases s.len(),
{
    if s.len() == 0 {
        seq![]
    } else if s.len() == 1 {
        fmt_hex(s[0] as u32 as nat, 4, true)
    } else {
        produced_hex(s.drop_last()) + seq![','] + fmt_hex(s.last() as u32 as nat, 4, true)
    }
}

fn produced_hex_string(s: &str) -> (r: String)
    ensures
        r@ == produced_hex(s@),
{
    let cs = chars_of(s);
    let mut r = string_of("");
    proof {
        reveal_strlit("");
    }
    let mut i: usize = 0;
    while i < cs.len()
        invariant
            cs@ == s@,
            i <= cs.len(),
            r@ == produced_hex(s@.take(i as int)),
        decreases cs.len() - i,
    {
        assert(s@.take(i + 1).drop_last() =~= s@.take(i as int));
        if i > 0 {
            r.append(",");
            proof {
                reveal_strlit(",");
            }
        }
        r.append(format_hex(cs[i] as u32 as u64, 4, true).as_str());
        i = i + 1;
        proof {
            if i == 1 {
                assert(r@ =~= produced_hex(s@.take(1)));
            } else {
                assert(r@ =~= produced_hex(s@.take(i as int)));
            }
        }
    }
    assert(s@.take(cs.len() as int) =~= s@);
    r
}

/// One key's result: it passes when it produced no text.
pub open spec fn result_is(r: ControlKeyResult, name: Seq<char>, vk: u8, shift: bool, produced: Seq<char>) -> bool {
    &&& r.name@ == name
    &&& r.vk == vk
    &&& r.shift == shift
    &&& r.passed == (produced.len() == 0)
    &&& r.produced@ == produced_hex(produced)
}

/// The result for the key `name` (virtual-key code `vk`, with or without
/// Shift) that produced `produced`.
pub fn control_key_result(name: &str, vk: u8, shift: bool, produced: &str) -> (r: ControlKeyResult)
    ensures
        result_is(r, name@, vk, shift, produced@),
{
    // PASS = no wchar produced. Any character (including 0x000A or
    // 0x000D) is a fail because Chromium will treat it as text input.
    let passed = produced.is_empty();
    ControlKeyResult {
        name: string_of(name),
        vk,
        shift,
        passed,
        produced: produced_hex_string(produced),
    }
}

/// The text a probed key produced, as the probe output's member `key`
/// holds it (empty when the output is no object or lacks it).
pub open spec fn probe_text(d: JsonDocView, key: Seq<char>) -> Seq<char> {
    match d {
        JsonDocView::Object(ms) => member_text(ms, key),
        _ => seq![],
    }
}

fn probe_field(doc: &JsonDoc, key: &str) -> (s: String)
    ensures
        s@ == probe_text(doc_view(*doc), key@),
{
    match doc {
        JsonDoc::Object(ms) => member_string(ms, key),
        _ => {
            let e = string_of("");
            proof {
                reveal_strlit("");
            }
            e
        },
    }
}

/// The five results in probe order, for the parsed probe output `d`.
pub open spec fn results_are(rs: Seq<ControlKeyResult>, d: JsonDocView) -> bool {
    &&& rs.len() == 5
    &&& result_is(rs[0], "Enter"@, 0x0D, false, probe_text(d, "enter"@))
    &&& result_is(rs[1], "Shift+Enter"@, 0x0D, true, probe_text(d, "shiftEnter"@))
    &&& result_is(rs[2], "Tab"@, 0x09, false, probe_text(d, "tab"@))
    &&& result_is(rs[3], "Backspace"@, 0x08, false, probe_text(d, "back"@))
    &&& result_is(rs[4], "Escape"@, 0x1B, false, probe_text(d, "esc"@))
}

/// The report for `klid` from the probe run: its failure when it failed,
/// else the results read from its output, which must be JSON.
pub fn control_key_report(klid: String, succeeded: bool, stdout: &str, stderr: &str) -> (r: Result<
    ControlKeyReport,
    String,
>)
    ensures
        !succeeded ==> (r matches Err(e) && e@ == "probe failed: "@ + stderr@),
        succeeded ==> match json_doc(trim(stdout@)) {
            Err(m) => r matches Err(e) && e@ == "parse probe output: "@ + m + "\nraw: "@ + stdout@,
            Ok(d) => r matches Ok(rep) && rep.klid@ == klid@ && results_are(rep.results@, d)
                && rep.all_passed == (forall|i: int| 0 <= i < 5 ==> #[trigger] rep.results@[i].passed),
        },
{
    if !succeeded {
        let mut e = string_of("probe failed: ");
        e.append(stderr);
        return Err(e);
    }
    let t = trimmed(stdout);
    let parsed = parse_json_doc(t.as_str());
    assert(json_doc(trim(stdout@)) == json_doc(t@));
    let doc = match parsed {
        Ok(d) => d,
        Err(m) => {
            let mut e = string_of("parse probe output: ");
            e.append(m.as_str());
            e.append("\nraw: ");
            e.append(stdout);
            return Err(e);
        },
    };
    let mut results: Vec<ControlKeyResult> = Vec::new();
    results.push(control_key_result("Enter", 0x0D, false, probe_field(&doc, "enter").as_str()));
    results.push(
        control_key_result("Shift+Enter", 0x0D, true, probe_field(&doc, "shiftEnter").as_str()),
    );
    results.push(control_key_result("Tab", 0x09, false, probe_field(&doc, "tab").as_str()));
    results.push(control_key_result("Backspace", 0x08, false, probe_field(&doc, "back").as_str()));
    results.push(control_key_result("Escape", 0x1B, false, probe_field(&doc, "esc").as_str()));
    let all_passed = results[0].passed && results[1].passed && results[2].passed
        && results[3].passed && results[4].passed;
    proof {
        assert(results_are(results@, doc_view(doc)));
        assert(all_passed == (results@[0].passed && results@[1].passed && results@[2].passed
            && results@[3].passed && results@[4].passed));
        if all_passed {
            assert forall|i: int| 0 <= i < 5 implies #[trigger] results@[i].passed by {
                assert(results@[i] == results[i]);
            }
        }
    }
    let rep = ControlKeyReport { klid, results, all_passed };
    assert(json_doc(trim(stdout@)) == json_ok(doc_view(doc)));
    assert(results_are(rep.results@, doc_view(doc)));
    assert(rep.all_passed == (forall|i: int| 0 <= i < 5 ==> #[trigger] rep.results@[i].passed));
    Ok(rep)
}

} // verus!
