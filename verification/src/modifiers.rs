//! The Scancode Map value as the modifier settings read and write it: the
//! value travels through PowerShell as standard base64 text, reading turns
//! that text into the current toggle state, and writing turns a toggle
//! selection into the elevated run that stores (or, for no toggles, deletes)
//! the value.
use base64::Engine;
use vstd::prelude::*;
use crate::scancode_map::{
    ModifierState, ModifierToggles, PairView, build_scancode_map, derive_state, derived_toggles,
    has_external, pairs_view, parse_scancode_map, parse_spec, scancode_map_bytes, toggle_pairs,
    lemma_toggle_map_len, lemma_map_bytes_len, written_toggles_read_back, RawScancodePair,
    build_scancode_map_from_pairs,
};
use crate::text::{is_ws, trim, chars_of, chars_eq, trim_chars, string_from_chars, string_of};

verus! {

broadcast use vstd::string::group_string_axioms;

// ── Script text ──────────────────────────────────────────────────────────

/// The elevated write script up to the base64 value.
pub const SCANCODE_WRITE_HEAD: &'static str = r#"
$ErrorActionPreference = 'Stop'
$principal = [Security.Principal.WindowsPrincipal][Security.Principal.WindowsIdentity]::GetCurrent()
if (-not $principal.IsInRole([Security.Principal.WindowsBuiltInRole]::Administrator)) {
    throw "Administrator privileges are required to modify the keyboard layout registry."
}

$path  = 'HKLM:\System\CurrentControlSet\Control\Keyboard Layout'
$name  = 'Scancode Map'
$bytes = [Convert]::FromBase64String('"#;

/// The elevated write script after the base64 value.
pub const SCANCODE_WRITE_TAIL: &'static str = r#"')

# Ensure the key exists (it does on every Windows install, but defensive).
if (-not (Test-Path -LiteralPath $path)) {
    throw "Registry path not found: $path"
}

Set-ItemProperty -LiteralPath $path -Name $name -Value $bytes -Type Binary -Force
Write-Host "Scancode Map written ($($bytes.Length) bytes)."
"#;

/// The elevated script that deletes the Scancode Map value.
pub const SCANCODE_CLEAR_SCRIPT: &'static str = r#"
$ErrorActionPreference = 'Stop'
$principal = [Security.Principal.WindowsPrincipal][Security.Principal.WindowsIdentity]::GetCurrent()
if (-not $principal.IsInRole([Security.Principal.WindowsBuiltInRole]::Administrator)) {
    throw "Administrator privileges are required to modify the keyboard layout registry."
}

$path = 'HKLM:\System\CurrentControlSet\Control\Keyboard Layout'
Remove-ItemProperty -LiteralPath $path -Name 'Scancode Map' -ErrorAction SilentlyContinue
Write-Host "Scancode Map cleared (or already absent)."
"#;

// ── Base64 ────────────────────────────────────────────────────────────────

/// The symbol of a 6-bit value in the standard base64 alphabet
/// (`A`-`Z`, `a`-`z`, `0`-`9`, `+`, `/`).
pub open spec fn b64_symbol(v: int) -> char {
    if v < 26 {
        (v + 65) as char
    } else if v < 52 {
        (v + 71) as char
    } else if v < 62 {
        (v - 4) as char
    } else if v == 62 {
        '+'
    } else {
        '/'
    }
}

/// Standard base64 with `=` padding (RFC 4648, section 4).
pub open spec fn base64_encode(b: Seq<u8>) -> Seq<char>
    decreases b.len(),
{
    if b.len() == 0 {
        seq![]
    } else if b.len() == 1 {
        seq![b64_symbol((b[0] / 4) as int), b64_symbol((b[0] % 4) * 16), '=', '=']
    } else if b.len() == 2 {
        seq![
            b64_symbol((b[0] / 4) as int),
            b64_symbol((b[0] % 4) * 16 + b[1] / 16),
            b64_symbol((b[1] % 16) * 4),
            '=',
        ]
    } else {
        seq![
            b64_symbol((b[0] / 4) as int),
            b64_symbol((b[0] % 4) * 16 + b[1] / 16),
            b64_symbol((b[1] % 16) * 4 + b[2] / 64),
            b64_symbol((b[2] % 64) as int),
        ] + base64_encode(b.skip(3))
    }
}

/// The length of the padded base64 text of `n` bytes.
pub open spec fn base64_len(n: nat) -> nat {
    (n / 3) * 4 + if n % 3 > 0 {
        4nat
    } else {
        0nat
    }
}

/// What `base64::engine::general_purpose::STANDARD.decode` gives for the
/// UTF-8 bytes of `text`: the decoded bytes, or the message of its
/// `DecodeError`.
pub uninterp spec fn base64_decode(text: Seq<char>) -> Result<Seq<u8>, Seq<char>>;

/// A successful decoding to `b`.
pub open spec fn base64_ok(b: Seq<u8>) -> Result<Seq<u8>, Seq<char>> {
    Ok(b)
}

/// A failed decoding with message `m`.
pub open spec fn base64_err(m: Seq<char>) -> Result<Seq<u8>, Seq<char>> {
    Err(m)
}

/// `base64::engine::general_purpose::STANDARD.encode`: the padded standard
/// base64 text of `bytes`, which the same engine decodes back to `bytes`.
/// It panics when the text's length does not fit in `usize`, which the
/// `requires` rules out.
#[verifier::external_body]
fn encode_base64(bytes: &[u8]) -> (s: String)
    requires
        base64_len(bytes@.len()) <= usize::MAX,
    ensures
        s@ == base64_encode(bytes@),
        base64_decode(s@) == base64_ok(bytes@),
{
    base64::engine::general_purpose::STANDARD.encode(bytes)
}

/// `base64::engine::general_purpose::STANDARD.decode` on the bytes of
/// `text`, with the error turned into its message; the result is what
/// `base64_decode` names.
#[verifier::external_body]
fn decode_base64(text: &str) -> (r: Result<Vec<u8>, String>)
    ensures
        match r {
            Ok(b) => base64_decode(text@) == base64_ok(b@),
            Err(e) => base64_decode(text@) == base64_err(e@),
        },
{
    match base64::engine::general_purpose::STANDARD.decode(text) {
        Ok(b) => Ok(b),
        Err(e) => Err(format!("{e}")),
    }
}

// ── Reading ───────────────────────────────────────────────────────────────

/// The Scancode Map bytes from the read-out script's output: none when the
/// value is absent (`NONE` or no output), else the decoded base64 text.
pub open spec fn scancode_bytes_spec(out: Seq<char>) -> Result<Seq<u8>, Seq<char>> {
    let s = trim(out);
    if s == "NONE"@ || s.len() == 0 {
        Ok(seq![])
    } else {
        match base64_decode(s) {
            Ok(b) => Ok(b),
            Err(m) => Err("Bad base64 from PowerShell: "@ + m),
        }
    }
}

/// The Scancode Map bytes from the output of the read-out script.
pub fn scancode_bytes_from_output(out: &str) -> (r: Result<Vec<u8>, String>)
    ensures
        match (r, scancode_bytes_spec(out@)) {
            (Ok(b), Ok(c)) => b@ == c,
            (Err(e), Err(m)) => e@ == m,
            _ => false,
        },
{
    let t = trim_chars(&chars_of(out));
    let none = chars_of("NONE");
    if t.len() == 0 || chars_eq(&t, &none) {
        let b: Vec<u8> = Vec::new();
        assert(b@ =~= Seq::<u8>::empty());
        return Ok(b);
    }
    let s = string_from_chars(t);
    match decode_base64(s.as_str()) {
        Ok(b) => Ok(b),
        Err(m) => {
            let mut e = string_of("Bad base64 from PowerShell: ");
            e.append(m.as_str());
            Err(e)
        },
    }
}

/// What the read-out script's output shows: the toggles the value's pairs
/// make up, whether it holds pairs of no toggle, and the pairs; or why it
/// could not be read.
pub open spec fn read_state_spec(out: Seq<char>) -> Result<
    (ModifierToggles, bool, Seq<PairView>),
    Seq<char>,
> {
    match scancode_bytes_spec(out) {
        Err(m) => Err(m),
        Ok(b) => match parse_spec(b) {
            Err(m) => Err(m),
            Ok(ps) => Ok((derived_toggles(ps), has_external(ps), ps)),
        },
    }
}

/// The modifier state the read-out script's output shows.
pub fn modifier_state_from_output(out: &str) -> (r: Result<ModifierState, String>)
    ensures
        match (r, read_state_spec(out@)) {
            (Ok(st), Ok((t, ext, ps))) => st.current == t && st.has_external_mappings == ext
                && pairs_view(st.raw_entries@) == ps,
            (Err(e), Err(m)) => e@ == m,
            _ => false,
        },
{
    let bytes = scancode_bytes_from_output(out)?;
    let pairs = parse_scancode_map(bytes.as_slice())?;
    Ok(derive_state(pairs.as_slice()))
}

/// Padded base64 text is as long as `base64_len` says and holds no white
/// space.
pub proof fn lemma_base64_text(b: Seq<u8>)
    ensures
        base64_encode(b).len() == base64_len(b.len()),
        forall|i: int| 0 <= i < base64_encode(b).len() ==> !is_ws(#[trigger] base64_encode(b)[i]),
    decreases b.len(),
{
    if b.len() >= 3 {
        lemma_base64_text(b.skip(3));
        let h = seq![
            b64_symbol((b[0] / 4) as int),
            b64_symbol((b[0] % 4) * 16 + b[1] / 16),
            b64_symbol((b[1] % 16) * 4 + b[2] / 64),
            b64_symbol((b[2] % 64) as int),
        ];
        assert(base64_encode(b) == h + base64_encode(b.skip(3)));
        assert forall|i: int| 0 <= i < base64_encode(b).len() implies !is_ws(
            #[trigger] base64_encode(b)[i],
        ) by {
            if i >= 4 {
                assert(base64_encode(b)[i] == base64_encode(b.skip(3))[i - 4]);
            }
        }
        assert((b.len() - 3) as nat / 3 == b.len() / 3 - 1);
        assert((b.len() - 3) as nat % 3 == b.len() % 3);
    }
}

/// Reading back text that decodes to the value a toggle selection writes
/// shows that selection, with nothing foreign and the same pairs.
pub proof fn payload_reads_back(t: ModifierToggles, text: Seq<char>)
    requires
        scancode_map_bytes(toggle_pairs(t)).len() > 0,
        text == base64_encode(scancode_map_bytes(toggle_pairs(t))),
        base64_decode(text) == base64_ok(scancode_map_bytes(toggle_pairs(t))),
    ensures
        read_state_spec(text) == Ok::<(ModifierToggles, bool, Seq<PairView>), Seq<char>>(
            (t, false, toggle_pairs(t)),
        ),
{
    let b = scancode_map_bytes(toggle_pairs(t));
    lemma_base64_text(b);
    lemma_toggle_map_len(t);
    lemma_map_bytes_len(toggle_pairs(t));
    crate::text::lemma_trim_no_ws(text);
    reveal_strlit("NONE");
    assert(trim(text) == text);
    assert(text.len() >= 28) by (nonlinear_arith)
        requires
            text.len() == base64_len(b.len()),
            b.len() >= 20,
    ;
    assert(text != "NONE"@);
    written_toggles_read_back(t);
}

// ── Writing ───────────────────────────────────────────────────────────────

/// One elevated run: the label its working files are named after, and the
/// script it runs.
pub struct ElevatedJob {
    pub label: String,
    pub script: String,
}

/// The elevated write script for the base64 text `b64`.
pub open spec fn write_script_text(b64: Seq<char>) -> Seq<char> {
    SCANCODE_WRITE_HEAD@ + b64 + SCANCODE_WRITE_TAIL@
}

/// The elevated run that deletes the Scancode Map value.
pub fn clear_scancode_map_job() -> (job: ElevatedJob)
    ensures
        job.label@ == "scancode_clear"@,
        job.script@ == SCANCODE_CLEAR_SCRIPT@,
{
    ElevatedJob { label: string_of("scancode_clear"), script: string_of(SCANCODE_CLEAR_SCRIPT) }
}

/// The elevated run that applies `toggles`: with no toggle on, the value is
/// deleted; else the built value is written, carried as base64 text that
/// the read-out decodes back to the same bytes.
pub fn scancode_map_job(toggles: &ModifierToggles) -> (job: ElevatedJob)
    ensures
        scancode_map_bytes(toggle_pairs(*toggles)).len() == 0 ==> job.label@ == "scancode_clear"@
            && job.script@ == SCANCODE_CLEAR_SCRIPT@,
        scancode_map_bytes(toggle_pairs(*toggles)).len() > 0 ==> job.label@ == "scancode_write"@
            && job.script@ == write_script_text(
            base64_encode(scancode_map_bytes(toggle_pairs(*toggles))),
        ) && base64_decode(base64_encode(scancode_map_bytes(toggle_pairs(*toggles)))) == base64_ok(
            scancode_map_bytes(toggle_pairs(*toggles)),
        ) && read_state_spec(base64_encode(scancode_map_bytes(toggle_pairs(*toggles)))) == Ok::<
            (ModifierToggles, bool, Seq<PairView>),
            Seq<char>,
        >((*toggles, false, toggle_pairs(*toggles))),
{
    let bytes = build_scancode_map(toggles);
    proof {
        lemma_toggle_map_len(*toggles);
    }
    if bytes.len() == 0 {
        return clear_scancode_map_job();
    }
    let b64 = encode_base64(bytes.as_slice());
    proof {
        payload_reads_back(*toggles, b64@);
    }
    let mut script = string_of(SCANCODE_WRITE_HEAD);
    script.append(b64.as_str());
    script.append(SCANCODE_WRITE_TAIL);
    assert(script@ =~= write_script_text(b64@));
    ElevatedJob { label: string_of("scancode_write"), script }
}

/// The elevated run that stores `pairs` as the Scancode Map value: with no
/// pairs the value is deleted; else the built value is written, carried as
/// base64 text that the read-out decodes back to the same bytes.
pub fn raw_pairs_job(pairs: &[RawScancodePair]) -> (job: ElevatedJob)
    requires
        pairs@.len() * 6 + 26 <= usize::MAX,
    ensures
        pairs@.len() == 0 ==> job.label@ == "scancode_clear"@ && job.script@ == SCANCODE_CLEAR_SCRIPT@,
        pairs@.len() > 0 ==> job.label@ == "scancode_write"@ && job.script@ == write_script_text(
            base64_encode(scancode_map_bytes(pairs_view(pairs@))),
        ) && base64_decode(base64_encode(scancode_map_bytes(pairs_view(pairs@)))) == base64_ok(
            scancode_map_bytes(pairs_view(pairs@)),
        ),
{
    let bytes = build_scancode_map_from_pairs(pairs);
    proof {
        lemma_map_bytes_len(pairs_view(pairs@));
    }
    if bytes.len() == 0 {
        return clear_scancode_map_job();
    }
    assert(base64_len(bytes@.len()) <= usize::MAX) by (nonlinear_arith)
        requires
            bytes@.len() == 16 + 4 * pairs@.len(),
            pairs@.len() * 6 + 26 <= usize::MAX,
    ;
    let b64 = encode_base64(bytes.as_slice());
    let mut script = string_of(SCANCODE_WRITE_HEAD);
    script.append(b64.as_str());
    script.append(SCANCODE_WRITE_TAIL);
    assert(script@ =~= write_script_text(b64@));
    ElevatedJob { label: string_of("scancode_write"), script }
}

} // verus!
