//! The install and uninstall steps of a layout, as far as they are decisions
//! and text: where the working files live, the PowerShell scripts that the
//! elevated and the per-user steps run, how the outcome of an elevated run
//! is judged, and how the markers that the install step leaves are read.
//! Running the scripts and touching the disk is the caller's part.
use vstd::prelude::*;
use vstd::utf8::*;
use vstd::string::StringSliceAdditionalSpecFns;
use crate::layout::{Layout, layout_name, layout_display_name};
use crate::text::{
    trim, dec_digits, chars_of, string_from_chars, string_of, str_eq, trim_chars, trimmed, replace_char,
    replace_char_exec, split_fields, split_chars, nonempty_trimmed, nonempty_trimmed_fields,
};

verus! {

broadcast use vstd::string::group_string_axioms;

// ── Script text ──────────────────────────────────────────────────────────

/// The install script up to the DLL path.
pub const INSTALL_SCRIPT_HEAD: &'static str = r#"
$ErrorActionPreference = 'Stop'

# ── Privilege check ────────────────────────────────────────────────────────
$principal = [Security.Principal.WindowsPrincipal][Security.Principal.WindowsIdentity]::GetCurrent()
if (-not $principal.IsInRole([Security.Principal.WindowsBuiltInRole]::Administrator)) {
    throw "MagicWindows must be run as Administrator to install keyboard layouts."
}

$DllPath   = '"#;

/// The install script after the layout name.
pub const INSTALL_SCRIPT_TAIL: &'static str = r#"'

# ── Validate DLL exists ────────────────────────────────────────────────────
if (-not (Test-Path -LiteralPath $DllPath)) {
    throw "Bundled DLL not found at: $DllPath"
}

# ── Wipe any existing registrations of this DLL ───────────────────────────
# Previous installs may have registered one or more KLIDs against the same
# DLL name (e.g. with the old "Apple French (AZERTY)" Layout Text, or a
# broken 64-bit-in-SysWOW64 install). To make re-install behave as a clean
# replace — and to avoid orphan KLIDs piling up — we delete all existing
# Keyboard Layouts subkeys whose 'Layout File' matches this DLL, and stash
# the deleted KLIDs in HKLM markers so the user-side activate step can also
# strip them from HKCU\Keyboard Layout\Preload.
$suffix        = $LocaleId.Substring(4, 4)
$kbLayoutsRoot = 'HKLM:\SYSTEM\CurrentControlSet\Control\Keyboard Layouts'
$expectedDll   = "$DllName.dll"
$staleKlids    = @()

Get-ChildItem -Path $kbLayoutsRoot -ErrorAction SilentlyContinue | ForEach-Object {
    $existingFile = (Get-ItemProperty -LiteralPath $_.PSPath -Name 'Layout File' -ErrorAction SilentlyContinue).'Layout File'
    if ($existingFile -eq $expectedDll) {
        $oldKlid = $_.PSChildName
        $staleKlids += $oldKlid
        Write-Host "Removing stale registration: $oldKlid"
        Remove-Item -LiteralPath $_.PSPath -Recurse -Force -ErrorAction SilentlyContinue
    }
}

# ── Generate a fresh KLID ─────────────────────────────────────────────────
$layoutId = $null
$regPath  = $null
$prefix   = 1
do {
    $layoutId = 'a{0:x3}{1}' -f $prefix, $suffix
    $regPath  = Join-Path $kbLayoutsRoot $layoutId
    $prefix++
} while (Test-Path -LiteralPath $regPath)

# Derive unique 4-digit hex Layout Id value
$existingIds = @()
Get-ChildItem -Path $kbLayoutsRoot -ErrorAction SilentlyContinue | ForEach-Object {
    $val = (Get-ItemProperty -LiteralPath $_.PSPath -Name 'Layout Id' -ErrorAction SilentlyContinue).'Layout Id'
    if ($val) { $existingIds += $val }
}
$layoutNumber = 1
do {
    $layoutIdHex = '{0:x4}' -f $layoutNumber
    $layoutNumber++
} while ($existingIds -contains $layoutIdHex)

Write-Host "Registry key : $layoutId"
Write-Host "Layout Id    : $layoutIdHex"

# Emit machine-parseable markers to HKLM so the parent Rust process can pick up the
# generated KLID and language tag, then add the layout to the current user's input
# methods in a separate (non-elevated) step. Registry is reliable from elevated PS;
# stdout capture and cross-user file writes are not.
$langIdHex = $LocaleId.Substring(4, 4)
$langTag   = [System.Globalization.CultureInfo]::new([int]("0x$langIdHex")).Name
$markerKey = 'HKLM:\SOFTWARE\MagicWindows'
if (-not (Test-Path -LiteralPath $markerKey)) {
    New-Item -Path $markerKey -Force | Out-Null
}
Set-ItemProperty -LiteralPath $markerKey -Name 'LastInstalledKLID'    -Value $layoutId  -Force
Set-ItemProperty -LiteralPath $markerKey -Name 'LastInstalledLANGID'  -Value $langIdHex -Force
Set-ItemProperty -LiteralPath $markerKey -Name 'LastInstalledLANGTAG' -Value $langTag   -Force
$staleJoined = ($staleKlids -join ',')
Set-ItemProperty -LiteralPath $markerKey -Name 'StaleKLIDs'           -Value $staleJoined -Force
Write-Host "Markers written to $markerKey (stale KLIDs: $staleJoined)"

# ── Copy DLL to System32 (and SysWOW64 on 64-bit Windows) ────────────────
$dllFileName = "$DllName.dll"
$sys32       = Join-Path $env:SystemRoot 'System32'
$destSys32   = Join-Path $sys32 $dllFileName
Write-Host "Copying to $destSys32 ..."
Copy-Item -LiteralPath $DllPath -Destination $destSys32 -Force

$wow64 = Join-Path $env:SystemRoot 'SysWOW64'
if (Test-Path -LiteralPath $wow64) {
    $destWow64 = Join-Path $wow64 $dllFileName
    Write-Host "Copying to $destWow64 ..."
    Copy-Item -LiteralPath $DllPath -Destination $destWow64 -Force
}

# ── Create registry entries ────────────────────────────────────────────────
Write-Host "Creating registry entries at $regPath ..."
New-Item -Path $regPath -Force | Out-Null
New-ItemProperty -LiteralPath $regPath -Name 'Layout File' -Value $dllFileName   -PropertyType String -Force | Out-Null
New-ItemProperty -LiteralPath $regPath -Name 'Layout Text' -Value $LayoutName    -PropertyType String -Force | Out-Null
New-ItemProperty -LiteralPath $regPath -Name 'Layout Id'   -Value $layoutIdHex   -PropertyType String -Force | Out-Null

Write-Host 'Keyboard layout installed successfully.'
"#;

/// The activation script up to the input-method tip.
pub const ACTIVATE_SCRIPT_HEAD: &'static str = r#"
$ErrorActionPreference = 'Continue'
$tip       = '"#;

/// The activation script after the stale-KLID array.
pub const ACTIVATE_SCRIPT_TAIL: &'static str = r#"

Write-Host "[activate] tip=$tip langTag=$langTag klid=$klid staleKlids=$($staleKlids -join ',')"

# ── Purge stale KLIDs from HKCU\Keyboard Layout\Preload ───────────────────
# The install step deleted these from HKLM, but their Preload references stay
# until we explicitly drop them — otherwise Windows logs errors trying to load
# a non-existent layout file at every logon.
try {
    $preload = 'HKCU:\Keyboard Layout\Preload'
    if (Test-Path -LiteralPath $preload) {
        $names = (Get-Item -LiteralPath $preload).GetValueNames() | Where-Object { $_ -match '^\d+$' }
        foreach ($name in $names) {
            $val = (Get-ItemProperty -LiteralPath $preload -Name $name).$name
            if ($staleKlids -contains $val) {
                Write-Host "[activate] Purging stale Preload entry $name=$val"
                Remove-ItemProperty -LiteralPath $preload -Name $name -ErrorAction SilentlyContinue
            }
        }
    }
} catch {
    Write-Host "[activate] Preload purge FAILED: $_"
}

# ── Drop stale InputMethodTips from WinUserLanguageList ───────────────────
try {
    $list = Get-WinUserLanguageList
    $changed = $false
    foreach ($lang in $list) {
        $toRemove = @()
        foreach ($tip in $lang.InputMethodTips) {
            $tipKlid = ($tip -split ':')[1]
            if ($staleKlids -contains $tipKlid) { $toRemove += $tip }
        }
        foreach ($t in $toRemove) {
            Write-Host "[activate] Purging stale tip $t from $($lang.LanguageTag)"
            $null = $lang.InputMethodTips.Remove($t)
            $changed = $true
        }
    }
    if ($changed) {
        Set-WinUserLanguageList $list -Force
        $list = Get-WinUserLanguageList
    }
} catch {
    Write-Host "[activate] Stale-tip purge FAILED: $_"
}

# ── Path A: modern WinUserLanguageList API ────────────────────────────────
try {
    $list = Get-WinUserLanguageList
    $lang = $list | Where-Object { $_.LanguageTag -eq $langTag }
    if (-not $lang) {
        Write-Host "[activate] Language $langTag not in list — adding it"
        $list.Add($langTag)
        $lang = $list | Where-Object { $_.LanguageTag -eq $langTag }
    }
    if ($lang.InputMethodTips -notcontains $tip) {
        $lang.InputMethodTips.Add($tip)
        Set-WinUserLanguageList $list -Force
        Write-Host "[activate] Set-WinUserLanguageList: added $tip to $langTag"
    } else {
        Write-Host "[activate] Set-WinUserLanguageList: $tip already present"
    }
} catch {
    Write-Host "[activate] Set-WinUserLanguageList FAILED: $_"
}

# ── Path B: direct HKCU\Keyboard Layout\Preload write ─────────────────────
# More reliable than the cmdlet on some Windows builds; survives logoff and
# is the legacy "this layout exists for me" registry entry.
try {
    $preload = 'HKCU:\Keyboard Layout\Preload'
    if (-not (Test-Path -LiteralPath $preload)) {
        New-Item -Path $preload -Force | Out-Null
    }
    $existing = (Get-Item -LiteralPath $preload).GetValueNames() |
        Where-Object { $_ -match '^\d+$' }
    $alreadyPreloaded = $false
    foreach ($name in $existing) {
        $val = (Get-ItemProperty -LiteralPath $preload -Name $name).$name
        if ($val -eq $klid) { $alreadyPreloaded = $true; break }
    }
    if (-not $alreadyPreloaded) {
        $maxIdx = 0
        foreach ($name in $existing) {
            $i = [int]$name
            if ($i -gt $maxIdx) { $maxIdx = $i }
        }
        $nextIdx = ($maxIdx + 1).ToString()
        Set-ItemProperty -LiteralPath $preload -Name $nextIdx -Value $klid -Type String
        Write-Host "[activate] HKCU Preload: added $klid as index $nextIdx"
    } else {
        Write-Host "[activate] HKCU Preload: $klid already present"
    }
} catch {
    Write-Host "[activate] HKCU Preload write FAILED: $_"
}

Write-Host "[activate] done"
"#;

/// The uninstall script up to the DLL name.
pub const UNINSTALL_SCRIPT_HEAD: &'static str = r#"
$ErrorActionPreference = 'Stop'

$principal = [Security.Principal.WindowsPrincipal][Security.Principal.WindowsIdentity]::GetCurrent()
if (-not $principal.IsInRole([Security.Principal.WindowsBuiltInRole]::Administrator)) {
    throw "MagicWindows must be run as Administrator to uninstall keyboard layouts."
}

$DllName = '"#;

/// The uninstall script after the DLL name.
pub const UNINSTALL_SCRIPT_TAIL: &'static str = r#"'

# ── Remove registry entries ────────────────────────────────────────────────
$regPath = 'HKLM:\SYSTEM\CurrentControlSet\Control\Keyboard Layouts'
$entries = Get-ChildItem $regPath | Where-Object {
    (Get-ItemProperty $_.PSPath).'Layout File' -eq "$DllName.dll"
}
$removedKlids = @()
foreach ($entry in $entries) {
    $removedKlids += $entry.PSChildName
    Remove-Item $entry.PSPath -Force
}

# ── Record the removed KLIDs for the per-user Preload purge ───────────────
$markerKey = 'HKLM:\SOFTWARE\MagicWindows'
if (-not (Test-Path -LiteralPath $markerKey)) {
    New-Item -Path $markerKey -Force | Out-Null
}
Set-ItemProperty -LiteralPath $markerKey -Name 'LastUninstalledKLIDs' -Value ($removedKlids -join ',') -Force

# ── Remove DLL from System32 ───────────────────────────────────────────────
$sys32Dll = "$env:SystemRoot\System32\$DllName.dll"
if (Test-Path $sys32Dll) { Remove-Item $sys32Dll -Force }

# ── Remove DLL from SysWOW64 ──────────────────────────────────────────────
$wow64Dll = "$env:SystemRoot\SysWOW64\$DllName.dll"
if (Test-Path $wow64Dll) { Remove-Item $wow64Dll -Force }

Write-Host 'Keyboard layout uninstalled successfully.'
"#;

/// The per-user script that runs after an uninstall: it purges the KLIDs
/// that the uninstall removed (recorded in HKLM) from `HKCU\Keyboard
/// Layout\Preload` and from the user's input-method tips.
pub const PRELOAD_PURGE_SCRIPT: &'static str = r#"
$ErrorActionPreference = 'Continue'
$markerKey = 'HKLM:\SOFTWARE\MagicWindows'
$removed = (Get-ItemProperty -LiteralPath $markerKey -Name 'LastUninstalledKLIDs' -ErrorAction SilentlyContinue).LastUninstalledKLIDs
if (-not $removed) { Write-Host "[purge] nothing to purge"; exit 0 }
$klids = @($removed -split ',' | ForEach-Object { $_.Trim() } | Where-Object { $_ })

try {
    $preload = 'HKCU:\Keyboard Layout\Preload'
    if (Test-Path -LiteralPath $preload) {
        $names = (Get-Item -LiteralPath $preload).GetValueNames() | Where-Object { $_ -match '^\d+$' }
        foreach ($name in $names) {
            $val = (Get-ItemProperty -LiteralPath $preload -Name $name).$name
            if ($klids -contains $val) {
                Write-Host "[purge] Removing Preload entry $name=$val"
                Remove-ItemProperty -LiteralPath $preload -Name $name -ErrorAction SilentlyContinue
            }
        }
    }
} catch {
    Write-Host "[purge] Preload purge FAILED: $_"
}

try {
    $list = Get-WinUserLanguageList
    $changed = $false
    foreach ($lang in $list) {
        $toRemove = @()
        foreach ($tip in $lang.InputMethodTips) {
            if ($klids -contains (($tip -split ':')[1])) { $toRemove += $tip }
        }
        foreach ($t in $toRemove) {
            Write-Host "[purge] Removing tip $t from $($lang.LanguageTag)"
            $null = $lang.InputMethodTips.Remove($t)
            $changed = $true
        }
    }
    if ($changed) { Set-WinUserLanguageList $list -Force }
} catch {
    Write-Host "[purge] InputMethodTips purge FAILED: $_"
}

Write-Host "[purge] done"
"#;

/// The elevated wrapper up to the transcript path.
pub const ELEVATED_WRAPPER_HEAD: &'static str = r#"$ErrorActionPreference = 'Continue'
try { Start-Transcript -Path '"#;

/// The elevated wrapper between the transcript path and the first exit-code path.
pub const ELEVATED_WRAPPER_PENDING: &'static str = r#"' -Force | Out-Null } catch { }
'PENDING' | Out-File -LiteralPath '"#;

/// The elevated wrapper between the first exit-code path and the body.
pub const ELEVATED_WRAPPER_BODY_START: &'static str = r#"' -Encoding ascii -Force
$childExit = 1
try {
"#;

/// The elevated wrapper between the body and the second exit-code path.
pub const ELEVATED_WRAPPER_BODY_END: &'static str = r#"
    $childExit = 0
} catch {
    Write-Host "[run_elevated_ps] child threw: $_"
    $childExit = 1
}
try { Stop-Transcript | Out-Null } catch { }
$childExit | Out-File -LiteralPath '"#;

/// The elevated wrapper after the second exit-code path.
pub const ELEVATED_WRAPPER_TAIL: &'static str = r#"' -Encoding ascii -Force
exit $childExit
"#;

/// The launcher script up to the wrapped script path.
pub const LAUNCHER_SCRIPT_HEAD: &'static str = r#"
$ErrorActionPreference = 'Stop'
try {
    $proc = Start-Process powershell `
        -ArgumentList @('-ExecutionPolicy','Bypass','-NoProfile','-File','"#;

/// The launcher script after the wrapped script path.
pub const LAUNCHER_SCRIPT_TAIL: &'static str = r#"') `
        -Verb RunAs `
        -Wait `
        -PassThru
} catch {
    Write-Error "Start-Process failed: $_"
    exit 2
}
if ($null -eq $proc) {
    Write-Error "Start-Process returned null (UAC cancelled?)"
    exit 3
}
exit $proc.ExitCode
"#;

// ── Working directory ──────────────────────────────────────────────────────

/// A path separator on a platform whose main separator is `sep`: `sep`
/// itself, and `/`, which Windows accepts too.
pub open spec fn is_path_sep(c: char, sep: char) -> bool {
    c == sep || c == '/'
}

/// A bare drive prefix such as `C:` (a Windows form only).
pub open spec fn is_bare_drive(s: Seq<char>, sep: char) -> bool {
    &&& sep == '\\'
    &&& s.len() == 2
    &&& s[1] == ':'
    &&& (('a' <= s[0] && s[0] <= 'z') || ('A' <= s[0] && s[0] <= 'Z'))
}

/// Whether `base` is a Windows verbatim path, one that starts with `\\?\`.
pub open spec fn is_verbatim(base: Seq<char>, sep: char) -> bool {
    &&& sep == '\\'
    &&& base.len() >= 4
    &&& base.take(4) == seq!['\\', '\\', '?', '\\']
}

/// The index of the first backslash of `s` at or after `i`, or `s.len()`.
pub open spec fn next_backslash(s: Seq<char>, i: int) -> int
    decreases s.len() - i,
{
    if i < 0 || i >= s.len() {
        s.len() as int
    } else if s[i] == '\\' {
        i
    } else {
        next_backslash(s, i + 1)
    }
}

/// The length of the prefix of a verbatim path, counted in `r`, the text
/// after its leading `\\?\`: `UNC\server\share` (the share only when it is
/// not empty), or else everything up to the first backslash (`C:` or any
/// other name).
pub open spec fn verbatim_prefix_len(r: Seq<char>) -> int {
    if r.len() >= 4 && r.take(4) == seq!['U', 'N', 'C', '\\'] {
        let e1 = next_backslash(r, 4);
        if e1 < r.len() {
            let e2 = next_backslash(r, e1 + 1);
            if e2 > e1 + 1 {
                e2
            } else {
                e1
            }
        } else {
            e1
        }
    } else {
        next_backslash(r, 0)
    }
}

/// What has been written, and the component still being read, after
/// reading `s` component by component: each non-empty run of characters
/// between backslashes goes out with one backslash before it.
pub open spec fn component_scan(s: Seq<char>) -> (Seq<char>, Seq<char>)
    decreases s.len(),
{
    if s.len() == 0 {
        (seq![], seq![])
    } else {
        let (out, cur) = component_scan(s.drop_last());
        if s.last() == '\\' {
            (
                if cur.len() == 0 {
                    out
                } else {
                    out + seq!['\\'] + cur
                },
                seq![],
            )
        } else {
            (out, cur.push(s.last()))
        }
    }
}

/// The non-empty components of `s`, each after one backslash.
pub open spec fn joined_components(s: Seq<char>) -> Seq<char> {
    let (out, cur) = component_scan(s);
    if cur.len() == 0 {
        out
    } else {
        out + seq!['\\'] + cur
    }
}

/// A verbatim path with one more component, as `PathBuf::push` rebuilds it
/// from its components: the prefix as written, then each non-empty
/// component of the rest and the new one, each after a backslash.
pub open spec fn verbatim_push(base: Seq<char>, part: Seq<char>) -> Seq<char> {
    let r = base.skip(4);
    let p = verbatim_prefix_len(r);
    base.take(4) + r.take(p) + joined_components(r.skip(p)) + seq!['\\'] + part
}

/// `base` with the component `part` (one plain name, without separators)
/// appended, as `PathBuf::push` does on a platform whose main separator is
/// `sep`. A Windows verbatim path is rebuilt from its components; otherwise
/// `sep` goes between the two unless `base` is empty, already ends in a
/// separator, or is a bare drive.
pub open spec fn push_component(base: Seq<char>, part: Seq<char>, sep: char) -> Seq<char> {
    if is_verbatim(base, sep) {
        verbatim_push(base, part)
    } else if base.len() == 0 || is_path_sep(base.last(), sep) || is_bare_drive(base, sep) {
        base + part
    } else {
        base + seq![sep] + part
    }
}

/// The working directory below `base`: `<base>/MagicWindows/layouts`, with
/// the platform's separator.
pub open spec fn install_dir_below(base: Seq<char>, sep: char) -> Seq<char> {
    push_component(push_component(base, "MagicWindows"@, sep), "layouts"@, sep)
}

/// The index of the first backslash of `s` at or after `i`.
fn next_backslash_from(s: &Vec<char>, i: usize) -> (r: usize)
    requires
        i <= s@.len(),
    ensures
        r as int == next_backslash(s@, i as int),
        i <= r <= s@.len(),
{
    let mut j = i;
    while j < s.len() && s[j] != '\\'
        invariant
            i <= j <= s@.len(),
            next_backslash(s@, i as int) == next_backslash(s@, j as int),
        decreases s.len() - j,
    {
        j = j + 1;
    }
    j
}

/// `dst` followed by `src`.
fn append_chars(dst: &mut Vec<char>, src: &Vec<char>)
    ensures
        final(dst)@ == old(dst)@ + src@,
{
    let mut k: usize = 0;
    while k < src.len()
        invariant
            k <= src@.len(),
            dst@ == old(dst)@ + src@.take(k as int),
        decreases src.len() - k,
    {
        dst.push(src[k]);
        k = k + 1;
        assert(dst@ =~= old(dst)@ + src@.take(k as int));
    }
    assert(src@.take(src@.len() as int) =~= src@);
}

/// The verbatim path `base` rebuilt with `part` as one more component.
fn verbatim_push_exec(base: &Vec<char>, part: &str) -> (r: String)
    requires
        base@.len() >= 4,
    ensures
        r@ == verbatim_push(base@, part@),
{
    let mut rest: Vec<char> = Vec::new();
    let mut k: usize = 4;
    while k < base.len()
        invariant
            4 <= k <= base@.len(),
            rest@ == base@.subrange(4, k as int),
        decreases base.len() - k,
    {
        rest.push(base[k]);
        k = k + 1;
        assert(rest@ =~= base@.subrange(4, k as int));
    }
    let ghost r = base@.skip(4);
    assert(rest@ =~= r);
    let unc = rest.len() >= 4 && rest[0] == 'U' && rest[1] == 'N' && rest[2] == 'C' && rest[3]
        == '\\';
    proof {
        let u = seq!['U', 'N', 'C', '\\'];
        if unc {
            assert(r.take(4) =~= u);
        } else if r.len() >= 4 && r.take(4) == u {
            assert(r.take(4)[0] == r[0] && r.take(4)[1] == r[1]);
            assert(r.take(4)[2] == r[2] && r.take(4)[3] == r[3]);
        }
    }
    let p = if unc {
        let e1 = next_backslash_from(&rest, 4);
        if e1 < rest.len() {
            let e2 = next_backslash_from(&rest, e1 + 1);
            if e2 > e1 + 1 {
                e2
            } else {
                e1
            }
        } else {
            e1
        }
    } else {
        next_backslash_from(&rest, 0)
    };
    assert(p as int == verbatim_prefix_len(r));
    assert(p <= rest@.len());
    let end: usize = 4 + p;
    let mut res: Vec<char> = Vec::new();
    let mut k: usize = 0;
    while k < end
        invariant
            end == 4 + p,
            k <= end,
            end <= base@.len(),
            res@ == base@.take(k as int),
        decreases end - k,
    {
        res.push(base[k]);
        k = k + 1;
        assert(res@ =~= base@.take(k as int));
    }
    let ghost head = res@;
    assert(head =~= base@.take(4) + r.take(p as int));
    let mut cur: Vec<char> = Vec::new();
    let mut k: usize = p;
    while k < rest.len()
        invariant
            p <= k <= rest@.len(),
            rest@ == r,
            res@ == head + component_scan(r.subrange(p as int, k as int)).0,
            cur@ == component_scan(r.subrange(p as int, k as int)).1,
        decreases rest.len() - k,
    {
        let ghost prev = r.subrange(p as int, k as int);
        let ghost next = r.subrange(p as int, k + 1);
        assert(next.drop_last() =~= prev);
        assert(next.last() == r[k as int]);
        let c = rest[k];
        if c == '\\' {
            if cur.len() > 0 {
                res.push('\\');
                append_chars(&mut res, &cur);
                cur = Vec::new();
            }
            assert(res@ =~= head + component_scan(next).0);
            assert(cur@ =~= component_scan(next).1);
        } else {
            cur.push(c);
        }
        k = k + 1;
    }
    assert(r.subrange(p as int, rest@.len() as int) =~= r.skip(p as int));
    if cur.len() > 0 {
        res.push('\\');
        append_chars(&mut res, &cur);
    }
    res.push('\\');
    let mut out = string_from_chars(res);
    out.append(part);
    assert(out@ =~= verbatim_push(base@, part@));
    out
}

fn push_component_to(base: &mut String, part: &str, sep: char)
    ensures
        final(base)@ == push_component(old(base)@, part@, sep),
{
    let cs = chars_of(base.as_str());
    let verbatim = sep == '\\' && cs.len() >= 4 && cs[0] == '\\' && cs[1] == '\\' && cs[2] == '?'
        && cs[3] == '\\';
    proof {
        let v = seq!['\\', '\\', '?', '\\'];
        if verbatim {
            assert(cs@.take(4) =~= v);
        } else if sep == '\\' && cs@.len() >= 4 && cs@.take(4) == v {
            assert(cs@.take(4)[0] == cs@[0] && cs@.take(4)[1] == cs@[1]);
            assert(cs@.take(4)[2] == cs@[2] && cs@.take(4)[3] == cs@[3]);
        }
    }
    if verbatim {
        *base = verbatim_push_exec(&cs, part);
        return;
    }
    let needs_sep = if cs.len() == 0 {
        false
    } else {
        let last = cs[cs.len() - 1];
        let bare_drive = sep == '\\' && cs.len() == 2 && cs[1] == ':' && (('a' <= cs[0] && cs[0]
            <= 'z') || ('A' <= cs[0] && cs[0] <= 'Z'));
        !(last == sep || last == '/' || bare_drive)
    };
    if needs_sep {
        let mut v: Vec<char> = Vec::new();
        v.push(sep);
        let sep_text = string_from_chars(v);
        base.append(sep_text.as_str());
    }
    base.append(part);
    proof {
        if cs.len() > 0 {
            assert(cs@.last() == old(base)@.last());
        }
    }
    assert(base@ =~= push_component(old(base)@, part@, sep));
}

/// Return the directory where MagicWindows stores temporary working files:
/// `MagicWindows/layouts` below the local application-data directory when it
/// is known, else below the temporary directory, joined with `sep`, the
/// platform's main path separator (`std::path::MAIN_SEPARATOR`).
pub fn get_install_dir(local_app_data: Option<&str>, temp_dir: &str, sep: char) -> (dir: String)
    ensures
        dir@ == install_dir_below(
            match local_app_data {
                Some(d) => d@,
                None => temp_dir@,
            },
            sep,
        ),
{
    let mut dir = match local_app_data {
        Some(d) => string_of(d),
        None => string_of(temp_dir),
    };
    push_component_to(&mut dir, "MagicWindows", sep);
    push_component_to(&mut dir, "layouts", sep);
    dir
}

// ── Install and uninstall scripts ──────────────────────────────────────────

/// The elevated install script for `l`, whose bundled DLL is at `dll_src`;
/// single quotes in the layout name are escaped with a backslash.
pub open spec fn install_script_text(dll_src: Seq<char>, l: Layout) -> Seq<char> {
    INSTALL_SCRIPT_HEAD@ + dll_src + "'\n$DllName   = '"@ + l.dll_name@ + "'\n$LocaleId  = '"@
        + l.locale_id@ + "'\n$LayoutName = '"@ + replace_char(layout_name(l), '\'', "\\'"@)
        + INSTALL_SCRIPT_TAIL@
}

/// The elevated script that copies the bundled DLL at `dll_src` into place
/// and registers `layout`, leaving markers for the per-user step.
pub fn install_script(dll_src: &str, layout: &Layout) -> (s: String)
    ensures
        s@ == install_script_text(dll_src@, *layout),
{
    let mut s = string_of(INSTALL_SCRIPT_HEAD);
    s.append(dll_src);
    s.append("'\n$DllName   = '");
    s.append(layout.dll_name.as_str());
    s.append("'\n$LocaleId  = '");
    s.append(layout.locale_id.as_str());
    s.append("'\n$LayoutName = '");
    let name = replace_char_exec(layout_display_name(layout), '\'', "\\'");
    s.append(name.as_str());
    s.append(INSTALL_SCRIPT_TAIL);
    assert(s@ =~= install_script_text(dll_src@, *layout));
    s
}

/// The elevated uninstall script for `l`.
pub open spec fn uninstall_script_text(l: Layout) -> Seq<char> {
    UNINSTALL_SCRIPT_HEAD@ + l.dll_name@ + UNINSTALL_SCRIPT_TAIL@
}

/// The elevated script that removes the registrations and the DLL files of
/// `layout`, recording the removed KLIDs for `PRELOAD_PURGE_SCRIPT`.
pub fn uninstall_script(layout: &Layout) -> (s: String)
    ensures
        s@ == uninstall_script_text(*layout),
{
    let mut s = string_of(UNINSTALL_SCRIPT_HEAD);
    s.append(layout.dll_name.as_str());
    s.append(UNINSTALL_SCRIPT_TAIL);
    assert(s@ =~= uninstall_script_text(*layout));
    s
}

// ── Elevated runs ──────────────────────────────────────────────────────────

/// The script that the elevated child runs: `body` inside a transcript, with
/// `PENDING` and then the exit status written to the exit-code file.
pub open spec fn elevated_wrapper_text(transcript: Seq<char>, exitcode: Seq<char>, body: Seq<char>) -> Seq<
    char,
> {
    ELEVATED_WRAPPER_HEAD@ + transcript + ELEVATED_WRAPPER_PENDING@ + exitcode
        + ELEVATED_WRAPPER_BODY_START@ + body + ELEVATED_WRAPPER_BODY_END@ + exitcode
        + ELEVATED_WRAPPER_TAIL@
}

/// Wraps `body` for an elevated run that keeps its own transcript at
/// `transcript_path` and reports its exit status in `exitcode_path`.
pub fn elevated_wrapper_script(transcript_path: &str, exitcode_path: &str, body: &str) -> (s: String)
    ensures
        s@ == elevated_wrapper_text(transcript_path@, exitcode_path@, body@),
{
    let mut s = string_of(ELEVATED_WRAPPER_HEAD);
    s.append(transcript_path);
    s.append(ELEVATED_WRAPPER_PENDING);
    s.append(exitcode_path);
    s.append(ELEVATED_WRAPPER_BODY_START);
    s.append(body);
    s.append(ELEVATED_WRAPPER_BODY_END);
    s.append(exitcode_path);
    s.append(ELEVATED_WRAPPER_TAIL);
    assert(s@ =~= elevated_wrapper_text(transcript_path@, exitcode_path@, body@));
    s
}

/// The unprivileged launcher that starts the wrapped script at `ps_path`
/// elevated and waits for it.
pub open spec fn launcher_text(ps_path: Seq<char>) -> Seq<char> {
    LAUNCHER_SCRIPT_HEAD@ + ps_path + LAUNCHER_SCRIPT_TAIL@
}

/// The launcher for the wrapped script at `ps_path`.
pub fn launcher_script(ps_path: &str) -> (s: String)
    ensures
        s@ == launcher_text(ps_path@),
{
    let mut s = string_of(LAUNCHER_SCRIPT_HEAD);
    s.append(ps_path);
    s.append(LAUNCHER_SCRIPT_TAIL);
    assert(s@ =~= launcher_text(ps_path@));
    s
}

/// A signed integer in decimal.
pub open spec fn int_text(n: int) -> Seq<char> {
    if n < 0 {
        seq!['-'] + dec_digits((-n) as nat)
    } else {
        dec_digits(n as nat)
    }
}

/// What `format!("{:?}", code)` gives for an exit code that may be absent.
pub open spec fn debug_exit_code(code: Option<i32>) -> Seq<char> {
    match code {
        Some(c) => "Some("@ + int_text(c as int) + ")"@,
        None => "None"@,
    }
}

/// How an elevated run ended, from the launcher's success and exit code,
/// its error output, the exit-code file's text (empty when it could not be
/// read) and the transcript (likewise): the transcript when the launcher
/// succeeded and the child wrote `0`, else the error that says which step
/// failed.
pub open spec fn elevated_outcome_spec(
    launcher_succeeded: bool,
    launcher_code: Option<i32>,
    launcher_stderr: Seq<char>,
    exitcode_file: Seq<char>,
    transcript: Seq<char>,
) -> Result<Seq<char>, Seq<char>> {
    let code = trim(exitcode_file);
    if !launcher_succeeded {
        Err(
            "Elevation launcher failed (exit "@ + debug_exit_code(launcher_code) + "): "@ + trim(
                launcher_stderr,
            ) + "\nTranscript:\n"@ + trim(transcript),
        )
    } else if code == "NEVER_RAN"@ {
        Err(
            "Elevated child never ran (UAC cancelled or Start-Process failed silently). Launcher stderr: "@
                + trim(launcher_stderr),
        )
    } else if code == "PENDING"@ {
        Err(
            "Elevated child started but did not finish (crashed before exitcode write). Transcript:\n"@
                + trim(transcript),
        )
    } else if code != "0"@ {
        Err("Elevated child failed (exit "@ + code + "). Transcript:\n"@ + trim(transcript))
    } else {
        Ok(transcript)
    }
}

fn int_string(n: i32) -> (s: String)
    ensures
        s@ == int_text(n as int),
{
    if n < 0 {
        let mut s = string_of("-");
        let m: u64 = (0 - (n as i64)) as u64;
        s.append(crate::text::format_dec(m).as_str());
        proof {
            reveal_strlit("-");
        }
        assert(s@ =~= int_text(n as int));
        s
    } else {
        crate::text::format_dec(n as u64)
    }
}

/// Judge an elevated run: the launcher must have succeeded and the child
/// must have replaced the `NEVER_RAN` sentinel with `0`.
pub fn elevated_outcome(
    launcher_succeeded: bool,
    launcher_code: Option<i32>,
    launcher_stderr: &str,
    exitcode_file: &str,
    transcript: &str,
) -> (r: Result<String, String>)
    ensures
        match (
            r,
            elevated_outcome_spec(
                launcher_succeeded,
                launcher_code,
                launcher_stderr@,
                exitcode_file@,
                transcript@,
            ),
        ) {
            (Ok(a), Ok(b)) => a@ == b,
            (Err(a), Err(b)) => a@ == b,
            _ => false,
        },
{
    let code = trimmed(exitcode_file);
    if !launcher_succeeded {
        let mut e = string_of("Elevation launcher failed (exit ");
        match launcher_code {
            Some(c) => {
                e.append("Some(");
                e.append(int_string(c).as_str());
                e.append(")");
            },
            None => {
                e.append("None");
            },
        }
        e.append("): ");
        e.append(trimmed(launcher_stderr).as_str());
        e.append("\nTranscript:\n");
        e.append(trimmed(transcript).as_str());
        return Err(e);
    }
    if str_eq(code.as_str(), "NEVER_RAN") {
        let mut e = string_of(
            "Elevated child never ran (UAC cancelled or Start-Process failed silently). Launcher stderr: ",
        );
        e.append(trimmed(launcher_stderr).as_str());
        return Err(e);
    }
    if str_eq(code.as_str(), "PENDING") {
        let mut e = string_of(
            "Elevated child started but did not finish (crashed before exitcode write). Transcript:\n",
        );
        e.append(trimmed(transcript).as_str());
        return Err(e);
    }
    if !str_eq(code.as_str(), "0") {
        let mut e = string_of("Elevated child failed (exit ");
        e.append(code.as_str());
        e.append("). Transcript:\n");
        e.append(trimmed(transcript).as_str());
        return Err(e);
    }
    Ok(string_of(transcript))
}

// ── Install markers ────────────────────────────────────────────────────────

/// What the marker read-out says, from the output of the script that reads
/// `KLID|LANGTAG|STALE,KLIDS`: the KLID, the language tag and the stale KLIDs,
/// or why there is nothing to activate.
pub open spec fn install_markers_spec(out: Seq<char>) -> Result<
    (Seq<char>, Seq<char>, Seq<Seq<char>>),
    Seq<char>,
> {
    let s = trim(out);
    if s == "NONE"@ || s.len() == 0 {
        Err("HKLM markers absent"@)
    } else {
        let f = split_fields(s, '|', Some(3));
        if f.len() < 2 {
            Err("malformed marker output"@)
        } else {
            let klid = trim(f[0]);
            let tag = trim(f[1]);
            let stale = if f.len() > 2 {
                trim(f[2])
            } else {
                seq![]
            };
            if klid.len() == 0 || tag.len() == 0 {
                Err("empty KLID or LANGTAG in markers"@)
            } else {
                Ok((klid, tag, nonempty_trimmed(split_fields(stale, ',', None))))
            }
        }
    }
}

/// Read the KLID, language tag, and list of stale KLIDs (purged by the install
/// step) from the output of the marker read-out. Returns (klid, langTag, staleKlids).
pub fn parse_install_markers(out: &str) -> (r: Result<(String, String, Vec<String>), String>)
    ensures
        match (r, install_markers_spec(out@)) {
            (Ok((k, t, st)), Ok((k2, t2, st2))) => k@ == k2 && t@ == t2 && st@.map_values(
                |x: String| x@,
            ) == st2,
            (Err(a), Err(b)) => a@ == b,
            _ => false,
        },
{
    let s = trim_chars(&chars_of(out));
    let none = chars_of("NONE");
    if s.len() == 0 || crate::text::chars_eq(&s, &none) {
        return Err(string_of("HKLM markers absent"));
    }
    let f = split_chars(&s, '|', Some(3));
    let ghost fv = f@.map_values(|x: Vec<char>| x@);
    assert(fv =~= split_fields(s@, '|', Some(3nat)));
    if f.len() < 2 {
        return Err(string_of("malformed marker output"));
    }
    assert(fv[0] == f@[0]@);
    assert(fv[1] == f@[1]@);
    let klid = trim_chars(&f[0]);
    let tag = trim_chars(&f[1]);
    let stale = if f.len() > 2 {
        assert(fv[2] == f@[2]@);
        trim_chars(&f[2])
    } else {
        Vec::new()
    };
    assert(f.len() > 2 ==> stale@ == trim(fv[2]));
    assert(f.len() <= 2 ==> stale@ =~= Seq::<char>::empty());
    if klid.len() == 0 || tag.len() == 0 {
        return Err(string_of("empty KLID or LANGTAG in markers"));
    }
    let pieces = split_chars(&stale, ',', None);
    let stale_klids = nonempty_trimmed_fields(&pieces);
    Ok((string_from_chars(klid), string_from_chars(tag), stale_klids))
}

// ── Per-user activation ────────────────────────────────────────────────────

/// Where the last `n` bytes of a text of `len` bytes begin.
pub open spec fn suffix_start(len: nat, n: nat) -> int {
    if len > n {
        len - n
    } else {
        0
    }
}

/// The text whose UTF-8 bytes are the last `n` bytes of `s` (all of `s` when
/// it is shorter).
pub open spec fn byte_suffix(s: Seq<char>, n: nat) -> Seq<char> {
    let b = encode_utf8(s);
    decode_utf8(b.subrange(suffix_start(b.len(), n), b.len() as int))
}

/// The last `n` bytes of `s` start on a character boundary.
pub open spec fn byte_suffix_splits(s: Seq<char>, n: nat) -> bool {
    is_char_boundary(encode_utf8(s), suffix_start(encode_utf8(s).len(), n))
}

/// When the cut falls on a character boundary, the suffix text is exactly
/// the last `n` bytes of `s` (all of `s` when it is shorter).
pub proof fn byte_suffix_is_last_bytes(s: Seq<char>, n: nat)
    requires
        byte_suffix_splits(s, n),
    ensures
        encode_utf8(byte_suffix(s, n)) == encode_utf8(s).subrange(
            suffix_start(encode_utf8(s).len(), n),
            encode_utf8(s).len() as int,
        ),
        encode_utf8(byte_suffix(s, n)).len() == (if encode_utf8(s).len() > n {
            n
        } else {
            encode_utf8(s).len()
        }),
{
    let b = encode_utf8(s);
    let k = suffix_start(b.len(), n);
    encode_utf8_valid_utf8(s);
    valid_utf8_split(b, k);
    decode_utf8_encode_utf8(b.subrange(k, b.len() as int));
}

/// A KLID as a single-quoted PowerShell string (quotes doubled).
pub open spec fn quoted_klid(k: Seq<char>) -> Seq<char> {
    "'"@ + replace_char(k, '\'', "''"@) + "'"@
}

/// The quoted KLIDs, separated by commas.
pub open spec fn quoted_list(ks: Seq<Seq<char>>) -> Seq<char>
    decreases ks.len(),
{
    if ks.len() == 0 {
        seq![]
    } else if ks.len() == 1 {
        quoted_klid(ks[0])
    } else {
        quoted_list(ks.drop_last()) + ","@ + quoted_klid(ks.last())
    }
}

/// The PowerShell array literal of the stale KLIDs: `@()` when there are
/// none, else `@('a','b')`.
pub open spec fn stale_array_text(ks: Seq<Seq<char>>) -> Seq<char> {
    if ks.len() == 0 {
        "@()"@
    } else {
        "@("@ + quoted_list(ks) + ")"@
    }
}

/// The per-user activation script: the input-method tip is
/// `<last four bytes of the KLID>:<KLID>`.
pub open spec fn activate_script_text(klid: Seq<char>, lang_tag: Seq<char>, stale: Seq<Seq<char>>) -> Seq<
    char,
> {
    ACTIVATE_SCRIPT_HEAD@ + byte_suffix(klid, 4) + ":"@ + klid + "'\n$langTag   = '"@ + lang_tag
        + "'\n$klid      = '"@ + klid + "'\n$staleKlids = "@ + stale_array_text(stale)
        + ACTIVATE_SCRIPT_TAIL@
}

fn stale_array(stale_klids: &[String]) -> (s: String)
    ensures
        s@ == stale_array_text(stale_klids@.map_values(|x: String| x@)),
{
    let ghost ks = stale_klids@.map_values(|x: String| x@);
    if stale_klids.len() == 0 {
        return string_of("@()");
    }
    let mut items = string_of("");
    proof {
        reveal_strlit("");
    }
    let mut i: usize = 0;
    while i < stale_klids.len()
        invariant
            0 < stale_klids.len(),
            i <= stale_klids.len(),
            ks == stale_klids@.map_values(|x: String| x@),
            items@ == quoted_list(ks.take(i as int)),
        decreases stale_klids.len() - i,
    {
        assert(ks.take(i + 1).drop_last() =~= ks.take(i as int));
        assert(ks.take(i + 1).last() == stale_klids@[i as int]@);
        if i > 0 {
            items.append(",");
        }
        items.append("'");
        items.append(replace_char_exec(stale_klids[i].as_str(), '\'', "''").as_str());
        items.append("'");
        i = i + 1;
        proof {
            if i == 1 {
                assert(items@ =~= quoted_klid(ks.take(1)[0]));
            } else {
                assert(items@ =~= quoted_list(ks.take(i as int)));
            }
        }
    }
    assert(ks.take(stale_klids.len() as int) =~= ks);
    let mut s = string_of("@(");
    s.append(items.as_str());
    s.append(")");
    assert(s@ =~= stale_array_text(ks));
    s
}

/// The per-user script that adds the freshly installed `klid` to the user's
/// input methods for `lang_tag` and purges the stale KLIDs. The last four
/// bytes of the KLID must start on a character boundary.
pub fn activate_script(klid: &str, lang_tag: &str, stale_klids: &[String]) -> (s: String)
    requires
        byte_suffix_splits(klid@, 4),
        encode_utf8(klid@).len() <= usize::MAX,
    ensures
        s@ == activate_script_text(klid@, lang_tag@, stale_klids@.map_values(|x: String| x@)),
{
    let n: usize = klid.len();
    assert(klid.spec_bytes() == encode_utf8(klid@));
    let mid: usize = if n > 4 {
        n - 4
    } else {
        0
    };
    assert(mid as int == suffix_start(encode_utf8(klid@).len(), 4));
    let (_, lang_id_hex) = klid.split_at(mid);
    proof {
        encode_utf8_decode_utf8(lang_id_hex@);
        assert(lang_id_hex.spec_bytes() == encode_utf8(lang_id_hex@));
        assert(lang_id_hex@ == byte_suffix(klid@, 4));
    }
    let mut s = string_of(ACTIVATE_SCRIPT_HEAD);
    s.append(lang_id_hex);
    s.append(":");
    s.append(klid);
    s.append("'\n$langTag   = '");
    s.append(lang_tag);
    s.append("'\n$klid      = '");
    s.append(klid);
    s.append("'\n$staleKlids = ");
    s.append(stale_array(stale_klids).as_str());
    s.append(ACTIVATE_SCRIPT_TAIL);
    assert(s@ =~= activate_script_text(klid@, lang_tag@, stale_klids@.map_values(|x: String| x@)));
    s
}

/// Judge the per-user activation run from its success and error output.
pub fn activation_outcome(succeeded: bool, stderr: &str) -> (r: Result<(), String>)
    ensures
        succeeded ==> r is Ok,
        !succeeded ==> (r matches Err(e) && e@ == "Activation PS failed: "@ + trim(stderr@)),
{
    if succeeded {
        Ok(())
    } else {
        let mut e = string_of("Activation PS failed: ");
        e.append(trimmed(stderr).as_str());
        Err(e)
    }
}

/// Judge the per-user Preload purge run from its success and error output.
pub fn preload_purge_outcome(succeeded: bool, stderr: &str) -> (r: Result<(), String>)
    ensures
        succeeded ==> r is Ok,
        !succeeded ==> (r matches Err(e) && e@ == "Preload purge PS failed: "@ + trim(stderr@)),
{
    if succeeded {
        Ok(())
    } else {
        let mut e = string_of("Preload purge PS failed: ");
        e.append(trimmed(stderr).as_str());
        Err(e)
    }
}

} // verus!
