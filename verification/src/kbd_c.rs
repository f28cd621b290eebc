//! Generate a Windows keyboard layout DLL C source file from a [`Layout`]
//! definition.
//!
//! The generated C source targets the Windows DDK keyboard layout API
//! (`kbd.h`).  It defines all tables required by `KBDTABLES` and exports
//! `KbdLayerDescriptor()`.
//!
//! # Shift-state model
//!
//! Our layouts use five columns that map directly to the KLC/DDK shift states:
//!
//! | Column   | Shift state index | Keys held   |
//! |----------|-------------------|-------------|
//! | base     | 0                 | (none)      |
//! | shift    | 1                 | Shift       |
//! | ctrl     | 2                 | Ctrl        |
//! | altgr    | 3                 | Ctrl+Alt    |
//! | altgrShift | 4              | Shift+Ctrl+Alt |
//!
//! This matches the KLC SHIFTSTATE sequence `0 1 2 6 7`.
use vstd::prelude::*;
use crate::layout::{
    DeadKey, KeyMapping, Layout, layout_name, key_order, dead_key_order, combo_order,
    layout_display_name, sorted_key_indices, sorted_dead_key_indices, sorted_combo_indices,
    combo_bases, dead_key_codes,
};
use crate::sort::{sorted_order_covers, listed, text_order};
use crate::text::{
    contains_text, lemma_contains_itself, lemma_contains_start, lemma_contains_within,
    lemma_contains_trans, line, parse_radix16, parse_hex, chars_of, str_eq, string_of, trim, trim_chars, fmt_hex,
    format_hex, pad_right, append_padded, append_line,
};

verus! {

broadcast use vstd::string::group_string_axioms;

/// The extended (E0 and E1 prefixed) scancode to VK tables of a 101/104-key
/// keyboard, the same across all non-FE layouts.
pub const E0_E1_TABLES: &'static str = "static VSC_VK aE0VscToVk[] = {
    { 0x10, VK_MEDIA_PREV_TRACK },
    { 0x19, VK_MEDIA_NEXT_TRACK },
    { 0x1C, VK_RETURN  | KBDEXT },
    { 0x1D, VK_RCONTROL },
    { 0x20, VK_VOLUME_MUTE },
    { 0x21, VK_LAUNCH_APP2 },
    { 0x22, VK_MEDIA_PLAY_PAUSE },
    { 0x24, VK_MEDIA_STOP },
    { 0x2E, VK_VOLUME_DOWN },
    { 0x30, VK_VOLUME_UP },
    { 0x32, VK_BROWSER_HOME },
    { 0x35, VK_DIVIDE   | KBDEXT },
    { 0x37, VK_SNAPSHOT },
    { 0x38, VK_RMENU },
    { 0x47, VK_HOME     | KBDEXT },
    { 0x48, VK_UP       | KBDEXT },
    { 0x49, VK_PRIOR    | KBDEXT },
    { 0x4B, VK_LEFT     | KBDEXT },
    { 0x4D, VK_RIGHT    | KBDEXT },
    { 0x4F, VK_END      | KBDEXT },
    { 0x50, VK_DOWN     | KBDEXT },
    { 0x51, VK_NEXT     | KBDEXT },
    { 0x52, VK_INSERT   | KBDEXT },
    { 0x53, VK_DELETE   | KBDEXT },
    { 0x5B, VK_LWIN     | KBDEXT },
    { 0x5C, VK_RWIN     | KBDEXT },
    { 0x5D, VK_APPS     | KBDEXT },
    { 0x5F, VK_SLEEP },
    { 0x65, VK_BROWSER_SEARCH },
    { 0x66, VK_BROWSER_FAVORITES },
    { 0x67, VK_BROWSER_REFRESH },
    { 0x68, VK_BROWSER_STOP },
    { 0x69, VK_BROWSER_FORWARD },
    { 0x6A, VK_BROWSER_BACK },
    { 0x6B, VK_LAUNCH_APP1 },
    { 0x6C, VK_LAUNCH_MAIL },
    { 0x6D, VK_LAUNCH_MEDIA_SELECT },
    { 0,    0 }  /* Terminator */
};

static VSC_VK aE1VscToVk[] = {
    { 0x1D, VK_PAUSE },
    { 0,    0 }  /* Terminator */
};

";

/// The `aKeyNames` table of key names for `GetKeyNameText()`.
pub const KEY_NAMES_TABLE: &'static str = "static ALLOC_SECTION_LDATA VSC_LPWSTR aKeyNames[] = {
    { 0x01, L\"Esc\" },
    { 0x0e, L\"Backspace\" },
    { 0x0f, L\"Tab\" },
    { 0x1c, L\"Enter\" },
    { 0x1d, L\"Ctrl\" },
    { 0x2a, L\"Shift\" },
    { 0x36, L\"Right Shift\" },
    { 0x37, L\"Num *\" },
    { 0x38, L\"Alt\" },
    { 0x39, L\"Space\" },
    { 0x3a, L\"Caps Lock\" },
    { 0x3b, L\"F1\" },
    { 0x3c, L\"F2\" },
    { 0x3d, L\"F3\" },
    { 0x3e, L\"F4\" },
    { 0x3f, L\"F5\" },
    { 0x40, L\"F6\" },
    { 0x41, L\"F7\" },
    { 0x42, L\"F8\" },
    { 0x43, L\"F9\" },
    { 0x44, L\"F10\" },
    { 0x45, L\"Pause\" },
    { 0x46, L\"Scroll Lock\" },
    { 0x47, L\"Num 7\" },
    { 0x48, L\"Num 8\" },
    { 0x49, L\"Num 9\" },
    { 0x4a, L\"Num -\" },
    { 0x4b, L\"Num 4\" },
    { 0x4c, L\"Num 5\" },
    { 0x4d, L\"Num 6\" },
    { 0x4e, L\"Num +\" },
    { 0x4f, L\"Num 1\" },
    { 0x50, L\"Num 2\" },
    { 0x51, L\"Num 3\" },
    { 0x52, L\"Num 0\" },
    { 0x53, L\"Num .\" },
    { 0x57, L\"F11\" },
    { 0x58, L\"F12\" },
    { 0,    NULL }
};

";

/// The `aKeyNamesExt` table of extended key names for `GetKeyNameText()`.
pub const KEY_NAMES_EXT_TABLE: &'static str = "static ALLOC_SECTION_LDATA VSC_LPWSTR aKeyNamesExt[] = {
    { 0x1c, L\"Num Enter\" },
    { 0x1d, L\"Right Ctrl\" },
    { 0x35, L\"Num /\" },
    { 0x37, L\"Prnt Scrn\" },
    { 0x38, L\"Right Alt\" },
    { 0x45, L\"Num Lock\" },
    { 0x46, L\"Break\" },
    { 0x47, L\"Home\" },
    { 0x48, L\"Up\" },
    { 0x49, L\"Page Up\" },
    { 0x4b, L\"Left\" },
    { 0x4d, L\"Right\" },
    { 0x4f, L\"End\" },
    { 0x50, L\"Down\" },
    { 0x51, L\"Page Down\" },
    { 0x52, L\"Insert\" },
    { 0x53, L\"Delete\" },
    { 0,    NULL }
};

";

/// The `aVkToBits` and `CharModifiers` tables of a layout with an AltGr layer:
/// shift states base, Shift, Ctrl, Ctrl+Alt (AltGr) and Shift+Ctrl+Alt.
pub const MODIFIERS_ALTGR: &'static str = "static VK_TO_BIT aVkToBits[] = {
    { VK_SHIFT,   KBDSHIFT },
    { VK_CONTROL, KBDCTRL  },
    { VK_MENU,    KBDALT   },
    { 0,          0        }
};

static MODIFIERS CharModifiers = {
    &aVkToBits[0],
    7,
    {
    //  Shift  Ctrl   Alt
        0,         // 000 = base
        1,         // 001 = Shift
        2,         // 010 = Ctrl
        SHFT_INVALID, // 011 = Shift+Ctrl
        SHFT_INVALID, // 100 = Alt
        SHFT_INVALID, // 101 = Shift+Alt
        3,         // 110 = Ctrl+Alt (AltGr)
        4          // 111 = Shift+Ctrl+Alt (Shift+AltGr)
    }
};

";

/// The `aVkToBits` and `CharModifiers` tables of a layout without an AltGr
/// layer: Ctrl+Alt combinations are invalid.
pub const MODIFIERS_PLAIN: &'static str = "static VK_TO_BIT aVkToBits[] = {
    { VK_SHIFT,   KBDSHIFT },
    { VK_CONTROL, KBDCTRL  },
    { VK_MENU,    KBDALT   },
    { 0,          0        }
};

static MODIFIERS CharModifiers = {
    &aVkToBits[0],
    7,
    {
    //  Shift  Ctrl   Alt
        0,         // 000 = base
        1,         // 001 = Shift
        2,         // 010 = Ctrl
        SHFT_INVALID, // 011 = Shift+Ctrl
        SHFT_INVALID, // 100 = Alt
        SHFT_INVALID, // 101 = Shift+Alt
        SHFT_INVALID, // 110 = Ctrl+Alt
        SHFT_INVALID  // 111 = Shift+Ctrl+Alt
    }
};

";

/// The `aVkToWcharTable` and `KbdTables` definitions of a layout with an AltGr
/// layer (5-column table, `KLLF_ALTGR`).
pub const KBD_TABLES_ALTGR: &'static str = "static VK_TO_WCHAR_TABLE aVkToWcharTable[] = {
    { (PVK_TO_WCHARS1)aVkToWch5, 5, sizeof(aVkToWch5[0]) },
    { NULL, 0, 0 }
};

static KBDTABLES KbdTables = {
    &CharModifiers,
    aVkToWcharTable,
    aDeadKey,
    (PVSC_LPWSTR)aKeyNames,
    (PVSC_LPWSTR)aKeyNamesExt,
    (WCHAR * KBD_LONG_POINTER * KBD_LONG_POINTER)aKeyNamesDead,
    (USHORT * KBD_LONG_POINTER)ausVK,
    sizeof(ausVK) / sizeof(ausVK[0]),
    (PVSC_VK)aE0VscToVk,
    (PVSC_VK)aE1VscToVk,
    (MAKELONG(KLLF_ALTGR, KBD_VERSION)),
    0,
    0,
    NULL,
    0,
    0
};

";

/// The `aVkToWcharTable` and `KbdTables` definitions of a layout without an
/// AltGr layer (3-column table).
pub const KBD_TABLES_PLAIN: &'static str = "static VK_TO_WCHAR_TABLE aVkToWcharTable[] = {
    { (PVK_TO_WCHARS1)aVkToWch3, 3, sizeof(aVkToWch3[0]) },
    { NULL, 0, 0 }
};

static KBDTABLES KbdTables = {
    &CharModifiers,
    aVkToWcharTable,
    aDeadKey,
    (PVSC_LPWSTR)aKeyNames,
    (PVSC_LPWSTR)aKeyNamesExt,
    (WCHAR * KBD_LONG_POINTER * KBD_LONG_POINTER)aKeyNamesDead,
    (USHORT * KBD_LONG_POINTER)ausVK,
    sizeof(ausVK) / sizeof(ausVK[0]),
    (PVSC_VK)aE0VscToVk,
    (PVSC_VK)aE1VscToVk,
    (MAKELONG(0, KBD_VERSION)),
    0,
    0,
    NULL,
    0,
    0
};

";

/// The exported `KbdLayerDescriptor` entry point.
pub const EXPORT: &'static str = "__declspec(dllexport) PKBDTABLES KbdLayerDescriptor(void)
{
    return &KbdTables;
}

";

/// The header lines after the layout name and locale: the generator note,
/// `KBD_TYPE`, the includes and the `ALLOC_SECTION_LDATA` fallback.
pub const HEADER_TAIL: &'static str = " * Generated by MagicWindows build script.  DO NOT EDIT.
 */

#define KBD_TYPE 4

#include <windows.h>
#include <kbd.h>

#ifndef ALLOC_SECTION_LDATA
#define ALLOC_SECTION_LDATA
#endif

";

// ── Character values ─────────────────────────────────────────────────────────

/// A single character value in a key mapping.
#[derive(Debug, Clone, Copy, PartialEq, Eq, Structural)]
pub enum CharVal {
    /// No character (`-1` in JSON).
    Empty,
    /// Normal character (the unicode codepoint).
    Char(u32),
    /// Dead key character (the unicode codepoint, marked with `@` suffix in JSON).
    Dead(u32),
}

/// One parsed key row from the layout JSON.
#[derive(Debug)]
pub struct VkEntry {
    pub vk: String,
    /// caps-lock attribute: "0" = no caps lock, "1" = caps-lock like shift, "4" = SGCAPS
    pub cap: String,
    pub base: CharVal,
    pub shift: CharVal,
    pub ctrl: CharVal,
    pub altgr: CharVal,
    pub altgr_shift: CharVal,
}

/// The codepoint of a hex text, or 0 when it is not one.
pub open spec fn hex_or_zero(s: Seq<char>) -> u32 {
    match parse_radix16(s, 0xffff_ffff) {
        Some(v) => v as u32,
        None => 0,
    }
}

/// The character value of a JSON text: `-1` or blank is none, a trailing
/// `@` marks a dead key, and the rest is a hex codepoint (0 when malformed).
pub open spec fn charval(s: Seq<char>) -> CharVal {
    let t = trim(s);
    if t == seq!['-', '1'] || t.len() == 0 {
        CharVal::Empty
    } else if t.last() == '@' {
        CharVal::Dead(hex_or_zero(t.drop_last()))
    } else {
        CharVal::Char(hex_or_zero(t))
    }
}

/// The C expression of a value in a `wch[]` initializer.
pub open spec fn wch_text(c: CharVal) -> Seq<char> {
    match c {
        CharVal::Empty => "WCH_NONE"@,
        CharVal::Char(cp) => "0x"@ + fmt_hex(cp as nat, 4, true),
        CharVal::Dead(cp) => "0x"@ + fmt_hex(cp as nat, 4, true),
    }
}

/// `WCH_DEAD` for a dead key, else `WCH_NONE`.
pub open spec fn dead_text(c: CharVal) -> Seq<char> {
    if c is Dead {
        "WCH_DEAD"@
    } else {
        "WCH_NONE"@
    }
}

/// The caps-lock attribute of a `cap` text: `1` is CAPLOK, `4` is SGCAPS.
pub open spec fn caps_attr_value(cap: Seq<char>) -> u8 {
    if trim(cap) == seq!['1'] {
        0x01
    } else if trim(cap) == seq!['4'] {
        0x02
    } else {
        0x00
    }
}

/// The entry parsed from a key mapping.
pub open spec fn entry_of(km: KeyMapping) -> VkEntry {
    VkEntry {
        vk: km.vk,
        cap: km.cap,
        base: charval(km.base@),
        shift: charval(km.shift@),
        ctrl: charval(km.ctrl@),
        altgr: charval(km.altgr@),
        altgr_shift: charval(km.altgr_shift@),
    }
}

/// The entries of all keys, ordered by scancode value.
pub open spec fn vk_entries(l: Layout) -> Seq<VkEntry> {
    Seq::new(key_order(l).len(), |i: int| entry_of(l.keys@[key_order(l)[i]].1))
}

/// Whether any key has an AltGr or Shift+AltGr character.
pub open spec fn has_altgr(l: Layout) -> bool {
    exists|i: int|
        0 <= i < l.keys@.len() && (!(charval(#[trigger] l.keys@[i].1.altgr@) is Empty) || !(charval(
            l.keys@[i].1.altgr_shift@,
        ) is Empty))
}

/// The C expression for a JSON VK name: a hex literal for digits and
/// letters, the winuser.h name for OEM and special keys, else `0`.
pub open spec fn vk_c(vk: Seq<char>) -> Seq<char> {
    if vk == "VK_0"@ {
        "0x30"@
    } else if vk == "VK_1"@ {
        "0x31"@
    } else if vk == "VK_2"@ {
        "0x32"@
    } else if vk == "VK_3"@ {
        "0x33"@
    } else if vk == "VK_4"@ {
        "0x34"@
    } else if vk == "VK_5"@ {
        "0x35"@
    } else if vk == "VK_6"@ {
        "0x36"@
    } else if vk == "VK_7"@ {
        "0x37"@
    } else if vk == "VK_8"@ {
        "0x38"@
    } else if vk == "VK_9"@ {
        "0x39"@
    } else if vk == "VK_A"@ {
        "0x41"@
    } else if vk == "VK_B"@ {
        "0x42"@
    } else if vk == "VK_C"@ {
        "0x43"@
    } else if vk == "VK_D"@ {
        "0x44"@
    } else if vk == "VK_E"@ {
        "0x45"@
    } else if vk == "VK_F"@ {
        "0x46"@
    } else if vk == "VK_G"@ {
        "0x47"@
    } else if vk == "VK_H"@ {
        "0x48"@
    } else if vk == "VK_I"@ {
        "0x49"@
    } else if vk == "VK_J"@ {
        "0x4A"@
    } else if vk == "VK_K"@ {
        "0x4B"@
    } else if vk == "VK_L"@ {
        "0x4C"@
    } else if vk == "VK_M"@ {
        "0x4D"@
    } else if vk == "VK_N"@ {
        "0x4E"@
    } else if vk == "VK_O"@ {
        "0x4F"@
    } else if vk == "VK_P"@ {
        "0x50"@
    } else if vk == "VK_Q"@ {
        "0x51"@
    } else if vk == "VK_R"@ {
        "0x52"@
    } else if vk == "VK_S"@ {
        "0x53"@
    } else if vk == "VK_T"@ {
        "0x54"@
    } else if vk == "VK_U"@ {
        "0x55"@
    } else if vk == "VK_V"@ {
        "0x56"@
    } else if vk == "VK_W"@ {
        "0x57"@
    } else if vk == "VK_X"@ {
        "0x58"@
    } else if vk == "VK_Y"@ {
        "0x59"@
    } else if vk == "VK_Z"@ {
        "0x5A"@
    } else if vk == "VK_SPACE"@ {
        "VK_SPACE"@
    } else if vk == "VK_OEM_1"@ {
        "VK_OEM_1"@
    } else if vk == "VK_OEM_2"@ {
        "VK_OEM_2"@
    } else if vk == "VK_OEM_3"@ {
        "VK_OEM_3"@
    } else if vk == "VK_OEM_4"@ {
        "VK_OEM_4"@
    } else if vk == "VK_OEM_5"@ {
        "VK_OEM_5"@
    } else if vk == "VK_OEM_6"@ {
        "VK_OEM_6"@
    } else if vk == "VK_OEM_7"@ {
        "VK_OEM_7"@
    } else if vk == "VK_OEM_8"@ {
        "VK_OEM_8"@
    } else if vk == "VK_OEM_102"@ {
        "VK_OEM_102"@
    } else if vk == "VK_OEM_COMMA"@ {
        "VK_OEM_COMMA"@
    } else if vk == "VK_OEM_PERIOD"@ {
        "VK_OEM_PERIOD"@
    } else if vk == "VK_OEM_MINUS"@ {
        "VK_OEM_MINUS"@
    } else if vk == "VK_OEM_PLUS"@ {
        "VK_OEM_PLUS"@
    } else {
        "0"@
    }
}

/// The standard VSC→VK entry of scancode `i` (0x00–0x7F) for a 101/104-key
/// US-type keyboard. Alphanumeric keys use raw hex literals because those
/// constants are not defined in winuser.h.
pub open spec fn base_vsc(i: int) -> Seq<char> {
    if i == 0 {
        "0"@
    } else if i == 1 {
        "VK_ESCAPE"@
    } else if i == 2 {
        "0x31"@
    } else if i == 3 {
        "0x32"@
    } else if i == 4 {
        "0x33"@
    } else if i == 5 {
        "0x34"@
    } else if i == 6 {
        "0x35"@
    } else if i == 7 {
        "0x36"@
    } else if i == 8 {
        "0x37"@
    } else if i == 9 {
        "0x38"@
    } else if i == 10 {
        "0x39"@
    } else if i == 11 {
        "0x30"@
    } else if i == 12 {
        "VK_OEM_MINUS"@
    } else if i == 13 {
        "VK_OEM_PLUS"@
    } else if i == 14 {
        "VK_BACK"@
    } else if i == 15 {
        "VK_TAB"@
    } else if i == 16 {
        "0x51"@
    } else if i == 17 {
        "0x57"@
    } else if i == 18 {
        "0x45"@
    } else if i == 19 {
        "0x52"@
    } else if i == 20 {
        "0x54"@
    } else if i == 21 {
        "0x59"@
    } else if i == 22 {
        "0x55"@
    } else if i == 23 {
        "0x49"@
    } else if i == 24 {
        "0x4F"@
    } else if i == 25 {
        "0x50"@
    } else if i == 26 {
        "VK_OEM_4"@
    } else if i == 27 {
        "VK_OEM_6"@
    } else if i == 28 {
        "VK_RETURN"@
    } else if i == 29 {
        "VK_LCONTROL"@
    } else if i == 30 {
        "0x41"@
    } else if i == 31 {
        "0x53"@
    } else if i == 32 {
        "0x44"@
    } else if i == 33 {
        "0x46"@
    } else if i == 34 {
        "0x47"@
    } else if i == 35 {
        "0x48"@
    } else if i == 36 {
        "0x4A"@
    } else if i == 37 {
        "0x4B"@
    } else if i == 38 {
        "0x4C"@
    } else if i == 39 {
        "VK_OEM_1"@
    } else if i == 40 {
        "VK_OEM_7"@
    } else if i == 41 {
        "VK_OEM_3"@
    } else if i == 42 {
        "VK_LSHIFT"@
    } else if i == 43 {
        "VK_OEM_5"@
    } else if i == 44 {
        "0x5A"@
    } else if i == 45 {
        "0x58"@
    } else if i == 46 {
        "0x43"@
    } else if i == 47 {
        "0x56"@
    } else if i == 48 {
        "0x42"@
    } else if i == 49 {
        "0x4E"@
    } else if i == 50 {
        "0x4D"@
    } else if i == 51 {
        "VK_OEM_COMMA"@
    } else if i == 52 {
        "VK_OEM_PERIOD"@
    } else if i == 53 {
        "VK_OEM_2"@
    } else if i == 54 {
        "VK_RSHIFT"@
    } else if i == 55 {
        "VK_MULTIPLY"@
    } else if i == 56 {
        "VK_LMENU"@
    } else if i == 57 {
        "VK_SPACE"@
    } else if i == 58 {
        "VK_CAPITAL"@
    } else if i == 59 {
        "VK_F1"@
    } else if i == 60 {
        "VK_F2"@
    } else if i == 61 {
        "VK_F3"@
    } else if i == 62 {
        "VK_F4"@
    } else if i == 63 {
        "VK_F5"@
    } else if i == 64 {
        "VK_F6"@
    } else if i == 65 {
        "VK_F7"@
    } else if i == 66 {
        "VK_F8"@
    } else if i == 67 {
        "VK_F9"@
    } else if i == 68 {
        "VK_F10"@
    } else if i == 69 {
        "VK_NUMLOCK | KBDEXT"@
    } else if i == 70 {
        "VK_SCROLL"@
    } else if i == 71 {
        "VK_NUMPAD7 | KBDNUMPAD | KBDSPECIAL"@
    } else if i == 72 {
        "VK_NUMPAD8 | KBDNUMPAD | KBDSPECIAL"@
    } else if i == 73 {
        "VK_NUMPAD9 | KBDNUMPAD | KBDSPECIAL"@
    } else if i == 74 {
        "VK_SUBTRACT"@
    } else if i == 75 {
        "VK_NUMPAD4 | KBDNUMPAD | KBDSPECIAL"@
    } else if i == 76 {
        "VK_NUMPAD5 | KBDNUMPAD | KBDSPECIAL"@
    } else if i == 77 {
        "VK_NUMPAD6 | KBDNUMPAD | KBDSPECIAL"@
    } else if i == 78 {
        "VK_ADD"@
    } else if i == 79 {
        "VK_NUMPAD1 | KBDNUMPAD | KBDSPECIAL"@
    } else if i == 80 {
        "VK_NUMPAD2 | KBDNUMPAD | KBDSPECIAL"@
    } else if i == 81 {
        "VK_NUMPAD3 | KBDNUMPAD | KBDSPECIAL"@
    } else if i == 82 {
        "VK_NUMPAD0 | KBDNUMPAD | KBDSPECIAL"@
    } else if i == 83 {
        "VK_DECIMAL | KBDNUMPAD | KBDSPECIAL"@
    } else if i == 84 {
        "0"@
    } else if i == 85 {
        "0"@
    } else if i == 86 {
        "VK_OEM_102"@
    } else if i == 87 {
        "VK_F11"@
    } else if i == 88 {
        "VK_F12"@
    } else if i == 89 {
        "0"@
    } else if i == 90 {
        "0"@
    } else if i == 91 {
        "0"@
    } else if i == 92 {
        "0"@
    } else if i == 93 {
        "0"@
    } else if i == 94 {
        "0"@
    } else if i == 95 {
        "0"@
    } else if i == 96 {
        "0"@
    } else if i == 97 {
        "0"@
    } else if i == 98 {
        "0"@
    } else if i == 99 {
        "0"@
    } else if i == 100 {
        "VK_F13"@
    } else if i == 101 {
        "VK_F14"@
    } else if i == 102 {
        "VK_F15"@
    } else if i == 103 {
        "VK_F16"@
    } else if i == 104 {
        "VK_F17"@
    } else if i == 105 {
        "VK_F18"@
    } else if i == 106 {
        "VK_F19"@
    } else if i == 107 {
        "VK_F20"@
    } else if i == 108 {
        "VK_F21"@
    } else if i == 109 {
        "VK_F22"@
    } else if i == 110 {
        "VK_F23"@
    } else if i == 111 {
        "0"@
    } else if i == 112 {
        "0"@
    } else if i == 113 {
        "0"@
    } else if i == 114 {
        "0"@
    } else if i == 115 {
        "0"@
    } else if i == 116 {
        "0"@
    } else if i == 117 {
        "0"@
    } else if i == 118 {
        "VK_F24"@
    } else if i == 119 {
        "0"@
    } else if i == 120 {
        "0"@
    } else if i == 121 {
        "0"@
    } else if i == 122 {
        "0"@
    } else if i == 123 {
        "0"@
    } else if i == 124 {
        "0"@
    } else if i == 125 {
        "0"@
    } else if i == 126 {
        "0"@
    } else {
        "0"@
    }
}

/// The VK override that the key map gives scancode `i`: the last entry whose
/// key reads as `i`.
pub open spec fn vsc_override(keys: Seq<(String, KeyMapping)>, i: nat) -> Option<Seq<char>>
    decreases keys.len(),
{
    if keys.len() == 0 {
        None
    } else if parse_radix16(keys.last().0@, 0xffff_ffff) == Some(i) {
        Some(vk_c(keys.last().1.vk@))
    } else {
        vsc_override(keys.drop_last(), i)
    }
}

/// The `ausVK` entry of scancode `i`.
pub open spec fn vsc_entry(keys: Seq<(String, KeyMapping)>, i: nat) -> Seq<char> {
    match vsc_override(keys, i) {
        Some(v) => v,
        None => base_vsc(i as int),
    }
}

/// The `ausVK` rows of scancodes `0..n`.
pub open spec fn vsc_rows(keys: Seq<(String, KeyMapping)>, n: nat) -> Seq<char>
    decreases n,
{
    if n == 0 {
        seq![]
    } else {
        vsc_rows(keys, (n - 1) as nat) + line(
            "    /* "@ + fmt_hex((n - 1) as nat, 2, true) + " */ "@ + vsc_entry(keys, (n - 1) as nat)
                + ","@,
        )
    }
}

/// The `ausVK[]` table: scancode -> Virtual Key for scancodes 0x00–0x7F.
pub open spec fn vsc_table(l: Layout) -> Seq<char> {
    "static USHORT ausVK[] = {\n"@ + vsc_rows(l.keys@, 128) + "};\n\n"@
}

/// The file header comment with the layout's name and locale.
pub open spec fn header_text(l: Layout) -> Seq<char> {
    "/*\n"@ + line(" * Keyboard layout: "@ + layout_name(l)) + line(" * Locale:          "@ + l.locale@)
        + HEADER_TAIL@
}

/// The first row of a key in the 5-column table, and its dead-key row when
/// any of its non-Ctrl states is a dead key.
pub open spec fn rows5(e: VkEntry) -> Seq<char> {
    line(
        "    { "@ + pad_right(vk_c(e.vk@) + ","@, 20, ' ') + " 0x"@ + fmt_hex(
            caps_attr_value(e.cap@) as nat,
            2,
            true,
        ) + ", { "@ + wch_text(e.base) + ", "@ + wch_text(e.shift) + ", "@ + wch_text(e.ctrl)
            + ", "@ + wch_text(e.altgr) + ", "@ + wch_text(e.altgr_shift) + " } },"@,
    ) + if e.base is Dead || e.shift is Dead || e.altgr is Dead || e.altgr_shift is Dead {
        line(
            "    { (BYTE)-1,              0x00, { "@ + dead_text(e.base) + ", "@ + dead_text(e.shift)
                + ", WCH_NONE, "@ + dead_text(e.altgr) + ", "@ + dead_text(e.altgr_shift)
                + " } },"@,
        )
    } else {
        seq![]
    }
}

/// The first row of a key in the 3-column table, and its dead-key row when
/// its base or Shift state is a dead key.
pub open spec fn rows3(e: VkEntry) -> Seq<char> {
    line(
        "    { "@ + pad_right(vk_c(e.vk@) + ","@, 20, ' ') + " 0x"@ + fmt_hex(
            caps_attr_value(e.cap@) as nat,
            2,
            true,
        ) + ", { "@ + wch_text(e.base) + ", "@ + wch_text(e.shift) + ", "@ + wch_text(e.ctrl)
            + " } },"@,
    ) + if e.base is Dead || e.shift is Dead {
        line(
            "    { (BYTE)-1,              0x00, { "@ + dead_text(e.base) + ", "@ + dead_text(e.shift)
                + ", WCH_NONE } },"@,
        )
    } else {
        seq![]
    }
}

/// The rows of all entries in one of the two table shapes.
pub open spec fn table_rows(es: Seq<VkEntry>, five: bool) -> Seq<char>
    decreases es.len(),
{
    if es.len() == 0 {
        seq![]
    } else {
        table_rows(es.drop_last(), five) + if five {
            rows5(es.last())
        } else {
            rows3(es.last())
        }
    }
}

/// The `VK_TO_WCHARS5` table (with AltGr) or `VK_TO_WCHARS3` table.
pub open spec fn wchar_table(es: Seq<VkEntry>, five: bool) -> Seq<char> {
    if five {
        "static VK_TO_WCHARS5 aVkToWch5[] = {\n"@
            + "//   VkKey    Attr    Base      Shift     Ctrl      AltGr     AltGrSh\n"@
            + table_rows(es, true)
            + "    { 0,                    0x00, { WCH_NONE, WCH_NONE, WCH_NONE, WCH_NONE, WCH_NONE } }\n};\n\n"@
    } else {
        "static VK_TO_WCHARS3 aVkToWch3[] = {\n"@ + "//   VkKey    Attr    Base      Shift     Ctrl\n"@
            + table_rows(es, false) + "    { 0,                    0x00, { WCH_NONE, WCH_NONE, WCH_NONE } }\n};\n\n"@
    }
}

/// The DEADTRANS rows of one dead key's combinations at the indices of `ord`.
pub open spec fn deadtrans_rows(dk: DeadKey, accent: u32, ord: Seq<int>) -> Seq<char>
    decreases ord.len(),
{
    if ord.len() == 0 {
        seq![]
    } else {
        let e = dk.combinations@[ord.last()];
        deadtrans_rows(dk, accent, ord.drop_last()) + line(
            "    DEADTRANS( 0x"@ + fmt_hex(hex_or_zero(e.0@) as nat, 4, true) + ", 0x"@ + fmt_hex(
                accent as nat,
                4,
                true,
            ) + ", 0x"@ + fmt_hex(hex_or_zero(e.1@) as nat, 4, true) + ", 0x0000 ),"@,
        )
    }
}

/// The DEADTRANS rows of the dead keys at the indices of `ord`.
pub open spec fn deadtrans_sections(l: Layout, ord: Seq<int>) -> Seq<char>
    decreases ord.len(),
{
    if ord.len() == 0 {
        seq![]
    } else {
        let e = l.dead_keys@[ord.last()];
        deadtrans_sections(l, ord.drop_last()) + deadtrans_rows(
            e.1,
            hex_or_zero(e.0@),
            combo_order(e.1),
        )
    }
}

/// The `aDeadKey` table.
pub open spec fn dead_key_table(l: Layout) -> Seq<char> {
    if l.dead_keys@.len() == 0 {
        "static DEADKEY aDeadKey[] = { { 0, 0, 0 } };\n\n"@
    } else {
        "static DEADKEY aDeadKey[] = {\n"@ + deadtrans_sections(l, dead_key_order(l))
            + "    { 0, 0, 0 }\n};\n\n"@
    }
}

/// The dead-key name rows at the indices of `ord`.
pub open spec fn dead_name_rows(l: Layout, ord: Seq<int>) -> Seq<char>
    decreases ord.len(),
{
    if ord.len() == 0 {
        seq![]
    } else {
        dead_name_rows(l, ord.drop_last()) + line(
            "    L\""@ + l.dead_keys@[ord.last()].1.name@ + "\","@,
        )
    }
}

/// The `aKeyNamesDead` table.
pub open spec fn dead_names_table(l: Layout) -> Seq<char> {
    "static DEADKEY_LPWSTR aKeyNamesDead[] = {\n"@ + dead_name_rows(l, dead_key_order(l))
        + "    NULL\n};\n\n"@
}

/// The complete C source of a layout's keyboard DLL: header, `ausVK`, the
/// extended tables, the character table (5 columns when any key has an
/// AltGr character, else 3), dead keys, key names, modifiers, `KbdTables`
/// and the exported entry point.
pub open spec fn kbd_c_text(l: Layout) -> Seq<char> {
    header_text(l) + vsc_table(l) + E0_E1_TABLES@ + wchar_table(vk_entries(l), has_altgr(l))
        + dead_key_table(l) + KEY_NAMES_TABLE@ + KEY_NAMES_EXT_TABLE@ + dead_names_table(l) + (
    if has_altgr(l) {
        MODIFIERS_ALTGR@
    } else {
        MODIFIERS_PLAIN@
    }) + (if has_altgr(l) {
        KBD_TABLES_ALTGR@
    } else {
        KBD_TABLES_PLAIN@
    }) + EXPORT@
}

// ── Laws ─────────────────────────────────────────────────────────────────────

/// The C source as its parts around the `aDeadKey` table.
proof fn lemma_text_around_dead_keys(l: Layout)
    ensures
        kbd_c_text(l) == (header_text(l) + vsc_table(l) + E0_E1_TABLES@ + wchar_table(
            vk_entries(l),
            has_altgr(l),
        )) + dead_key_table(l) + (KEY_NAMES_TABLE@ + KEY_NAMES_EXT_TABLE@ + dead_names_table(l) + (
        if has_altgr(l) {
            MODIFIERS_ALTGR@
        } else {
            MODIFIERS_PLAIN@
        }) + (if has_altgr(l) {
            KBD_TABLES_ALTGR@
        } else {
            KBD_TABLES_PLAIN@
        }) + EXPORT@),
{
    let a = header_text(l) + vsc_table(l) + E0_E1_TABLES@ + wchar_table(
        vk_entries(l),
        has_altgr(l),
    );
    let m = if has_altgr(l) {
        MODIFIERS_ALTGR@
    } else {
        MODIFIERS_PLAIN@
    };
    let t = if has_altgr(l) {
        KBD_TABLES_ALTGR@
    } else {
        KBD_TABLES_PLAIN@
    };
    assert(kbd_c_text(l) =~= a + dead_key_table(l) + (KEY_NAMES_TABLE@ + KEY_NAMES_EXT_TABLE@
        + dead_names_table(l) + m + t + EXPORT@));
}

/// The DEADTRANS rows of `ord` hold the row of each combination they list.
proof fn lemma_rows_hold_row(dk: DeadKey, accent: u32, ord: Seq<int>, k: int)
    requires
        0 <= k < ord.len(),
    ensures
        contains_text(
            deadtrans_rows(dk, accent, ord),
            line(
                "    DEADTRANS( 0x"@ + fmt_hex(
                    hex_or_zero(dk.combinations@[ord[k]].0@) as nat,
                    4,
                    true,
                ) + ", 0x"@ + fmt_hex(accent as nat, 4, true) + ", 0x"@ + fmt_hex(
                    hex_or_zero(dk.combinations@[ord[k]].1@) as nat,
                    4,
                    true,
                ) + ", 0x0000 ),"@,
            ),
        ),
    decreases ord.len(),
{
    let prev = deadtrans_rows(dk, accent, ord.drop_last());
    let e = dk.combinations@[ord.last()];
    let last = line(
        "    DEADTRANS( 0x"@ + fmt_hex(hex_or_zero(e.0@) as nat, 4, true) + ", 0x"@ + fmt_hex(
            accent as nat,
            4,
            true,
        ) + ", 0x"@ + fmt_hex(hex_or_zero(e.1@) as nat, 4, true) + ", 0x0000 ),"@,
    );
    assert(deadtrans_rows(dk, accent, ord) == prev + last);
    if k == ord.len() - 1 {
        lemma_contains_itself(last);
        lemma_contains_within(prev, last, seq![], last);
    } else {
        assert(ord.drop_last()[k] == ord[k]);
        lemma_rows_hold_row(dk, accent, ord.drop_last(), k);
        lemma_contains_within(seq![], prev, last, line(
            "    DEADTRANS( 0x"@ + fmt_hex(hex_or_zero(dk.combinations@[ord[k]].0@) as nat, 4, true)
                + ", 0x"@ + fmt_hex(accent as nat, 4, true) + ", 0x"@ + fmt_hex(
                hex_or_zero(dk.combinations@[ord[k]].1@) as nat,
                4,
                true,
            ) + ", 0x0000 ),"@,
        ));
    }
}

/// The DEADTRANS sections of `ord` hold the rows of each dead key they list.
proof fn lemma_sections_hold_rows(l: Layout, ord: Seq<int>, k: int)
    requires
        0 <= k < ord.len(),
    ensures
        contains_text(
            deadtrans_sections(l, ord),
            deadtrans_rows(
                l.dead_keys@[ord[k]].1,
                hex_or_zero(l.dead_keys@[ord[k]].0@),
                combo_order(l.dead_keys@[ord[k]].1),
            ),
        ),
    decreases ord.len(),
{
    let prev = deadtrans_sections(l, ord.drop_last());
    let e = l.dead_keys@[ord.last()];
    let last = deadtrans_rows(e.1, hex_or_zero(e.0@), combo_order(e.1));
    assert(deadtrans_sections(l, ord) == prev + last);
    if k == ord.len() - 1 {
        lemma_contains_itself(last);
        lemma_contains_within(prev, last, seq![], last);
    } else {
        assert(ord.drop_last()[k] == ord[k]);
        lemma_sections_hold_rows(l, ord.drop_last(), k);
        let d = l.dead_keys@[ord[k]];
        lemma_contains_within(
            seq![],
            prev,
            last,
            deadtrans_rows(d.1, hex_or_zero(d.0@), combo_order(d.1)),
        );
    }
}

/// Every combination of every dead key has its DEADTRANS line in the
/// `aDeadKey` table: the combination's base character first, then the
/// dead key's accent, then the composed character the combination gives.
pub proof fn each_combination_has_its_deadtrans(l: Layout, d: int, c: int)
    requires
        0 <= d < l.dead_keys@.len(),
        0 <= c < l.dead_keys@[d].1.combinations@.len(),
    ensures
        contains_text(
            kbd_c_text(l),
            line(
                "    DEADTRANS( 0x"@ + fmt_hex(
                    hex_or_zero(l.dead_keys@[d].1.combinations@[c].0@) as nat,
                    4,
                    true,
                ) + ", 0x"@ + fmt_hex(hex_or_zero(l.dead_keys@[d].0@) as nat, 4, true) + ", 0x"@
                    + fmt_hex(hex_or_zero(l.dead_keys@[d].1.combinations@[c].1@) as nat, 4, true)
                    + ", 0x0000 ),"@,
            ),
        ),
{
    let dk = l.dead_keys@[d].1;
    let accent = hex_or_zero(l.dead_keys@[d].0@);
    let row = line(
        "    DEADTRANS( 0x"@ + fmt_hex(hex_or_zero(dk.combinations@[c].0@) as nat, 4, true)
            + ", 0x"@ + fmt_hex(accent as nat, 4, true) + ", 0x"@ + fmt_hex(
            hex_or_zero(dk.combinations@[c].1@) as nat,
            4,
            true,
        ) + ", 0x0000 ),"@,
    );
    // The combination is listed in its dead key's order, and the dead key
    // in the layout's.
    sorted_order_covers(combo_bases(dk), text_order());
    assert(listed(combo_order(dk), c));
    let co = combo_order(dk);
    let kc = choose|i: int| 0 <= i < co.len() && co[i] == c;
    lemma_rows_hold_row(dk, accent, co, kc);
    sorted_order_covers(dead_key_codes(l), text_order());
    assert(listed(dead_key_order(l), d));
    let dko = dead_key_order(l);
    let kd = choose|i: int| 0 <= i < dko.len() && dko[i] == d;
    lemma_sections_hold_rows(l, dko, kd);
    let rows = deadtrans_rows(dk, accent, co);
    lemma_contains_trans(deadtrans_sections(l, dko), rows, row);
    lemma_contains_within(
        "static DEADKEY aDeadKey[] = {\n"@,
        deadtrans_sections(l, dko),
        "    { 0, 0, 0 }\n};\n\n"@,
        row,
    );
    lemma_text_around_dead_keys(l);
    let a = header_text(l) + vsc_table(l) + E0_E1_TABLES@ + wchar_table(
        vk_entries(l),
        has_altgr(l),
    );
    let b = KEY_NAMES_TABLE@ + KEY_NAMES_EXT_TABLE@ + dead_names_table(l) + (if has_altgr(l) {
        MODIFIERS_ALTGR@
    } else {
        MODIFIERS_PLAIN@
    }) + (if has_altgr(l) {
        KBD_TABLES_ALTGR@
    } else {
        KBD_TABLES_PLAIN@
    }) + EXPORT@;
    lemma_contains_within(a, dead_key_table(l), b, row);
}

/// The first part of a key's row in the character table, up to its
/// character values: the VK expression, then the attribute byte `attr`.
pub open spec fn row_start(vk: Seq<char>, attr: Seq<char>) -> Seq<char> {
    "    { "@ + pad_right(vk_c(vk) + ","@, 20, ' ') + " 0x"@ + attr + ", { "@
}

/// Each row group of a table starts with its key's row start.
proof fn lemma_rows_start(e: VkEntry, five: bool)
    ensures
        contains_text(
            if five {
                rows5(e)
            } else {
                rows3(e)
            },
            row_start(e.vk@, fmt_hex(caps_attr_value(e.cap@) as nat, 2, true)),
        ),
{
    let h = row_start(e.vk@, fmt_hex(caps_attr_value(e.cap@) as nat, 2, true));
    if five {
        let r = wch_text(e.base) + ", "@ + wch_text(e.shift) + ", "@ + wch_text(e.ctrl) + ", "@
            + wch_text(e.altgr) + ", "@ + wch_text(e.altgr_shift) + " } },"@;
        let d = rows5(e).skip(line(h + r).len() as int);
        assert(rows5(e) =~= h + (r + seq!['\n'] + d));
        lemma_contains_start(h, r + seq!['\n'] + d);
    } else {
        let r = wch_text(e.base) + ", "@ + wch_text(e.shift) + ", "@ + wch_text(e.ctrl) + " } },"@;
        let d = rows3(e).skip(line(h + r).len() as int);
        assert(rows3(e) =~= h + (r + seq!['\n'] + d));
        lemma_contains_start(h, r + seq!['\n'] + d);
    }
}

/// The table rows hold the row start of each entry.
proof fn lemma_table_rows_hold(es: Seq<VkEntry>, five: bool, m: int)
    requires
        0 <= m < es.len(),
    ensures
        contains_text(
            table_rows(es, five),
            row_start(es[m].vk@, fmt_hex(caps_attr_value(es[m].cap@) as nat, 2, true)),
        ),
    decreases es.len(),
{
    let prev = table_rows(es.drop_last(), five);
    let last = if five {
        rows5(es.last())
    } else {
        rows3(es.last())
    };
    let h = row_start(es[m].vk@, fmt_hex(caps_attr_value(es[m].cap@) as nat, 2, true));
    assert(table_rows(es, five) == prev + last);
    if m == es.len() - 1 {
        lemma_rows_start(es.last(), five);
        lemma_contains_within(prev, last, seq![], h);
    } else {
        assert(es.drop_last()[m] == es[m]);
        lemma_table_rows_hold(es.drop_last(), five, m);
        lemma_contains_within(seq![], prev, last, h);
    }
}

/// The attribute byte of a `cap` text, as two hex digits.
proof fn lemma_attr_digits(cap: Seq<char>)
    ensures
        fmt_hex(caps_attr_value(cap) as nat, 2, true) == (if trim(cap) == seq!['1'] {
            seq!['0', '1']
        } else if trim(cap) == seq!['4'] {
            seq!['0', '2']
        } else {
            seq!['0', '0']
        }),
{
    assert(fmt_hex(1, 2, true) =~= seq!['0', '1']);
    assert(fmt_hex(2, 2, true) =~= seq!['0', '2']);
    assert(fmt_hex(0, 2, true) =~= seq!['0', '0']);
}

/// Every key's row in the character table carries the caps-lock attribute
/// its `cap` text asks for: `1` gives CAPLOK (0x01), `4` gives SGCAPS
/// (0x02), anything else no attribute (0x00).
pub proof fn caps_lock_attribute_follows_cap(l: Layout, k: int)
    requires
        0 <= k < l.keys@.len(),
    ensures
        contains_text(
            kbd_c_text(l),
            "    { "@ + pad_right(vk_c(l.keys@[k].1.vk@) + ","@, 20, ' ') + " 0x"@ + (if trim(
                l.keys@[k].1.cap@,
            ) == seq!['1'] {
                seq!['0', '1']
            } else if trim(l.keys@[k].1.cap@) == seq!['4'] {
                seq!['0', '2']
            } else {
                seq!['0', '0']
            }) + ", { "@,
        ),
{
    let km = l.keys@[k].1;
    crate::sort::nat_order_is_total_preorder();
    sorted_order_covers(crate::layout::key_values(l), crate::sort::nat_le());
    crate::layout::keys_ordered_by_scancode(l);
    assert(listed(key_order(l), k));
    let ko = key_order(l);
    let m = choose|i: int| 0 <= i < ko.len() && ko[i] == k;
    let es = vk_entries(l);
    assert(es[m] == entry_of(km));
    lemma_table_rows_hold(es, has_altgr(l), m);
    lemma_attr_digits(km.cap@);
    let h = row_start(km.vk@, fmt_hex(caps_attr_value(km.cap@) as nat, 2, true));
    let rows = table_rows(es, has_altgr(l));
    let (p, q) = if has_altgr(l) {
        (
            "static VK_TO_WCHARS5 aVkToWch5[] = {\n"@
                + "//   VkKey    Attr    Base      Shift     Ctrl      AltGr     AltGrSh\n"@,
            "    { 0,                    0x00, { WCH_NONE, WCH_NONE, WCH_NONE, WCH_NONE, WCH_NONE } }\n};\n\n"@,
        )
    } else {
        (
            "static VK_TO_WCHARS3 aVkToWch3[] = {\n"@ + "//   VkKey    Attr    Base      Shift     Ctrl\n"@,
            "    { 0,                    0x00, { WCH_NONE, WCH_NONE, WCH_NONE } }\n};\n\n"@,
        )
    };
    assert(wchar_table(es, has_altgr(l)) == p + rows + q);
    lemma_contains_within(p, rows, q, h);
    let a = header_text(l) + vsc_table(l) + E0_E1_TABLES@;
    let b = kbd_c_text(l).skip((a + wchar_table(es, has_altgr(l))).len() as int);
    assert(kbd_c_text(l) =~= a + wchar_table(es, has_altgr(l)) + b);
    lemma_contains_within(a, wchar_table(es, has_altgr(l)), b, h);
}

// ── Executable code ──────────────────────────────────────────────────────────

impl CharVal {
    /// Parse from the JSON string representation.
    fn parse(s: &str) -> (r: CharVal)
        ensures
            r == charval(s@),
    {
        let t = trim_chars(&chars_of(s));
        if (t.len() == 2 && t[0] == '-' && t[1] == '1') || t.len() == 0 {
            proof {
                if t.len() == 2 && t[0] == '-' && t[1] == '1' {
                    assert(t@ =~= seq!['-', '1']);
                }
            }
            return CharVal::Empty;
        }
        assert(t@ != seq!['-', '1']);
        let is_dead = t[t.len() - 1] == '@';
        let mut hex: Vec<char> = Vec::new();
        let n: usize = if is_dead {
            t.len() - 1
        } else {
            t.len()
        };
        let mut i: usize = 0;
        while i < n
            invariant
                n <= t.len(),
                i <= n,
                hex@ == t@.take(i as int),
            decreases n - i,
        {
            hex.push(t[i]);
            i = i + 1;
            assert(hex@ =~= t@.take(i as int));
        }
        proof {
            if is_dead {
                assert(hex@ =~= t@.drop_last());
            } else {
                assert(hex@ =~= t@);
            }
        }
        let cp: u32 = match parse_hex(&hex, 0xffff_ffff) {
            Some(v) => v,
            None => 0,
        };
        if is_dead {
            CharVal::Dead(cp)
        } else {
            CharVal::Char(cp)
        }
    }

    /// Return the C expression for this value in a `wch[]` initializer.
    fn c_wch(&self) -> (r: String)
        ensures
            r@ == wch_text(*self),
    {
        match self {
            CharVal::Empty => string_of("WCH_NONE"),
            CharVal::Char(cp) | CharVal::Dead(cp) => {
                let mut r = string_of("0x");
                r.append(format_hex(*cp as u64, 4, true).as_str());
                r
            },
        }
    }

    /// True when this value causes a dead-key entry row to follow.
    fn is_dead(&self) -> (r: bool)
        ensures
            r == (*self is Dead),
    {
        matches!(self, CharVal::Dead(_))
    }

    /// True when no character is generated.
    fn is_none(&self) -> (r: bool)
        ensures
            r == (*self is Empty),
    {
        matches!(self, CharVal::Empty)
    }
}

/// The entries of all keys, ordered by scancode value.
fn collect_vk_entries(layout: &Layout) -> (entries: Vec<VkEntry>)
    ensures
        entries@ == vk_entries(*layout),
{
    let order = sorted_key_indices(layout);
    let ghost ord = order@.map_values(|x: usize| x as int);
    let mut entries: Vec<VkEntry> = Vec::new();
    let mut j: usize = 0;
    while j < order.len()
        invariant
            j <= order.len(),
            ord == order@.map_values(|x: usize| x as int),
            ord == key_order(*layout),
            forall|k: int| 0 <= k < order@.len() ==> #[trigger] order@[k] < layout.keys@.len(),
            entries@ == vk_entries(*layout).take(j as int),
        decreases order.len() - j,
    {
        let km = &layout.keys[order[j]].1;
        let e = VkEntry {
            vk: km.vk.clone(),
            cap: km.cap.clone(),
            base: CharVal::parse(km.base.as_str()),
            shift: CharVal::parse(km.shift.as_str()),
            ctrl: CharVal::parse(km.ctrl.as_str()),
            altgr: CharVal::parse(km.altgr.as_str()),
            altgr_shift: CharVal::parse(km.altgr_shift.as_str()),
        };
        proof {
            assert(ord[j as int] == order@[j as int] as int);
            assert(e == entry_of(*km));
        }
        entries.push(e);
        j = j + 1;
        assert(entries@ =~= vk_entries(*layout).take(j as int));
    }
    assert(vk_entries(*layout).take(order.len() as int) =~= vk_entries(*layout));
    entries
}

/// True if any key in the layout has an AltGr (Ctrl+Alt) character.
fn layout_has_altgr(layout: &Layout) -> (r: bool)
    ensures
        r == has_altgr(*layout),
{
    let mut i: usize = 0;
    while i < layout.keys.len()
        invariant
            i <= layout.keys.len(),
            forall|k: int|
                0 <= k < i ==> (charval(#[trigger] layout.keys@[k].1.altgr@) is Empty) && (charval(
                    layout.keys@[k].1.altgr_shift@,
                ) is Empty),
        decreases layout.keys.len() - i,
    {
        let km = &layout.keys[i].1;
        let ag = CharVal::parse(km.altgr.as_str());
        let ags = CharVal::parse(km.altgr_shift.as_str());
        if !ag.is_none() || !ags.is_none() {
            return true;
        }
        i = i + 1;
    }
    false
}

fn push(out: &mut String, s: &str)
    ensures
        final(out)@ == old(out)@ + line(s@),
{
    append_line(out, s);
}

// ── Section emitters ────────────────────────────────────────────────────────

fn emit_header(out: &mut String, layout: &Layout)
    ensures
        final(out)@ == old(out)@ + header_text(*layout),
{
    let name = layout_display_name(layout);
    out.append("/*\n");
    let mut a = string_of(" * Keyboard layout: ");
    a.append(name);
    push(out, a.as_str());
    let mut b = string_of(" * Locale:          ");
    b.append(layout.locale.as_str());
    push(out, b.as_str());
    // The source is self-contained: it includes <windows.h>, then <kbd.h>.
    out.append(HEADER_TAIL);
    assert(final(out)@ =~= old(out)@ + header_text(*layout));
}

/// Emit the `ausVK[]` table: scancode -> Virtual Key.
///
/// The table must be indexed 0..=bMaxVSCtoVK-1 (i.e. the *byte* scancode).
/// We cover scancodes 0x00–0x7F with a standard set derived from a US-type
/// keyboard plus the overrides from the layout JSON.
fn emit_vsc_to_vk(out: &mut String, layout: &Layout)
    ensures
        final(out)@ == old(out)@ + vsc_table(*layout),
{
    // Start from a standard US base table (0x00–0x7F).
    let mut table: Vec<String> = Vec::new();
    let mut i: usize = 0;
    while i < 128
        invariant
            i <= 128,
            table@.len() == i,
            forall|k: int| 0 <= k < i ==> #[trigger] table@[k]@ == base_vsc(k),
        decreases 128 - i,
    {
        table.push(string_of(base_vsc_entry(i)));
        i = i + 1;
    }
    // Override with layout-specific VK names.
    let mut k: usize = 0;
    while k < layout.keys.len()
        invariant
            k <= layout.keys.len(),
            table@.len() == 128,
            forall|m: int| 0 <= m < 128 ==> #[trigger] table@[m]@ == vsc_entry(
                layout.keys@.take(k as int),
                m as nat,
            ),
        decreases layout.keys.len() - k,
    {
        let sc = parse_hex(&chars_of(layout.keys[k].0.as_str()), 0xffff_ffff);
        let ghost pre = layout.keys@.take(k as int);
        let ghost post = layout.keys@.take(k + 1);
        proof {
            assert(post.drop_last() =~= pre);
            assert(post.last() == layout.keys@[k as int]);
        }
        match sc {
            Some(v) => {
                if v < 128 {
                    // Map the JSON VK string to a C constant.
                    let c = vk_name_to_c(layout.keys[k].1.vk.as_str());
                    table.set(v as usize, c);
                }
            },
            None => {},
        }
        proof {
            assert forall|m: int| 0 <= m < 128 implies #[trigger] table@[m]@ == vsc_entry(
                post,
                m as nat,
            ) by {
                if parse_radix16(post.last().0@, 0xffff_ffff) == Some(m as nat) {
                    assert(vsc_override(post, m as nat) == Some(vk_c(post.last().1.vk@)));
                } else {
                    assert(vsc_override(post, m as nat) == vsc_override(pre, m as nat));
                }
            }
        }
        k = k + 1;
    }
    assert(layout.keys@.take(layout.keys.len() as int) =~= layout.keys@);
    out.append("static USHORT ausVK[] = {\n");
    let ghost start = out@;
    let mut n: usize = 0;
    while n < 128
        invariant
            n <= 128,
            table@.len() == 128,
            forall|m: int| 0 <= m < 128 ==> #[trigger] table@[m]@ == vsc_entry(
                layout.keys@,
                m as nat,
            ),
            out@ == start + vsc_rows(layout.keys@, n as nat),
        decreases 128 - n,
    {
        let mut row = string_of("    /* ");
        row.append(format_hex(n as u64, 2, true).as_str());
        row.append(" */ ");
        row.append(table[n].as_str());
        row.append(",");
        push(out, row.as_str());
        n = n + 1;
        assert(out@ =~= start + vsc_rows(layout.keys@, n as nat));
    }
    out.append("};\n\n");
    assert(final(out)@ =~= old(out)@ + vsc_table(*layout));
}

/// Emit the extended scancode tables (E0 and E1 prefix).
///
/// We use the standard values for a 101/104-key US keyboard. These are
/// the same across all non-FE layouts.
fn emit_e0_e1_tables(out: &mut String)
    ensures
        final(out)@ == old(out)@ + E0_E1_TABLES@,
{
    out.append(E0_E1_TABLES);
}

/// Emit the character table: MSKLC uses a single flat table
/// (`VK_TO_WCHARS5`) for layouts with AltGr, or `VK_TO_WCHARS3` for those
/// without.  We follow that simpler strategy.
fn emit_vk_to_wchar_tables(out: &mut String, entries: &Vec<VkEntry>, has_altgr: bool)
    ensures
        final(out)@ == old(out)@ + wchar_table(entries@, has_altgr),
{
    if has_altgr {
        emit_wchar_table5(out, entries);
    } else {
        emit_wchar_table3(out, entries);
    }
}

/// Appends the first (and dead-key) rows of one entry.
fn emit_entry_rows(out: &mut String, entry: &VkEntry, five: bool)
    ensures
        final(out)@ == old(out)@ + if five {
            rows5(*entry)
        } else {
            rows3(*entry)
        },
{
    let attr = caps_attr(entry.cap.as_str());
    let mut vk_c = vk_name_to_c(entry.vk.as_str());
    vk_c.append(",");
    let mut row = string_of("    { ");
    append_padded(&mut row, vk_c.as_str(), 20);
    row.append(" 0x");
    row.append(format_hex(attr as u64, 2, true).as_str());
    row.append(", { ");
    row.append(entry.base.c_wch().as_str());
    row.append(", ");
    row.append(entry.shift.c_wch().as_str());
    row.append(", ");
    row.append(entry.ctrl.c_wch().as_str());
    if five {
        row.append(", ");
        row.append(entry.altgr.c_wch().as_str());
        row.append(", ");
        row.append(entry.altgr_shift.c_wch().as_str());
    }
    row.append(" } },");
    push(out, row.as_str());
    let any_dead = if five {
        entry.base.is_dead() || entry.shift.is_dead() || entry.altgr.is_dead()
            || entry.altgr_shift.is_dead()
    } else {
        entry.base.is_dead() || entry.shift.is_dead()
    };
    let ghost mid = out@;
    // If any shift state is a dead key, emit the continuation row.
    if any_dead {
        let mut d = string_of("    { (BYTE)-1,              0x00, { ");
        d.append(dead_marker(&entry.base));
        d.append(", ");
        d.append(dead_marker(&entry.shift));
        if five {
            d.append(", WCH_NONE, ");
            d.append(dead_marker(&entry.altgr));
            d.append(", ");
            d.append(dead_marker(&entry.altgr_shift));
            d.append(" } },");
        } else {
            d.append(", WCH_NONE } },");
        }
        push(out, d.as_str());
    }
    proof {
        if any_dead {
            assert(final(out)@ =~= old(out)@ + if five {
                rows5(*entry)
            } else {
                rows3(*entry)
            });
        } else {
            assert(final(out)@ =~= old(out)@ + if five {
                rows5(*entry)
            } else {
                rows3(*entry)
            });
        }
    }
}

/// `WCH_DEAD` for a dead key, else `WCH_NONE`.
fn dead_marker(cv: &CharVal) -> (r: &'static str)
    ensures
        r@ == dead_text(*cv),
{
    if cv.is_dead() {
        "WCH_DEAD"
    } else {
        "WCH_NONE"
    }
}

/// Appends the rows of all entries.
fn emit_table_rows(out: &mut String, entries: &Vec<VkEntry>, five: bool)
    ensures
        final(out)@ == old(out)@ + table_rows(entries@, five),
{
    let mut j: usize = 0;
    while j < entries.len()
        invariant
            j <= entries.len(),
            out@ == old(out)@ + table_rows(entries@.take(j as int), five),
        decreases entries.len() - j,
    {
        emit_entry_rows(out, &entries[j], five);
        proof {
            assert(entries@.take(j + 1).drop_last() =~= entries@.take(j as int));
            assert(entries@.take(j + 1).last() == entries@[j as int]);
        }
        j = j + 1;
        assert(out@ =~= old(out)@ + table_rows(entries@.take(j as int), five));
    }
    assert(entries@.take(entries.len() as int) =~= entries@);
}

/// 5-column table: base | shift | ctrl | altgr | altgr+shift
fn emit_wchar_table5(out: &mut String, entries: &Vec<VkEntry>)
    ensures
        final(out)@ == old(out)@ + wchar_table(entries@, true),
{
    out.append("static VK_TO_WCHARS5 aVkToWch5[] = {\n");
    out.append("//   VkKey    Attr    Base      Shift     Ctrl      AltGr     AltGrSh\n");
    emit_table_rows(out, entries, true);
    out.append(
        "    { 0,                    0x00, { WCH_NONE, WCH_NONE, WCH_NONE, WCH_NONE, WCH_NONE } }\n};\n\n",
    );
    assert(final(out)@ =~= old(out)@ + wchar_table(entries@, true));
}

/// 3-column table: base | shift | ctrl (no AltGr).
fn emit_wchar_table3(out: &mut String, entries: &Vec<VkEntry>)
    ensures
        final(out)@ == old(out)@ + wchar_table(entries@, false),
{
    out.append("static VK_TO_WCHARS3 aVkToWch3[] = {\n");
    out.append("//   VkKey    Attr    Base      Shift     Ctrl\n");
    emit_table_rows(out, entries, false);
    out.append("    { 0,                    0x00, { WCH_NONE, WCH_NONE, WCH_NONE } }\n};\n\n");
    assert(final(out)@ =~= old(out)@ + wchar_table(entries@, false));
}

/// Map the `cap` field to a C attribute constant.
fn caps_attr(cap: &str) -> (r: u8)
    ensures
        r == caps_attr_value(cap@),
{
    let t = trim_chars(&chars_of(cap));
    if t.len() == 1 && t[0] == '1' {
        assert(t@ =~= seq!['1']);
        0x01  // CAPLOK
    } else if t.len() == 1 && t[0] == '4' {
        assert(t@ =~= seq!['4']);
        assert(t@ != seq!['1']);
        0x02  // SGCAPS
    } else {
        proof {
            if t@ == seq!['1'] {
                assert(t@[0] == '1');
            }
            if t@ == seq!['4'] {
                assert(t@[0] == '4');
            }
        }
        0x00
    }
}

/// Appends the DEADTRANS rows of one dead key, ordered by base text.
fn emit_deadtrans_rows(out: &mut String, dk: &DeadKey, accent_cp: u32)
    ensures
        final(out)@ == old(out)@ + deadtrans_rows(*dk, accent_cp, combo_order(*dk)),
{
    let order = sorted_combo_indices(dk);
    let ghost ord = order@.map_values(|x: usize| x as int);
    let mut j: usize = 0;
    while j < order.len()
        invariant
            j <= order.len(),
            ord == order@.map_values(|x: usize| x as int),
            ord == combo_order(*dk),
            forall|k: int| 0 <= k < order@.len() ==> #[trigger] order@[k] < dk.combinations@.len(),
            out@ == old(out)@ + deadtrans_rows(*dk, accent_cp, ord.take(j as int)),
        decreases order.len() - j,
    {
        let idx = order[j];
        let base_cp = hex_or_zero_exec(dk.combinations[idx].0.as_str());
        let result_cp = hex_or_zero_exec(dk.combinations[idx].1.as_str());
        // DEADTRANS(base_char, accent_char, composed_char, flags)
        let mut row = string_of("    DEADTRANS( 0x");
        row.append(format_hex(base_cp as u64, 4, true).as_str());
        row.append(", 0x");
        row.append(format_hex(accent_cp as u64, 4, true).as_str());
        row.append(", 0x");
        row.append(format_hex(result_cp as u64, 4, true).as_str());
        row.append(", 0x0000 ),");
        push(out, row.as_str());
        proof {
            assert(ord.take(j + 1).drop_last() =~= ord.take(j as int));
            assert(ord.take(j + 1).last() == idx as int);
        }
        j = j + 1;
        assert(out@ =~= old(out)@ + deadtrans_rows(*dk, accent_cp, ord.take(j as int)));
    }
    assert(ord.take(order.len() as int) =~= ord);
}

/// The codepoint of a hex text, or 0 when it is not one.
fn hex_or_zero_exec(s: &str) -> (r: u32)
    ensures
        r == hex_or_zero(s@),
{
    match parse_hex(&chars_of(s), 0xffff_ffff) {
        Some(v) => v,
        None => 0,
    }
}

fn emit_dead_key_table(out: &mut String, layout: &Layout, has_dead_keys: bool)
    requires
        has_dead_keys == (layout.dead_keys@.len() > 0),
    ensures
        final(out)@ == old(out)@ + dead_key_table(*layout),
{
    if !has_dead_keys {
        out.append("static DEADKEY aDeadKey[] = { { 0, 0, 0 } };\n\n");
        return ;
    }
    out.append("static DEADKEY aDeadKey[] = {\n");
    let ghost start = out@;
    // Sort dead keys for reproducible output.
    let order = sorted_dead_key_indices(layout);
    let ghost ord = order@.map_values(|x: usize| x as int);
    let mut j: usize = 0;
    while j < order.len()
        invariant
            j <= order.len(),
            ord == order@.map_values(|x: usize| x as int),
            ord == dead_key_order(*layout),
            forall|k: int| 0 <= k < order@.len() ==> #[trigger] order@[k] < layout.dead_keys@.len(),
            out@ == start + deadtrans_sections(*layout, ord.take(j as int)),
        decreases order.len() - j,
    {
        let idx = order[j];
        let accent_cp = hex_or_zero_exec(layout.dead_keys[idx].0.as_str());
        emit_deadtrans_rows(out, &layout.dead_keys[idx].1, accent_cp);
        proof {
            assert(ord.take(j + 1).drop_last() =~= ord.take(j as int));
            assert(ord.take(j + 1).last() == idx as int);
        }
        j = j + 1;
        assert(out@ =~= start + deadtrans_sections(*layout, ord.take(j as int)));
    }
    assert(ord.take(order.len() as int) =~= ord);
    out.append("    { 0, 0, 0 }\n};\n\n");
    assert(final(out)@ =~= old(out)@ + dead_key_table(*layout));
}

fn emit_key_names(out: &mut String)
    ensures
        final(out)@ == old(out)@ + KEY_NAMES_TABLE@,
{
    out.append(KEY_NAMES_TABLE);
}

fn emit_key_names_ext(out: &mut String)
    ensures
        final(out)@ == old(out)@ + KEY_NAMES_EXT_TABLE@,
{
    out.append(KEY_NAMES_EXT_TABLE);
}

fn emit_dead_key_names(out: &mut String, layout: &Layout, has_dead_keys: bool)
    requires
        has_dead_keys == (layout.dead_keys@.len() > 0),
    ensures
        final(out)@ == old(out)@ + dead_names_table(*layout),
{
    out.append("static DEADKEY_LPWSTR aKeyNamesDead[] = {\n");
    let ghost start = out@;
    if has_dead_keys {
        let order = sorted_dead_key_indices(layout);
        let ghost ord = order@.map_values(|x: usize| x as int);
        let mut j: usize = 0;
        while j < order.len()
            invariant
                j <= order.len(),
                ord == order@.map_values(|x: usize| x as int),
                ord == dead_key_order(*layout),
                forall|k: int|
                    0 <= k < order@.len() ==> #[trigger] order@[k] < layout.dead_keys@.len(),
                out@ == start + dead_name_rows(*layout, ord.take(j as int)),
            decreases order.len() - j,
        {
            let idx = order[j];
            // Each dead key name is a wide string pointer.
            let mut row = string_of("    L\"");
            row.append(layout.dead_keys[idx].1.name.as_str());
            row.append("\",");
            push(out, row.as_str());
            proof {
                assert(ord.take(j + 1).drop_last() =~= ord.take(j as int));
                assert(ord.take(j + 1).last() == idx as int);
            }
            j = j + 1;
            assert(out@ =~= start + dead_name_rows(*layout, ord.take(j as int)));
        }
        assert(ord.take(order.len() as int) =~= ord);
    } else {
        proof {
            crate::sort::lemma_sorted_order_indices(
                crate::layout::dead_key_codes(*layout),
                crate::sort::text_order(),
            );
            assert(dead_key_order(*layout).len() == 0);
            assert(dead_name_rows(*layout, dead_key_order(*layout)) =~= Seq::<char>::empty());
        }
    }
    out.append("    NULL\n};\n\n");
    assert(final(out)@ =~= old(out)@ + dead_names_table(*layout));
}

/// Emit the `MODIFIERS` structure (shift-state mapping). The bit space is
/// Shift=bit0, Ctrl=bit1, Alt=bit2; without an AltGr layer Ctrl+Alt is
/// `SHFT_INVALID` too.
fn emit_modifiers(out: &mut String, has_altgr: bool)
    ensures
        final(out)@ == old(out)@ + if has_altgr {
            MODIFIERS_ALTGR@
        } else {
            MODIFIERS_PLAIN@
        },
{
    if has_altgr {
        out.append(MODIFIERS_ALTGR);
    } else {
        out.append(MODIFIERS_PLAIN);
    }
}

fn emit_kbd_tables(out: &mut String, _layout: &Layout, has_altgr: bool, _has_dead_keys: bool)
    ensures
        final(out)@ == old(out)@ + if has_altgr {
            KBD_TABLES_ALTGR@
        } else {
            KBD_TABLES_PLAIN@
        },
{
    if has_altgr {
        out.append(KBD_TABLES_ALTGR);
    } else {
        out.append(KBD_TABLES_PLAIN);
    }
}

fn emit_export(out: &mut String)
    ensures
        final(out)@ == old(out)@ + EXPORT@,
{
    out.append(EXPORT);
}

/// Map a JSON VK name like `"VK_A"` to a C expression suitable for use in a
/// `USHORT` initializer.
///
/// Alphanumeric VK codes (`VK_0`–`VK_9`, `VK_A`–`VK_Z`) are NOT defined in
/// `winuser.h`; they equal the ASCII code of the character.  We emit raw hex
/// literals for these to avoid conflicts with the `VK_F` struct typedef in
/// `kbd.h`.  OEM and special keys use the winuser.h symbolic names.
fn vk_name_to_c(vk: &str) -> (r: String)
    ensures
        r@ == vk_c(vk@),
{
    string_of(vk_name_text(vk))
}

fn vk_name_text(vk: &str) -> (r: &'static str)
    ensures
        r@ == vk_c(vk@),
{
    if str_eq(vk, "VK_0") {
        "0x30"
    } else if str_eq(vk, "VK_1") {
        "0x31"
    } else if str_eq(vk, "VK_2") {
        "0x32"
    } else if str_eq(vk, "VK_3") {
        "0x33"
    } else if str_eq(vk, "VK_4") {
        "0x34"
    } else if str_eq(vk, "VK_5") {
        "0x35"
    } else if str_eq(vk, "VK_6") {
        "0x36"
    } else if str_eq(vk, "VK_7") {
        "0x37"
    } else if str_eq(vk, "VK_8") {
        "0x38"
    } else if str_eq(vk, "VK_9") {
        "0x39"
    } else if str_eq(vk, "VK_A") {
        "0x41"
    } else if str_eq(vk, "VK_B") {
        "0x42"
    } else if str_eq(vk, "VK_C") {
        "0x43"
    } else if str_eq(vk, "VK_D") {
        "0x44"
    } else if str_eq(vk, "VK_E") {
        "0x45"
    } else if str_eq(vk, "VK_F") {
        "0x46"
    } else if str_eq(vk, "VK_G") {
        "0x47"
    } else if str_eq(vk, "VK_H") {
        "0x48"
    } else if str_eq(vk, "VK_I") {
        "0x49"
    } else if str_eq(vk, "VK_J") {
        "0x4A"
    } else if str_eq(vk, "VK_K") {
        "0x4B"
    } else if str_eq(vk, "VK_L") {
        "0x4C"
    } else if str_eq(vk, "VK_M") {
        "0x4D"
    } else if str_eq(vk, "VK_N") {
        "0x4E"
    } else if str_eq(vk, "VK_O") {
        "0x4F"
    } else if str_eq(vk, "VK_P") {
        "0x50"
    } else if str_eq(vk, "VK_Q") {
        "0x51"
    } else if str_eq(vk, "VK_R") {
        "0x52"
    } else if str_eq(vk, "VK_S") {
        "0x53"
    } else if str_eq(vk, "VK_T") {
        "0x54"
    } else if str_eq(vk, "VK_U") {
        "0x55"
    } else if str_eq(vk, "VK_V") {
        "0x56"
    } else if str_eq(vk, "VK_W") {
        "0x57"
    } else if str_eq(vk, "VK_X") {
        "0x58"
    } else if str_eq(vk, "VK_Y") {
        "0x59"
    } else if str_eq(vk, "VK_Z") {
        "0x5A"
    } else if str_eq(vk, "VK_SPACE") {
        "VK_SPACE"
    } else if str_eq(vk, "VK_OEM_1") {
        "VK_OEM_1"
    } else if str_eq(vk, "VK_OEM_2") {
        "VK_OEM_2"
    } else if str_eq(vk, "VK_OEM_3") {
        "VK_OEM_3"
    } else if str_eq(vk, "VK_OEM_4") {
        "VK_OEM_4"
    } else if str_eq(vk, "VK_OEM_5") {
        "VK_OEM_5"
    } else if str_eq(vk, "VK_OEM_6") {
        "VK_OEM_6"
    } else if str_eq(vk, "VK_OEM_7") {
        "VK_OEM_7"
    } else if str_eq(vk, "VK_OEM_8") {
        "VK_OEM_8"
    } else if str_eq(vk, "VK_OEM_102") {
        "VK_OEM_102"
    } else if str_eq(vk, "VK_OEM_COMMA") {
        "VK_OEM_COMMA"
    } else if str_eq(vk, "VK_OEM_PERIOD") {
        "VK_OEM_PERIOD"
    } else if str_eq(vk, "VK_OEM_MINUS") {
        "VK_OEM_MINUS"
    } else if str_eq(vk, "VK_OEM_PLUS") {
        "VK_OEM_PLUS"
    } else {
        "0"
    }
}

/// The standard VSC→VK entry of scancode `i`.
fn base_vsc_entry(i: usize) -> (r: &'static str)
    requires
        i < 128,
    ensures
        r@ == base_vsc(i as int),
{
    if i == 0 {
        "0"
    } else if i == 1 {
        "VK_ESCAPE"
    } else if i == 2 {
        "0x31"
    } else if i == 3 {
        "0x32"
    } else if i == 4 {
        "0x33"
    } else if i == 5 {
        "0x34"
    } else if i == 6 {
        "0x35"
    } else if i == 7 {
        "0x36"
    } else if i == 8 {
        "0x37"
    } else if i == 9 {
        "0x38"
    } else if i == 10 {
        "0x39"
    } else if i == 11 {
        "0x30"
    } else if i == 12 {
        "VK_OEM_MINUS"
    } else if i == 13 {
        "VK_OEM_PLUS"
    } else if i == 14 {
        "VK_BACK"
    } else if i == 15 {
        "VK_TAB"
    } else if i == 16 {
        "0x51"
    } else if i == 17 {
        "0x57"
    } else if i == 18 {
        "0x45"
    } else if i == 19 {
        "0x52"
    } else if i == 20 {
        "0x54"
    } else if i == 21 {
        "0x59"
    } else if i == 22 {
        "0x55"
    } else if i == 23 {
        "0x49"
    } else if i == 24 {
        "0x4F"
    } else if i == 25 {
        "0x50"
    } else if i == 26 {
        "VK_OEM_4"
    } else if i == 27 {
        "VK_OEM_6"
    } else if i == 28 {
        "VK_RETURN"
    } else if i == 29 {
        "VK_LCONTROL"
    } else if i == 30 {
        "0x41"
    } else if i == 31 {
        "0x53"
    } else if i == 32 {
        "0x44"
    } else if i == 33 {
        "0x46"
    } else if i == 34 {
        "0x47"
    } else if i == 35 {
        "0x48"
    } else if i == 36 {
        "0x4A"
    } else if i == 37 {
        "0x4B"
    } else if i == 38 {
        "0x4C"
    } else if i == 39 {
        "VK_OEM_1"
    } else if i == 40 {
        "VK_OEM_7"
    } else if i == 41 {
        "VK_OEM_3"
    } else if i == 42 {
        "VK_LSHIFT"
    } else if i == 43 {
        "VK_OEM_5"
    } else if i == 44 {
        "0x5A"
    } else if i == 45 {
        "0x58"
    } else if i == 46 {
        "0x43"
    } else if i == 47 {
        "0x56"
    } else if i == 48 {
        "0x42"
    } else if i == 49 {
        "0x4E"
    } else if i == 50 {
        "0x4D"
    } else if i == 51 {
        "VK_OEM_COMMA"
    } else if i == 52 {
        "VK_OEM_PERIOD"
    } else if i == 53 {
        "VK_OEM_2"
    } else if i == 54 {
        "VK_RSHIFT"
    } else if i == 55 {
        "VK_MULTIPLY"
    } else if i == 56 {
        "VK_LMENU"
    } else if i == 57 {
        "VK_SPACE"
    } else if i == 58 {
        "VK_CAPITAL"
    } else if i == 59 {
        "VK_F1"
    } else if i == 60 {
        "VK_F2"
    } else if i == 61 {
        "VK_F3"
    } else if i == 62 {
        "VK_F4"
    } else if i == 63 {
        "VK_F5"
    } else if i == 64 {
        "VK_F6"
    } else if i == 65 {
        "VK_F7"
    } else if i == 66 {
        "VK_F8"
    } else if i == 67 {
        "VK_F9"
    } else if i == 68 {
        "VK_F10"
    } else if i == 69 {
        "VK_NUMLOCK | KBDEXT"
    } else if i == 70 {
        "VK_SCROLL"
    } else if i == 71 {
        "VK_NUMPAD7 | KBDNUMPAD | KBDSPECIAL"
    } else if i == 72 {
        "VK_NUMPAD8 | KBDNUMPAD | KBDSPECIAL"
    } else if i == 73 {
        "VK_NUMPAD9 | KBDNUMPAD | KBDSPECIAL"
    } else if i == 74 {
        "VK_SUBTRACT"
    } else if i == 75 {
        "VK_NUMPAD4 | KBDNUMPAD | KBDSPECIAL"
    } else if i == 76 {
        "VK_NUMPAD5 | KBDNUMPAD | KBDSPECIAL"
    } else if i == 77 {
        "VK_NUMPAD6 | KBDNUMPAD | KBDSPECIAL"
    } else if i == 78 {
        "VK_ADD"
    } else if i == 79 {
        "VK_NUMPAD1 | KBDNUMPAD | KBDSPECIAL"
    } else if i == 80 {
        "VK_NUMPAD2 | KBDNUMPAD | KBDSPECIAL"
    } else if i == 81 {
        "VK_NUMPAD3 | KBDNUMPAD | KBDSPECIAL"
    } else if i == 82 {
        "VK_NUMPAD0 | KBDNUMPAD | KBDSPECIAL"
    } else if i == 83 {
        "VK_DECIMAL | KBDNUMPAD | KBDSPECIAL"
    } else if i == 84 {
        "0"
    } else if i == 85 {
        "0"
    } else if i == 86 {
        "VK_OEM_102"
    } else if i == 87 {
        "VK_F11"
    } else if i == 88 {
        "VK_F12"
    } else if i == 89 {
        "0"
    } else if i == 90 {
        "0"
    } else if i == 91 {
        "0"
    } else if i == 92 {
        "0"
    } else if i == 93 {
        "0"
    } else if i == 94 {
        "0"
    } else if i == 95 {
        "0"
    } else if i == 96 {
        "0"
    } else if i == 97 {
        "0"
    } else if i == 98 {
        "0"
    } else if i == 99 {
        "0"
    } else if i == 100 {
        "VK_F13"
    } else if i == 101 {
        "VK_F14"
    } else if i == 102 {
        "VK_F15"
    } else if i == 103 {
        "VK_F16"
    } else if i == 104 {
        "VK_F17"
    } else if i == 105 {
        "VK_F18"
    } else if i == 106 {
        "VK_F19"
    } else if i == 107 {
        "VK_F20"
    } else if i == 108 {
        "VK_F21"
    } else if i == 109 {
        "VK_F22"
    } else if i == 110 {
        "VK_F23"
    } else if i == 111 {
        "0"
    } else if i == 112 {
        "0"
    } else if i == 113 {
        "0"
    } else if i == 114 {
        "0"
    } else if i == 115 {
        "0"
    } else if i == 116 {
        "0"
    } else if i == 117 {
        "0"
    } else if i == 118 {
        "VK_F24"
    } else if i == 119 {
        "0"
    } else if i == 120 {
        "0"
    } else if i == 121 {
        "0"
    } else if i == 122 {
        "0"
    } else if i == 123 {
        "0"
    } else if i == 124 {
        "0"
    } else if i == 125 {
        "0"
    } else if i == 126 {
        "0"
    } else {
        "0"
    }
}

// ── Public entry point ──────────────────────────────────────────────────────

/// Generate a complete Windows keyboard layout DLL C source file.
///
/// The returned string is valid C source that, when compiled with
/// `cl.exe /LD /NOENTRY` and linked against `user32.lib`, produces a
/// working keyboard layout DLL.
pub fn generate_kbd_c(layout: &Layout) -> (out: String)
    ensures
        out@ == kbd_c_text(*layout),
{
    let mut out = String::new();
    let has_altgr = layout_has_altgr(layout);
    let has_dead_keys = layout.dead_keys.len() > 0;

    // Gather all VK→char entries once so we can inspect them.
    let entries = collect_vk_entries(layout);

    emit_header(&mut out, layout);
    emit_vsc_to_vk(&mut out, layout);
    emit_e0_e1_tables(&mut out);
    emit_vk_to_wchar_tables(&mut out, &entries, has_altgr);
    emit_dead_key_table(&mut out, layout, has_dead_keys);
    emit_key_names(&mut out);
    emit_key_names_ext(&mut out);
    emit_dead_key_names(&mut out, layout, has_dead_keys);
    emit_modifiers(&mut out, has_altgr);
    emit_kbd_tables(&mut out, layout, has_altgr, has_dead_keys);
    emit_export(&mut out);
    assert(out@ =~= kbd_c_text(*layout));
    out
}

} // verus!
