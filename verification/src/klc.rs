//! Generation of a Microsoft Keyboard Layout Creator (.klc) source file from
//! a layout definition.
use vstd::prelude::*;
use crate::layout::{
    DeadKey, KeyMapping, Layout, layout_name, key_order, dead_key_order, combo_order,
    layout_display_name, sorted_key_indices, sorted_dead_key_indices, sorted_combo_indices,
    keys_distinct, key_values, dead_key_codes, combo_bases, text_map_view,
    lemma_same_entries_witness, lemma_lookup_same_entries, keys_ordered_by_scancode,
    dead_keys_ordered_by_code,
};
use crate::sort::{
    no_dups, nat_le, text_order, sorted_orders_agree, lemma_sorted_order_indices,
    nat_order_is_total_preorder, text_order_is_total_preorder, text_order_is_antisymmetric,
};
use crate::text::{line, parse_radix16, parse_hex, chars_of, str_eq};

verus! {

broadcast use vstd::string::group_string_axioms;

/// The lines between the KBD line and LOCALENAME.
pub const KLC_COMPANY: &'static str = "\n\
    COPYRIGHT\t\"(c) MagicWindows Contributors\"\n\
    COMPANY\t\"MagicWindows\"\n\
    \n";

/// The lines from after LOCALEID down to the first key row.
pub const KLC_LAYOUT_INTRO: &'static str = "\n\
    VERSION\t1.0\n\
    \n\
    SHIFTSTATE\n\
    \n\
    0\t//Column 4\n\
    1\t//Column 5 : Shft\n\
    2\t//Column 6 :       Ctrl\n\
    6\t//Column 7 :       Ctrl Alt  (= AltGr)\n\
    7\t//Column 8 : Shft  Ctrl Alt\n\
    \n\
    LAYOUT\t\t;an extra '@' sign follows a dead key value\n\
    \n\
    //SC\tVK_\t\tCap\t0\t1\t2\t6\t7\n\
    //--\t----\t\t----\t----\t----\t----\t----\t----\n\
    \n";

/// The standard KLC `KEYNAME` section: names of the plain scancodes.
pub const KEYNAME_SECTION: &'static str = "KEYNAME\n\n\
    01\tEsc\n\
    0e\tBackspace\n\
    0f\tTab\n\
    1c\tEnter\n\
    1d\tCtrl\n\
    2a\tShift\n\
    36\t\"Right Shift\"\n\
    37\t\"Num *\"\n\
    38\tAlt\n\
    39\tSpace\n\
    3a\t\"Caps Lock\"\n\
    3b\tF1\n\
    3c\tF2\n\
    3d\tF3\n\
    3e\tF4\n\
    3f\tF5\n\
    40\tF6\n\
    41\tF7\n\
    42\tF8\n\
    43\tF9\n\
    44\tF10\n\
    45\tPause\n\
    46\t\"Scroll Lock\"\n\
    47\t\"Num 7\"\n\
    48\t\"Num 8\"\n\
    49\t\"Num 9\"\n\
    4a\t\"Num -\"\n\
    4b\t\"Num 4\"\n\
    4c\t\"Num 5\"\n\
    4d\t\"Num 6\"\n\
    4e\t\"Num +\"\n\
    4f\t\"Num 1\"\n\
    50\t\"Num 2\"\n\
    51\t\"Num 3\"\n\
    52\t\"Num 0\"\n\
    53\t\"Num .\"\n\
    57\tF11\n\
    58\tF12\n\
    \n";

/// The standard KLC `KEYNAME_EXT` section: names of the extended scancodes.
pub const KEYNAME_EXT_SECTION: &'static str = "KEYNAME_EXT\n\n\
    1c\t\"Num Enter\"\n\
    1d\t\"Right Ctrl\"\n\
    35\t\"Num /\"\n\
    37\t\"Prnt Scrn\"\n\
    38\t\"Right Alt\"\n\
    45\t\"Num Lock\"\n\
    46\tBreak\n\
    47\tHome\n\
    48\tUp\n\
    49\t\"Page Up\"\n\
    4b\tLeft\n\
    4d\tRight\n\
    4f\tEnd\n\
    50\tDown\n\
    51\t\"Page Down\"\n\
    52\tInsert\n\
    53\tDelete\n\
    \n";

// ── Specification ────────────────────────────────────────────────────────────

/// The character of a hex codepoint text, if it names a Unicode scalar
/// (`u32::from_str_radix(hex, 16).ok().and_then(char::from_u32)`).
pub open spec fn codepoint_char(hex: Seq<char>) -> Option<char> {
    match parse_radix16(hex, 0xffff_ffff) {
        Some(v) => if v <= 0x10ffff && !(0xd800 <= v && v <= 0xdfff) {
            Some((v as u32) as char)
        } else {
            None
        },
        None => None,
    }
}

/// The human-readable language name of a BCP-47 locale tag.
pub open spec fn display_name(locale: Seq<char>) -> Seq<char> {
    if locale == "fr-FR"@ {
        "French (France)"@
    } else if locale == "fr-CA"@ {
        "French (Canada)"@
    } else if locale == "fr-BE"@ {
        "French (Belgium)"@
    } else if locale == "fr-CH"@ {
        "French (Switzerland)"@
    } else if locale == "de-DE"@ {
        "German (Germany)"@
    } else if locale == "de-CH"@ {
        "German (Switzerland)"@
    } else if locale == "de-AT"@ {
        "German (Austria)"@
    } else if locale == "en-US"@ {
        "English (United States)"@
    } else if locale == "en-GB"@ {
        "English (United Kingdom)"@
    } else if locale == "es-ES"@ {
        "Spanish (Spain)"@
    } else if locale == "it-IT"@ {
        "Italian (Italy)"@
    } else if locale == "pt-BR"@ {
        "Portuguese (Brazil)"@
    } else if locale == "pt-PT"@ {
        "Portuguese (Portugal)"@
    } else if locale == "nl-NL"@ {
        "Dutch (Netherlands)"@
    } else if locale == "sv-SE"@ {
        "Swedish (Sweden)"@
    } else if locale == "da-DK"@ {
        "Danish (Denmark)"@
    } else if locale == "nb-NO"@ {
        "Norwegian Bokmal (Norway)"@
    } else if locale == "fi-FI"@ {
        "Finnish (Finland)"@
    } else if locale == "pl-PL"@ {
        "Polish (Poland)"@
    } else if locale == "ja-JP"@ {
        "Japanese (Japan)"@
    } else {
        "English (United States)"@
    }
}

/// The header: KBD, company, locale and shift-state lines, up to the first
/// key row.
pub open spec fn klc_header(l: Layout) -> Seq<char> {
    line("KBD\t"@ + l.dll_name@ + "\t\""@ + layout_name(l) + "\""@) + KLC_COMPANY@ + line(
        "LOCALENAME\t\""@ + l.locale@ + "\""@,
    ) + line("LOCALEID\t\""@ + l.locale_id@ + "\""@) + KLC_LAYOUT_INTRO@
}

/// One LAYOUT row: scancode, VK, cap flag and the five shift-state values.
pub open spec fn key_row(sc: Seq<char>, km: KeyMapping) -> Seq<char> {
    sc + "\t"@ + km.vk@ + "\t\t"@ + km.cap@ + "\t"@ + km.base@ + "\t"@ + km.shift@ + "\t"@
        + km.ctrl@ + "\t"@ + km.altgr@ + "\t"@ + km.altgr_shift@
}

/// The LAYOUT rows of the keys at the indices of `ord`, in that order.
pub open spec fn key_rows(l: Layout, ord: Seq<int>) -> Seq<char>
    decreases ord.len(),
{
    if ord.len() == 0 {
        seq![]
    } else {
        key_rows(l, ord.drop_last()) + line(
            key_row(l.keys@[ord.last()].0@, l.keys@[ord.last()].1),
        )
    }
}

/// The comment naming the composed character, when the result names one.
pub open spec fn combo_comment(result: Seq<char>) -> Seq<char> {
    match codepoint_char(result) {
        Some(c) => "\t// "@ + seq![c],
        None => seq![],
    }
}

/// The rows of a dead key's combinations at the indices of `ord`.
pub open spec fn combo_rows(dk: DeadKey, ord: Seq<int>) -> Seq<char>
    decreases ord.len(),
{
    if ord.len() == 0 {
        seq![]
    } else {
        let e = dk.combinations@[ord.last()];
        combo_rows(dk, ord.drop_last()) + line(e.0@ + "\t"@ + e.1@ + combo_comment(e.1@))
    }
}

/// One DEADKEY section.
pub open spec fn dead_key_section(code: Seq<char>, dk: DeadKey) -> Seq<char> {
    line("DEADKEY\t"@ + code) + line(seq![]) + combo_rows(dk, combo_order(dk)) + line(seq![])
}

/// The DEADKEY sections of the dead keys at the indices of `ord`.
pub open spec fn dead_key_sections(l: Layout, ord: Seq<int>) -> Seq<char>
    decreases ord.len(),
{
    if ord.len() == 0 {
        seq![]
    } else {
        dead_key_sections(l, ord.drop_last()) + dead_key_section(
            l.dead_keys@[ord.last()].0@,
            l.dead_keys@[ord.last()].1,
        )
    }
}

/// The KEYNAME_DEAD rows of the dead keys at the indices of `ord`.
pub open spec fn dead_key_name_rows(l: Layout, ord: Seq<int>) -> Seq<char>
    decreases ord.len(),
{
    if ord.len() == 0 {
        seq![]
    } else {
        dead_key_name_rows(l, ord.drop_last()) + line(
            l.dead_keys@[ord.last()].0@ + "\t\""@ + l.dead_keys@[ord.last()].1.name@ + "\""@,
        )
    }
}

/// The DESCRIPTIONS and LANGUAGENAMES sections and the end marker.
pub open spec fn klc_tail(l: Layout) -> Seq<char> {
    "DESCRIPTIONS\n\n"@ + line("0409\t"@ + layout_name(l)) + "\nLANGUAGENAMES\n\n"@ + line(
        "0409\t"@ + display_name(l.locale@),
    ) + "\nENDKBD\n"@
}

/// The complete .klc text of a layout.
pub open spec fn klc_text(l: Layout) -> Seq<char> {
    klc_header(l) + key_rows(l, key_order(l)) + line(seq![]) + dead_key_sections(
        l,
        dead_key_order(l),
    ) + KEYNAME_SECTION@ + KEYNAME_EXT_SECTION@ + "KEYNAME_DEAD\n\n"@ + dead_key_name_rows(
        l,
        dead_key_order(l),
    ) + line(seq![]) + klc_tail(l)
}

// ── Language names ───────────────────────────────────────────────────────────

/// The locale tags with a language name of their own.
pub open spec fn named_locales() -> Seq<Seq<char>> {
    seq![
            "fr-FR"@,
            "fr-CA"@,
            "fr-BE"@,
            "fr-CH"@,
            "de-DE"@,
            "de-CH"@,
            "de-AT"@,
            "en-US"@,
            "en-GB"@,
            "es-ES"@,
            "it-IT"@,
            "pt-BR"@,
            "pt-PT"@,
            "nl-NL"@,
            "sv-SE"@,
            "da-DK"@,
            "nb-NO"@,
            "fi-FI"@,
            "pl-PL"@,
            "ja-JP"@,
        ]
}

/// The documented language name of each tag of `named_locales`, in the
/// same order.
pub open spec fn documented_language_names() -> Seq<Seq<char>> {
    seq![
            "French (France)"@,
            "French (Canada)"@,
            "French (Belgium)"@,
            "French (Switzerland)"@,
            "German (Germany)"@,
            "German (Switzerland)"@,
            "German (Austria)"@,
            "English (United States)"@,
            "English (United Kingdom)"@,
            "Spanish (Spain)"@,
            "Italian (Italy)"@,
            "Portuguese (Brazil)"@,
            "Portuguese (Portugal)"@,
            "Dutch (Netherlands)"@,
            "Swedish (Sweden)"@,
            "Danish (Denmark)"@,
            "Norwegian Bokmal (Norway)"@,
            "Finnish (Finland)"@,
            "Polish (Poland)"@,
            "Japanese (Japan)"@,
        ]
}

/// The name of the listed tag at index `k`.
proof fn lemma_named_locale(k: int)
    requires
        0 <= k < 20,
    ensures
        display_name(named_locales()[k]) == documented_language_names()[k],
{
    assert(named_locales()[k] == named_locales()[k]);
    if k < 0 {
    } else if k == 0 {
            reveal_strlit("fr-FR");
            reveal_strlit("French (France)");
            assert(display_name("fr-FR"@) == "French (France)"@);
        } else if k == 1 {
            reveal_strlit("fr-CA");
            reveal_strlit("French (Canada)");
            reveal_strlit("fr-FR");
            assert("fr-CA"@[3] != "fr-FR"@[3]);
            assert(display_name("fr-CA"@) == "French (Canada)"@);
        } else if k == 2 {
            reveal_strlit("fr-BE");
            reveal_strlit("French (Belgium)");
            reveal_strlit("fr-FR");
            assert("fr-BE"@[3] != "fr-FR"@[3]);
            reveal_strlit("fr-CA");
            assert("fr-BE"@[3] != "fr-CA"@[3]);
            assert(display_name("fr-BE"@) == "French (Belgium)"@);
        } else if k == 3 {
            reveal_strlit("fr-CH");
            reveal_strlit("French (Switzerland)");
            reveal_strlit("fr-FR");
            assert("fr-CH"@[3] != "fr-FR"@[3]);
            reveal_strlit("fr-CA");
            assert("fr-CH"@[4] != "fr-CA"@[4]);
            reveal_strlit("fr-BE");
            assert("fr-CH"@[3] != "fr-BE"@[3]);
            assert(display_name("fr-CH"@) == "French (Switzerland)"@);
        } else if k == 4 {
            reveal_strlit("de-DE");
            reveal_strlit("German (Germany)");
            reveal_strlit("fr-FR");
            assert("de-DE"@[0] != "fr-FR"@[0]);
            reveal_strlit("fr-CA");
            assert("de-DE"@[0] != "fr-CA"@[0]);
            reveal_strlit("fr-BE");
            assert("de-DE"@[0] != "fr-BE"@[0]);
            reveal_strlit("fr-CH");
            assert("de-DE"@[0] != "fr-CH"@[0]);
            assert(display_name("de-DE"@) == "German (Germany)"@);
        } else if k == 5 {
            reveal_strlit("de-CH");
            reveal_strlit("German (Switzerland)");
            reveal_strlit("fr-FR");
            assert("de-CH"@[0] != "fr-FR"@[0]);
            reveal_strlit("fr-CA");
            assert("de-CH"@[0] != "fr-CA"@[0]);
            reveal_strlit("fr-BE");
            assert("de-CH"@[0] != "fr-BE"@[0]);
            reveal_strlit("fr-CH");
            assert("de-CH"@[0] != "fr-CH"@[0]);
            reveal_strlit("de-DE");
            assert("de-CH"@[3] != "de-DE"@[3]);
            assert(display_name("de-CH"@) == "German (Switzerland)"@);
        } else if k == 6 {
            reveal_strlit("de-AT");
            reveal_strlit("German (Austria)");
            reveal_strlit("fr-FR");
            assert("de-AT"@[0] != "fr-FR"@[0]);
            reveal_strlit("fr-CA");
            assert("de-AT"@[0] != "fr-CA"@[0]);
            reveal_strlit("fr-BE");
            assert("de-AT"@[0] != "fr-BE"@[0]);
            reveal_strlit("fr-CH");
            assert("de-AT"@[0] != "fr-CH"@[0]);
            reveal_strlit("de-DE");
            assert("de-AT"@[3] != "de-DE"@[3]);
            reveal_strlit("de-CH");
            assert("de-AT"@[3] != "de-CH"@[3]);
            assert(display_name("de-AT"@) == "German (Austria)"@);
        } else if k == 7 {
            reveal_strlit("en-US");
            reveal_strlit("English (United States)");
            reveal_strlit("fr-FR");
            assert("en-US"@[0] != "fr-FR"@[0]);
            reveal_strlit("fr-CA");
            assert("en-US"@[0] != "fr-CA"@[0]);
            reveal_strlit("fr-BE");
            assert("en-US"@[0] != "fr-BE"@[0]);
            reveal_strlit("fr-CH");
            assert("en-US"@[0] != "fr-CH"@[0]);
            reveal_strlit("de-DE");
            assert("en-US"@[0] != "de-DE"@[0]);
            reveal_strlit("de-CH");
            assert("en-US"@[0] != "de-CH"@[0]);
            reveal_strlit("de-AT");
            assert("en-US"@[0] != "de-AT"@[0]);
            assert(display_name("en-US"@) == "English (United States)"@);
        } else if k == 8 {
            reveal_strlit("en-GB");
            reveal_strlit("English (United Kingdom)");
            reveal_strlit("fr-FR");
            assert("en-GB"@[0] != "fr-FR"@[0]);
            reveal_strlit("fr-CA");
            assert("en-GB"@[0] != "fr-CA"@[0]);
            reveal_strlit("fr-BE");
            assert("en-GB"@[0] != "fr-BE"@[0]);
            reveal_strlit("fr-CH");
            assert("en-GB"@[0] != "fr-CH"@[0]);
            reveal_strlit("de-DE");
            assert("en-GB"@[0] != "de-DE"@[0]);
            reveal_strlit("de-CH");
            assert("en-GB"@[0] != "de-CH"@[0]);
            reveal_strlit("de-AT");
            assert("en-GB"@[0] != "de-AT"@[0]);
            reveal_strlit("en-US");
            assert("en-GB"@[3] != "en-US"@[3]);
            assert(display_name("en-GB"@) == "English (United Kingdom)"@);
        } else if k == 9 {
            reveal_strlit("es-ES");
            reveal_strlit("Spanish (Spain)");
            reveal_strlit("fr-FR");
            assert("es-ES"@[0] != "fr-FR"@[0]);
            reveal_strlit("fr-CA");
            assert("es-ES"@[0] != "fr-CA"@[0]);
            reveal_strlit("fr-BE");
            assert("es-ES"@[0] != "fr-BE"@[0]);
            reveal_strlit("fr-CH");
            assert("es-ES"@[0] != "fr-CH"@[0]);
            reveal_strlit("de-DE");
            assert("es-ES"@[0] != "de-DE"@[0]);
            reveal_strlit("de-CH");
            assert("es-ES"@[0] != "de-CH"@[0]);
            reveal_strlit("de-AT");
            assert("es-ES"@[0] != "de-AT"@[0]);
            reveal_strlit("en-US");
            assert("es-ES"@[1] != "en-US"@[1]);
            reveal_strlit("en-GB");
            assert("es-ES"@[1] != "en-GB"@[1]);
            assert(display_name("es-ES"@) == "Spanish (Spain)"@);
        } else if k == 10 {
            reveal_strlit("it-IT");
            reveal_strlit("Italian (Italy)");
            reveal_strlit("fr-FR");
            assert("it-IT"@[0] != "fr-FR"@[0]);
            reveal_strlit("fr-CA");
            assert("it-IT"@[0] != "fr-CA"@[0]);
            reveal_strlit("fr-BE");
            assert("it-IT"@[0] != "fr-BE"@[0]);
            reveal_strlit("fr-CH");
            assert("it-IT"@[0] != "fr-CH"@[0]);
            reveal_strlit("de-DE");
            assert("it-IT"@[0] != "de-DE"@[0]);
            reveal_strlit("de-CH");
            assert("it-IT"@[0] != "de-CH"@[0]);
            reveal_strlit("de-AT");
            assert("it-IT"@[0] != "de-AT"@[0]);
            reveal_strlit("en-US");
            assert("it-IT"@[0] != "en-US"@[0]);
            reveal_strlit("en-GB");
            assert("it-IT"@[0] != "en-GB"@[0]);
            reveal_strlit("es-ES");
            assert("it-IT"@[0] != "es-ES"@[0]);
            assert(display_name("it-IT"@) == "Italian (Italy)"@);
        } else if k == 11 {
            reveal_strlit("pt-BR");
            reveal_strlit("Portuguese (Brazil)");
            reveal_strlit("fr-FR");
            assert("pt-BR"@[0] != "fr-FR"@[0]);
            reveal_strlit("fr-CA");
            assert("pt-BR"@[0] != "fr-CA"@[0]);
            reveal_strlit("fr-BE");
            assert("pt-BR"@[0] != "fr-BE"@[0]);
            reveal_strlit("fr-CH");
            assert("pt-BR"@[0] != "fr-CH"@[0]);
            reveal_strlit("de-DE");
            assert("pt-BR"@[0] != "de-DE"@[0]);
            reveal_strlit("de-CH");
            assert("pt-BR"@[0] != "de-CH"@[0]);
            reveal_strlit("de-AT");
            assert("pt-BR"@[0] != "de-AT"@[0]);
            reveal_strlit("en-US");
            assert("pt-BR"@[0] != "en-US"@[0]);
            reveal_strlit("en-GB");
            assert("pt-BR"@[0] != "en-GB"@[0]);
            reveal_strlit("es-ES");
            assert("pt-BR"@[0] != "es-ES"@[0]);
            reveal_strlit("it-IT");
            assert("pt-BR"@[0] != "it-IT"@[0]);
            assert(display_name("pt-BR"@) == "Portuguese (Brazil)"@);
        } else if k == 12 {
            reveal_strlit("pt-PT");
            reveal_strlit("Portuguese (Portugal)");
            reveal_strlit("fr-FR");
            assert("pt-PT"@[0] != "fr-FR"@[0]);
            reveal_strlit("fr-CA");
            assert("pt-PT"@[0] != "fr-CA"@[0]);
            reveal_strlit("fr-BE");
            assert("pt-PT"@[0] != "fr-BE"@[0]);
            reveal_strlit("fr-CH");
            assert("pt-PT"@[0] != "fr-CH"@[0]);
            reveal_strlit("de-DE");
            assert("pt-PT"@[0] != "de-DE"@[0]);
            reveal_strlit("de-CH");
            assert("pt-PT"@[0] != "de-CH"@[0]);
            reveal_strlit("de-AT");
            assert("pt-PT"@[0] != "de-AT"@[0]);
            reveal_strlit("en-US");
            assert("pt-PT"@[0] != "en-US"@[0]);
            reveal_strlit("en-GB");
            assert("pt-PT"@[0] != "en-GB"@[0]);
            reveal_strlit("es-ES");
            assert("pt-PT"@[0] != "es-ES"@[0]);
            reveal_strlit("it-IT");
            assert("pt-PT"@[0] != "it-IT"@[0]);
            reveal_strlit("pt-BR");
            assert("pt-PT"@[3] != "pt-BR"@[3]);
            assert(display_name("pt-PT"@) == "Portuguese (Portugal)"@);
        } else if k == 13 {
            reveal_strlit("nl-NL");
            reveal_strlit("Dutch (Netherlands)");
            reveal_strlit("fr-FR");
            assert("nl-NL"@[0] != "fr-FR"@[0]);
            reveal_strlit("fr-CA");
            assert("nl-NL"@[0] != "fr-CA"@[0]);
            reveal_strlit("fr-BE");
            assert("nl-NL"@[0] != "fr-BE"@[0]);
            reveal_strlit("fr-CH");
            assert("nl-NL"@[0] != "fr-CH"@[0]);
            reveal_strlit("de-DE");
            assert("nl-NL"@[0] != "de-DE"@[0]);
            reveal_strlit("de-CH");
            assert("nl-NL"@[0] != "de-CH"@[0]);
            reveal_strlit("de-AT");
            assert("nl-NL"@[0] != "de-AT"@[0]);
            reveal_strlit("en-US");
            assert("nl-NL"@[0] != "en-US"@[0]);
            reveal_strlit("en-GB");
            assert("nl-NL"@[0] != "en-GB"@[0]);
            reveal_strlit("es-ES");
            assert("nl-NL"@[0] != "es-ES"@[0]);
            reveal_strlit("it-IT");
            assert("nl-NL"@[0] != "it-IT"@[0]);
            reveal_strlit("pt-BR");
            assert("nl-NL"@[0] != "pt-BR"@[0]);
            reveal_strlit("pt-PT");
            assert("nl-NL"@[0] != "pt-PT"@[0]);
            assert(display_name("nl-NL"@) == "Dutch (Netherlands)"@);
        } else if k == 14 {
            reveal_strlit("sv-SE");
            reveal_strlit("Swedish (Sweden)");
            reveal_strlit("fr-FR");
            assert("sv-SE"@[0] != "fr-FR"@[0]);
            reveal_strlit("fr-CA");
            assert("sv-SE"@[0] != "fr-CA"@[0]);
            reveal_strlit("fr-BE");
            assert("sv-SE"@[0] != "fr-BE"@[0]);
            reveal_strlit("fr-CH");
            assert("sv-SE"@[0] != "fr-CH"@[0]);
            reveal_strlit("de-DE");
            assert("sv-SE"@[0] != "de-DE"@[0]);
            reveal_strlit("de-CH");
            assert("sv-SE"@[0] != "de-CH"@[0]);
            reveal_strlit("de-AT");
            assert("sv-SE"@[0] != "de-AT"@[0]);
            reveal_strlit("en-US");
            assert("sv-SE"@[0] != "en-US"@[0]);
            reveal_strlit("en-GB");
            assert("sv-SE"@[0] != "en-GB"@[0]);
            reveal_strlit("es-ES");
            assert("sv-SE"@[0] != "es-ES"@[0]);
            reveal_strlit("it-IT");
            assert("sv-SE"@[0] != "it-IT"@[0]);
            reveal_strlit("pt-BR");
            assert("sv-SE"@[0] != "pt-BR"@[0]);
            reveal_strlit("pt-PT");
            assert("sv-SE"@[0] != "pt-PT"@[0]);
            reveal_strlit("nl-NL");
            assert("sv-SE"@[0] != "nl-NL"@[0]);
            assert(display_name("sv-SE"@) == "Swedish (Sweden)"@);
        } else if k == 15 {
            reveal_strlit("da-DK");
            reveal_strlit("Danish (Denmark)");
            reveal_strlit("fr-FR");
            assert("da-DK"@[0] != "fr-FR"@[0]);
            reveal_strlit("fr-CA");
            assert("da-DK"@[0] != "fr-CA"@[0]);
            reveal_strlit("fr-BE");
            assert("da-DK"@[0] != "fr-BE"@[0]);
            reveal_strlit("fr-CH");
            assert("da-DK"@[0] != "fr-CH"@[0]);
            reveal_strlit("de-DE");
            assert("da-DK"@[1] != "de-DE"@[1]);
            reveal_strlit("de-CH");
            assert("da-DK"@[1] != "de-CH"@[1]);
            reveal_strlit("de-AT");
            assert("da-DK"@[1] != "de-AT"@[1]);
            reveal_strlit("en-US");
            assert("da-DK"@[0] != "en-US"@[0]);
            reveal_strlit("en-GB");
            assert("da-DK"@[0] != "en-GB"@[0]);
            reveal_strlit("es-ES");
            assert("da-DK"@[0] != "es-ES"@[0]);
            reveal_strlit("it-IT");
            assert("da-DK"@[0] != "it-IT"@[0]);
            reveal_strlit("pt-BR");
            assert("da-DK"@[0] != "pt-BR"@[0]);
            reveal_strlit("pt-PT");
            assert("da-DK"@[0] != "pt-PT"@[0]);
            reveal_strlit("nl-NL");
            assert("da-DK"@[0] != "nl-NL"@[0]);
            reveal_strlit("sv-SE");
            assert("da-DK"@[0] != "sv-SE"@[0]);
            assert(display_name("da-DK"@) == "Danish (Denmark)"@);
        } else if k == 16 {
            reveal_strlit("nb-NO");
            reveal_strlit("Norwegian Bokmal (Norway)");
            reveal_strlit("fr-FR");
            assert("nb-NO"@[0] != "fr-FR"@[0]);
            reveal_strlit("fr-CA");
            assert("nb-NO"@[0] != "fr-CA"@[0]);
            reveal_strlit("fr-BE");
            assert("nb-NO"@[0] != "fr-BE"@[0]);
            reveal_strlit("fr-CH");
            assert("nb-NO"@[0] != "fr-CH"@[0]);
            reveal_strlit("de-DE");
            assert("nb-NO"@[0] != "de-DE"@[0]);
            reveal_strlit("de-CH");
            assert("nb-NO"@[0] != "de-CH"@[0]);
            reveal_strlit("de-AT");
            assert("nb-NO"@[0] != "de-AT"@[0]);
            reveal_strlit("en-US");
            assert("nb-NO"@[0] != "en-US"@[0]);
            reveal_strlit("en-GB");
            assert("nb-NO"@[0] != "en-GB"@[0]);
            reveal_strlit("es-ES");
            assert("nb-NO"@[0] != "es-ES"@[0]);
            reveal_strlit("it-IT");
            assert("nb-NO"@[0] != "it-IT"@[0]);
            reveal_strlit("pt-BR");
            assert("nb-NO"@[0] != "pt-BR"@[0]);
            reveal_strlit("pt-PT");
            assert("nb-NO"@[0] != "pt-PT"@[0]);
            reveal_strlit("nl-NL");
            assert("nb-NO"@[1] != "nl-NL"@[1]);
            reveal_strlit("sv-SE");
            assert("nb-NO"@[0] != "sv-SE"@[0]);
            reveal_strlit("da-DK");
            assert("nb-NO"@[0] != "da-DK"@[0]);
            assert(display_name("nb-NO"@) == "Norwegian Bokmal (Norway)"@);
        } else if k == 17 {
            reveal_strlit("fi-FI");
            reveal_strlit("Finnish (Finland)");
            reveal_strlit("fr-FR");
            assert("fi-FI"@[1] != "fr-FR"@[1]);
            reveal_strlit("fr-CA");
            assert("fi-FI"@[1] != "fr-CA"@[1]);
            reveal_strlit("fr-BE");
            assert("fi-FI"@[1] != "fr-BE"@[1]);
            reveal_strlit("fr-CH");
            assert("fi-FI"@[1] != "fr-CH"@[1]);
            reveal_strlit("de-DE");
            assert("fi-FI"@[0] != "de-DE"@[0]);
            reveal_strlit("de-CH");
            assert("fi-FI"@[0] != "de-CH"@[0]);
            reveal_strlit("de-AT");
            assert("fi-FI"@[0] != "de-AT"@[0]);
            reveal_strlit("en-US");
            assert("fi-FI"@[0] != "en-US"@[0]);
            reveal_strlit("en-GB");
            assert("fi-FI"@[0] != "en-GB"@[0]);
            reveal_strlit("es-ES");
            assert("fi-FI"@[0] != "es-ES"@[0]);
            reveal_strlit("it-IT");
            assert("fi-FI"@[0] != "it-IT"@[0]);
            reveal_strlit("pt-BR");
            assert("fi-FI"@[0] != "pt-BR"@[0]);
            reveal_strlit("pt-PT");
            assert("fi-FI"@[0] != "pt-PT"@[0]);
            reveal_strlit("nl-NL");
            assert("fi-FI"@[0] != "nl-NL"@[0]);
            reveal_strlit("sv-SE");
            assert("fi-FI"@[0] != "sv-SE"@[0]);
            reveal_strlit("da-DK");
            assert("fi-FI"@[0] != "da-DK"@[0]);
            reveal_strlit("nb-NO");
            assert("fi-FI"@[0] != "nb-NO"@[0]);
            assert(display_name("fi-FI"@) == "Finnish (Finland)"@);
        } else if k == 18 {
            reveal_strlit("pl-PL");
            reveal_strlit("Polish (Poland)");
            reveal_strlit("fr-FR");
            assert("pl-PL"@[0] != "fr-FR"@[0]);
            reveal_strlit("fr-CA");
            assert("pl-PL"@[0] != "fr-CA"@[0]);
            reveal_strlit("fr-BE");
            assert("pl-PL"@[0] != "fr-BE"@[0]);
            reveal_strlit("fr-CH");
            assert("pl-PL"@[0] != "fr-CH"@[0]);
            reveal_strlit("de-DE");
            assert("pl-PL"@[0] != "de-DE"@[0]);
            reveal_strlit("de-CH");
            assert("pl-PL"@[0] != "de-CH"@[0]);
            reveal_strlit("de-AT");
            assert("pl-PL"@[0] != "de-AT"@[0]);
            reveal_strlit("en-US");
            assert("pl-PL"@[0] != "en-US"@[0]);
            reveal_strlit("en-GB");
            assert("pl-PL"@[0] != "en-GB"@[0]);
            reveal_strlit("es-ES");
            assert("pl-PL"@[0] != "es-ES"@[0]);
            reveal_strlit("it-IT");
            assert("pl-PL"@[0] != "it-IT"@[0]);
            reveal_strlit("pt-BR");
            assert("pl-PL"@[1] != "pt-BR"@[1]);
            reveal_strlit("pt-PT");
            assert("pl-PL"@[1] != "pt-PT"@[1]);
            reveal_strlit("nl-NL");
            assert("pl-PL"@[0] != "nl-NL"@[0]);
            reveal_strlit("sv-SE");
            assert("pl-PL"@[0] != "sv-SE"@[0]);
            reveal_strlit("da-DK");
            assert("pl-PL"@[0] != "da-DK"@[0]);
            reveal_strlit("nb-NO");
            assert("pl-PL"@[0] != "nb-NO"@[0]);
            reveal_strlit("fi-FI");
            assert("pl-PL"@[0] != "fi-FI"@[0]);
            assert(display_name("pl-PL"@) == "Polish (Poland)"@);
        } else if k == 19 {
            reveal_strlit("ja-JP");
            reveal_strlit("Japanese (Japan)");
            reveal_strlit("fr-FR");
            assert("ja-JP"@[0] != "fr-FR"@[0]);
            reveal_strlit("fr-CA");
            assert("ja-JP"@[0] != "fr-CA"@[0]);
            reveal_strlit("fr-BE");
            assert("ja-JP"@[0] != "fr-BE"@[0]);
            reveal_strlit("fr-CH");
            assert("ja-JP"@[0] != "fr-CH"@[0]);
            reveal_strlit("de-DE");
            assert("ja-JP"@[0] != "de-DE"@[0]);
            reveal_strlit("de-CH");
            assert("ja-JP"@[0] != "de-CH"@[0]);
            reveal_strlit("de-AT");
            assert("ja-JP"@[0] != "de-AT"@[0]);
            reveal_strlit("en-US");
            assert("ja-JP"@[0] != "en-US"@[0]);
            reveal_strlit("en-GB");
            assert("ja-JP"@[0] != "en-GB"@[0]);
            reveal_strlit("es-ES");
            assert("ja-JP"@[0] != "es-ES"@[0]);
            reveal_strlit("it-IT");
            assert("ja-JP"@[0] != "it-IT"@[0]);
            reveal_strlit("pt-BR");
            assert("ja-JP"@[0] != "pt-BR"@[0]);
            reveal_strlit("pt-PT");
            assert("ja-JP"@[0] != "pt-PT"@[0]);
            reveal_strlit("nl-NL");
            assert("ja-JP"@[0] != "nl-NL"@[0]);
            reveal_strlit("sv-SE");
            assert("ja-JP"@[0] != "sv-SE"@[0]);
            reveal_strlit("da-DK");
            assert("ja-JP"@[0] != "da-DK"@[0]);
            reveal_strlit("nb-NO");
            assert("ja-JP"@[0] != "nb-NO"@[0]);
            reveal_strlit("fi-FI");
            assert("ja-JP"@[0] != "fi-FI"@[0]);
            reveal_strlit("pl-PL");
            assert("ja-JP"@[0] != "pl-PL"@[0]);
            assert(display_name("ja-JP"@) == "Japanese (Japan)"@);
        }
}

/// Two listed names at different indices differ.
proof fn lemma_names_differ(i: int, j: int)
    requires
        0 <= i < j < 20,
    ensures
        documented_language_names()[i] != documented_language_names()[j],
{
    let n = documented_language_names();
    if i == 0 {
            if j == 1 {
                reveal_strlit("French (France)");
                reveal_strlit("French (Canada)");
                assert(n[0][8] != n[1][8]);
            } else if j == 2 {
                reveal_strlit("French (France)");
                reveal_strlit("French (Belgium)");
                assert(n[0].len() != n[2].len());
            } else if j == 3 {
                reveal_strlit("French (France)");
                reveal_strlit("French (Switzerland)");
                assert(n[0].len() != n[3].len());
            } else if j == 4 {
                reveal_strlit("French (France)");
                reveal_strlit("German (Germany)");
                assert(n[0].len() != n[4].len());
            } else if j == 5 {
                reveal_strlit("French (France)");
                reveal_strlit("German (Switzerland)");
                assert(n[0].len() != n[5].len());
            } else if j == 6 {
                reveal_strlit("French (France)");
                reveal_strlit("German (Austria)");
                assert(n[0].len() != n[6].len());
            } else if j == 7 {
                reveal_strlit("French (France)");
                reveal_strlit("English (United States)");
                assert(n[0].len() != n[7].len());
            } else if j == 8 {
                reveal_strlit("French (France)");
                reveal_strlit("English (United Kingdom)");
                assert(n[0].len() != n[8].len());
            } else if j == 9 {
                reveal_strlit("French (France)");
                reveal_strlit("Spanish (Spain)");
                assert(n[0][0] != n[9][0]);
            } else if j == 10 {
                reveal_strlit("French (France)");
                reveal_strlit("Italian (Italy)");
                assert(n[0][0] != n[10][0]);
            } else if j == 11 {
                reveal_strlit("French (France)");
                reveal_strlit("Portuguese (Brazil)");
                assert(n[0].len() != n[11].len());
            } else if j == 12 {
                reveal_strlit("French (France)");
                reveal_strlit("Portuguese (Portugal)");
                assert(n[0].len() != n[12].len());
            } else if j == 13 {
                reveal_strlit("French (France)");
                reveal_strlit("Dutch (Netherlands)");
                assert(n[0].len() != n[13].len());
            } else if j == 14 {
                reveal_strlit("French (France)");
                reveal_strlit("Swedish (Sweden)");
                assert(n[0].len() != n[14].len());
            } else if j == 15 {
                reveal_strlit("French (France)");
                reveal_strlit("Danish (Denmark)");
                assert(n[0].len() != n[15].len());
            } else if j == 16 {
                reveal_strlit("French (France)");
                reveal_strlit("Norwegian Bokmal (Norway)");
                assert(n[0].len() != n[16].len());
            } else if j == 17 {
                reveal_strlit("French (France)");
                reveal_strlit("Finnish (Finland)");
                assert(n[0].len() != n[17].len());
            } else if j == 18 {
                reveal_strlit("French (France)");
                reveal_strlit("Polish (Poland)");
                assert(n[0][0] != n[18][0]);
            } else if j == 19 {
                reveal_strlit("French (France)");
                reveal_strlit("Japanese (Japan)");
                assert(n[0].len() != n[19].len());
            }
        } else if i == 1 {
            if j == 2 {
                reveal_strlit("French (Canada)");
                reveal_strlit("French (Belgium)");
                assert(n[1].len() != n[2].len());
            } else if j == 3 {
                reveal_strlit("French (Canada)");
                reveal_strlit("French (Switzerland)");
                assert(n[1].len() != n[3].len());
            } else if j == 4 {
                reveal_strlit("French (Canada)");
                reveal_strlit("German (Germany)");
                assert(n[1].len() != n[4].len());
            } else if j == 5 {
                reveal_strlit("French (Canada)");
                reveal_strlit("German (Switzerland)");
                assert(n[1].len() != n[5].len());
            } else if j == 6 {
                reveal_strlit("French (Canada)");
                reveal_strlit("German (Austria)");
                assert(n[1].len() != n[6].len());
            } else if j == 7 {
                reveal_strlit("French (Canada)");
                reveal_strlit("English (United States)");
                assert(n[1].len() != n[7].len());
            } else if j == 8 {
                reveal_strlit("French (Canada)");
                reveal_strlit("English (United Kingdom)");
                assert(n[1].len() != n[8].len());
            } else if j == 9 {
                reveal_strlit("French (Canada)");
                reveal_strlit("Spanish (Spain)");
                assert(n[1][0] != n[9][0]);
            } else if j == 10 {
                reveal_strlit("French (Canada)");
                reveal_strlit("Italian (Italy)");
                assert(n[1][0] != n[10][0]);
            } else if j == 11 {
                reveal_strlit("French (Canada)");
                reveal_strlit("Portuguese (Brazil)");
                assert(n[1].len() != n[11].len());
            } else if j == 12 {
                reveal_strlit("French (Canada)");
                reveal_strlit("Portuguese (Portugal)");
                assert(n[1].len() != n[12].len());
            } else if j == 13 {
                reveal_strlit("French (Canada)");
                reveal_strlit("Dutch (Netherlands)");
                assert(n[1].len() != n[13].len());
            } else if j == 14 {
                reveal_strlit("French (Canada)");
                reveal_strlit("Swedish (Sweden)");
                assert(n[1].len() != n[14].len());
            } else if j == 15 {
                reveal_strlit("French (Canada)");
                reveal_strlit("Danish (Denmark)");
                assert(n[1].len() != n[15].len());
            } else if j == 16 {
                reveal_strlit("French (Canada)");
                reveal_strlit("Norwegian Bokmal (Norway)");
                assert(n[1].len() != n[16].len());
            } else if j == 17 {
                reveal_strlit("French (Canada)");
                reveal_strlit("Finnish (Finland)");
                assert(n[1].len() != n[17].len());
            } else if j == 18 {
                reveal_strlit("French (Canada)");
                reveal_strlit("Polish (Poland)");
                assert(n[1][0] != n[18][0]);
            } else if j == 19 {
                reveal_strlit("French (Canada)");
                reveal_strlit("Japanese (Japan)");
                assert(n[1].len() != n[19].len());
            }
        } else if i == 2 {
            if j == 3 {
                reveal_strlit("French (Belgium)");
                reveal_strlit("French (Switzerland)");
                assert(n[2].len() != n[3].len());
            } else if j == 4 {
                reveal_strlit("French (Belgium)");
                reveal_strlit("German (Germany)");
                assert(n[2][0] != n[4][0]);
            } else if j == 5 {
                reveal_strlit("French (Belgium)");
                reveal_strlit("German (Switzerland)");
                assert(n[2].len() != n[5].len());
            } else if j == 6 {
                reveal_strlit("French (Belgium)");
                reveal_strlit("German (Austria)");
                assert(n[2][0] != n[6][0]);
            } else if j == 7 {
                reveal_strlit("French (Belgium)");
                reveal_strlit("English (United States)");
                assert(n[2].len() != n[7].len());
            } else if j == 8 {
                reveal_strlit("French (Belgium)");
                reveal_strlit("English (United Kingdom)");
                assert(n[2].len() != n[8].len());
            } else if j == 9 {
                reveal_strlit("French (Belgium)");
                reveal_strlit("Spanish (Spain)");
                assert(n[2].len() != n[9].len());
            } else if j == 10 {
                reveal_strlit("French (Belgium)");
                reveal_strlit("Italian (Italy)");
                assert(n[2].len() != n[10].len());
            } else if j == 11 {
                reveal_strlit("French (Belgium)");
                reveal_strlit("Portuguese (Brazil)");
                assert(n[2].len() != n[11].len());
            } else if j == 12 {
                reveal_strlit("French (Belgium)");
                reveal_strlit("Portuguese (Portugal)");
                assert(n[2].len() != n[12].len());
            } else if j == 13 {
                reveal_strlit("French (Belgium)");
                reveal_strlit("Dutch (Netherlands)");
                assert(n[2].len() != n[13].len());
            } else if j == 14 {
                reveal_strlit("French (Belgium)");
                reveal_strlit("Swedish (Sweden)");
                assert(n[2][0] != n[14][0]);
            } else if j == 15 {
                reveal_strlit("French (Belgium)");
                reveal_strlit("Danish (Denmark)");
                assert(n[2][0] != n[15][0]);
            } else if j == 16 {
                reveal_strlit("French (Belgium)");
                reveal_strlit("Norwegian Bokmal (Norway)");
                assert(n[2].len() != n[16].len());
            } else if j == 17 {
                reveal_strlit("French (Belgium)");
                reveal_strlit("Finnish (Finland)");
                assert(n[2].len() != n[17].len());
            } else if j == 18 {
                reveal_strlit("French (Belgium)");
                reveal_strlit("Polish (Poland)");
                assert(n[2].len() != n[18].len());
            } else if j == 19 {
                reveal_strlit("French (Belgium)");
                reveal_strlit("Japanese (Japan)");
                assert(n[2][0] != n[19][0]);
            }
        } else if i == 3 {
            if j == 4 {
                reveal_strlit("French (Switzerland)");
                reveal_strlit("German (Germany)");
                assert(n[3].len() != n[4].len());
            } else if j == 5 {
                reveal_strlit("French (Switzerland)");
                reveal_strlit("German (Switzerland)");
                assert(n[3][0] != n[5][0]);
            } else if j == 6 {
                reveal_strlit("French (Switzerland)");
                reveal_strlit("German (Austria)");
                assert(n[3].len() != n[6].len());
            } else if j == 7 {
                reveal_strlit("French (Switzerland)");
                reveal_strlit("English (United States)");
                assert(n[3].len() != n[7].len());
            } else if j == 8 {
                reveal_strlit("French (Switzerland)");
                reveal_strlit("English (United Kingdom)");
                assert(n[3].len() != n[8].len());
            } else if j == 9 {
                reveal_strlit("French (Switzerland)");
                reveal_strlit("Spanish (Spain)");
                assert(n[3].len() != n[9].len());
            } else if j == 10 {
                reveal_strlit("French (Switzerland)");
                reveal_strlit("Italian (Italy)");
                assert(n[3].len() != n[10].len());
            } else if j == 11 {
                reveal_strlit("French (Switzerland)");
                reveal_strlit("Portuguese (Brazil)");
                assert(n[3].len() != n[11].len());
            } else if j == 12 {
                reveal_strlit("French (Switzerland)");
                reveal_strlit("Portuguese (Portugal)");
                assert(n[3].len() != n[12].len());
            } else if j == 13 {
                reveal_strlit("French (Switzerland)");
                reveal_strlit("Dutch (Netherlands)");
                assert(n[3].len() != n[13].len());
            } else if j == 14 {
                reveal_strlit("French (Switzerland)");
                reveal_strlit("Swedish (Sweden)");
                assert(n[3].len() != n[14].len());
            } else if j == 15 {
                reveal_strlit("French (Switzerland)");
                reveal_strlit("Danish (Denmark)");
                assert(n[3].len() != n[15].len());
            } else if j == 16 {
                reveal_strlit("French (Switzerland)");
                reveal_strlit("Norwegian Bokmal (Norway)");
                assert(n[3].len() != n[16].len());
            } else if j == 17 {
                reveal_strlit("French (Switzerland)");
                reveal_strlit("Finnish (Finland)");
                assert(n[3].len() != n[17].len());
            } else if j == 18 {
                reveal_strlit("French (Switzerland)");
                reveal_strlit("Polish (Poland)");
                assert(n[3].len() != n[18].len());
            } else if j == 19 {
                reveal_strlit("French (Switzerland)");
                reveal_strlit("Japanese (Japan)");
                assert(n[3].len() != n[19].len());
            }
        } else if i == 4 {
            if j == 5 {
                reveal_strlit("German (Germany)");
                reveal_strlit("German (Switzerland)");
                assert(n[4].len() != n[5].len());
            } else if j == 6 {
                reveal_strlit("German (Germany)");
                reveal_strlit("German (Austria)");
                assert(n[4][8] != n[6][8]);
            } else if j == 7 {
                reveal_strlit("German (Germany)");
                reveal_strlit("English (United States)");
                assert(n[4].len() != n[7].len());
            } else if j == 8 {
                reveal_strlit("German (Germany)");
                reveal_strlit("English (United Kingdom)");
                assert(n[4].len() != n[8].len());
            } else if j == 9 {
                reveal_strlit("German (Germany)");
                reveal_strlit("Spanish (Spain)");
                assert(n[4].len() != n[9].len());
            } else if j == 10 {
                reveal_strlit("German (Germany)");
                reveal_strlit("Italian (Italy)");
                assert(n[4].len() != n[10].len());
            } else if j == 11 {
                reveal_strlit("German (Germany)");
                reveal_strlit("Portuguese (Brazil)");
                assert(n[4].len() != n[11].len());
            } else if j == 12 {
                reveal_strlit("German (Germany)");
                reveal_strlit("Portuguese (Portugal)");
                assert(n[4].len() != n[12].len());
            } else if j == 13 {
                reveal_strlit("German (Germany)");
                reveal_strlit("Dutch (Netherlands)");
                assert(n[4].len() != n[13].len());
            } else if j == 14 {
                reveal_strlit("German (Germany)");
                reveal_strlit("Swedish (Sweden)");
                assert(n[4][0] != n[14][0]);
            } else if j == 15 {
                reveal_strlit("German (Germany)");
                reveal_strlit("Danish (Denmark)");
                assert(n[4][0] != n[15][0]);
            } else if j == 16 {
                reveal_strlit("German (Germany)");
                reveal_strlit("Norwegian Bokmal (Norway)");
                assert(n[4].len() != n[16].len());
            } else if j == 17 {
                reveal_strlit("German (Germany)");
                reveal_strlit("Finnish (Finland)");
                assert(n[4].len() != n[17].len());
            } else if j == 18 {
                reveal_strlit("German (Germany)");
                reveal_strlit("Polish (Poland)");
                assert(n[4].len() != n[18].len());
            } else if j == 19 {
                reveal_strlit("German (Germany)");
                reveal_strlit("Japanese (Japan)");
                assert(n[4][0] != n[19][0]);
            }
        } else if i == 5 {
            if j == 6 {
                reveal_strlit("German (Switzerland)");
                reveal_strlit("German (Austria)");
                assert(n[5].len() != n[6].len());
            } else if j == 7 {
                reveal_strlit("German (Switzerland)");
                reveal_strlit("English (United States)");
                assert(n[5].len() != n[7].len());
            } else if j == 8 {
                reveal_strlit("German (Switzerland)");
                reveal_strlit("English (United Kingdom)");
                assert(n[5].len() != n[8].len());
            } else if j == 9 {
                reveal_strlit("German (Switzerland)");
                reveal_strlit("Spanish (Spain)");
                assert(n[5].len() != n[9].len());
            } else if j == 10 {
                reveal_strlit("German (Switzerland)");
                reveal_strlit("Italian (Italy)");
                assert(n[5].len() != n[10].len());
            } else if j == 11 {
                reveal_strlit("German (Switzerland)");
                reveal_strlit("Portuguese (Brazil)");
                assert(n[5].len() != n[11].len());
            } else if j == 12 {
                reveal_strlit("German (Switzerland)");
                reveal_strlit("Portuguese (Portugal)");
                assert(n[5].len() != n[12].len());
            } else if j == 13 {
                reveal_strlit("German (Switzerland)");
                reveal_strlit("Dutch (Netherlands)");
                assert(n[5].len() != n[13].len());
            } else if j == 14 {
                reveal_strlit("German (Switzerland)");
                reveal_strlit("Swedish (Sweden)");
                assert(n[5].len() != n[14].len());
            } else if j == 15 {
                reveal_strlit("German (Switzerland)");
                reveal_strlit("Danish (Denmark)");
                assert(n[5].len() != n[15].len());
            } else if j == 16 {
                reveal_strlit("German (Switzerland)");
                reveal_strlit("Norwegian Bokmal (Norway)");
                assert(n[5].len() != n[16].len());
            } else if j == 17 {
                reveal_strlit("German (Switzerland)");
                reveal_strlit("Finnish (Finland)");
                assert(n[5].len() != n[17].len());
            } else if j == 18 {
                reveal_strlit("German (Switzerland)");
                reveal_strlit("Polish (Poland)");
                assert(n[5].len() != n[18].len());
            } else if j == 19 {
                reveal_strlit("German (Switzerland)");
                reveal_strlit("Japanese (Japan)");
                assert(n[5].len() != n[19].len());
            }
        } else if i == 6 {
            if j == 7 {
                reveal_strlit("German (Austria)");
                reveal_strlit("English (United States)");
                assert(n[6].len() != n[7].len());
            } else if j == 8 {
                reveal_strlit("German (Austria)");
                reveal_strlit("English (United Kingdom)");
                assert(n[6].len() != n[8].len());
            } else if j == 9 {
                reveal_strlit("German (Austria)");
                reveal_strlit("Spanish (Spain)");
                assert(n[6].len() != n[9].len());
            } else if j == 10 {
                reveal_strlit("German (Austria)");
                reveal_strlit("Italian (Italy)");
                assert(n[6].len() != n[10].len());
            } else if j == 11 {
                reveal_strlit("German (Austria)");
                reveal_strlit("Portuguese (Brazil)");
                assert(n[6].len() != n[11].len());
            } else if j == 12 {
                reveal_strlit("German (Austria)");
                reveal_strlit("Portuguese (Portugal)");
                assert(n[6].len() != n[12].len());
            } else if j == 13 {
                reveal_strlit("German (Austria)");
                reveal_strlit("Dutch (Netherlands)");
                assert(n[6].len() != n[13].len());
            } else if j == 14 {
                reveal_strlit("German (Austria)");
                reveal_strlit("Swedish (Sweden)");
                assert(n[6][0] != n[14][0]);
            } else if j == 15 {
                reveal_strlit("German (Austria)");
                reveal_strlit("Danish (Denmark)");
                assert(n[6][0] != n[15][0]);
            } else if j == 16 {
                reveal_strlit("German (Austria)");
                reveal_strlit("Norwegian Bokmal (Norway)");
                assert(n[6].len() != n[16].len());
            } else if j == 17 {
                reveal_strlit("German (Austria)");
                reveal_strlit("Finnish (Finland)");
                assert(n[6].len() != n[17].len());
            } else if j == 18 {
                reveal_strlit("German (Austria)");
                reveal_strlit("Polish (Poland)");
                assert(n[6].len() != n[18].len());
            } else if j == 19 {
                reveal_strlit("German (Austria)");
                reveal_strlit("Japanese (Japan)");
                assert(n[6][0] != n[19][0]);
            }
        } else if i == 7 {
            if j == 8 {
                reveal_strlit("English (United States)");
                reveal_strlit("English (United Kingdom)");
                assert(n[7].len() != n[8].len());
            } else if j == 9 {
                reveal_strlit("English (United States)");
                reveal_strlit("Spanish (Spain)");
                assert(n[7].len() != n[9].len());
            } else if j == 10 {
                reveal_strlit("English (United States)");
                reveal_strlit("Italian (Italy)");
                assert(n[7].len() != n[10].len());
            } else if j == 11 {
                reveal_strlit("English (United States)");
                reveal_strlit("Portuguese (Brazil)");
                assert(n[7].len() != n[11].len());
            } else if j == 12 {
                reveal_strlit("English (United States)");
                reveal_strlit("Portuguese (Portugal)");
                assert(n[7].len() != n[12].len());
            } else if j == 13 {
                reveal_strlit("English (United States)");
                reveal_strlit("Dutch (Netherlands)");
                assert(n[7].len() != n[13].len());
            } else if j == 14 {
                reveal_strlit("English (United States)");
                reveal_strlit("Swedish (Sweden)");
                assert(n[7].len() != n[14].len());
            } else if j == 15 {
                reveal_strlit("English (United States)");
                reveal_strlit("Danish (Denmark)");
                assert(n[7].len() != n[15].len());
            } else if j == 16 {
                reveal_strlit("English (United States)");
                reveal_strlit("Norwegian Bokmal (Norway)");
                assert(n[7].len() != n[16].len());
            } else if j == 17 {
                reveal_strlit("English (United States)");
                reveal_strlit("Finnish (Finland)");
                assert(n[7].len() != n[17].len());
            } else if j == 18 {
                reveal_strlit("English (United States)");
                reveal_strlit("Polish (Poland)");
                assert(n[7].len() != n[18].len());
            } else if j == 19 {
                reveal_strlit("English (United States)");
                reveal_strlit("Japanese (Japan)");
                assert(n[7].len() != n[19].len());
            }
        } else if i == 8 {
            if j == 9 {
                reveal_strlit("English (United Kingdom)");
                reveal_strlit("Spanish (Spain)");
                assert(n[8].len() != n[9].len());
            } else if j == 10 {
                reveal_strlit("English (United Kingdom)");
                reveal_strlit("Italian (Italy)");
                assert(n[8].len() != n[10].len());
            } else if j == 11 {
                reveal_strlit("English (United Kingdom)");
                reveal_strlit("Portuguese (Brazil)");
                assert(n[8].len() != n[11].len());
            } else if j == 12 {
                reveal_strlit("English (United Kingdom)");
                reveal_strlit("Portuguese (Portugal)");
                assert(n[8].len() != n[12].len());
            } else if j == 13 {
                reveal_strlit("English (United Kingdom)");
                reveal_strlit("Dutch (Netherlands)");
                assert(n[8].len() != n[13].len());
            } else if j == 14 {
                reveal_strlit("English (United Kingdom)");
                reveal_strlit("Swedish (Sweden)");
                assert(n[8].len() != n[14].len());
            } else if j == 15 {
                reveal_strlit("English (United Kingdom)");
                reveal_strlit("Danish (Denmark)");
                assert(n[8].len() != n[15].len());
            } else if j == 16 {
                reveal_strlit("English (United Kingdom)");
                reveal_strlit("Norwegian Bokmal (Norway)");
                assert(n[8].len() != n[16].len());
            } else if j == 17 {
                reveal_strlit("English (United Kingdom)");
                reveal_strlit("Finnish (Finland)");
                assert(n[8].len() != n[17].len());
            } else if j == 18 {
                reveal_strlit("English (United Kingdom)");
                reveal_strlit("Polish (Poland)");
                assert(n[8].len() != n[18].len());
            } else if j == 19 {
                reveal_strlit("English (United Kingdom)");
                reveal_strlit("Japanese (Japan)");
                assert(n[8].len() != n[19].len());
            }
        } else if i == 9 {
            if j == 10 {
                reveal_strlit("Spanish (Spain)");
                reveal_strlit("Italian (Italy)");
                assert(n[9][0] != n[10][0]);
            } else if j == 11 {
                reveal_strlit("Spanish (Spain)");
                reveal_strlit("Portuguese (Brazil)");
                assert(n[9].len() != n[11].len());
            } else if j == 12 {
                reveal_strlit("Spanish (Spain)");
                reveal_strlit("Portuguese (Portugal)");
                assert(n[9].len() != n[12].len());
            } else if j == 13 {
                reveal_strlit("Spanish (Spain)");
                reveal_strlit("Dutch (Netherlands)");
                assert(n[9].len() != n[13].len());
            } else if j == 14 {
                reveal_strlit("Spanish (Spain)");
                reveal_strlit("Swedish (Sweden)");
                assert(n[9].len() != n[14].len());
            } else if j == 15 {
                reveal_strlit("Spanish (Spain)");
                reveal_strlit("Danish (Denmark)");
                assert(n[9].len() != n[15].len());
            } else if j == 16 {
                reveal_strlit("Spanish (Spain)");
                reveal_strlit("Norwegian Bokmal (Norway)");
                assert(n[9].len() != n[16].len());
            } else if j == 17 {
                reveal_strlit("Spanish (Spain)");
                reveal_strlit("Finnish (Finland)");
                assert(n[9].len() != n[17].len());
            } else if j == 18 {
                reveal_strlit("Spanish (Spain)");
                reveal_strlit("Polish (Poland)");
                assert(n[9][0] != n[18][0]);
            } else if j == 19 {
                reveal_strlit("Spanish (Spain)");
                reveal_strlit("Japanese (Japan)");
                assert(n[9].len() != n[19].len());
            }
        } else if i == 10 {
            if j == 11 {
                reveal_strlit("Italian (Italy)");
                reveal_strlit("Portuguese (Brazil)");
                assert(n[10].len() != n[11].len());
            } else if j == 12 {
                reveal_strlit("Italian (Italy)");
                reveal_strlit("Portuguese (Portugal)");
                assert(n[10].len() != n[12].len());
            } else if j == 13 {
                reveal_strlit("Italian (Italy)");
                reveal_strlit("Dutch (Netherlands)");
                assert(n[10].len() != n[13].len());
            } else if j == 14 {
                reveal_strlit("Italian (Italy)");
                reveal_strlit("Swedish (Sweden)");
                assert(n[10].len() != n[14].len());
            } else if j == 15 {
                reveal_strlit("Italian (Italy)");
                reveal_strlit("Danish (Denmark)");
                assert(n[10].len() != n[15].len());
            } else if j == 16 {
                reveal_strlit("Italian (Italy)");
                reveal_strlit("Norwegian Bokmal (Norway)");
                assert(n[10].len() != n[16].len());
            } else if j == 17 {
                reveal_strlit("Italian (Italy)");
                reveal_strlit("Finnish (Finland)");
                assert(n[10].len() != n[17].len());
            } else if j == 18 {
                reveal_strlit("Italian (Italy)");
                reveal_strlit("Polish (Poland)");
                assert(n[10][0] != n[18][0]);
            } else if j == 19 {
                reveal_strlit("Italian (Italy)");
                reveal_strlit("Japanese (Japan)");
                assert(n[10].len() != n[19].len());
            }
        } else if i == 11 {
            if j == 12 {
                reveal_strlit("Portuguese (Brazil)");
                reveal_strlit("Portuguese (Portugal)");
                assert(n[11].len() != n[12].len());
            } else if j == 13 {
                reveal_strlit("Portuguese (Brazil)");
                reveal_strlit("Dutch (Netherlands)");
                assert(n[11][0] != n[13][0]);
            } else if j == 14 {
                reveal_strlit("Portuguese (Brazil)");
                reveal_strlit("Swedish (Sweden)");
                assert(n[11].len() != n[14].len());
            } else if j == 15 {
                reveal_strlit("Portuguese (Brazil)");
                reveal_strlit("Danish (Denmark)");
                assert(n[11].len() != n[15].len());
            } else if j == 16 {
                reveal_strlit("Portuguese (Brazil)");
                reveal_strlit("Norwegian Bokmal (Norway)");
                assert(n[11].len() != n[16].len());
            } else if j == 17 {
                reveal_strlit("Portuguese (Brazil)");
                reveal_strlit("Finnish (Finland)");
                assert(n[11].len() != n[17].len());
            } else if j == 18 {
                reveal_strlit("Portuguese (Brazil)");
                reveal_strlit("Polish (Poland)");
                assert(n[11].len() != n[18].len());
            } else if j == 19 {
                reveal_strlit("Portuguese (Brazil)");
                reveal_strlit("Japanese (Japan)");
                assert(n[11].len() != n[19].len());
            }
        } else if i == 12 {
            if j == 13 {
                reveal_strlit("Portuguese (Portugal)");
                reveal_strlit("Dutch (Netherlands)");
                assert(n[12].len() != n[13].len());
            } else if j == 14 {
                reveal_strlit("Portuguese (Portugal)");
                reveal_strlit("Swedish (Sweden)");
                assert(n[12].len() != n[14].len());
            } else if j == 15 {
                reveal_strlit("Portuguese (Portugal)");
                reveal_strlit("Danish (Denmark)");
                assert(n[12].len() != n[15].len());
            } else if j == 16 {
                reveal_strlit("Portuguese (Portugal)");
                reveal_strlit("Norwegian Bokmal (Norway)");
                assert(n[12].len() != n[16].len());
            } else if j == 17 {
                reveal_strlit("Portuguese (Portugal)");
                reveal_strlit("Finnish (Finland)");
                assert(n[12].len() != n[17].len());
            } else if j == 18 {
                reveal_strlit("Portuguese (Portugal)");
                reveal_strlit("Polish (Poland)");
                assert(n[12].len() != n[18].len());
            } else if j == 19 {
                reveal_strlit("Portuguese (Portugal)");
                reveal_strlit("Japanese (Japan)");
                assert(n[12].len() != n[19].len());
            }
        } else if i == 13 {
            if j == 14 {
                reveal_strlit("Dutch (Netherlands)");
                reveal_strlit("Swedish (Sweden)");
                assert(n[13].len() != n[14].len());
            } else if j == 15 {
                reveal_strlit("Dutch (Netherlands)");
                reveal_strlit("Danish (Denmark)");
                assert(n[13].len() != n[15].len());
            } else if j == 16 {
                reveal_strlit("Dutch (Netherlands)");
                reveal_strlit("Norwegian Bokmal (Norway)");
                assert(n[13].len() != n[16].len());
            } else if j == 17 {
                reveal_strlit("Dutch (Netherlands)");
                reveal_strlit("Finnish (Finland)");
                assert(n[13].len() != n[17].len());
            } else if j == 18 {
                reveal_strlit("Dutch (Netherlands)");
                reveal_strlit("Polish (Poland)");
                assert(n[13].len() != n[18].len());
            } else if j == 19 {
                reveal_strlit("Dutch (Netherlands)");
                reveal_strlit("Japanese (Japan)");
                assert(n[13].len() != n[19].len());
            }
        } else if i == 14 {
            if j == 15 {
                reveal_strlit("Swedish (Sweden)");
                reveal_strlit("Danish (Denmark)");
                assert(n[14][0] != n[15][0]);
            } else if j == 16 {
                reveal_strlit("Swedish (Sweden)");
                reveal_strlit("Norwegian Bokmal (Norway)");
                assert(n[14].len() != n[16].len());
            } else if j == 17 {
                reveal_strlit("Swedish (Sweden)");
                reveal_strlit("Finnish (Finland)");
                assert(n[14].len() != n[17].len());
            } else if j == 18 {
                reveal_strlit("Swedish (Sweden)");
                reveal_strlit("Polish (Poland)");
                assert(n[14].len() != n[18].len());
            } else if j == 19 {
                reveal_strlit("Swedish (Sweden)");
                reveal_strlit("Japanese (Japan)");
                assert(n[14][0] != n[19][0]);
            }
        } else if i == 15 {
            if j == 16 {
                reveal_strlit("Danish (Denmark)");
                reveal_strlit("Norwegian Bokmal (Norway)");
                assert(n[15].len() != n[16].len());
            } else if j == 17 {
                reveal_strlit("Danish (Denmark)");
                reveal_strlit("Finnish (Finland)");
                assert(n[15].len() != n[17].len());
            } else if j == 18 {
                reveal_strlit("Danish (Denmark)");
                reveal_strlit("Polish (Poland)");
                assert(n[15].len() != n[18].len());
            } else if j == 19 {
                reveal_strlit("Danish (Denmark)");
                reveal_strlit("Japanese (Japan)");
                assert(n[15][0] != n[19][0]);
            }
        } else if i == 16 {
            if j == 17 {
                reveal_strlit("Norwegian Bokmal (Norway)");
                reveal_strlit("Finnish (Finland)");
                assert(n[16].len() != n[17].len());
            } else if j == 18 {
                reveal_strlit("Norwegian Bokmal (Norway)");
                reveal_strlit("Polish (Poland)");
                assert(n[16].len() != n[18].len());
            } else if j == 19 {
                reveal_strlit("Norwegian Bokmal (Norway)");
                reveal_strlit("Japanese (Japan)");
                assert(n[16].len() != n[19].len());
            }
        } else if i == 17 {
            if j == 18 {
                reveal_strlit("Finnish (Finland)");
                reveal_strlit("Polish (Poland)");
                assert(n[17].len() != n[18].len());
            } else if j == 19 {
                reveal_strlit("Finnish (Finland)");
                reveal_strlit("Japanese (Japan)");
                assert(n[17].len() != n[19].len());
            }
        } else if i == 18 {
            if j == 19 {
                reveal_strlit("Polish (Poland)");
                reveal_strlit("Japanese (Japan)");
                assert(n[18].len() != n[19].len());
            }
        }
}

/// Each listed locale tag is named by its documented language name, no two
/// listed tags share a name, and any other tag is named as US English.
pub proof fn locale_names_as_documented(loc: Seq<char>)
    ensures
        named_locales().len() == documented_language_names().len(),
        forall|i: int|
            0 <= i < named_locales().len() ==> display_name(#[trigger] named_locales()[i])
                == documented_language_names()[i],
        forall|i: int, j: int|
            0 <= i < j < named_locales().len() ==> #[trigger] documented_language_names()[i]
                != #[trigger] documented_language_names()[j],
        !named_locales().contains(loc) ==> display_name(loc) == "English (United States)"@,
{
    let t = named_locales();
    let n = documented_language_names();
    assert forall|i: int| 0 <= i < t.len() implies display_name(#[trigger] t[i]) == n[i] by {
        lemma_named_locale(i);
    }
    assert forall|i: int, j: int| 0 <= i < j < t.len() implies #[trigger] n[i] != #[trigger] n[j] by {
        lemma_names_differ(i, j);
    }
    if !t.contains(loc) {
        assert forall|i: int| 0 <= i < t.len() implies t[i] != loc by {
            if t[i] == loc {
                assert(t.contains(loc));
            }
        }
        assert(t[0] != loc && t[1] != loc && t[2] != loc && t[3] != loc && t[4] != loc);
        assert(t[5] != loc && t[6] != loc && t[7] != loc && t[8] != loc && t[9] != loc);
        assert(t[10] != loc && t[11] != loc && t[12] != loc && t[13] != loc && t[14] != loc);
        assert(t[15] != loc && t[16] != loc && t[17] != loc && t[18] != loc && t[19] != loc);
    }
}

/// The .klc text ends with the LANGUAGENAMES line that names the language
/// of the layout's own locale, then the end marker.
pub proof fn klc_names_the_locale_language(l: Layout)
    ensures
        ({
            let s = "\nLANGUAGENAMES\n\n"@ + line("0409\t"@ + display_name(l.locale@)) + "\nENDKBD\n"@;
            klc_text(l).len() >= s.len() && klc_text(l).skip(klc_text(l).len() - s.len()) == s
        }),
{
    let s = "\nLANGUAGENAMES\n\n"@ + line("0409\t"@ + display_name(l.locale@)) + "\nENDKBD\n"@;
    let before = klc_text(l).take(klc_text(l).len() - klc_tail(l).len());
    assert(klc_text(l) =~= before + klc_tail(l));
    let d = "DESCRIPTIONS\n\n"@ + line("0409\t"@ + layout_name(l));
    assert(klc_tail(l) =~= d + s);
    assert(klc_text(l).skip(klc_text(l).len() - s.len()) =~= s);
}

// ── Entry order ──────────────────────────────────────────────────────────────

/// The character views of a key mapping's fields.
pub open spec fn mapping_view(km: KeyMapping) -> (
    Seq<char>,
    Seq<char>,
    Seq<char>,
    Seq<char>,
    Seq<char>,
    Seq<char>,
    Seq<char>,
) {
    (km.vk@, km.cap@, km.base@, km.shift@, km.ctrl@, km.altgr@, km.altgr_shift@)
}

/// The key map's entries by view: scancode text and mapping.
pub open spec fn key_entries(l: Layout) -> Seq<
    (Seq<char>, (Seq<char>, Seq<char>, Seq<char>, Seq<char>, Seq<char>, Seq<char>, Seq<char>)),
> {
    l.keys@.map_values(|e: (String, KeyMapping)| (e.0@, mapping_view(e.1)))
}

/// The dead-key map's entries by view: code, name, and the combinations as
/// a set of entries.
pub open spec fn dead_key_entries(l: Layout) -> Seq<(Seq<char>, Seq<char>, Set<(Seq<char>, Seq<char>)>)> {
    l.dead_keys@.map_values(
        |e: (String, DeadKey)| (e.0@, e.1.name@, text_map_view(e.1.combinations@).to_set()),
    )
}

/// No two key-map entries name the same scancode value.
pub open spec fn scancodes_distinct(l: Layout) -> bool {
    no_dups(key_values(l))
}

proof fn lemma_key_rows_agree(l1: Layout, l2: Layout, o1: Seq<int>, o2: Seq<int>)
    requires
        o1.len() == o2.len(),
        forall|i: int|
            0 <= i < o1.len() ==> key_row(l1.keys@[#[trigger] o1[i]].0@, l1.keys@[o1[i]].1)
                == key_row(l2.keys@[o2[i]].0@, l2.keys@[o2[i]].1),
    ensures
        key_rows(l1, o1) == key_rows(l2, o2),
    decreases o1.len(),
{
    if o1.len() > 0 {
        lemma_key_rows_agree(l1, l2, o1.drop_last(), o2.drop_last());
        assert(o1.last() == o1[o1.len() - 1]);
    }
}

proof fn lemma_combo_rows_agree(d1: DeadKey, d2: DeadKey, o1: Seq<int>, o2: Seq<int>)
    requires
        o1.len() == o2.len(),
        forall|i: int|
            0 <= i < o1.len() ==> d1.combinations@[#[trigger] o1[i]].0@
                == d2.combinations@[o2[i]].0@ && d1.combinations@[o1[i]].1@
                == d2.combinations@[o2[i]].1@,
    ensures
        combo_rows(d1, o1) == combo_rows(d2, o2),
    decreases o1.len(),
{
    if o1.len() > 0 {
        lemma_combo_rows_agree(d1, d2, o1.drop_last(), o2.drop_last());
        assert(o1.last() == o1[o1.len() - 1]);
    }
}

proof fn lemma_dead_key_rows_agree(l1: Layout, l2: Layout, o1: Seq<int>, o2: Seq<int>)
    requires
        o1.len() == o2.len(),
        forall|i: int|
            0 <= i < o1.len() ==> l1.dead_keys@[#[trigger] o1[i]].0@ == l2.dead_keys@[o2[i]].0@
                && l1.dead_keys@[o1[i]].1.name@ == l2.dead_keys@[o2[i]].1.name@
                && dead_key_section(l1.dead_keys@[o1[i]].0@, l1.dead_keys@[o1[i]].1)
                == dead_key_section(l2.dead_keys@[o2[i]].0@, l2.dead_keys@[o2[i]].1),
    ensures
        dead_key_sections(l1, o1) == dead_key_sections(l2, o2),
        dead_key_name_rows(l1, o1) == dead_key_name_rows(l2, o2),
    decreases o1.len(),
{
    if o1.len() > 0 {
        lemma_dead_key_rows_agree(l1, l2, o1.drop_last(), o2.drop_last());
        assert(o1.last() == o1[o1.len() - 1]);
    }
}

/// A map's key texts hold no repeat when its keys are distinct.
proof fn lemma_distinct_key_texts<V>(m: Seq<(String, V)>)
    requires
        keys_distinct(m),
    ensures
        no_dups(m.map_values(|e: (String, V)| e.0@)),
{
    let t = m.map_values(|e: (String, V)| e.0@);
    assert forall|i: int, j: int| 0 <= i < j < t.len() implies #[trigger] t[i] != #[trigger] t[j] by {
        assert(m[i].0@ != m[j].0@);
    }
}

/// A dead key's combination rows do not depend on the order of its entries.
proof fn lemma_combo_rows_reorder(d1: DeadKey, d2: DeadKey)
    requires
        d1.wf(),
        d2.wf(),
        text_map_view(d1.combinations@).to_set() == text_map_view(d2.combinations@).to_set(),
    ensures
        combo_rows(d1, combo_order(d1)) == combo_rows(d2, combo_order(d2)),
{
    let k1 = combo_bases(d1);
    let k2 = combo_bases(d2);
    let v1 = text_map_view(d1.combinations@);
    let v2 = text_map_view(d2.combinations@);
    lemma_distinct_key_texts(d1.combinations@);
    lemma_distinct_key_texts(d2.combinations@);
    assert forall|x: Seq<char>| k1.contains(x) <==> k2.contains(x) by {
        if k1.contains(x) {
            let a = choose|m: int| 0 <= m < k1.len() && k1[m] == x;
            let b = lemma_same_entries_witness(v1, v2, a);
            assert(k2[b] == x);
        }
        if k2.contains(x) {
            let a = choose|m: int| 0 <= m < k2.len() && k2[m] == x;
            let b = lemma_same_entries_witness(v2, v1, a);
            assert(k1[b] == x);
        }
    }
    text_order_is_total_preorder();
    text_order_is_antisymmetric();
    sorted_orders_agree(k1, k2, text_order());
    lemma_sorted_order_indices(k1, text_order());
    lemma_sorted_order_indices(k2, text_order());
    let o1 = combo_order(d1);
    let o2 = combo_order(d2);
    assert forall|i: int| 0 <= i < o1.len() implies d1.combinations@[#[trigger] o1[i]].0@
        == d2.combinations@[o2[i]].0@ && d1.combinations@[o1[i]].1@
        == d2.combinations@[o2[i]].1@ by {
        let a = o1[i];
        let b = lemma_same_entries_witness(v1, v2, a);
        assert(k1[a] == k2[o2[i]]);
        assert(k2[b] == k1[a]);
        if b != o2[i] {
            if b < o2[i] {
                assert(k2[b] != k2[o2[i]]);
            } else {
                assert(k2[o2[i]] != k2[b]);
            }
        }
    }
    lemma_combo_rows_agree(d1, d2, o1, o2);
}

/// The key rows do not depend on the order of the key map's entries.
proof fn lemma_key_rows_reorder(l1: Layout, l2: Layout)
    requires
        keys_distinct(l1.keys@),
        keys_distinct(l2.keys@),
        key_entries(l1).to_set() == key_entries(l2).to_set(),
        scancodes_distinct(l1),
    ensures
        key_rows(l1, key_order(l1)) == key_rows(l2, key_order(l2)),
{
    let k1 = key_values(l1);
    let k2 = key_values(l2);
    let v1 = key_entries(l1);
    let v2 = key_entries(l2);
    assert forall|i: int, j: int| 0 <= i < j < k2.len() implies #[trigger] k2[i] != #[trigger] k2[j] by {
        let a = lemma_same_entries_witness(v2, v1, i);
        let b = lemma_same_entries_witness(v2, v1, j);
        if k2[i] == k2[j] {
            assert(k1[a] == k2[i]);
            assert(k1[b] == k2[j]);
            if a < b {
                assert(k1[a] != k1[b]);
            } else if b < a {
                assert(k1[b] != k1[a]);
            }
            assert(l2.keys@[i].0@ != l2.keys@[j].0@);
        }
    }
    assert forall|x: nat| k1.contains(x) <==> k2.contains(x) by {
        if k1.contains(x) {
            let a = choose|m: int| 0 <= m < k1.len() && k1[m] == x;
            let b = lemma_same_entries_witness(v1, v2, a);
            assert(k2[b] == x);
        }
        if k2.contains(x) {
            let a = choose|m: int| 0 <= m < k2.len() && k2[m] == x;
            let b = lemma_same_entries_witness(v2, v1, a);
            assert(k1[b] == x);
        }
    }
    nat_order_is_total_preorder();
    assert forall|a: nat, b: nat| #[trigger] nat_le()(a, b) && #[trigger] nat_le()(b, a) implies a
        == b by {}
    sorted_orders_agree(k1, k2, nat_le());
    keys_ordered_by_scancode(l1);
    keys_ordered_by_scancode(l2);
    let o1 = key_order(l1);
    let o2 = key_order(l2);
    assert forall|i: int| 0 <= i < o1.len() implies key_row(
        l1.keys@[#[trigger] o1[i]].0@,
        l1.keys@[o1[i]].1,
    ) == key_row(l2.keys@[o2[i]].0@, l2.keys@[o2[i]].1) by {
        let a = o1[i];
        let b = lemma_same_entries_witness(v1, v2, a);
        assert(k1[a] == k2[o2[i]]);
        assert(k2[b] == k1[a]);
        if b != o2[i] {
            if b < o2[i] {
                assert(k2[b] != k2[o2[i]]);
            } else {
                assert(k2[o2[i]] != k2[b]);
            }
        }
        assert(mapping_view(l1.keys@[a].1) == mapping_view(l2.keys@[b].1));
    }
    lemma_key_rows_agree(l1, l2, o1, o2);
}

/// The DEADKEY sections and KEYNAME_DEAD rows do not depend on the order of
/// the dead-key map's entries or of their combinations.
proof fn lemma_dead_key_rows_reorder(l1: Layout, l2: Layout)
    requires
        l1.wf(),
        l2.wf(),
        dead_key_entries(l1).to_set() == dead_key_entries(l2).to_set(),
    ensures
        dead_key_sections(l1, dead_key_order(l1)) == dead_key_sections(l2, dead_key_order(l2)),
        dead_key_name_rows(l1, dead_key_order(l1)) == dead_key_name_rows(l2, dead_key_order(l2)),
{
    let k1 = dead_key_codes(l1);
    let k2 = dead_key_codes(l2);
    let v1 = dead_key_entries(l1);
    let v2 = dead_key_entries(l2);
    lemma_distinct_key_texts(l1.dead_keys@);
    lemma_distinct_key_texts(l2.dead_keys@);
    assert forall|x: Seq<char>| k1.contains(x) <==> k2.contains(x) by {
        if k1.contains(x) {
            let a = choose|m: int| 0 <= m < k1.len() && k1[m] == x;
            let b = lemma_same_entries_witness(v1, v2, a);
            assert(k2[b] == x);
        }
        if k2.contains(x) {
            let a = choose|m: int| 0 <= m < k2.len() && k2[m] == x;
            let b = lemma_same_entries_witness(v2, v1, a);
            assert(k1[b] == x);
        }
    }
    text_order_is_total_preorder();
    text_order_is_antisymmetric();
    sorted_orders_agree(k1, k2, text_order());
    dead_keys_ordered_by_code(l1);
    dead_keys_ordered_by_code(l2);
    let o1 = dead_key_order(l1);
    let o2 = dead_key_order(l2);
    assert forall|i: int| 0 <= i < o1.len() implies l1.dead_keys@[#[trigger] o1[i]].0@
        == l2.dead_keys@[o2[i]].0@ && l1.dead_keys@[o1[i]].1.name@ == l2.dead_keys@[o2[i]].1.name@
        && dead_key_section(l1.dead_keys@[o1[i]].0@, l1.dead_keys@[o1[i]].1) == dead_key_section(
        l2.dead_keys@[o2[i]].0@,
        l2.dead_keys@[o2[i]].1,
    ) by {
        let a = o1[i];
        let b = lemma_same_entries_witness(v1, v2, a);
        assert(k1[a] == k2[o2[i]]);
        assert(k2[b] == k1[a]);
        if b != o2[i] {
            if b < o2[i] {
                assert(k2[b] != k2[o2[i]]);
            } else {
                assert(k2[o2[i]] != k2[b]);
            }
        }
        let d1 = l1.dead_keys@[a].1;
        let d2 = l2.dead_keys@[b].1;
        assert(d1.wf());
        assert(d2.wf());
        lemma_combo_rows_reorder(d1, d2);
    }
    lemma_dead_key_rows_agree(l1, l2, o1, o2);
}

/// The .klc text does not depend on the order in which the layout's maps
/// hold their entries: two well-formed layouts with the same id, DLL name,
/// locale and locale id, and with the same entries in their name, key and
/// dead-key maps (each dead key with the same name and combinations), give
/// the same text, as long as no two keys name the same scancode value.
pub proof fn klc_ignores_map_order(l1: Layout, l2: Layout)
    requires
        l1.wf(),
        l2.wf(),
        scancodes_distinct(l1),
        l1.id@ == l2.id@,
        l1.dll_name@ == l2.dll_name@,
        l1.locale@ == l2.locale@,
        l1.locale_id@ == l2.locale_id@,
        text_map_view(l1.name@).to_set() == text_map_view(l2.name@).to_set(),
        key_entries(l1).to_set() == key_entries(l2).to_set(),
        dead_key_entries(l1).to_set() == dead_key_entries(l2).to_set(),
    ensures
        klc_text(l1) == klc_text(l2),
{
    lemma_lookup_same_entries(l1.name@, l2.name@, seq!['e', 'n']);
    assert(layout_name(l1) == layout_name(l2));
    lemma_key_rows_reorder(l1, l2);
    lemma_dead_key_rows_reorder(l1, l2);
}

// ── Executable code ──────────────────────────────────────────────────────────

/// `char::from_u32`: the character of a Unicode scalar value.
#[verifier::external_body]
fn char_from_u32(v: u32) -> (r: Option<char>)
    ensures
        r is Some <==> (v <= 0x10ffff && !(0xd800 <= v && v <= 0xdfff)),
        r matches Some(c) ==> c as u32 == v,
{
    char::from_u32(v)
}

fn push_line(out: &mut String, s: &str)
    ensures
        final(out)@ == old(out)@ + line(s@),
{
    crate::text::append_line(out, s);
}

/// Try to convert a 4-hex-digit codepoint string to a char.
fn codepoint_to_char(hex: &str) -> (r: Option<char>)
    ensures
        r == codepoint_char(hex@),
{
    match parse_hex(&chars_of(hex), 0xffff_ffff) {
        Some(v) => {
            let r = char_from_u32(v);
            proof {
                if let Some(c) = r {
                    vstd::utf8::char_u32_cast(c, v);
                }
            }
            r
        },
        None => None,
    }
}

/// Map a BCP-47 locale tag to a human-readable language name.
fn locale_display_name(locale: &str) -> (r: &'static str)
    ensures
        r@ == display_name(locale@),
{
    if str_eq(locale, "fr-FR") {
        "French (France)"
    } else if str_eq(locale, "fr-CA") {
        "French (Canada)"
    } else if str_eq(locale, "fr-BE") {
        "French (Belgium)"
    } else if str_eq(locale, "fr-CH") {
        "French (Switzerland)"
    } else if str_eq(locale, "de-DE") {
        "German (Germany)"
    } else if str_eq(locale, "de-CH") {
        "German (Switzerland)"
    } else if str_eq(locale, "de-AT") {
        "German (Austria)"
    } else if str_eq(locale, "en-US") {
        "English (United States)"
    } else if str_eq(locale, "en-GB") {
        "English (United Kingdom)"
    } else if str_eq(locale, "es-ES") {
        "Spanish (Spain)"
    } else if str_eq(locale, "it-IT") {
        "Italian (Italy)"
    } else if str_eq(locale, "pt-BR") {
        "Portuguese (Brazil)"
    } else if str_eq(locale, "pt-PT") {
        "Portuguese (Portugal)"
    } else if str_eq(locale, "nl-NL") {
        "Dutch (Netherlands)"
    } else if str_eq(locale, "sv-SE") {
        "Swedish (Sweden)"
    } else if str_eq(locale, "da-DK") {
        "Danish (Denmark)"
    } else if str_eq(locale, "nb-NO") {
        "Norwegian Bokmal (Norway)"
    } else if str_eq(locale, "fi-FI") {
        "Finnish (Finland)"
    } else if str_eq(locale, "pl-PL") {
        "Polish (Poland)"
    } else if str_eq(locale, "ja-JP") {
        "Japanese (Japan)"
    } else {
        "English (United States)"
    }
}

/// Appends the LAYOUT rows of all keys, ordered by scancode value.
fn emit_key_rows(out: &mut String, layout: &Layout)
    ensures
        final(out)@ == old(out)@ + key_rows(*layout, key_order(*layout)),
{
    let order = sorted_key_indices(layout);
    let ghost ord = order@.map_values(|x: usize| x as int);
    let mut j: usize = 0;
    while j < order.len()
        invariant
            j <= order.len(),
            ord == order@.map_values(|x: usize| x as int),
            ord == key_order(*layout),
            forall|k: int| 0 <= k < order@.len() ==> #[trigger] order@[k] < layout.keys@.len(),
            out@ == old(out)@ + key_rows(*layout, ord.take(j as int)),
        decreases order.len() - j,
    {
        let idx = order[j];
        let sc = layout.keys[idx].0.as_str();
        let km = &layout.keys[idx].1;
        let mut row = crate::text::string_of(sc);
        row.append("\t");
        row.append(km.vk.as_str());
        row.append("\t\t");
        row.append(km.cap.as_str());
        row.append("\t");
        row.append(km.base.as_str());
        row.append("\t");
        row.append(km.shift.as_str());
        row.append("\t");
        row.append(km.ctrl.as_str());
        row.append("\t");
        row.append(km.altgr.as_str());
        row.append("\t");
        row.append(km.altgr_shift.as_str());
        push_line(out, row.as_str());
        proof {
            assert(ord.take(j + 1).drop_last() =~= ord.take(j as int));
            assert(ord.take(j + 1).last() == idx as int);
            assert(row@ =~= key_row(layout.keys@[idx as int].0@, layout.keys@[idx as int].1));
            assert(out@ =~= old(out)@ + key_rows(*layout, ord.take(j + 1)));
        }
        j = j + 1;
    }
    assert(ord.take(order.len() as int) =~= ord);
}

/// Appends the rows of a dead key's combinations, ordered by base text.
fn emit_combo_rows(out: &mut String, dk: &DeadKey)
    ensures
        final(out)@ == old(out)@ + combo_rows(*dk, combo_order(*dk)),
{
    let order = sorted_combo_indices(dk);
    let ghost ord = order@.map_values(|x: usize| x as int);
    let mut j: usize = 0;
    while j < order.len()
        invariant
            j <= order.len(),
            ord == order@.map_values(|x: usize| x as int),
            ord == combo_order(*dk),
            forall|k: int| 0 <= k < order@.len() ==> #[trigger] order@[k] < dk.combinations@.len(),
            out@ == old(out)@ + combo_rows(*dk, ord.take(j as int)),
        decreases order.len() - j,
    {
        let idx = order[j];
        let base_char = dk.combinations[idx].0.as_str();
        let result_char = dk.combinations[idx].1.as_str();
        let mut row = crate::text::string_of(base_char);
        row.append("\t");
        row.append(result_char);
        // Try to add a helpful comment with the Unicode character.
        match codepoint_to_char(result_char) {
            Some(c) => {
                row.append("\t// ");
                let mut cv: Vec<char> = Vec::new();
                cv.push(c);
                let cs = crate::text::string_from_chars(cv);
                row.append(cs.as_str());
            },
            None => {},
        }
        push_line(out, row.as_str());
        proof {
            assert(ord.take(j + 1).drop_last() =~= ord.take(j as int));
            assert(ord.take(j + 1).last() == idx as int);
            let e = dk.combinations@[idx as int];
            assert(row@ =~= e.0@ + "\t"@ + e.1@ + combo_comment(e.1@));
            assert(out@ =~= old(out)@ + combo_rows(*dk, ord.take(j + 1)));
        }
        j = j + 1;
    }
    assert(ord.take(order.len() as int) =~= ord);
}

/// Appends the DEADKEY sections, ordered by dead-key code.
fn emit_dead_key_sections(out: &mut String, layout: &Layout, order: &Vec<usize>)
    requires
        order@.map_values(|x: usize| x as int) == dead_key_order(*layout),
        forall|k: int| 0 <= k < order@.len() ==> #[trigger] order@[k] < layout.dead_keys@.len(),
    ensures
        final(out)@ == old(out)@ + dead_key_sections(*layout, dead_key_order(*layout)),
{
    let ghost ord = order@.map_values(|x: usize| x as int);
    let mut j: usize = 0;
    while j < order.len()
        invariant
            j <= order.len(),
            ord == order@.map_values(|x: usize| x as int),
            ord == dead_key_order(*layout),
            forall|k: int| 0 <= k < order@.len() ==> #[trigger] order@[k] < layout.dead_keys@.len(),
            out@ == old(out)@ + dead_key_sections(*layout, ord.take(j as int)),
        decreases order.len() - j,
    {
        let idx = order[j];
        let dk_code = layout.dead_keys[idx].0.as_str();
        let dk = &layout.dead_keys[idx].1;
        let ghost before = out@;
        let mut head = crate::text::string_of("DEADKEY\t");
        head.append(dk_code);
        push_line(out, head.as_str());
        push_line(out, "");
        emit_combo_rows(out, dk);
        push_line(out, "");
        proof {
            reveal_strlit("");
            assert(""@ =~= Seq::<char>::empty());
            assert(ord.take(j + 1).drop_last() =~= ord.take(j as int));
            assert(ord.take(j + 1).last() == idx as int);
            assert(out@ =~= before + dead_key_section(dk_code@, *dk));
            assert(out@ =~= old(out)@ + dead_key_sections(*layout, ord.take(j + 1)));
        }
        j = j + 1;
    }
    assert(ord.take(order.len() as int) =~= ord);
}

/// Appends the KEYNAME_DEAD rows, ordered by dead-key code.
fn emit_dead_key_name_rows(out: &mut String, layout: &Layout, order: &Vec<usize>)
    requires
        order@.map_values(|x: usize| x as int) == dead_key_order(*layout),
        forall|k: int| 0 <= k < order@.len() ==> #[trigger] order@[k] < layout.dead_keys@.len(),
    ensures
        final(out)@ == old(out)@ + dead_key_name_rows(*layout, dead_key_order(*layout)),
{
    let ghost ord = order@.map_values(|x: usize| x as int);
    let mut j: usize = 0;
    while j < order.len()
        invariant
            j <= order.len(),
            ord == order@.map_values(|x: usize| x as int),
            ord == dead_key_order(*layout),
            forall|k: int| 0 <= k < order@.len() ==> #[trigger] order@[k] < layout.dead_keys@.len(),
            out@ == old(out)@ + dead_key_name_rows(*layout, ord.take(j as int)),
        decreases order.len() - j,
    {
        let idx = order[j];
        let mut row = crate::text::string_of(layout.dead_keys[idx].0.as_str());
        row.append("\t\"");
        row.append(layout.dead_keys[idx].1.name.as_str());
        row.append("\"");
        push_line(out, row.as_str());
        proof {
            assert(ord.take(j + 1).drop_last() =~= ord.take(j as int));
            assert(ord.take(j + 1).last() == idx as int);
            assert(out@ =~= old(out)@ + dead_key_name_rows(*layout, ord.take(j + 1)));
        }
        j = j + 1;
    }
    assert(ord.take(order.len() as int) =~= ord);
}

/// Generate a complete .klc (Microsoft Keyboard Layout Creator) file from a
/// `Layout` definition.  The returned string is ready to be written to disk.
pub fn generate_klc(layout: &Layout) -> (out: String)
    ensures
        out@ == klc_text(*layout),
{
    let layout_name = layout_display_name(layout);

    // ── Header ──────────────────────────────────────────────────────────
    let mut out = String::new();
    let mut kbd = crate::text::string_of("KBD\t");
    kbd.append(layout.dll_name.as_str());
    kbd.append("\t\"");
    kbd.append(layout_name);
    kbd.append("\"");
    push_line(&mut out, kbd.as_str());
    out.append(KLC_COMPANY);
    let mut ln = crate::text::string_of("LOCALENAME\t\"");
    ln.append(layout.locale.as_str());
    ln.append("\"");
    push_line(&mut out, ln.as_str());
    let mut li = crate::text::string_of("LOCALEID\t\"");
    li.append(layout.locale_id.as_str());
    li.append("\"");
    push_line(&mut out, li.as_str());
    out.append(KLC_LAYOUT_INTRO);
    assert(out@ =~= klc_header(*layout));

    // ── LAYOUT rows, sorted by scancode value ───────────────────────────
    emit_key_rows(&mut out, layout);
    push_line(&mut out, "");

    // ── DEADKEY sections, sorted by dead-key code ───────────────────────
    let dk_order = sorted_dead_key_indices(layout);
    emit_dead_key_sections(&mut out, layout, &dk_order);

    // ── KEYNAME, KEYNAME_EXT ────────────────────────────────────────────
    out.append(KEYNAME_SECTION);
    out.append(KEYNAME_EXT_SECTION);

    // ── KEYNAME_DEAD ────────────────────────────────────────────────────
    out.append("KEYNAME_DEAD\n\n");
    emit_dead_key_name_rows(&mut out, layout, &dk_order);
    push_line(&mut out, "");

    // ── DESCRIPTIONS, LANGUAGENAMES, end ────────────────────────────────
    let ghost before_tail = out@;
    out.append("DESCRIPTIONS\n\n");
    let mut d = crate::text::string_of("0409\t");
    d.append(layout_name);
    push_line(&mut out, d.as_str());
    out.append("\nLANGUAGENAMES\n\n");
    let mut lname = crate::text::string_of("0409\t");
    lname.append(locale_display_name(layout.locale.as_str()));
    push_line(&mut out, lname.as_str());
    out.append("\nENDKBD\n");
    proof {
        reveal_strlit("");
        assert(""@ =~= Seq::<char>::empty());
        assert(out@ =~= before_tail + klc_tail(*layout));
        assert(out@ =~= klc_text(*layout));
    }
    out
}

} // verus!
