use magicwindows::kbd_c::generate_kbd_c;
use magicwindows::klc::generate_klc;
use magicwindows::layout::{DeadKey, DetectionKey, KeyMapping, Layout};

fn s(x: &str) -> String {
    x.to_string()
}

fn key(vk: &str, cap: &str, base: &str, shift: &str, ctrl: &str, altgr: &str, altgr_shift: &str) -> KeyMapping {
    KeyMapping {
        vk: s(vk),
        cap: s(cap),
        base: s(base),
        shift: s(shift),
        ctrl: s(ctrl),
        altgr: s(altgr),
        altgr_shift: s(altgr_shift),
    }
}

fn dk(code: &str, expected: &str) -> DetectionKey {
    DetectionKey { event_code: s(code), prompt: vec![(s("en"), s("Press it"))], expected_base: s(expected) }
}

/// A small French layout with an AltGr layer and two dead keys.
fn french() -> Layout {
    Layout {
        id: s("apple-fr-azerty"),
        name: vec![(s("fr"), s("Apple Français")), (s("en"), s("Apple French (AZERTY)"))],
        locale: s("fr-FR"),
        locale_id: s("0000040c"),
        dll_name: s("kbdaplfr"),
        description: vec![(s("en"), s("French layout for Apple keyboards"))],
        detection_keys: vec![dk("Backquote", "@"), dk("Digit8", "!"), dk("KeyQ", "a")],
        keys: vec![
            (s("1a"), key("OEM_6", "0", "005e@", "00a8@", "-1", "-1", "-1")),
            (s("10"), key("A", "1", "0061", "0041", "-1", "00e6", "00c6")),
            (s("02"), key("1", "0", "0026", "0031", "-1", "-1", "-1")),
        ],
        dead_keys: vec![
            (s("00a8"), DeadKey { name: s("DIAERESIS"), combinations: vec![(s("0065"), s("00eb"))] }),
            (
                s("005e"),
                DeadKey {
                    name: s("CIRCUMFLEX"),
                    combinations: vec![(s("0065"), s("00ea")), (s("0061"), s("00e2"))],
                },
            ),
        ],
    }
}

/// A plain layout: no AltGr values and no dead keys.
fn plain() -> Layout {
    let mut l = french();
    l.id = s("apple-us-qwerty");
    l.name = vec![(s("en"), s("Apple US"))];
    l.locale = s("en-US");
    l.locale_id = s("00000409");
    l.dll_name = s("kbdaplus");
    l.keys = vec![
        (s("10"), key("Q", "1", "0071", "0051", "-1", "-1", "-1")),
        (s("02"), key("1", "0", "0031", "0021", "-1", "-1", "-1")),
    ];
    l.dead_keys = Vec::new();
    l
}

#[test]
fn klc_has_all_sections() {
    let klc = generate_klc(&french());
    assert!(klc.starts_with("KBD\tkbdaplfr\t\"Apple French (AZERTY)\"\n"));
    assert!(klc.contains("LOCALENAME\t\"fr-FR\""));
    assert!(klc.contains("LOCALEID\t\"0000040c\""));
    assert!(klc.contains("SHIFTSTATE"));
    assert!(klc.contains("LAYOUT"));
    assert!(klc.contains("DEADKEY\t005e"));
    assert!(klc.contains("DEADKEY\t00a8"));
    assert!(klc.contains("KEYNAME"));
    assert!(klc.contains("KEYNAME_EXT"));
    assert!(klc.contains("KEYNAME_DEAD"));
    assert!(klc.contains("DESCRIPTIONS\n\n0409\tApple French (AZERTY)\n"));
    assert!(klc.contains("LANGUAGENAMES\n\n0409\tFrench (France)\n"));
    assert!(klc.ends_with("\nENDKBD\n"));
}

#[test]
fn klc_rows_are_sorted_by_scancode_and_code() {
    let klc = generate_klc(&french());
    let r02 = klc.find("02\t1\t\t0\t0026\t0031\t-1\t-1\t-1\n").unwrap();
    let r10 = klc.find("10\tA\t\t1\t0061\t0041\t-1\t00e6\t00c6\n").unwrap();
    let r1a = klc.find("1a\tOEM_6\t\t0\t005e@\t00a8@\t-1\t-1\t-1\n").unwrap();
    assert!(r02 < r10 && r10 < r1a);
    let d5e = klc.find("DEADKEY\t005e").unwrap();
    let da8 = klc.find("DEADKEY\t00a8").unwrap();
    assert!(d5e < da8);
    // combinations sorted by base, with the composed character as a comment
    let e2 = klc.find("0061\t00e2\t// \u{e2}\n").unwrap();
    let ea = klc.find("0065\t00ea\t// \u{ea}\n").unwrap();
    assert!(e2 < ea);
    assert!(klc.contains("005e\t\"CIRCUMFLEX\"\n"));
}

#[test]
fn klc_does_not_depend_on_map_entry_order() {
    let a = french();
    let mut b = french();
    b.name.reverse();
    b.keys.reverse();
    b.dead_keys.reverse();
    for (_, d) in b.dead_keys.iter_mut() {
        d.combinations.reverse();
    }
    assert_eq!(generate_klc(&a), generate_klc(&b));
}

#[test]
fn klc_falls_back_to_id_and_locale() {
    let mut l = plain();
    l.name = Vec::new();
    l.locale = s("xx-YY");
    let klc = generate_klc(&l);
    assert!(klc.starts_with("KBD\tkbdaplus\t\"apple-us-qwerty\"\n"));
    assert!(klc.contains("LANGUAGENAMES\n\n0409\tEnglish (United States)\n"));
}

fn check_c_source(c: &str, dll_name: &str) {
    assert!(c.contains("KbdLayerDescriptor"), "{dll_name}: missing KbdLayerDescriptor export");
    assert!(c.contains("KBDTABLES"), "{dll_name}: missing KBDTABLES");
    assert!(c.contains("ausVK"), "{dll_name}: missing ausVK");
    assert!(c.contains("aVkToWch"), "{dll_name}: missing aVkToWch");
    assert!(c.contains("CharModifiers"), "{dll_name}: missing CharModifiers");
    assert!(c.contains("#include <kbd.h>"), "{dll_name}: missing kbd.h include");
    assert!(c.contains("#include <windows.h>"), "{dll_name}: missing windows.h include");
}

#[test]
fn kbd_c_with_altgr_and_dead_keys() {
    let c = generate_kbd_c(&french());
    check_c_source(&c, "kbdaplfr");
    assert!(c.contains("aVkToWch5"), "kbdaplfr: expected 5-column table");
    assert!(c.contains("KLLF_ALTGR"), "kbdaplfr: expected KLLF_ALTGR flag");
    assert!(c.contains("aDeadKey"), "kbdaplfr: expected dead key table");
    assert!(c.contains("DEADTRANS"), "kbdaplfr: expected DEADTRANS entries");
}

#[test]
fn kbd_c_without_dead_keys_has_no_deadtrans() {
    let c = generate_kbd_c(&plain());
    check_c_source(&c, "kbdaplus");
    assert!(!c.contains("DEADTRANS"), "no dead keys expected");
    assert!(c.contains("aVkToWch3"), "kbdaplus: expected 3-column table without AltGr");
    assert!(!c.contains("aVkToWch5"), "kbdaplus: no AltGr values");
}

#[test]
fn kbd_c_is_deterministic() {
    assert_eq!(generate_kbd_c(&french()), generate_kbd_c(&french()));
    assert_eq!(generate_klc(&french()), generate_klc(&french()));
}

#[test]
fn valid_layout_passes_validation() {
    assert_eq!(french().validate(), Ok(()));
}

#[test]
fn validation_errors_name_the_problem() {
    let mut l = french();
    l.id = s("fr-azerty");
    assert_eq!(
        l.validate(),
        Err(s("Layout ID 'fr-azerty' must start with 'apple-' and include language and type"))
    );
    let mut l = french();
    l.id = s("apple-fr");
    assert!(l.validate().unwrap_err().starts_with("Layout ID 'apple-fr'"));

    let mut l = french();
    l.dll_name = s("");
    assert_eq!(l.validate(), Err(s("DLL name '' must be 1-8 characters")));
    let mut l = french();
    l.dll_name = s("kbdaplfr9");
    assert_eq!(l.validate(), Err(s("DLL name 'kbdaplfr9' must be 1-8 characters")));
    let mut l = french();
    l.dll_name = s("KbdFr");
    assert_eq!(l.validate(), Err(s("DLL name 'KbdFr' must be lowercase alphanumeric")));

    let mut l = french();
    l.detection_keys.truncate(2);
    assert_eq!(
        l.validate(),
        Err(s("Layout 'apple-fr-azerty' must have 3-5 detection keys, has 2"))
    );
    let mut l = french();
    for _ in 0..3 {
        l.detection_keys.push(dk("KeyW", "z"));
    }
    assert_eq!(
        l.validate(),
        Err(s("Layout 'apple-fr-azerty' must have 3-5 detection keys, has 6"))
    );

    let mut l = french();
    l.keys.clear();
    assert_eq!(l.validate(), Err(s("Layout 'apple-fr-azerty' has no key mappings")));

    let mut l = french();
    l.locale = s("fr_FR");
    assert_eq!(
        l.validate(),
        Err(s("Layout 'apple-fr-azerty' locale 'fr_FR' must be xx-XX format"))
    );
    let mut l = french();
    l.locale_id = s("0000040g");
    assert_eq!(
        l.validate(),
        Err(s("Layout 'apple-fr-azerty' locale_id '0000040g' must be 8 hex chars"))
    );
}

#[test]
fn meta_copies_the_listed_fields() {
    let l = french();
    let m = l.meta();
    assert_eq!(m.id, l.id);
    assert_eq!(m.name, l.name);
    assert_eq!(m.locale, l.locale);
    assert_eq!(m.description, l.description);
}

/// A national layout with the given keys and dead keys.
fn national(
    lang: &str,
    kind: &str,
    dll: &str,
    locale: &str,
    locale_id: &str,
    keys: Vec<(String, KeyMapping)>,
    dead_keys: Vec<(String, DeadKey)>,
) -> Layout {
    Layout {
        id: format!("apple-{lang}-{kind}"),
        name: vec![(s("en"), format!("Apple {lang} ({kind})"))],
        locale: s(locale),
        locale_id: s(locale_id),
        dll_name: s(dll),
        description: vec![(s("en"), s("Layout for Apple keyboards"))],
        detection_keys: vec![dk("Backquote", "`"), dk("Digit8", "8"), dk("KeyQ", "q")],
        keys,
        dead_keys,
    }
}

fn dead(name: &str, combos: &[(&str, &str)]) -> DeadKey {
    DeadKey { name: s(name), combinations: combos.iter().map(|(b, r)| (s(b), s(r))).collect() }
}

/// The US layout: an AltGr layer and the grave and tilde dead keys.
fn us_qwerty() -> Layout {
    national(
        "us",
        "qwerty",
        "kbdaplus",
        "en-US",
        "00000409",
        vec![
            (s("10"), key("Q", "1", "0071", "0051", "-1", "0153", "0152")),
            (s("1e"), key("A", "1", "0061", "0041", "-1", "00e5", "00c5")),
            (s("29"), key("OEM_3", "0", "0060@", "007e@", "-1", "-1", "-1")),
            (s("02"), key("1", "0", "0031", "0021", "-1", "00a1", "2044")),
        ],
        vec![
            (s("0060"), dead("GRAVE", &[("0061", "00e0"), ("0065", "00e8")])),
            (s("007e"), dead("TILDE", &[("006e", "00f1"), ("006f", "00f5")])),
        ],
    )
}

/// The French layout with all four of its dead keys.
fn fr_azerty() -> Layout {
    let mut l = french();
    l.keys.push((s("29"), key("OEM_3", "0", "0060@", "007e@", "-1", "-1", "-1")));
    l.dead_keys.push((s("0060"), dead("GRAVE", &[("0061", "00e0")])));
    l.dead_keys.push((s("007e"), dead("TILDE", &[("006e", "00f1")])));
    l
}

fn simple_keys(extra_vk: &str) -> Vec<(String, KeyMapping)> {
    vec![
        (s("10"), key("Q", "1", "0071", "0051", "-1", "-1", "-1")),
        (s("15"), key(extra_vk, "1", "007a", "005a", "-1", "-1", "-1")),
        (s("02"), key("1", "0", "0031", "0021", "-1", "-1", "-1")),
    ]
}

#[test]
fn generates_c_us_qwerty() {
    let c = generate_kbd_c(&us_qwerty());
    check_c_source(&c, "kbdaplus");
    // US has AltGr layer
    assert!(c.contains("aVkToWch5"), "kbdaplus: expected 5-column table");
    assert!(c.contains("KLLF_ALTGR"), "kbdaplus: expected KLLF_ALTGR flag");
    // Dead keys present
    assert!(c.contains("aDeadKey"), "kbdaplus: expected dead key table");
    assert!(c.contains("DEADTRANS"), "kbdaplus: expected DEADTRANS entries");
}

#[test]
fn generates_c_fr_azerty() {
    let c = generate_kbd_c(&fr_azerty());
    check_c_source(&c, "kbdaplfr");
    assert!(c.contains("aVkToWch5"), "kbdaplfr: expected 5-column table (has AltGr)");
}

#[test]
fn generates_c_de_qwertz() {
    let l = national(
        "de",
        "qwertz",
        "kbdaplde",
        "de-DE",
        "00000407",
        simple_keys("Z"),
        vec![(s("005e"), dead("CIRCUMFLEX", &[("0061", "00e2")]))],
    );
    let c = generate_kbd_c(&l);
    check_c_source(&c, "kbdaplde");
}

#[test]
fn generates_c_es_qwerty() {
    let l = national("es", "qwerty", "kbdaples", "es-ES", "0000040a", simple_keys("W"), Vec::new());
    let c = generate_kbd_c(&l);
    check_c_source(&c, "kbdaples");
}

#[test]
fn generates_c_uk_qwerty() {
    let l = national("uk", "qwerty", "kbdapluk", "en-GB", "00000809", simple_keys("W"), Vec::new());
    let c = generate_kbd_c(&l);
    check_c_source(&c, "kbdapluk");
}

#[test]
fn generates_c_it_qwerty() {
    let l = national("it", "qwerty", "kbdaplit", "it-IT", "00000410", simple_keys("W"), Vec::new());
    let c = generate_kbd_c(&l);
    check_c_source(&c, "kbdaplit");
}

#[test]
fn dead_key_table_empty_when_no_dead_keys() {
    // The US layout without dead keys, and without the @ markers.
    let mut l = us_qwerty();
    l.dead_keys = Vec::new();
    for (_, km) in l.keys.iter_mut() {
        for v in [&mut km.base, &mut km.shift, &mut km.altgr, &mut km.altgr_shift] {
            if v.ends_with('@') {
                *v = v.trim_end_matches('@').to_string();
            }
        }
    }
    let c = generate_kbd_c(&l);
    assert!(!c.contains("DEADTRANS"), "no dead keys expected");
}

#[test]
fn generates_non_empty_klc() {
    let klc = generate_klc(&fr_azerty());

    assert!(klc.contains("KBD\tkbdaplfr"));
    assert!(klc.contains("LOCALENAME\t\"fr-FR\""));
    assert!(klc.contains("SHIFTSTATE"));
    assert!(klc.contains("LAYOUT"));
    assert!(klc.contains("DEADKEY\t005e"));
    assert!(klc.contains("DEADKEY\t00a8"));
    assert!(klc.contains("DEADKEY\t0060"));
    assert!(klc.contains("DEADKEY\t007e"));
    assert!(klc.contains("KEYNAME"));
    assert!(klc.contains("KEYNAME_EXT"));
    assert!(klc.contains("KEYNAME_DEAD"));
    assert!(klc.contains("ENDKBD"));
}
