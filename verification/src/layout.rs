//! The keyboard layout model: the data of one layout definition, the
//! metadata listed in the UI, detection results, and layout validation.
//!
//! Maps of the layout JSON are held as vectors of (key, value) entries in
//! the order they were read; the `wf` predicates state that a key occurs at
//! most once in each.
use vstd::prelude::*;
use crate::text::{fmt_dec, format_dec, string_of, parse_radix16, chars_of, parse_hex};
use crate::sort::{sorted_order, nat_le, text_order, sort_indices_by_value, sort_indices_by_text, lemma_sorted_order_indices};

verus! {

broadcast use vstd::string::group_string_axioms;

/// Minimal metadata for listing layouts in the UI.
#[derive(Debug, Clone)]
pub struct LayoutMeta {
    pub id: String,
    pub name: Vec<(String, String)>,
    pub locale: String,
    pub description: Vec<(String, String)>,
}

/// A single detection-key entry used by the auto-detection UI.
#[derive(Debug, Clone)]
pub struct DetectionKey {
    pub event_code: String,
    pub prompt: Vec<(String, String)>,
    pub expected_base: String,
}

/// One key mapping row (values are hex-codepoint strings or "-1").
#[derive(Debug, Clone)]
pub struct KeyMapping {
    pub vk: String,
    pub cap: String,
    pub base: String,
    pub shift: String,
    pub ctrl: String,
    pub altgr: String,
    pub altgr_shift: String,
}

/// A dead-key definition (base char -> composed result).
#[derive(Debug, Clone)]
pub struct DeadKey {
    pub name: String,
    pub combinations: Vec<(String, String)>,
}

/// Full layout as stored in JSON.
#[derive(Debug, Clone)]
pub struct Layout {
    pub id: String,
    pub name: Vec<(String, String)>,
    pub locale: String,
    pub locale_id: String,
    pub dll_name: String,
    pub description: Vec<(String, String)>,
    pub detection_keys: Vec<DetectionKey>,
    pub keys: Vec<(String, KeyMapping)>,
    pub dead_keys: Vec<(String, DeadKey)>,
}

/// Result from one key-press during auto-detection (sent by the frontend).
#[derive(Debug, Clone)]
pub struct DetectionResult {
    pub event_code: String,
    pub received_char: String,
}

/// Metadata about a keyboard layout registered on the system (ours or OEM).
///
/// Read from `HKLM\SYSTEM\CurrentControlSet\Control\Keyboard Layouts\{klid}`.
#[derive(Debug, Clone)]
pub struct InstalledLayoutInfo {
    /// 8-char registry subkey name, e.g. "0000040c" or "a001040c".
    pub klid: String,
    /// `Layout File` registry value, e.g. "KBDFR.DLL" or "kbdaplfr.dll".
    pub layout_file: String,
    /// `Layout Text` registry value; may be empty if the key is malformed.
    pub layout_text: String,
    /// True when `layout_file.to_lowercase().starts_with("kbdapl")`.
    pub is_magic_windows: bool,
    /// True when `klid` appears in `HKCU\Keyboard Layout\Preload`.
    pub is_in_use: bool,
}

// ── Specification ────────────────────────────────────────────────────────────

/// The character views of a text map's entries.
pub open spec fn text_map_view(m: Seq<(String, String)>) -> Seq<(Seq<char>, Seq<char>)> {
    m.map_values(|e: (String, String)| (e.0@, e.1@))
}

/// The UTF-8 byte length of a text (`str::len`).
pub open spec fn byte_len(s: Seq<char>) -> nat {
    vstd::utf8::encode_utf8(s).len()
}

/// Whether `c` is an ASCII lower-case letter or digit.
pub open spec fn is_lower_alnum(c: char) -> bool {
    ('a' <= c && c <= 'z') || ('0' <= c && c <= '9')
}

/// Whether `c` is an ASCII hex digit.
pub open spec fn is_hex_digit(c: char) -> bool {
    ('a' <= c && c <= 'f') || ('A' <= c && c <= 'F') || ('0' <= c && c <= '9')
}

/// Whether every character of `s` is an ASCII lower-case letter or digit.
pub open spec fn all_lower_alnum_spec(s: Seq<char>) -> bool {
    forall|i: int| 0 <= i < s.len() ==> is_lower_alnum(#[trigger] s[i])
}

/// Whether every character of `s` is an ASCII hex digit.
pub open spec fn all_hex_spec(s: Seq<char>) -> bool {
    forall|i: int| 0 <= i < s.len() ==> is_hex_digit(#[trigger] s[i])
}

/// "apple-" as characters.
pub open spec fn apple_prefix() -> Seq<char> {
    seq!['a', 'p', 'p', 'l', 'e', '-']
}

/// The outcome of validating a layout with these field texts.
pub open spec fn validation(
    id: Seq<char>,
    dll_name: Seq<char>,
    n_detection_keys: nat,
    n_keys: nat,
    locale: Seq<char>,
    locale_id: Seq<char>,
) -> Result<(), Seq<char>> {
    if !(id.len() >= 6 && id.take(6) == apple_prefix()) || byte_len(id) < 10 {
        Err(
            "Layout ID '"@ + id + "' must start with 'apple-' and include language and type"@,
        )
    } else if byte_len(dll_name) == 0 || byte_len(dll_name) > 8 {
        Err("DLL name '"@ + dll_name + "' must be 1-8 characters"@)
    } else if !all_lower_alnum_spec(dll_name) {
        Err("DLL name '"@ + dll_name + "' must be lowercase alphanumeric"@)
    } else if n_detection_keys < 3 || n_detection_keys > 5 {
        Err(
            "Layout '"@ + id + "' must have 3-5 detection keys, has "@ + fmt_dec(n_detection_keys),
        )
    } else if n_keys == 0 {
        Err("Layout '"@ + id + "' has no key mappings"@)
    } else if byte_len(locale) != 5 || vstd::utf8::encode_utf8(locale)[2] != 45u8 {
        Err("Layout '"@ + id + "' locale '"@ + locale + "' must be xx-XX format"@)
    } else if byte_len(locale_id) != 8 || !all_hex_spec(locale_id) {
        Err("Layout '"@ + id + "' locale_id '"@ + locale_id + "' must be 8 hex chars"@)
    } else {
        Ok(())
    }
}

/// Viewing after a push is pushing the view.
pub proof fn lemma_text_map_view_push(m: Seq<(String, String)>, e: (String, String))
    ensures
        text_map_view(m.push(e)) == text_map_view(m).push((e.0@, e.1@)),
{
    assert(text_map_view(m.push(e)) =~= text_map_view(m).push((e.0@, e.1@)));
}

/// The value stored under key `k`: the first entry with that key.
pub open spec fn lookup(m: Seq<(String, String)>, k: Seq<char>) -> Option<Seq<char>>
    decreases m.len(),
{
    if m.len() == 0 {
        None
    } else if m[0].0@ == k {
        Some(m[0].1@)
    } else {
        lookup(m.drop_first(), k)
    }
}

/// No key occurs twice among the entries of a map held as a vector.
pub open spec fn keys_distinct<V>(m: Seq<(String, V)>) -> bool {
    forall|i: int, j: int| #![trigger m[i], m[j]] 0 <= i < j < m.len() ==> m[i].0@ != m[j].0@
}

impl LayoutMeta {
    /// Each of the metadata's maps holds a key at most once.
    pub open spec fn wf(&self) -> bool {
        &&& keys_distinct(self.name@)
        &&& keys_distinct(self.description@)
    }
}

impl DetectionKey {
    /// The prompt map holds a language at most once.
    pub open spec fn wf(&self) -> bool {
        keys_distinct(self.prompt@)
    }
}

impl DeadKey {
    /// The combination map holds a base character at most once.
    pub open spec fn wf(&self) -> bool {
        keys_distinct(self.combinations@)
    }
}

impl Layout {
    /// Each of the layout's maps, nested ones included, holds a key at most
    /// once.
    pub open spec fn wf(&self) -> bool {
        &&& keys_distinct(self.name@)
        &&& keys_distinct(self.description@)
        &&& keys_distinct(self.keys@)
        &&& keys_distinct(self.dead_keys@)
        &&& forall|i: int|
            0 <= i < self.detection_keys@.len() ==> (#[trigger] self.detection_keys@[i]).wf()
        &&& forall|i: int| 0 <= i < self.dead_keys@.len() ==> (#[trigger] self.dead_keys@[i]).1.wf()
    }
}

/// In a map without repeated keys, the value looked up under the key of an
/// entry is that entry's value.
pub proof fn lemma_lookup_entry(m: Seq<(String, String)>, k: Seq<char>, i: int)
    requires
        keys_distinct(m),
        0 <= i < m.len(),
        m[i].0@ == k,
    ensures
        lookup(m, k) == Some(m[i].1@),
    decreases m.len(),
{
    if i > 0 {
        let d = m.drop_first();
        assert(m[0].0@ != m[i].0@);
        assert forall|a: int, b: int| #![trigger d[a], d[b]] 0 <= a < b < d.len() implies d[a].0@
            != d[b].0@ by {
            assert(m[a + 1].0@ != m[b + 1].0@);
        }
        assert(d[i - 1] == m[i]);
        lemma_lookup_entry(d, k, i - 1);
    }
}

/// Looking up a key that no entry has finds nothing.
pub proof fn lemma_lookup_absent(m: Seq<(String, String)>, k: Seq<char>)
    requires
        forall|i: int| 0 <= i < m.len() ==> (#[trigger] m[i]).0@ != k,
    ensures
        lookup(m, k) is None,
    decreases m.len(),
{
    if m.len() > 0 {
        let d = m.drop_first();
        assert forall|i: int| 0 <= i < d.len() implies (#[trigger] d[i]).0@ != k by {
            assert(d[i] == m[i + 1]);
        }
        lemma_lookup_absent(d, k);
    }
}

/// Some index of `b` holds the entry at index `i` of `a`, when both hold
/// the same entries.
pub proof fn lemma_same_entries_witness<T>(a: Seq<T>, b: Seq<T>, i: int) -> (j: int)
    requires
        a.to_set() == b.to_set(),
        0 <= i < a.len(),
    ensures
        0 <= j < b.len(),
        b[j] == a[i],
{
    assert(a.contains(a[i]));
    assert(a.to_set().contains(a[i]));
    assert(b.to_set().contains(a[i]));
    choose|j: int| 0 <= j < b.len() && b[j] == a[i]
}

/// Two maps without repeated keys that hold the same entries give the same
/// value under every key.
pub proof fn lemma_lookup_same_entries(m1: Seq<(String, String)>, m2: Seq<(String, String)>, k: Seq<char>)
    requires
        keys_distinct(m1),
        keys_distinct(m2),
        text_map_view(m1).to_set() == text_map_view(m2).to_set(),
    ensures
        lookup(m1, k) == lookup(m2, k),
{
    if exists|i: int| 0 <= i < m1.len() && (#[trigger] m1[i]).0@ == k {
        let i = choose|i: int| 0 <= i < m1.len() && (#[trigger] m1[i]).0@ == k;
        lemma_lookup_entry(m1, k, i);
        let j = lemma_same_entries_witness(text_map_view(m1), text_map_view(m2), i);
        lemma_lookup_entry(m2, k, j);
    } else if exists|j: int| 0 <= j < m2.len() && (#[trigger] m2[j]).0@ == k {
        let j = choose|j: int| 0 <= j < m2.len() && (#[trigger] m2[j]).0@ == k;
        let i = lemma_same_entries_witness(text_map_view(m2), text_map_view(m1), j);
        assert(m1[i].0@ == k);
    } else {
        lemma_lookup_absent(m1, k);
        lemma_lookup_absent(m2, k);
    }
}

/// Text maps with the same entry views repeat a key alike.
proof fn lemma_same_view_keys_distinct(a: Seq<(String, String)>, b: Seq<(String, String)>)
    requires
        text_map_view(a) == text_map_view(b),
    ensures
        keys_distinct(a) ==> keys_distinct(b),
{
    assert(a.len() == text_map_view(a).len());
    assert(b.len() == text_map_view(b).len());
    assert forall|i: int| 0 <= i < b.len() implies (#[trigger] b[i]).0@ == a[i].0@ by {
        assert(text_map_view(b)[i] == text_map_view(a)[i]);
    }
}

/// The English name of a layout, or its id when it has none.
pub open spec fn layout_name(l: Layout) -> Seq<char> {
    match lookup(l.name@, seq!['e', 'n']) {
        Some(n) => n,
        None => l.id@,
    }
}

/// The numeric value of a hex scancode key (`u32::from_str_radix(sc, 16)`),
/// or 0 when it is not one.
pub open spec fn scancode_value(sc: Seq<char>) -> nat {
    match parse_radix16(sc, 0xffff_ffff) {
        Some(v) => v,
        None => 0,
    }
}

/// The numeric scancode values of the key map, in entry order.
pub open spec fn key_values(l: Layout) -> Seq<nat> {
    l.keys@.map_values(|e: (String, KeyMapping)| scancode_value(e.0@))
}

/// The key map's entry indices ordered by scancode value (stable).
pub open spec fn key_order(l: Layout) -> Seq<int> {
    sorted_order(key_values(l), nat_le())
}

/// The dead-key codes, in entry order.
pub open spec fn dead_key_codes(l: Layout) -> Seq<Seq<char>> {
    l.dead_keys@.map_values(|e: (String, DeadKey)| e.0@)
}

/// The dead keys' entry indices ordered by code text.
pub open spec fn dead_key_order(l: Layout) -> Seq<int> {
    sorted_order(dead_key_codes(l), text_order())
}

/// The key rows go out in ascending scancode value: every key exactly once.
pub proof fn keys_ordered_by_scancode(l: Layout)
    ensures
        key_order(l).len() == l.keys@.len(),
        forall|j: int| 0 <= j < l.keys@.len() ==> 0 <= #[trigger] key_order(l)[j] < l.keys@.len(),
        forall|i: int, j: int|
            0 <= i < j < l.keys@.len() ==> #[trigger] key_order(l)[i] != #[trigger] key_order(l)[j],
        forall|i: int, j: int|
            0 <= i < j < l.keys@.len() ==> key_values(l)[#[trigger] key_order(l)[i]]
                <= key_values(l)[#[trigger] key_order(l)[j]],
{
    crate::sort::nat_order_is_total_preorder();
    crate::sort::sorted_order_sorts(key_values(l), nat_le());
    let o = key_order(l);
    assert forall|i: int, j: int| 0 <= i < j < l.keys@.len() implies key_values(l)[#[trigger] o[i]]
        <= key_values(l)[#[trigger] o[j]] by {
        assert(nat_le()(key_values(l)[o[i]], key_values(l)[o[j]]));
    }
}

/// The dead keys go out in code-point order of their codes: every dead key
/// exactly once.
pub proof fn dead_keys_ordered_by_code(l: Layout)
    ensures
        dead_key_order(l).len() == l.dead_keys@.len(),
        forall|j: int|
            0 <= j < l.dead_keys@.len() ==> 0 <= #[trigger] dead_key_order(l)[j] < l.dead_keys@.len(),
        forall|i: int, j: int|
            0 <= i < j < l.dead_keys@.len() ==> #[trigger] dead_key_order(l)[i]
                != #[trigger] dead_key_order(l)[j],
        forall|i: int, j: int|
            0 <= i < j < l.dead_keys@.len() ==> crate::sort::text_le(
                dead_key_codes(l)[#[trigger] dead_key_order(l)[i]],
                dead_key_codes(l)[#[trigger] dead_key_order(l)[j]],
            ),
{
    crate::sort::text_order_is_total_preorder();
    crate::sort::sorted_order_sorts(dead_key_codes(l), text_order());
    let o = dead_key_order(l);
    assert forall|i: int, j: int| 0 <= i < j < l.dead_keys@.len() implies crate::sort::text_le(
        dead_key_codes(l)[#[trigger] o[i]],
        dead_key_codes(l)[#[trigger] o[j]],
    ) by {
        assert(text_order()(dead_key_codes(l)[o[i]], dead_key_codes(l)[o[j]]));
    }
}

/// The combination base texts of a dead key, in entry order.
pub open spec fn combo_bases(dk: DeadKey) -> Seq<Seq<char>> {
    dk.combinations@.map_values(|e: (String, String)| e.0@)
}

/// A dead key's combination indices ordered by base text.
pub open spec fn combo_order(dk: DeadKey) -> Seq<int> {
    sorted_order(combo_bases(dk), text_order())
}

// ── Executable code ──────────────────────────────────────────────────────────

/// The layout's English name, or its id when it has none.
pub fn layout_display_name(l: &Layout) -> (r: &str)
    ensures
        r@ == layout_name(*l),
{
    let en = chars_of("en");
    proof {
        reveal_strlit("en");
        assert(en@ =~= seq!['e', 'n']);
    }
    let mut i: usize = 0;
    assert(l.name@.skip(0) =~= l.name@);
    while i < l.name.len()
        invariant
            i <= l.name.len(),
            en@ == seq!['e', 'n'],
            lookup(l.name@, seq!['e', 'n']) == lookup(l.name@.skip(i as int), seq!['e', 'n']),
        decreases l.name.len() - i,
    {
        assert(l.name@.skip(i as int).drop_first() =~= l.name@.skip(i + 1));
        assert(l.name@.skip(i as int)[0] == l.name@[i as int]);
        let k = chars_of(l.name[i].0.as_str());
        if crate::text::chars_eq(&k, &en) {
            return l.name[i].1.as_str();
        }
        i = i + 1;
    }
    assert(l.name@.skip(i as int) =~= Seq::<(String, String)>::empty());
    l.id.as_str()
}

/// The key map's entry indices ordered by scancode value.
pub fn sorted_key_indices(l: &Layout) -> (r: Vec<usize>)
    ensures
        r@.map_values(|x: usize| x as int) == key_order(*l),
        forall|j: int| 0 <= j < r@.len() ==> #[trigger] r@[j] < l.keys@.len(),
        r@.len() == l.keys@.len(),
{
    let mut vals: Vec<u64> = Vec::new();
    let mut i: usize = 0;
    while i < l.keys.len()
        invariant
            i <= l.keys.len(),
            vals@.map_values(|k: u64| k as nat) == key_values(*l).take(i as int),
        decreases l.keys.len() - i,
    {
        let v: u64 = match parse_hex(&chars_of(l.keys[i].0.as_str()), 0xffff_ffff) {
            Some(v) => v as u64,
            None => 0,
        };
        proof {
            crate::text::lemma_map_push(vals@, v, |k: u64| k as nat);
            assert(key_values(*l).take(i + 1) =~= key_values(*l).take(i as int).push(
                key_values(*l)[i as int],
            ));
        }
        vals.push(v);
        i = i + 1;
    }
    assert(key_values(*l).take(l.keys.len() as int) =~= key_values(*l));
    let r = sort_indices_by_value(&vals);
    proof {
        lemma_sorted_order_indices(key_values(*l), nat_le());
        assert forall|j: int| 0 <= j < r@.len() implies #[trigger] r@[j] < l.keys@.len() by {
            assert(r@.map_values(|x: usize| x as int)[j] == r@[j] as int);
        }
    }
    r
}

/// Indices of `texts` ordered by text, from the character sequences.
fn sorted_text_indices(texts: &Vec<Vec<char>>) -> (r: Vec<usize>)
    ensures
        r@.map_values(|x: usize| x as int) == sorted_order(
            texts@.map_values(|k: Vec<char>| k@),
            text_order(),
        ),
        forall|j: int| 0 <= j < r@.len() ==> #[trigger] r@[j] < texts@.len(),
        r@.len() == texts@.len(),
{
    let r = sort_indices_by_text(texts);
    proof {
        lemma_sorted_order_indices(texts@.map_values(|k: Vec<char>| k@), text_order());
        assert forall|j: int| 0 <= j < r@.len() implies #[trigger] r@[j] < texts@.len() by {
            assert(r@.map_values(|x: usize| x as int)[j] == r@[j] as int);
        }
    }
    r
}

/// The dead keys' entry indices ordered by code text.
pub fn sorted_dead_key_indices(l: &Layout) -> (r: Vec<usize>)
    ensures
        r@.map_values(|x: usize| x as int) == dead_key_order(*l),
        forall|j: int| 0 <= j < r@.len() ==> #[trigger] r@[j] < l.dead_keys@.len(),
        r@.len() == l.dead_keys@.len(),
{
    let mut texts: Vec<Vec<char>> = Vec::new();
    let mut i: usize = 0;
    while i < l.dead_keys.len()
        invariant
            i <= l.dead_keys.len(),
            texts@.map_values(|k: Vec<char>| k@) == dead_key_codes(*l).take(i as int),
        decreases l.dead_keys.len() - i,
    {
        let t = chars_of(l.dead_keys[i].0.as_str());
        proof {
            crate::text::lemma_map_push(texts@, t, |k: Vec<char>| k@);
            assert(dead_key_codes(*l).take(i + 1) =~= dead_key_codes(*l).take(i as int).push(
                dead_key_codes(*l)[i as int],
            ));
        }
        texts.push(t);
        i = i + 1;
    }
    assert(dead_key_codes(*l).take(l.dead_keys.len() as int) =~= dead_key_codes(*l));
    sorted_text_indices(&texts)
}

/// A dead key's combination indices ordered by base text.
pub fn sorted_combo_indices(dk: &DeadKey) -> (r: Vec<usize>)
    ensures
        r@.map_values(|x: usize| x as int) == combo_order(*dk),
        forall|j: int| 0 <= j < r@.len() ==> #[trigger] r@[j] < dk.combinations@.len(),
        r@.len() == dk.combinations@.len(),
{
    let mut texts: Vec<Vec<char>> = Vec::new();
    let mut i: usize = 0;
    while i < dk.combinations.len()
        invariant
            i <= dk.combinations.len(),
            texts@.map_values(|k: Vec<char>| k@) == combo_bases(*dk).take(i as int),
        decreases dk.combinations.len() - i,
    {
        let t = chars_of(dk.combinations[i].0.as_str());
        proof {
            crate::text::lemma_map_push(texts@, t, |k: Vec<char>| k@);
            assert(combo_bases(*dk).take(i + 1) =~= combo_bases(*dk).take(i as int).push(
                combo_bases(*dk)[i as int],
            ));
        }
        texts.push(t);
        i = i + 1;
    }
    assert(combo_bases(*dk).take(dk.combinations.len() as int) =~= combo_bases(*dk));
    sorted_text_indices(&texts)
}

/// A copy of a text map with the same entries.
pub fn copy_text_map(m: &Vec<(String, String)>) -> (r: Vec<(String, String)>)
    ensures
        text_map_view(r@) == text_map_view(m@),
{
    let mut r: Vec<(String, String)> = Vec::new();
    let mut i: usize = 0;
    while i < m.len()
        invariant
            i <= m.len(),
            text_map_view(r@) == text_map_view(m@).take(i as int),
        decreases m.len() - i,
    {
        let e = (m[i].0.clone(), m[i].1.clone());
        proof {
            lemma_text_map_view_push(r@, e);
            assert(text_map_view(m@).take(i + 1) =~= text_map_view(m@).take(i as int).push(
                text_map_view(m@)[i as int],
            ));
        }
        r.push(e);
        i = i + 1;
        assert(text_map_view(r@) =~= text_map_view(m@).take(i as int));
    }
    assert(text_map_view(m@).take(m.len() as int) =~= text_map_view(m@));
    r
}

/// Whether every character of `s` satisfies `is_lower_alnum`.
fn all_lower_alnum(s: &str) -> (r: bool)
    ensures
        r == all_lower_alnum_spec(s@),
{
    let cs = crate::text::chars_of(s);
    let mut i: usize = 0;
    while i < cs.len()
        invariant
            i <= cs.len(),
            cs@ == s@,
            forall|j: int| 0 <= j < i ==> is_lower_alnum(#[trigger] cs@[j]),
        decreases cs.len() - i,
    {
        let c = cs[i];
        if !(('a' <= c && c <= 'z') || ('0' <= c && c <= '9')) {
            return false;
        }
        i = i + 1;
    }
    true
}

/// Whether every character of `s` is an ASCII hex digit.
fn all_hex_digits(s: &str) -> (r: bool)
    ensures
        r == all_hex_spec(s@),
{
    let cs = crate::text::chars_of(s);
    let mut i: usize = 0;
    while i < cs.len()
        invariant
            i <= cs.len(),
            cs@ == s@,
            forall|j: int| 0 <= j < i ==> is_hex_digit(#[trigger] cs@[j]),
        decreases cs.len() - i,
    {
        let c = cs[i];
        if !(('a' <= c && c <= 'f') || ('A' <= c && c <= 'F') || ('0' <= c && c <= '9')) {
            return false;
        }
        i = i + 1;
    }
    true
}

/// Whether `s` starts with "apple-".
fn starts_with_apple(s: &str) -> (r: bool)
    ensures
        r == (s@.len() >= 6 && s@.take(6) == apple_prefix()),
{
    let cs = crate::text::chars_of(s);
    if cs.len() < 6 {
        return false;
    }
    let r = cs[0] == 'a' && cs[1] == 'p' && cs[2] == 'p' && cs[3] == 'l' && cs[4] == 'e' && cs[5]
        == '-';
    proof {
        if r {
            assert(s@.take(6) =~= apple_prefix());
        } else {
            if s@.take(6) == apple_prefix() {
                assert(s@.take(6)[0] == s@[0]);
                assert(s@.take(6)[1] == s@[1]);
                assert(s@.take(6)[2] == s@[2]);
                assert(s@.take(6)[3] == s@[3]);
                assert(s@.take(6)[4] == s@[4]);
                assert(s@.take(6)[5] == s@[5]);
            }
        }
    }
    r
}

/// `a`, then `b`, then `c`, as one `String`.
fn concat3(a: &str, b: &str, c: &str) -> (r: String)
    ensures
        r@ == a@ + b@ + c@,
{
    let mut r = string_of(a);
    r.append(b);
    r.append(c);
    r
}

impl Layout {
    /// Build a `LayoutMeta` from the full layout.
    pub fn meta(&self) -> (m: LayoutMeta)
        ensures
            m.id@ == self.id@,
            text_map_view(m.name@) == text_map_view(self.name@),
            m.locale@ == self.locale@,
            text_map_view(m.description@) == text_map_view(self.description@),
            self.wf() ==> m.wf(),
    {
        let m = LayoutMeta {
            id: self.id.clone(),
            name: copy_text_map(&self.name),
            locale: self.locale.clone(),
            description: copy_text_map(&self.description),
        };
        proof {
            lemma_same_view_keys_distinct(self.name@, m.name@);
            lemma_same_view_keys_distinct(self.description@, m.description@);
        }
        m
    }

    /// Validate layout invariants that match the JSON schema constraints.
    pub fn validate(&self) -> (r: Result<(), String>)
        ensures
            match (r, validation(
                self.id@,
                self.dll_name@,
                self.detection_keys@.len(),
                self.keys@.len(),
                self.locale@,
                self.locale_id@,
            )) {
                (Ok(()), Ok(())) => true,
                (Err(e), Err(m)) => e@ == m,
                _ => false,
            },
    {
        let id = self.id.as_str();
        assert(id@ == self.id@);
        // ID must match apple-{xx}-{type}
        let sw = starts_with_apple(id);
        let idlen = id.as_bytes().len();
        assert(idlen == byte_len(self.id@));
        if !sw || idlen < 10 {
            return Err(
                concat3(
                    "Layout ID '",
                    id,
                    "' must start with 'apple-' and include language and type",
                ),
            );
        }
        // DLL name max 8 chars, lowercase alphanumeric

        let dll = self.dll_name.as_str();
        if dll.as_bytes().len() == 0 || dll.as_bytes().len() > 8 {
            return Err(concat3("DLL name '", dll, "' must be 1-8 characters"));
        }
        assert(dll@ == self.dll_name@);
        if !all_lower_alnum(dll) {
            return Err(concat3("DLL name '", dll, "' must be lowercase alphanumeric"));
        }
        // Detection keys: 3-5

        let n = self.detection_keys.len();
        if n < 3 || n > 5 {
            let mut e = concat3("Layout '", id, "' must have 3-5 detection keys, has ");
            e.append(format_dec(n as u64).as_str());
            return Err(e);
        }
        // Must have at least one key mapping

        if self.keys.len() == 0 {
            return Err(concat3("Layout '", id, "' has no key mappings"));
        }
        // Locale must be xx-XX format

        let locale = self.locale.as_str();
        if locale.as_bytes().len() != 5 || locale.as_bytes()[2] != 45u8 {
            let mut e = concat3("Layout '", id, "' locale '");
            e.append(locale);
            e.append("' must be xx-XX format");
            return Err(e);
        }
        // Locale ID must be 8 hex chars

        let locale_id = self.locale_id.as_str();
        if locale_id.as_bytes().len() != 8 || !all_hex_digits(locale_id) {
            let mut e = concat3("Layout '", id, "' locale_id '");
            e.append(locale_id);
            e.append("' must be 8 hex chars");
            return Err(e);
        }
        Ok(())
    }
}

} // verus!
