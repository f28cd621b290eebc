//! Microsoft Scancode Map binary serialization & parsing.
//!
//! The `HKLM\System\CurrentControlSet\Control\Keyboard Layout\Scancode Map`
//! registry value is a `REG_BINARY` whose layout is:
//!   - 8 bytes header (all zeros)
//!   - 4 bytes little-endian count = (number of mapping entries) + 1 for the terminator
//!   - N × 4 bytes mappings: 2 bytes "new" scancode + 2 bytes "old" scancode (little-endian)
//!   - 4 bytes null terminator
//!
//! A scancode is 2 bytes: low byte first, then high byte (00 = normal, E0 = extended).
use vstd::prelude::*;
use crate::text::{
    format_dec, string_of,
    ascii_upper, byte_hex, chars_of, fmt_dec, hex2, hex_digit_value, hex_run_value, hex_value,
    string_from_chars,
    to_ascii_upper,
};

verus! {

broadcast use vstd::string::group_string_axioms;

/// Which of the Mac-style modifier remappings are selected.
#[derive(Debug, Clone, PartialEq, Eq, Structural)]
pub struct ModifierToggles {
    pub swap_cmd_ctrl_left: bool,
    pub swap_cmd_ctrl_right: bool,
    pub caps_to_ctrl: bool,
    pub swap_option_cmd: bool,
}

impl Default for ModifierToggles {
    fn default() -> (t: Self)
        ensures
            !t.swap_cmd_ctrl_left,
            !t.swap_cmd_ctrl_right,
            !t.caps_to_ctrl,
            !t.swap_option_cmd,
    {
        ModifierToggles {
            swap_cmd_ctrl_left: false,
            swap_cmd_ctrl_right: false,
            caps_to_ctrl: false,
            swap_option_cmd: false,
        }
    }
}

/// One Scancode Map entry: when `old_code` is received, the OS reports
/// `new_code`. Both are 4 hex chars, little-endian (e.g. "1D00").
#[derive(Debug, Clone, Eq, Hash)]
pub struct RawScancodePair {
    pub new_code: String,
    pub old_code: String,
}

/// A pair as the two character sequences of its codes.
pub type PairView = (Seq<char>, Seq<char>);

impl View for RawScancodePair {
    type V = PairView;

    open spec fn view(&self) -> PairView {
        (self.new_code@, self.old_code@)
    }
}

impl PartialEq for RawScancodePair {
    fn eq(&self, other: &Self) -> (r: bool) {
        self.new_code == other.new_code && self.old_code == other.old_code
    }
}

impl vstd::std_specs::cmp::PartialEqSpecImpl for RawScancodePair {
    open spec fn obeys_eq_spec() -> bool {
        true
    }

    open spec fn eq_spec(&self, other: &Self) -> bool {
        self@ == other@
    }
}

/// The modifier toggles recognised in a Scancode Map, whether it holds
/// anything else, and every entry it holds.
#[derive(Debug, Clone, PartialEq, Eq)]
pub struct ModifierState {
    pub current: ModifierToggles,
    pub has_external_mappings: bool,
    pub raw_entries: Vec<RawScancodePair>,
}

// ── Scancode constants (low byte, high byte) — high byte 0xE0 marks "extended" ───
pub const LCTRL: [u8; 2] = [0x1D, 0x00];

pub const RCTRL: [u8; 2] = [0x1D, 0xE0];

pub const LWIN: [u8; 2] = [0x5B, 0xE0];

pub const RWIN: [u8; 2] = [0x5C, 0xE0];

pub const LALT: [u8; 2] = [0x38, 0x00];

pub const RALT: [u8; 2] = [0x38, 0xE0];

pub const CAPS: [u8; 2] = [0x3A, 0x00];

// ── Specification ────────────────────────────────────────────────────────────

/// The 4-hex-char upper-case text of a 2-byte scancode.
pub open spec fn code_text(b: [u8; 2]) -> Seq<char> {
    hex2(b[0]) + hex2(b[1])
}

/// The pair view built from two scancodes.
pub open spec fn pair_of(new: [u8; 2], old: [u8; 2]) -> PairView {
    (code_text(new), code_text(old))
}

/// The views of a sequence of pairs.
pub open spec fn pairs_view(ps: Seq<RawScancodePair>) -> Seq<PairView> {
    ps.map_values(|p: RawScancodePair| p@)
}

/// Canonical pairs of each toggle, in emission order.
pub open spec fn cmd_ctrl_left_group() -> Seq<PairView> {
    seq![pair_of(LCTRL, LWIN), pair_of(LWIN, LCTRL)]
}

pub open spec fn cmd_ctrl_right_group() -> Seq<PairView> {
    seq![pair_of(RCTRL, RWIN), pair_of(RWIN, RCTRL)]
}

pub open spec fn caps_group() -> Seq<PairView> {
    seq![pair_of(LCTRL, CAPS)]
}

pub open spec fn option_cmd_group() -> Seq<PairView> {
    seq![pair_of(LALT, LWIN), pair_of(LWIN, LALT), pair_of(RALT, RWIN), pair_of(RWIN, RALT)]
}

/// The pairs a toggle selection produces, in the order they are written.
pub open spec fn toggle_pairs(t: ModifierToggles) -> Seq<PairView> {
    (if t.swap_cmd_ctrl_left {
        cmd_ctrl_left_group()
    } else {
        seq![]
    }) + (if t.swap_cmd_ctrl_right {
        cmd_ctrl_right_group()
    } else {
        seq![]
    }) + (if t.caps_to_ctrl {
        caps_group()
    } else {
        seq![]
    }) + (if t.swap_option_cmd {
        option_cmd_group()
    } else {
        seq![]
    })
}

/// Whether `s` names, in either letter case, the source scancode of a key
/// that the modifier toggles manage.
pub open spec fn is_modifier_code(s: Seq<char>) -> bool {
    let u = ascii_upper(s);
    ||| u == code_text(LCTRL)
    ||| u == code_text(RCTRL)
    ||| u == code_text(LWIN)
    ||| u == code_text(RWIN)
    ||| u == code_text(LALT)
    ||| u == code_text(RALT)
    ||| u == code_text(CAPS)
}

/// The two bytes a code stands for when it is exactly four ASCII hex
/// digits (either case): the first two digits are the low byte, the last
/// two the high byte; `None` for anything else.
pub open spec fn hex_pair(s: Seq<char>) -> Option<(u8, u8)> {
    if s.len() == 4 {
        match (hex_run_value(s.take(2)), hex_run_value(s.skip(2))) {
            (Some(a), Some(b)) => Some((a as u8, b as u8)),
            _ => None,
        }
    } else {
        None
    }
}

/// The two bytes written for a code: its value, or zeros when malformed.
pub open spec fn code_bytes(s: Seq<char>) -> Seq<u8> {
    match hex_pair(s) {
        Some((lo, hi)) => seq![lo, hi],
        None => seq![0u8, 0u8],
    }
}

/// The four bytes of one entry: new code, then old code.
pub open spec fn entry_bytes(p: PairView) -> Seq<u8> {
    code_bytes(p.0) + code_bytes(p.1)
}

/// The entries' bytes, in order.
pub open spec fn entries_bytes(ps: Seq<PairView>) -> Seq<u8>
    decreases ps.len(),
{
    if ps.len() == 0 {
        seq![]
    } else {
        entries_bytes(ps.drop_last()) + entry_bytes(ps.last())
    }
}

/// Little-endian bytes of a 32-bit value.
pub open spec fn le32(n: nat) -> Seq<u8> {
    seq![
        (n % 256) as u8,
        ((n / 256) % 256) as u8,
        ((n / 65536) % 256) as u8,
        ((n / 16777216) % 256) as u8,
    ]
}

/// `n` zero bytes.
pub open spec fn zeros(n: nat) -> Seq<u8> {
    Seq::new(n, |_i: int| 0u8)
}

/// The Scancode Map value for a list of pairs: empty for no pairs, else the
/// zero header, the count (entries + terminator, kept to 32 bits), the
/// entries and the zero terminator.
pub open spec fn scancode_map_bytes(ps: Seq<PairView>) -> Seq<u8> {
    if ps.len() == 0 {
        seq![]
    } else {
        zeros(8) + le32((ps.len() + 1) % 0x1_0000_0000) + entries_bytes(ps) + zeros(4)
    }
}

/// The little-endian 32-bit value at `off`.
pub open spec fn read_le32(b: Seq<u8>, off: int) -> nat {
    (b[off] + b[off + 1] * 256 + b[off + 2] * 65536 + b[off + 3] * 16777216) as nat
}

/// The pair stored in the four bytes at `off`.
pub open spec fn chunk_pair(b: Seq<u8>, off: int) -> PairView {
    (hex2(b[off]) + hex2(b[off + 1]), hex2(b[off + 2]) + hex2(b[off + 3]))
}

/// The outcome of parsing a Scancode Map value.
pub open spec fn parse_spec(b: Seq<u8>) -> Result<Seq<PairView>, Seq<char>> {
    if b.len() == 0 {
        Ok(seq![])
    } else if b.len() < 16 {
        Err("Scancode Map too short: "@ + fmt_dec(b.len()) + " bytes (need >= 16)"@)
    } else {
        let count = read_le32(b, 8);
        if count == 0 {
            Err("Scancode Map count is 0; expected >= 1 (terminator)"@)
        } else if b.len() < 12 + 4 * count {
            Err(
                "Scancode Map truncated: header says "@ + fmt_dec(count) + " entries (need "@
                    + fmt_dec(12 + 4 * count as nat) + " bytes total) but got "@ + fmt_dec(
                    b.len(),
                ),
            )
        } else if b.subrange(12 + 4 * (count - 1), (12 + 4 * count) as int) != zeros(4) {
            Err("Scancode Map missing null terminator"@)
        } else {
            Ok(Seq::new((count - 1) as nat, |i: int| chunk_pair(b, 12 + 4 * i)))
        }
    }
}

/// Whether every pair of `g` occurs in `ps`.
pub open spec fn group_present(ps: Seq<PairView>, g: Seq<PairView>) -> bool {
    forall|i: int| 0 <= i < g.len() ==> ps.contains(#[trigger] g[i])
}

/// The toggles whose canonical pairs all occur in `ps`.
pub open spec fn derived_toggles(ps: Seq<PairView>) -> ModifierToggles {
    ModifierToggles {
        swap_cmd_ctrl_left: group_present(ps, cmd_ctrl_left_group()),
        swap_cmd_ctrl_right: group_present(ps, cmd_ctrl_right_group()),
        caps_to_ctrl: group_present(ps, caps_group()),
        swap_option_cmd: group_present(ps, option_cmd_group()),
    }
}

/// Whether `p` is a canonical pair of a toggle that is on in `t`.
pub open spec fn accounted_for(t: ModifierToggles, p: PairView) -> bool {
    ||| t.swap_cmd_ctrl_left && cmd_ctrl_left_group().contains(p)
    ||| t.swap_cmd_ctrl_right && cmd_ctrl_right_group().contains(p)
    ||| t.caps_to_ctrl && caps_group().contains(p)
    ||| t.swap_option_cmd && option_cmd_group().contains(p)
}

/// Whether `ps` holds a pair that no recognised toggle accounts for.
pub open spec fn has_external(ps: Seq<PairView>) -> bool {
    exists|i: int| 0 <= i < ps.len() && !accounted_for(derived_toggles(ps), #[trigger] ps[i])
}

/// A pair whose codes are both the 4-char upper-case text of two bytes, as
/// this module writes and reads them.
pub open spec fn canonical_code(s: Seq<char>) -> bool {
    exists|lo: u8, hi: u8| s == hex2(lo) + hex2(hi)
}

pub open spec fn canonical_pair(p: PairView) -> bool {
    canonical_code(p.0) && canonical_code(p.1)
}

// ── Lemmas ───────────────────────────────────────────────────────────────────

/// Viewing after a push is pushing the view.
pub proof fn lemma_pairs_view_push(s: Seq<RawScancodePair>, p: RawScancodePair)
    ensures
        pairs_view(s.push(p)) == pairs_view(s).push(p@),
{
    assert(pairs_view(s.push(p)) =~= pairs_view(s).push(p@));
}

/// The pairs of any toggle selection are at most nine.
pub proof fn lemma_toggle_pairs_canonical(t: ModifierToggles)
    ensures
        toggle_pairs(t).len() <= 9,
{
}

// ── Laws ─────────────────────────────────────────────────────────────────────

/// Scancode texts of different scancodes differ.
pub proof fn lemma_code_text_injective(a: [u8; 2], b: [u8; 2])
    requires
        a[0] != b[0] || a[1] != b[1],
    ensures
        code_text(a) != code_text(b),
{
    if code_text(a) == code_text(b) {
        assert(hex2(a[0]) =~= code_text(a).take(2));
        assert(hex2(b[0]) =~= code_text(b).take(2));
        assert(hex2(a[1]) =~= code_text(a).skip(2));
        assert(hex2(b[1]) =~= code_text(b).skip(2));
        if a[0] != b[0] {
            crate::text::lemma_hex2_injective(a[0], b[0]);
        } else {
            crate::text::lemma_hex2_injective(a[1], b[1]);
        }
    }
}

/// The seven modifier scancodes have pairwise different texts.
proof fn lemma_modifier_codes_distinct()
    ensures
        code_text(LCTRL) != code_text(RCTRL),
        code_text(LCTRL) != code_text(LWIN),
        code_text(LCTRL) != code_text(RWIN),
        code_text(LCTRL) != code_text(LALT),
        code_text(LCTRL) != code_text(RALT),
        code_text(LCTRL) != code_text(CAPS),
        code_text(RCTRL) != code_text(LWIN),
        code_text(RCTRL) != code_text(RWIN),
        code_text(RCTRL) != code_text(LALT),
        code_text(RCTRL) != code_text(RALT),
        code_text(RCTRL) != code_text(CAPS),
        code_text(LWIN) != code_text(RWIN),
        code_text(LWIN) != code_text(LALT),
        code_text(LWIN) != code_text(RALT),
        code_text(LWIN) != code_text(CAPS),
        code_text(RWIN) != code_text(LALT),
        code_text(RWIN) != code_text(RALT),
        code_text(RWIN) != code_text(CAPS),
        code_text(LALT) != code_text(RALT),
        code_text(LALT) != code_text(CAPS),
        code_text(RALT) != code_text(CAPS),
{
    lemma_code_text_injective(LCTRL, RCTRL);
    lemma_code_text_injective(LCTRL, LWIN);
    lemma_code_text_injective(LCTRL, RWIN);
    lemma_code_text_injective(LCTRL, LALT);
    lemma_code_text_injective(LCTRL, RALT);
    lemma_code_text_injective(LCTRL, CAPS);
    lemma_code_text_injective(RCTRL, LWIN);
    lemma_code_text_injective(RCTRL, RWIN);
    lemma_code_text_injective(RCTRL, LALT);
    lemma_code_text_injective(RCTRL, RALT);
    lemma_code_text_injective(RCTRL, CAPS);
    lemma_code_text_injective(LWIN, RWIN);
    lemma_code_text_injective(LWIN, LALT);
    lemma_code_text_injective(LWIN, RALT);
    lemma_code_text_injective(LWIN, CAPS);
    lemma_code_text_injective(RWIN, LALT);
    lemma_code_text_injective(RWIN, RALT);
    lemma_code_text_injective(RWIN, CAPS);
    lemma_code_text_injective(LALT, RALT);
    lemma_code_text_injective(LALT, CAPS);
    lemma_code_text_injective(RALT, CAPS);
}

proof fn lemma_contains_concat(a: Seq<PairView>, b: Seq<PairView>, x: PairView)
    ensures
        (a + b).contains(x) <==> a.contains(x) || b.contains(x),
{
    if (a + b).contains(x) {
        let k = choose|k: int| 0 <= k < (a + b).len() && (a + b)[k] == x;
        if k < a.len() {
            assert(a[k] == x);
        } else {
            assert(b[k - a.len()] == x);
        }
    }
    if a.contains(x) {
        let k = choose|k: int| 0 <= k < a.len() && a[k] == x;
        assert((a + b)[k] == x);
    }
    if b.contains(x) {
        let k = choose|k: int| 0 <= k < b.len() && b[k] == x;
        assert((a + b)[k + a.len()] == x);
    }
}

/// A pair occurs among a selection's pairs exactly when a selected toggle
/// accounts for it.
proof fn lemma_toggle_pairs_contains(t: ModifierToggles, x: PairView)
    ensures
        toggle_pairs(t).contains(x) <==> accounted_for(t, x),
{
    let e: Seq<PairView> = seq![];
    let a = if t.swap_cmd_ctrl_left { cmd_ctrl_left_group() } else { e };
    let b = if t.swap_cmd_ctrl_right { cmd_ctrl_right_group() } else { e };
    let c = if t.caps_to_ctrl { caps_group() } else { e };
    let d = if t.swap_option_cmd { option_cmd_group() } else { e };
    lemma_contains_concat(a, b, x);
    lemma_contains_concat(a + b, c, x);
    lemma_contains_concat(a + b + c, d, x);
    assert(!e.contains(x));
}

/// No canonical pair of one toggle belongs to another toggle.
proof fn lemma_groups_disjoint()
    ensures
        !cmd_ctrl_right_group().contains(pair_of(LCTRL, LWIN)),
        !caps_group().contains(pair_of(LCTRL, LWIN)),
        !option_cmd_group().contains(pair_of(LCTRL, LWIN)),
        !cmd_ctrl_left_group().contains(pair_of(RCTRL, RWIN)),
        !caps_group().contains(pair_of(RCTRL, RWIN)),
        !option_cmd_group().contains(pair_of(RCTRL, RWIN)),
        !cmd_ctrl_left_group().contains(pair_of(LCTRL, CAPS)),
        !cmd_ctrl_right_group().contains(pair_of(LCTRL, CAPS)),
        !option_cmd_group().contains(pair_of(LCTRL, CAPS)),
        !cmd_ctrl_left_group().contains(pair_of(LALT, LWIN)),
        !cmd_ctrl_right_group().contains(pair_of(LALT, LWIN)),
        !caps_group().contains(pair_of(LALT, LWIN)),
{
    lemma_modifier_codes_distinct();
}

/// Reading back the pairs that a toggle selection writes recognises exactly
/// that selection, and finds nothing foreign.
pub proof fn derive_state_recovers_toggles(t: ModifierToggles)
    ensures
        derived_toggles(toggle_pairs(t)) == t,
        !has_external(toggle_pairs(t)),
{
    let tp = toggle_pairs(t);
    lemma_groups_disjoint();
    assert forall|x: PairView| tp.contains(x) <==> accounted_for(t, x) by {
        lemma_toggle_pairs_contains(t, x);
    }
    assert(cmd_ctrl_left_group()[0] == pair_of(LCTRL, LWIN));
    assert(cmd_ctrl_right_group()[0] == pair_of(RCTRL, RWIN));
    assert(caps_group()[0] == pair_of(LCTRL, CAPS));
    assert(option_cmd_group()[0] == pair_of(LALT, LWIN));
    assert(cmd_ctrl_left_group().contains(cmd_ctrl_left_group()[1]));
    assert(cmd_ctrl_left_group().contains(cmd_ctrl_left_group()[0]));
    assert(cmd_ctrl_right_group().contains(cmd_ctrl_right_group()[0]));
    assert(cmd_ctrl_right_group().contains(cmd_ctrl_right_group()[1]));
    assert(caps_group().contains(caps_group()[0]));
    assert(option_cmd_group().contains(option_cmd_group()[0]));
    assert(option_cmd_group().contains(option_cmd_group()[1]));
    assert(option_cmd_group().contains(option_cmd_group()[2]));
    assert(option_cmd_group().contains(option_cmd_group()[3]));
    assert(group_present(tp, cmd_ctrl_left_group()) == t.swap_cmd_ctrl_left);
    assert(group_present(tp, cmd_ctrl_right_group()) == t.swap_cmd_ctrl_right);
    assert(group_present(tp, caps_group()) == t.caps_to_ctrl);
    assert(group_present(tp, option_cmd_group()) == t.swap_option_cmd);
    assert(derived_toggles(tp) == t);
    assert forall|i: int| 0 <= i < tp.len() implies accounted_for(
        derived_toggles(tp),
        #[trigger] tp[i],
    ) by {
        assert(tp.contains(tp[i]));
    }
}

/// Reading a little-endian 32-bit value gives the value back.
proof fn lemma_le32_value(m: u32)
    ensures
        (m % 256) as nat + ((m / 256) % 256) as nat * 256 + ((m / 65536) % 256) as nat * 65536 + ((m
            / 16777216) % 256) as nat * 16777216 == m as nat,
{
    assert((m % 256) + ((m / 256) % 256) * 256 + ((m / 65536) % 256) * 65536 + ((m / 16777216)
        % 256) * 16777216 == m) by (nonlinear_arith);
}

/// The entries' bytes hold each entry's four bytes at four times its index.
proof fn lemma_entries_bytes(ps: Seq<PairView>)
    ensures
        entries_bytes(ps).len() == 4 * ps.len(),
        forall|i: int, k: int|
            0 <= i < ps.len() && 0 <= k < 4 ==> #[trigger] entries_bytes(ps)[4 * i + k]
                == entry_bytes(ps[i])[k],
    decreases ps.len(),
{
    if ps.len() > 0 {
        lemma_entries_bytes(ps.drop_last());
        let e = entries_bytes(ps);
        assert forall|i: int, k: int| 0 <= i < ps.len() && 0 <= k < 4 implies #[trigger] e[4 * i
            + k] == entry_bytes(ps[i])[k] by {
            if i < ps.len() - 1 {
                assert(ps.drop_last()[i] == ps[i]);
                assert(e[4 * i + k] == entries_bytes(ps.drop_last())[4 * i + k]);
            }
        }
    }
}

/// A canonical code stands for the two bytes whose text it is.
proof fn lemma_canonical_code_bytes(s: Seq<char>)
    requires
        canonical_code(s),
    ensures
        code_bytes(s).len() == 2,
        hex2(code_bytes(s)[0]) + hex2(code_bytes(s)[1]) == s,
{
    let (lo, hi) = choose|lo: u8, hi: u8| s == hex2(lo) + hex2(hi);
    crate::text::lemma_hex2_value(lo);
    crate::text::lemma_hex2_value(hi);
    assert(s.take(2) =~= hex2(lo));
    assert(s.skip(2) =~= hex2(hi));
    assert(hex_pair(s) == Some((lo, hi)));
}

/// The value a toggle selection writes is at most 52 bytes long: the
/// header, nine entries and the terminator.
pub proof fn lemma_toggle_map_len(t: ModifierToggles)
    ensures
        toggle_pairs(t).len() <= 9,
        scancode_map_bytes(toggle_pairs(t)).len() <= 52,
        scancode_map_bytes(toggle_pairs(t)).len() == 0 <==> toggle_pairs(t).len() == 0,
{
    lemma_entries_bytes(toggle_pairs(t));
}

/// The value for `n` pairs is empty when `n` is zero, else 16 + 4n bytes.
pub proof fn lemma_map_bytes_len(ps: Seq<PairView>)
    ensures
        scancode_map_bytes(ps).len() == (if ps.len() == 0 {
            0
        } else {
            16 + 4 * ps.len()
        }),
{
    lemma_entries_bytes(ps);
}

/// Parsing the Scancode Map built from canonical pairs gives the pairs back.
pub proof fn parse_inverts_build(ps: Seq<PairView>)
    requires
        forall|i: int| 0 <= i < ps.len() ==> canonical_pair(#[trigger] ps[i]),
        ps.len() + 1 < 0x1_0000_0000,
    ensures
        parse_spec(scancode_map_bytes(ps)) == Ok::<Seq<PairView>, Seq<char>>(ps),
{
    let b = scancode_map_bytes(ps);
    if ps.len() > 0 {
        let n: int = ps.len() as int;
        let e = entries_bytes(ps);
        lemma_entries_bytes(ps);
        let m: u32 = (n + 1) as u32;
        assert((n + 1) % 0x1_0000_0000 == n + 1);
        lemma_le32_value(m);
        assert(b.len() == 16 + 4 * n);
        assert(b[8] == (m % 256) as u8);
        assert(b[9] == ((m / 256) % 256) as u8);
        assert(b[10] == ((m / 65536) % 256) as u8);
        assert(b[11] == ((m / 16777216) % 256) as u8);
        assert(read_le32(b, 8) == n + 1);
        assert(b.subrange(12 + 4 * n, 16 + 4 * n) =~= zeros(4));
        assert forall|i: int| 0 <= i < n implies #[trigger] chunk_pair(b, 12 + 4 * i) == ps[i] by {
            let p = ps[i];
            lemma_canonical_code_bytes(p.0);
            lemma_canonical_code_bytes(p.1);
            assert(b[12 + 4 * i] == e[4 * i + 0]);
            assert(b[12 + 4 * i + 1] == e[4 * i + 1]);
            assert(b[12 + 4 * i + 2] == e[4 * i + 2]);
            assert(b[12 + 4 * i + 3] == e[4 * i + 3]);
        }
        let count = read_le32(b, 8);
        assert(count == n + 1);
        assert(!(b.len() < 12 + 4 * count));
        assert(b.subrange(12 + 4 * (count - 1), (12 + 4 * count) as int) =~= zeros(4));
        assert(Seq::new((count - 1) as nat, |i: int| chunk_pair(b, 12 + 4 * i)) =~= ps);
    } else {
        assert(ps =~= Seq::<PairView>::empty());
    }
}

/// Upper-case hex text is unchanged by ASCII upper-casing.
proof fn lemma_code_text_upper(b: [u8; 2])
    ensures
        ascii_upper(code_text(b)) == code_text(b),
{
    assert(ascii_upper(code_text(b)) =~= code_text(b));
}

proof fn lemma_pair_of_canonical(new: [u8; 2], old: [u8; 2])
    ensures
        canonical_pair(pair_of(new, old)),
{
    assert(code_text(new) == hex2(new[0]) + hex2(new[1]));
    assert(code_text(old) == hex2(old[0]) + hex2(old[1]));
}

/// Every pair a toggle selection writes maps a modifier key to a modifier
/// key, so other write paths that keep away from modifier sources never
/// touch them, and every such pair is canonical.
pub proof fn toggle_pairs_stay_on_modifier_keys(t: ModifierToggles)
    ensures
        forall|i: int|
            0 <= i < toggle_pairs(t).len() ==> is_modifier_code(#[trigger] toggle_pairs(t)[i].0)
                && is_modifier_code(toggle_pairs(t)[i].1) && canonical_pair(toggle_pairs(t)[i]),
{
    lemma_code_text_upper(LCTRL);
    lemma_code_text_upper(RCTRL);
    lemma_code_text_upper(LWIN);
    lemma_code_text_upper(RWIN);
    lemma_code_text_upper(LALT);
    lemma_code_text_upper(RALT);
    lemma_code_text_upper(CAPS);
    lemma_pair_of_canonical(LCTRL, LWIN);
    lemma_pair_of_canonical(LWIN, LCTRL);
    lemma_pair_of_canonical(RCTRL, RWIN);
    lemma_pair_of_canonical(RWIN, RCTRL);
    lemma_pair_of_canonical(LCTRL, CAPS);
    lemma_pair_of_canonical(LALT, LWIN);
    lemma_pair_of_canonical(LWIN, LALT);
    lemma_pair_of_canonical(RALT, RWIN);
    lemma_pair_of_canonical(RWIN, RALT);
    let tp = toggle_pairs(t);
    assert forall|i: int| 0 <= i < tp.len() implies is_modifier_code(#[trigger] tp[i].0)
        && is_modifier_code(tp[i].1) && canonical_pair(tp[i]) by {
        lemma_toggle_pairs_contains(t, tp[i]);
        assert(tp.contains(tp[i]));
    }
}

/// Writing a toggle selection and reading the value back gives the same
/// pairs, and recognises exactly the selection with nothing foreign.
pub proof fn written_toggles_read_back(t: ModifierToggles)
    ensures
        parse_spec(scancode_map_bytes(toggle_pairs(t))) == Ok::<Seq<PairView>, Seq<char>>(
            toggle_pairs(t),
        ),
        derived_toggles(toggle_pairs(t)) == t,
        !has_external(toggle_pairs(t)),
{
    toggle_pairs_stay_on_modifier_keys(t);
    lemma_toggle_pairs_canonical(t);
    parse_inverts_build(toggle_pairs(t));
    derive_state_recovers_toggles(t);
}

/// The source codes of every toggle's canonical pairs are modifier keys.
pub proof fn lemma_groups_on_modifier_keys()
    ensures
        forall|i: int| 0 <= i < cmd_ctrl_left_group().len() ==> is_modifier_code(#[trigger] cmd_ctrl_left_group()[i].1),
        forall|i: int| 0 <= i < cmd_ctrl_right_group().len() ==> is_modifier_code(#[trigger] cmd_ctrl_right_group()[i].1),
        forall|i: int| 0 <= i < caps_group().len() ==> is_modifier_code(#[trigger] caps_group()[i].1),
        forall|i: int| 0 <= i < option_cmd_group().len() ==> is_modifier_code(#[trigger] option_cmd_group()[i].1),
{
    lemma_code_text_upper(LCTRL);
    lemma_code_text_upper(RCTRL);
    lemma_code_text_upper(LWIN);
    lemma_code_text_upper(RWIN);
    lemma_code_text_upper(LALT);
    lemma_code_text_upper(RALT);
    lemma_code_text_upper(CAPS);
}

// ── Executable code ──────────────────────────────────────────────────────────

/// Format a 2-byte little-endian scancode as a 4-hex-char uppercase string
/// (matching the format used by `RawScancodePair`).
fn bytes_to_hex_pair(b: [u8; 2]) -> (s: String)
    ensures
        s@ == code_text(b),
{
    let mut s = byte_hex(b[0]);
    let hi = byte_hex(b[1]);
    s.append(hi.as_str());
    s
}

/// The value of two hex digits, high digit first.
proof fn lemma_two_digits(s: Seq<char>, hi: nat, lo: nat)
    requires
        s.len() == 2,
        hex_value(s[0]) == Some(hi),
        hex_value(s[1]) == Some(lo),
    ensures
        hex_run_value(s) == Some(hi * 16 + lo),
{
    let p = s.drop_last();
    assert(p =~= seq![s[0]]);
    assert(p.drop_last() =~= Seq::<char>::empty());
    assert(hex_run_value(p.drop_last()) == Some(0nat));
    assert(p.last() == s[0]);
    assert(hex_run_value(p) == Some(hi));
    assert(s.last() == s[1]);
}

/// Parse a 4-hex-char little-endian scancode back to its 2 bytes; `None`
/// unless the code is exactly four ASCII hex digits.
fn hex_pair_to_bytes(s: &str) -> (r: Option<[u8; 2]>)
    ensures
        r matches Some(b) ==> hex_pair(s@) == Some((b[0], b[1])),
        r is None ==> hex_pair(s@) is None,
{
    let cs = chars_of(s);
    if cs.len() != 4 {
        return None;
    }
    let d0 = hex_digit_value(cs[0]);
    let d1 = hex_digit_value(cs[1]);
    let d2 = hex_digit_value(cs[2]);
    let d3 = hex_digit_value(cs[3]);
    proof {
        lemma_hex_run_two(s@.take(2));
        lemma_hex_run_two(s@.skip(2));
    }
    match (d0, d1, d2, d3) {
        (Some(a0), Some(a1), Some(a2), Some(a3)) => {
            proof {
                lemma_two_digits(s@.take(2), a0 as nat, a1 as nat);
                lemma_two_digits(s@.skip(2), a2 as nat, a3 as nat);
            }
            Some([a0 * 16 + a1, a2 * 16 + a3])
        },
        _ => None,
    }
}

/// A run of two characters has a value only when both are hex digits.
proof fn lemma_hex_run_two(s: Seq<char>)
    requires
        s.len() == 2,
    ensures
        hex_run_value(s) is Some ==> hex_value(s[0]) is Some && hex_value(s[1]) is Some,
{
    let p = s.drop_last();
    assert(p =~= seq![s[0]]);
    assert(p.drop_last() =~= Seq::<char>::empty());
    assert(hex_run_value(p.drop_last()) == Some(0nat));
    assert(p.last() == s[0]);
    assert(s.last() == s[1]);
    if hex_value(s[0]) is None {
        assert(hex_run_value(p) is None);
    }
    if hex_run_value(p) is None || hex_value(s[1]) is None {
        assert(hex_run_value(s) is None);
    }
}

/// Build a `RawScancodePair` from raw new/old byte arrays.
fn raw_pair(new: [u8; 2], old: [u8; 2]) -> (p: RawScancodePair)
    ensures
        p@ == pair_of(new, old),
{
    RawScancodePair { new_code: bytes_to_hex_pair(new), old_code: bytes_to_hex_pair(old) }
}

/// A copy of a pair with the same codes.
pub fn copy_pair(p: &RawScancodePair) -> (q: RawScancodePair)
    ensures
        q@ == p@,
{
    RawScancodePair { new_code: p.new_code.clone(), old_code: p.old_code.clone() }
}

/// Return the list of `RawScancodePair`s produced by a given toggle selection.
/// Pure: no I/O, no byte serialization. The order matches the byte-emission
/// order of `build_scancode_map` so a round-trip is byte-identical.
pub fn modifier_pairs_from_toggles(toggles: &ModifierToggles) -> (pairs: Vec<RawScancodePair>)
    ensures
        pairs_view(pairs@) == toggle_pairs(*toggles),
{
    let mut pairs: Vec<RawScancodePair> = Vec::new();
    let ghost mut expect: Seq<PairView> = seq![];
    if toggles.swap_cmd_ctrl_left {
        pairs.push(raw_pair(LCTRL, LWIN));  // LWin pressed → LCtrl emitted
        pairs.push(raw_pair(LWIN, LCTRL));  // LCtrl pressed → LWin emitted
        proof {
            expect = expect + cmd_ctrl_left_group();
        }
    }
    assert(pairs_view(pairs@) =~= expect);
    if toggles.swap_cmd_ctrl_right {
        pairs.push(raw_pair(RCTRL, RWIN));
        pairs.push(raw_pair(RWIN, RCTRL));
        proof {
            expect = expect + cmd_ctrl_right_group();
        }
    }
    assert(pairs_view(pairs@) =~= expect);
    if toggles.caps_to_ctrl {
        pairs.push(raw_pair(LCTRL, CAPS));  // one-way: CapsLock → LCtrl
        proof {
            expect = expect + caps_group();
        }
    }
    assert(pairs_view(pairs@) =~= expect);
    if toggles.swap_option_cmd {
        pairs.push(raw_pair(LALT, LWIN));
        pairs.push(raw_pair(LWIN, LALT));
        pairs.push(raw_pair(RALT, RWIN));
        pairs.push(raw_pair(RWIN, RALT));
        proof {
            expect = expect + option_cmd_group();
        }
    }
    assert(pairs_view(pairs@) =~= expect);
    assert(expect =~= toggle_pairs(*toggles));
    pairs
}

/// Returns true when `old_code` (4-hex-char little-endian source scancode)
/// belongs to a key whose Scancode-Map entries are managed by the modifier
/// toggles subsystem. Used by other write paths (e.g. F12 remap) to avoid
/// clobbering modifier pairs and vice versa.
pub fn is_modifier_source(old_code: &str) -> (r: bool)
    ensures
        r == is_modifier_code(old_code@),
{
    let upper = string_from_chars(to_ascii_upper(&chars_of(old_code)));
    let sources: [[u8; 2]; 7] = [LCTRL, RCTRL, LWIN, RWIN, LALT, RALT, CAPS];
    let mut i: usize = 0;
    while i < 7
        invariant
            i <= 7,
            upper@ == ascii_upper(old_code@),
            sources@ == seq![LCTRL, RCTRL, LWIN, RWIN, LALT, RALT, CAPS],
            forall|j: int| 0 <= j < i ==> upper@ != code_text(#[trigger] sources@[j]),
        decreases 7 - i,
    {
        let code = bytes_to_hex_pair(sources[i]);
        if code == upper {
            return true;
        }
        i = i + 1;
    }
    assert(upper@ != code_text(sources@[0]));
    assert(upper@ != code_text(sources@[1]));
    assert(upper@ != code_text(sources@[2]));
    assert(upper@ != code_text(sources@[3]));
    assert(upper@ != code_text(sources@[4]));
    assert(upper@ != code_text(sources@[5]));
    assert(upper@ != code_text(sources@[6]));
    false
}

/// Little-endian bytes of a 32-bit value.
fn le_bytes(n: u32) -> (b: [u8; 4])
    ensures
        b@ == le32(n as nat),
{
    let b = [
        (n % 256) as u8,
        ((n / 256) % 256) as u8,
        ((n / 65536) % 256) as u8,
        ((n / 16777216) % 256) as u8,
    ];
    assert(b@ =~= le32(n as nat));
    b
}

/// Serialize an arbitrary list of `RawScancodePair`s into the binary Scancode
/// Map registry value. Returns an EMPTY vec when `pairs` is empty — the caller
/// should DELETE the registry value rather than write a header-only blob.
/// A code that is not exactly four ASCII hex digits is written as zero
/// bytes; no code makes it fail.
pub fn build_scancode_map_from_pairs(pairs: &[RawScancodePair]) -> (buf: Vec<u8>)
    requires
        pairs@.len() * 4 + 16 <= usize::MAX,
    ensures
        buf@ == scancode_map_bytes(pairs_view(pairs@)),
{
    if pairs.len() == 0 {
        return Vec::new();
    }
    let count: u32 = ((pairs.len() as u64 + 1) % 0x1_0000_0000) as u32;  // +1 for the null terminator
    let mut buf: Vec<u8> = Vec::with_capacity(8 + 4 + pairs.len() * 4 + 4);
    let mut k: usize = 0;
    while k < 8
        invariant
            k <= 8,
            buf@ == zeros(k as nat),
        decreases 8 - k,
    {
        buf.push(0u8);
        k = k + 1;
        assert(buf@ =~= zeros(k as nat));
    }
    let c = le_bytes(count);
    buf.push(c[0]);
    buf.push(c[1]);
    buf.push(c[2]);
    buf.push(c[3]);
    let ghost head = zeros(8) + le32((pairs@.len() + 1) % 0x1_0000_0000);
    assert(buf@ =~= head);
    let ghost pv = pairs_view(pairs@);
    let mut i: usize = 0;
    while i < pairs.len()
        invariant
            i <= pairs.len(),
            pv == pairs_view(pairs@),
            buf@ == head + entries_bytes(pv.take(i as int)),
        decreases pairs.len() - i,
    {
        // Strings produced by us are always valid 4-hex-char codes. A
        // hand-crafted malformed pair falls back to zero bytes.
        let p = &pairs[i];
        let new_b = match hex_pair_to_bytes(p.new_code.as_str()) {
            Some(b) => b,
            None => [0u8, 0u8],
        };
        let old_b = match hex_pair_to_bytes(p.old_code.as_str()) {
            Some(b) => b,
            None => [0u8, 0u8],
        };
        buf.push(new_b[0]);
        buf.push(new_b[1]);
        buf.push(old_b[0]);
        buf.push(old_b[1]);
        proof {
            assert(pv.take(i + 1).drop_last() =~= pv.take(i as int));
            assert(pv.take(i + 1).last() == p@);
            assert(entry_bytes(p@) =~= seq![new_b[0], new_b[1], old_b[0], old_b[1]]);
        }
        i = i + 1;
        assert(buf@ =~= head + entries_bytes(pv.take(i as int)));
    }
    assert(pv.take(pairs.len() as int) =~= pv);
    let mut k: usize = 0;
    let ghost body = buf@;
    while k < 4
        invariant
            k <= 4,
            buf@ == body + zeros(k as nat),
        decreases 4 - k,
    {
        buf.push(0u8);
        k = k + 1;
        assert(buf@ =~= body + zeros(k as nat));
    }
    assert(buf@ =~= scancode_map_bytes(pv));
    buf
}

/// Build the binary Scancode Map value from the user's toggle selection.
/// Returns an EMPTY vec when no toggles are active — the caller should DELETE
/// the registry value rather than write a header-only blob.
pub fn build_scancode_map(toggles: &ModifierToggles) -> (buf: Vec<u8>)
    ensures
        buf@ == scancode_map_bytes(toggle_pairs(*toggles)),
{
    let pairs = modifier_pairs_from_toggles(toggles);
    proof {
        lemma_toggle_pairs_canonical(*toggles);
    }
    let sl = pairs.as_slice();
    assert(pairs_view(sl@) == toggle_pairs(*toggles));
    build_scancode_map_from_pairs(sl)
}

/// The pair text of the four bytes at `off`.
fn chunk_to_pair(bytes: &[u8], off: usize) -> (p: RawScancodePair)
    requires
        off + 4 <= bytes@.len(),
    ensures
        p@ == chunk_pair(bytes@, off as int),
{
    let mut new_code = byte_hex(bytes[off]);
    new_code.append(byte_hex(bytes[off + 1]).as_str());
    let mut old_code = byte_hex(bytes[off + 2]);
    old_code.append(byte_hex(bytes[off + 3]).as_str());
    RawScancodePair { new_code, old_code }
}

/// Parse a raw Scancode Map binary into a list of (new, old) pairs.
/// Returns an empty list for empty input or a header-only blob.
pub fn parse_scancode_map(bytes: &[u8]) -> (r: Result<Vec<RawScancodePair>, String>)
    ensures
        match (r, parse_spec(bytes@)) {
            (Ok(v), Ok(s)) => pairs_view(v@) == s,
            (Err(e), Err(m)) => e@ == m,
            _ => false,
        },
{
    if bytes.len() == 0 {
        let v: Vec<RawScancodePair> = Vec::new();
        assert(pairs_view(v@) =~= Seq::<PairView>::empty());
        return Ok(v);
    }
    if bytes.len() < 16 {
        let mut e = string_of("Scancode Map too short: ");
        e.append(format_dec(bytes.len() as u64).as_str());
        e.append(" bytes (need >= 16)");
        return Err(e);
    }
    // Skip 8-byte header, read count (LE u32) at offset 8
    let count: u64 = bytes[8] as u64 + bytes[9] as u64 * 256 + bytes[10] as u64 * 65536
        + bytes[11] as u64 * 16777216;
    assert(count == read_le32(bytes@, 8));
    if count == 0 {
        return Err(string_of("Scancode Map count is 0; expected >= 1 (terminator)"));
    }
    // Body = count * 4 bytes (the last 4 bytes are the terminator)
    let expected_total: u64 = 12 + count * 4;
    if (bytes.len() as u64) < expected_total {
        let mut e = string_of("Scancode Map truncated: header says ");
        e.append(format_dec(count).as_str());
        e.append(" entries (need ");
        e.append(format_dec(expected_total).as_str());
        e.append(" bytes total) but got ");
        e.append(format_dec(bytes.len() as u64).as_str());
        return Err(e);
    }
    let n: usize = (count - 1) as usize;
    let term: usize = 12 + n * 4;
    // The last entry must be the terminator (all zeros).
    if !(bytes[term] == 0 && bytes[term + 1] == 0 && bytes[term + 2] == 0 && bytes[term + 3]
        == 0) {
        proof {
            let t = bytes@.subrange(term as int, term + 4);
            if t == zeros(4) {
                assert(t[0] == bytes@[term as int]);
                assert(t[1] == bytes@[term + 1]);
                assert(t[2] == bytes@[term + 2]);
                assert(t[3] == bytes@[term + 3]);
            }
        }
        return Err(string_of("Scancode Map missing null terminator"));
    }
    assert(bytes@.subrange(term as int, term + 4) =~= zeros(4));
    let ghost want = Seq::new(n as nat, |i: int| chunk_pair(bytes@, 12 + 4 * i));
    let mut pairs: Vec<RawScancodePair> = Vec::with_capacity(n);
    let mut i: usize = 0;
    while i < n
        invariant
            i <= n,
            12 + 4 * n + 4 <= bytes.len(),
            want == Seq::new(n as nat, |i: int| chunk_pair(bytes@, 12 + 4 * i)),
            pairs_view(pairs@) == want.take(i as int),
        decreases n - i,
    {
        let p = chunk_to_pair(bytes, 12 + i * 4);
        proof {
            lemma_pairs_view_push(pairs@, p);
            assert(want.take(i + 1) =~= want.take(i as int).push(want[i as int]));
        }
        pairs.push(p);
        i = i + 1;
        assert(pairs_view(pairs@) =~= want.take(i as int));
    }
    assert(want.take(n as int) =~= want);
    Ok(pairs)
}

/// Whether `ps` holds a pair with the codes of `p`.
fn contains_pair(ps: &[RawScancodePair], p: &RawScancodePair) -> (r: bool)
    ensures
        r == pairs_view(ps@).contains(p@),
{
    let mut i: usize = 0;
    while i < ps.len()
        invariant
            i <= ps.len(),
            forall|j: int| 0 <= j < i ==> ps@[j]@ != p@,
        decreases ps.len() - i,
    {
        if ps[i].new_code == p.new_code && ps[i].old_code == p.old_code {
            assert(pairs_view(ps@)[i as int] == p@);
            return true;
        }
        i = i + 1;
    }
    proof {
        if pairs_view(ps@).contains(p@) {
            let k = choose|k: int| 0 <= k < pairs_view(ps@).len() && pairs_view(ps@)[k] == p@;
            assert(ps@[k]@ == p@);
        }
    }
    false
}

/// Whether every pair of `group` occurs in `ps`.
fn group_is_present(ps: &[RawScancodePair], group: &Vec<RawScancodePair>) -> (r: bool)
    ensures
        r == group_present(pairs_view(ps@), pairs_view(group@)),
{
    let mut i: usize = 0;
    while i < group.len()
        invariant
            i <= group.len(),
            forall|j: int| 0 <= j < i ==> pairs_view(ps@).contains(#[trigger] pairs_view(group@)[j]),
        decreases group.len() - i,
    {
        if !contains_pair(ps, &group[i]) {
            assert(pairs_view(group@)[i as int] == group@[i as int]@);
            return false;
        }
        i = i + 1;
    }
    true
}

/// A vector of pairs with the views of `g`, built from scancodes.
fn group_vec(g: &[([u8; 2], [u8; 2])]) -> (v: Vec<RawScancodePair>)
    ensures
        pairs_view(v@) == g@.map_values(|x: ([u8; 2], [u8; 2])| pair_of(x.0, x.1)),
{
    let mut v: Vec<RawScancodePair> = Vec::new();
    let mut i: usize = 0;
    while i < g.len()
        invariant
            i <= g.len(),
            pairs_view(v@) == g@.map_values(|x: ([u8; 2], [u8; 2])| pair_of(x.0, x.1)).take(
                i as int,
            ),
        decreases g.len() - i,
    {
        let p = raw_pair(g[i].0, g[i].1);
        proof {
            lemma_pairs_view_push(v@, p);
        }
        v.push(p);
        i = i + 1;
        assert(pairs_view(v@) =~= g@.map_values(|x: ([u8; 2], [u8; 2])| pair_of(x.0, x.1)).take(
            i as int,
        ));
    }
    assert(g@.map_values(|x: ([u8; 2], [u8; 2])| pair_of(x.0, x.1)).take(g.len() as int)
        =~= g@.map_values(|x: ([u8; 2], [u8; 2])| pair_of(x.0, x.1)));
    v
}

/// Reverse-derive which toggles the user has already enabled, based on the raw
/// pairs read from the registry. Pairs that don't match any known toggle group
/// flip `has_external_mappings = true` (used by the UI to warn before overwrite).
pub fn derive_state(pairs: &[RawScancodePair]) -> (st: ModifierState)
    ensures
        st.current == derived_toggles(pairs_view(pairs@)),
        st.has_external_mappings == has_external(pairs_view(pairs@)),
        pairs_view(st.raw_entries@) == pairs_view(pairs@),
{
    let left_g = [(LCTRL, LWIN), (LWIN, LCTRL)];
    let right_g = [(RCTRL, RWIN), (RWIN, RCTRL)];
    let caps_g = [(LCTRL, CAPS)];
    let option_g = [(LALT, LWIN), (LWIN, LALT), (RALT, RWIN), (RWIN, RALT)];
    let cmd_ctrl_left = group_vec(&left_g);
    let cmd_ctrl_right = group_vec(&right_g);
    let caps = group_vec(&caps_g);
    let option_cmd = group_vec(&option_g);
    assert(pairs_view(cmd_ctrl_left@) =~= cmd_ctrl_left_group());
    assert(pairs_view(cmd_ctrl_right@) =~= cmd_ctrl_right_group());
    assert(pairs_view(caps@) =~= caps_group());
    assert(pairs_view(option_cmd@) =~= option_cmd_group());

    let toggles = ModifierToggles {
        swap_cmd_ctrl_left: group_is_present(pairs, &cmd_ctrl_left),
        swap_cmd_ctrl_right: group_is_present(pairs, &cmd_ctrl_right),
        caps_to_ctrl: group_is_present(pairs, &caps),
        swap_option_cmd: group_is_present(pairs, &option_cmd),
    };
    let ghost pv = pairs_view(pairs@);
    assert(toggles == derived_toggles(pv));

    // External = any pair in the registry that isn't part of an active group.
    let mut has_external_mappings = false;
    let mut raw_entries: Vec<RawScancodePair> = Vec::new();
    let mut i: usize = 0;
    while i < pairs.len()
        invariant
            i <= pairs.len(),
            pv == pairs_view(pairs@),
            toggles == derived_toggles(pv),
            pairs_view(cmd_ctrl_left@) == cmd_ctrl_left_group(),
            pairs_view(cmd_ctrl_right@) == cmd_ctrl_right_group(),
            pairs_view(caps@) == caps_group(),
            pairs_view(option_cmd@) == option_cmd_group(),
            pairs_view(raw_entries@) == pv.take(i as int),
            has_external_mappings == exists|j: int|
                0 <= j < i && !accounted_for(toggles, #[trigger] pv[j]),
        decreases pairs.len() - i,
    {
        let p = &pairs[i];
        let accounted = (toggles.swap_cmd_ctrl_left && contains_pair(cmd_ctrl_left.as_slice(), p))
            || (toggles.swap_cmd_ctrl_right && contains_pair(cmd_ctrl_right.as_slice(), p)) || (
        toggles.caps_to_ctrl && contains_pair(caps.as_slice(), p)) || (toggles.swap_option_cmd
            && contains_pair(option_cmd.as_slice(), p));
        assert(pv[i as int] == p@);
        assert(accounted == accounted_for(toggles, p@));
        if !accounted {
            has_external_mappings = true;
        }
        let q = copy_pair(p);
        proof {
            lemma_pairs_view_push(raw_entries@, q);
            assert(pv.take(i + 1) =~= pv.take(i as int).push(pv[i as int]));
        }
        raw_entries.push(q);
        i = i + 1;
        assert(pairs_view(raw_entries@) =~= pv.take(i as int));
    }
    assert(pv.take(pairs.len() as int) =~= pv);
    ModifierState { current: toggles, has_external_mappings, raw_entries }
}

} // verus!
