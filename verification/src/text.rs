//! Character-level text helpers shared by the generators and parsers:
//! hexadecimal and decimal formatting, hexadecimal parsing, trimming and
//! ASCII case folding, each stated over the characters of the text.
use vstd::prelude::*;

verus! {

broadcast use vstd::string::group_string_axioms;

// ── Specifications ─────────────────────────────────────────────────────────

/// The digit character of `d` (0..=15) in base 16.
pub open spec fn hex_digit(d: int, upper: bool) -> char {
    if d < 10 {
        (d + 48) as char
    } else if upper {
        (d + 55) as char
    } else {
        (d + 87) as char
    }
}

/// The base-16 digits of `n`, most significant first, without leading zeros
/// (`0` is the single digit `0`).
pub open spec fn hex_digits(n: nat, upper: bool) -> Seq<char>
    decreases n,
{
    if n < 16 {
        seq![hex_digit(n as int, upper)]
    } else {
        hex_digits(n / 16, upper) + seq![hex_digit((n % 16) as int, upper)]
    }
}

/// The base-10 digits of `n`, most significant first.
pub open spec fn dec_digits(n: nat) -> Seq<char>
    decreases n,
{
    if n < 10 {
        seq![(n + 48) as char]
    } else {
        dec_digits(n / 10) + seq![((n % 10) + 48) as char]
    }
}

/// `s` padded on the left with `c` up to `width` characters.
pub open spec fn pad_left(s: Seq<char>, width: nat, c: char) -> Seq<char> {
    if s.len() >= width {
        s
    } else {
        Seq::new((width - s.len()) as nat, |_i: int| c) + s
    }
}

/// `s` padded on the right with `c` up to `width` characters.
pub open spec fn pad_right(s: Seq<char>, width: nat, c: char) -> Seq<char> {
    if s.len() >= width {
        s
    } else {
        s + Seq::new((width - s.len()) as nat, |_i: int| c)
    }
}

/// What `format!("{:0W$X}", n)` (upper) or `format!("{:0W$x}", n)` gives.
pub open spec fn fmt_hex(n: nat, width: nat, upper: bool) -> Seq<char> {
    pad_left(hex_digits(n, upper), width, '0')
}

/// What `format!("{}", n)` gives for an unsigned integer.
pub open spec fn fmt_dec(n: nat) -> Seq<char> {
    dec_digits(n)
}

/// A byte as exactly two upper-case hex digits (`format!("{:02X}", b)`).
pub open spec fn hex2(b: u8) -> Seq<char> {
    seq![hex_digit((b / 16) as int, true), hex_digit((b % 16) as int, true)]
}

/// The value of a base-16 digit character, if it is one (either case).
pub open spec fn hex_value(c: char) -> Option<nat> {
    if '0' <= c && c <= '9' {
        Some((c as int - 48) as nat)
    } else if 'a' <= c && c <= 'f' {
        Some((c as int - 87) as nat)
    } else if 'A' <= c && c <= 'F' {
        Some((c as int - 55) as nat)
    } else {
        None
    }
}

/// The value of a run of base-16 digits (the empty run is 0); `None` when a
/// character is not a digit.
pub open spec fn hex_run_value(s: Seq<char>) -> Option<nat>
    decreases s.len(),
{
    if s.len() == 0 {
        Some(0)
    } else {
        match (hex_run_value(s.drop_last()), hex_value(s.last())) {
            (Some(a), Some(d)) => Some(a * 16 + d),
            _ => None,
        }
    }
}

/// What `uN::from_str_radix(s, 16).ok()` gives for an unsigned type whose
/// largest value is `max`: an optional leading `+`, then at least one
/// base-16 digit, and a value that fits.
pub open spec fn parse_radix16(s: Seq<char>, max: nat) -> Option<nat> {
    if s.len() == 0 {
        None
    } else {
        let digits = if s[0] == '+' {
            s.skip(1)
        } else {
            s
        };
        if digits.len() == 0 {
            None
        } else {
            match hex_run_value(digits) {
                Some(v) => if v <= max {
                    Some(v)
                } else {
                    None
                },
                None => None,
            }
        }
    }
}

/// Unicode `White_Space`, the set `char::is_whitespace` tests.
pub open spec fn is_ws(c: char) -> bool {
    ||| ('\t' <= c && c <= '\r')
    ||| c == ' '
    ||| c == '\u{85}'
    ||| c == '\u{a0}'
    ||| c == '\u{1680}'
    ||| ('\u{2000}' <= c && c <= '\u{200a}')
    ||| c == '\u{2028}'
    ||| c == '\u{2029}'
    ||| c == '\u{202f}'
    ||| c == '\u{205f}'
    ||| c == '\u{3000}'
}

/// `s` without its leading white space.
pub open spec fn trim_start(s: Seq<char>) -> Seq<char>
    decreases s.len(),
{
    if s.len() > 0 && is_ws(s[0]) {
        trim_start(s.drop_first())
    } else {
        s
    }
}

/// `s` without its trailing white space.
pub open spec fn trim_end(s: Seq<char>) -> Seq<char>
    decreases s.len(),
{
    if s.len() > 0 && is_ws(s.last()) {
        trim_end(s.drop_last())
    } else {
        s
    }
}

/// What `str::trim` gives.
pub open spec fn trim(s: Seq<char>) -> Seq<char> {
    trim_end(trim_start(s))
}

/// ASCII upper-casing of one character.
pub open spec fn ascii_upper_char(c: char) -> char {
    if 'a' <= c && c <= 'z' {
        (c as int - 32) as char
    } else {
        c
    }
}

/// What `str::to_ascii_uppercase` gives.
pub open spec fn ascii_upper(s: Seq<char>) -> Seq<char> {
    Seq::new(s.len(), |i: int| ascii_upper_char(s[i]))
}

/// `line` followed by a line feed.
pub open spec fn line(s: Seq<char>) -> Seq<char> {
    s + seq!['\n']
}

/// Whether `s` occurs in `t` as a contiguous run of characters.
pub open spec fn contains_text(t: Seq<char>, s: Seq<char>) -> bool {
    exists|i: int, j: int|
        0 <= i <= j <= t.len() && j - i == s.len() && #[trigger] t.subrange(i, j) == s
}

/// A text contains itself.
pub proof fn lemma_contains_itself(s: Seq<char>)
    ensures
        contains_text(s, s),
{
    assert(s.subrange(0, s.len() as int) =~= s);
}

/// A text contains each of its beginnings.
pub proof fn lemma_contains_start(s: Seq<char>, rest: Seq<char>)
    ensures
        contains_text(s + rest, s),
{
    assert((s + rest).subrange(0, s.len() as int) =~= s);
}

/// What a middle part contains, the whole contains.
pub proof fn lemma_contains_within(p: Seq<char>, t: Seq<char>, q: Seq<char>, s: Seq<char>)
    requires
        contains_text(t, s),
    ensures
        contains_text(p + t + q, s),
        contains_text(p + t, s),
        contains_text(t + q, s),
{
    let (i, j) = choose|i: int, j: int|
        0 <= i <= j <= t.len() && j - i == s.len() && #[trigger] t.subrange(i, j) == s;
    let k = p.len() as int;
    assert((p + t + q).subrange(i + k, j + k) =~= t.subrange(i, j));
    assert((p + t).subrange(i + k, j + k) =~= t.subrange(i, j));
    assert((t + q).subrange(i, j) =~= t.subrange(i, j));
}

/// Containment is transitive.
pub proof fn lemma_contains_trans(t: Seq<char>, u: Seq<char>, s: Seq<char>)
    requires
        contains_text(t, u),
        contains_text(u, s),
    ensures
        contains_text(t, s),
{
    let (i, j) = choose|i: int, j: int|
        0 <= i <= j <= t.len() && j - i == u.len() && #[trigger] t.subrange(i, j) == u;
    let (a, b) = choose|a: int, b: int|
        0 <= a <= b <= u.len() && b - a == s.len() && #[trigger] u.subrange(a, b) == s;
    assert(t.subrange(i + a, i + b) =~= u.subrange(a, b));
}

/// `s` with every `c` replaced by `r` (`str::replace` with a character
/// pattern).
pub open spec fn replace_char(s: Seq<char>, c: char, r: Seq<char>) -> Seq<char>
    decreases s.len(),
{
    if s.len() == 0 {
        seq![]
    } else {
        replace_char(s.drop_last(), c, r) + if s.last() == c {
            r
        } else {
            seq![s.last()]
        }
    }
}

/// The fields of `s` between occurrences of `sep`: `str::split(sep)` when
/// `limit` is `None`, `str::splitn(n, sep)` when it is `Some(n)` (the last
/// field then keeps the rest, separators included).
pub open spec fn split_fields(s: Seq<char>, sep: char, limit: Option<nat>) -> Seq<Seq<char>>
    decreases s.len(),
{
    if s.len() == 0 {
        seq![seq![]]
    } else {
        let p = split_fields(s.drop_last(), sep, limit);
        if s.last() == sep && (match limit {
            Some(n) => p.len() < n,
            None => true,
        }) {
            p.push(seq![])
        } else {
            p.update(p.len() - 1, p.last().push(s.last()))
        }
    }
}

/// The trimmed fields that are not empty, in order.
pub open spec fn nonempty_trimmed(fields: Seq<Seq<char>>) -> Seq<Seq<char>>
    decreases fields.len(),
{
    if fields.len() == 0 {
        seq![]
    } else {
        let rest = nonempty_trimmed(fields.drop_last());
        if trim(fields.last()).len() == 0 {
            rest
        } else {
            rest.push(trim(fields.last()))
        }
    }
}

// ── Lemmas ────────────────────────────────────────────────────────────────

/// Distinct digit values give distinct digit characters.
pub proof fn lemma_hex_digit_injective(a: int, b: int, upper: bool)
    requires
        0 <= a < 16,
        0 <= b < 16,
        a != b,
    ensures
        hex_digit(a, upper) != hex_digit(b, upper),
{
}

/// Two-digit hex is injective on bytes.
pub proof fn lemma_hex2_injective(a: u8, b: u8)
    requires
        a != b,
    ensures
        hex2(a) != hex2(b),
{
    if a / 16 != b / 16 {
        lemma_hex_digit_injective((a / 16) as int, (b / 16) as int, true);
        assert(hex2(a)[0] != hex2(b)[0]);
    } else {
        lemma_hex_digit_injective((a % 16) as int, (b % 16) as int, true);
        assert(hex2(a)[1] != hex2(b)[1]);
    }
}

/// The digit characters read back as their values.
pub proof fn lemma_hex_value_of_digit(d: int, upper: bool)
    requires
        0 <= d < 16,
    ensures
        hex_value(hex_digit(d, upper)) == Some(d as nat),
{
}

/// Reading two hex digits of a byte gives the byte back.
pub proof fn lemma_hex2_value(b: u8)
    ensures
        hex_run_value(hex2(b)) == Some(b as nat),
        parse_radix16(hex2(b), 255) == Some(b as nat),
{
    lemma_hex_value_of_digit((b / 16) as int, true);
    lemma_hex_value_of_digit((b % 16) as int, true);
    let s = hex2(b);
    let p = s.drop_last();
    assert(p =~= seq![s[0]]);
    assert(p.drop_last() =~= Seq::<char>::empty());
    assert(hex_run_value(p.drop_last()) == Some(0nat));
    assert(p.last() == s[0]);
    assert(hex_run_value(p) == Some((b / 16) as nat));
    assert(s.last() == s[1]);
    assert(s[0] != '+');
}

/// Extending a run with one more digit never lowers its value.
proof fn lemma_hex_run_push(s: Seq<char>, c: char)
    ensures
        hex_run_value(s.push(c)) == match (hex_run_value(s), hex_value(c)) {
            (Some(a), Some(d)) => Some(a * 16 + d),
            _ => None::<nat>,
        },
{
    assert(s.push(c).drop_last() =~= s);
}

/// Mapping after a push is pushing the mapped element.
pub proof fn lemma_map_push<A, B>(s: Seq<A>, x: A, f: spec_fn(A) -> B)
    ensures
        s.push(x).map_values(f) == s.map_values(f).push(f(x)),
{
    assert(s.push(x).map_values(f) =~= s.map_values(f).push(f(x)));
}

/// Text without white space is its own trim.
pub proof fn lemma_trim_no_ws(s: Seq<char>)
    requires
        forall|i: int| 0 <= i < s.len() ==> !is_ws(#[trigger] s[i]),
    ensures
        trim(s) == s,
{
    if s.len() > 0 {
        assert(!is_ws(s[0]));
        assert(!is_ws(s.last()));
    }
}

/// There is always at least one field.
pub proof fn lemma_split_fields_len(s: Seq<char>, sep: char, limit: Option<nat>)
    ensures
        split_fields(s, sep, limit).len() >= 1,
    decreases s.len(),
{
    if s.len() > 0 {
        lemma_split_fields_len(s.drop_last(), sep, limit);
    }
}

// ── Executable helpers ────────────────────────────────────────────────────

/// The characters of a string slice, in order.
pub fn chars_of(s: &str) -> (v: Vec<char>)
    ensures
        v@ == s@,
{
    let mut v: Vec<char> = Vec::new();
    for c in it: s.chars()
        invariant
            v@ == it.seq().take(it.index() as int),
            it.seq() == s@,
    {
        v.push(c);
    }
    v
}

/// Collects characters into a `String` (`String::from_iter`).
#[verifier::external_body]
pub(crate) fn string_from_chars(v: Vec<char>) -> (s: String)
    ensures
        s@ == v@,
{
    String::from_iter(v)
}

/// A `String` holding the characters of `s`.
pub fn string_of(s: &str) -> (r: String)
    ensures
        r@ == s@,
{
    s.to_owned()
}

/// Character-wise equality of two string slices.
pub fn str_eq(a: &str, b: &str) -> (r: bool)
    ensures
        r == (a@ == b@),
{
    let va = chars_of(a);
    let vb = chars_of(b);
    chars_eq(&va, &vb)
}

/// Element-wise equality of two character vectors.
pub fn chars_eq(a: &Vec<char>, b: &Vec<char>) -> (r: bool)
    ensures
        r == (a@ == b@),
{
    if a.len() != b.len() {
        return false;
    }
    let mut i: usize = 0;
    while i < a.len()
        invariant
            a.len() == b.len(),
            i <= a.len(),
            forall|j: int| 0 <= j < i ==> a@[j] == b@[j],
        decreases a.len() - i,
    {
        if a[i] != b[i] {
            return false;
        }
        i = i + 1;
    }
    assert(a@ =~= b@);
    true
}

/// Appends the base-16 digits of `n` to `v`.
fn push_hex_digits(n: u64, upper: bool, v: &mut Vec<char>)
    ensures
        final(v)@ == old(v)@ + hex_digits(n as nat, upper),
    decreases n,
{
    if n >= 16 {
        push_hex_digits(n / 16, upper, v);
    }
    let d: u64 = n % 16;
    let c: char = if d < 10 {
        ((d as u8) + 48) as char
    } else if upper {
        ((d as u8) + 55) as char
    } else {
        ((d as u8) + 87) as char
    };
    v.push(c);
    proof {
        if n >= 16 {
            assert(final(v)@ =~= old(v)@ + hex_digits(n as nat, upper));
        } else {
            assert(final(v)@ =~= old(v)@ + hex_digits(n as nat, upper));
        }
    }
}

/// Appends the base-10 digits of `n` to `v`.
fn push_dec_digits(n: u64, v: &mut Vec<char>)
    ensures
        final(v)@ == old(v)@ + dec_digits(n as nat),
    decreases n,
{
    if n >= 10 {
        push_dec_digits(n / 10, v);
    }
    let d: u64 = n % 10;
    let c: char = ((d as u8) + 48) as char;
    v.push(c);
    proof {
        assert(final(v)@ =~= old(v)@ + dec_digits(n as nat));
    }
}

/// `format!("{:0width$X}", n)` (or lower-case digits when `!upper`).
pub fn format_hex(n: u64, width: usize, upper: bool) -> (s: String)
    ensures
        s@ == fmt_hex(n as nat, width as nat, upper),
{
    let mut digits: Vec<char> = Vec::new();
    push_hex_digits(n, upper, &mut digits);
    assert(digits@ =~= hex_digits(n as nat, upper));
    let mut v: Vec<char> = Vec::new();
    let mut k: usize = digits.len();
    while k < width
        invariant
            digits.len() <= k <= width || (k == digits.len() && k >= width),
            v@ == Seq::new((k - digits.len()) as nat, |_i: int| '0'),
        decreases width - k,
    {
        v.push('0');
        k = k + 1;
        assert(v@ =~= Seq::new((k - digits.len()) as nat, |_i: int| '0'));
    }
    let mut i: usize = 0;
    let ghost pre = v@;
    while i < digits.len()
        invariant
            i <= digits.len(),
            v@ == pre + digits@.take(i as int),
        decreases digits.len() - i,
    {
        v.push(digits[i]);
        i = i + 1;
        assert(v@ =~= pre + digits@.take(i as int));
    }
    assert(digits@.take(digits.len() as int) =~= digits@);
    proof {
        if digits.len() >= width {
            assert(pre =~= Seq::<char>::empty());
            assert(v@ =~= fmt_hex(n as nat, width as nat, upper));
        } else {
            assert(v@ =~= fmt_hex(n as nat, width as nat, upper));
        }
    }
    string_from_chars(v)
}

/// `format!("{}", n)`.
pub fn format_dec(n: u64) -> (s: String)
    ensures
        s@ == fmt_dec(n as nat),
{
    let mut v: Vec<char> = Vec::new();
    push_dec_digits(n, &mut v);
    assert(v@ =~= dec_digits(n as nat));
    string_from_chars(v)
}

/// `format!("{:02X}", b)`.
pub fn byte_hex(b: u8) -> (s: String)
    ensures
        s@ == hex2(b),
{
    let hi = format_hex((b / 16) as u64, 1, true);
    let lo = format_hex((b % 16) as u64, 1, true);
    proof {
        reveal_with_fuel(hex_digits, 1);
        assert(hi@ =~= seq![hex_digit((b / 16) as int, true)]);
        assert(lo@ =~= seq![hex_digit((b % 16) as int, true)]);
    }
    let mut s = hi;
    s.append(lo.as_str());
    assert(s@ =~= hex2(b));
    s
}

/// The value of a base-16 digit character.
pub fn hex_digit_value(c: char) -> (r: Option<u8>)
    ensures
        r matches Some(d) ==> hex_value(c) == Some(d as nat),
        r is None ==> hex_value(c) is None,
{
    if '0' <= c && c <= '9' {
        Some(((c as u32) - 48) as u8)
    } else if 'a' <= c && c <= 'f' {
        Some(((c as u32) - 87) as u8)
    } else if 'A' <= c && c <= 'F' {
        Some(((c as u32) - 55) as u8)
    } else {
        None
    }
}

/// `u32::from_str_radix(s, 16).ok()` when `max` is `u32::MAX`; with a
/// smaller `max` it parses into the unsigned type of that range.
pub fn parse_hex(s: &Vec<char>, max: u32) -> (r: Option<u32>)
    ensures
        r matches Some(v) ==> parse_radix16(s@, max as nat) == Some(v as nat),
        r is None ==> parse_radix16(s@, max as nat) is None,
{
    if s.len() == 0 {
        return None;
    }
    let start: usize = if s[0] == '+' {
        1
    } else {
        0
    };
    let ghost digits = if s@[0] == '+' {
        s@.skip(1)
    } else {
        s@
    };
    assert(digits =~= s@.skip(start as int));
    if start == s.len() {
        assert(digits.len() == 0);
        return None;
    }
    let mut acc: u64 = 0;
    let mut over: bool = false;
    let mut i: usize = start;
    while i < s.len()
        invariant
            start <= i <= s.len(),
            digits =~= s@.skip(start as int),
            s@.len() > 0,
            digits == (if s@[0] == '+' {
                s@.skip(1)
            } else {
                s@
            }),
            hex_run_value(s@.subrange(start as int, i as int)) is Some,
            !over ==> hex_run_value(s@.subrange(start as int, i as int)) == Some(acc as nat),
            !over ==> acc <= max,
            over ==> hex_run_value(s@.subrange(start as int, i as int))->0 > max,
        decreases s.len() - i,
    {
        proof {
            lemma_hex_run_push(s@.subrange(start as int, i as int), s@[i as int]);
            assert(s@.subrange(start as int, i as int).push(s@[i as int]) =~= s@.subrange(
                start as int,
                i + 1,
            ));
        }
        match hex_digit_value(s[i]) {
            None => {
                proof {
                    assert(hex_value(s@[i as int]) is None);
                    assert(s@.skip(start as int)[(i - start) as int] == s@[i as int]);
                    lemma_hex_run_none_extends(s@.skip(start as int), (i - start) as int);
                    assert(hex_run_value(digits) is None);
                }
                return None;
            },
            Some(d) => {
                if !over {
                    let next: u64 = acc * 16 + d as u64;
                    if next > max as u64 {
                        over = true;
                    } else {
                        acc = next;
                    }
                }
            },
        }
        i = i + 1;
    }
    assert(s@.subrange(start as int, s.len() as int) =~= digits);
    if over {
        None
    } else {
        Some(acc as u32)
    }
}

/// Once a prefix of a run is not all digits, neither is the whole run.
proof fn lemma_hex_run_none_extends(s: Seq<char>, k: int)
    requires
        0 <= k < s.len(),
        hex_value(s[k]) is None,
    ensures
        hex_run_value(s) is None,
    decreases s.len(),
{
    if k == s.len() - 1 {
    } else {
        lemma_hex_run_none_extends(s.drop_last(), k);
    }
}

/// Whether `c` is Unicode white space (`char::is_whitespace`).
pub fn is_whitespace(c: char) -> (r: bool)
    ensures
        r == is_ws(c),
{
    ('\t' <= c && c <= '\r') || c == ' ' || c == '\u{85}' || c == '\u{a0}' || c == '\u{1680}'
        || ('\u{2000}' <= c && c <= '\u{200a}') || c == '\u{2028}' || c == '\u{2029}' || c
        == '\u{202f}' || c == '\u{205f}' || c == '\u{3000}'
}

proof fn lemma_trim_start_skip(s: Seq<char>, k: int)
    requires
        0 <= k <= s.len(),
        forall|j: int| 0 <= j < k ==> is_ws(#[trigger] s[j]),
    ensures
        trim_start(s) == trim_start(s.skip(k)),
    decreases k,
{
    if k > 0 {
        assert(s.drop_first().skip(k - 1) =~= s.skip(k));
        lemma_trim_start_skip(s.drop_first(), k - 1);
    } else {
        assert(s.skip(0) =~= s);
    }
}

proof fn lemma_trim_end_take(s: Seq<char>, k: int)
    requires
        0 <= k <= s.len(),
        forall|j: int| k <= j < s.len() ==> is_ws(#[trigger] s[j]),
    ensures
        trim_end(s) == trim_end(s.take(k)),
    decreases s.len() - k,
{
    if k < s.len() {
        assert(s.drop_last().take(k) =~= s.take(k));
        lemma_trim_end_take(s.drop_last(), k);
    } else {
        assert(s.take(k) =~= s);
    }
}

/// The characters of `s` without leading and trailing white space
/// (`str::trim`).
pub fn trim_chars(s: &Vec<char>) -> (r: Vec<char>)
    ensures
        r@ == trim(s@),
{
    let mut a: usize = 0;
    while a < s.len() && is_whitespace(s[a])
        invariant
            a <= s.len(),
            forall|j: int| 0 <= j < a ==> is_ws(#[trigger] s@[j]),
        decreases s.len() - a,
    {
        a = a + 1;
    }
    proof {
        lemma_trim_start_skip(s@, a as int);
    }
    let ghost t = s@.skip(a as int);
    assert(trim_start(t) == t);
    let mut b: usize = s.len();
    while b > a && is_whitespace(s[b - 1])
        invariant
            a <= b <= s.len(),
            t == s@.skip(a as int),
            forall|j: int| b <= j < s.len() ==> is_ws(#[trigger] s@[j]),
        decreases b,
    {
        b = b - 1;
    }
    proof {
        assert forall|j: int| (b - a) <= j < t.len() implies is_ws(#[trigger] t[j]) by {
            assert(t[j] == s@[j + a]);
        }
        lemma_trim_end_take(t, (b - a) as int);
        let u = t.take((b - a) as int);
        if u.len() > 0 {
            assert(u.last() == s@[b - 1]);
        }
        assert(trim_end(u) == u);
    }
    let mut r: Vec<char> = Vec::new();
    let mut i: usize = a;
    while i < b
        invariant
            a <= i <= b,
            b <= s.len(),
            r@ == s@.subrange(a as int, i as int),
        decreases b - i,
    {
        r.push(s[i]);
        i = i + 1;
        assert(r@ =~= s@.subrange(a as int, i as int));
    }
    assert(r@ =~= t.take((b - a) as int));
    r
}

/// ASCII upper-casing of a character sequence (`str::to_ascii_uppercase`).
pub fn to_ascii_upper(s: &Vec<char>) -> (r: Vec<char>)
    ensures
        r@ == ascii_upper(s@),
{
    let mut r: Vec<char> = Vec::new();
    let mut i: usize = 0;
    while i < s.len()
        invariant
            i <= s.len(),
            r@ == ascii_upper(s@).take(i as int),
        decreases s.len() - i,
    {
        let c = s[i];
        let u: char = if 'a' <= c && c <= 'z' {
            ((c as u8) - 32) as char
        } else {
            c
        };
        r.push(u);
        i = i + 1;
        assert(r@ =~= ascii_upper(s@).take(i as int));
    }
    assert(ascii_upper(s@).take(s.len() as int) =~= ascii_upper(s@));
    r
}

/// `s` with every `c` replaced by `r`.
pub fn replace_char_exec(s: &str, c: char, r: &str) -> (t: String)
    ensures
        t@ == replace_char(s@, c, r@),
{
    let cs = chars_of(s);
    let rs = chars_of(r);
    let mut v: Vec<char> = Vec::new();
    let mut i: usize = 0;
    while i < cs.len()
        invariant
            i <= cs.len(),
            cs@ == s@,
            rs@ == r@,
            v@ == replace_char(s@.take(i as int), c, r@),
        decreases cs.len() - i,
    {
        assert(s@.take(i + 1).drop_last() =~= s@.take(i as int));
        let ghost before = v@;
        if cs[i] == c {
            let mut k: usize = 0;
            while k < rs.len()
                invariant
                    k <= rs.len(),
                    rs@ == r@,
                    v@ == before + r@.take(k as int),
                decreases rs.len() - k,
            {
                v.push(rs[k]);
                k = k + 1;
                assert(v@ =~= before + r@.take(k as int));
            }
            assert(r@.take(rs.len() as int) =~= r@);
        } else {
            v.push(cs[i]);
        }
        i = i + 1;
        assert(v@ =~= replace_char(s@.take(i as int), c, r@));
    }
    assert(s@.take(cs.len() as int) =~= s@);
    string_from_chars(v)
}

/// `s` without leading and trailing white space, as a new string.
pub fn trimmed(s: &str) -> (t: String)
    ensures
        t@ == trim(s@),
{
    string_from_chars(trim_chars(&chars_of(s)))
}

/// The fields of `s` between occurrences of `sep` (see `split_fields`).
pub fn split_chars(s: &Vec<char>, sep: char, limit: Option<usize>) -> (r: Vec<Vec<char>>)
    requires
        limit matches Some(n) ==> n >= 1,
    ensures
        r@.map_values(|f: Vec<char>| f@) == split_fields(
            s@,
            sep,
            match limit {
                Some(n) => Some(n as nat),
                None => None,
            },
        ),
{
    let ghost lim: Option<nat> = match limit {
        Some(n) => Some(n as nat),
        None => None,
    };
    let mut done: Vec<Vec<char>> = Vec::new();
    let mut cur: Vec<char> = Vec::new();
    let mut i: usize = 0;
    assert(s@.take(0) =~= Seq::<char>::empty());
    assert(done@.map_values(|f: Vec<char>| f@).push(cur@) =~= split_fields(s@.take(0), sep, lim));
    while i < s.len()
        invariant
            i <= s.len(),
            limit matches Some(n) ==> n >= 1,
            lim == (match limit {
                Some(n) => Some(n as nat),
                None => None,
            }),
            done@.map_values(|f: Vec<char>| f@).push(cur@) == split_fields(s@.take(i as int), sep, lim),
        decreases s.len() - i,
    {
        let ghost p = split_fields(s@.take(i as int), sep, lim);
        assert(s@.take(i + 1).drop_last() =~= s@.take(i as int));
        assert(s@.take(i + 1).last() == s@[i as int]);
        assert(p.len() == done.len() + 1);
        let ch = s[i];
        let room = match limit {
            Some(n) => done.len() < n - 1,
            None => true,
        };
        if ch == sep && room {
            let finished = cur;
            proof {
                lemma_map_push(done@, finished, |f: Vec<char>| f@);
            }
            done.push(finished);
            cur = Vec::new();
            assert(done@.map_values(|f: Vec<char>| f@).push(cur@) =~= p.push(seq![]));
        } else {
            cur.push(ch);
            assert(done@.map_values(|f: Vec<char>| f@).push(cur@) =~= p.update(
                p.len() - 1,
                p.last().push(ch),
            ));
        }
        i = i + 1;
    }
    assert(s@.take(s.len() as int) =~= s@);
    proof {
        lemma_map_push(done@, cur, |f: Vec<char>| f@);
    }
    done.push(cur);
    done
}

/// The trimmed, non-empty fields as strings (see `nonempty_trimmed`).
pub fn nonempty_trimmed_fields(fields: &Vec<Vec<char>>) -> (r: Vec<String>)
    ensures
        r@.map_values(|x: String| x@) == nonempty_trimmed(fields@.map_values(|f: Vec<char>| f@)),
{
    let ghost fv = fields@.map_values(|f: Vec<char>| f@);
    let mut r: Vec<String> = Vec::new();
    let mut i: usize = 0;
    while i < fields.len()
        invariant
            i <= fields.len(),
            fv == fields@.map_values(|f: Vec<char>| f@),
            r@.map_values(|x: String| x@) == nonempty_trimmed(fv.take(i as int)),
        decreases fields.len() - i,
    {
        assert(fv.take(i + 1).drop_last() =~= fv.take(i as int));
        assert(fv.take(i + 1).last() == fields@[i as int]@);
        let t = trim_chars(&fields[i]);
        if t.len() > 0 {
            let st = string_from_chars(t);
            proof {
                lemma_map_push(r@, st, |x: String| x@);
            }
            r.push(st);
        }
        i = i + 1;
    }
    assert(fv.take(fields.len() as int) =~= fv);
    r
}

/// Appends `s` to `out`, padded on the right with spaces to `width`
/// characters (`format!("{:<width$}", s)`).
pub fn append_padded(out: &mut String, s: &str, width: usize)
    ensures
        final(out)@ == old(out)@ + pad_right(s@, width as nat, ' '),
{
    let cs = chars_of(s);
    out.append(s);
    let mut k: usize = cs.len();
    let mut pad: Vec<char> = Vec::new();
    while k < width
        invariant
            cs@ == s@,
            cs.len() <= k <= width || (k == cs.len() && k >= width),
            pad@ == Seq::new((k - cs.len()) as nat, |_i: int| ' '),
        decreases width - k,
    {
        pad.push(' ');
        k = k + 1;
        assert(pad@ =~= Seq::new((k - cs.len()) as nat, |_i: int| ' '));
    }
    let ps = string_from_chars(pad);
    out.append(ps.as_str());
    proof {
        if cs.len() >= width {
            assert(ps@ =~= Seq::<char>::empty());
        }
        assert(final(out)@ =~= old(out)@ + pad_right(s@, width as nat, ' '));
    }
}

/// Appends `s` and a line feed to `out`.
pub fn append_line(out: &mut String, s: &str)
    ensures
        final(out)@ == old(out)@ + line(s@),
{
    out.append(s);
    out.append("\n");
    proof {
        reveal_strlit("\n");
    }
    assert(final(out)@ =~= old(out)@ + line(s@));
}

} // verus!
