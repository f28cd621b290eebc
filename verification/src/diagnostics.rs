//! Compose a human-readable Markdown diagnostics block for bug reports.
//! Every collector is best-effort: failures inline a marker but never bubble
//! up — the user must always get *some* report to send. The collectors
//! themselves run outside; this module turns what they found into the text.
use vstd::prelude::*;
use vstd::utf8::*;
use vstd::string::StringSliceAdditionalSpecFns;
use crate::layout::InstalledLayoutInfo;
use crate::scancode_map::{ModifierState, RawScancodePair};
use crate::install::suffix_start;
use crate::text::{
    chars_of, dec_digits, format_dec, split_chars, split_fields, string_from_chars, string_of, trim,
    trimmed,
};

verus! {

broadcast use vstd::string::group_string_axioms;

// ── Report ────────────────────────────────────────────────────────────────

/// One layout's line: `` - `klid` / `file` / "text" ``.
pub open spec fn layout_line(l: InstalledLayoutInfo) -> Seq<char> {
    "- `"@ + l.klid@ + "` / `"@ + l.layout_file@ + "` / \""@ + l.layout_text@ + "\"\n"@
}

/// The lines of the layouts, in order.
pub open spec fn layout_lines(ls: Seq<InstalledLayoutInfo>) -> Seq<char>
    decreases ls.len(),
{
    if ls.len() == 0 {
        seq![]
    } else {
        layout_lines(ls.drop_last()) + layout_line(ls.last())
    }
}

/// The MagicWindows layouts among `ls`, in order.
pub open spec fn magic_layouts(ls: Seq<InstalledLayoutInfo>) -> Seq<InstalledLayoutInfo>
    decreases ls.len(),
{
    if ls.len() == 0 {
        seq![]
    } else if ls.last().is_magic_windows {
        magic_layouts(ls.drop_last()).push(ls.last())
    } else {
        magic_layouts(ls.drop_last())
    }
}

/// The installed-layouts section: the MagicWindows layouts (or a none
/// marker), then all layouts; or the collector's failure.
pub open spec fn installed_section(r: Result<Seq<InstalledLayoutInfo>, Seq<char>>) -> Seq<char> {
    match r {
        Ok(ls) => "**Installed MagicWindows layouts:**\n"@ + (if magic_layouts(ls).len() == 0 {
            "- *(none)*\n"@
        } else {
            layout_lines(magic_layouts(ls))
        }) + "\n"@ + "**All installed keyboard layouts:**\n"@ + layout_lines(ls) + "\n"@,
        Err(e) => "**Installed layouts:** *(collector failed: "@ + e + ")*\n\n"@,
    }
}

/// One Scancode Map entry's line: `` - new=`....` old=`....` ``.
pub open spec fn pair_line(p: RawScancodePair) -> Seq<char> {
    "- new=`"@ + p.new_code@ + "` old=`"@ + p.old_code@ + "`\n"@
}

/// The lines of the entries, in order.
pub open spec fn pair_lines(ps: Seq<RawScancodePair>) -> Seq<char>
    decreases ps.len(),
{
    if ps.len() == 0 {
        seq![]
    } else {
        pair_lines(ps.drop_last()) + pair_line(ps.last())
    }
}

/// The Scancode Map section: its entries (or a none marker), or the
/// collector's failure.
pub open spec fn scancode_section(r: Result<Seq<RawScancodePair>, Seq<char>>) -> Seq<char> {
    match r {
        Ok(ps) => "**Scancode Map (modifier swaps):**\n"@ + (if ps.len() == 0 {
            "- *(none)*\n"@
        } else {
            pair_lines(ps)
        }) + "\n"@,
        Err(e) => "**Scancode Map:** *(collector failed: "@ + e + ")*\n\n"@,
    }
}

/// The whole report, from the app version, the OS version command's output
/// (`None` when it failed), the active-layout lookup's output (likewise),
/// the installed layouts, the Scancode Map entries and the transcript tail.
pub open spec fn report_text(
    version: Seq<char>,
    os: Option<Seq<char>>,
    hkl: Option<Seq<char>>,
    installed: Result<Seq<InstalledLayoutInfo>, Seq<char>>,
    scancode: Result<Seq<RawScancodePair>, Seq<char>>,
    transcript: Seq<char>,
) -> Seq<char> {
    "## MagicWindows Bug Report\n\n"@ + "**App version:** "@ + version + "\n"@ + match os {
        Some(v) => "**OS:** "@ + trim(v) + "\n"@,
        None => "**OS:** *(ver command failed)*\n"@,
    } + match hkl {
        Some(h) => "**Active layout (HKL):** "@ + trim(h) + "\n"@,
        None => "**Active layout (HKL):** *(lookup failed)*\n"@,
    } + "\n"@ + installed_section(installed) + scancode_section(scancode)
        + "**Last elevated PS transcript (tail 50 lines):**\n\n```\n"@ + transcript + "\n```\n"@
}

fn append_layout_line(out: &mut String, l: &InstalledLayoutInfo)
    ensures
        final(out)@ == old(out)@ + layout_line(*l),
{
    out.append("- `");
    out.append(l.klid.as_str());
    out.append("` / `");
    out.append(l.layout_file.as_str());
    out.append("` / \"");
    out.append(l.layout_text.as_str());
    out.append("\"\n");
    assert(out@ =~= old(out)@ + layout_line(*l));
}

fn append_installed(out: &mut String, installed: &Result<Vec<InstalledLayoutInfo>, String>)
    ensures
        final(out)@ == old(out)@ + installed_section(
            match installed {
                Ok(v) => Ok(v@),
                Err(e) => Err(e@),
            },
        ),
{
    match installed {
        Ok(layouts) => {
            let ghost ls = layouts@;
            let ghost start = out@;
            out.append("**Installed MagicWindows layouts:**\n");
            let ghost head = out@;
            let mut any = false;
            let mut i: usize = 0;
            while i < layouts.len()
                invariant
                    i <= layouts.len(),
                    ls == layouts@,
                    out@ == head + layout_lines(magic_layouts(ls.take(i as int))),
                    any == (magic_layouts(ls.take(i as int)).len() > 0),
                decreases layouts.len() - i,
            {
                assert(ls.take(i + 1).drop_last() =~= ls.take(i as int));
                assert(ls.take(i + 1).last() == layouts[i as int]);
                if layouts[i].is_magic_windows {
                    append_layout_line(out, &layouts[i]);
                    any = true;
                    assert(magic_layouts(ls.take(i + 1)).drop_last() == magic_layouts(ls.take(i as int)));
                }
                i = i + 1;
            }
            assert(ls.take(layouts.len() as int) =~= ls);
            if !any {
                out.append("- *(none)*\n");
                assert(layout_lines(magic_layouts(ls)) =~= Seq::<char>::empty());
            }
            out.append("\n");
            out.append("**All installed keyboard layouts:**\n");
            let ghost mid = out@;
            let mut j: usize = 0;
            while j < layouts.len()
                invariant
                    j <= layouts.len(),
                    ls == layouts@,
                    out@ == mid + layout_lines(ls.take(j as int)),
                decreases layouts.len() - j,
            {
                assert(ls.take(j + 1).drop_last() =~= ls.take(j as int));
                append_layout_line(out, &layouts[j]);
                j = j + 1;
            }
            out.append("\n");
            assert(out@ =~= start + installed_section(Ok(ls)));
        },
        Err(e) => {
            out.append("**Installed layouts:** *(collector failed: ");
            out.append(e.as_str());
            out.append(")*\n\n");
            assert(out@ =~= old(out)@ + installed_section(Err(e@)));
        },
    }
}

fn append_scancode(out: &mut String, scancode: &Result<ModifierState, String>)
    ensures
        final(out)@ == old(out)@ + scancode_section(
            match scancode {
                Ok(st) => Ok(st.raw_entries@),
                Err(e) => Err(e@),
            },
        ),
{
    match scancode {
        Ok(state) => {
            let ps = &state.raw_entries;
            let ghost start = out@;
            out.append("**Scancode Map (modifier swaps):**\n");
            if ps.len() == 0 {
                out.append("- *(none)*\n");
            } else {
                let ghost head = out@;
                let mut i: usize = 0;
                while i < ps.len()
                    invariant
                        i <= ps.len(),
                        out@ == head + pair_lines(ps@.take(i as int)),
                    decreases ps.len() - i,
                {
                    assert(ps@.take(i + 1).drop_last() =~= ps@.take(i as int));
                    out.append("- new=`");
                    out.append(ps[i].new_code.as_str());
                    out.append("` old=`");
                    out.append(ps[i].old_code.as_str());
                    out.append("`\n");
                    i = i + 1;
                    assert(out@ =~= head + pair_lines(ps@.take(i as int)));
                }
                assert(ps@.take(ps.len() as int) =~= ps@);
            }
            out.append("\n");
            assert(out@ =~= start + scancode_section(Ok(ps@)));
        },
        Err(e) => {
            out.append("**Scancode Map:** *(collector failed: ");
            out.append(e.as_str());
            out.append(")*\n\n");
            assert(out@ =~= old(out)@ + scancode_section(Err(e@)));
        },
    }
}

/// Return a pre-formatted Markdown block suitable for pasting into an email
/// body, from what the collectors found.
pub fn diagnostics_report(
    app_version: &str,
    os_version: Option<&str>,
    active_hkl: Option<&str>,
    installed: &Result<Vec<InstalledLayoutInfo>, String>,
    scancode: &Result<ModifierState, String>,
    transcript_tail: &str,
) -> (out: String)
    ensures
        out@ == report_text(
            app_version@,
            match os_version {
                Some(v) => Some(v@),
                None => None,
            },
            match active_hkl {
                Some(h) => Some(h@),
                None => None,
            },
            match installed {
                Ok(v) => Ok(v@),
                Err(e) => Err(e@),
            },
            match scancode {
                Ok(st) => Ok(st.raw_entries@),
                Err(e) => Err(e@),
            },
            transcript_tail@,
        ),
{
    let mut out = string_of("## MagicWindows Bug Report\n\n");
    out.append("**App version:** ");
    out.append(app_version);
    out.append("\n");
    match os_version {
        Some(v) => {
            out.append("**OS:** ");
            out.append(trimmed(v).as_str());
            out.append("\n");
        },
        None => {
            out.append("**OS:** *(ver command failed)*\n");
        },
    }
    match active_hkl {
        Some(h) => {
            out.append("**Active layout (HKL):** ");
            out.append(trimmed(h).as_str());
            out.append("\n");
        },
        None => {
            out.append("**Active layout (HKL):** *(lookup failed)*\n");
        },
    }
    out.append("\n");
    append_installed(&mut out, installed);
    append_scancode(&mut out, scancode);
    out.append("**Last elevated PS transcript (tail 50 lines):**\n\n```\n");
    out.append(transcript_tail);
    out.append("\n```\n");
    proof {
        let osv = match os_version {
            Some(v) => Some(v@),
            None => None::<Seq<char>>,
        };
        let hklv = match active_hkl {
            Some(h) => Some(h@),
            None => None::<Seq<char>>,
        };
        assert(out@ =~= report_text(
            app_version@,
            osv,
            hklv,
            match installed {
                Ok(v) => Ok(v@),
                Err(e) => Err(e@),
            },
            match scancode {
                Ok(st) => Ok(st.raw_entries@),
                Err(e) => Err(e@),
            },
            transcript_tail@,
        ));
    }
    out
}

/// The report on platforms the diagnostics do not support.
pub open spec fn unsupported_report_text(version: Seq<char>) -> Seq<char> {
    "## MagicWindows Bug Report\n\n**App version:** "@ + version
        + "\n**OS:** non-Windows (not supported)\n"@
}

/// The report where diagnostics are not supported: the app version only.
pub fn unsupported_platform_report(app_version: &str) -> (out: String)
    ensures
        out@ == unsupported_report_text(app_version@),
{
    let mut out = string_of("## MagicWindows Bug Report\n\n**App version:** ");
    out.append(app_version);
    out.append("\n**OS:** non-Windows (not supported)\n");
    assert(out@ =~= unsupported_report_text(app_version@));
    out
}

// ── Transcript tail ───────────────────────────────────────────────────────

/// A line without the `\r` of a `\r\n` terminator.
pub open spec fn strip_cr(l: Seq<char>) -> Seq<char> {
    if l.len() > 0 && l.last() == '\r' {
        l.drop_last()
    } else {
        l
    }
}

/// The lines of `s` (`str::lines`): split at `\n`, with a `\r` just before
/// the `\n` dropped, and no empty line after a final `\n`.
pub open spec fn text_lines(s: Seq<char>) -> Seq<Seq<char>> {
    let f = split_fields(s, '\n', None);
    let body = f.drop_last().map_values(|l: Seq<char>| strip_cr(l));
    if f.last().len() == 0 {
        body
    } else {
        body.push(f.last())
    }
}

/// Lines joined with `\n` between them.
pub open spec fn join_lines(ls: Seq<Seq<char>>) -> Seq<char>
    decreases ls.len(),
{
    if ls.len() == 0 {
        seq![]
    } else if ls.len() == 1 {
        ls[0]
    } else {
        join_lines(ls.drop_last()) + seq!['\n'] + ls.last()
    }
}

/// The last `max` lines of `s` (all when there are fewer), joined with `\n`.
pub open spec fn tail_lines_text(s: Seq<char>, max: nat) -> Seq<char> {
    let ls = text_lines(s);
    join_lines(ls.subrange(suffix_start(ls.len(), max), ls.len() as int))
}

/// The last `max_lines` lines of a transcript, joined with line feeds.
pub fn transcript_tail_lines(content: &str, max_lines: usize) -> (t: String)
    ensures
        t@ == tail_lines_text(content@, max_lines as nat),
{
    let fields = split_chars(&chars_of(content), '\n', None);
    let ghost f = fields@.map_values(|x: Vec<char>| x@);
    proof {
        crate::text::lemma_split_fields_len(content@, '\n', None);
    }
    assert(f == split_fields(content@, '\n', None));
    let last: usize = fields.len() - 1;
    let n: usize = if fields[last].len() == 0 {
        last
    } else {
        last + 1
    };
    let ghost ls = text_lines(content@);
    assert(f.last() == fields@[last as int]@);
    assert(ls.len() == n);
    assert forall|k: int| 0 <= k < n implies #[trigger] ls[k] == (if k < last {
        strip_cr(fields@[k]@)
    } else {
        fields@[k]@
    }) by {
        assert(f[k] == fields@[k]@);
    }
    let start: usize = if n > max_lines {
        n - max_lines
    } else {
        0
    };
    assert(start as int == suffix_start(ls.len(), max_lines as nat));
    let mut out: Vec<char> = Vec::new();
    let mut k: usize = start;
    assert(ls.subrange(start as int, start as int) =~= Seq::<Seq<char>>::empty());
    while k < n
        invariant
            start <= k <= n,
            n <= fields.len(),
            last == fields.len() - 1,
            ls.len() == n,
            forall|i: int| 0 <= i < n ==> #[trigger] ls[i] == (if i < last {
                strip_cr(fields@[i]@)
            } else {
                fields@[i]@
            }),
            out@ == join_lines(ls.subrange(start as int, k as int)),
        decreases n - k,
    {
        if k > start {
            out.push('\n');
        }
        let line = &fields[k];
        let mut m: usize = line.len();
        if k < last && m > 0 && line[m - 1] == '\r' {
            m = m - 1;
        }
        assert(ls[k as int] == line@.take(m as int));
        let ghost mid = out@;
        let mut j: usize = 0;
        while j < m
            invariant
                j <= m <= line.len(),
                out@ == mid + line@.take(j as int),
            decreases m - j,
        {
            out.push(line[j]);
            j = j + 1;
            assert(out@ =~= mid + line@.take(j as int));
        }
        k = k + 1;
        proof {
            let sub = ls.subrange(start as int, k as int);
            assert(sub.drop_last() =~= ls.subrange(start as int, k - 1));
            assert(sub.last() == ls[k - 1]);
            assert(out@ =~= join_lines(sub));
        }
    }
    string_from_chars(out)
}

/// The first character boundary of the UTF-8 bytes `b` at or after `k`
/// (the end when there is none before it).
pub open spec fn boundary_from(b: Seq<u8>, k: int) -> int
    decreases b.len() - k,
{
    if k >= b.len() || is_char_boundary(b, k) {
        k
    } else {
        boundary_from(b, k + 1)
    }
}

/// Where a tail of `n` bytes over 8 KiB is cut: the first character
/// boundary at or after `n - 8192`.
pub open spec fn cut_point(t: Seq<char>) -> int {
    boundary_from(encode_utf8(t), encode_utf8(t).len() - 8192)
}

/// The tail as it goes into the report: when it is over 8 KiB, a note of
/// the cut, then its longest suffix of at most 8192 bytes that starts on a
/// character boundary.
pub open spec fn truncated_text(t: Seq<char>) -> Seq<char> {
    let b = encode_utf8(t);
    let n = b.len();
    if n > 8192 {
        "*(truncated from "@ + dec_digits(n) + " to 8192 bytes)*\n"@ + decode_utf8(
            b.subrange(cut_point(t), n as int),
        )
    } else {
        t
    }
}

proof fn lemma_boundary_from(b: Seq<u8>, k: int)
    requires
        0 <= k <= b.len(),
    ensures
        k <= boundary_from(b, k) <= b.len(),
        boundary_from(b, k) < b.len() ==> is_char_boundary(b, boundary_from(b, k)),
        forall|j: int| k <= j < boundary_from(b, k) ==> !is_char_boundary(b, j),
    decreases b.len() - k,
{
    if k < b.len() && !is_char_boundary(b, k) {
        lemma_boundary_from(b, k + 1);
    }
}

/// A cut tail keeps the longest suffix of at most 8192 bytes that starts on
/// a character boundary: the cut is the first boundary at or after
/// `n - 8192`, and the kept text is exactly the bytes from there on.
pub proof fn truncation_keeps_longest_suffix(t: Seq<char>)
    requires
        encode_utf8(t).len() > 8192,
    ensures
        ({
            let b = encode_utf8(t);
            let n = b.len() as int;
            let c = cut_point(t);
            &&& n - 8192 <= c <= n
            &&& c < n ==> is_char_boundary(b, c)
            &&& forall|j: int| n - 8192 <= j < c ==> !is_char_boundary(b, j)
            &&& encode_utf8(decode_utf8(b.subrange(c, n))) == b.subrange(c, n)
            &&& truncated_text(t) == "*(truncated from "@ + dec_digits(b.len()) + " to 8192 bytes)*\n"@
                + decode_utf8(b.subrange(c, n))
        }),
{
    let b = encode_utf8(t);
    let n = b.len() as int;
    lemma_boundary_from(b, n - 8192);
    let c = cut_point(t);
    encode_utf8_valid_utf8(t);
    if c < n {
        valid_utf8_split(b, c);
        decode_utf8_encode_utf8(b.subrange(c, n));
    } else {
        assert(b.subrange(c, n) =~= Seq::<u8>::empty());
        assert(decode_utf8(Seq::<u8>::empty()) =~= Seq::<char>::empty());
        assert(encode_utf8(Seq::<char>::empty()) =~= Seq::<u8>::empty());
    }
}

/// The tail holds the last `max` lines of the transcript, or all of them
/// when there are fewer.
pub proof fn tail_keeps_last_lines(s: Seq<char>, max: nat)
    ensures
        ({
            let ls = text_lines(s);
            let kept = ls.subrange(suffix_start(ls.len(), max), ls.len() as int);
            &&& tail_lines_text(s, max) == join_lines(kept)
            &&& kept.len() == (if ls.len() > max {
                max
            } else {
                ls.len()
            })
            &&& forall|i: int| 0 <= i < kept.len() ==> #[trigger] kept[i] == ls[ls.len() - kept.len() + i]
        }),
{
}

/// Truncate the tail to a reasonable size for mailto URL limits, cutting
/// at the first character boundary at or after the last 8192 bytes.
pub fn truncate_transcript(tail: &str) -> (r: String)
    requires
        encode_utf8(tail@).len() <= usize::MAX,
    ensures
        r@ == truncated_text(tail@),
{
    let n: usize = tail.len();
    let ghost b = encode_utf8(tail@);
    assert(tail.spec_bytes() == b);
    if n > 8192 {
        let mut k: usize = n - 8192;
        while k < n && !tail.is_char_boundary(k)
            invariant
                n - 8192 <= k <= n,
                n == b.len(),
                b == tail.spec_bytes(),
                boundary_from(b, k as int) == boundary_from(b, n - 8192),
            decreases n - k,
        {
            k = k + 1;
        }
        assert(k as int == cut_point(tail@));
        let mut r = string_of("*(truncated from ");
        r.append(format_dec(n as u64).as_str());
        r.append(" to 8192 bytes)*\n");
        if k < n {
            let (_, kept) = tail.split_at(k);
            proof {
                encode_utf8_decode_utf8(kept@);
                assert(kept.spec_bytes() == encode_utf8(kept@));
                assert(kept@ == decode_utf8(b.subrange(k as int, n as int)));
            }
            r.append(kept);
        } else {
            proof {
                reveal_strlit("");
                assert(b.subrange(k as int, n as int) =~= Seq::<u8>::empty());
                assert(decode_utf8(Seq::<u8>::empty()) =~= Seq::<char>::empty());
            }
            r.append("");
        }
        assert(r@ =~= truncated_text(tail@));
        r
    } else {
        string_of(tail)
    }
}

} // verus!
