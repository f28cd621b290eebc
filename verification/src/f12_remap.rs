//! F12 / Eject key remap.
//!
//! Apple Magic Keyboards expose F12 as Eject, which has no useful action
//! under Windows. We let users repurpose it via a single Scancode Map entry
//! that maps source scancode 0x58 (F12) to one of a curated set of
//! destination scancodes that Windows handles natively.
use vstd::prelude::*;
use crate::scancode_map::{
    PairView, RawScancodePair, copy_pair, pairs_view, is_modifier_code, derived_toggles,
    group_present, cmd_ctrl_left_group, cmd_ctrl_right_group, caps_group, option_cmd_group,
    lemma_pairs_view_push,
};
use crate::text::{ascii_upper, chars_of, chars_eq, to_ascii_upper, string_of};

verus! {

broadcast use vstd::string::group_string_axioms;

/// What the F12 / Eject key does.
#[derive(Debug, Clone, Copy, PartialEq, Eq, Structural)]
pub enum F12Action {
    Default,
    Disabled,
    Calculator,
    Search,
    Mail,
    AppsMenu,
    VolumeMute,
}

/// The destination scancode text of each action; `Default` has none.
pub open spec fn dest_code(a: F12Action) -> Option<Seq<char>> {
    match a {
        F12Action::Default => None,
        F12Action::Disabled => Some(seq!['0', '0', '0', '0']),
        F12Action::Calculator => Some(seq!['2', '1', 'E', '0']),
        F12Action::Search => Some(seq!['6', '5', 'E', '0']),
        F12Action::Mail => Some(seq!['6', 'C', 'E', '0']),
        F12Action::AppsMenu => Some(seq!['5', 'D', 'E', '0']),
        F12Action::VolumeMute => Some(seq!['2', '0', 'E', '0']),
    }
}

/// The action whose destination scancode `s` names, in either letter case.
pub open spec fn action_of_code(s: Seq<char>) -> Option<F12Action> {
    let u = ascii_upper(s);
    if u == seq!['0', '0', '0', '0'] {
        Some(F12Action::Disabled)
    } else if u == seq!['2', '1', 'E', '0'] {
        Some(F12Action::Calculator)
    } else if u == seq!['6', '5', 'E', '0'] {
        Some(F12Action::Search)
    } else if u == seq!['6', 'C', 'E', '0'] {
        Some(F12Action::Mail)
    } else if u == seq!['5', 'D', 'E', '0'] {
        Some(F12Action::AppsMenu)
    } else if u == seq!['2', '0', 'E', '0'] {
        Some(F12Action::VolumeMute)
    } else {
        None
    }
}

/// The F12 source scancode text.
pub open spec fn f12_code() -> Seq<char> {
    seq!['5', '8', '0', '0']
}

/// Whether `s` names the F12 source scancode, in either letter case.
pub open spec fn is_f12_code(s: Seq<char>) -> bool {
    ascii_upper(s) == f12_code()
}

/// The action that the first F12 entry with a known destination selects,
/// or `Default` when there is none.
pub open spec fn action_in_pairs(ps: Seq<PairView>) -> F12Action
    decreases ps.len(),
{
    if ps.len() == 0 {
        F12Action::Default
    } else if is_f12_code(ps[0].1) && action_of_code(ps[0].0) is Some {
        action_of_code(ps[0].0)->0
    } else {
        action_in_pairs(ps.drop_first())
    }
}

/// `ps` without its entries whose source is F12, order kept.
pub open spec fn without_f12(ps: Seq<PairView>) -> Seq<PairView>
    decreases ps.len(),
{
    if ps.len() == 0 {
        seq![]
    } else if is_f12_code(ps.last().1) {
        without_f12(ps.drop_last())
    } else {
        without_f12(ps.drop_last()).push(ps.last())
    }
}

/// The entries after selecting `a`: the others kept in order, then the
/// F12 entry of `a` when it has a destination.
pub open spec fn pairs_with_action(ps: Seq<PairView>, a: F12Action) -> Seq<PairView> {
    match dest_code(a) {
        Some(d) => without_f12(ps).push((d, f12_code())),
        None => without_f12(ps),
    }
}

impl F12Action {
    /// The destination scancode of this action; `None` for `Default`.
    pub fn dest_scancode(&self) -> (r: Option<&'static str>)
        ensures
            r is Some <==> dest_code(*self) is Some,
            r matches Some(s) ==> s@ == dest_code(*self)->0,
    {
        proof {
            reveal_strlit("0000");
            reveal_strlit("21E0");
            reveal_strlit("65E0");
            reveal_strlit("6CE0");
            reveal_strlit("5DE0");
            reveal_strlit("20E0");
        }
        match self {
            F12Action::Default => None,
            F12Action::Disabled => Some("0000"),
            F12Action::Calculator => Some("21E0"),
            F12Action::Search => Some("65E0"),
            F12Action::Mail => Some("6CE0"),
            F12Action::AppsMenu => Some("5DE0"),
            F12Action::VolumeMute => Some("20E0"),
        }
    }

    /// The action whose destination scancode `s` names, ignoring letter
    /// case. (The codes hold only digits and `C`, `D`, `E`, which no
    /// non-ASCII character upper-cases to, so ASCII case folding decides
    /// exactly as full Unicode upper-casing.)
    pub fn from_dest_scancode(s: &str) -> (r: Option<F12Action>)
        ensures
            r == action_of_code(s@),
    {
        let u = to_ascii_upper(&chars_of(s));
        let d0 = chars_of("0000");
        let d1 = chars_of("21E0");
        let d2 = chars_of("65E0");
        let d3 = chars_of("6CE0");
        let d4 = chars_of("5DE0");
        let d5 = chars_of("20E0");
        proof {
            reveal_strlit("0000");
            reveal_strlit("21E0");
            reveal_strlit("65E0");
            reveal_strlit("6CE0");
            reveal_strlit("5DE0");
            reveal_strlit("20E0");
            assert(d0@ =~= seq!['0', '0', '0', '0']);
            assert(d1@ =~= seq!['2', '1', 'E', '0']);
            assert(d2@ =~= seq!['6', '5', 'E', '0']);
            assert(d3@ =~= seq!['6', 'C', 'E', '0']);
            assert(d4@ =~= seq!['5', 'D', 'E', '0']);
            assert(d5@ =~= seq!['2', '0', 'E', '0']);
        }
        if chars_eq(&u, &d0) {
            Some(F12Action::Disabled)
        } else if chars_eq(&u, &d1) {
            Some(F12Action::Calculator)
        } else if chars_eq(&u, &d2) {
            Some(F12Action::Search)
        } else if chars_eq(&u, &d3) {
            Some(F12Action::Mail)
        } else if chars_eq(&u, &d4) {
            Some(F12Action::AppsMenu)
        } else if chars_eq(&u, &d5) {
            Some(F12Action::VolumeMute)
        } else {
            None
        }
    }
}

/// Whether `old_code` names the F12 source scancode `5800`, ignoring ASCII
/// letter case.
pub fn is_f12_source(old_code: &str) -> (r: bool)
    ensures
        r == is_f12_code(old_code@),
{
    let u = to_ascii_upper(&chars_of(old_code));
    let f = chars_of("5800");
    proof {
        reveal_strlit("5800");
        assert(f@ =~= f12_code());
    }
    chars_eq(&u, &f)
}

/// The F12 action that a Scancode Map's entries select: the first entry
/// whose source is F12 and whose destination is a known action, else
/// `Default`.
pub fn f12_action_from_entries(entries: &[RawScancodePair]) -> (a: F12Action)
    ensures
        a == action_in_pairs(pairs_view(entries@)),
{
    let ghost pv = pairs_view(entries@);
    assert(pv.skip(0) =~= pv);
    let mut i: usize = 0;
    while i < entries.len()
        invariant
            i <= entries.len(),
            pv == pairs_view(entries@),
            action_in_pairs(pv) == action_in_pairs(pv.skip(i as int)),
        decreases entries.len() - i,
    {
        let p = &entries[i];
        assert(pv.skip(i as int)[0] == p@);
        assert(pv.skip(i as int).drop_first() =~= pv.skip(i + 1));
        if is_f12_source(p.old_code.as_str()) {
            if let Some(a) = F12Action::from_dest_scancode(p.new_code.as_str()) {
                return a;
            }
        }
        i = i + 1;
    }
    assert(pv.skip(entries.len() as int) =~= Seq::<PairView>::empty());
    F12Action::Default
}

/// The entries to write after selecting `action`: every entry whose source
/// is not F12, in order, then the F12 entry of `action` unless it is
/// `Default`.
pub fn f12_pairs_with_action(entries: &[RawScancodePair], action: F12Action) -> (r: Vec<
    RawScancodePair,
>)
    ensures
        pairs_view(r@) == pairs_with_action(pairs_view(entries@), action),
{
    let ghost pv = pairs_view(entries@);
    let mut out: Vec<RawScancodePair> = Vec::new();
    let mut i: usize = 0;
    while i < entries.len()
        invariant
            i <= entries.len(),
            pv == pairs_view(entries@),
            pairs_view(out@) == without_f12(pv.take(i as int)),
        decreases entries.len() - i,
    {
        let p = &entries[i];
        assert(pv.take(i + 1).drop_last() =~= pv.take(i as int));
        assert(pv.take(i + 1).last() == p@);
        if !is_f12_source(p.old_code.as_str()) {
            let q = copy_pair(p);
            proof {
                lemma_pairs_view_push(out@, q);
            }
            out.push(q);
        }
        i = i + 1;
    }
    assert(pv.take(entries.len() as int) =~= pv);
    if let Some(dest) = action.dest_scancode() {
        let q = RawScancodePair { new_code: string_of(dest), old_code: string_of("5800") };
        proof {
            reveal_strlit("5800");
            assert(q.old_code@ =~= f12_code());
            lemma_pairs_view_push(out@, q);
        }
        out.push(q);
    }
    out
}

// ── Laws ─────────────────────────────────────────────────────────────────────

/// Every action with a destination is read back from its own destination
/// scancode; `Default` has none.
pub proof fn dest_scancode_round_trip(a: F12Action)
    ensures
        dest_code(a) is None <==> a == F12Action::Default,
        dest_code(a) matches Some(d) ==> action_of_code(d) == Some(a),
{
    if let Some(d) = dest_code(a) {
        assert(ascii_upper(d) =~= d);
    }
}

proof fn lemma_without_f12_clean(ps: Seq<PairView>)
    ensures
        forall|i: int| 0 <= i < without_f12(ps).len() ==> !is_f12_code(#[trigger] without_f12(ps)[i].1),
    decreases ps.len(),
{
    if ps.len() > 0 {
        lemma_without_f12_clean(ps.drop_last());
        let w = without_f12(ps.drop_last());
        if !is_f12_code(ps.last().1) {
            assert forall|i: int| 0 <= i < w.push(ps.last()).len() implies !is_f12_code(
                #[trigger] w.push(ps.last())[i].1,
            ) by {
                if i < w.len() {
                    assert(w.push(ps.last())[i] == w[i]);
                }
            }
        }
    }
}

proof fn lemma_action_skips_clean(xs: Seq<PairView>, y: PairView)
    requires
        forall|i: int| 0 <= i < xs.len() ==> !is_f12_code(#[trigger] xs[i].1),
    ensures
        action_in_pairs(xs.push(y)) == action_in_pairs(seq![y]),
    decreases xs.len(),
{
    if xs.len() > 0 {
        assert(xs.push(y).drop_first() =~= xs.drop_first().push(y));
        assert(xs.push(y)[0] == xs[0]);
        assert forall|i: int| 0 <= i < xs.drop_first().len() implies !is_f12_code(
            #[trigger] xs.drop_first()[i].1,
        ) by {
            assert(xs.drop_first()[i] == xs[i + 1]);
        }
        lemma_action_skips_clean(xs.drop_first(), y);
        assert(!is_f12_code(xs[0].1));
    } else {
        assert(xs.push(y) =~= seq![y]);
    }
}

proof fn lemma_action_clean(xs: Seq<PairView>)
    requires
        forall|i: int| 0 <= i < xs.len() ==> !is_f12_code(#[trigger] xs[i].1),
    ensures
        action_in_pairs(xs) == F12Action::Default,
    decreases xs.len(),
{
    if xs.len() > 0 {
        assert forall|i: int| 0 <= i < xs.drop_first().len() implies !is_f12_code(
            #[trigger] xs.drop_first()[i].1,
        ) by {
            assert(xs.drop_first()[i] == xs[i + 1]);
        }
        lemma_action_clean(xs.drop_first());
    }
}

/// Selecting an action sends F12 (scancode `5800`) to the fixed Windows
/// scancode of that action: `0000` to disable it, `21E0` Calculator, `65E0`
/// Browser Search, `6CE0` Launch Mail, `5DE0` the Apps menu key, `20E0`
/// Volume Mute; `Default` sends it nowhere. That scancode reads back as the
/// action.
pub proof fn f12_actions_use_windows_scancodes(ps: Seq<PairView>, a: F12Action)
    ensures
        ({
            let code: Option<Seq<char>> = match a {
                F12Action::Default => None,
                F12Action::Disabled => Some(seq!['0', '0', '0', '0']),
                F12Action::Calculator => Some(seq!['2', '1', 'E', '0']),
                F12Action::Search => Some(seq!['6', '5', 'E', '0']),
                F12Action::Mail => Some(seq!['6', 'C', 'E', '0']),
                F12Action::AppsMenu => Some(seq!['5', 'D', 'E', '0']),
                F12Action::VolumeMute => Some(seq!['2', '0', 'E', '0']),
            };
            &&& match code {
                Some(c) => {
                    &&& pairs_with_action(ps, a).len() > 0
                    &&& pairs_with_action(ps, a).last() == (c, seq!['5', '8', '0', '0'])
                    &&& action_of_code(c) == Some(a)
                },
                None => pairs_with_action(ps, a) == without_f12(ps),
            }
            &&& dest_code(a) == code
        }),
{
    if let Some(d) = dest_code(a) {
        assert(ascii_upper(d) =~= d);
    }
}

/// Selecting an action and reading the entries back gives that action.
pub proof fn f12_set_then_get(ps: Seq<PairView>, a: F12Action)
    ensures
        action_in_pairs(pairs_with_action(ps, a)) == a,
{
    lemma_without_f12_clean(ps);
    let w = without_f12(ps);
    match dest_code(a) {
        Some(d) => {
            dest_scancode_round_trip(a);
            lemma_action_skips_clean(w, (d, f12_code()));
            assert(ascii_upper(f12_code()) =~= f12_code());
            assert(seq![(d, f12_code())].drop_first() =~= Seq::<PairView>::empty());
        },
        None => {
            dest_scancode_round_trip(a);
            lemma_action_clean(w);
        },
    }
}

proof fn lemma_without_f12_contains(ps: Seq<PairView>, x: PairView)
    ensures
        without_f12(ps).contains(x) <==> (ps.contains(x) && !is_f12_code(x.1)),
    decreases ps.len(),
{
    if ps.len() > 0 {
        let q = ps.drop_last();
        lemma_without_f12_contains(q, x);
        assert(ps =~= q.push(ps.last()));
        if ps.contains(x) {
            let k = choose|k: int| 0 <= k < ps.len() && ps[k] == x;
            if k < q.len() {
                assert(q[k] == x);
            }
        }
        if q.contains(x) {
            let k = choose|k: int| 0 <= k < q.len() && q[k] == x;
            assert(ps[k] == x);
        }
        if !is_f12_code(ps.last().1) {
            let w = without_f12(q);
            if w.push(ps.last()).contains(x) {
                let k = choose|k: int| 0 <= k < w.push(ps.last()).len() && w.push(ps.last())[k] == x;
                if k < w.len() {
                    assert(w[k] == x);
                }
            }
            if w.contains(x) {
                let k = choose|k: int| 0 <= k < w.len() && w[k] == x;
                assert(w.push(ps.last())[k] == x);
            }
            assert(w.push(ps.last())[w.len() as int] == ps.last());
        }
    }
}

/// The F12 source is not a modifier key.
proof fn lemma_f12_not_modifier()
    ensures
        !is_modifier_code(f12_code()),
{
    assert(ascii_upper(f12_code()) =~= f12_code());
    assert(f12_code()[0] == '5' && f12_code()[1] == '8');
    assert(crate::scancode_map::code_text(crate::scancode_map::LCTRL)[1] == 'D');
    assert(crate::scancode_map::code_text(crate::scancode_map::RCTRL)[1] == 'D');
    assert(crate::scancode_map::code_text(crate::scancode_map::LWIN)[1] == 'B');
    assert(crate::scancode_map::code_text(crate::scancode_map::RWIN)[1] == 'C');
    assert(crate::scancode_map::code_text(crate::scancode_map::LALT)[0] == '3');
    assert(crate::scancode_map::code_text(crate::scancode_map::RALT)[0] == '3');
    assert(crate::scancode_map::code_text(crate::scancode_map::CAPS)[0] == '3');
}

proof fn lemma_group_present_kept(ps: Seq<PairView>, a: F12Action, g: Seq<PairView>)
    requires
        forall|i: int| 0 <= i < g.len() ==> is_modifier_code(#[trigger] g[i].1),
    ensures
        group_present(pairs_with_action(ps, a), g) == group_present(ps, g),
{
    lemma_f12_not_modifier();
    assert forall|i: int| 0 <= i < g.len() implies (pairs_with_action(ps, a).contains(#[trigger] g[i])
        <==> ps.contains(g[i])) by {
        let x = g[i];
        lemma_without_f12_contains(ps, x);
        assert(is_modifier_code(x.1));
        assert(!is_f12_code(x.1));
        if let Some(d) = dest_code(a) {
            let w = without_f12(ps);
            let y = (d, f12_code());
            assert(x != y);
            if w.push(y).contains(x) {
                let k = choose|k: int| 0 <= k < w.push(y).len() && w.push(y)[k] == x;
                assert(k < w.len());
                assert(w[k] == x);
            }
            if w.contains(x) {
                let k = choose|k: int| 0 <= k < w.len() && w[k] == x;
                assert(w.push(y)[k] == x);
            }
        }
    }
}

/// Selecting an F12 action never changes which modifier toggles the
/// Scancode Map holds.
pub proof fn f12_set_keeps_modifier_toggles(ps: Seq<PairView>, a: F12Action)
    ensures
        derived_toggles(pairs_with_action(ps, a)) == derived_toggles(ps),
{
    crate::scancode_map::lemma_groups_on_modifier_keys();
    lemma_group_present_kept(ps, a, cmd_ctrl_left_group());
    lemma_group_present_kept(ps, a, cmd_ctrl_right_group());
    lemma_group_present_kept(ps, a, caps_group());
    lemma_group_present_kept(ps, a, option_cmd_group());
}

} // verus!
