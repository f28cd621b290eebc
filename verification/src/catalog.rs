//! The catalogue of bundled layouts as the commands use it: which layout ids
//! may be looked up, the stable ordering of the loaded layouts by id, and the
//! detection keys of several layouts, de-duplicated by event code.
use vstd::prelude::*;
use crate::layout::{DetectionKey, Layout, text_map_view, copy_text_map};
use crate::sort::{
    text_order, text_le, keyed, sorted_order, sorted_prefix, lemma_ins_at, text_le_exec,
};
use crate::text::{chars_of, chars_eq, string_of};

verus! {

broadcast use vstd::string::group_string_axioms;

// ── Layout ids ────────────────────────────────────────────────────────────

/// A character a layout id may hold: ASCII letters and digits, `-`, `_`.
pub open spec fn id_char_ok(c: char) -> bool {
    ('a' <= c && c <= 'z') || ('A' <= c && c <= 'Z') || ('0' <= c && c <= '9') || c == '-' || c
        == '_'
}

/// A layout id that may name a file: not empty, and only id characters, so
/// that it cannot reach outside the layouts directory.
pub open spec fn valid_layout_id(id: Seq<char>) -> bool {
    id.len() > 0 && forall|i: int| 0 <= i < id.len() ==> id_char_ok(#[trigger] id[i])
}

/// Validate the id to prevent path traversal attacks. Layout IDs should
/// only contain alphanumeric characters, hyphens, and underscores.
pub fn check_layout_id(id: &str) -> (r: Result<(), String>)
    ensures
        valid_layout_id(id@) ==> r is Ok,
        !valid_layout_id(id@) ==> (r matches Err(e) && e@ == "Invalid layout ID: '"@ + id@ + "'"@),
{
    let cs = chars_of(id);
    let mut ok = cs.len() > 0;
    let mut i: usize = 0;
    while ok && i < cs.len()
        invariant
            cs@ == id@,
            i <= cs.len(),
            ok ==> cs.len() > 0,
            ok ==> forall|j: int| 0 <= j < i ==> id_char_ok(#[trigger] cs@[j]),
            !ok ==> !valid_layout_id(id@),
        decreases cs.len() - i,
    {
        let c = cs[i];
        if !(('a' <= c && c <= 'z') || ('A' <= c && c <= 'Z') || ('0' <= c && c <= '9') || c == '-'
            || c == '_') {
            ok = false;
        }
        i = i + 1;
    }
    if ok {
        Ok(())
    } else {
        let mut e = string_of("Invalid layout ID: '");
        e.append(id);
        e.append("'");
        Err(e)
    }
}

/// An id that passes the check names a file inside the layouts directory:
/// it holds no path separator, no dot and no drive colon.
pub proof fn valid_id_stays_in_directory(id: Seq<char>)
    requires
        valid_layout_id(id),
    ensures
        forall|i: int|
            0 <= i < id.len() ==> #[trigger] id[i] != '/' && id[i] != '\\' && id[i] != '.' && id[i]
                != ':',
{
    assert forall|i: int| 0 <= i < id.len() implies #[trigger] id[i] != '/' && id[i] != '\\' && id[i]
        != '.' && id[i] != ':' by {
        assert(id_char_ok(id[i]));
    }
}

// ── Ordering ──────────────────────────────────────────────────────────────

/// The ids of the layouts, in order.
pub open spec fn layout_ids(ls: Seq<Layout>) -> Seq<Seq<char>> {
    ls.map_values(|l: Layout| l.id@)
}

/// Sort by ID for stable ordering: afterwards the layout at position `k` is
/// the one that stood at the `k`-th index of the stable order of the ids
/// (layouts with equal ids keep their relative order).
pub fn sort_layouts_by_id(layouts: &mut Vec<Layout>)
    ensures
        final(layouts)@.len() == old(layouts)@.len(),
        forall|k: int|
            0 <= k < old(layouts)@.len() ==> #[trigger] final(layouts)@[k] == old(layouts)@[sorted_order(
                layout_ids(old(layouts)@),
                text_order(),
            )[k]],
{
    let ghost orig = layouts@;
    let ghost ks = layout_ids(orig);
    let ghost le = text_order();
    let n: usize = layouts.len();
    let ghost mut perm: Seq<int> = seq![];
    let mut i: usize = 0;
    while i < n
        invariant
            i <= n,
            n == orig.len(),
            ks == layout_ids(orig),
            le == text_order(),
            layouts@.len() == n,
            perm.len() == i,
            forall|k: int| i <= k < n ==> #[trigger] layouts@[k] == orig[k],
            forall|k: int| 0 <= k < i ==> 0 <= #[trigger] perm[k] < i,
            forall|k: int| 0 <= k < i ==> #[trigger] layouts@[k] == orig[perm[k]],
            perm.map_values(|x: int| (ks[x], x)) == sorted_prefix(ks, le, i as int),
        decreases n - i,
    {
        let ghost s = perm.map_values(|x: int| (ks[x], x));
        let x = layouts.remove(i);
        assert(x == orig[i as int]);
        let xid = chars_of(x.id.as_str());
        assert(xid@ == ks[i as int]);
        let mut p: usize = i;
        while p > 0 && !text_le_exec(&chars_of(layouts[p - 1].id.as_str()), &xid)
            invariant
                p <= i,
                i < n,
                n == orig.len(),
                layouts@.len() == n - 1,
                ks == layout_ids(orig),
                le == text_order(),
                xid@ == ks[i as int],
                s == perm.map_values(|x: int| (ks[x], x)),
                perm.len() == i,
                forall|k: int| 0 <= k < i ==> 0 <= #[trigger] perm[k] < i,
                forall|k: int| 0 <= k < i ==> #[trigger] layouts@[k] == orig[perm[k]],
                forall|j: int| p <= j < s.len() ==> !le(#[trigger] s[j].0, ks[i as int]),
            decreases p,
        {
            assert(s[p - 1] == (ks[perm[p - 1]], perm[p - 1]));
            assert(layouts@[p - 1] == orig[perm[p - 1]]);
            p = p - 1;
        }
        proof {
            if p > 0 {
                assert(s[p - 1] == (ks[perm[p - 1]], perm[p - 1]));
                assert(layouts@[p - 1] == orig[perm[p - 1]]);
            }
            lemma_ins_at(s, (ks[i as int], i as int), le, p as int);
            assert(keyed(ks).take(i + 1).drop_last() =~= keyed(ks).take(i as int));
            assert(keyed(ks).take(i + 1).last() == (ks[i as int], i as int));
        }
        let ghost before = layouts@;
        layouts.insert(p, x);
        proof {
            let new_perm = perm.take(p as int) + seq![i as int] + perm.skip(p as int);
            assert(new_perm.map_values(|x: int| (ks[x], x)) =~= s.take(p as int) + seq![
                (ks[i as int], i as int),
            ] + s.skip(p as int));
            assert forall|k: int| 0 <= k < i + 1 implies #[trigger] layouts@[k] == orig[new_perm[k]] by {
                if k < p {
                    assert(layouts@[k] == before[k]);
                } else if k == p {
                } else {
                    assert(layouts@[k] == before[k - 1]);
                }
            }
            assert forall|k: int| i + 1 <= k < n implies #[trigger] layouts@[k] == orig[k] by {
                assert(layouts@[k] == before[k - 1]);
            }
            perm = new_perm;
        }
        i = i + 1;
    }
    proof {
        assert(keyed(ks).take(n as int) =~= keyed(ks));
        assert(perm.map_values(|x: int| (ks[x], x)).map_values(|q: (Seq<char>, int)| q.1) =~= perm);
    }
}

/// After sorting, the layouts stand in code-point order of their ids, and
/// each layout of the input stands exactly once.
pub proof fn layouts_sorted_by_id(ls: Seq<Layout>)
    ensures
        sorted_order(layout_ids(ls), text_order()).len() == ls.len(),
        forall|j: int|
            0 <= j < ls.len() ==> 0 <= #[trigger] sorted_order(layout_ids(ls), text_order())[j]
                < ls.len(),
        forall|i: int, j: int|
            0 <= i < j < ls.len() ==> #[trigger] sorted_order(layout_ids(ls), text_order())[i]
                != #[trigger] sorted_order(layout_ids(ls), text_order())[j],
        forall|i: int, j: int|
            0 <= i < j < ls.len() ==> text_le(
                ls[#[trigger] sorted_order(layout_ids(ls), text_order())[i]].id@,
                ls[#[trigger] sorted_order(layout_ids(ls), text_order())[j]].id@,
            ),
{
    crate::sort::text_order_is_total_preorder();
    crate::sort::sorted_order_sorts(layout_ids(ls), text_order());
    let o = sorted_order(layout_ids(ls), text_order());
    assert forall|i: int, j: int| 0 <= i < j < ls.len() implies text_le(
        ls[#[trigger] o[i]].id@,
        ls[#[trigger] o[j]].id@,
    ) by {
        assert(layout_ids(ls)[o[i]] == ls[o[i]].id@);
        assert(layout_ids(ls)[o[j]] == ls[o[j]].id@);
        assert(text_order()(layout_ids(ls)[o[i]], layout_ids(ls)[o[j]]));
    }
}

// ── Detection keys ────────────────────────────────────────────────────────

/// A detection key as plain text: event code, prompt entries, expected base.
pub type KeyView = (Seq<char>, Seq<(Seq<char>, Seq<char>)>, Seq<char>);

/// The plain text of a detection key.
pub open spec fn key_view(dk: DetectionKey) -> KeyView {
    (dk.event_code@, text_map_view(dk.prompt@), dk.expected_base@)
}

/// The detection keys of the layouts, layout by layout, as plain text.
pub open spec fn all_detection_keys(ls: Seq<Layout>) -> Seq<KeyView>
    decreases ls.len(),
{
    if ls.len() == 0 {
        seq![]
    } else {
        all_detection_keys(ls.drop_last()) + ls.last().detection_keys@.map_values(
            |dk: DetectionKey| key_view(dk),
        )
    }
}

/// Whether some key of `ks` has event code `code`.
pub open spec fn has_code(ks: Seq<KeyView>, code: Seq<char>) -> bool {
    exists|j: int| 0 <= j < ks.len() && (#[trigger] ks[j]).0 == code
}

/// The first key of each event code, in order.
pub open spec fn first_by_code(ks: Seq<KeyView>) -> Seq<KeyView>
    decreases ks.len(),
{
    if ks.len() == 0 {
        seq![]
    } else {
        let r = first_by_code(ks.drop_last());
        if has_code(r, ks.last().0) {
            r
        } else {
            r.push(ks.last())
        }
    }
}

fn copy_detection_key(dk: &DetectionKey) -> (r: DetectionKey)
    ensures
        key_view(r) == key_view(*dk),
{
    DetectionKey {
        event_code: string_of(dk.event_code.as_str()),
        prompt: copy_text_map(&dk.prompt),
        expected_base: string_of(dk.expected_base.as_str()),
    }
}

fn has_code_exec(keys: &Vec<DetectionKey>, code: &str) -> (b: bool)
    ensures
        b == has_code(keys@.map_values(|dk: DetectionKey| key_view(dk)), code@),
{
    let ghost kv = keys@.map_values(|dk: DetectionKey| key_view(dk));
    let c = chars_of(code);
    let mut i: usize = 0;
    while i < keys.len()
        invariant
            i <= keys.len(),
            c@ == code@,
            kv == keys@.map_values(|dk: DetectionKey| key_view(dk)),
            forall|j: int| 0 <= j < i ==> (#[trigger] kv[j]).0 != code@,
        decreases keys.len() - i,
    {
        assert(kv[i as int].0 == keys@[i as int].event_code@);
        if chars_eq(&chars_of(keys[i].event_code.as_str()), &c) {
            assert(kv[i as int].0 == code@);
            return true;
        }
        i = i + 1;
    }
    false
}

/// Return detection keys for the given layouts (used by the auto-detection
/// UI). Keys are de-duplicated by `eventCode`: the first key of each event
/// code is kept, in the order the layouts list them.
pub fn detection_keys(layouts: &[Layout]) -> (keys: Vec<DetectionKey>)
    ensures
        keys@.map_values(|dk: DetectionKey| key_view(dk)) == first_by_code(
            all_detection_keys(layouts@),
        ),
{
    let mut keys: Vec<DetectionKey> = Vec::new();
    let mut li: usize = 0;
    while li < layouts.len()
        invariant
            li <= layouts.len(),
            keys@.map_values(|dk: DetectionKey| key_view(dk)) == first_by_code(
                all_detection_keys(layouts@.take(li as int)),
            ),
        decreases layouts.len() - li,
    {
        let dks = &layouts[li].detection_keys;
        let ghost prefix = all_detection_keys(layouts@.take(li as int));
        let ghost dkv = dks@.map_values(|dk: DetectionKey| key_view(dk));
        let mut ki: usize = 0;
        while ki < dks.len()
            invariant
                ki <= dks.len(),
                dkv == dks@.map_values(|dk: DetectionKey| key_view(dk)),
                keys@.map_values(|dk: DetectionKey| key_view(dk)) == first_by_code(
                    prefix + dkv.take(ki as int),
                ),
            decreases dks.len() - ki,
        {
            let ghost all = prefix + dkv.take(ki + 1);
            assert(all.drop_last() =~= prefix + dkv.take(ki as int));
            assert(all.last() == key_view(dks@[ki as int]));
            let dk = &dks[ki];
            if !has_code_exec(&keys, dk.event_code.as_str()) {
                let copy = copy_detection_key(dk);
                proof {
                    crate::text::lemma_map_push(keys@, copy, |dk: DetectionKey| key_view(dk));
                }
                keys.push(copy);
            }
            ki = ki + 1;
        }
        proof {
            assert(dkv.take(dks.len() as int) =~= dkv);
            assert(layouts@.take(li + 1).drop_last() =~= layouts@.take(li as int));
            assert(layouts@.take(li + 1).last() == layouts@[li as int]);
        }
        li = li + 1;
    }
    assert(layouts@.take(layouts.len() as int) =~= layouts@);
    keys
}

/// The de-duplicated detection keys hold each event code once, every key's
/// event code is among them, and each of them is one of the keys.
pub proof fn detection_keys_dedup(ks: Seq<KeyView>)
    ensures
        forall|i: int, j: int|
            0 <= i < j < first_by_code(ks).len() ==> #[trigger] first_by_code(ks)[i].0
                != #[trigger] first_by_code(ks)[j].0,
        forall|i: int| 0 <= i < ks.len() ==> has_code(first_by_code(ks), #[trigger] ks[i].0),
        forall|i: int|
            0 <= i < first_by_code(ks).len() ==> ks.contains(#[trigger] first_by_code(ks)[i]),
    decreases ks.len(),
{
    if ks.len() > 0 {
        let d = ks.drop_last();
        detection_keys_dedup(d);
        let r = first_by_code(d);
        let x = ks.last();
        assert forall|i: int| 0 <= i < ks.len() implies has_code(first_by_code(ks), #[trigger] ks[i].0) by {
            if i < ks.len() - 1 {
                assert(ks[i] == d[i]);
                assert(has_code(r, d[i].0));
                let w = choose|j: int| 0 <= j < r.len() && (#[trigger] r[j]).0 == d[i].0;
                assert(first_by_code(ks)[w] == r[w]);
            } else if has_code(r, x.0) {
            } else {
                assert(first_by_code(ks)[r.len() as int] == x);
            }
        }
        assert forall|i: int| 0 <= i < first_by_code(ks).len() implies ks.contains(
            #[trigger] first_by_code(ks)[i],
        ) by {
            if i < r.len() {
                assert(first_by_code(ks)[i] == r[i]);
                assert(d.contains(r[i]));
                let w = choose|j: int| 0 <= j < d.len() && d[j] == r[i];
                assert(ks[w] == d[w]);
            } else {
                assert(ks[ks.len() - 1] == x);
            }
        }
    }
}

} // verus!
