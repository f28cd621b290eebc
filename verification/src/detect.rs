//! Layout auto-detection: scoring how well key-press results match each
//! layout's detection keys, and picking the unique best layout.
use vstd::prelude::*;
use crate::layout::{DetectionKey, DetectionResult, Layout};

verus! {

/// Whether some detection key of `dks` agrees with result `r` on both the
/// event code and the expected character.
pub open spec fn key_matches(dks: Seq<DetectionKey>, r: DetectionResult) -> bool
    decreases dks.len(),
{
    dks.len() > 0 && ((dks.last().event_code@ == r.event_code@ && dks.last().expected_base@
        == r.received_char@) || key_matches(dks.drop_last(), r))
}

/// The score of a layout: one point per detection result that some
/// detection key of the layout matches on the event code and the character.
pub open spec fn layout_score(l: Layout, rs: Seq<DetectionResult>) -> nat
    decreases rs.len(),
{
    if rs.len() == 0 {
        0
    } else {
        layout_score(l, rs.drop_last()) + (if key_matches(l.detection_keys@, rs.last()) {
            1nat
        } else {
            0nat
        })
    }
}

/// A layout scores at most one point per result.
pub proof fn score_at_most_one_per_result(l: Layout, rs: Seq<DetectionResult>)
    ensures
        layout_score(l, rs) <= rs.len(),
    decreases rs.len(),
{
    if rs.len() > 0 {
        score_at_most_one_per_result(l, rs.drop_last());
    }
}

/// Whether layout `i` scores above zero and strictly above every other.
pub open spec fn unique_best(ls: Seq<Layout>, rs: Seq<DetectionResult>, i: int) -> bool {
    &&& 0 <= i < ls.len()
    &&& layout_score(ls[i], rs) > 0
    &&& forall|j: int|
        0 <= j < ls.len() && j != i ==> #[trigger] layout_score(ls[j], rs) < layout_score(
            ls[i],
            rs,
        )
}

/// Score how well a set of detection results matches a given layout.
///
/// For every detection result we look up the layout's `detectionKeys` entry
/// that has the same `eventCode`.  If the received character matches the
/// entry's `expectedBase`, we award one point.
pub fn score_layout(layout: &Layout, results: &[DetectionResult]) -> (score: u32)
    requires
        results@.len() <= u32::MAX,
    ensures
        score == layout_score(*layout, results@),
{
    let mut score: u32 = 0;
    let mut i: usize = 0;
    while i < results.len()
        invariant
            i <= results.len(),
            results@.len() <= u32::MAX,
            score == layout_score(*layout, results@.take(i as int)),
        decreases results.len() - i,
    {
        let result = &results[i];
        proof {
            assert(results@.take(i + 1).drop_last() =~= results@.take(i as int));
            score_at_most_one_per_result(*layout, results@.take(i as int));
        }
        let mut matched = false;
        let mut j: usize = 0;
        while j < layout.detection_keys.len()
            invariant
                i < results.len(),
                j <= layout.detection_keys.len(),
                *result == results@[i as int],
                matched == key_matches(layout.detection_keys@.take(j as int), *result),
            decreases layout.detection_keys.len() - j,
        {
            let dk = &layout.detection_keys[j];
            proof {
                assert(layout.detection_keys@.take(j + 1).drop_last() =~= layout.detection_keys@.take(
                    j as int,
                ));
            }
            if dk.event_code == result.event_code && dk.expected_base == result.received_char {
                matched = true;
            }
            j = j + 1;
        }
        assert(layout.detection_keys@.take(layout.detection_keys.len() as int)
            =~= layout.detection_keys@);
        if matched {
            score += 1;
        }
        i = i + 1;
    }
    assert(results@.take(results.len() as int) =~= results@);
    score
}

/// Return the layout ID with the highest score, or `None` when there is a tie
/// at the top (ambiguous) or no layouts match at all.
pub fn find_best_match(layouts: &[Layout], results: &[DetectionResult]) -> (r: Option<String>)
    requires
        results@.len() <= u32::MAX,
    ensures
        r matches Some(id) ==> exists|i: int|
            unique_best(layouts@, results@, i) && id@ == layouts@[i].id@,
        r is None ==> forall|i: int| !unique_best(layouts@, results@, i),
{
    if layouts.len() == 0 || results.len() == 0 {
        proof {
            if results.len() == 0 {
                assert forall|i: int| !unique_best(layouts@, results@, i) by {
                    if 0 <= i < layouts@.len() {
                        assert(layout_score(layouts@[i], results@) == 0);
                    }
                }
            }
        }
        return None;
    }
    let mut best_id: Option<String> = None;
    let mut best_score: u32 = 0;
    let mut is_ambiguous = false;
    let ghost mut first: int = -1;
    let mut k: usize = 0;
    while k < layouts.len()
        invariant
            k <= layouts.len(),
            results@.len() <= u32::MAX,
            forall|j: int| 0 <= j < k ==> layout_score(#[trigger] layouts@[j], results@) <= best_score,
            best_score == 0 ==> first == -1 && best_id is None && !is_ambiguous,
            best_score > 0 ==> {
                &&& 0 <= first < k
                &&& layout_score(layouts@[first], results@) == best_score
                &&& best_id matches Some(id) && id@ == layouts@[first].id@
                &&& (is_ambiguous <==> exists|j: int|
                    0 <= j < k && j != first && #[trigger] layout_score(layouts@[j], results@)
                        == best_score)
            },
        decreases layouts.len() - k,
    {
        let layout = &layouts[k];
        let s = score_layout(layout, results);
        if s > best_score {
            best_score = s;
            best_id = Some(layout.id.clone());
            is_ambiguous = false;
            proof {
                first = k as int;
            }
        } else if s == best_score && s > 0 {
            // Another layout ties with the current best -> ambiguous.
            is_ambiguous = true;
        }
        k = k + 1;
    }
    if is_ambiguous || best_score == 0 {
        proof {
            assert forall|i: int| !unique_best(layouts@, results@, i) by {
                if unique_best(layouts@, results@, i) {
                    if best_score == 0 {
                        assert(layout_score(layouts@[i], results@) <= 0);
                    } else {
                        let j = choose|j: int|
                            0 <= j < layouts@.len() && j != first && #[trigger] layout_score(
                                layouts@[j],
                                results@,
                            ) == best_score;
                        if i == first {
                            assert(layout_score(layouts@[j], results@) < layout_score(
                                layouts@[i],
                                results@,
                            ));
                        } else {
                            assert(layout_score(layouts@[first], results@) < layout_score(
                                layouts@[i],
                                results@,
                            ));
                        }
                    }
                }
            }
        }
        None
    } else {
        proof {
            assert(unique_best(layouts@, results@, first)) by {
                assert forall|j: int| 0 <= j < layouts@.len() && j != first implies #[trigger] layout_score(
                    layouts@[j],
                    results@,
                ) < layout_score(layouts@[first], results@) by {
                    assert(layout_score(layouts@[j], results@) <= best_score);
                    if layout_score(layouts@[j], results@) == best_score {
                        assert(is_ambiguous);
                    }
                }
            }
        }
        best_id
    }
}

/// There is at most one unique best layout.
pub proof fn unique_best_is_unique(ls: Seq<Layout>, rs: Seq<DetectionResult>, i: int, j: int)
    requires
        unique_best(ls, rs, i),
        unique_best(ls, rs, j),
    ensures
        i == j,
{
    if i != j {
        assert(layout_score(ls[j], rs) < layout_score(ls[i], rs));
        assert(layout_score(ls[i], rs) < layout_score(ls[j], rs));
    }
}

} // verus!
