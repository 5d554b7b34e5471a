//! Concurrent multi-entry submission support. The batch is planned by
//! deduplicating the requested ids; each unique id then runs the
//! submission workflow independently on the caller's transport; and the
//! per-id outcomes are aggregated into one result that never loses an
//! individual failure or success.

use vstd::prelude::*;
use crate::error::SessionError;

verus! {

/// The unique ids of `ids`: first occurrences, in their original order.
pub open spec fn dedup_ids_spec(ids: Seq<Seq<char>>) -> Seq<Seq<char>>
    decreases ids.len(),
{
    if ids.len() == 0 {
        Seq::empty()
    } else {
        let rest = dedup_ids_spec(ids.drop_last());
        if rest.contains(ids.last()) {
            rest
        } else {
            rest.push(ids.last())
        }
    }
}

/// Deduplication: the planned batch holds each id at most once, holds
/// exactly the ids that were asked for, and never grows.
pub proof fn lemma_dedup_ids(ids: Seq<Seq<char>>)
    ensures
        forall|i: int, j: int|
            0 <= i < j < dedup_ids_spec(ids).len() ==> dedup_ids_spec(ids)[i] != dedup_ids_spec(
                ids,
            )[j],
        forall|x: Seq<char>| dedup_ids_spec(ids).contains(x) <==> ids.contains(x),
        dedup_ids_spec(ids).len() <= ids.len(),
    decreases ids.len(),
{
    if ids.len() > 0 {
        lemma_dedup_ids(ids.drop_last());
        let rest = dedup_ids_spec(ids.drop_last());
        let out = dedup_ids_spec(ids);
        assert forall|x: Seq<char>| ids.contains(x) implies out.contains(x) by {
            let w = choose|w: int| 0 <= w < ids.len() && ids[w] == x;
            if w < ids.len() - 1 {
                assert(ids.drop_last()[w] == x);
                assert(ids.drop_last().contains(x));
                let u = choose|u: int| 0 <= u < rest.len() && rest[u] == x;
                if !rest.contains(ids.last()) {
                    assert(rest.push(ids.last())[u] == x);
                }
            } else {
                if rest.contains(ids.last()) {
                    let u = choose|u: int| 0 <= u < rest.len() && rest[u] == ids.last();
                    assert(out[u] == x);
                } else {
                    assert(rest.push(ids.last()).last() == x);
                }
            }
        }
        assert forall|x: Seq<char>| out.contains(x) implies ids.contains(x) by {
            let w = choose|w: int| 0 <= w < out.len() && out[w] == x;
            if w < rest.len() {
                assert(rest[w] == x);
                assert(ids.drop_last().contains(x));
                let u = choose|u: int| 0 <= u < ids.drop_last().len() && ids.drop_last()[u] == x;
                assert(ids[u] == x);
            } else {
                assert(x == ids.last());
                assert(ids[ids.len() - 1] == x);
            }
        }
        assert forall|i: int, j: int| 0 <= i < j < out.len() implies out[i] != out[j] by {
            if j < rest.len() {
            } else if !rest.contains(ids.last()) && j == rest.len() {
                if out[i] == out[j] {
                    assert(rest[i] == ids.last());
                    assert(rest.contains(ids.last()));
                }
            }
        }
    }
}

fn vec_contains_string(v: &Vec<String>, s: &String) -> (r: bool)
    ensures
        r == v.deep_view().contains(s@),
{
    let n: usize = v.len();
    let mut i: usize = 0;
    while i < n
        invariant
            n == v@.len(),
            i <= n,
            forall|k: int| 0 <= k < i ==> v.deep_view()[k] != s@,
        decreases n - i,
    {
        if v[i].eq(s) {
            proof {
                assert(v.deep_view()[i as int] == v@[i as int]@);
                assert(v.deep_view().contains(s@));
            }
            return true;
        }
        proof {
            assert(v.deep_view()[i as int] == v@[i as int]@);
        }
        i = i + 1;
    }
    proof {
        if v.deep_view().contains(s@) {
            let w = choose|w: int| 0 <= w < v.deep_view().len() && v.deep_view()[w] == s@;
            assert(false);
        }
    }
    false
}

/// Deduplicates the submission ids, keeping first occurrences in their
/// original order: submitting the same id twice has wasteful, undefined
/// effect on the remote server and must be avoided.
pub fn dedup_ids(ids: &Vec<String>) -> (r: Vec<String>)
    ensures
        r.deep_view() == dedup_ids_spec(ids.deep_view()),
{
    let mut out: Vec<String> = Vec::new();
    let mut i: usize = 0;
    proof {
        assert(ids.deep_view().subrange(0, 0) =~= Seq::<Seq<char>>::empty());
        assert(out.deep_view() =~= Seq::<Seq<char>>::empty());
    }
    while i < ids.len()
        invariant
            i <= ids@.len(),
            ids.deep_view().len() == ids@.len(),
            out.deep_view() == dedup_ids_spec(ids.deep_view().subrange(0, i as int)),
        decreases ids@.len() - i,
    {
        let id = ids[i].clone();
        proof {
            assert(ids.deep_view()[i as int] == ids@[i as int]@);
        }
        let ghost before = out.deep_view();
        let present = vec_contains_string(&out, &id);
        if !present {
            out.push(id);
            proof {
                assert(out.deep_view() =~= before.push(ids.deep_view()[i as int]));
            }
        }
        proof {
            let prefix1 = ids.deep_view().subrange(0, i as int + 1);
            assert(prefix1.drop_last() =~= ids.deep_view().subrange(0, i as int));
            assert(prefix1.last() == ids.deep_view()[i as int]);
        }
        i = i + 1;
    }
    proof {
        assert(ids.deep_view().subrange(0, ids.deep_view().len() as int) =~= ids.deep_view());
    }
    out
}

/// One per-id outcome of a submission batch.
#[derive(Debug, PartialEq)]
pub struct SubmissionOutcome {
    pub id: String,
    pub outcome: Result<(), SessionError>,
}

/// Every outcome in the batch reports success.
pub open spec fn all_succeeded(s: Seq<SubmissionOutcome>) -> bool {
    forall|i: int| 0 <= i < s.len() ==> (#[trigger] s[i].outcome) is Ok
}

/// Decides the aggregate result of a batch from its per-id outcomes:
/// success only when every id succeeded. Either way the complete outcome
/// set is handed back unchanged, one outcome per id, successes included,
/// so a caller can tell which ids failed and which did not.
pub fn aggregate_outcomes(outcomes: Vec<SubmissionOutcome>) -> (r: Result<
    Vec<SubmissionOutcome>,
    Vec<SubmissionOutcome>,
>)
    ensures
        match r {
            Ok(v) => v == outcomes && all_succeeded(outcomes@),
            Err(v) => v == outcomes && !all_succeeded(outcomes@),
        },
{
    let mut ok = true;
    let mut i: usize = 0;
    proof {
        assert(all_succeeded(outcomes@.subrange(0, 0)));
    }
    while i < outcomes.len()
        invariant
            i <= outcomes@.len(),
            ok == all_succeeded(outcomes@.subrange(0, i as int)),
        decreases outcomes@.len() - i,
    {
        let step_ok = match &outcomes[i].outcome {
            Ok(_) => true,
            Err(_) => false,
        };
        proof {
            let p1 = outcomes@.subrange(0, i as int + 1);
            let p0 = outcomes@.subrange(0, i as int);
            assert(p1.drop_last() =~= p0);
            assert(p1.last() == outcomes@[i as int]);
            if all_succeeded(p0) && step_ok {
                assert forall|k: int| 0 <= k < p1.len() implies (#[trigger] p1[k].outcome)
                    is Ok by {
                    if k < p0.len() {
                        assert(p1[k] == p0[k]);
                    }
                }
            }
            if all_succeeded(p1) {
                assert forall|k: int| 0 <= k < p0.len() implies (#[trigger] p0[k].outcome)
                    is Ok by {
                    assert(p0[k] == p1[k]);
                }
                assert(p1[i as int].outcome is Ok);
            }
        }
        ok = ok && step_ok;
        i = i + 1;
    }
    proof {
        assert(outcomes@.subrange(0, outcomes@.len() as int) =~= outcomes@);
    }
    if ok {
        Ok(outcomes)
    } else {
        Err(outcomes)
    }
}

} // verus!
