use vstd::prelude::*;

use crate::entry::{ScheduledJob, next_le};
use crate::error::CronError;

verus! {

/// Every job identifier lies below `next_id`, and no two jobs share one.
pub open spec fn ids_fresh<E: ScheduledJob>(jobs: Seq<E>, next_id: usize) -> bool {
    &&& forall|i: int| 0 <= i < jobs.len() ==> #[trigger] jobs[i].job_id() < next_id
    &&& forall|i: int, j: int|
        0 <= i < jobs.len() && 0 <= j < jobs.len() && i != j ==> #[trigger] jobs[i].job_id()
            != #[trigger] jobs[j].job_id()
}

/// The identifier that an add operation handed out, if it succeeded.
pub open spec fn issued_id(res: std::result::Result<usize, CronError>) -> Option<usize> {
    match res {
        Ok(id) => Some(id),
        Err(_) => None,
    }
}

/// How one operation moves a scheduler's identifier counter from `before`
/// to `after`: an operation that hands out an identifier hands out the
/// counter's value and raises the counter by one; any other operation (a
/// refused add, a removal, handling due jobs, a change of zone) leaves it.
pub open spec fn id_step(before: usize, after: usize, issued: Option<usize>) -> bool {
    match issued {
        Some(id) => id == before && after == before + 1,
        None => after == before,
    }
}

/// Whether some job has the identifier `id`.
pub open spec fn has_id<E: ScheduledJob>(jobs: Seq<E>, id: usize) -> bool {
    exists|i: int| 0 <= i < jobs.len() && #[trigger] jobs[i].job_id() == id
}

/// Removes the job with identifier `id` from `jobs`, keeping the others in
/// order; changes nothing when no job has it.
pub fn remove_job<E: ScheduledJob>(jobs: &mut Vec<E>, id: usize, next_id: Ghost<usize>)
    requires
        ids_fresh(old(jobs)@, next_id@),
    ensures
        ids_fresh(final(jobs)@, next_id@),
        !has_id(final(jobs)@, id),
        has_id(old(jobs)@, id) ==> exists|i: int|
            0 <= i < old(jobs)@.len() && #[trigger] old(jobs)@[i].job_id() == id && final(jobs)@
                == old(jobs)@.remove(i),
        !has_id(old(jobs)@, id) ==> final(jobs)@ == old(jobs)@,
{
    let n = jobs.len();
    let mut i: usize = 0;
    while i < n
        invariant
            n == jobs@.len(),
            jobs@ == old(jobs)@,
            ids_fresh(old(jobs)@, next_id@),
            i <= n,
            forall|k: int| 0 <= k < i ==> #[trigger] jobs@[k].job_id() != id,
        decreases n - i,
    {
        if jobs[i].identifier() == id {
            jobs.remove(i);
            proof {
                let olde = old(jobs)@;
                let newe = jobs@;
                assert forall|a: int, b: int|
                    0 <= a < newe.len() && 0 <= b < newe.len() && a != b implies #[trigger] newe[a].job_id()
                    != #[trigger] newe[b].job_id() by {
                    let oa = if a < i { a } else { a + 1 };
                    let ob = if b < i { b } else { b + 1 };
                    assert(newe[a] == olde[oa]);
                    assert(newe[b] == olde[ob]);
                }
                assert forall|a: int| 0 <= a < newe.len() implies #[trigger] newe[a].job_id() != id by {
                    let oa = if a < i { a } else { a + 1 };
                    assert(newe[a] == olde[oa]);
                    assert(olde[oa].job_id() != olde[i as int].job_id());
                }
                assert forall|a: int| 0 <= a < newe.len() implies #[trigger] newe[a].job_id()
                    < next_id@ by {
                    let oa = if a < i { a } else { a + 1 };
                    assert(newe[a] == olde[oa]);
                }
            }
            return;
        }
        i = i + 1;
    }
}

/// The earliest next run time among `jobs`, if any job has one.
pub open spec fn earliest_next<E: ScheduledJob>(jobs: Seq<E>) -> Option<i64>
    decreases jobs.len(),
{
    if jobs.len() == 0 {
        None
    } else {
        let rest = earliest_next(jobs.drop_last());
        match jobs.last().next_run() {
            None => rest,
            Some(t) => match rest {
                None => Some(t),
                Some(u) => if t < u { Some(t) } else { Some(u) },
            },
        }
    }
}

/// `earliest_next` is a run time of some job and no job runs earlier; it is
/// `None` exactly when no job has a run time.
pub proof fn lemma_earliest_next<E: ScheduledJob>(jobs: Seq<E>)
    ensures
        earliest_next(jobs) is None <==> forall|i: int| 0 <= i < jobs.len() ==> #[trigger] jobs[i].next_run() is None,
        earliest_next(jobs) matches Some(t) ==> (exists|i: int| 0 <= i < jobs.len() && #[trigger] jobs[i].next_run() == Some(t)),
        earliest_next(jobs) matches Some(t) ==> (forall|i: int| 0 <= i < jobs.len() ==> (#[trigger] jobs[i].next_run() matches Some(u) ==> t <= u)),
    decreases jobs.len(),
{
    if jobs.len() > 0 {
        let n = jobs.len() as int;
        let rest = jobs.drop_last();
        lemma_earliest_next(rest);
        assert forall|i: int| 0 <= i < n - 1 implies #[trigger] jobs[i] == rest[i] by {}
        assert(jobs[n - 1] == jobs.last());
        if earliest_next(jobs) is None {
            assert forall|i: int| 0 <= i < n implies #[trigger] jobs[i].next_run() is None by {
                if i < n - 1 {
                    assert(rest[i].next_run() is None);
                }
            }
        } else {
            let t = earliest_next(jobs)->0;
            if earliest_next(rest) == Some(t) && jobs.last().next_run() != Some(t) {
                let i = choose|i: int| 0 <= i < rest.len() && #[trigger] rest[i].next_run() == Some(t);
                assert(jobs[i].next_run() == Some(t));
            } else {
                assert(jobs[n - 1].next_run() == Some(t));
            }
            assert forall|i: int| 0 <= i < n implies (#[trigger] jobs[i].next_run() matches Some(u) ==> t <= u) by {
                if i < n - 1 {
                    assert(jobs[i] == rest[i]);
                }
            }
        }
    }
}

/// Computes `earliest_next(jobs)`.
pub fn find_earliest_next<E: ScheduledJob>(jobs: &Vec<E>) -> (earliest: Option<i64>)
    ensures
        earliest == earliest_next(jobs@),
{
    let n = jobs.len();
    let mut best: Option<i64> = None;
    let mut i: usize = 0;
    while i < n
        invariant
            n == jobs@.len(),
            i <= n,
            best == earliest_next(jobs@.take(i as int)),
        decreases n - i,
    {
        proof {
            assert(jobs@.take(i + 1).drop_last() =~= jobs@.take(i as int));
        }
        match jobs[i].next_run_time() {
            None => {},
            Some(t) => {
                match best {
                    None => { best = Some(t); },
                    Some(u) => {
                        if t < u {
                            best = Some(t);
                        }
                    },
                }
            },
        }
        i = i + 1;
    }
    proof {
        assert(jobs@.take(n as int) =~= jobs@);
    }
    best
}

/// `jobs` is ordered by next run time, a missing run time first.
pub open spec fn sorted_by_next<E: ScheduledJob>(jobs: Seq<E>) -> bool {
    forall|i: int, j: int| 0 <= i < j < jobs.len() ==> next_le(#[trigger] jobs[i].next_run(), #[trigger] jobs[j].next_run())
}

/// `sorted` holds the jobs of `given` reordered by `order`: position `k`
/// of `sorted` holds job `order[k]` of `given`, and `order` names each
/// position of `given` once.
pub open spec fn reorders<E>(sorted: Seq<E>, given: Seq<E>, order: Seq<int>) -> bool {
    &&& sorted.len() == given.len()
    &&& order.len() == given.len()
    &&& forall|k: int| 0 <= k < order.len() ==> 0 <= #[trigger] order[k] < given.len()
    &&& forall|k: int| 0 <= k < order.len() ==> sorted[k] == given[#[trigger] order[k]]
    &&& forall|a: int, b: int| 0 <= a < order.len() && 0 <= b < order.len() && a != b ==> #[trigger] order[a] != #[trigger] order[b]
}

/// `sorted` is `given` ordered by next run time, jobs with equal run
/// times keeping their relative order (a stable sort).
pub open spec fn stable_sort_of<E: ScheduledJob>(sorted: Seq<E>, given: Seq<E>) -> bool {
    &&& sorted_by_next(sorted)
    &&& exists|order: Seq<int>| reorders(sorted, given, order) && forall|a: int, b: int|
        0 <= a < b < order.len() && sorted[a].next_run() == sorted[b].next_run() ==> #[trigger] order[a] < #[trigger] order[b]
}

/// Reordering keeps identifiers distinct and below `next_id`.
pub proof fn lemma_reorder_keeps_ids_fresh<E: ScheduledJob>(sorted: Seq<E>, given: Seq<E>, order: Seq<int>, next_id: usize)
    requires
        reorders(sorted, given, order),
        ids_fresh(given, next_id),
    ensures
        ids_fresh(sorted, next_id),
{
    assert forall|i: int| 0 <= i < sorted.len() implies #[trigger] sorted[i].job_id() < next_id by {
        assert(sorted[i] == given[order[i]]);
    }
    assert forall|i: int, j: int|
        0 <= i < sorted.len() && 0 <= j < sorted.len() && i != j implies #[trigger] sorted[i].job_id()
        != #[trigger] sorted[j].job_id() by {
        assert(sorted[i] == given[order[i]]);
        assert(sorted[j] == given[order[j]]);
        assert(order[i] != order[j]);
    }
}

/// Whether the run time `a` sorts strictly before `b`.
fn sorts_before(a: Option<i64>, b: Option<i64>) -> (before: bool)
    ensures
        before == !next_le(b, a),
{
    match a {
        None => b.is_some(),
        Some(x) => match b {
            None => false,
            Some(y) => x < y,
        },
    }
}

/// Index of the first job with the smallest run time in `jobs`.
fn first_minimal<E: ScheduledJob>(jobs: &Vec<E>) -> (m: usize)
    requires
        jobs@.len() > 0,
    ensures
        m < jobs@.len(),
        forall|k: int| 0 <= k < jobs@.len() ==> next_le(jobs@[m as int].next_run(), #[trigger] jobs@[k].next_run()),
        forall|k: int| 0 <= k < m ==> !next_le(#[trigger] jobs@[k].next_run(), jobs@[m as int].next_run()),
{
    let n = jobs.len();
    let mut m: usize = 0;
    let mut i: usize = 1;
    while i < n
        invariant
            n == jobs@.len(),
            m < i <= n,
            forall|k: int| 0 <= k < i ==> next_le(jobs@[m as int].next_run(), #[trigger] jobs@[k].next_run()),
            forall|k: int| 0 <= k < m ==> !next_le(#[trigger] jobs@[k].next_run(), jobs@[m as int].next_run()),
        decreases n - i,
    {
        if sorts_before(jobs[i].next_run_time(), jobs[m].next_run_time()) {
            m = i;
        }
        i = i + 1;
    }
    m
}

/// Sorts `jobs` by next run time, a missing run time first; jobs with equal
/// run times keep their relative order.
pub fn sort_jobs_by_next<E: ScheduledJob>(jobs: &mut Vec<E>)
    ensures
        stable_sort_of(final(jobs)@, old(jobs)@),
{
    let mut rest: Vec<E> = Vec::new();
    std::mem::swap(&mut rest, jobs);
    let ghost given = rest@;
    let ghost n = given.len();
    let ghost mut rest_src: Seq<int> = Seq::new(n, |k: int| k);
    let ghost mut out_src: Seq<int> = Seq::empty();
    while rest.len() > 0
        invariant
            given.len() == n,
            rest@.len() + jobs@.len() == n,
            rest_src.len() == rest@.len(),
            out_src.len() == jobs@.len(),
            forall|k: int| 0 <= k < rest_src.len() ==> 0 <= #[trigger] rest_src[k] < n,
            forall|k: int| 0 <= k < out_src.len() ==> 0 <= #[trigger] out_src[k] < n,
            forall|k: int| 0 <= k < rest_src.len() ==> rest@[k] == given[#[trigger] rest_src[k]],
            forall|k: int| 0 <= k < out_src.len() ==> jobs@[k] == given[#[trigger] out_src[k]],
            forall|a: int, b: int| 0 <= a < b < rest_src.len() ==> #[trigger] rest_src[a] < #[trigger] rest_src[b],
            forall|a: int, b: int|
                0 <= a < out_src.len() && 0 <= b < out_src.len() && a != b ==> #[trigger] out_src[a] != #[trigger] out_src[b],
            forall|a: int, b: int|
                0 <= a < out_src.len() && 0 <= b < rest_src.len() ==> #[trigger] out_src[a] != #[trigger] rest_src[b],
            sorted_by_next(jobs@),
            forall|a: int, b: int|
                0 <= a < jobs@.len() && 0 <= b < rest@.len() ==> next_le(#[trigger] jobs@[a].next_run(), #[trigger] rest@[b].next_run()),
            forall|a: int, b: int|
                0 <= a < b < jobs@.len() && jobs@[a].next_run() == jobs@[b].next_run() ==> #[trigger] out_src[a] < #[trigger] out_src[b],
            forall|a: int, b: int|
                0 <= a < jobs@.len() && 0 <= b < rest@.len() && jobs@[a].next_run() == rest@[b].next_run() ==> #[trigger] out_src[a] < #[trigger] rest_src[b],
        decreases rest@.len(),
    {
        let m = first_minimal(&rest);
        let ghost old_rest = rest@;
        let ghost old_jobs = jobs@;
        let ghost old_rest_src = rest_src;
        let ghost old_out_src = out_src;
        let x = rest.remove(m);
        jobs.push(x);
        proof {
            rest_src = old_rest_src.remove(m as int);
            out_src = old_out_src.push(old_rest_src[m as int]);
            assert forall|k: int| 0 <= k < rest@.len() implies #[trigger] rest@[k] == old_rest[if k < m { k } else { k + 1 }] by {}
            assert forall|k: int| 0 <= k < rest_src.len() implies #[trigger] rest_src[k] == old_rest_src[if k < m { k } else { k + 1 }] by {}
            assert forall|k: int| 0 <= k < old_jobs.len() implies #[trigger] jobs@[k] == old_jobs[k] && out_src[k] == old_out_src[k] by {}
            let last = old_jobs.len() as int;
            assert(jobs@[last] == old_rest[m as int]);
            assert(out_src[last] == old_rest_src[m as int]);
            assert forall|a: int, b: int| 0 <= a < b < jobs@.len() implies next_le(#[trigger] jobs@[a].next_run(), #[trigger] jobs@[b].next_run()) by {
                if b == last {
                    assert(next_le(old_jobs[a].next_run(), old_rest[m as int].next_run()));
                }
            }
            assert forall|a: int, b: int|
                0 <= a < jobs@.len() && 0 <= b < rest@.len() implies next_le(#[trigger] jobs@[a].next_run(), #[trigger] rest@[b].next_run()) by {
                let ob = if b < m { b } else { b + 1 };
                assert(rest@[b] == old_rest[ob]);
                if a == last {
                    assert(next_le(old_rest[m as int].next_run(), old_rest[ob].next_run()));
                } else {
                    assert(next_le(old_jobs[a].next_run(), old_rest[ob].next_run()));
                }
            }
            assert forall|a: int, b: int|
                0 <= a < b < jobs@.len() && jobs@[a].next_run() == jobs@[b].next_run() implies #[trigger] out_src[a] < #[trigger] out_src[b] by {
                if b == last {
                    assert(old_jobs[a].next_run() == old_rest[m as int].next_run());
                }
            }
            assert forall|a: int, b: int|
                0 <= a < jobs@.len() && 0 <= b < rest@.len() && jobs@[a].next_run() == rest@[b].next_run() implies #[trigger] out_src[a] < #[trigger] rest_src[b] by {
                let ob = if b < m { b } else { b + 1 };
                assert(rest@[b] == old_rest[ob]);
                assert(rest_src[b] == old_rest_src[ob]);
                if a == last {
                    if ob < m {
                        assert(!next_le(old_rest[ob].next_run(), old_rest[m as int].next_run()));
                    }
                }
            }
            assert forall|a: int, b: int|
                0 <= a < out_src.len() && 0 <= b < out_src.len() && a != b implies #[trigger] out_src[a] != #[trigger] out_src[b] by {
                if a == last && b != last {
                    assert(old_out_src[b] != old_rest_src[m as int]);
                } else if b == last && a != last {
                    assert(old_out_src[a] != old_rest_src[m as int]);
                }
            }
            assert forall|a: int, b: int|
                0 <= a < out_src.len() && 0 <= b < rest_src.len() implies #[trigger] out_src[a] != #[trigger] rest_src[b] by {
                let ob = if b < m { b } else { b + 1 };
                assert(rest_src[b] == old_rest_src[ob]);
                if a == last {
                    assert(old_rest_src[m as int] != old_rest_src[ob]);
                }
            }
        }
    }
    proof {
        assert(reorders(jobs@, given, out_src));
    }
}

} // verus!
