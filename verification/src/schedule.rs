use vstd::prelude::*;

use vstd::arithmetic::div_mod::{lemma_fundamental_div_mod, lemma_mod_division_less_than_divisor};
use vstd::arithmetic::mul::{lemma_mul_inequality, lemma_mul_is_distributive_add_other_way};

use crate::job::{Image, JobResult};

verus! {

/// The size of every batch but the last: `floor(n / t)` for `n` jobs and `t`
/// workers.
pub open spec fn chunk_size(n: int, t: int) -> int
    recommends
        t >= 1,
{
    n / t
}

/// The cut points of the partition: batch `i` holds the jobs from `cut(i)` to
/// `cut(i + 1)`. The final cut is `n`, so the last batch absorbs the
/// remainder of the division.
pub open spec fn cut(n: int, t: int, k: int) -> int
    recommends
        t >= 1,
        0 <= k <= t,
{
    if k >= t {
        n
    } else {
        k * chunk_size(n, t)
    }
}

/// Consecutive cut points are ordered and stay within the job count, so the
/// batches are contiguous, non-overlapping and inside the original sequence.
pub proof fn lemma_cut_monotone(n: int, t: int, k: int)
    requires
        0 <= n,
        1 <= t,
        0 <= k < t,
    ensures
        0 <= cut(n, t, k) <= cut(n, t, k + 1) <= n,
        cut(n, t, 0) == 0,
        cut(n, t, t) == n,
{
    let c = chunk_size(n, t);
    lemma_fundamental_div_mod(n, t);
    lemma_mod_division_less_than_divisor(n, t);
    assert(t * c <= n);
    lemma_mul_inequality(0, k, c);
    lemma_mul_inequality(k, k + 1, c);
    lemma_mul_inequality(k + 1, t, c);
    assert(t * c == c * t) by {
        vstd::arithmetic::mul::lemma_mul_is_commutative(t, c);
    }
    assert(k * c >= 0) by {
        vstd::arithmetic::mul::lemma_mul_is_commutative(k, c);
        lemma_mul_inequality(0, k, c);
    }
}

/// Any two distinct batches cover disjoint index ranges: the earlier batch
/// ends no later than the later one starts.
pub proof fn lemma_batches_disjoint(n: int, t: int, i: int, j: int)
    requires
        0 <= n,
        1 <= t,
        0 <= i < j < t,
    ensures
        cut(n, t, i + 1) <= cut(n, t, j),
{
    let c = chunk_size(n, t);
    lemma_cut_monotone(n, t, i);
    lemma_cut_monotone(n, t, j);
    lemma_mul_inequality(i + 1, j, c);
    assert(c >= 0) by {
        vstd::arithmetic::div_mod::lemma_div_pos_is_pos(n, t);
    }
}

/// The views of a sequence of batches.
pub open spec fn batch_views(batches: Seq<Vec<Image>>) -> Seq<Seq<Image>> {
    batches.map_values(|b: Vec<Image>| b@)
}

/// Whether `views` is the partition of `whole` into `t` contiguous batches at
/// the canonical cut points.
pub open spec fn is_partition(views: Seq<Seq<Image>>, whole: Seq<Image>, t: int) -> bool {
    &&& views.len() == t
    &&& forall|i: int|
        0 <= i < t ==> #[trigger] views[i] == whole.subrange(
            cut(whole.len() as int, t, i),
            cut(whole.len() as int, t, i + 1),
        )
}

/// The first `k` batches of a partition, concatenated in order, are exactly
/// the jobs before the `k`-th cut point.
proof fn lemma_partition_prefix(views: Seq<Seq<Image>>, whole: Seq<Image>, t: int, k: int)
    requires
        1 <= t,
        0 <= k <= t,
        is_partition(views, whole, t),
    ensures
        views.take(k).flatten() == whole.subrange(0, cut(whole.len() as int, t, k)),
    decreases k,
{
    let n = whole.len() as int;
    if k == 0 {
        assert(views.take(0).flatten() =~= whole.subrange(0, 0));
        lemma_cut_monotone(n, t, 0);
    } else {
        lemma_partition_prefix(views, whole, t, k - 1);
        lemma_cut_monotone(n, t, k - 1);
        assert(views.take(k) =~= views.take(k - 1).push(views[k - 1]));
        views.take(k - 1).lemma_flatten_push(views[k - 1]);
        assert(whole.subrange(0, cut(n, t, k - 1)) + whole.subrange(
            cut(n, t, k - 1),
            cut(n, t, k),
        ) =~= whole.subrange(0, cut(n, t, k)));
    }
}

/// Partitioning is exact: the batches, concatenated in order, are the whole
/// job sequence, with no gaps, duplicates or reordering.
pub proof fn lemma_partition_covers(views: Seq<Seq<Image>>, whole: Seq<Image>, t: int)
    requires
        1 <= t,
        is_partition(views, whole, t),
    ensures
        views.flatten() == whole,
{
    let n = whole.len() as int;
    lemma_partition_prefix(views, whole, t, t);
    assert(views.take(t as int) =~= views);
    assert(whole.subrange(0, n) =~= whole);
}

/// The batch sizes follow the division formula: every batch holds
/// `floor(n / t)` jobs except the last, which holds the rest,
/// `n - (t - 1) * floor(n / t)`.
pub proof fn lemma_partition_sizes(views: Seq<Seq<Image>>, whole: Seq<Image>, t: int)
    requires
        1 <= t,
        is_partition(views, whole, t),
    ensures
        forall|i: int|
            0 <= i < t - 1 ==> #[trigger] views[i].len() == chunk_size(whole.len() as int, t),
        views[t - 1].len() == whole.len() - (t - 1) * chunk_size(whole.len() as int, t),
{
    let n = whole.len() as int;
    let c = chunk_size(n, t);
    assert forall|i: int| 0 <= i < t - 1 implies #[trigger] views[i].len() == c by {
        lemma_cut_monotone(n, t, i);
        lemma_mul_is_distributive_add_other_way(c, i, 1);
        assert(cut(n, t, i + 1) - cut(n, t, i) == c);
    }
    lemma_cut_monotone(n, t, t - 1);
}

/// Partitions the job sequence for `threads` workers: `threads` contiguous
/// batches at the canonical cut points, so every batch holds
/// `floor(n / threads)` jobs and the last also takes the remainder. Their
/// concatenation in order is the original sequence.
pub fn partition_jobs(jobs: Vec<Image>, threads: u8) -> (batches: Vec<Vec<Image>>)
    requires
        threads >= 1,
    ensures
        batches@.len() == threads as int,
        forall|i: int|
            0 <= i < threads as int ==> (#[trigger] batches@[i])@ == jobs@.subrange(
                cut(jobs@.len() as int, threads as int, i),
                cut(jobs@.len() as int, threads as int, i + 1),
            ),
        is_partition(batch_views(batches@), jobs@, threads as int),
        batch_views(batches@).flatten() == jobs@,
{
    let t: usize = threads as usize;
    let n: usize = jobs.len();
    let chunk: usize = n / t;
    let ghost whole = jobs@;
    let mut rest = jobs;
    let mut batches: Vec<Vec<Image>> = Vec::new();
    let mut i: usize = 0;
    proof {
        lemma_cut_monotone(n as int, t as int, 0);
    }
    while i < t - 1
        invariant
            1 <= t <= u8::MAX,
            n == whole.len(),
            chunk == chunk_size(n as int, t as int),
            0 <= i <= t - 1,
            batches@.len() == i,
            rest@ =~= whole.subrange(cut(n as int, t as int, i as int), n as int),
            forall|k: int|
                0 <= k < i ==> (#[trigger] batches@[k])@ == whole.subrange(
                    cut(n as int, t as int, k),
                    cut(n as int, t as int, k + 1),
                ),
        decreases t - 1 - i,
    {
        proof {
            lemma_cut_monotone(n as int, t as int, i as int);
            lemma_mul_is_distributive_add_other_way(chunk as int, i as int, 1);
            assert(cut(n as int, t as int, i as int + 1) - cut(n as int, t as int, i as int)
                == chunk);
        }
        let tail = rest.split_off(chunk);
        let batch = rest;
        rest = tail;
        let ghost prev = batches@;
        batches.push(batch);
        proof {
            let ni = n as int;
            let ti = t as int;
            let ii = i as int;
            assert(rest@ =~= whole.subrange(cut(ni, ti, ii + 1), ni));
            assert(batches@[ii]@ =~= whole.subrange(cut(ni, ti, ii), cut(ni, ti, ii + 1)));
            assert forall|k: int| 0 <= k < ii implies (#[trigger] batches@[k])@ == whole.subrange(
                cut(ni, ti, k),
                cut(ni, ti, k + 1),
            ) by {
                assert(batches@[k] == prev[k]);
            }
        }
        i += 1;
    }
    proof {
        lemma_cut_monotone(n as int, t as int, t as int - 1);
    }
    let ghost prev = batches@;
    batches.push(rest);
    proof {
        let ni = n as int;
        let ti = t as int;
        assert(batches@[ti - 1]@ =~= whole.subrange(cut(ni, ti, ti - 1), cut(ni, ti, ti)));
        assert forall|k: int| 0 <= k < ti implies #[trigger] batch_views(batches@)[k]
            == whole.subrange(cut(ni, ti, k), cut(ni, ti, k + 1)) by {
            if k < ti - 1 {
                assert(batches@[k] == prev[k]);
            }
            assert(batch_views(batches@)[k] == batches@[k]@);
        }
        lemma_partition_covers(batch_views(batches@), whole, ti);
    }
    batches
}

/// The views of a sequence of per-batch result lists.
pub open spec fn result_views(per_batch: Seq<Vec<JobResult>>) -> Seq<Seq<JobResult>> {
    per_batch.map_values(|b: Vec<JobResult>| b@)
}

/// Aggregates the per-batch result lists into the run's single report list:
/// their concatenation, in batch order.
pub fn collect_results(per_batch: Vec<Vec<JobResult>>) -> (all: Vec<JobResult>)
    ensures
        all@ == result_views(per_batch@).flatten(),
{
    let ghost whole = per_batch@;
    let mut per_batch = per_batch;
    let mut all: Vec<JobResult> = Vec::new();
    let t = per_batch.len();
    let mut i: usize = 0;
    proof {
        assert(result_views(whole.take(0)).flatten() =~= Seq::<JobResult>::empty());
    }
    while i < t
        invariant
            0 <= i <= t,
            t == whole.len(),
            per_batch@ =~= whole.skip(i as int),
            all@ == result_views(whole.take(i as int)).flatten(),
        decreases t - i,
    {
        let mut batch = per_batch.remove(0);
        proof {
            assert(batch == whole[i as int]);
            assert(per_batch@ =~= whole.skip(i as int + 1));
            assert(result_views(whole.take(i as int + 1)) =~= result_views(
                whole.take(i as int),
            ).push(batch@));
            result_views(whole.take(i as int)).lemma_flatten_push(batch@);
        }
        all.append(&mut batch);
        i += 1;
    }
    proof {
        assert(whole.take(t as int) =~= whole);
    }
    all
}

/// The number of results whose job succeeded.
pub open spec fn count_succeeded(rs: Seq<JobResult>) -> nat
    decreases rs.len(),
{
    if rs.len() == 0 {
        0
    } else {
        count_succeeded(rs.drop_last()) + if rs.last().error is None {
            1nat
        } else {
            0nat
        }
    }
}

/// No more results succeed than there are results.
pub proof fn lemma_count_succeeded_bound(rs: Seq<JobResult>)
    ensures
        count_succeeded(rs) <= rs.len(),
    decreases rs.len(),
{
    if rs.len() > 0 {
        lemma_count_succeeded_bound(rs.drop_last());
    }
}

/// A report over results that all carry no failure counts every one of them
/// as succeeded.
pub proof fn lemma_count_all_succeeded(rs: Seq<JobResult>)
    requires
        forall|i: int| 0 <= i < rs.len() ==> (#[trigger] rs[i]).error is None,
    ensures
        count_succeeded(rs) == rs.len(),
    decreases rs.len(),
{
    if rs.len() > 0 {
        lemma_count_all_succeeded(rs.drop_last());
    }
}

/// Counts the run's terminal report: how many jobs succeeded and how many
/// failed. Every result is counted exactly once, on one side or the other.
pub fn summarize(rs: &Vec<JobResult>) -> (counts: (usize, usize))
    ensures
        counts.0 == count_succeeded(rs@),
        counts.1 == rs@.len() - count_succeeded(rs@),
{
    let n = rs.len();
    let mut succeeded: usize = 0;
    let mut i: usize = 0;
    while i < n
        invariant
            0 <= i <= n,
            n == rs@.len(),
            succeeded == count_succeeded(rs@.take(i as int)),
            succeeded <= i,
        decreases n - i,
    {
        proof {
            assert(rs@.take(i as int + 1).drop_last() =~= rs@.take(i as int));
            assert(rs@.take(i as int + 1).last() == rs@[i as int]);
        }
        if rs[i].error.is_none() {
            succeeded += 1;
        }
        proof {
            lemma_count_succeeded_bound(rs@.take(i as int + 1));
        }
        i += 1;
    }
    proof {
        assert(rs@.take(n as int) =~= rs@);
    }
    (succeeded, n - succeeded)
}

} // verus!
