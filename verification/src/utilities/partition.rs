//! The work partitioner: a list of paths cut into consecutive slices, one
//! for each worker at most.

use vstd::prelude::*;

verus! {

/// How many paths one worker gets: one where there are no more paths than
/// workers, else the paths divided by the workers, rounded up.
pub open spec fn items_per_worker(len: nat, workers: nat) -> nat
    recommends
        workers >= 1,
{
    if len <= workers {
        1
    } else {
        ((len + workers - 1) / workers as int) as nat
    }
}

/// How many slices a list of `len` paths is cut into.
pub open spec fn slice_count(len: nat, workers: nat) -> nat
    recommends
        workers >= 1,
{
    let per = items_per_worker(len, workers);
    ((len + per - 1) / per as int) as nat
}

/// Slice `index` of the list: `items_per_worker` consecutive paths, fewer
/// for the last slice where the list does not divide evenly.
pub open spec fn slice_of(paths: Seq<String>, workers: nat, index: int) -> Seq<String> {
    let per = items_per_worker(paths.len(), workers) as int;
    let end = if (index + 1) * per < paths.len() {
        (index + 1) * per
    } else {
        paths.len() as int
    };
    paths.subrange(index * per, end)
}

/// The list cut into consecutive slices for the workers.
pub open spec fn partition_of(paths: Seq<String>, workers: nat) -> Seq<Seq<String>> {
    Seq::new(slice_count(paths.len(), workers), |index: int| slice_of(paths, workers, index))
}

/// The slices of a partition as sequences.
pub open spec fn slices_view(slices: Seq<Vec<String>>) -> Seq<Seq<String>> {
    Seq::new(slices.len(), |index: int| slices[index]@)
}

/// The slices laid end to end, in order.
pub open spec fn concat(slices: Seq<Seq<String>>) -> Seq<String>
    decreases slices.len(),
{
    if slices.len() == 0 {
        Seq::empty()
    } else {
        concat(slices.drop_last()) + slices.last()
    }
}

/// The arithmetic of the cut: a slice holds at least one path, slice
/// `index` starts inside the list, and there are no more slices than workers.
pub proof fn lemma_slice_bounds(len: nat, workers: nat)
    requires
        workers >= 1,
    ensures
        items_per_worker(len, workers) >= 1,
        slice_count(len, workers) <= workers,
        len > 0 ==> slice_count(len, workers) >= 1,
        len == 0 ==> slice_count(len, workers) == 0,
        (slice_count(len, workers) - 1) * items_per_worker(len, workers) < len || len == 0,
        slice_count(len, workers) * items_per_worker(len, workers) >= len,
{
    let per = items_per_worker(len, workers) as int;
    let w = workers as int;
    let n = len as int;
    if n > w {
        assert(per * w >= n && per >= 1) by (nonlinear_arith)
            requires
                per == (n + w - 1) / w,
                w >= 1,
                n > w,
        ;
    }
    let count = (n + per - 1) / per;
    assert(count * per >= n && (count - 1) * per < n || n == 0) by (nonlinear_arith)
        requires
            count == (n + per - 1) / per,
            per >= 1,
            n >= 0,
    ;
    assert(count >= 0 && (n == 0 ==> count == 0) && (n > 0 ==> count >= 1)) by (nonlinear_arith)
        requires
            count == (n + per - 1) / per,
            per >= 1,
            n >= 0,
    ;
    assert(count <= w) by (nonlinear_arith)
        requires
            (count - 1) * per < n || n == 0,
            n == 0 ==> count == 0,
            n <= w ==> per == 1,
            n > w ==> per * w >= n,
            per >= 1,
            w >= 1,
            count >= 0,
    ;
}

/// Laying the first `count` slices of a partition end to end gives the
/// list up to where slice `count` starts.
proof fn lemma_concat_prefix(paths: Seq<String>, workers: nat, count: nat)
    requires
        workers >= 1,
        count <= slice_count(paths.len(), workers),
    ensures
        concat(partition_of(paths, workers).take(count as int)) == paths.take(
            if count * items_per_worker(paths.len(), workers) < paths.len() {
                (count * items_per_worker(paths.len(), workers)) as int
            } else {
                paths.len() as int
            },
        ),
    decreases count,
{
    let per = items_per_worker(paths.len(), workers) as int;
    let len = paths.len() as int;
    let all = partition_of(paths, workers);
    let head = all.take(count as int);
    lemma_slice_bounds(paths.len(), workers);
    if count == 0 {
        assert(0 * per == 0);
        assert(concat(head) =~= paths.take(0));
    } else {
        let before = (count - 1) as nat;
        lemma_concat_prefix(paths, workers, before);
        let start = before * per;
        let stop = count * per;
        assert(start < len && start + per == stop) by (nonlinear_arith)
            requires
                (slice_count(paths.len(), workers) - 1) * per < len,
                1 <= count <= slice_count(paths.len(), workers),
                before == count - 1,
                start == before * per,
                stop == count * per,
                per >= 1,
        ;
        let end = if stop < len {
            stop
        } else {
            len
        };
        assert(head.drop_last() =~= all.take(before as int));
        assert(concat(head.drop_last()) == paths.take(start));
        assert(head.last() == slice_of(paths, workers, before as int));
        assert(head.last() == paths.subrange(start, end));
        assert(concat(head) == concat(head.drop_last()) + head.last());
        assert(paths.take(start) + paths.subrange(start, end) =~= paths.take(end));
    }
}

/// Cutting a list loses, repeats and reorders nothing; it makes no more
/// slices than there are workers; and it makes no empty slice.
pub proof fn lemma_partition(paths: Seq<String>, workers: nat)
    requires
        workers >= 1,
    ensures
        concat(partition_of(paths, workers)) == paths,
        partition_of(paths, workers).len() <= workers,
        forall|index: int|
            0 <= index < partition_of(paths, workers).len() ==> 1 <= (#[trigger] partition_of(
                paths,
                workers,
            )[index]).len() <= items_per_worker(paths.len(), workers),
        paths.len() == 0 ==> partition_of(paths, workers).len() == 0,
{
    let per = items_per_worker(paths.len(), workers) as int;
    let count = slice_count(paths.len(), workers);
    let all = partition_of(paths, workers);
    lemma_slice_bounds(paths.len(), workers);
    lemma_concat_prefix(paths, workers, count);
    assert(all.take(count as int) =~= all);
    assert(paths.take(paths.len() as int) =~= paths);
    assert forall|index: int| 0 <= index < all.len() implies 1 <= (#[trigger] all[index]).len()
        <= per by {
        assert(index * per < paths.len() && (index + 1) * per == index * per + per) by (nonlinear_arith)
            requires
                (count - 1) * per < paths.len(),
                0 <= index < count,
                per >= 1,
        ;
    }
}

/// Cuts the list into consecutive slices, one per worker at most. With no
/// more paths than workers every path is a slice of its own; else a slice
/// holds the paths divided by the workers, rounded up, and the last slice
/// what is left.
pub fn partition(paths: &Vec<String>, worker_count: usize) -> (r: Vec<Vec<String>>)
    requires
        worker_count >= 1,
    ensures
        slices_view(r@) == partition_of(paths@, worker_count as nat),
        concat(slices_view(r@)) == paths@,
        r@.len() <= worker_count,
        forall|index: int| 0 <= index < r@.len() ==> (#[trigger] r@[index])@.len() >= 1,
{
    let n: usize = paths.len();
    let per: usize = if n <= worker_count {
        1
    } else if n % worker_count == 0 {
        n / worker_count
    } else {
        assert(n / worker_count < n) by (nonlinear_arith)
            requires
                n > worker_count >= 1,
                n % worker_count != 0,
        ;
        n / worker_count + 1
    };
    let ghost count = slice_count(paths@.len(), worker_count as nat);
    proof {
        lemma_slice_bounds(paths@.len(), worker_count as nat);
        if n > worker_count {
            assert(per == (n + worker_count - 1) / (worker_count as int)) by (nonlinear_arith)
                requires
                    worker_count >= 1,
                    n % worker_count == 0 ==> per == n / worker_count,
                    n % worker_count != 0 ==> per == n / worker_count + 1,
            ;
        }
    }
    let mut out: Vec<Vec<String>> = Vec::new();
    let mut start: usize = 0;
    assert(out@.len() * per == 0);
    while start < n
        invariant
            n == paths@.len(),
            worker_count >= 1,
            per == items_per_worker(paths@.len(), worker_count as nat),
            per >= 1,
            count == slice_count(paths@.len(), worker_count as nat),
            (count - 1) * per < n || n == 0,
            count * per >= n,
            out@.len() <= count,
            start <= n,
            start < n ==> start == out@.len() * per,
            start == n ==> out@.len() == count,
            slices_view(out@) =~= partition_of(paths@, worker_count as nat).take(out@.len() as int),
        decreases n - start,
    {
        let end: usize = if n - start <= per {
            n
        } else {
            start + per
        };
        let ghost index = out@.len() as int;
        proof {
            assert(index < count && (index + 1) * per == start + per) by (nonlinear_arith)
                requires
                    start == index * per,
                    start < n,
                    count * per >= n,
                    per >= 1,
                    index >= 0,
            ;
            if end == n {
                assert(index == count - 1) by (nonlinear_arith)
                    requires
                        (count - 1) * per < n,
                        start == index * per,
                        n - start <= per,
                        index < count,
                        per >= 1,
                ;
            }
        }
        let mut slice: Vec<String> = Vec::new();
        let mut at: usize = start;
        while at < end
            invariant
                start <= at <= end <= n,
                n == paths@.len(),
                slice@ =~= paths@.subrange(start as int, at as int),
            decreases end - at,
        {
            slice.push(paths[at].clone());
            at = at + 1;
        }
        assert(slice@ == slice_of(paths@, worker_count as nat, index));
        let ghost before = out@;
        out.push(slice);
        proof {
            let all = partition_of(paths@, worker_count as nat);
            assert(slices_view(out@) =~= all.take(index + 1)) by {
                assert forall|k: int| 0 <= k < index + 1 implies slices_view(out@)[k] == all[k] by {
                    if k < index {
                        assert(slices_view(before)[k] == all.take(index)[k]);
                    }
                }
            }
        }
        start = end;
    }
    proof {
        let all = partition_of(paths@, worker_count as nat);
        assert(all.take(out@.len() as int) =~= all);
        lemma_partition(paths@, worker_count as nat);
        assert forall|index: int| 0 <= index < out@.len() implies (#[trigger] out@[index])@.len()
            >= 1 by {
            assert(slices_view(out@)[index] == out@[index]@);
        }
    }
    out
}

/// Calls `num_cpus::get`, the number of logical cores that this process may
/// use. The number depends on the machine, so nothing is claimed of it.
#[verifier::external_body]
fn logical_cores() -> (r: usize) {
    num_cpus::get()
}

/// Cuts the list for as many workers as the machine has logical cores, one
/// worker at least. Whatever that number is, the slices are the partition
/// of the list for some number of workers.
pub fn distribute_paths(files_paths: Vec<String>) -> (r: Vec<Vec<String>>)
    ensures
        exists|workers: nat|
            workers >= 1 && slices_view(r@) == #[trigger] partition_of(files_paths@, workers),
        concat(slices_view(r@)) == files_paths@,
        forall|index: int| 0 <= index < r@.len() ==> (#[trigger] r@[index])@.len() >= 1,
{
    let cores: usize = logical_cores();
    let workers: usize = if cores < 1 {
        1
    } else {
        cores
    };
    partition(&files_paths, workers)
}

} // verus!
