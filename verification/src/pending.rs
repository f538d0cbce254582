//! Pending-import queue lookups: the position of an entry in the queue and
//! the queue's total size.

use vstd::prelude::*;
use crate::store::PendingRec;

verus! {

/// Current position in the queue and total size.
pub struct PendingStatusDto {
    pub position: i64,
    pub total: i64,
}

/// Batch import request: the checksums of the files to enqueue.
pub struct BatchChecksumsRequestDto {
    pub checksums: Vec<String>,
}

/// Queue order: by submission time ascending, ties by table order.
pub open spec fn queued_before(a: PendingRec, ai: int, b: PendingRec, bi: int) -> bool {
    a.created_at < b.created_at || (a.created_at == b.created_at && ai < bi)
}

/// The first queue slot holding the id, in queue order, or -1.
pub open spec fn first_queued(q: Seq<PendingRec>, osu_id: i32) -> int {
    if exists|i: int| 0 <= i < q.len() && (#[trigger] q[i]).osu_id == osu_id {
        choose|m: int|
            0 <= m < q.len() && (#[trigger] q[m]).osu_id == osu_id && forall|j: int|
                0 <= j < q.len() && (#[trigger] q[j]).osu_id == osu_id && j != m ==> queued_before(
                    q[m],
                    m,
                    q[j],
                    j,
                )
    } else {
        -1
    }
}

/// How many queue slots come before slot `m`, in queue order, among the
/// first `n`.
pub open spec fn count_before(q: Seq<PendingRec>, m: int, n: int) -> int
    decreases n,
{
    if n <= 0 {
        0
    } else {
        count_before(q, m, n - 1) + if queued_before(q[n - 1], n - 1, q[m], m) {
            1int
        } else {
            0int
        }
    }
}

/// The queue position (1 = first) and total size for a pending entry, or
/// nothing when the id is not queued.  The position counts the slots that
/// come before the id's earliest slot in queue order.
pub fn find_status_by_osu_id(queue: &Vec<PendingRec>, osu_id: i32) -> (r: Option<PendingStatusDto>)
    requires
        queue@.len() < i64::MAX,
    ensures
        match r {
            Some(st) => {
                let m = first_queued(queue@, osu_id);
                &&& m != -1
                &&& st.position == 1 + count_before(queue@, m, queue@.len() as int)
                &&& st.total == queue@.len()
            },
            None => forall|i: int| 0 <= i < queue@.len() ==> (#[trigger] queue@[i]).osu_id != osu_id,
        },
{
    let ghost q = queue@;
    // find the earliest matching slot in queue order
    let mut found = false;
    let mut m: usize = 0;
    let mut i: usize = 0;
    while i < queue.len()
        invariant
            i <= q.len(),
            q == queue@,
            found ==> m < i && q[m as int].osu_id == osu_id && forall|j: int|
                0 <= j < i && (#[trigger] q[j]).osu_id == osu_id && j != m ==> queued_before(
                    q[m as int],
                    m as int,
                    q[j],
                    j,
                ),
            !found ==> forall|j: int| 0 <= j < i ==> (#[trigger] q[j]).osu_id != osu_id,
        decreases q.len() - i,
    {
        if queue[i].osu_id == osu_id {
            if !found {
                found = true;
                m = i;
            } else if queue[i].created_at < queue[m].created_at {
                m = i;
            }
        }
        i = i + 1;
    }
    if !found {
        return None;
    }
    proof {
        let fm = first_queued(q, osu_id);
        assert(q[m as int].osu_id == osu_id);
        assert(exists|i: int| 0 <= i < q.len() && (#[trigger] q[i]).osu_id == osu_id);
        assert(0 <= m < q.len() && q[m as int].osu_id == osu_id && forall|j: int|
            0 <= j < q.len() && (#[trigger] q[j]).osu_id == osu_id && j != m ==> queued_before(
                q[m as int],
                m as int,
                q[j],
                j,
            ));
        assert(fm != -1);
        // queue order is total on distinct slots: the earliest slot is unique
        if fm != m {
            assert(q[fm].osu_id == osu_id);
            assert(queued_before(q[fm], fm, q[m as int], m as int));
            assert(queued_before(q[m as int], m as int, q[fm], fm));
            assert(false);
        }
    }
    // count the slots before it in queue order
    let target_at = queue[m].created_at;
    let mut count: i64 = 0;
    let mut k: usize = 0;
    while k < queue.len()
        invariant
            k <= q.len(),
            q == queue@,
            q.len() < i64::MAX,
            m < q.len(),
            target_at == q[m as int].created_at,
            count == count_before(q, m as int, k as int),
            count <= k,
        decreases q.len() - k,
    {
        if queue[k].created_at < target_at || (queue[k].created_at == target_at && k < m) {
            count = count + 1;
        }
        k = k + 1;
    }
    Some(PendingStatusDto { position: 1 + count, total: queue.len() as i64 })
}

} // verus!
