//! Response-time analysis of a task set under fixed-priority preemptive
//! scheduling. Priority is the position in the task list: earlier tasks have
//! strictly higher priority. For each task the analysis iterates the
//! recurrence whose least fixed point is the task's worst-case response
//! time, and stops early once the iterate exceeds the relative deadline.

use vstd::arithmetic::div_mod::{
    lemma_div_is_ordered, lemma_div_pos_is_pos, lemma_fundamental_div_mod,
    lemma_fundamental_div_mod_converse,
};
use vstd::arithmetic::mul::{lemma_mul_inequality, lemma_mul_nonnegative};
use vstd::prelude::*;

use crate::task::Task;

verus! {

/// Every task in the set has accepted timing parameters.
pub open spec fn all_params_ok(tasks: Seq<Task>) -> bool {
    forall|j: int| 0 <= j < tasks.len() ==> tasks[j].params_ok()
}

/// Ceiling of `a / b` for positive `b`.
pub open spec fn ceil_div(a: int, b: int) -> int {
    (a + b - 1) / b
}

/// Worst-case interference the first `n` tasks impose on a response-time
/// candidate `r`: within a window of length `r`, the task at `j` releases
/// `ceil(r / period_j)` jobs, each demanding its worst-case execution time.
pub open spec fn interference_upto(tasks: Seq<Task>, n: int, r: int) -> int
    decreases n,
{
    if n <= 0 {
        0
    } else {
        interference_upto(tasks, n - 1, r) + ceil_div(r, tasks[n - 1].period as int) * (
        tasks[n - 1].worst_case_execution_time as int)
    }
}

/// One step of the response-time recurrence for the task at `i`: its own
/// worst case plus the interference of the strictly higher-priority tasks,
/// those earlier in the list.
pub open spec fn rta_next(tasks: Seq<Task>, i: int, r: int) -> int {
    tasks[i].worst_case_execution_time + interference_upto(tasks, i, r)
}

/// `r` is the worst-case response time of the task at `i`: a non-negative
/// fixed point of the recurrence that lies below every non-negative
/// pre-fixed point, hence the least one.
pub open spec fn is_response_time(tasks: Seq<Task>, i: int, r: int) -> bool {
    &&& 0 <= r
    &&& rta_next(tasks, i, r) == r
    &&& forall|x: int| 0 <= x && rta_next(tasks, i, x) <= x ==> r <= x
}

/// The task at `i` is schedulable: its worst-case response time exists and
/// fits within its relative deadline.
pub open spec fn task_schedulable(tasks: Seq<Task>, i: int) -> bool {
    exists|r: int| is_response_time(tasks, i, r) && r <= tasks[i].relative_deadline
}

/// Identifiers of the schedulable tasks among the first `n`, in priority
/// order.
pub open spec fn schedulable_ids(tasks: Seq<Task>, n: int) -> Seq<usize>
    decreases n,
{
    if n <= 0 {
        Seq::empty()
    } else if task_schedulable(tasks, n - 1) {
        schedulable_ids(tasks, n - 1).push(tasks[n - 1].id)
    } else {
        schedulable_ids(tasks, n - 1)
    }
}

/// Interference over a window of non-negative length is non-negative.
proof fn lemma_interference_nonneg(tasks: Seq<Task>, n: int, r: int)
    requires
        all_params_ok(tasks),
        0 <= n <= tasks.len(),
        0 <= r,
    ensures
        0 <= interference_upto(tasks, n, r),
    decreases n,
{
    if n > 0 {
        lemma_interference_nonneg(tasks, n - 1, r);
        let p = tasks[n - 1].period as int;
        lemma_div_pos_is_pos(r + p - 1, p);
        lemma_mul_nonnegative(ceil_div(r, p), tasks[n - 1].worst_case_execution_time as int);
    }
}

/// Interference only grows as more tasks are taken into account.
proof fn lemma_interference_prefix(tasks: Seq<Task>, m: int, n: int, r: int)
    requires
        all_params_ok(tasks),
        0 <= m <= n <= tasks.len(),
        0 <= r,
    ensures
        interference_upto(tasks, m, r) <= interference_upto(tasks, n, r),
    decreases n,
{
    if m < n {
        lemma_interference_prefix(tasks, m, n - 1, r);
        let p = tasks[n - 1].period as int;
        lemma_div_pos_is_pos(r + p - 1, p);
        lemma_mul_nonnegative(ceil_div(r, p), tasks[n - 1].worst_case_execution_time as int);
    }
}

/// Interference is monotone in the window length.
proof fn lemma_interference_monotone(tasks: Seq<Task>, n: int, r1: int, r2: int)
    requires
        all_params_ok(tasks),
        0 <= n <= tasks.len(),
        0 <= r1 <= r2,
    ensures
        interference_upto(tasks, n, r1) <= interference_upto(tasks, n, r2),
    decreases n,
{
    if n > 0 {
        lemma_interference_monotone(tasks, n - 1, r1, r2);
        let p = tasks[n - 1].period as int;
        let w = tasks[n - 1].worst_case_execution_time as int;
        lemma_div_is_ordered(r1 + p - 1, r2 + p - 1, p);
        lemma_mul_inequality(ceil_div(r1, p), ceil_div(r2, p), w);
    }
}

/// The response-time recurrence is monotone in its candidate.
proof fn lemma_rta_monotone(tasks: Seq<Task>, i: int, r1: int, r2: int)
    requires
        all_params_ok(tasks),
        0 <= i < tasks.len(),
        0 <= r1 <= r2,
    ensures
        rta_next(tasks, i, r1) <= rta_next(tasks, i, r2),
{
    lemma_interference_monotone(tasks, i, r1, r2);
}

/// Below a pre-fixed point `b` of the recurrence, ascending iteration from
/// `cur` reaches a least fixed point no larger than `b`.
proof fn lemma_lfp_from(tasks: Seq<Task>, i: int, b: int, cur: int)
    requires
        all_params_ok(tasks),
        0 <= i < tasks.len(),
        0 <= cur <= b,
        rta_next(tasks, i, b) <= b,
        cur <= rta_next(tasks, i, cur),
        forall|x: int| 0 <= x && rta_next(tasks, i, x) <= x ==> cur <= x,
    ensures
        exists|r: int| is_response_time(tasks, i, r) && r <= b,
    decreases b - cur,
{
    let next = rta_next(tasks, i, cur);
    if next == cur {
        assert(is_response_time(tasks, i, cur));
    } else {
        lemma_rta_monotone(tasks, i, cur, b);
        assert(next <= b);
        assert forall|x: int| 0 <= x && rta_next(tasks, i, x) <= x implies next <= x by {
            lemma_rta_monotone(tasks, i, cur, x);
        }
        lemma_rta_monotone(tasks, i, cur, next);
        lemma_lfp_from(tasks, i, b, next);
    }
}

/// Any non-negative pre-fixed point of the recurrence bounds a least fixed
/// point from above.
pub proof fn lemma_lfp_exists(tasks: Seq<Task>, i: int, b: int)
    requires
        all_params_ok(tasks),
        0 <= i < tasks.len(),
        0 <= b,
        rta_next(tasks, i, b) <= b,
    ensures
        exists|r: int| is_response_time(tasks, i, r) && r <= b,
{
    assert forall|x: int| 0 <= x && rta_next(tasks, i, x) <= x implies 0 <= x by {}
    assert(0 <= rta_next(tasks, i, 0)) by {
        lemma_interference_nonneg(tasks, i, 0);
    }
    lemma_lfp_from(tasks, i, b, 0);
}

/// A task with no higher-priority tasks has zero interference: its
/// worst-case response time is exactly its worst-case execution time, and
/// it is schedulable exactly when that fits within its relative deadline.
pub proof fn lemma_zero_interference(tasks: Seq<Task>, r: int)
    requires
        all_params_ok(tasks),
        tasks.len() >= 1,
    ensures
        is_response_time(tasks, 0, r) <==> r == tasks[0].worst_case_execution_time,
        task_schedulable(tasks, 0) <==> tasks[0].worst_case_execution_time
            <= tasks[0].relative_deadline,
{
    let w = tasks[0].worst_case_execution_time as int;
    assert(rta_next(tasks, 0, r) == w);
    assert(rta_next(tasks, 0, w) == w);
    assert(is_response_time(tasks, 0, w));
    if tasks[0].worst_case_execution_time <= tasks[0].relative_deadline {
        assert(is_response_time(tasks, 0, w) && w <= tasks[0].relative_deadline);
    }
    if task_schedulable(tasks, 0) {
        let r0 = choose|r0: int|
            is_response_time(tasks, 0, r0) && r0 <= tasks[0].relative_deadline;
        assert(rta_next(tasks, 0, r0) == r0);
    }
}

/// Raising the worst-case execution time of higher-priority tasks can only
/// raise the interference they impose.
proof fn lemma_interference_wcet_monotone(t1: Seq<Task>, t2: Seq<Task>, n: int, r: int)
    requires
        all_params_ok(t1),
        all_params_ok(t2),
        t1.len() == t2.len(),
        0 <= n <= t1.len(),
        0 <= r,
        forall|j: int|
            0 <= j < n ==> t1[j].period == t2[j].period && t1[j].worst_case_execution_time
                <= t2[j].worst_case_execution_time,
    ensures
        interference_upto(t1, n, r) <= interference_upto(t2, n, r),
    decreases n,
{
    if n > 0 {
        lemma_interference_wcet_monotone(t1, t2, n - 1, r);
        let p = t1[n - 1].period as int;
        lemma_div_pos_is_pos(r + p - 1, p);
        lemma_mul_inequality(
            t1[n - 1].worst_case_execution_time as int,
            t2[n - 1].worst_case_execution_time as int,
            ceil_div(r, p),
        );
        assert((t1[n - 1].worst_case_execution_time as int) * ceil_div(r, p) == ceil_div(r, p) * (
        t1[n - 1].worst_case_execution_time as int)) by (nonlinear_arith);
        assert((t2[n - 1].worst_case_execution_time as int) * ceil_div(r, p) == ceil_div(r, p) * (
        t2[n - 1].worst_case_execution_time as int)) by (nonlinear_arith);
    }
}

/// Raising any higher-priority task's worst-case execution time cannot
/// lower the worst-case response time of the task at `i`.
pub proof fn lemma_response_time_monotone(t1: Seq<Task>, t2: Seq<Task>, i: int, r1: int, r2: int)
    requires
        all_params_ok(t1),
        all_params_ok(t2),
        t1.len() == t2.len(),
        0 <= i < t1.len(),
        t1[i].worst_case_execution_time == t2[i].worst_case_execution_time,
        forall|j: int|
            0 <= j < i ==> t1[j].period == t2[j].period && t1[j].worst_case_execution_time
                <= t2[j].worst_case_execution_time,
        is_response_time(t1, i, r1),
        is_response_time(t2, i, r2),
    ensures
        r1 <= r2,
{
    lemma_interference_wcet_monotone(t1, t2, i, r2);
    assert(rta_next(t1, i, r2) <= rta_next(t2, i, r2));
    assert(rta_next(t1, i, r2) <= r2);
}

/// Raising any higher-priority task's worst-case execution time cannot make
/// an unschedulable task schedulable: schedulability under the raised set
/// implies schedulability under the original.
pub proof fn lemma_schedulable_monotone(t1: Seq<Task>, t2: Seq<Task>, i: int)
    requires
        all_params_ok(t1),
        all_params_ok(t2),
        t1.len() == t2.len(),
        0 <= i < t1.len(),
        t1[i].worst_case_execution_time == t2[i].worst_case_execution_time,
        t1[i].relative_deadline == t2[i].relative_deadline,
        forall|j: int|
            0 <= j < i ==> t1[j].period == t2[j].period && t1[j].worst_case_execution_time
                <= t2[j].worst_case_execution_time,
        task_schedulable(t2, i),
    ensures
        task_schedulable(t1, i),
{
    let r2 = choose|r2: int| is_response_time(t2, i, r2) && r2 <= t2[i].relative_deadline;
    lemma_interference_wcet_monotone(t1, t2, i, r2);
    assert(rta_next(t1, i, r2) <= rta_next(t2, i, r2));
    lemma_lfp_exists(t1, i, r2);
    let r1 = choose|r1: int| is_response_time(t1, i, r1) && r1 <= r2;
    assert(is_response_time(t1, i, r1) && r1 <= t1[i].relative_deadline);
}

/// One step of the recurrence for the task at `i`, computed exactly unless
/// it exceeds `cap`, in which case only that fact is reported.
fn rta_next_capped(tasks: &Vec<Task>, i: usize, r: usize, cap: usize) -> (res: Option<usize>)
    requires
        all_params_ok(tasks@),
        i < tasks@.len(),
    ensures
        match res {
            Some(v) => v as int == rta_next(tasks@, i as int, r as int) && v <= cap,
            None => rta_next(tasks@, i as int, r as int) > cap,
        },
{
    let wcet = tasks[i].worst_case_execution_time;
    if wcet > cap {
        proof {
            lemma_interference_nonneg(tasks@, i as int, r as int);
        }
        return None;
    }
    let mut acc: usize = wcet;
    let mut j: usize = 0;
    while j < i
        invariant
            all_params_ok(tasks@),
            i < tasks@.len(),
            j <= i,
            wcet == tasks@[i as int].worst_case_execution_time,
            acc as int == wcet + interference_upto(tasks@, j as int, r as int),
            acc <= cap,
        decreases i - j,
    {
        let p = tasks[j].period;
        let w = tasks[j].worst_case_execution_time;
        let q = r / p;
        proof {
            let ri = r as int;
            let pi = p as int;
            lemma_fundamental_div_mod(ri, pi);
            lemma_div_pos_is_pos(ri, pi);
            let q0 = ri / pi;
            let m0 = ri % pi;
            if m0 != 0 {
                assert(q0 <= pi * q0) by (nonlinear_arith)
                    requires
                        0 <= q0,
                        1 <= pi,
                ;
                assert((q0 + 1) * pi == pi * q0 + pi) by (nonlinear_arith);
                lemma_fundamental_div_mod_converse(ri + pi - 1, pi, q0 + 1, m0 - 1);
            } else {
                assert(q0 * pi == pi * q0) by (nonlinear_arith);
                lemma_fundamental_div_mod_converse(ri + pi - 1, pi, q0, pi - 1);
            }
        }
        let ceil = if r % p != 0 {
            q + 1
        } else {
            q
        };
        proof {
            assert(ceil as int == ceil_div(r as int, p as int));
        }
        // Detect whether ceil * w would push the total past the cap, without
        // overflowing: w >= 1, so ceil * w > cap exactly when ceil > cap / w.
        let ghost full = rta_next(tasks@, i as int, r as int);
        proof {
            lemma_interference_prefix(tasks@, j as int + 1, i as int, r as int);
            lemma_fundamental_div_mod(cap as int, w as int);
        }
        if ceil > cap / w {
            proof {
                lemma_mul_inequality(
                    (cap as int) / (w as int) + 1,
                    ceil as int,
                    w as int,
                );
                assert((((cap as int) / (w as int)) + 1) * (w as int) == ((cap as int) / (
                w as int)) * (w as int) + w as int) by (nonlinear_arith);
                assert(((cap as int) / (w as int)) * (w as int) == (w as int) * ((cap as int) / (
                w as int))) by (nonlinear_arith);
                assert(ceil_div(r as int, p as int) * (w as int) > cap);
                assert(full >= wcet + interference_upto(tasks@, j as int + 1, r as int));
            }
            return None;
        }
        proof {
            lemma_mul_inequality(ceil as int, (cap as int) / (w as int), w as int);
            assert(((cap as int) / (w as int)) * (w as int) == (w as int) * ((cap as int) / (
            w as int))) by (nonlinear_arith);
            assert(ceil as int * w as int <= cap);
        }
        let term = ceil * w;
        if term > cap - acc {
            proof {
                lemma_interference_prefix(tasks@, j as int + 1, i as int, r as int);
                assert(full >= wcet + interference_upto(tasks@, j as int + 1, r as int));
            }
            return None;
        }
        acc = acc + term;
        j = j + 1;
    }
    Some(acc)
}

/// The worst-case response time of the task at `i`, found by ascending
/// fixed-point iteration from the task's own worst case. `Some(r)` is the
/// least fixed point of the recurrence, within the relative deadline;
/// `None` means the iterates passed the deadline, and no candidate up to
/// the deadline satisfies the recurrence.
pub fn response_time_for_task(tasks: &Vec<Task>, i: usize) -> (res: Option<usize>)
    requires
        all_params_ok(tasks@),
        i < tasks@.len(),
    ensures
        match res {
            Some(r) => is_response_time(tasks@, i as int, r as int) && r <= tasks@[
                i as int
            ].relative_deadline,
            None => forall|x: int|
                0 <= x <= tasks@[i as int].relative_deadline ==> rta_next(tasks@, i as int, x) > x,
        },
        res is Some <==> task_schedulable(tasks@, i as int),
{
    let deadline = tasks[i].relative_deadline;
    let wcet = tasks[i].worst_case_execution_time;
    let mut prev: usize = 0;
    let mut cur: usize = wcet;
    proof {
        assert forall|x: int| 0 <= x && rta_next(tasks@, i as int, x) <= x implies cur <= x by {
            lemma_interference_nonneg(tasks@, i as int, x);
        }
    }
    while cur > prev
        invariant
            all_params_ok(tasks@),
            i < tasks@.len(),
            wcet == tasks@[i as int].worst_case_execution_time,
            deadline == tasks@[i as int].relative_deadline,
            wcet <= deadline,
            prev <= cur,
            cur <= deadline,
            (prev == 0 && cur == wcet) || cur as int == rta_next(tasks@, i as int, prev as int),
            forall|x: int| 0 <= x && rta_next(tasks@, i as int, x) <= x ==> cur <= x,
        decreases deadline - prev,
    {
        let ghost prev0 = prev as int;
        let ghost cur0 = cur as int;
        prev = cur;
        let next = rta_next_capped(tasks, i, prev, deadline);
        match next {
            None => {
                proof {
                    assert forall|x: int|
                        0 <= x <= tasks@[i as int].relative_deadline implies rta_next(
                        tasks@,
                        i as int,
                        x,
                    ) > x by {
                        if rta_next(tasks@, i as int, x) <= x {
                            lemma_rta_monotone(tasks@, i as int, prev as int, x);
                        }
                    }
                    if task_schedulable(tasks@, i as int) {
                        let r0 = choose|r0: int|
                            is_response_time(tasks@, i as int, r0) && r0 <= tasks@[
                                i as int
                            ].relative_deadline;
                        assert(rta_next(tasks@, i as int, r0) > r0);
                    }
                }
                return None;
            },
            Some(v) => {
                proof {
                    assert forall|x: int|
                        0 <= x && rta_next(tasks@, i as int, x) <= x implies v <= x by {
                        lemma_rta_monotone(tasks@, i as int, prev as int, x);
                    }
                    if prev0 == 0 && cur0 == wcet {
                        lemma_interference_nonneg(tasks@, i as int, cur0);
                    } else {
                        lemma_rta_monotone(tasks@, i as int, prev0, cur0);
                    }
                }
                cur = v;
            },
        }
    }
    proof {
        if prev == 0 && cur == wcet {
            assert(cur <= prev);
            assert(false);
        }
        assert(is_response_time(tasks@, i as int, cur as int));
    }
    Some(cur)
}

/// The identifiers of the schedulable tasks, in priority order: response-time
/// analysis of the whole set. The input task set is never changed.
pub fn response_time_analysis(tasks: &Vec<Task>) -> (r: Vec<usize>)
    requires
        all_params_ok(tasks@),
    ensures
        r@ == schedulable_ids(tasks@, tasks@.len() as int),
{
    let mut out: Vec<usize> = Vec::new();
    let n = tasks.len();
    let mut i: usize = 0;
    while i < n
        invariant
            all_params_ok(tasks@),
            n == tasks@.len(),
            i <= n,
            out@ == schedulable_ids(tasks@, i as int),
        decreases n - i,
    {
        let verdict = response_time_for_task(tasks, i);
        match verdict {
            Some(_) => {
                out.push(tasks[i].id);
            },
            None => {},
        }
        i = i + 1;
    }
    out
}

} // verus!
