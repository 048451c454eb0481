//! The decision of the closed-loop generator's workers: a worker that draws
//! ticket `t` from the shared counter runs a request only if `t` is below the
//! total, read as a `u32`.

use vstd::prelude::*;

verus! {

/// Whether ticket `ticket` lets its worker run a request.
pub open spec fn spec_may_run(ticket: u32, total_task_num: usize) -> bool {
    ticket < total_task_num as u32
}

/// Whether a worker that drew `ticket` (the counter's value before its
/// increment) runs a request; otherwise the worker stops.
pub fn may_run(ticket: u32, total_task_num: usize) -> (run: bool)
    ensures
        run == spec_may_run(ticket, total_task_num),
{
    ticket < total_task_num as u32
}

/// The tickets below `m` that let their worker run.
pub open spec fn running_tickets(m: int, total_task_num: usize) -> Set<int> {
    Set::new(|t: int| 0 <= t < m && spec_may_run(t as u32, total_task_num))
}

/// Tickets are drawn as 0, 1, 2, ... whatever the workers' interleaving, so
/// the requests that run are a prefix of the draws: of the first `m` draws
/// (while the counter has not wrapped), exactly `min(m, total as u32)` run,
/// and once a draw is refused every later one is too.
pub proof fn lemma_exactly_total_requests_run(m: int, total_task_num: usize)
    requires
        0 <= m <= 0x1_0000_0000,
    ensures
        running_tickets(m, total_task_num).finite(),
        running_tickets(m, total_task_num).len() == if m < total_task_num as u32 {
            m
        } else {
            total_task_num as u32 as int
        },
        forall|a: u32, b: u32|
            a <= b && spec_may_run(b, total_task_num) ==> spec_may_run(a, total_task_num),
{
    let total = total_task_num as u32 as int;
    let hi = if m < total {
        m
    } else {
        total
    };
    assert(running_tickets(m, total_task_num) =~= vstd::set_lib::set_int_range(0, hi));
    vstd::set_lib::lemma_int_range(0, hi);
}

} // verus!
