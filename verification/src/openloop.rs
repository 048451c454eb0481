//! The decisions of the open-loop generator: how often a request is issued,
//! and when the last one has been issued.

use vstd::prelude::*;

verus! {

/// The time between two requests, in milliseconds, for `qps` requests per
/// second: `1000 / qps`, rounded down.
pub fn request_interval_ms(qps: usize) -> (ms: u64)
    requires
        qps > 0,
    ensures
        ms == 1000int / (qps as int),
{
    (1000 / qps) as u64
}

/// What to do at a tick of the request clock.
#[derive(Debug, Clone, Copy, PartialEq, Eq, Structural)]
pub enum TickAction {
    /// Issue a request, then wait for the next tick.
    Spawn,
    /// Issue the last request; no tick follows.
    SpawnLast,
}

/// The count of requests issued so far, and the number to issue.
pub struct OpenLoop {
    issued: usize,
    request_num: usize,
}

/// Whether a loop that has issued `s.0` of `s.1` requests has stopped: it
/// stops at the tick that issues the `s.1`-th request, so one asked for no
/// requests never stops.
pub open spec fn is_finished_state(s: (nat, nat)) -> bool {
    s.0 >= 1 && s.0 == s.1
}

/// The state after one more tick.
pub open spec fn next_state(s: (nat, nat)) -> (nat, nat) {
    (s.0 + 1, s.1)
}

/// What the tick taken in state `s` does.
pub open spec fn tick_action(s: (nat, nat)) -> TickAction {
    if s.0 + 1 == s.1 {
        TickAction::SpawnLast
    } else {
        TickAction::Spawn
    }
}

impl View for OpenLoop {
    type V = (nat, nat);

    /// The requests issued so far, and the number to issue.
    closed spec fn view(&self) -> (nat, nat) {
        (self.issued as nat, self.request_num as nat)
    }
}

impl OpenLoop {
    /// A loop that is to issue `request_num` requests, none issued yet.
    pub fn new(request_num: usize) -> (res: OpenLoop)
        ensures
            res@ == (0nat, request_num as nat),
    {
        OpenLoop { issued: 0, request_num }
    }

    /// The number of requests issued so far.
    pub fn issued(&self) -> (n: usize)
        ensures
            n == self@.0,
    {
        self.issued
    }

    /// Whether the loop has stopped.
    pub fn is_finished(&self) -> (res: bool)
        ensures
            res == is_finished_state(self@),
    {
        self.issued >= 1 && self.issued == self.request_num
    }

    /// One tick of the request clock: a request is issued, and it is the
    /// last one exactly when it makes the count reach `request_num`.
    pub fn on_tick(&mut self) -> (action: TickAction)
        requires
            !is_finished_state(old(self)@),
            old(self)@.0 < usize::MAX,
        ensures
            final(self)@ == next_state(old(self)@),
            action == tick_action(old(self)@),
            is_finished_state(final(self)@) <==> action == TickAction::SpawnLast,
    {
        self.issued = self.issued + 1;
        if self.issued == self.request_num {
            TickAction::SpawnLast
        } else {
            TickAction::Spawn
        }
    }
}

/// The state after `k` ticks from `s`.
pub open spec fn after_ticks(s: (nat, nat), k: nat) -> (nat, nat)
    decreases k,
{
    if k == 0 {
        s
    } else {
        next_state(after_ticks(s, (k - 1) as nat))
    }
}

/// A loop started for `n >= 1` requests issues exactly `n`: it is still
/// running after each of the first `n - 1` ticks, each of which issues a
/// request and waits, and the `n`-th tick issues the last request and stops it.
pub proof fn lemma_issues_exactly_request_num(n: nat, k: nat)
    requires
        n >= 1,
        k < n,
    ensures
        after_ticks((0nat, n), k) == (k, n),
        !is_finished_state(after_ticks((0nat, n), k)),
        tick_action(after_ticks((0nat, n), k)) == (if k + 1 == n {
            TickAction::SpawnLast
        } else {
            TickAction::Spawn
        }),
        is_finished_state(after_ticks((0nat, n), k + 1)) <==> k + 1 == n,
    decreases k,
{
    if k > 0 {
        lemma_issues_exactly_request_num(n, (k - 1) as nat);
    }
    assert(after_ticks((0nat, n), k + 1) == next_state(after_ticks((0nat, n), k)));
}

/// A loop asked for no requests never stops: it issues a request at every
/// tick.
pub proof fn lemma_zero_requests_never_stop(k: nat)
    ensures
        after_ticks((0nat, 0nat), k) == (k, 0nat),
        !is_finished_state(after_ticks((0nat, 0nat), k)),
        tick_action(after_ticks((0nat, 0nat), k)) == TickAction::Spawn,
    decreases k,
{
    if k > 0 {
        lemma_zero_requests_never_stop((k - 1) as nat);
    }
}

} // verus!
