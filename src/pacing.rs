use vstd::prelude::*;

verus! {

/// The spacing of dispatches at `rate` per second, in whole microseconds.
pub open spec fn interval_for(rate: nat) -> nat {
    if rate == 0 { 0 } else { 1_000_000nat / rate }
}

/// The time at which dispatch `i` is due: `i` intervals after the start.
pub open spec fn scheduled_time(start: nat, interval: nat, i: nat) -> nat {
    start + i * interval
}

/// What to do before the next dispatch.
#[derive(Debug, PartialEq, Eq, Structural)]
pub enum Dispatch {
    /// The dispatch is due later: wait this many microseconds first.
    Wait(u64),
    /// The dispatch was already due: go at once; this counts as a missed
    /// deadline.
    Late,
}

/// The open-loop schedule of one campaign: `total` dispatches, one every
/// interval from the start, whatever the time at which each is made.
pub struct Pacer {
    start_us: u64,
    interval_us: u64,
    total: u64,
    next: u64,
    missed: u64,
}

impl Pacer {
    pub closed spec fn start(&self) -> nat {
        self.start_us as nat
    }

    pub closed spec fn interval(&self) -> nat {
        self.interval_us as nat
    }

    pub closed spec fn total_spec(&self) -> nat {
        self.total as nat
    }

    /// The index of the next dispatch.
    pub closed spec fn next_spec(&self) -> nat {
        self.next as nat
    }

    /// The deadlines missed so far.
    pub closed spec fn missed_spec(&self) -> nat {
        self.missed as nat
    }

    pub closed spec fn wf(&self) -> bool {
        &&& self.next <= self.total
        &&& self.missed <= self.next
        &&& self.start_us as nat + self.total as nat * self.interval_us as nat <= u64::MAX
    }

    /// The schedule of `rate` dispatches a second for `duration_s` seconds,
    /// from `start_us` on.
    pub fn new(rate: u64, duration_s: u64, start_us: u64) -> (r: Pacer)
        requires
            rate > 0,
            rate as nat * duration_s as nat <= u64::MAX,
            start_us as nat + duration_s as nat * 1_000_000 <= u64::MAX,
        ensures
            r.wf(),
            r.start() == start_us,
            r.interval() == interval_for(rate as nat),
            r.total_spec() == rate as nat * duration_s as nat,
            r.next_spec() == 0,
            r.missed_spec() == 0,
    {
        let interval_us = 1_000_000 / rate;
        let total = rate * duration_s;
        assert(total as nat * interval_us as nat <= duration_s as nat * 1_000_000) by (nonlinear_arith)
            requires
                total == rate * duration_s,
                interval_us == 1_000_000int / rate as int,
                rate > 0,
        {
            assert(rate * (1_000_000int / rate as int) <= 1_000_000);
            assert(duration_s * (rate * (1_000_000int / rate as int)) <= duration_s * 1_000_000);
        }
        Pacer { start_us, interval_us, total, next: 0, missed: 0 }
    }

    /// Whether every dispatch has been made.
    pub fn is_done(&self) -> (r: bool)
        ensures
            r == (self.next_spec() >= self.total_spec()),
    {
        self.next >= self.total
    }

    /// Decides the next dispatch, at time `now_us`: wait until it is due if
    /// it lies ahead, else go at once and count a missed deadline.
    pub fn step(&mut self, now_us: u64) -> (r: Dispatch)
        requires
            old(self).wf(),
            old(self).next_spec() < old(self).total_spec(),
        ensures
            final(self).wf(),
            final(self).start() == old(self).start(),
            final(self).interval() == old(self).interval(),
            final(self).total_spec() == old(self).total_spec(),
            final(self).next_spec() == old(self).next_spec() + 1,
            ({
                let due = scheduled_time(old(self).start(), old(self).interval(), old(self).next_spec());
                if now_us < due {
                    &&& r == Dispatch::Wait((due - now_us) as u64)
                    &&& final(self).missed_spec() == old(self).missed_spec()
                } else {
                    &&& r == Dispatch::Late
                    &&& final(self).missed_spec() == old(self).missed_spec() + 1
                }
            }),
    {
        proof {
            assert(self.next as nat * self.interval_us as nat <= self.total as nat * self.interval_us as nat)
                by (nonlinear_arith)
                requires self.next <= self.total;
        }
        let due = self.start_us + self.next * self.interval_us;
        self.next = self.next + 1;
        if now_us < due {
            Dispatch::Wait(due - now_us)
        } else {
            proof {
                assert(self.missed <= old(self).next);
            }
            self.missed = self.missed + 1;
            Dispatch::Late
        }
    }

    /// The number of dispatches in the campaign.
    pub fn total(&self) -> (r: u64)
        ensures
            r as nat == self.total_spec(),
    {
        self.total
    }

    /// The number of deadlines missed so far.
    pub fn missed(&self) -> (r: u64)
        ensures
            r as nat == self.missed_spec(),
    {
        self.missed
    }

    /// The spacing of dispatches, in microseconds.
    pub fn interval_us(&self) -> (r: u64)
        ensures
            r as nat == self.interval(),
    {
        self.interval_us
    }
}

/// Dispatch times are strictly increasing and exactly one interval apart,
/// whatever deadlines were missed: they depend on the start, the rate and
/// the index alone.
pub proof fn lemma_pacing_monotone(start: nat, rate: nat, i: nat, j: nat)
    requires
        0 < rate <= 1_000_000,
        i < j,
    ensures
        scheduled_time(start, interval_for(rate), i + 1) == scheduled_time(start, interval_for(rate), i)
            + interval_for(rate),
        scheduled_time(start, interval_for(rate), i) < scheduled_time(start, interval_for(rate), j),
{
    let d = interval_for(rate);
    assert(d >= 1) by (nonlinear_arith)
        requires
            d == 1_000_000nat / rate,
            0 < rate <= 1_000_000;
    assert((i + 1) * d == i * d + d) by (nonlinear_arith);
    assert(i * d < j * d) by (nonlinear_arith)
        requires
            i < j,
            d >= 1;
}

} // verus!
