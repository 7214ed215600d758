use vstd::prelude::*;

verus! {

/// What the contracts see of a [`Scheduler`]: the interval last set, in
/// seconds, and the handle of the repeating timer it holds, if any.
pub struct SchedulerView<H> {
    pub interval_secs: u64,
    pub timer: Option<H>,
}

/// The decisions behind the repeating reconciliation timer. `H` is the
/// host's timer handle. The scheduler never touches the host's timers
/// itself: it says what to cancel and what to arm, and is told the handle
/// of each timer armed.
pub struct Scheduler<H> {
    interval_secs: u64,
    timer: Option<H>,
}

/// What the host must do, in this order, to carry out a reschedule: first
/// cancel the timer `cancel`, if there is one, then arm a repeating timer
/// of `arm_secs` seconds.
#[derive(Clone, Copy, Debug, PartialEq, Eq)]
pub struct TimerPlan<H> {
    pub cancel: Option<H>,
    pub arm_secs: u64,
}

/// Why an interval was refused.
#[derive(Clone, Copy, Debug, PartialEq, Eq, Structural)]
pub enum ScheduleError {
    /// An interval of zero seconds would fire again at once, forever.
    ZeroInterval,
}

impl<H> View for Scheduler<H> {
    type V = SchedulerView<H>;

    closed spec fn view(&self) -> SchedulerView<H> {
        SchedulerView { interval_secs: self.interval_secs, timer: self.timer }
    }
}

/// The state right after the interval became `secs`: the old timer is
/// handed over for cancelling and no new one is held yet.
pub open spec fn rescheduled<H>(v: SchedulerView<H>, secs: u64) -> SchedulerView<H> {
    SchedulerView { interval_secs: secs, timer: None }
}

/// The plan for making the interval `secs`: cancel the timer held, then arm
/// a new one.
pub open spec fn plan_for<H>(v: SchedulerView<H>, secs: u64) -> TimerPlan<H> {
    TimerPlan { cancel: v.timer, arm_secs: secs }
}

/// The state once the host has armed the timer with handle `h`.
pub open spec fn armed<H>(v: SchedulerView<H>, h: H) -> SchedulerView<H> {
    SchedulerView { interval_secs: v.interval_secs, timer: Some(h) }
}

/// The timers that the scheduler holds: its one timer, or none.
pub open spec fn held<H>(v: SchedulerView<H>) -> Set<H> {
    match v.timer {
        Some(t) => set![t],
        None => Set::empty(),
    }
}

/// The host's live timers after it carries out `plan`, starting from `live`,
/// where the timer it arms gets handle `h`.
pub open spec fn live_after<H>(live: Set<H>, plan: TimerPlan<H>, h: H) -> Set<H> {
    match plan.cancel {
        Some(c) => live.remove(c).insert(h),
        None => live.insert(h),
    }
}

impl<H> Scheduler<H> {
    /// A scheduler with no timer and an interval of zero.
    pub fn new() -> (s: Scheduler<H>)
        ensures
            s@ == (SchedulerView::<H> { interval_secs: 0, timer: None }),
    {
        Scheduler { interval_secs: 0, timer: None }
    }

    /// The interval last set, in seconds.
    pub fn get_interval(&self) -> (secs: u64)
        ensures
            secs == self@.interval_secs,
    {
        self.interval_secs
    }

    /// The handle of the timer held, if any.
    pub fn timer(&self) -> (t: &Option<H>)
        ensures
            *t == self@.timer,
    {
        &self.timer
    }

    /// Makes the interval `secs` and returns the plan that carries it out:
    /// cancel the timer held, then arm one of `secs` seconds. From then on
    /// the scheduler holds no timer until [`Scheduler::timer_armed`] is
    /// called, so no step leaves two timers behind. An interval of zero is
    /// refused and changes nothing.
    pub fn set_interval(&mut self, secs: u64) -> (r: Result<TimerPlan<H>, ScheduleError>)
        ensures
            secs == 0 ==> r == Err::<TimerPlan<H>, ScheduleError>(ScheduleError::ZeroInterval)
                && final(self)@ == old(self)@,
            secs > 0 ==> r == Ok::<TimerPlan<H>, ScheduleError>(plan_for(old(self)@, secs))
                && final(self)@ == rescheduled(old(self)@, secs),
    {
        if secs == 0 {
            return Err(ScheduleError::ZeroInterval);
        }
        let cancel = self.timer.take();
        self.interval_secs = secs;
        Ok(TimerPlan { cancel, arm_secs: secs })
    }

    /// Records that the host armed the timer with handle `handle`.
    pub fn timer_armed(&mut self, handle: H)
        ensures
            final(self)@ == armed(old(self)@, handle),
    {
        self.timer = Some(handle);
    }
}

/// While the host runs no timer but the one the scheduler holds, carrying
/// out a reschedule leaves exactly one live timer, the new one, and the
/// scheduler holds it.
pub proof fn lemma_reschedule_leaves_one_timer<H>(
    v: SchedulerView<H>,
    live: Set<H>,
    secs: u64,
    h: H,
)
    requires
        live.subset_of(held(v)),
    ensures
        live_after(live, plan_for(v, secs), h) == set![h],
        held(armed(rescheduled(v, secs), h)) == set![h],
{
    assert(live_after(live, plan_for(v, secs), h) =~= set![h]);
}

/// Two reschedules in quick succession, each carried out as planned, leave
/// exactly one live timer, never none and never two: the second one, which
/// the scheduler holds.
pub proof fn lemma_reschedule_twice_leaves_one_timer<H>(
    v0: SchedulerView<H>,
    live0: Set<H>,
    secs1: u64,
    h1: H,
    secs2: u64,
    h2: H,
)
    requires
        live0.subset_of(held(v0)),
    ensures
        ({
            let v1 = armed(rescheduled(v0, secs1), h1);
            let live1 = live_after(live0, plan_for(v0, secs1), h1);
            let v2 = armed(rescheduled(v1, secs2), h2);
            &&& live_after(live1, plan_for(v1, secs2), h2) == set![h2]
            &&& v2.timer == Some(h2)
            &&& v2.interval_secs == secs2
        }),
{
    let v1 = armed(rescheduled(v0, secs1), h1);
    let live1 = live_after(live0, plan_for(v0, secs1), h1);
    lemma_reschedule_leaves_one_timer(v0, live0, secs1, h1);
    lemma_reschedule_leaves_one_timer(v1, live1, secs2, h2);
}

} // verus!
