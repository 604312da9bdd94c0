//! Logical-time publish schedules for simulated capabilities.
//!
//! A capability declares a publish rate, the controller resolves it to a
//! logical-time deadline schedule once at setup, and every family applies it
//! the same way.

use crate::binary64::Binary64;
use vstd::arithmetic::div_mod::*;
use vstd::arithmetic::mul::*;
use vstd::prelude::*;
use vstd::string::*;

verus! {

/// One declared rate as the host reads it.
///
/// The quotients are what the host's floating-point unit makes of dividing a
/// thousand million nanoseconds, or a thousand milliseconds, by the rate.
#[derive(Clone, Debug)]
pub struct RateReading {
    /// The rate in hertz.
    pub hz: Binary64,
    /// The period in nanoseconds.
    pub period_ns: Binary64,
    /// The period in milliseconds.
    pub period_ms: Binary64,
    /// The rate's decimal rendering, for diagnostics.
    pub text: String,
}

/// Which of the two rates of a schedule a fault is about.
#[derive(Clone, Copy, Debug, PartialEq, Eq, Structural)]
pub enum RateName {
    StepHz,
    PublishRateHz,
}

impl RateName {
    /// The field name the rate is declared under.
    pub open spec fn spec_text(self) -> Seq<char> {
        match self {
            RateName::StepHz => "step_hz"@,
            RateName::PublishRateHz => "publish_rate_hz"@,
        }
    }

    /// The field name the rate is declared under.
    pub fn text(self) -> (name: &'static str)
        ensures
            name@ == self.spec_text(),
    {
        match self {
            RateName::StepHz => "step_hz",
            RateName::PublishRateHz => "publish_rate_hz",
        }
    }
}

/// Why a schedule could not be built or queried.
#[derive(Clone, Debug, PartialEq, Eq)]
pub enum ScheduleFault {
    /// A rate that is not a positive finite number describes no cadence.
    RateNotPositive { capability_id: String, name: RateName },
    /// A rate so slow that its period overflows the nanosecond domain.
    PeriodTooLong { capability_id: String, name: RateName },
    /// A rate so fast that its period rounds to no time at all.
    PeriodTooShort { capability_id: String, name: RateName },
    /// A producer cannot publish faster than its source observes.
    TooFast { capability_id: String, publish_rate: String, step_rate: String },
    /// A source that takes no time to refresh describes no cadence.
    SourcePeriodZero { capability_id: String },
    /// The next deadline lies beyond the nanosecond domain.
    RangeExhausted,
}

/// What a [`ScheduleFault`] says, with its texts as character sequences.
pub ghost enum ScheduleFaultView {
    RateNotPositive { capability_id: Seq<char>, name: RateName },
    PeriodTooLong { capability_id: Seq<char>, name: RateName },
    PeriodTooShort { capability_id: Seq<char>, name: RateName },
    TooFast { capability_id: Seq<char>, publish_rate: Seq<char>, step_rate: Seq<char> },
    SourcePeriodZero { capability_id: Seq<char> },
    RangeExhausted,
}

impl View for ScheduleFault {
    type V = ScheduleFaultView;

    open spec fn view(&self) -> ScheduleFaultView {
        match *self {
            ScheduleFault::RateNotPositive { capability_id, name } =>
                ScheduleFaultView::RateNotPositive { capability_id: capability_id@, name },
            ScheduleFault::PeriodTooLong { capability_id, name } =>
                ScheduleFaultView::PeriodTooLong { capability_id: capability_id@, name },
            ScheduleFault::PeriodTooShort { capability_id, name } =>
                ScheduleFaultView::PeriodTooShort { capability_id: capability_id@, name },
            ScheduleFault::TooFast { capability_id, publish_rate, step_rate } =>
                ScheduleFaultView::TooFast {
                    capability_id: capability_id@,
                    publish_rate: publish_rate@,
                    step_rate: step_rate@,
                },
            ScheduleFault::SourcePeriodZero { capability_id } =>
                ScheduleFaultView::SourcePeriodZero { capability_id: capability_id@ },
            ScheduleFault::RangeExhausted => ScheduleFaultView::RangeExhausted,
        }
    }
}

impl ScheduleFaultView {
    /// The diagnostic an operator reads.
    pub open spec fn text(self) -> Seq<char> {
        match self {
            ScheduleFaultView::RateNotPositive { capability_id, name } =>
                "capability '"@ + capability_id + "' "@ + name.spec_text()
                    + " must be finite and > 0"@,
            ScheduleFaultView::PeriodTooLong { capability_id, name } =>
                "capability '"@ + capability_id + "' "@ + name.spec_text()
                    + " period does not fit in nanoseconds"@,
            ScheduleFaultView::PeriodTooShort { capability_id, name } =>
                "capability '"@ + capability_id + "' "@ + name.spec_text()
                    + " period must be at least 1 ns"@,
            ScheduleFaultView::TooFast { capability_id, publish_rate, step_rate } =>
                "capability '"@ + capability_id + "' publish_rate_hz ("@ + publish_rate
                    + ") must not exceed source step_hz ("@ + step_rate + ")"@,
            ScheduleFaultView::SourcePeriodZero { capability_id } =>
                "capability '"@ + capability_id + "' source period must be > 0 ns"@,
            ScheduleFaultView::RangeExhausted =>
                "sample schedule exhausted its logical-time range"@,
        }
    }
}

impl ScheduleFault {
    /// The diagnostic an operator reads.
    pub fn message(&self) -> (message: String)
        ensures
            message@ == self@.text(),
    {
        match self {
            ScheduleFault::RateNotPositive { capability_id, name } =>
                rate_message(capability_id, *name, " must be finite and > 0"),
            ScheduleFault::PeriodTooLong { capability_id, name } =>
                rate_message(capability_id, *name, " period does not fit in nanoseconds"),
            ScheduleFault::PeriodTooShort { capability_id, name } =>
                rate_message(capability_id, *name, " period must be at least 1 ns"),
            ScheduleFault::TooFast { capability_id, publish_rate, step_rate } => {
                let mut message = "capability '".to_owned();
                message.append(capability_id.as_str());
                message.append("' publish_rate_hz (");
                message.append(publish_rate.as_str());
                message.append(") must not exceed source step_hz (");
                message.append(step_rate.as_str());
                message.append(")");
                message
            },
            ScheduleFault::SourcePeriodZero { capability_id } => {
                let mut message = "capability '".to_owned();
                message.append(capability_id.as_str());
                message.append("' source period must be > 0 ns");
                message
            },
            ScheduleFault::RangeExhausted =>
                "sample schedule exhausted its logical-time range".to_owned(),
        }
    }
}

fn rate_message(capability_id: &String, name: RateName, complaint: &str) -> (message: String)
    ensures
        message@ == "capability '"@ + capability_id@ + "' "@ + name.spec_text() + complaint@,
{
    let mut message = "capability '".to_owned();
    message.append(capability_id.as_str());
    message.append("' ");
    message.append(name.text());
    message.append(complaint);
    message
}

/// The one policy used when a producer reaches a deadline after one or more
/// deadlines have already passed.
///
/// A producer emits at most one sample for a step and advances the phase to
/// the first deadline after that step. It does not emit a burst of catch-up
/// samples, because those samples would all describe the same observation.
#[derive(Clone, Copy, Debug, PartialEq, Eq, Structural)]
pub enum MissedTickPolicy {
    /// Skip missed deadlines and keep the schedule phase on logical time.
    Skip,
}

/// What a schedule holds, as numbers on the logical timeline.
pub ghost struct ScheduleState {
    pub period: nat,
    pub anchor: nat,
    pub next_deadline: nat,
    pub exhausted: bool,
}

impl ScheduleState {
    /// The schedule whose first deadline is at `anchor`.
    pub open spec fn anchored(period: nat, anchor: nat) -> ScheduleState {
        ScheduleState { period, anchor, next_deadline: anchor, exhausted: false }
    }

    /// The period is positive, every deadline is a whole number of periods
    /// after the anchor, and everything lies in the nanosecond domain.
    pub open spec fn valid(self) -> bool {
        &&& 0 < self.period <= u64::MAX
        &&& self.anchor <= self.next_deadline <= u64::MAX
        &&& (self.next_deadline - self.anchor) % (self.period as int) == 0
    }

    /// The first deadline after `time`.
    pub open spec fn deadline_after(self, time: nat) -> nat
        recommends
            self.anchor <= time,
    {
        (self.anchor + ((time - self.anchor) / (self.period as int) + 1) * self.period) as nat
    }

    /// Whether a sample is due at `time`, or that no deadline after it can be
    /// expressed.
    pub open spec fn due_at(self, time: nat) -> Result<bool, ScheduleFaultView> {
        if self.exhausted {
            Err(ScheduleFaultView::RangeExhausted)
        } else if time < self.next_deadline {
            Ok(false)
        } else if self.deadline_after(time) <= u64::MAX {
            Ok(true)
        } else {
            Err(ScheduleFaultView::RangeExhausted)
        }
    }

    /// The schedule once `time` has been asked about.
    pub open spec fn queried_at(self, time: nat) -> ScheduleState {
        if self.exhausted || time < self.next_deadline {
            self
        } else if self.deadline_after(time) <= u64::MAX {
            ScheduleState { next_deadline: self.deadline_after(time), ..self }
        } else {
            ScheduleState { exhausted: true, ..self }
        }
    }

    /// The schedule once the `steps + 1` instants `start`, `start + step`, ...,
    /// `start + steps * step` have been asked about in turn.
    pub open spec fn stepped(self, start: nat, step: nat, steps: nat) -> ScheduleState
        decreases steps,
    {
        if steps == 0 {
            self.queried_at(start)
        } else {
            self.stepped(start, step, (steps - 1) as nat).queried_at(start + steps * step)
        }
    }

    /// How many of those instants a sample was due at.
    pub open spec fn samples(self, start: nat, step: nat, steps: nat) -> nat
        decreases steps,
    {
        if steps == 0 {
            if self.due_at(start) == Ok::<bool, ScheduleFaultView>(true) {
                1
            } else {
                0
            }
        } else {
            let before = (steps - 1) as nat;
            self.samples(start, step, before) + if self.stepped(start, step, before).due_at(
                start + steps * step,
            ) == Ok::<bool, ScheduleFaultView>(true) {
                1nat
            } else {
                0nat
            }
        }
    }
}

/// The nanosecond period a rate reading describes: the host's quotient rounded
/// to the nearest nanosecond, which must be at least one and fit.
pub open spec fn period_of(
    capability_id: Seq<char>,
    name: RateName,
    quotient: Binary64,
) -> Result<u64, ScheduleFaultView> {
    if !quotient.finite() {
        Err(ScheduleFaultView::PeriodTooLong { capability_id, name })
    } else if quotient.below_zero() || quotient.rounded_magnitude() == 0 {
        Err(ScheduleFaultView::PeriodTooShort { capability_id, name })
    } else if quotient.rounded_magnitude() > u64::MAX {
        Err(ScheduleFaultView::PeriodTooLong { capability_id, name })
    } else {
        Ok(quotient.rounded_magnitude() as u64)
    }
}

/// The period of a validated rate, or why the rate describes none.
pub open spec fn rate_period(
    capability_id: Seq<char>,
    name: RateName,
    rate: RateReading,
) -> Result<u64, ScheduleFaultView> {
    if !rate.hz.finite() || !rate.hz.above_zero() {
        Err(ScheduleFaultView::RateNotPositive { capability_id, name })
    } else {
        period_of(capability_id, name, rate.period_ns)
    }
}

/// A publish cadence expressed as nanosecond deadlines on a logical timeline.
///
/// The schedule keeps its phase instead of reducing a requested rate to an
/// integer step divisor. For example, a 30 Hz schedule on a 100 Hz source has
/// deadlines at approximately 0, 33.3, 66.7, 100, ... milliseconds, producing
/// 4/3/3-step spacing (and the corresponding 3/3/4 rotation) over time.
#[derive(Debug, PartialEq, Eq)]
pub struct SampleSchedule {
    period_ns: u64,
    anchor_ns: u64,
    next_deadline_ns: u64,
    exhausted: bool,
}

impl Clone for SampleSchedule {
    fn clone(&self) -> (copy: Self)
        ensures
            copy@ == self@,
    {
        proof {
            use_type_invariant(self);
        }
        SampleSchedule {
            period_ns: self.period_ns,
            anchor_ns: self.anchor_ns,
            next_deadline_ns: self.next_deadline_ns,
            exhausted: self.exhausted,
        }
    }
}

impl View for SampleSchedule {
    type V = ScheduleState;

    closed spec fn view(&self) -> ScheduleState {
        ScheduleState {
            period: self.period_ns as nat,
            anchor: self.anchor_ns as nat,
            next_deadline: self.next_deadline_ns as nat,
            exhausted: self.exhausted,
        }
    }
}

impl SampleSchedule {
    #[verifier::type_invariant]
    spec fn holds_a_valid_state(self) -> bool {
        self@.valid()
    }

    /// What building a schedule from a pair of rates comes to.
    pub open spec fn from_rates(
        capability_id: Seq<char>,
        step: RateReading,
        publish: RateReading,
    ) -> Result<ScheduleState, ScheduleFaultView> {
        if !step.hz.finite() || !step.hz.above_zero() {
            Err(ScheduleFaultView::RateNotPositive { capability_id, name: RateName::StepHz })
        } else if !publish.hz.finite() || !publish.hz.above_zero() {
            Err(ScheduleFaultView::RateNotPositive { capability_id, name: RateName::PublishRateHz })
        } else {
            match (
                period_of(capability_id, RateName::StepHz, step.period_ns),
                period_of(capability_id, RateName::PublishRateHz, publish.period_ns),
            ) {
                (Err(fault), _) => Err(fault),
                (_, Err(fault)) => Err(fault),
                (Ok(source_period), Ok(publish_period)) => {
                    if publish.hz.greater_than(step.hz) || publish_period < source_period {
                        Err(
                            ScheduleFaultView::TooFast {
                                capability_id,
                                publish_rate: publish.text@,
                                step_rate: step.text@,
                            },
                        )
                    } else {
                        Ok(ScheduleState::anchored(publish_period as nat, 0))
                    }
                },
            }
        }
    }

    /// What building a schedule from a source period and a rate comes to: the
    /// slower of the two cadences.
    pub open spec fn from_source(
        capability_id: Seq<char>,
        source_period_ns: u64,
        publish: RateReading,
    ) -> Result<ScheduleState, ScheduleFaultView> {
        if source_period_ns == 0 {
            Err(ScheduleFaultView::SourcePeriodZero { capability_id })
        } else {
            match rate_period(capability_id, RateName::PublishRateHz, publish) {
                Err(fault) => Err(fault),
                Ok(publish_period) => Ok(
                    ScheduleState::anchored(
                        if publish_period < source_period_ns {
                            source_period_ns as nat
                        } else {
                            publish_period as nat
                        },
                        0,
                    ),
                ),
            }
        }
    }

    /// Validate a requested cadence and build its logical-time schedule.
    ///
    /// `step` is the source cadence. A producer cannot publish faster than the
    /// source can provide observations, and both rates must be finite and
    /// positive. Rates are converted to nanoseconds explicitly, with a checked,
    /// nearest-nanosecond period.
    pub fn new(capability_id: &str, step: &RateReading, publish: &RateReading) -> (result: Result<
        SampleSchedule,
        ScheduleFault,
    >)
        ensures
            match result {
                Ok(schedule) => Self::from_rates(capability_id@, *step, *publish) == Ok::<
                    ScheduleState,
                    ScheduleFaultView,
                >(schedule@) && schedule@.valid(),
                Err(fault) => Self::from_rates(capability_id@, *step, *publish) == Err::<
                    ScheduleState,
                    ScheduleFaultView,
                >(fault@),
            },
    {
        if let Err(fault) = validate_rate(capability_id, RateName::StepHz, step.hz) {
            return Err(fault);
        }
        if let Err(fault) = validate_rate(capability_id, RateName::PublishRateHz, publish.hz) {
            return Err(fault);
        }
        let source_period_ns: u64 = match period_ns(
            capability_id,
            RateName::StepHz,
            step.period_ns,
        ) {
            Ok(period) => period,
            Err(fault) => return Err(fault),
        };
        let publish_period_ns: u64 = match period_ns(
            capability_id,
            RateName::PublishRateHz,
            publish.period_ns,
        ) {
            Ok(period) => period,
            Err(fault) => return Err(fault),
        };
        if publish.hz.exceeds(step.hz) || publish_period_ns < source_period_ns {
            return Err(
                ScheduleFault::TooFast {
                    capability_id: capability_id.to_owned(),
                    publish_rate: publish.text.clone(),
                    step_rate: step.text.clone(),
                },
            );
        }
        Ok(Self::from_periods(publish_period_ns))
    }

    /// Build a schedule from the source's effective period in nanoseconds.
    ///
    /// This is what a Webots device needs: its requested millisecond period was
    /// quantized to the world's basic time step, so its cadence is not
    /// represented by a floating point rate. When that effective period is
    /// slower than the requested publish cadence, the schedule uses the source
    /// period rather than repeating one observation.
    pub fn from_source_period_ns(
        capability_id: &str,
        source_period_ns: u64,
        publish: &RateReading,
    ) -> (result: Result<SampleSchedule, ScheduleFault>)
        ensures
            match result {
                Ok(schedule) => Self::from_source(capability_id@, source_period_ns, *publish)
                    == Ok::<ScheduleState, ScheduleFaultView>(schedule@) && schedule@.valid(),
                Err(fault) => Self::from_source(capability_id@, source_period_ns, *publish)
                    == Err::<ScheduleState, ScheduleFaultView>(fault@),
            },
    {
        if source_period_ns == 0 {
            return Err(ScheduleFault::SourcePeriodZero { capability_id: capability_id.to_owned() });
        }
        if let Err(fault) = validate_rate(capability_id, RateName::PublishRateHz, publish.hz) {
            return Err(fault);
        }
        let publish_period_ns: u64 = match period_ns(
            capability_id,
            RateName::PublishRateHz,
            publish.period_ns,
        ) {
            Ok(period) => period,
            Err(fault) => return Err(fault),
        };
        let effective_period_ns: u64 = if publish_period_ns < source_period_ns {
            source_period_ns
        } else {
            publish_period_ns
        };
        Ok(Self::from_periods(effective_period_ns))
    }

    /// A schedule of the given period whose first deadline is the beginning of
    /// the timeline.
    pub fn from_periods(period_ns: u64) -> (schedule: SampleSchedule)
        requires
            period_ns > 0,
        ensures
            schedule@ == ScheduleState::anchored(period_ns as nat, 0),
            schedule@.valid(),
    {
        proof {
            lemma_small_mod(0, period_ns as nat);
        }
        SampleSchedule { period_ns, anchor_ns: 0, next_deadline_ns: 0, exhausted: false }
    }

    /// The effective publish cadence in the framework's nanosecond time domain.
    pub fn period_ns(&self) -> (period_ns: u64)
        ensures
            period_ns == self@.period,
            self@.valid(),
    {
        proof {
            use_type_invariant(self);
        }
        self.period_ns
    }

    /// The one missed-deadline policy all schedules apply.
    pub fn missed_tick_policy(&self) -> (policy: MissedTickPolicy)
        ensures
            policy == MissedTickPolicy::Skip,
    {
        MissedTickPolicy::Skip
    }

    /// Re-anchor the first deadline at `logical_time_ns`.
    ///
    /// Call this when a producer starts a new logical timeline. The first
    /// source step at the anchor is due, and subsequent deadlines retain the
    /// requested phase regardless of the source step's integer cadence.
    pub fn reanchor(&mut self, logical_time_ns: u64)
        ensures
            final(self)@ == ScheduleState::anchored(old(self)@.period, logical_time_ns as nat),
            final(self)@.valid(),
    {
        proof {
            use_type_invariant(&*self);
            lemma_small_mod(0, self.period_ns as nat);
        }
        *self = SampleSchedule {
            period_ns: self.period_ns,
            anchor_ns: logical_time_ns,
            next_deadline_ns: logical_time_ns,
            exhausted: false,
        };
    }

    /// Re-anchor with the first deadline after a source refresh delay.
    pub fn reanchor_after(&mut self, logical_time_ns: u64, delay_ns: u64) -> (result: Result<
        (),
        ScheduleFault,
    >)
        ensures
            match result {
                Ok(()) => logical_time_ns + delay_ns <= u64::MAX && final(self)@
                    == ScheduleState::anchored(
                    old(self)@.period,
                    (logical_time_ns + delay_ns) as nat,
                ),
                Err(fault) => logical_time_ns + delay_ns > u64::MAX && fault@
                    == ScheduleFaultView::RangeExhausted && final(self)@ == old(self)@,
            },
            final(self)@.valid(),
    {
        proof {
            use_type_invariant(&*self);
        }
        match logical_time_ns.checked_add(delay_ns) {
            Some(first_deadline) => {
                self.reanchor(first_deadline);
                Ok(())
            },
            None => Err(ScheduleFault::RangeExhausted),
        }
    }

    /// Re-anchor at the beginning of a logical timeline.
    pub fn reset(&mut self)
        ensures
            final(self)@ == ScheduleState::anchored(old(self)@.period, 0),
            final(self)@.valid(),
    {
        self.reanchor(0);
    }

    /// Whether a sample is due at `logical_time_ns`, advancing this schedule's
    /// phase when it is.
    ///
    /// Under [`MissedTickPolicy::Skip`], a late call emits one sample and
    /// jumps directly to the first deadline after the current logical time.
    #[must_use]
    pub fn is_due_at(&mut self, logical_time_ns: u64) -> (result: Result<bool, ScheduleFault>)
        ensures
            match result {
                Ok(due) => old(self)@.due_at(logical_time_ns as nat) == Ok::<
                    bool,
                    ScheduleFaultView,
                >(due),
                Err(fault) => old(self)@.due_at(logical_time_ns as nat) == Err::<
                    bool,
                    ScheduleFaultView,
                >(fault@),
            },
            final(self)@ == old(self)@.queried_at(logical_time_ns as nat),
            old(self)@.valid(),
            final(self)@.valid(),
    {
        proof {
            use_type_invariant(&*self);
        }
        if self.exhausted {
            return Err(ScheduleFault::RangeExhausted);
        }
        if logical_time_ns < self.next_deadline_ns {
            return Ok(false);
        }
        let elapsed_ns: u64 = logical_time_ns - self.anchor_ns;
        let periods_elapsed: u64 = elapsed_ns / self.period_ns;
        let ghost following = self@.deadline_after(logical_time_ns as nat);
        proof {
            law_deadline_after_is_the_first(self@, logical_time_ns as nat);
            lemma_mul_inequality(1, periods_elapsed + 1, self.period_ns as int);
        }
        let next_deadline: Option<u64> = match periods_elapsed.checked_add(1) {
            Some(next_period) => match next_period.checked_mul(self.period_ns) {
                Some(offset_ns) => self.anchor_ns.checked_add(offset_ns),
                None => None,
            },
            None => None,
        };
        assert(following == self.anchor_ns + (periods_elapsed + 1) * self.period_ns);
        match next_deadline {
            Some(next_deadline_ns) => {
                self.next_deadline_ns = next_deadline_ns;
                Ok(true)
            },
            None => {
                proof {
                    if periods_elapsed == u64::MAX {
                        assert((periods_elapsed + 1) * self.period_ns > u64::MAX)
                            by (nonlinear_arith)
                            requires
                                periods_elapsed == u64::MAX,
                                self.period_ns >= 1,
                        ;
                    }
                }
                self.exhausted = true;
                Err(ScheduleFault::RangeExhausted)
            },
        }
    }
}

fn validate_rate(capability_id: &str, name: RateName, hz: Binary64) -> (result: Result<
    (),
    ScheduleFault,
>)
    ensures
        match result {
            Ok(()) => hz.finite() && hz.above_zero(),
            Err(fault) => !(hz.finite() && hz.above_zero()) && fault@
                == (ScheduleFaultView::RateNotPositive { capability_id: capability_id@, name }),
        },
{
    if !hz.is_finite() || !hz.is_positive() {
        return Err(
            ScheduleFault::RateNotPositive { capability_id: capability_id.to_owned(), name },
        );
    }
    Ok(())
}

/// The nearest whole nanosecond period of a rate whose quotient is `quotient`.
fn period_ns(capability_id: &str, name: RateName, quotient: Binary64) -> (result: Result<
    u64,
    ScheduleFault,
>)
    ensures
        match result {
            Ok(period) => period_of(capability_id@, name, quotient) == Ok::<u64, ScheduleFaultView>(
                period,
            ) && period > 0,
            Err(fault) => period_of(capability_id@, name, quotient) == Err::<
                u64,
                ScheduleFaultView,
            >(fault@),
        },
{
    if !quotient.is_finite() {
        return Err(ScheduleFault::PeriodTooLong { capability_id: capability_id.to_owned(), name });
    }
    if quotient.is_negative() {
        return Err(ScheduleFault::PeriodTooShort { capability_id: capability_id.to_owned(), name });
    }
    match quotient.round_magnitude() {
        None => Err(ScheduleFault::PeriodTooLong { capability_id: capability_id.to_owned(), name }),
        Some(period) => {
            if period == 0 {
                return Err(
                    ScheduleFault::PeriodTooShort { capability_id: capability_id.to_owned(), name },
                );
            }
            Ok(period)
        },
    }
}

/// A late query jumps directly to the first deadline after it: the deadline
/// lies after the instant, the one before it does not, and the phase is kept.
pub proof fn law_deadline_after_is_the_first(state: ScheduleState, time: nat)
    requires
        state.valid(),
        state.anchor <= time,
    ensures
        state.deadline_after(time) > time,
        state.deadline_after(time) - state.period <= time,
        (state.deadline_after(time) - state.anchor) % (state.period as int) == 0,
        state.deadline_after(time) >= state.anchor + state.period,
{
    let p = state.period as int;
    let elapsed = time - state.anchor;
    let q = elapsed / p;
    lemma_fundamental_div_mod(elapsed, p);
    lemma_mod_bound(elapsed, p);
    lemma_div_pos_is_pos(elapsed, p);
    assert((q + 1) * p == p * q + p) by (nonlinear_arith);
    lemma_mod_multiples_basic(q + 1, p);
    lemma_mul_nonnegative(p, q);
}

/// The deadline after the anchor is one period later.
pub proof fn lemma_first_deadline(period: nat, anchor: nat)
    requires
        0 < period <= u64::MAX,
        anchor <= u64::MAX,
    ensures
        ScheduleState::anchored(period, anchor).deadline_after(anchor) == anchor + period,
{
    lemma_small_mod(0, period);
    law_deadline_after_is_the_first(ScheduleState::anchored(period, anchor), anchor);
}

/// Every query keeps the schedule valid and on its phase.
pub proof fn law_queries_keep_the_schedule_valid(state: ScheduleState, time: nat)
    requires
        state.valid(),
    ensures
        state.queried_at(time).valid(),
        state.queried_at(time).period == state.period,
        state.queried_at(time).anchor == state.anchor,
        state.queried_at(time).next_deadline >= state.next_deadline,
{
    if !state.exhausted && time >= state.next_deadline {
        law_deadline_after_is_the_first(state, time);
    }
}

/// One step yields at most one sample: once an instant has been answered,
/// neither it nor any earlier instant is due again.
pub proof fn law_a_step_yields_one_sample(state: ScheduleState, time: nat, again: nat)
    requires
        state.valid(),
        again <= time,
        state.due_at(time) == Ok::<bool, ScheduleFaultView>(true),
    ensures
        state.queried_at(time).due_at(again) == Ok::<bool, ScheduleFaultView>(false),
{
    law_deadline_after_is_the_first(state, time);
}

/// Exhaustion is terminal: every further query fails and changes nothing,
/// until the schedule is re-anchored.
pub proof fn law_exhaustion_is_terminal(state: ScheduleState, time: nat, later: nat)
    requires
        state.valid(),
        state.due_at(time) is Err,
    ensures
        state.queried_at(time).due_at(later) is Err,
        state.queried_at(time).queried_at(later) == state.queried_at(time),
        ScheduleState::anchored(state.queried_at(time).period, 0).due_at(0) == Ok::<
            bool,
            ScheduleFaultView,
        >(true),
{
    lemma_first_deadline(state.period, 0);
}

/// The phase is never reduced to a step divisor: over any run of a source that
/// steps no slower than the schedule publishes, the number of samples is the
/// number of periods the run spans, plus the one at its start.
pub proof fn law_long_run_cadence(period: nat, anchor: nat, step: nat, steps: nat)
    requires
        0 < step <= period,
        anchor + steps * step + period <= u64::MAX,
    ensures
        ScheduleState::anchored(period, anchor).samples(anchor, step, steps) == (steps * step)
            / period + 1,
        ScheduleState::anchored(period, anchor).stepped(anchor, step, steps) == (ScheduleState {
            next_deadline: (anchor + ((steps * step) / period + 1) * period) as nat,
            ..ScheduleState::anchored(period, anchor)
        }),
    decreases steps,
{
    let start = ScheduleState::anchored(period, anchor);
    let p = period as int;
    if steps == 0 {
        assert(steps * step == 0) by (nonlinear_arith)
            requires
                steps == 0,
        ;
        lemma_basic_div(0, p);
        lemma_first_deadline(period, anchor);
        lemma_mul_basics(p);
    } else {
        let before = (steps - 1) as nat;
        let elapsed = steps * step;
        let earlier = before * step;
        assert(elapsed == earlier + step) by (nonlinear_arith)
            requires
                elapsed == steps * step,
                earlier == before * step,
                before == steps - 1,
        ;
        law_long_run_cadence(period, anchor, step, before);
        let state = start.stepped(anchor, step, before);
        let time = anchor + elapsed;
        let q = earlier as int / p;
        let r = elapsed as int / p;
        lemma_fundamental_div_mod(earlier as int, p);
        lemma_fundamental_div_mod(elapsed as int, p);
        lemma_mod_bound(earlier as int, p);
        lemma_mod_bound(elapsed as int, p);
        assert((q + 1) * p == p * q + p) by (nonlinear_arith);
        assert((r + 1) * p == p * r + p) by (nonlinear_arith);
        if time < state.next_deadline {
            assert(r == q) by (nonlinear_arith)
                requires
                    p > 0,
                    p * r <= elapsed,
                    elapsed < p * r + p,
                    elapsed < p * q + p,
                    p * q <= elapsed,
            ;
        } else {
            assert(r == q + 1) by (nonlinear_arith)
                requires
                    p > 0,
                    p * r <= elapsed,
                    elapsed < p * r + p,
                    elapsed >= p * q + p,
                    elapsed < p * q + p + p,
            ;
            assert(state.deadline_after(time) <= u64::MAX);
        }
    }
}

/// A sample is due from a deadline on and not before it. Taking it moves the
/// schedule to the one instant of its phase within a period after the step, and
/// nothing else of it; the query fails only where no instant of its phase after
/// the step can be told any more.
pub proof fn law_a_sample_is_due_from_the_deadline_on(state: ScheduleState, time: nat)
    requires
        state.valid(),
        !state.exhausted,
    ensures
        time < state.next_deadline ==> state.due_at(time) == Ok::<bool, ScheduleFaultView>(false)
            && state.queried_at(time) == state,
        time >= state.next_deadline && state.due_at(time) is Ok ==> {
            let next = state.queried_at(time).next_deadline;
            &&& state.due_at(time) == Ok::<bool, ScheduleFaultView>(true)
            &&& time < next <= time + state.period
            &&& next <= u64::MAX
            &&& (next - state.anchor) % (state.period as int) == 0
            &&& state.queried_at(time) == (ScheduleState { next_deadline: next, ..state })
        },
        state.due_at(time) is Err ==> {
            &&& time >= state.next_deadline
            &&& state.due_at(time) == Err::<bool, _>(ScheduleFaultView::RangeExhausted)
            &&& state.queried_at(time) == (ScheduleState { exhausted: true, ..state })
            &&& forall|instant: int|
                time < instant <= u64::MAX ==> #[trigger] ((instant - state.anchor)
                    % (state.period as int)) != 0
        },
{
    if time >= state.next_deadline {
        law_deadline_after_is_the_first(state, time);
        let p = state.period as int;
        let deadline = state.deadline_after(time) as int;
        if deadline > u64::MAX {
            assert forall|instant: int| time < instant <= u64::MAX implies #[trigger] ((instant
                - state.anchor) % p) != 0 by {
                if (instant - state.anchor) % p == 0 {
                    let far = deadline - state.anchor;
                    let near = instant - state.anchor;
                    lemma_fundamental_div_mod(far, p);
                    lemma_fundamental_div_mod(near, p);
                    let a = far / p;
                    let b = near / p;
                    assert(false) by (nonlinear_arith)
                        requires
                            0 < p * a - p * b < p,
                            p > 0,
                    ;
                }
            }
        }
    }
}

/// A rate describes the whole number of nanoseconds nearest to the host's
/// quotient, when the rate is a positive finite number and that number is at
/// least one and below the end of the 64-bit domain.
pub proof fn law_a_rate_describes_the_nearest_period(
    capability_id: Seq<char>,
    name: RateName,
    rate: RateReading,
)
    ensures
        ({
            let one = crate::binary64::one_unit();
            let quotient = rate.period_ns;
            let valid = rate.hz.finite() && rate.hz.above_zero();
            let long = !quotient.finite() || !quotient.below_zero() && quotient.magnitude()
                >= 0x1_0000_0000_0000_0000 * one;
            let short = quotient.below_zero() || 2 * quotient.magnitude() < one;
            let period = rate_period(capability_id, name, rate);
            &&& !valid ==> period == Err::<u64, _>(
                ScheduleFaultView::RateNotPositive { capability_id, name },
            )
            &&& valid && long ==> period == Err::<u64, _>(
                ScheduleFaultView::PeriodTooLong { capability_id, name },
            )
            &&& valid && quotient.finite() && short ==> period == Err::<u64, _>(
                ScheduleFaultView::PeriodTooShort { capability_id, name },
            )
            &&& valid && !long && !short ==> period is Ok
            &&& period matches Ok(nearest) ==> {
                &&& nearest > 0
                &&& 2 * quotient.magnitude() < (2 * nearest + 1) * one
                &&& (2 * nearest) * one <= 2 * quotient.magnitude() + one
            }
        }),
{
    let one = crate::binary64::one_unit() as int;
    vstd::arithmetic::power2::lemma_pow2_pos(crate::binary64::ONE_SCALE as nat);
    let quotient = rate.period_ns;
    crate::binary64::law_rounding_is_nearest(quotient);
    crate::binary64::law_rounding_fits_below_the_limit(quotient);
    let r = quotient.rounded_magnitude() as int;
    if r >= 1 {
        assert((2 * r) * one >= 2 * one) by (nonlinear_arith)
            requires
                r >= 1,
                one > 0,
        ;
    } else {
        assert((2 * r + 1) * one == one) by (nonlinear_arith)
            requires
                r == 0,
        ;
    }
}

/// A device's schedule starts at the beginning of the timeline at the slower of
/// two cadences: the device's own, and the one nearest to the publish rate.
pub proof fn law_a_device_schedule_is_the_slower_cadence(
    capability_id: Seq<char>,
    source_period_ns: u64,
    publish: RateReading,
)
    ensures
        ({
            let one = crate::binary64::one_unit();
            let quotient = publish.period_ns;
            let schedule = SampleSchedule::from_source(capability_id, source_period_ns, publish);
            &&& source_period_ns == 0 ==> schedule == Err::<ScheduleState, _>(
                ScheduleFaultView::SourcePeriodZero { capability_id },
            )
            &&& source_period_ns > 0 ==> (schedule is Ok <==> rate_period(
                capability_id,
                RateName::PublishRateHz,
                publish,
            ) is Ok)
            &&& schedule matches Ok(state) ==> {
                &&& state.anchor == 0 && state.next_deadline == 0 && !state.exhausted
                &&& publish.hz.finite() && publish.hz.above_zero()
                &&& state.period >= source_period_ns
                &&& 2 * quotient.magnitude() < (2 * state.period + 1) * one
                &&& state.period == source_period_ns || (2 * state.period) * one <= 2
                    * quotient.magnitude() + one
            }
        }),
{
    law_a_rate_describes_the_nearest_period(capability_id, RateName::PublishRateHz, publish);
    if let Ok(state) = SampleSchedule::from_source(capability_id, source_period_ns, publish) {
        let one = crate::binary64::one_unit() as int;
        let nearest = rate_period(capability_id, RateName::PublishRateHz, publish)->Ok_0 as int;
        let p = state.period as int;
        assert((2 * nearest + 1) * one <= (2 * p + 1) * one) by (nonlinear_arith)
            requires
                nearest <= p,
                one >= 0,
        ;
    }
}

/// A schedule of two rates starts at the beginning of the timeline at the
/// period nearest to the publish rate, and neither rate nor period is faster
/// than the source's; a faster one is refused.
pub proof fn law_a_schedule_is_no_faster_than_its_source(
    capability_id: Seq<char>,
    step: RateReading,
    publish: RateReading,
)
    ensures
        ({
            let one = crate::binary64::one_unit();
            let source = rate_period(capability_id, RateName::StepHz, step);
            let own = rate_period(capability_id, RateName::PublishRateHz, publish);
            let schedule = SampleSchedule::from_rates(capability_id, step, publish);
            &&& schedule matches Ok(state) ==> {
                &&& state.anchor == 0 && state.next_deadline == 0 && !state.exhausted
                &&& step.hz.finite() && step.hz.above_zero()
                &&& publish.hz.finite() && publish.hz.above_zero()
                &&& !publish.hz.greater_than(step.hz)
                &&& 2 * publish.period_ns.magnitude() < (2 * state.period + 1) * one
                &&& (2 * state.period) * one <= 2 * publish.period_ns.magnitude() + one
                &&& 2 * step.period_ns.magnitude() < (2 * state.period + 1) * one
            }
            &&& source is Ok && own is Ok && (publish.hz.greater_than(step.hz) || own->Ok_0
                < source->Ok_0) ==> schedule == Err::<ScheduleState, _>(
                ScheduleFaultView::TooFast {
                    capability_id,
                    publish_rate: publish.text@,
                    step_rate: step.text@,
                },
            )
            &&& source is Ok && own is Ok && !publish.hz.greater_than(step.hz) && own->Ok_0
                >= source->Ok_0 ==> schedule is Ok
            &&& !(step.hz.finite() && step.hz.above_zero()) ==> schedule == Err::<
                ScheduleState,
                _,
            >(ScheduleFaultView::RateNotPositive { capability_id, name: RateName::StepHz })
            &&& step.hz.finite() && step.hz.above_zero() && !(publish.hz.finite()
                && publish.hz.above_zero()) ==> schedule == Err::<ScheduleState, _>(
                ScheduleFaultView::RateNotPositive { capability_id, name: RateName::PublishRateHz },
            )
        }),
{
    law_a_rate_describes_the_nearest_period(capability_id, RateName::StepHz, step);
    law_a_rate_describes_the_nearest_period(capability_id, RateName::PublishRateHz, publish);
    if let Ok(state) = SampleSchedule::from_rates(capability_id, step, publish) {
        let one = crate::binary64::one_unit() as int;
        let source = rate_period(capability_id, RateName::StepHz, step)->Ok_0 as int;
        let p = state.period as int;
        assert((2 * source + 1) * one <= (2 * p + 1) * one) by (nonlinear_arith)
            requires
                source <= p,
                one >= 0,
        ;
    }
}

} // verus!
