//! Rotation decoding for a knob.
//!
//! The pulse counter behind a knob counts within a symmetric range and
//! falls back to zero when it reaches either limit, raising an event. The
//! decoder keeps what the counter lost at the limits, so that the sum of
//! the two follows the knob without bound.
//!
//! The two parts are read one after the other. A limit event between the
//! two reads yields a value that is off by one bound; the next read is
//! right again.

use vstd::prelude::*;

verus! {

/// The bound of the counter range that the knobs are set up with.
pub const DEFAULT_BOUND: i16 = 100;

/// The widest noise filter the counter can apply, in clock cycles.
pub const FILTER_MAX: u16 = 1023;

/// What one limit event adds to the accumulator: the bound for the high
/// limit, its negative for the low limit, both if both were raised.
pub open spec fn limit_delta_of(bound: i16, high_limit: bool, low_limit: bool) -> int {
    (if high_limit {
        bound as int
    } else {
        0
    }) + (if low_limit {
        -(bound as int)
    } else {
        0
    })
}

/// The mathematical content of an [`Encoder`].
pub struct EncoderView {
    /// The counter runs strictly between `-bound` and `bound`.
    pub bound: i16,
    /// What the counter lost at its limits so far.
    pub accumulator: i64,
}

impl EncoderView {
    pub open spec fn wf(self) -> bool {
        self.bound > 0
    }

    /// Whether `raw` is a reading the counter can give.
    pub open spec fn in_range(self, raw: i16) -> bool {
        -self.bound < raw < self.bound
    }

    /// The decoder after a limit event.
    pub open spec fn after_limit_event(self, high_limit: bool, low_limit: bool) -> EncoderView {
        EncoderView {
            accumulator: self.accumulator.wrapping_add(
                limit_delta_of(self.bound, high_limit, low_limit) as i64,
            ),
            ..self
        }
    }

    /// The logical position for a reading of the counter.
    pub open spec fn value(self, raw: i16) -> i64 {
        self.accumulator.wrapping_add(raw as i64)
    }

    /// Whether the accumulator is far enough from the ends of its type
    /// for one more limit event and one more reading to be exact.
    pub open spec fn has_headroom(self) -> bool {
        i64::MIN + 2 * self.bound <= self.accumulator <= i64::MAX - 2 * self.bound
    }

    /// Counter and decoder after one count clockwise: the counter goes up
    /// by one; on reaching the high limit it falls back to zero and the
    /// decoder takes the event.
    pub open spec fn count_up(self, raw: i16) -> (EncoderView, i16) {
        if raw + 1 >= self.bound {
            (self.after_limit_event(true, false), 0i16)
        } else {
            (self, (raw + 1) as i16)
        }
    }

    /// Counter and decoder after one count counter-clockwise.
    pub open spec fn count_down(self, raw: i16) -> (EncoderView, i16) {
        if raw - 1 <= -self.bound {
            (self.after_limit_event(false, true), 0i16)
        } else {
            (self, (raw - 1) as i16)
        }
    }

    /// Counter and decoder after `steps` counts clockwise.
    pub open spec fn turn_up(self, raw: i16, steps: nat) -> (EncoderView, i16)
        decreases steps,
    {
        if steps == 0 {
            (self, raw)
        } else {
            let (next, counter) = self.count_up(raw);
            next.turn_up(counter, (steps - 1) as nat)
        }
    }
}

/// The decoder of one knob: the range of its counter and what the
/// counter lost at its limits.
#[derive(Debug)]
pub struct Encoder {
    bound: i16,
    overflow_accumulator: i64,
}

impl View for Encoder {
    type V = EncoderView;

    closed spec fn view(&self) -> EncoderView {
        EncoderView { bound: self.bound, accumulator: self.overflow_accumulator }
    }
}

/// What one limit event adds to the accumulator.
pub fn limit_delta(bound: i16, high_limit: bool, low_limit: bool) -> (delta: i64)
    ensures
        delta == limit_delta_of(bound, high_limit, low_limit),
{
    let up: i64 = if high_limit {
        bound as i64
    } else {
        0
    };
    let down: i64 = if low_limit {
        -(bound as i64)
    } else {
        0
    };
    up + down
}

/// The logical position: the accumulator plus the reading of the
/// counter, wrapping at the ends of the type.
pub fn logical_value(accumulator: i64, raw_counter: i16) -> (value: i64)
    ensures
        value == accumulator.wrapping_add(raw_counter as i64),
        i64::MIN <= accumulator + raw_counter <= i64::MAX ==> value == accumulator + raw_counter,
{
    accumulator.wrapping_add(raw_counter as i64)
}

/// The filter setting for a noise filter of `width_us` microseconds on a
/// counter clocked at `clock_mhz` megahertz: the width in clock cycles,
/// capped at the widest filter there is.
pub fn filter_threshold(width_us: u16, clock_mhz: u16) -> (cycles: u16)
    ensures
        cycles == if width_us * clock_mhz < FILTER_MAX {
            width_us * clock_mhz
        } else {
            FILTER_MAX as int
        },
{
    assert(width_us * clock_mhz <= 0xffff * 0xffff) by (nonlinear_arith)
        requires
            0 <= width_us <= 0xffff,
            0 <= clock_mhz <= 0xffff,
    ;
    let cycles: u32 = (width_us as u32) * (clock_mhz as u32);
    if cycles < FILTER_MAX as u32 {
        cycles as u16
    } else {
        FILTER_MAX
    }
}

impl Encoder {
    /// Holds of every decoder at all times.
    #[verifier::type_invariant]
    pub open spec fn inv(self) -> bool {
        self@.wf()
    }

    /// A decoder at rest for a counter that runs between `-bound` and
    /// `bound`. There is none for a bound that is not positive.
    pub fn new(bound: i16) -> (encoder: Option<Encoder>)
        ensures
            match encoder {
                Some(e) => bound > 0 && e@ == (EncoderView { bound, accumulator: 0 }),
                None => bound <= 0,
            },
    {
        if bound > 0 {
            Some(Encoder { bound, overflow_accumulator: 0 })
        } else {
            None
        }
    }

    /// Takes a limit event of the counter: the bound is added for the
    /// high limit and taken off for the low limit.
    pub fn on_limit_event(&mut self, high_limit: bool, low_limit: bool)
        ensures
            final(self)@ == old(self)@.after_limit_event(high_limit, low_limit),
            final(self)@.wf(),
    {
        proof {
            use_type_invariant(&*self);
        }
        let delta = limit_delta(self.bound, high_limit, low_limit);
        self.overflow_accumulator = self.overflow_accumulator.wrapping_add(delta);
    }

    /// The logical position for a reading of the counter.
    pub fn get_value(&self, raw_counter: i16) -> (value: i64)
        ensures
            value == self@.value(raw_counter),
    {
        logical_value(self.overflow_accumulator, raw_counter)
    }

    /// The upper limit of the counter.
    pub fn high_limit(&self) -> (limit: i16)
        ensures
            limit == self@.bound,
            limit > 0,
    {
        proof {
            use_type_invariant(self);
        }
        self.bound
    }

    /// The lower limit of the counter.
    pub fn low_limit(&self) -> (limit: i16)
        ensures
            limit == -self@.bound,
            limit < 0,
    {
        proof {
            use_type_invariant(self);
        }
        -self.bound
    }

    /// What the counter lost at its limits so far.
    pub fn accumulator(&self) -> (accumulator: i64)
        ensures
            accumulator == self@.accumulator,
    {
        self.overflow_accumulator
    }
}

/// One count clockwise raises the logical position by exactly one, also
/// where the counter falls back from its high limit to zero.
pub proof fn lemma_count_up_adds_one(e: EncoderView, raw: i16)
    requires
        e.wf(),
        e.in_range(raw),
        e.has_headroom(),
    ensures
        ({
            let (next, counter) = e.count_up(raw);
            &&& next.wf()
            &&& next.in_range(counter)
            &&& next.value(counter) == e.value(raw) + 1
        }),
{
}

/// One count counter-clockwise lowers the logical position by exactly
/// one, also where the counter falls back from its low limit to zero.
pub proof fn lemma_count_down_takes_one(e: EncoderView, raw: i16)
    requires
        e.wf(),
        e.in_range(raw),
        e.has_headroom(),
    ensures
        ({
            let (next, counter) = e.count_down(raw);
            &&& next.wf()
            &&& next.in_range(counter)
            &&& next.value(counter) == e.value(raw) - 1
        }),
{
}

/// Turning on clockwise raises the logical position by one for each
/// count, however often the counter reaches its high limit on the way:
/// the position follows the knob across the limit without a jump.
pub proof fn lemma_turn_up_adds_steps(e: EncoderView, raw: i16, steps: nat)
    requires
        e.wf(),
        e.in_range(raw),
        i64::MIN + 2 * e.bound <= e.accumulator,
        e.accumulator + raw + steps + 3 * e.bound <= i64::MAX,
    ensures
        ({
            let (last, counter) = e.turn_up(raw, steps);
            &&& last.wf()
            &&& last.in_range(counter)
            &&& last.value(counter) == e.value(raw) + steps
        }),
    decreases steps,
{
    if steps > 0 {
        let (next, counter) = e.count_up(raw);
        lemma_count_up_adds_one(e, raw);
        lemma_turn_up_adds_steps(next, counter, (steps - 1) as nat);
    }
}

/// A read that pairs the accumulator from one side of a limit event with
/// the counter from the other side is off by one bound, and never by
/// more.
pub proof fn lemma_torn_read_is_off_by_bound(e: EncoderView, raw: i16, high_limit: bool)
    requires
        e.wf(),
        e.in_range(raw),
        e.has_headroom(),
    ensures
        ({
            let next = e.after_limit_event(high_limit, !high_limit);
            if high_limit {
                e.value(raw) == next.value(raw) - e.bound
            } else {
                e.value(raw) == next.value(raw) + e.bound
            }
        }),
{
}

} // verus!
