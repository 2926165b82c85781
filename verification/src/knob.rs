//! The step from a knob reading to an action on its light.

use crate::action::Action;
use crate::device::{Device, DeviceView};
use vstd::prelude::*;

verus! {

/// The least time, in milliseconds, between two transitions that a knob
/// causes.
pub const DEBOUNCE_MS: u64 = 100;

/// The time from `last` to `now`; none where the clock reads earlier than
/// it did.
pub open spec fn elapsed(now: u64, last: u64) -> int {
    if now >= last {
        now - last
    } else {
        0
    }
}

/// Whether a reading leads to a transition: the knob has moved since the
/// last reading, and the last transition lies at least the debounce
/// interval back.
pub open spec fn knob_applies(value: i64, now: u64, last_time: u64, last_value: i64) -> bool {
    value != last_value && elapsed(now, last_time) >= DEBOUNCE_MS
}

/// The action of a knob that has moved: up where the reading rose, down
/// where it fell.
pub open spec fn knob_action(value: i64, last_value: i64) -> Action {
    if value > last_value {
        Action::Up
    } else {
        Action::Down
    }
}

/// The light after a reading: where the reading leads to a transition,
/// the light after a call for the knob's action, which the light may turn
/// down; the light as it was otherwise.
pub open spec fn light_after_knob(
    light: DeviceView,
    value: i64,
    now: u64,
    last_time: u64,
    last_value: i64,
) -> DeviceView {
    if knob_applies(value, now, last_time, last_value) {
        light.after(knob_action(value, last_value), None)
    } else {
        light
    }
}

/// The time of the last transition after a reading.
pub open spec fn time_after_knob(value: i64, now: u64, last_time: u64, last_value: i64) -> u64 {
    if knob_applies(value, now, last_time, last_value) {
        now
    } else {
        last_time
    }
}

/// Takes one reading of a knob, at time `now` in milliseconds, and moves
/// the light one step where the reading calls for it. The reading is
/// remembered in any case; the time only where a transition was due.
pub fn light_update(
    light: &mut Device,
    encoder_value: i64,
    now: u64,
    last_encoder_time: &mut u64,
    last_encoder_value: &mut i64,
)
    ensures
        final(light)@.wf(),
        final(light)@ == light_after_knob(
            old(light)@,
            encoder_value,
            now,
            *old(last_encoder_time),
            *old(last_encoder_value),
        ),
        *final(last_encoder_time) == time_after_knob(
            encoder_value,
            now,
            *old(last_encoder_time),
            *old(last_encoder_value),
        ),
        *final(last_encoder_value) == encoder_value,
{
    if encoder_value != *last_encoder_value {
        let since: u64 = if now >= *last_encoder_time {
            now - *last_encoder_time
        } else {
            0
        };
        if since >= DEBOUNCE_MS {
            if encoder_value > *last_encoder_value {
                let _ = light.take_action(Action::Up, None);
            } else {
                let _ = light.take_action(Action::Down, None);
            }
            *last_encoder_time = now;
        }
        *last_encoder_value = encoder_value;
    }
    proof {
        use_type_invariant(&*light);
    }
}

} // verus!
