//! The dimmer state machine of one light.
//!
//! A light sits on one step of a fixed table of duty percentages. Actions
//! move it along the table; the actuation side picks up the new duty once
//! per change.

use crate::action::Action;
use vstd::prelude::*;

verus! {

/// Why an action was not applied.
#[derive(Clone, Copy, Debug, PartialEq, Eq, Structural)]
pub enum DeviceError {
    /// The light does not accept this action.
    InvalidAction,
    /// `SetTarget` came without a step, or with one beyond the table.
    InvalidTarget,
}

/// Why a configuration was turned down.
#[derive(Clone, Copy, Debug, PartialEq, Eq, Structural)]
pub enum ConfigError {
    /// The duty table has no entry.
    EmptyDutyTable,
    /// An entry of the duty table is above 100 percent.
    DutyCycleOutOfRange,
    /// The step taken on `On` lies beyond the table.
    DefaultTargetOutOfRange,
}

/// The mathematical content of a [`Device`].
#[verifier::ext_equal]
pub struct DeviceView {
    pub name: Seq<char>,
    pub action: Action,
    pub available_actions: Set<Action>,
    pub default_target: nat,
    pub duty_cycles: Seq<u32>,
    pub target: nat,
    pub frequency: u32,
    pub updated: bool,
}

/// The hardware duty for a percentage of the full scale `max_duty`,
/// rounded down.
pub open spec fn scaled_duty(percentage: u32, max_duty: u32) -> int {
    percentage * max_duty / 100
}

/// What stands in the way of a configuration, checked in this order: an
/// empty table, an entry above 100, a default step beyond the table.
pub open spec fn config_error(duty_cycles: Seq<u32>, default_target: usize) -> Option<ConfigError> {
    if duty_cycles.len() == 0 {
        Some(ConfigError::EmptyDutyTable)
    } else if exists|i: int| 0 <= i < duty_cycles.len() && duty_cycles[i] > 100 {
        Some(ConfigError::DutyCycleOutOfRange)
    } else if default_target >= duty_cycles.len() {
        Some(ConfigError::DefaultTargetOutOfRange)
    } else {
        None
    }
}

impl DeviceView {
    /// The invariant of every device: a non-empty table of percentages,
    /// and both steps inside it.
    pub open spec fn wf(self) -> bool {
        &&& self.duty_cycles.len() > 0
        &&& self.target < self.duty_cycles.len()
        &&& self.default_target < self.duty_cycles.len()
        &&& forall|i: int| 0 <= i < self.duty_cycles.len() ==> self.duty_cycles[i] <= 100
    }

    /// Whether the light accepts `action`.
    pub open spec fn accepts(self, action: Action) -> bool {
        self.available_actions.contains(action)
    }

    /// The highest step of the table.
    pub open spec fn top(self) -> nat {
        (self.duty_cycles.len() - 1) as nat
    }

    /// The percentage of the current step.
    pub open spec fn duty_cycle(self) -> u32 {
        self.duty_cycles[self.target as int]
    }

    /// The step an accepted action leads to; `None` where `SetTarget`
    /// names no step of the table.
    pub open spec fn next_target(self, action: Action, requested: Option<usize>) -> Option<nat> {
        match action {
            Action::On => Some(self.default_target),
            Action::Off => Some(0),
            Action::Up => Some(
                if self.target < self.top() {
                    self.target + 1
                } else {
                    self.top()
                },
            ),
            Action::Down => Some(
                if self.target > 0 {
                    (self.target - 1) as nat
                } else {
                    0
                },
            ),
            Action::SetTarget => match requested {
                Some(k) => if k < self.duty_cycles.len() {
                    Some(k as nat)
                } else {
                    None
                },
                None => None,
            },
        }
    }

    /// The transition relation: the state after `action`, or the reason
    /// for which the state stays as it is. An action that the light does
    /// not accept is reported as such whatever step came with it.
    pub open spec fn step(self, action: Action, requested: Option<usize>) -> Result<
        DeviceView,
        DeviceError,
    > {
        if !self.accepts(action) {
            Err(DeviceError::InvalidAction)
        } else {
            match self.next_target(action, requested) {
                Some(target) => Ok(DeviceView { action, target, updated: true, ..self }),
                None => Err(DeviceError::InvalidTarget),
            }
        }
    }

    /// The state after a call that asks for `action`, whether the call
    /// succeeds or not: a call that fails changes nothing.
    pub open spec fn after(self, action: Action, requested: Option<usize>) -> DeviceView {
        match self.step(action, requested) {
            Ok(next) => next,
            Err(_) => self,
        }
    }

    /// The state after a run of calls, one at a time.
    pub open spec fn after_all(self, calls: Seq<(Action, Option<usize>)>) -> DeviceView
        decreases calls.len(),
    {
        if calls.len() == 0 {
            self
        } else {
            self.after_all(calls.drop_last()).after(calls.last().0, calls.last().1)
        }
    }

    /// The state once the actuation side has taken the pending duty.
    pub open spec fn consumed(self) -> DeviceView {
        DeviceView { updated: false, ..self }
    }

    /// The duty owed to the hardware: that of the current step while the
    /// dirty flag is up, nothing otherwise.
    pub open spec fn pending_duty(self, max_duty: u32) -> Option<u32> {
        if self.updated {
            Some(scaled_duty(self.duty_cycle(), max_duty) as u32)
        } else {
            None
        }
    }
}

/// One dimmable light.
#[derive(Debug)]
pub struct Device {
    name: String,
    action: Action,
    available_actions: Vec<Action>,
    default_target: usize,
    duty_cycles: Vec<u32>,
    target: usize,
    frequency: u32,
    updated: bool,
}

impl View for Device {
    type V = DeviceView;

    closed spec fn view(&self) -> DeviceView {
        DeviceView {
            name: self.name@,
            action: self.action,
            available_actions: Set::new(|a: Action| self.available_actions@.contains(a)),
            default_target: self.default_target as nat,
            duty_cycles: self.duty_cycles@,
            target: self.target as nat,
            frequency: self.frequency,
            updated: self.updated,
        }
    }
}

/// Converts a percentage of full scale into a hardware duty, rounding down.
pub fn hardware_duty(percentage: u32, max_duty: u32) -> (duty: u32)
    requires
        percentage <= 100,
    ensures
        duty == scaled_duty(percentage, max_duty),
        duty <= max_duty,
{
    assert(percentage * max_duty <= 100 * max_duty) by (nonlinear_arith)
        requires
            percentage <= 100,
            max_duty >= 0,
    ;
    let wide: u64 = (percentage as u64) * (max_duty as u64) / 100;
    wide as u32
}

impl Device {
    /// Holds of every device at all times.
    #[verifier::type_invariant]
    pub open spec fn inv(self) -> bool {
        self@.wf()
    }

    /// Sets up a light that is off, on step 0, with its duty still to be
    /// written out.
    pub fn new(
        name: String,
        available_actions: Vec<Action>,
        duty_cycles: Vec<u32>,
        default_target: usize,
        frequency: u32,
    ) -> (result: Result<Device, ConfigError>)
        ensures
            match result {
                Ok(device) => {
                    &&& config_error(duty_cycles@, default_target) is None
                    &&& device@.wf()
                    &&& device@ == DeviceView {
                        name: name@,
                        action: Action::Off,
                        available_actions: Set::new(|a: Action| available_actions@.contains(a)),
                        default_target: default_target as nat,
                        duty_cycles: duty_cycles@,
                        target: 0,
                        frequency,
                        updated: true,
                    }
                },
                Err(e) => config_error(duty_cycles@, default_target) == Some(e),
            },
    {
        if duty_cycles.len() == 0 {
            return Err(ConfigError::EmptyDutyTable);
        }
        let mut i: usize = 0;
        while i < duty_cycles.len()
            invariant
                i <= duty_cycles.len(),
                forall|j: int| 0 <= j < i ==> duty_cycles@[j] <= 100,
            decreases duty_cycles.len() - i,
        {
            if duty_cycles[i] > 100 {
                return Err(ConfigError::DutyCycleOutOfRange);
            }
            i += 1;
        }
        if default_target >= duty_cycles.len() {
            return Err(ConfigError::DefaultTargetOutOfRange);
        }
        Ok(
            Device {
                name,
                action: Action::Off,
                available_actions,
                default_target,
                duty_cycles,
                target: 0,
                frequency,
                updated: true,
            },
        )
    }

    /// Whether the light accepts `action`.
    pub fn accepts(&self, action: Action) -> (yes: bool)
        ensures
            yes == self@.accepts(action),
    {
        let mut i: usize = 0;
        while i < self.available_actions.len()
            invariant
                i <= self.available_actions.len(),
                forall|j: int| 0 <= j < i ==> self.available_actions@[j] != action,
            decreases self.available_actions.len() - i,
        {
            if self.available_actions[i] == action {
                return true;
            }
            i += 1;
        }
        false
    }

    /// Applies `action`. On success the light remembers the action, sits
    /// on the step the action leads to and is marked for actuation; on
    /// failure nothing changes.
    pub fn take_action(&mut self, action: Action, target: Option<usize>) -> (result: Result<
        (),
        DeviceError,
    >)
        ensures
            final(self)@.wf(),
            match old(self)@.step(action, target) {
                Ok(next) => result is Ok && final(self)@ == next,
                Err(e) => result == Err::<(), DeviceError>(e) && final(self)@ == old(self)@,
            },
            final(self)@ == old(self)@.after(action, target),
            // Off leads to step 0 from any step.
            action == Action::Off && old(self)@.accepts(action) ==> {
                &&& result is Ok
                &&& final(self)@.target == 0
            },
            // Up at the top and Down at the bottom leave the step alone.
            action == Action::Up && old(self)@.accepts(action)
                && old(self)@.target == old(self)@.top() ==> {
                &&& result is Ok
                &&& final(self)@.target == old(self)@.target
            },
            action == Action::Down && old(self)@.accepts(action) && old(self)@.target == 0 ==> {
                &&& result is Ok
                &&& final(self)@.target == 0
            },
            // SetTarget reaches exactly the steps of the table.
            action == Action::SetTarget && old(self)@.accepts(action) ==> match target {
                Some(k) if k < old(self)@.duty_cycles.len() => {
                    &&& result is Ok
                    &&& final(self)@.target == k
                },
                _ => result == Err::<(), DeviceError>(DeviceError::InvalidTarget),
            },
    {
        proof {
            use_type_invariant(&*self);
        }
        if !self.accepts(action) {
            return Err(DeviceError::InvalidAction);
        }
        let top: usize = self.duty_cycles.len() - 1;
        let next: usize = match action {
            Action::On => self.default_target,
            Action::Off => 0,
            Action::Up => if self.target < top {
                self.target + 1
            } else {
                top
            },
            Action::Down => if self.target > 0 {
                self.target - 1
            } else {
                0
            },
            Action::SetTarget => match target {
                Some(k) => {
                    if k >= self.duty_cycles.len() {
                        return Err(DeviceError::InvalidTarget);
                    }
                    k
                },
                None => {
                    return Err(DeviceError::InvalidTarget);
                },
            },
        };
        self.target = next;
        self.action = action;
        self.updated = true;
        Ok(())
    }

    /// The duty percentage of the current step.
    pub fn get_duty_cycle(&self) -> (percentage: u32)
        ensures
            percentage == self@.duty_cycle(),
            percentage <= 100,
    {
        proof {
            use_type_invariant(self);
        }
        self.duty_cycles[self.target]
    }

    /// Hands the pending duty to the actuation side: while the dirty flag
    /// is up, the hardware duty of the current step for a channel whose
    /// full scale is `max_duty`, and the flag comes down; nothing for a
    /// light that has not changed.
    pub fn take_pending_duty(&mut self, max_duty: u32) -> (duty: Option<u32>)
        ensures
            final(self)@.wf(),
            duty == old(self)@.pending_duty(max_duty),
            final(self)@ == old(self)@.consumed(),
            duty matches Some(d) ==> d == scaled_duty(old(self)@.duty_cycle(), max_duty) && d
                <= max_duty,
    {
        proof {
            use_type_invariant(&*self);
        }
        if self.updated {
            let duty = hardware_duty(self.get_duty_cycle(), max_duty);
            self.updated = false;
            Some(duty)
        } else {
            None
        }
    }

    /// The name the light was set up with.
    pub fn name(&self) -> (name: &str)
        ensures
            name@ == self@.name,
    {
        self.name.as_str()
    }

    /// The last action applied.
    pub fn action(&self) -> (action: Action)
        ensures
            action == self@.action,
    {
        self.action
    }

    /// The current step.
    pub fn target(&self) -> (target: usize)
        ensures
            target == self@.target,
            target < self@.duty_cycles.len(),
    {
        proof {
            use_type_invariant(self);
        }
        self.target
    }

    /// The step taken on `On`.
    pub fn default_target(&self) -> (target: usize)
        ensures
            target == self@.default_target,
            target < self@.duty_cycles.len(),
    {
        proof {
            use_type_invariant(self);
        }
        self.default_target
    }

    /// The number of steps.
    pub fn steps(&self) -> (count: usize)
        ensures
            count == self@.duty_cycles.len(),
            count > 0,
    {
        proof {
            use_type_invariant(self);
        }
        self.duty_cycles.len()
    }

    /// The table of duty percentages, by step.
    pub fn duty_cycles(&self) -> (table: &Vec<u32>)
        ensures
            table@ == self@.duty_cycles,
    {
        &self.duty_cycles
    }

    /// The actions the light accepts, as they were configured.
    pub fn available_actions(&self) -> (actions: &Vec<Action>)
        ensures
            forall|a: Action| actions@.contains(a) <==> self@.accepts(a),
    {
        &self.available_actions
    }

    /// The switching frequency of the light's channel, in hertz.
    pub fn frequency(&self) -> (hertz: u32)
        ensures
            hertz == self@.frequency,
    {
        self.frequency
    }

    /// Whether the step changed since the actuation side last looked.
    pub fn is_updated(&self) -> (updated: bool)
        ensures
            updated == self@.updated,
    {
        self.updated
    }

    /// A copy of the light as it stands.
    pub fn snapshot(&self) -> (copy: Device)
        ensures
            copy@ == self@,
            copy@.wf(),
    {
        proof {
            use_type_invariant(self);
        }
        let mut available_actions: Vec<Action> = Vec::new();
        let mut i: usize = 0;
        while i < self.available_actions.len()
            invariant
                i <= self.available_actions.len(),
                available_actions@ == self.available_actions@.subrange(0, i as int),
            decreases self.available_actions.len() - i,
        {
            available_actions.push(self.available_actions[i]);
            i += 1;
        }
        let mut duty_cycles: Vec<u32> = Vec::new();
        let mut j: usize = 0;
        while j < self.duty_cycles.len()
            invariant
                j <= self.duty_cycles.len(),
                duty_cycles@ == self.duty_cycles@.subrange(0, j as int),
            decreases self.duty_cycles.len() - j,
        {
            duty_cycles.push(self.duty_cycles[j]);
            j += 1;
        }
        assert(available_actions@ == self.available_actions@);
        assert(duty_cycles@ == self.duty_cycles@);
        Device {
            name: self.name.clone(),
            action: self.action,
            available_actions,
            default_target: self.default_target,
            duty_cycles,
            target: self.target,
            frequency: self.frequency,
            updated: self.updated,
        }
    }
}

/// Calls reach a light one at a time, since each holds it exclusively.
/// However many there are and in whatever order they arrive, the light
/// stays valid: its step never leaves the table.
pub proof fn lemma_calls_keep_target_in_range(
    device: DeviceView,
    calls: Seq<(Action, Option<usize>)>,
)
    requires
        device.wf(),
    ensures
        device.after_all(calls).wf(),
        device.after_all(calls).target < device.duty_cycles.len(),
        device.after_all(calls).duty_cycles == device.duty_cycles,
    decreases calls.len(),
{
    if calls.len() > 0 {
        lemma_calls_keep_target_in_range(device, calls.drop_last());
    }
}

/// Two calls that arrive at the same time are served in one order or the
/// other, each call as a whole. Either order ends in a valid state.
pub proof fn lemma_two_calls_in_either_order(
    device: DeviceView,
    first: (Action, Option<usize>),
    second: (Action, Option<usize>),
)
    requires
        device.wf(),
    ensures
        device.after_all(seq![first, second]) == device.after(first.0, first.1).after(
            second.0,
            second.1,
        ),
        device.after_all(seq![second, first]) == device.after(second.0, second.1).after(
            first.0,
            first.1,
        ),
        device.after_all(seq![first, second]).wf(),
        device.after_all(seq![second, first]).wf(),
{
    let forth = seq![first, second];
    let back = seq![second, first];
    assert(forth.drop_last() =~= seq![first]);
    assert(seq![first].drop_last() =~= Seq::<(Action, Option<usize>)>::empty());
    assert(back.drop_last() =~= seq![second]);
    assert(seq![second].drop_last() =~= Seq::<(Action, Option<usize>)>::empty());
    reveal_with_fuel(DeviceView::after_all, 3);
    lemma_calls_keep_target_in_range(device, forth);
    lemma_calls_keep_target_in_range(device, back);
}

} // verus!
