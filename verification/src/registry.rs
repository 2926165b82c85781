//! The lights of one controller, found by name.
//!
//! Every execution context reaches a light through the registry, and only
//! for the length of one operation: a caller holds the registry
//! exclusively while an operation runs, so operations on it never overlap.

use crate::action::Action;
use crate::device::{Device, DeviceError, DeviceView};
use crate::knob::{light_after_knob, light_update, time_after_knob};
use crate::text::{lowercase, str_eq, to_lowercase};
use vstd::prelude::*;
use vstd::string::*;

verus! {

/// The error of [`Registry::register`]: a light of that name, whatever
/// its case, is registered already.
#[derive(Clone, Copy, Debug, PartialEq, Eq, Structural)]
pub struct DuplicateName;

/// Why the registry did not apply an action.
#[derive(Clone, Copy, Debug, PartialEq, Eq, Structural)]
pub enum RegistryError {
    /// No light goes by that name, or stands at that place.
    NotFound,
    /// The light was found and refused the action.
    Refused(DeviceError),
}

/// The mathematical content of a [`Registry`]: the lights in the order in
/// which they were registered, each with the key it is found by.
#[verifier::ext_equal]
pub struct RegistryView {
    pub keys: Seq<Seq<char>>,
    pub devices: Seq<DeviceView>,
}

/// The views of a run of devices.
pub open spec fn device_views(devices: Seq<Device>) -> Seq<DeviceView> {
    Seq::new(devices.len(), |i: int| devices[i]@)
}

/// The characters of a run of keys.
pub open spec fn key_views(keys: Seq<String>) -> Seq<Seq<char>> {
    Seq::new(keys.len(), |i: int| keys[i]@)
}

impl RegistryView {
    /// The invariant of every registry: each light is valid and keyed by
    /// the lower-case form of its name, and no two lights share a key.
    pub open spec fn wf(self) -> bool {
        &&& self.keys.len() == self.devices.len()
        &&& forall|i: int| 0 <= i < self.devices.len() ==> (#[trigger] self.devices[i]).wf()
        &&& forall|i: int|
            0 <= i < self.keys.len() ==> #[trigger] self.keys[i] == lowercase(self.devices[i].name)
        &&& forall|i: int, j: int|
            0 <= i < j < self.keys.len() ==> #[trigger] self.keys[i] != #[trigger] self.keys[j]
    }

    /// The place of the light with this key, if there is one.
    pub open spec fn position(self, key: Seq<char>) -> Option<int> {
        if self.keys.contains(key) {
            Some(self.keys.index_of(key))
        } else {
            None
        }
    }

    /// The registry with one light replaced.
    pub open spec fn with_device(self, index: int, device: DeviceView) -> RegistryView {
        RegistryView { keys: self.keys, devices: self.devices.update(index, device) }
    }

    /// The registry after an action on the light at a place, or the
    /// reason for which it stays as it is.
    pub open spec fn after_action_at(
        self,
        index: int,
        action: Action,
        target: Option<usize>,
    ) -> Result<RegistryView, RegistryError> {
        if 0 <= index < self.devices.len() {
            match self.devices[index].step(action, target) {
                Ok(next) => Ok(self.with_device(index, next)),
                Err(e) => Err(RegistryError::Refused(e)),
            }
        } else {
            Err(RegistryError::NotFound)
        }
    }

    /// The registry after an action on the light with this key, or the
    /// reason for which it stays as it is.
    pub open spec fn after_action(
        self,
        key: Seq<char>,
        action: Action,
        target: Option<usize>,
    ) -> Result<RegistryView, RegistryError> {
        match self.position(key) {
            None => Err(RegistryError::NotFound),
            Some(index) => self.after_action_at(index, action, target),
        }
    }

    /// How many lights a pass of the knob loop covers: as many as have a
    /// reading, a remembered time and a remembered reading.
    pub open spec fn polled(self, readings: nat, times: nat, values: nat) -> nat {
        let a = if readings < self.devices.len() {
            readings
        } else {
            self.devices.len()
        };
        let b = if times < a {
            times
        } else {
            a
        };
        if values < b {
            values
        } else {
            b
        }
    }

    /// The registry after a pass of the knob loop.
    pub open spec fn after_knobs(
        self,
        readings: Seq<i64>,
        now: u64,
        times: Seq<u64>,
        values: Seq<i64>,
    ) -> RegistryView {
        let covered = self.polled(readings.len(), times.len(), values.len());
        RegistryView {
            keys: self.keys,
            devices: Seq::new(
                self.devices.len(),
                |i: int|
                    if i < covered {
                        light_after_knob(self.devices[i], readings[i], now, times[i], values[i])
                    } else {
                        self.devices[i]
                    },
            ),
        }
    }

    /// The times of the knobs' last transitions after a pass of the knob
    /// loop.
    pub open spec fn times_after_knobs(
        self,
        readings: Seq<i64>,
        now: u64,
        times: Seq<u64>,
        values: Seq<i64>,
    ) -> Seq<u64> {
        let covered = self.polled(readings.len(), times.len(), values.len());
        Seq::new(
            times.len(),
            |i: int|
                if i < covered {
                    time_after_knob(readings[i], now, times[i], values[i])
                } else {
                    times[i]
                },
        )
    }

    /// The readings remembered after a pass of the knob loop.
    pub open spec fn values_after_knobs(
        self,
        readings: Seq<i64>,
        times: Seq<u64>,
        values: Seq<i64>,
    ) -> Seq<i64> {
        let covered = self.polled(readings.len(), times.len(), values.len());
        Seq::new(
            values.len(),
            |i: int|
                if i < covered {
                    readings[i]
                } else {
                    values[i]
                },
        )
    }

    /// How many lights an actuation pass over these channels covers.
    pub open spec fn covered(self, channels: nat) -> nat {
        if channels < self.devices.len() {
            channels
        } else {
            self.devices.len()
        }
    }

    /// The duties that an actuation pass owes to the channels, in the
    /// order of the lights.
    pub open spec fn pending_duties(self, max_duties: Seq<u32>) -> Seq<Option<u32>> {
        Seq::new(
            self.covered(max_duties.len()),
            |i: int| self.devices[i].pending_duty(max_duties[i]),
        )
    }

    /// The registry after an actuation pass: every light that has a
    /// channel is clean.
    pub open spec fn actuated(self, channels: nat) -> RegistryView {
        RegistryView {
            keys: self.keys,
            devices: Seq::new(
                self.devices.len(),
                |i: int|
                    if i < channels {
                        self.devices[i].consumed()
                    } else {
                        self.devices[i]
                    },
            ),
        }
    }
}

/// The lights of one controller.
#[derive(Debug)]
pub struct Registry {
    keys: Vec<String>,
    devices: Vec<Device>,
}

impl View for Registry {
    type V = RegistryView;

    closed spec fn view(&self) -> RegistryView {
        RegistryView { keys: key_views(self.keys@), devices: device_views(self.devices@) }
    }
}

impl Registry {
    /// Holds of every registry at all times.
    #[verifier::type_invariant]
    pub open spec fn inv(self) -> bool {
        self@.wf()
    }

    /// A registry without lights.
    pub fn new() -> (registry: Registry)
        ensures
            registry@.wf(),
            registry@.keys.len() == 0,
            registry@.devices.len() == 0,
    {
        Registry { keys: Vec::new(), devices: Vec::new() }
    }

    /// Takes keys and lights out of the registry for a change, leaving it
    /// empty until they are put back: the lights are changed on their own,
    /// and the registry as a whole is valid whenever it can be seen.
    fn take_lights(&mut self) -> (parts: (Vec<String>, Vec<Device>))
        ensures
            key_views(parts.0@) == old(self)@.keys,
            device_views(parts.1@) == old(self)@.devices,
            parts.0@.len() == parts.1@.len(),
            old(self)@.wf(),
            final(self)@.wf(),
    {
        proof {
            use_type_invariant(&*self);
        }
        let mut taken = Registry::new();
        core::mem::swap(self, &mut taken);
        let Registry { keys, devices } = taken;
        (keys, devices)
    }

    /// The number of lights.
    pub fn len(&self) -> (count: usize)
        ensures
            count == self@.devices.len(),
            count == self@.keys.len(),
    {
        proof {
            use_type_invariant(self);
        }
        self.devices.len()
    }

    /// The place of the light with this key.
    pub fn find(&self, key: &str) -> (found: Option<usize>)
        ensures
            match found {
                Some(index) => self@.position(key@) == Some(index as int) && index
                    < self@.devices.len(),
                None => self@.position(key@) is None,
            },
    {
        proof {
            use_type_invariant(self);
        }
        let mut i: usize = 0;
        while i < self.keys.len()
            invariant
                i <= self.keys.len(),
                self@.wf(),
                self@.keys.len() == self.keys.len(),
                forall|j: int| 0 <= j < self.keys.len() ==> self@.keys[j] == self.keys@[j]@,
                forall|j: int| 0 <= j < i ==> self@.keys[j] != key@,
            decreases self.keys.len() - i,
        {
            if str_eq(self.keys[i].as_str(), key) {
                proof {
                    let chosen = self@.keys.index_of(key@);
                    assert(self@.keys[i as int] == key@);
                    assert(0 <= chosen < self@.keys.len() && self@.keys[chosen] == key@);
                    if chosen < i {
                        assert(self@.keys[chosen] != self@.keys[i as int]);
                    } else if chosen > i {
                        assert(self@.keys[i as int] != self@.keys[chosen]);
                    }
                }
                return Some(i);
            }
            i += 1;
        }
        None
    }

    /// Adds a light at the end, unless its name, whatever its case, is
    /// taken.
    pub fn register(&mut self, device: Device) -> (result: Result<(), DuplicateName>)
        ensures
            final(self)@.wf(),
            match result {
                Ok(()) => {
                    &&& old(self)@.position(lowercase(device@.name)) is None
                    &&& final(self)@.keys == old(self)@.keys.push(lowercase(device@.name))
                    &&& final(self)@.devices == old(self)@.devices.push(device@)
                },
                Err(_) => {
                    &&& old(self)@.position(lowercase(device@.name)) is Some
                    &&& final(self)@ == old(self)@
                },
            },
    {
        proof {
            use_type_invariant(&*self);
            use_type_invariant(&device);
        }
        let key = to_lowercase(device.name());
        if self.find(key.as_str()).is_some() {
            return Err(DuplicateName);
        }
        let ghost before = self@;
        let (mut keys, mut devices) = self.take_lights();
        keys.push(key);
        devices.push(device);
        let ghost after = RegistryView {
            keys: before.keys.push(lowercase(device@.name)),
            devices: before.devices.push(device@),
        };
        proof {
            assert(key_views(keys@) =~= after.keys);
            assert(device_views(devices@) =~= after.devices);
            assert forall|i: int, j: int| 0 <= i < j < after.keys.len() implies after.keys[i]
                != after.keys[j] by {
                if j == before.keys.len() {
                    assert(before.keys[i] == after.keys[i]);
                    assert(before.keys.contains(after.keys[i]));
                } else {
                    assert(before.keys[i] != before.keys[j]);
                }
            }
            assert(after.wf());
        }
        *self = Registry { keys, devices };
        Ok(())
    }

    /// The light at a place.
    pub fn device(&self, index: usize) -> (device: Option<&Device>)
        ensures
            match device {
                Some(d) => index < self@.devices.len() && d@ == self@.devices[index as int]
                    && d@.wf(),
                None => index >= self@.devices.len(),
            },
    {
        proof {
            use_type_invariant(self);
        }
        if index < self.devices.len() {
            Some(&self.devices[index])
        } else {
            None
        }
    }

    /// The light that goes by `name`, whatever the case of either.
    pub fn lookup(&self, name: &str) -> (device: Option<&Device>)
        ensures
            match device {
                Some(d) => self@.position(lowercase(name@)) matches Some(index) && d@
                    == self@.devices[index] && d@.wf(),
                None => self@.position(lowercase(name@)) is None,
            },
    {
        let key = to_lowercase(name);
        match self.find(key.as_str()) {
            Some(index) => self.device(index),
            None => None,
        }
    }

    /// Applies an action to the light at a place, and to no other.
    pub fn take_action_at(&mut self, index: usize, action: Action, target: Option<usize>) -> (result:
        Result<(), RegistryError>)
        ensures
            final(self)@.wf(),
            match old(self)@.after_action_at(index as int, action, target) {
                Ok(next) => result is Ok && final(self)@ == next,
                Err(e) => result == Err::<(), RegistryError>(e) && final(self)@ == old(self)@,
            },
    {
        proof {
            use_type_invariant(&*self);
        }
        if index >= self.devices.len() {
            return Err(RegistryError::NotFound);
        }
        let ghost before = self@;
        let (keys, mut devices) = self.take_lights();
        let applied = devices[index].take_action(action, target);
        let ghost after = match before.devices[index as int].step(action, target) {
            Ok(next) => before.with_device(index as int, next),
            Err(_) => before,
        };
        proof {
            assert(key_views(keys@) =~= after.keys);
            assert(device_views(devices@) =~= after.devices);
            assert(after.wf());
        }
        *self = Registry { keys, devices };
        match applied {
            Ok(()) => Ok(()),
            Err(e) => Err(RegistryError::Refused(e)),
        }
    }

    /// Applies an action to the light that goes by `name`, whatever the
    /// case of either, and to no other.
    pub fn take_action(&mut self, name: &str, action: Action, target: Option<usize>) -> (result:
        Result<(), RegistryError>)
        ensures
            final(self)@.wf(),
            match old(self)@.after_action(lowercase(name@), action, target) {
                Ok(next) => result is Ok && final(self)@ == next,
                Err(e) => result == Err::<(), RegistryError>(e) && final(self)@ == old(self)@,
            },
    {
        let key = to_lowercase(name);
        match self.find(key.as_str()) {
            None => {
                proof {
                    use_type_invariant(&*self);
                }
                Err(RegistryError::NotFound)
            },
            Some(index) => self.take_action_at(index, action, target),
        }
    }

    /// Copies of all lights, in order.
    pub fn snapshots(&self) -> (copies: Vec<Device>)
        ensures
            device_views(copies@) == self@.devices,
    {
        let mut copies: Vec<Device> = Vec::new();
        let mut i: usize = 0;
        while i < self.devices.len()
            invariant
                i <= self.devices.len(),
                copies@.len() == i,
                forall|j: int| 0 <= j < i ==> copies@[j]@ == self.devices@[j]@,
            decreases self.devices.len() - i,
        {
            copies.push(self.devices[i].snapshot());
            i += 1;
        }
        assert(device_views(copies@) =~= self@.devices);
        copies
    }

    /// One actuation pass. Light `i` goes with channel `i`, whose full
    /// scale is `max_duties[i]`; lights beyond the channels are left
    /// alone. Returns, for each light covered, the duty to write to its
    /// channel, if its step changed since the last pass, and marks the
    /// light clean.
    pub fn actuate(&mut self, max_duties: &Vec<u32>) -> (writes: Vec<Option<u32>>)
        ensures
            final(self)@.wf(),
            writes@ == old(self)@.pending_duties(max_duties@),
            final(self)@ == old(self)@.actuated(max_duties@.len()),
    {
        proof {
            use_type_invariant(&*self);
        }
        let ghost before = self@;
        let (keys, mut devices) = self.take_lights();
        let count: usize = if max_duties.len() < devices.len() {
            max_duties.len()
        } else {
            devices.len()
        };
        let mut writes: Vec<Option<u32>> = Vec::new();
        let mut i: usize = 0;
        while i < count
            invariant
                i <= count,
                count == before.covered(max_duties@.len()),
                devices@.len() == before.devices.len(),
                writes@.len() == i,
                forall|j: int|
                    0 <= j < i ==> writes@[j] == before.devices[j].pending_duty(max_duties@[j]),
                forall|j: int|
                    0 <= j < i ==> (#[trigger] devices@[j])@ == before.devices[j].consumed(),
                forall|j: int|
                    i <= j < before.devices.len() ==> (#[trigger] devices@[j])@
                        == before.devices[j],
            decreases count - i,
        {
            let duty = devices[i].take_pending_duty(max_duties[i]);
            writes.push(duty);
            i += 1;
        }
        let ghost after = before.actuated(max_duties@.len());
        proof {
            assert(writes@ =~= before.pending_duties(max_duties@));
            assert(key_views(keys@) =~= after.keys);
            assert(device_views(devices@) =~= after.devices);
            assert(after.wf());
        }
        *self = Registry { keys, devices };
        writes
    }

    /// One pass of the knob loop at time `now`, in milliseconds. Light
    /// `i` goes with reading `i` and with what is remembered of knob `i`,
    /// its last reading and the time of its last transition; the pass
    /// covers as many lights as have all three.
    pub fn poll_knobs(
        &mut self,
        readings: &Vec<i64>,
        now: u64,
        last_times: &mut Vec<u64>,
        last_values: &mut Vec<i64>,
    )
        ensures
            final(self)@.wf(),
            final(self)@ == old(self)@.after_knobs(
                readings@,
                now,
                old(last_times)@,
                old(last_values)@,
            ),
            final(last_times)@ == old(self)@.times_after_knobs(
                readings@,
                now,
                old(last_times)@,
                old(last_values)@,
            ),
            final(last_values)@ == old(self)@.values_after_knobs(
                readings@,
                old(last_times)@,
                old(last_values)@,
            ),
    {
        proof {
            use_type_invariant(&*self);
        }
        let ghost before = self@;
        let (keys, mut devices) = self.take_lights();
        let mut count: usize = devices.len();
        if readings.len() < count {
            count = readings.len();
        }
        if last_times.len() < count {
            count = last_times.len();
        }
        if last_values.len() < count {
            count = last_values.len();
        }
        let mut i: usize = 0;
        while i < count
            invariant
                i <= count,
                count == before.polled(
                    readings@.len(),
                    old(last_times)@.len(),
                    old(last_values)@.len(),
                ),
                before.wf(),
                devices@.len() == before.devices.len(),
                last_times@.len() == old(last_times)@.len(),
                last_values@.len() == old(last_values)@.len(),
                forall|j: int|
                    0 <= j < i ==> {
                        &&& (#[trigger] devices@[j])@ == light_after_knob(
                            before.devices[j],
                            readings@[j],
                            now,
                            old(last_times)@[j],
                            old(last_values)@[j],
                        )
                        &&& devices@[j]@.wf()
                    },
                forall|j: int|
                    0 <= j < i ==> (#[trigger] last_times@[j]) == time_after_knob(
                        readings@[j],
                        now,
                        old(last_times)@[j],
                        old(last_values)@[j],
                    ),
                forall|j: int| 0 <= j < i ==> (#[trigger] last_values@[j]) == readings@[j],
                forall|j: int|
                    i <= j < before.devices.len() ==> (#[trigger] devices@[j])@
                        == before.devices[j],
                forall|j: int|
                    i <= j < last_times@.len() ==> (#[trigger] last_times@[j]) == old(last_times)@[j],
                forall|j: int|
                    i <= j < last_values@.len() ==> (#[trigger] last_values@[j]) == old(last_values)@[j],
            decreases count - i,
        {
            light_update(
                &mut devices[i],
                readings[i],
                now,
                &mut last_times[i],
                &mut last_values[i],
            );
            i += 1;
        }
        proof {
            assert forall|j: int| 0 <= j < devices@.len() implies (#[trigger] devices@[j])@.name
                == before.devices[j].name && devices@[j]@.wf() by {
                if j < i {
                } else {
                    assert(before.devices[j].wf());
                }
            }
            assert(key_views(keys@) =~= before.keys);
            let after = before.after_knobs(readings@, now, old(last_times)@, old(last_values)@);
            assert(device_views(devices@) =~= after.devices);
            assert(after.wf());
            assert(last_times@ =~= before.times_after_knobs(
                readings@,
                now,
                old(last_times)@,
                old(last_values)@,
            ));
            assert(last_values@ =~= before.values_after_knobs(
                readings@,
                old(last_times)@,
                old(last_values)@,
            ));
        }
        *self = Registry { keys, devices };
    }
}

} // verus!
