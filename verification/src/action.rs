//! The discrete commands a light understands.

use crate::text::str_eq;
use vstd::prelude::*;

verus! {

/// A command applied to a light, by a knob or by a remote request.
#[derive(Clone, Copy, Debug, PartialEq, Eq, Structural)]
pub enum Action {
    On,
    Off,
    Up,
    Down,
    SetTarget,
}

/// The error of [`Action::from_str`]: the text names no action.
#[derive(Clone, Copy, Debug, PartialEq, Eq, Structural)]
pub struct UnknownAction;

impl Action {
    /// The action that a lower-case name stands for, if any.
    pub open spec fn named(name: Seq<char>) -> Option<Action> {
        if name == "on"@ {
            Some(Action::On)
        } else if name == "off"@ {
            Some(Action::Off)
        } else if name == "up"@ {
            Some(Action::Up)
        } else if name == "down"@ {
            Some(Action::Down)
        } else if name == "set"@ {
            Some(Action::SetTarget)
        } else {
            None
        }
    }

    /// Reads an action from its lower-case name. Callers that accept any
    /// case fold the text first.
    pub fn from_str(name: &str) -> (result: Result<Action, UnknownAction>)
        ensures
            result == match Action::named(name@) {
                Some(action) => Ok::<Action, UnknownAction>(action),
                None => Err::<Action, UnknownAction>(UnknownAction),
            },
    {
        if str_eq(name, "on") {
            Ok(Action::On)
        } else if str_eq(name, "off") {
            Ok(Action::Off)
        } else if str_eq(name, "up") {
            Ok(Action::Up)
        } else if str_eq(name, "down") {
            Ok(Action::Down)
        } else if str_eq(name, "set") {
            Ok(Action::SetTarget)
        } else {
            Err(UnknownAction)
        }
    }
}

} // verus!
