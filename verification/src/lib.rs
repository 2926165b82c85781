//! Control logic of a small dimmer controller: rotation decoding for the
//! knobs, the dimmer state machine of each light, the registry that all
//! execution contexts share, and the handlers behind the command interface.

pub mod action;
pub mod device;
pub mod encoder;
pub mod knob;
pub mod query;
pub mod registry;
pub mod router;
pub mod text;
