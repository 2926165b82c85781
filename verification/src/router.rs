//! The handlers behind the request interface.
//!
//! A handler takes the registry and the request line and returns the
//! response; the serving side only moves bytes. A handler that reads a
//! query works in three layers: the line is cut into pairs, the fields
//! are decoded and folded to lower case, and a last function decides from
//! the plain texts. The contracts of the first two speak of the pairs of
//! a query and of the lower-case form of a text by name only; the
//! contract of the last is free of both.

use crate::action::Action;
use crate::device::{Device, DeviceError, DeviceView};
use crate::query::{
    after_prefix,
    last_value,
    lemma_after_ascii_prefix,
    lookup,
    pairs_view,
    query_pairs,
    querify,
    skip_prefix,
    text_view,
};
use crate::registry::{device_views, Registry, RegistryError, RegistryView};
use crate::text::{
    decimal_index,
    decimal_text,
    decode_spaces,
    lowercase,
    parse_index,
    push_decimal,
    spaces_decoded,
    to_lowercase,
};
use vstd::prelude::*;
use vstd::string::*;
use vstd::utf8::is_ascii_chars;

verus! {

/// The status code of a request that was served.
pub const STATUS_OK: u16 = 200;

/// The status code of a request that was turned down.
pub const STATUS_UNPROCESSABLE: u16 = 422;

/// The length in bytes of `/status?`, after which a status query starts.
pub const STATUS_PATH_LEN: usize = 8;

/// The length in bytes of `/command?`, after which a command query
/// starts.
pub const COMMAND_PATH_LEN: usize = 9;

/// Why a request was turned down.
#[derive(Clone, Copy, Debug, PartialEq, Eq, Structural)]
pub enum RequestError {
    /// The line of a status request ends before its query.
    BadStatusCommand,
    /// A status request names no device.
    NoDeviceName,
    /// A status request names a device that is not registered.
    DeviceNotFound,
    /// The line of a command ends before its query.
    BadCommand,
    /// A command names no device.
    DeviceFieldMissing,
    /// A command names a device that is not registered.
    BadDeviceName,
    /// A command names no action.
    NoAction,
    /// A command names an action that does not exist, or one that the
    /// device does not accept.
    BadActionName,
    /// A command gives a step beyond the device's table of `steps`
    /// entries.
    TargetOutOfRange { steps: usize },
    /// A command gives a step that is no number, or `set` without a step.
    BadTarget,
}

impl RequestError {
    /// The text sent back with the error.
    pub open spec fn message_text(self) -> Seq<char> {
        match self {
            RequestError::BadStatusCommand => "Bad Status command given"@,
            RequestError::NoDeviceName => "No Device name given"@,
            RequestError::DeviceNotFound => "Device name not found"@,
            RequestError::BadCommand => "Bad Command given"@,
            RequestError::DeviceFieldMissing => "Device field not given"@,
            RequestError::BadDeviceName => "Bad Device name given"@,
            RequestError::NoAction => "No Action given"@,
            RequestError::BadActionName => "Bad Action name given"@,
            RequestError::TargetOutOfRange { steps } => "Target must be >= 0 & < "@ + decimal_text(
                steps as nat,
            ),
            RequestError::BadTarget => "Bad Target given"@,
        }
    }

    /// The text sent back with the error.
    pub fn message(&self) -> (text: String)
        ensures
            text@ == self.message_text(),
    {
        match self {
            RequestError::BadStatusCommand => String::from_str("Bad Status command given"),
            RequestError::NoDeviceName => String::from_str("No Device name given"),
            RequestError::DeviceNotFound => String::from_str("Device name not found"),
            RequestError::BadCommand => String::from_str("Bad Command given"),
            RequestError::DeviceFieldMissing => String::from_str("Device field not given"),
            RequestError::BadDeviceName => String::from_str("Bad Device name given"),
            RequestError::NoAction => String::from_str("No Action given"),
            RequestError::BadActionName => String::from_str("Bad Action name given"),
            RequestError::TargetOutOfRange { steps } => {
                let mut text = String::from_str("Target must be >= 0 & < ");
                push_decimal(&mut text, *steps);
                text
            },
            RequestError::BadTarget => String::from_str("Bad Target given"),
        }
    }
}

/// What a response carries. The serving side sends a text as it is and
/// encodes devices as JSON.
#[derive(Debug)]
pub enum Body {
    Text(String),
    Device(Device),
    Devices(Vec<Device>),
}

/// The answer to one request.
#[derive(Debug)]
pub struct Response {
    pub status: u16,
    pub body: Body,
}

/// The mathematical content of a [`Body`].
#[verifier::ext_equal]
pub enum BodyView {
    Text(Seq<char>),
    Device(DeviceView),
    Devices(Seq<DeviceView>),
}

/// The mathematical content of a [`Response`].
#[verifier::ext_equal]
pub struct ResponseView {
    pub status: u16,
    pub body: BodyView,
}

impl View for Body {
    type V = BodyView;

    open spec fn view(&self) -> BodyView {
        match self {
            Body::Text(text) => BodyView::Text(text@),
            Body::Device(device) => BodyView::Device(device@),
            Body::Devices(devices) => BodyView::Devices(device_views(devices@)),
        }
    }
}

impl View for Response {
    type V = ResponseView;

    open spec fn view(&self) -> ResponseView {
        ResponseView { status: self.status, body: self.body@ }
    }
}

/// The response that turns a request down.
pub open spec fn rejection(error: RequestError) -> ResponseView {
    ResponseView { status: STATUS_UNPROCESSABLE, body: BodyView::Text(error.message_text()) }
}

/// The response to a served request that has only a text to send.
pub open spec fn acknowledgement(text: Seq<char>) -> ResponseView {
    ResponseView { status: STATUS_OK, body: BodyView::Text(text) }
}

/// The step that a command's `target` field asks for. A field that is
/// absent or empty asks for none; a number must name a step of the
/// device's table; anything else is an error.
pub open spec fn command_target(steps: nat, target: Option<Seq<char>>) -> Result<
    Option<usize>,
    RequestError,
> {
    match target {
        None => Ok(None),
        Some(text) => match decimal_index(text) {
            Some(k) => if k < steps {
                Ok(Some(k))
            } else {
                Err(RequestError::TargetOutOfRange { steps: steps as usize })
            },
            None => if text.len() == 0 {
                Ok(None)
            } else {
                Err(RequestError::BadTarget)
            },
        },
    }
}

/// What a command does, given the key of its device, the lower-case name
/// of its action and the text of its step: the registry after it, or the
/// first error in this order: no device given, device unknown, no action
/// given, action unknown, step malformed or beyond the table. An action
/// that the device itself turns down is an error too, and nothing
/// changes: one that the device does not accept counts as a bad action
/// name, `set` without a step as a bad target.
pub open spec fn command_outcome(
    registry: RegistryView,
    device: Option<Seq<char>>,
    action: Option<Seq<char>>,
    target: Option<Seq<char>>,
) -> Result<RegistryView, RequestError> {
    match device {
        None => Err(RequestError::DeviceFieldMissing),
        Some(key) => match registry.position(key) {
            None => Err(RequestError::BadDeviceName),
            Some(index) => match action {
                None => Err(RequestError::NoAction),
                Some(name) => match Action::named(name) {
                    None => Err(RequestError::BadActionName),
                    Some(act) => match command_target(
                        registry.devices[index].duty_cycles.len(),
                        target,
                    ) {
                        Err(e) => Err(e),
                        Ok(step) => match registry.devices[index].step(act, step) {
                            Ok(next) => Ok(registry.with_device(index, next)),
                            Err(DeviceError::InvalidAction) => Err(RequestError::BadActionName),
                            Err(DeviceError::InvalidTarget) => Err(RequestError::BadTarget),
                        },
                    },
                },
            },
        },
    }
}

/// The device that a status request asks for, given its key.
pub open spec fn status_outcome(registry: RegistryView, device: Option<Seq<char>>) -> Result<
    DeviceView,
    RequestError,
> {
    match device {
        None => Err(RequestError::NoDeviceName),
        Some(key) => match registry.position(key) {
            None => Err(RequestError::DeviceNotFound),
            Some(index) => Ok(registry.devices[index]),
        },
    }
}

/// The key under which a command looks its device up: the field with its
/// `%20` read as spaces, in lower case.
pub open spec fn command_key(field: Option<Seq<char>>) -> Option<Seq<char>> {
    match field {
        Some(text) => Some(lowercase(spaces_decoded(text))),
        None => None,
    }
}

/// A field in lower case.
pub open spec fn lowered(field: Option<Seq<char>>) -> Option<Seq<char>> {
    match field {
        Some(text) => Some(lowercase(text)),
        None => None,
    }
}

/// A field with its `%20` read as spaces.
pub open spec fn decoded(field: Option<Seq<char>>) -> Option<Seq<char>> {
    match field {
        Some(text) => Some(spaces_decoded(text)),
        None => None,
    }
}

/// What the pairs of a command's query do: the device is matched
/// whatever its case, the action is read whatever its case, the keys of
/// the fields are taken as they stand.
pub open spec fn command_on_pairs(registry: RegistryView, pairs: Seq<(Seq<char>, Seq<char>)>)
    -> Result<RegistryView, RequestError> {
    command_outcome(
        registry,
        command_key(last_value(pairs, "device"@)),
        lowered(last_value(pairs, "action"@)),
        last_value(pairs, "target"@),
    )
}

/// What a command line does.
pub open spec fn command_request(registry: RegistryView, uri: Seq<char>) -> Result<
    RegistryView,
    RequestError,
> {
    match after_prefix(uri, COMMAND_PATH_LEN) {
        None => Err(RequestError::BadCommand),
        Some(query) => command_on_pairs(registry, query_pairs(query)),
    }
}

/// The device that the pairs of a status query ask for.
pub open spec fn status_on_pairs(registry: RegistryView, pairs: Seq<(Seq<char>, Seq<char>)>)
    -> Result<DeviceView, RequestError> {
    status_outcome(registry, decoded(last_value(pairs, "device"@)))
}

/// The device that a status line asks for. The whole query is read in
/// lower case, keys and values alike.
pub open spec fn status_request(registry: RegistryView, uri: Seq<char>) -> Result<
    DeviceView,
    RequestError,
> {
    match after_prefix(uri, STATUS_PATH_LEN) {
        None => Err(RequestError::BadStatusCommand),
        Some(query) => status_on_pairs(registry, query_pairs(lowercase(query))),
    }
}

impl Response {
    /// A served request that has only a text to send.
    pub fn acknowledge(text: &str) -> (response: Response)
        ensures
            response@ == acknowledgement(text@),
    {
        Response { status: STATUS_OK, body: Body::Text(String::from_str(text)) }
    }

    /// Turns a request down: the status code of a client error, and the
    /// error's text.
    pub fn reject(error: RequestError) -> (response: Response)
        ensures
            response@ == rejection(error),
    {
        Response { status: STATUS_UNPROCESSABLE, body: Body::Text(error.message()) }
    }
}

/// The string slice inside an optional string.
fn as_text(text: &Option<String>) -> (slice: Option<&str>)
    ensures
        text_view(slice) == match text {
            Some(t) => Some(t@),
            None => None,
        },
{
    match text {
        Some(t) => Some(t.as_str()),
        None => None,
    }
}

/// Reads the step of a command for a device with a table of `steps`
/// entries.
pub fn read_target(steps: usize, target: Option<&str>) -> (result: Result<
    Option<usize>,
    RequestError,
>)
    ensures
        result == command_target(steps as nat, text_view(target)),
{
    match target {
        None => Ok(None),
        Some(text) => match parse_index(text) {
            Some(k) => {
                if k < steps {
                    Ok(Some(k))
                } else {
                    Err(RequestError::TargetOutOfRange { steps })
                }
            },
            None => {
                if text.is_empty() {
                    Ok(None)
                } else {
                    Err(RequestError::BadTarget)
                }
            },
        },
    }
}

/// Carries a command out, given the key of its device, the lower-case
/// name of its action and the text of its step. On an error the registry
/// stays as it is.
pub fn execute_command(
    registry: &mut Registry,
    device: Option<&str>,
    action: Option<&str>,
    target: Option<&str>,
) -> (result: Result<(), RequestError>)
    ensures
        final(registry)@.wf(),
        match command_outcome(
            old(registry)@,
            text_view(device),
            text_view(action),
            text_view(target),
        ) {
            Ok(next) => result is Ok && final(registry)@ == next,
            Err(e) => result == Err::<(), RequestError>(e) && final(registry)@ == old(registry)@,
        },
{
    proof {
        use_type_invariant(&*registry);
    }
    let key = match device {
        Some(key) => key,
        None => {
            return Err(RequestError::DeviceFieldMissing);
        },
    };
    let index = match registry.find(key) {
        Some(index) => index,
        None => {
            return Err(RequestError::BadDeviceName);
        },
    };
    let name = match action {
        Some(name) => name,
        None => {
            return Err(RequestError::NoAction);
        },
    };
    let act = match Action::from_str(name) {
        Ok(act) => act,
        Err(_) => {
            return Err(RequestError::BadActionName);
        },
    };
    let steps = match registry.device(index) {
        Some(found) => found.steps(),
        None => {
            return Err(RequestError::BadDeviceName);
        },
    };
    let step = match read_target(steps, target) {
        Ok(step) => step,
        Err(e) => {
            return Err(e);
        },
    };
    match registry.take_action_at(index, act, step) {
        Ok(()) => Ok(()),
        Err(RegistryError::Refused(DeviceError::InvalidTarget)) => Err(RequestError::BadTarget),
        Err(RegistryError::Refused(DeviceError::InvalidAction)) => Err(
            RequestError::BadActionName,
        ),
        Err(RegistryError::NotFound) => Err(RequestError::BadDeviceName),
    }
}

/// Carries out the command that the pairs of a query hold.
pub fn command_from_pairs(registry: &mut Registry, pairs: &Vec<(&str, &str)>) -> (result: Result<
    (),
    RequestError,
>)
    ensures
        final(registry)@.wf(),
        match command_on_pairs(old(registry)@, pairs_view(pairs@)) {
            Ok(next) => result is Ok && final(registry)@ == next,
            Err(e) => result == Err::<(), RequestError>(e) && final(registry)@ == old(registry)@,
        },
{
    let device: Option<String> = match lookup(pairs, "device") {
        Some(field) => {
            let plain = decode_spaces(field);
            Some(to_lowercase(plain.as_str()))
        },
        None => None,
    };
    let action: Option<String> = match lookup(pairs, "action") {
        Some(field) => Some(to_lowercase(field)),
        None => None,
    };
    let target = lookup(pairs, "target");
    execute_command(registry, as_text(&device), as_text(&action), target)
}

/// Serves `GET /command?device=..&action=..&target=..`.
pub fn handle_command(registry: &mut Registry, uri: &str) -> (response: Response)
    ensures
        final(registry)@.wf(),
        match command_request(old(registry)@, uri@) {
            Ok(next) => response@ == acknowledgement("Command!!!!!"@) && final(registry)@ == next,
            Err(e) => response@ == rejection(e) && final(registry)@ == old(registry)@,
        },
{
    proof {
        use_type_invariant(&*registry);
    }
    let query = match skip_prefix(uri, COMMAND_PATH_LEN) {
        Some(query) => query,
        None => {
            return Response::reject(RequestError::BadCommand);
        },
    };
    let pairs = querify(query);
    match command_from_pairs(registry, &pairs) {
        Ok(()) => Response::acknowledge("Command!!!!!"),
        Err(e) => Response::reject(e),
    }
}

/// Finds the device that a status request asks for, given its key.
pub fn find_status(registry: &Registry, device: Option<&str>) -> (result: Result<
    Device,
    RequestError,
>)
    ensures
        match status_outcome(registry@, text_view(device)) {
            Ok(view) => result matches Ok(found) && found@ == view,
            Err(e) => result matches Err(other) && other == e,
        },
{
    let key = match device {
        Some(key) => key,
        None => {
            return Err(RequestError::NoDeviceName);
        },
    };
    let index = match registry.find(key) {
        Some(index) => index,
        None => {
            return Err(RequestError::DeviceNotFound);
        },
    };
    match registry.device(index) {
        Some(found) => Ok(found.snapshot()),
        None => Err(RequestError::DeviceNotFound),
    }
}

/// Finds the device that the pairs of a status query ask for.
pub fn status_from_pairs(registry: &Registry, pairs: &Vec<(&str, &str)>) -> (result: Result<
    Device,
    RequestError,
>)
    ensures
        match status_on_pairs(registry@, pairs_view(pairs@)) {
            Ok(view) => result matches Ok(found) && found@ == view,
            Err(e) => result matches Err(other) && other == e,
        },
{
    let device: Option<String> = match lookup(pairs, "device") {
        Some(field) => Some(decode_spaces(field)),
        None => None,
    };
    find_status(registry, as_text(&device))
}

/// Serves `GET /status?device=..`: the device as it stands.
pub fn handle_status(registry: &Registry, uri: &str) -> (response: Response)
    ensures
        match status_request(registry@, uri@) {
            Ok(view) => response@ == (ResponseView {
                status: STATUS_OK,
                body: BodyView::Device(view),
            }),
            Err(e) => response@ == rejection(e),
        },
{
    let query = match skip_prefix(uri, STATUS_PATH_LEN) {
        Some(query) => query,
        None => {
            return Response::reject(RequestError::BadStatusCommand);
        },
    };
    let folded = to_lowercase(query);
    let pairs = querify(folded.as_str());
    match status_from_pairs(registry, &pairs) {
        Ok(found) => Response { status: STATUS_OK, body: Body::Device(found) },
        Err(e) => Response::reject(e),
    }
}

/// Serves `GET /devices`: every device as it stands, in the order of the
/// registry.
pub fn handle_devices(registry: &Registry) -> (response: Response)
    ensures
        response@ == (ResponseView {
            status: STATUS_OK,
            body: BodyView::Devices(registry@.devices),
        }),
{
    Response { status: STATUS_OK, body: Body::Devices(registry.snapshots()) }
}

/// Serves `GET /`.
pub fn handle_root() -> (response: Response)
    ensures
        response@ == acknowledgement("payload!!!!!"@),
{
    Response::acknowledge("payload!!!!!")
}

/// A line that starts with `/command?` is served by the query that
/// follows it.
pub proof fn lemma_command_line(registry: RegistryView, query: Seq<char>)
    ensures
        command_request(registry, "/command?"@ + query) == command_on_pairs(
            registry,
            query_pairs(query),
        ),
{
    reveal_strlit("/command?");
    assert(is_ascii_chars("/command?"@));
    lemma_after_ascii_prefix("/command?"@, query);
}

/// A line that starts with `/status?` is served by the query that follows
/// it, read in lower case.
pub proof fn lemma_status_line(registry: RegistryView, query: Seq<char>)
    ensures
        status_request(registry, "/status?"@ + query) == status_on_pairs(
            registry,
            query_pairs(lowercase(query)),
        ),
{
    reveal_strlit("/status?");
    assert(is_ascii_chars("/status?"@));
    lemma_after_ascii_prefix("/status?"@, query);
}

} // verus!
