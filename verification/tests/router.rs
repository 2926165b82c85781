use dimmer::action::Action;
use dimmer::device::Device;
use dimmer::registry::Registry;
use dimmer::router::{
    command_from_pairs, execute_command, find_status, handle_command, handle_devices,
    handle_root, handle_status, read_target, status_from_pairs, Body, RequestError, Response,
    COMMAND_PATH_LEN, STATUS_OK, STATUS_PATH_LEN, STATUS_UNPROCESSABLE,
};

fn full_set() -> Vec<Action> {
    vec![Action::On, Action::Off, Action::Up, Action::Down, Action::SetTarget]
}

fn fixture(name: &str) -> Device {
    Device::new(name.to_string(), full_set(), vec![0, 2, 4, 8, 16, 32, 64, 96], 3, 1000)
        .unwrap()
}

fn flat() -> Registry {
    let mut r = Registry::new();
    r.register(fixture("bedroom light")).unwrap();
    r.register(fixture("kitchen light")).unwrap();
    r
}

fn text_of(response: &Response) -> &str {
    match &response.body {
        Body::Text(text) => text.as_str(),
        _ => panic!("the response carries no text"),
    }
}

fn rejected(response: &Response, message: &str) {
    assert_eq!(response.status, 422);
    assert_eq!(text_of(response), message);
}

fn targets(registry: &Registry) -> Vec<usize> {
    registry.snapshots().iter().map(|d| d.target()).collect()
}

#[test]
fn status_codes_and_prefixes() {
    assert_eq!(STATUS_OK, 200);
    assert_eq!(STATUS_UNPROCESSABLE, 422);
    assert_eq!(STATUS_PATH_LEN, "/status?".len());
    assert_eq!(COMMAND_PATH_LEN, "/command?".len());
}

#[test]
fn command_up_moves_bedroom_light_from_two_to_three() {
    let mut r = flat();
    r.take_action("bedroom light", Action::SetTarget, Some(2)).unwrap();
    let response = handle_command(&mut r, "/command?device=bedroom%20light&action=up");
    assert_eq!(response.status, 200);
    assert_eq!(text_of(&response), "Command!!!!!");
    assert_eq!(targets(&r), vec![3, 0]);
    assert_eq!(r.device(0).unwrap().action(), Action::Up);
    assert!(r.device(0).unwrap().is_updated());
}

#[test]
fn command_for_unknown_device_is_rejected() {
    let mut r = flat();
    let response = handle_command(&mut r, "/command?device=unknown&action=on");
    rejected(&response, "Bad Device name given");
    assert_eq!(targets(&r), vec![0, 0]);
}

#[test]
fn command_with_target_nine_on_a_table_of_eight_is_rejected() {
    let mut r = flat();
    let response =
        handle_command(&mut r, "/command?device=bedroom%20light&action=set&target=9");
    rejected(&response, "Target must be >= 0 & < 8");
    assert_eq!(targets(&r), vec![0, 0]);
}

#[test]
fn command_target_limit_is_the_length_of_the_table() {
    let mut r = flat();
    r.register(
        Device::new("strip".to_string(), full_set(), vec![0, 10, 20, 30, 40, 50, 60, 70, 80, 90, 95, 100], 5, 200).unwrap(),
    )
    .unwrap();
    let response = handle_command(&mut r, "/command?device=strip&action=set&target=11");
    assert_eq!(response.status, 200);
    assert_eq!(r.device(2).unwrap().target(), 11);
    let response = handle_command(&mut r, "/command?device=strip&action=set&target=12");
    rejected(&response, "Target must be >= 0 & < 12");
    assert_eq!(r.device(2).unwrap().target(), 11);
}

#[test]
fn command_set_reaches_each_step() {
    let mut r = flat();
    for k in 0..8usize {
        let uri = format!("/command?device=kitchen%20light&action=set&target={}", k);
        let response = handle_command(&mut r, &uri);
        assert_eq!(response.status, 200);
        assert_eq!(targets(&r), vec![0, k]);
    }
    let response = handle_command(&mut r, "/command?device=kitchen%20light&action=set&target=8");
    rejected(&response, "Target must be >= 0 & < 8");
    assert_eq!(targets(&r), vec![0, 7]);
}

#[test]
fn command_on_off_down() {
    let mut r = flat();
    assert_eq!(handle_command(&mut r, "/command?device=kitchen%20light&action=on").status, 200);
    assert_eq!(targets(&r), vec![0, 3]);
    assert_eq!(handle_command(&mut r, "/command?device=kitchen%20light&action=down").status, 200);
    assert_eq!(targets(&r), vec![0, 2]);
    assert_eq!(handle_command(&mut r, "/command?device=kitchen%20light&action=off").status, 200);
    assert_eq!(targets(&r), vec![0, 0]);
    assert_eq!(handle_command(&mut r, "/command?device=kitchen%20light&action=down").status, 200);
    assert_eq!(targets(&r), vec![0, 0]);
}

#[test]
fn command_matches_device_and_action_whatever_their_case() {
    let mut r = flat();
    let response = handle_command(&mut r, "/command?device=Bedroom%20LIGHT&action=UP");
    assert_eq!(response.status, 200);
    assert_eq!(targets(&r), vec![1, 0]);
    let response = handle_command(&mut r, "/command?device=KITCHEN light&action=Set&target=4");
    assert_eq!(response.status, 200);
    assert_eq!(targets(&r), vec![1, 4]);
}

#[test]
fn command_finds_a_device_registered_with_capitals() {
    let mut r = flat();
    r.register(fixture("Hall Lamp")).unwrap();
    let response = handle_command(&mut r, "/command?device=hall%20lamp&action=on");
    assert_eq!(response.status, 200);
    assert_eq!(targets(&r), vec![0, 0, 3]);
}

#[test]
fn command_reads_field_names_as_they_stand() {
    let mut r = flat();
    let response = handle_command(&mut r, "/command?Device=bedroom%20light&action=up");
    rejected(&response, "Device field not given");
    let response = handle_command(&mut r, "/command?device=bedroom%20light&ACTION=up");
    rejected(&response, "No Action given");
    assert_eq!(targets(&r), vec![0, 0]);
}

#[test]
fn command_line_that_ends_before_its_query_is_rejected() {
    let mut r = flat();
    rejected(&handle_command(&mut r, "/command"), "Bad Command given");
    rejected(&handle_command(&mut r, "/"), "Bad Command given");
    rejected(&handle_command(&mut r, ""), "Bad Command given");
}

#[test]
fn command_line_cut_inside_a_character_is_rejected() {
    let mut r = flat();
    rejected(&handle_command(&mut r, "/commandédevice=x&action=on"), "Bad Command given");
}

#[test]
fn command_without_device_field_is_rejected() {
    let mut r = flat();
    rejected(&handle_command(&mut r, "/command?"), "Device field not given");
    rejected(&handle_command(&mut r, "/command?action=up"), "Device field not given");
    rejected(&handle_command(&mut r, "/command?device"), "Device field not given");
}

#[test]
fn command_with_empty_device_is_a_bad_device_name() {
    let mut r = flat();
    rejected(&handle_command(&mut r, "/command?device=&action=up"), "Bad Device name given");
}

#[test]
fn command_without_action_is_rejected() {
    let mut r = flat();
    rejected(&handle_command(&mut r, "/command?device=bedroom%20light"), "No Action given");
}

#[test]
fn command_with_unknown_action_is_rejected() {
    let mut r = flat();
    rejected(
        &handle_command(&mut r, "/command?device=bedroom%20light&action=toggle"),
        "Bad Action name given",
    );
    rejected(
        &handle_command(&mut r, "/command?device=bedroom%20light&action="),
        "Bad Action name given",
    );
}

#[test]
fn command_checks_the_device_before_the_action() {
    let mut r = flat();
    rejected(&handle_command(&mut r, "/command?device=nope"), "Bad Device name given");
    rejected(&handle_command(&mut r, "/command?device=nope&action=toggle&target=x"), "Bad Device name given");
}

#[test]
fn command_checks_the_action_before_the_target() {
    let mut r = flat();
    rejected(
        &handle_command(&mut r, "/command?device=bedroom%20light&action=toggle&target=99"),
        "Bad Action name given",
    );
    rejected(
        &handle_command(&mut r, "/command?device=bedroom%20light&target=99"),
        "No Action given",
    );
}

#[test]
fn command_with_target_that_is_no_number_is_rejected() {
    let mut r = flat();
    for target in ["abc", "-1", "3.5", " 3", "3 ", "0x3", "+", "1e2"] {
        let uri = format!("/command?device=bedroom%20light&action=set&target={}", target);
        rejected(&handle_command(&mut r, &uri), "Bad Target given");
    }
    assert_eq!(targets(&r), vec![0, 0]);
}

#[test]
fn command_with_target_beyond_the_machine_word_is_a_bad_target() {
    let mut r = flat();
    let uri = "/command?device=bedroom%20light&action=set&target=340282366920938463463374607431768211456";
    rejected(&handle_command(&mut r, uri), "Bad Target given");
}

#[test]
fn command_accepts_a_plus_sign_and_leading_zeros() {
    let mut r = flat();
    assert_eq!(
        handle_command(&mut r, "/command?device=bedroom%20light&action=set&target=+5").status,
        200
    );
    assert_eq!(targets(&r), vec![5, 0]);
    assert_eq!(
        handle_command(&mut r, "/command?device=bedroom%20light&action=set&target=007").status,
        200
    );
    assert_eq!(targets(&r), vec![7, 0]);
}

#[test]
fn command_checks_the_target_of_any_action() {
    let mut r = flat();
    rejected(
        &handle_command(&mut r, "/command?device=bedroom%20light&action=up&target=9"),
        "Target must be >= 0 & < 8",
    );
    assert_eq!(targets(&r), vec![0, 0]);
    let response = handle_command(&mut r, "/command?device=bedroom%20light&action=up&target=6");
    assert_eq!(response.status, 200);
    assert_eq!(targets(&r), vec![1, 0]);
}

#[test]
fn command_with_empty_target_has_no_target() {
    let mut r = flat();
    let response = handle_command(&mut r, "/command?device=bedroom%20light&action=up&target=");
    assert_eq!(response.status, 200);
    assert_eq!(targets(&r), vec![1, 0]);
}

#[test]
fn command_set_without_target_is_rejected() {
    let mut r = flat();
    r.take_action("bedroom light", Action::SetTarget, Some(4)).unwrap();
    rejected(
        &handle_command(&mut r, "/command?device=bedroom%20light&action=set"),
        "Bad Target given",
    );
    rejected(
        &handle_command(&mut r, "/command?device=bedroom%20light&action=set&target="),
        "Bad Target given",
    );
    assert_eq!(targets(&r), vec![4, 0]);
    assert_eq!(r.device(0).unwrap().action(), Action::SetTarget);
}

#[test]
fn command_with_action_the_device_does_not_accept_is_rejected() {
    let mut r = flat();
    r.register(
        Device::new("fan".to_string(), vec![Action::On, Action::Off], vec![0, 100], 1, 50)
            .unwrap(),
    )
    .unwrap();
    rejected(&handle_command(&mut r, "/command?device=fan&action=up"), "Bad Action name given");
    assert_eq!(targets(&r), vec![0, 0, 0]);
    assert_eq!(handle_command(&mut r, "/command?device=fan&action=on").status, 200);
    assert_eq!(targets(&r), vec![0, 0, 1]);
}

#[test]
fn command_takes_the_last_of_repeated_fields() {
    let mut r = flat();
    let response = handle_command(
        &mut r,
        "/command?device=nope&action=off&device=kitchen%20light&target=2&action=set&target=6",
    );
    assert_eq!(response.status, 200);
    assert_eq!(targets(&r), vec![0, 6]);
}

#[test]
fn command_ignores_pieces_without_a_value() {
    let mut r = flat();
    let response =
        handle_command(&mut r, "/command?junk&device=kitchen%20light&&action=up&more");
    assert_eq!(response.status, 200);
    assert_eq!(targets(&r), vec![0, 1]);
}

#[test]
fn command_cuts_a_value_at_its_second_equals_sign() {
    let mut r = flat();
    let response =
        handle_command(&mut r, "/command?device=kitchen%20light=x&action=up=down");
    assert_eq!(response.status, 200);
    assert_eq!(targets(&r), vec![0, 1]);
}

#[test]
fn command_reads_only_percent_twenty_as_a_space() {
    let mut r = flat();
    rejected(
        &handle_command(&mut r, "/command?device=bedroom+light&action=up"),
        "Bad Device name given",
    );
    rejected(
        &handle_command(&mut r, "/command?device=bedroom%2Flight&action=up"),
        "Bad Device name given",
    );
}

#[test]
fn command_skips_nine_bytes_whatever_they_are() {
    let mut r = flat();
    let response = handle_command(&mut r, "123456789device=bedroom%20light&action=on");
    assert_eq!(response.status, 200);
    assert_eq!(targets(&r), vec![3, 0]);
}

#[test]
fn execute_command_takes_key_action_name_and_step_text() {
    let mut r = flat();
    assert_eq!(execute_command(&mut r, Some("bedroom light"), Some("set"), Some("6")), Ok(()));
    assert_eq!(targets(&r), vec![6, 0]);
    assert_eq!(
        execute_command(&mut r, None, Some("set"), Some("6")),
        Err(RequestError::DeviceFieldMissing)
    );
    assert_eq!(
        execute_command(&mut r, Some("Bedroom Light"), Some("set"), Some("6")),
        Err(RequestError::BadDeviceName)
    );
    assert_eq!(
        execute_command(&mut r, Some("bedroom light"), None, Some("6")),
        Err(RequestError::NoAction)
    );
    assert_eq!(
        execute_command(&mut r, Some("bedroom light"), Some("SET"), Some("6")),
        Err(RequestError::BadActionName)
    );
    assert_eq!(
        execute_command(&mut r, Some("bedroom light"), Some("set"), Some("8")),
        Err(RequestError::TargetOutOfRange { steps: 8 })
    );
    assert_eq!(
        execute_command(&mut r, Some("bedroom light"), Some("set"), Some("six")),
        Err(RequestError::BadTarget)
    );
    assert_eq!(
        execute_command(&mut r, Some("bedroom light"), Some("set"), None),
        Err(RequestError::BadTarget)
    );
    assert_eq!(targets(&r), vec![6, 0]);
}

#[test]
fn command_from_pairs_decodes_and_folds() {
    let mut r = flat();
    let pairs = vec![("device", "KITCHEN%20Light"), ("action", "On")];
    assert_eq!(command_from_pairs(&mut r, &pairs), Ok(()));
    assert_eq!(targets(&r), vec![0, 3]);
    let pairs = vec![("action", "on")];
    assert_eq!(command_from_pairs(&mut r, &pairs), Err(RequestError::DeviceFieldMissing));
}

#[test]
fn read_target_by_case() {
    assert_eq!(read_target(8, None), Ok(None));
    assert_eq!(read_target(8, Some("")), Ok(None));
    assert_eq!(read_target(8, Some("0")), Ok(Some(0)));
    assert_eq!(read_target(8, Some("7")), Ok(Some(7)));
    assert_eq!(read_target(8, Some("8")), Err(RequestError::TargetOutOfRange { steps: 8 }));
    assert_eq!(read_target(1, Some("1")), Err(RequestError::TargetOutOfRange { steps: 1 }));
    assert_eq!(read_target(8, Some("x")), Err(RequestError::BadTarget));
}

#[test]
fn error_messages() {
    assert_eq!(RequestError::BadStatusCommand.message(), "Bad Status command given");
    assert_eq!(RequestError::NoDeviceName.message(), "No Device name given");
    assert_eq!(RequestError::DeviceNotFound.message(), "Device name not found");
    assert_eq!(RequestError::BadCommand.message(), "Bad Command given");
    assert_eq!(RequestError::DeviceFieldMissing.message(), "Device field not given");
    assert_eq!(RequestError::BadDeviceName.message(), "Bad Device name given");
    assert_eq!(RequestError::NoAction.message(), "No Action given");
    assert_eq!(RequestError::BadActionName.message(), "Bad Action name given");
    assert_eq!(RequestError::BadTarget.message(), "Bad Target given");
    assert_eq!(
        RequestError::TargetOutOfRange { steps: 8 }.message(),
        "Target must be >= 0 & < 8"
    );
    assert_eq!(
        RequestError::TargetOutOfRange { steps: 120 }.message(),
        "Target must be >= 0 & < 120"
    );
    assert_eq!(
        RequestError::TargetOutOfRange { steps: 0 }.message(),
        "Target must be >= 0 & < 0"
    );
}

#[test]
fn reject_and_acknowledge_build_the_response() {
    let response = Response::reject(RequestError::NoAction);
    assert_eq!(response.status, 422);
    assert_eq!(text_of(&response), "No Action given");
    let response = Response::acknowledge("done");
    assert_eq!(response.status, 200);
    assert_eq!(text_of(&response), "done");
}

#[test]
fn status_returns_the_device_as_it_stands() {
    let mut r = flat();
    r.take_action("bedroom light", Action::SetTarget, Some(5)).unwrap();
    let response = handle_status(&r, "/status?device=bedroom%20light");
    assert_eq!(response.status, 200);
    match response.body {
        Body::Device(d) => {
            assert_eq!(d.name(), "bedroom light");
            assert_eq!(d.target(), 5);
            assert_eq!(d.action(), Action::SetTarget);
            assert_eq!(d.get_duty_cycle(), 32);
            assert_eq!(d.default_target(), 3);
            assert_eq!(d.frequency(), 1000);
            assert!(d.is_updated());
        }
        _ => panic!("the response carries no device"),
    }
}

#[test]
fn status_does_not_change_the_registry() {
    let mut r = flat();
    r.take_action("kitchen light", Action::On, None).unwrap();
    let _ = r.actuate(&vec![1023]);
    let _ = handle_status(&r, "/status?device=kitchen%20light");
    let _ = handle_status(&r, "/status?device=bedroom%20light");
    let _ = handle_devices(&r);
    assert_eq!(targets(&r), vec![0, 3]);
    assert!(!r.device(0).unwrap().is_updated());
    assert!(r.device(1).unwrap().is_updated());
}

#[test]
fn status_reads_the_whole_query_in_lower_case() {
    let r = flat();
    let response = handle_status(&r, "/status?DEVICE=Kitchen%20LIGHT");
    assert_eq!(response.status, 200);
    match response.body {
        Body::Device(d) => assert_eq!(d.name(), "kitchen light"),
        _ => panic!("the response carries no device"),
    }
}

#[test]
fn status_line_that_ends_before_its_query_is_rejected() {
    let r = flat();
    rejected(&handle_status(&r, "/status"), "Bad Status command given");
    rejected(&handle_status(&r, ""), "Bad Status command given");
    rejected(&handle_status(&r, "/statusé"), "Bad Status command given");
}

#[test]
fn status_without_device_is_rejected() {
    let r = flat();
    rejected(&handle_status(&r, "/status?"), "No Device name given");
    rejected(&handle_status(&r, "/status?action=up"), "No Device name given");
}

#[test]
fn status_of_unknown_device_is_rejected() {
    let r = flat();
    rejected(&handle_status(&r, "/status?device=garage"), "Device name not found");
    rejected(&handle_status(&r, "/status?device="), "Device name not found");
}

#[test]
fn find_status_goes_by_key() {
    let r = flat();
    assert_eq!(find_status(&r, Some("kitchen light")).unwrap().name(), "kitchen light");
    assert_eq!(find_status(&r, Some("Kitchen Light")).err(), Some(RequestError::DeviceNotFound));
    assert_eq!(find_status(&r, None).err(), Some(RequestError::NoDeviceName));
    let pairs = vec![("device", "x"), ("device", "bedroom%20light")];
    assert_eq!(status_from_pairs(&r, &pairs).unwrap().name(), "bedroom light");
}

#[test]
fn devices_lists_every_device_in_order() {
    let mut r = flat();
    r.take_action("kitchen light", Action::SetTarget, Some(2)).unwrap();
    let response = handle_devices(&r);
    assert_eq!(response.status, 200);
    match response.body {
        Body::Devices(all) => {
            assert_eq!(all.len(), 2);
            assert_eq!(all[0].name(), "bedroom light");
            assert_eq!(all[0].target(), 0);
            assert_eq!(all[1].name(), "kitchen light");
            assert_eq!(all[1].target(), 2);
        }
        _ => panic!("the response carries no devices"),
    }
}

#[test]
fn devices_of_an_empty_registry() {
    let response = handle_devices(&Registry::new());
    assert_eq!(response.status, 200);
    match response.body {
        Body::Devices(all) => assert!(all.is_empty()),
        _ => panic!("the response carries no devices"),
    }
}

#[test]
fn root_acknowledges() {
    let response = handle_root();
    assert_eq!(response.status, 200);
    assert_eq!(text_of(&response), "payload!!!!!");
}
