use dongle::gatt::{
    notify_value, Characteristic, Discovery, DiscoveryReply, HostProtocol, KeyboardCharacteristics, Query, RynkIds,
    Uuid, HID_REPORT, HID_SERVICE,
};
use dongle::hid::{
    release_held_keys, KeyboardReport, MediaKeyboardReport, MouseReport, Report, SystemControlReport,
};

const IDS: RynkIds = RynkIds { service: Uuid::Uuid128(1), input: Uuid::Uuid128(2), output: Uuid::Uuid128(3) };

fn ch(handle: u16) -> Characteristic {
    Characteristic { uuid: Uuid::Uuid16(HID_REPORT), handle, cccd_handle: Some(handle + 1) }
}

fn other(handle: u16) -> Characteristic {
    Characteristic { uuid: Uuid::Uuid16(0x2A4E), handle, cccd_handle: None }
}

fn declared() -> Vec<Characteristic> {
    vec![other(1), ch(10), ch(20), other(2), ch(30), ch(40), ch(50), ch(60)]
}

fn keyboard() -> KeyboardCharacteristics {
    KeyboardCharacteristics {
        keyboard_input: ch(10),
        keyboard_output: ch(20),
        mouse: ch(30),
        media: ch(40),
        system: ch(50),
        config_input: ch(70),
        config_output: ch(80),
    }
}

fn drive(protocol: HostProtocol, steps: Vec<(Query, DiscoveryReply)>) -> Discovery {
    let mut discovery = Discovery::start();
    for (query, reply) in steps {
        assert_eq!(discovery.query(protocol), Some(query));
        discovery = discovery.next(protocol, reply);
    }
    discovery
}

fn hid_steps(services: usize) -> Vec<(Query, DiscoveryReply)> {
    vec![
        (Query::Services { uuid: Uuid::Uuid16(0x1812) }, DiscoveryReply::Services { count: services }),
        (Query::Characteristics { service: 0 }, DiscoveryReply::Characteristics { declared: declared() }),
    ]
}

#[test]
fn rynk_discovery_takes_the_reports_in_declaration_order() {
    let protocol = HostProtocol::Rynk(IDS);
    let mut steps = hid_steps(1);
    steps.push((Query::Services { uuid: IDS.service }, DiscoveryReply::Services { count: 1 }));
    steps.push((
        Query::Characteristic { service: 0, uuid: IDS.input },
        DiscoveryReply::Characteristic { found: ch(70) },
    ));
    steps.push((
        Query::Characteristic { service: 0, uuid: IDS.output },
        DiscoveryReply::Characteristic { found: ch(80) },
    ));
    let found = drive(protocol, steps);
    assert_eq!(found.query(protocol), None);
    match found {
        Discovery::Found { chars } => assert_eq!(chars, keyboard()),
        other => panic!("{:?}", other),
    }
}

#[test]
fn vial_discovery_uses_the_second_hid_service() {
    let mut steps = hid_steps(2);
    steps.push((
        Query::Characteristics { service: 1 },
        DiscoveryReply::Characteristics { declared: vec![other(3), ch(70), ch(80)] },
    ));
    match drive(HostProtocol::Vial, steps) {
        Discovery::Found { chars } => assert_eq!(chars, keyboard()),
        other => panic!("{:?}", other),
    }
}

#[test]
fn discovery_fails_when_something_is_missing() {
    let rynk = HostProtocol::Rynk(IDS);
    // No HID service, a failed question, too few reports.
    let none = Discovery::start().next(rynk, DiscoveryReply::Services { count: 0 });
    assert!(matches!(none, Discovery::Failed));
    let failed = Discovery::start().next(rynk, DiscoveryReply::Error);
    assert!(matches!(failed, Discovery::Failed));
    let few = Discovery::start()
        .next(rynk, DiscoveryReply::Services { count: 1 })
        .next(rynk, DiscoveryReply::Characteristics { declared: vec![ch(1), ch(2), ch(3), ch(4), other(5)] });
    assert!(matches!(few, Discovery::Failed));
    assert_eq!(few.query(rynk), None);
    // No Rynk service.
    let mut steps = hid_steps(1);
    steps.push((Query::Services { uuid: IDS.service }, DiscoveryReply::Services { count: 0 }));
    assert!(matches!(drive(rynk, steps), Discovery::Failed));
    // No second HID service, or not enough in it.
    assert!(matches!(drive(HostProtocol::Vial, hid_steps(1)), Discovery::Failed));
    let mut steps = hid_steps(2);
    steps.push((
        Query::Characteristics { service: 1 },
        DiscoveryReply::Characteristics { declared: vec![ch(70), other(80)] },
    ));
    assert!(matches!(drive(HostProtocol::Vial, steps), Discovery::Failed));
}

#[test]
fn the_short_uuids_are_those_of_the_host() {
    assert_eq!(trouble_host::prelude::Uuid::new_short(HID_SERVICE).as_raw(), &[0x12, 0x18]);
    assert_eq!(trouble_host::prelude::Uuid::new_short(HID_REPORT).as_raw(), &[0x4D, 0x2A]);
}

#[test]
fn each_subscription_is_written_once() {
    assert_eq!(keyboard().subscribe(), vec![11, 31, 41, 51, 71]);
    let mut chars = keyboard();
    chars.mouse.cccd_handle = None;
    chars.keyboard_input.cccd_handle = None;
    assert_eq!(chars.subscribe(), vec![41, 51, 71]);
    assert_eq!(notify_value(), [0x01, 0x00]);
}

#[test]
fn keyboard_notifications_become_keyboard_reports() {
    let data = [0x02, 0xEE, 4, 5, 6, 7, 8, 9];
    let wanted = KeyboardReport { modifier: 0x02, reserved: 0, leds: 0, keycodes: [4, 5, 6, 7, 8, 9] };
    assert_eq!(keyboard().report(10, &data), Some(Report::KeyboardReport(wanted)));
    // Longer is fine, shorter is not.
    assert_eq!(keyboard().report(10, &[0x02, 0, 4, 5, 6, 7, 8, 9, 99]), Some(Report::KeyboardReport(wanted)));
    assert_eq!(keyboard().report(10, &data[..7]), None);
}

#[test]
fn mouse_notifications_become_mouse_reports() {
    let wanted = MouseReport { buttons: 1, x: -1, y: 127, wheel: -128, pan: 2 };
    assert_eq!(keyboard().report(30, &[1, 0xFF, 0x7F, 0x80, 2]), Some(Report::MouseReport(wanted)));
    assert_eq!(keyboard().report(30, &[1, 2, 3, 4]), None);
}

#[test]
fn media_and_system_notifications_become_their_reports() {
    let media = MediaKeyboardReport { usage_id: 0x01E2 };
    assert_eq!(keyboard().report(40, &[0xE2, 0x01]), Some(Report::MediaKeyboardReport(media)));
    assert_eq!(keyboard().report(40, &[0xE2]), None);
    let system = SystemControlReport { usage_id: 0x82 };
    assert_eq!(keyboard().report(50, &[0x82]), Some(Report::SystemControlReport(system)));
    assert_eq!(keyboard().report(50, &[]), None);
}

#[test]
fn other_handles_carry_no_report() {
    assert_eq!(keyboard().report(20, &[0; 8]), None);
    assert_eq!(keyboard().report(70, &[0; 8]), None);
    assert_eq!(keyboard().report(99, &[0; 8]), None);
}

#[test]
fn everything_held_is_released() {
    let reports = release_held_keys();
    assert_eq!(
        reports,
        vec![
            Report::KeyboardReport(KeyboardReport { modifier: 0, reserved: 0, leds: 0, keycodes: [0; 6] }),
            Report::MouseReport(MouseReport { buttons: 0, x: 0, y: 0, wheel: 0, pan: 0 }),
            Report::MediaKeyboardReport(MediaKeyboardReport { usage_id: 0 }),
            Report::SystemControlReport(SystemControlReport { usage_id: 0 }),
        ]
    );
}
