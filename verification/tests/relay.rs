use dongle::gatt::{Characteristic, HostProtocol, KeyboardCharacteristics, RynkIds, Uuid};
use dongle::hid::{Report, SystemControlReport};
use dongle::relay::{after_host_write, chunk_size, led_write, request_size, route, RequestRelay, RequestReply, RequestStep, Route};

const RYNK: HostProtocol = HostProtocol::Rynk(RynkIds {
    service: Uuid::Uuid128(1),
    input: Uuid::Uuid128(2),
    output: Uuid::Uuid128(3),
});

fn ch(handle: u16) -> Characteristic {
    Characteristic { uuid: Uuid::Uuid16(0x2A4D), handle, cccd_handle: None }
}

fn keyboard() -> KeyboardCharacteristics {
    KeyboardCharacteristics {
        keyboard_input: ch(10),
        keyboard_output: ch(20),
        mouse: ch(30),
        media: ch(40),
        system: ch(50),
        config_input: ch(70),
        config_output: ch(80),
    }
}

#[test]
fn rynk_bytes_pass_unparsed() {
    let data = [0u8, 255, 1, 0, 7];
    match route(RYNK, &keyboard(), 70, &data) {
        Route::HostStream { bytes } => assert_eq!(bytes, &data),
        _ => panic!("not passed on"),
    }
}

#[test]
fn vial_reports_pass_whole_or_not_at_all() {
    let mut data = [0u8; 32];
    data[0] = 9;
    data[31] = 8;
    match route(HostProtocol::Vial, &keyboard(), 70, &data) {
        Route::HostReport { vial } => assert_eq!(vial, data),
        _ => panic!("not passed on"),
    }
    assert!(matches!(route(HostProtocol::Vial, &keyboard(), 70, &data[..31]), Route::Dropped));
    assert!(matches!(route(HostProtocol::Vial, &keyboard(), 70, &[0; 33]), Route::Dropped));
}

#[test]
fn everything_else_is_a_hid_report_or_dropped() {
    for protocol in [RYNK, HostProtocol::Vial] {
        match route(protocol, &keyboard(), 50, &[0x81]) {
            Route::Hid { report } => {
                assert_eq!(report, Report::SystemControlReport(SystemControlReport { usage_id: 0x81 }));
            }
            _ => panic!("not a report"),
        }
        assert!(matches!(route(protocol, &keyboard(), 10, &[1]), Route::Dropped));
        assert!(matches!(route(protocol, &keyboard(), 99, &[1; 40]), Route::Dropped));
    }
}

#[test]
fn a_cut_off_frame_is_delimited() {
    assert_eq!(after_host_write(true), Some(0));
    assert_eq!(after_host_write(false), None);
}

#[test]
fn chunks_fit_the_mtu_and_the_limit() {
    assert_eq!(chunk_size(244, 247), 244);
    assert_eq!(chunk_size(244, 512), 244);
    assert_eq!(chunk_size(244, 23), 20);
    assert_eq!(chunk_size(244, 4), 1);
    assert_eq!(chunk_size(244, 3), 1);
    assert_eq!(chunk_size(244, 0), 1);
    assert_eq!(chunk_size(0, 23), 1);
}

#[test]
fn requests_are_taken_one_write_at_a_time() {
    assert_eq!(request_size(RYNK, 244, 23), 20);
    assert_eq!(request_size(HostProtocol::Vial, 244, 23), 32);
}

#[test]
fn host_traffic_goes_to_the_right_characteristic() {
    assert_eq!(led_write(&keyboard(), 0b101), (20, [5]));
    let relay = RequestRelay::start(RYNK, 244, 23).next(&keyboard(), RequestReply::Taken { piece: vec![1, 2, 0] });
    match relay.step {
        RequestStep::Write { handle, bytes, rest } => {
            assert_eq!((handle, bytes), (80, vec![1, 2, 0]));
            assert!(rest.is_empty());
        }
        RequestStep::Take => panic!("not passed on"),
    }
}

/// Take these pieces, with each write failing or not in turn; the writes issued.
fn pass_on(protocol: HostProtocol, att_mtu: u16, pieces: &[Vec<u8>]) -> Vec<Vec<u8>> {
    let chars = keyboard();
    let mut writes: Vec<Vec<u8>> = Vec::new();
    let mut relay = RequestRelay::start(protocol, 244, att_mtu);
    for piece in pieces {
        assert!(matches!(relay.step, RequestStep::Take));
        relay = relay.next(&chars, RequestReply::Taken { piece: piece.clone() });
        while let RequestStep::Write { handle, bytes, .. } = &relay.step {
            assert_eq!(*handle, 80);
            writes.push(bytes.clone());
            let ok = writes.len() % 2 == 0;
            relay = relay.next(&chars, RequestReply::Written { ok });
        }
    }
    writes
}

#[test]
fn requests_reach_the_keyboard_in_order_whichever_writes_fail() {
    let pieces = [vec![1, 0, 2], vec![0], vec![9, 9]];
    assert_eq!(pass_on(RYNK, 23, &pieces), pieces);
    let report = [vec![7; 32]];
    assert_eq!(pass_on(HostProtocol::Vial, 23, &report), report);
}

#[test]
fn a_request_longer_than_one_write_is_split() {
    let piece: Vec<u8> = (0..45).collect();
    let writes = pass_on(RYNK, 23, &[piece.clone(), vec![]]);
    assert_eq!(writes, vec![piece[..20].to_vec(), piece[20..40].to_vec(), piece[40..].to_vec()]);
    assert_eq!(pass_on(RYNK, 0, &[vec![4, 5]]), vec![vec![4], vec![5]]);
}

#[test]
fn a_reply_to_another_request_step_changes_nothing() {
    let relay = RequestRelay::start(RYNK, 244, 23).next(&keyboard(), RequestReply::Written { ok: true });
    assert!(matches!(relay.step, RequestStep::Take));
}
