use bt_hci::param::LeAdvReports;
use bt_hci::FromHciBytes;

use dongle::address::{Address, BdAddr};
use dongle::adv::Adv;
use dongle::pairing::WindowEvent;
use dongle::scan::{AdvEventKind, AdvReport, ScanHandler};

const BONDED: [u8; 6] = [1, 2, 3, 4, 5, 6];
const OTHER: [u8; 6] = [7, 8, 9, 10, 11, 12];

const ADV_IND: u8 = 0;
const ADV_DIRECT_IND: u8 = 1;

/// Flags + manufacturer-specific data naming a dongle-seeking advertisement.
const SEEKING_DATA: &[u8] = &[0x02, 0x01, 0x04, 0x04, 0xFF, 0x53, 0x52, 0x01];
/// A host advertisement carries no RMK payload; flags alone stand in for it.
const HOST_DATA: &[u8] = &[0x02, 0x01, 0x06];

/// One legacy advertising report as the controller lays it out:
/// count, kind, address kind, address, data length, data, rssi.
fn report(handler: &mut ScanHandler, event_kind: u8, addr: [u8; 6], data: &[u8]) {
    let mut bytes: heapless::Vec<u8, 64> = heapless::Vec::new();
    bytes.extend_from_slice(&[1, event_kind, 1]).unwrap();
    bytes.extend_from_slice(&addr).unwrap();
    bytes.push(data.len() as u8).unwrap();
    bytes.extend_from_slice(data).unwrap();
    bytes.push(0xC0).unwrap(); // rssi
    let (reports, _) = LeAdvReports::from_hci_bytes(&bytes).unwrap();
    handler.on_adv_reports(reports.iter());
}

fn bonded_handler() -> ScanHandler {
    let mut handler = ScanHandler::new();
    handler.watch(Some(BdAddr::new(BONDED)));
    handler
}

#[test]
fn a_host_advertisement_blocks_adoption_but_never_triggers_a_connect() {
    let mut handler = bonded_handler();
    report(&mut handler, ADV_IND, BONDED, HOST_DATA);
    assert!(handler.bonded_seen.signaled());
    assert!(!handler.bonded_asked.signaled());
}

#[test]
fn a_directed_advertisement_triggers_the_connect() {
    let mut handler = bonded_handler();
    report(&mut handler, ADV_DIRECT_IND, BONDED, &[]);
    assert!(handler.bonded_asked.signaled());
    assert!(handler.bonded_seen.signaled());
}

#[test]
fn the_bonded_keyboard_seeking_again_triggers_the_connect() {
    let mut handler = bonded_handler();
    report(&mut handler, ADV_IND, BONDED, SEEKING_DATA);
    assert!(handler.seeking_keyboard.signaled());
    assert!(handler.bonded_asked.signaled());
    // Seeking does not count as "seen": it competes in the window's RSSI pick instead.
    assert!(!handler.bonded_seen.signaled());
}

#[test]
fn another_keyboard_is_a_pairing_candidate_and_nothing_more() {
    let mut handler = bonded_handler();
    report(&mut handler, ADV_IND, OTHER, SEEKING_DATA);
    report(&mut handler, ADV_DIRECT_IND, OTHER, &[]);
    assert!(handler.seeking_keyboard.signaled());
    assert!(!handler.bonded_seen.signaled());
    assert!(!handler.bonded_asked.signaled());
}

#[test]
fn a_new_handler_knows_nothing() {
    let handler = ScanHandler::new();
    assert_eq!(handler.bonded_addr, None);
    assert!(!handler.seeking_keyboard.signaled());
    assert!(!handler.bonded_seen.signaled());
    assert!(!handler.bonded_asked.signaled());
}

#[test]
fn a_seeker_is_noted_with_its_address_and_strength() {
    let mut handler = ScanHandler::new();
    report(&mut handler, ADV_IND, OTHER, SEEKING_DATA);
    let (address, rssi) = handler.seeking_keyboard.try_take().unwrap();
    assert_eq!(address, Address { kind: 1, addr: BdAddr::new(OTHER) });
    assert_eq!(rssi, -64);
    assert!(!handler.seeking_keyboard.signaled());
}

#[test]
fn without_a_bond_every_keyboard_is_another_one() {
    let mut handler = ScanHandler::new();
    report(&mut handler, ADV_DIRECT_IND, BONDED, &[]);
    report(&mut handler, ADV_IND, BONDED, SEEKING_DATA);
    assert!(!handler.bonded_seen.signaled());
    assert!(!handler.bonded_asked.signaled());
}

/// Two reports in one event: the later seeker overwrites the earlier one.
fn two_seekers() -> Vec<u8> {
    let mut bytes = vec![2, ADV_IND, 0];
    bytes.extend_from_slice(&BONDED);
    bytes.push(SEEKING_DATA.len() as u8);
    bytes.extend_from_slice(SEEKING_DATA);
    bytes.push(0xD8);
    bytes.extend_from_slice(&[4, 1]);
    bytes.extend_from_slice(&OTHER);
    bytes.push(SEEKING_DATA.len() as u8);
    bytes.extend_from_slice(SEEKING_DATA);
    bytes.push(0xB0);
    bytes
}

#[test]
fn the_latest_seeker_of_an_event_counts() {
    let mut handler = bonded_handler();
    let bytes = two_seekers();
    let (reports, _) = LeAdvReports::from_hci_bytes(&bytes).unwrap();
    handler.on_adv_reports(reports.iter());
    let (address, rssi) = handler.seeking_keyboard.try_take().unwrap();
    assert_eq!(address, Address { kind: 1, addr: BdAddr::new(OTHER) });
    assert_eq!(rssi, -80);
    assert!(handler.bonded_asked.signaled());
}

#[test]
fn reports_after_a_malformed_one_are_not_taken_in() {
    // The second report has an unknown event kind.
    let mut bytes = two_seekers();
    let second = 1 + 9 + SEEKING_DATA.len() + 1;
    assert_eq!(bytes[second], 4);
    bytes[second] = 9;
    let mut handler = ScanHandler::new();
    let (reports, _) = LeAdvReports::from_hci_bytes(&bytes).unwrap();
    handler.on_adv_reports(reports.iter());
    let (address, rssi) = handler.seeking_keyboard.try_take().unwrap();
    assert_eq!(address, Address { kind: 0, addr: BdAddr::new(BONDED) });
    assert_eq!(rssi, -40);
}

#[test]
fn every_event_kind_is_told_apart() {
    for kind in [0u8, 2, 3, 4] {
        let mut handler = bonded_handler();
        report(&mut handler, kind, BONDED, HOST_DATA);
        assert!(handler.bonded_seen.signaled());
        assert!(!handler.bonded_asked.signaled());
    }
}

#[test]
fn one_report_at_a_time_is_the_same() {
    let mut handler = bonded_handler();
    handler.on_adv_report(&AdvReport {
        event_kind: AdvEventKind::AdvDirectInd,
        sender: Address { kind: 0, addr: BdAddr::new(BONDED) },
        data: HOST_DATA.to_vec(),
        rssi: -10,
    });
    assert!(handler.bonded_seen.signaled());
    assert!(handler.bonded_asked.signaled());
    assert!(!handler.seeking_keyboard.signaled());
}

#[test]
fn a_window_starts_afresh() {
    let mut handler = bonded_handler();
    report(&mut handler, ADV_IND, OTHER, SEEKING_DATA);
    report(&mut handler, ADV_DIRECT_IND, BONDED, &[]);
    handler.forget_candidates();
    assert!(!handler.seeking_keyboard.signaled());
    assert!(!handler.bonded_seen.signaled());
    assert!(handler.bonded_asked.signaled());
    handler.forget_ask();
    assert!(!handler.take_ask());
}

#[test]
fn window_events_are_taken_out_one_by_one() {
    let mut handler = bonded_handler();
    report(&mut handler, ADV_IND, OTHER, SEEKING_DATA);
    report(&mut handler, ADV_IND, BONDED, HOST_DATA);
    // The seeker came first.
    match handler.take_window_event(77) {
        Some(WindowEvent::SeekerSeen { at, address, rssi }) => {
            assert_eq!((at, address.addr, rssi), (77, BdAddr::new(OTHER), -64));
        }
        other => panic!("{:?}", other),
    }
    assert!(matches!(handler.take_window_event(78), Some(WindowEvent::BondedSeen)));
    assert!(handler.take_window_event(79).is_none());
}

#[test]
fn the_bonded_keyboard_is_told_first_if_it_came_first() {
    let mut handler = bonded_handler();
    report(&mut handler, ADV_IND, BONDED, HOST_DATA);
    report(&mut handler, ADV_IND, OTHER, SEEKING_DATA);
    assert!(matches!(handler.take_window_event(1), Some(WindowEvent::BondedSeen)));
    assert!(matches!(handler.take_window_event(2), Some(WindowEvent::SeekerSeen { .. })));
    assert!(handler.take_window_event(3).is_none());
}

#[test]
fn an_ask_is_taken_once() {
    let mut handler = bonded_handler();
    report(&mut handler, ADV_DIRECT_IND, BONDED, &[]);
    assert!(handler.take_ask());
    assert!(!handler.take_ask());
}

#[test]
fn payloads_are_read_structure_by_structure() {
    assert_eq!(Adv::decode(SEEKING_DATA), Some(Adv::DongleSeeking));
    assert_eq!(Adv::decode(&[0x04, 0xFF, 0x53, 0x52, 0x01]), Some(Adv::DongleSeeking));
    assert_eq!(Adv::decode(HOST_DATA), None);
    assert_eq!(Adv::decode(&[]), None);
    // Another company, another role, another type.
    assert_eq!(Adv::decode(&[0x04, 0xFF, 0x54, 0x52, 0x01]), None);
    assert_eq!(Adv::decode(&[0x04, 0xFF, 0x53, 0x52, 0x02]), None);
    assert_eq!(Adv::decode(&[0x04, 0xFE, 0x53, 0x52, 0x01]), None);
    // More content than the mark.
    assert_eq!(Adv::decode(&[0x05, 0xFF, 0x53, 0x52, 0x01, 0x00]), None);
    // Cut off, or after the end.
    assert_eq!(Adv::decode(&[0x04, 0xFF, 0x53, 0x52]), None);
    assert_eq!(Adv::decode(&[0x00, 0x04, 0xFF, 0x53, 0x52, 0x01]), None);
    // The bytes of the mark inside another structure do not count.
    assert_eq!(Adv::decode(&[0x06, 0x09, 0x04, 0xFF, 0x53, 0x52, 0x01]), None);
}
