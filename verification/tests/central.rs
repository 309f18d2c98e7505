use dongle::address::{Address, BdAddr};
use dongle::central::{CentralReply, CentralStep, Dongle, DongleCentral};
use dongle::pairing::WindowEvent;
use dongle::scan::{AdvEventKind, AdvReport, ScanHandler};
use dongle::secure::Peer;

const SEEKING_DATA: &[u8] = &[0x02, 0x01, 0x04, 0x04, 0xFF, 0x53, 0x52, 0x01];

fn keyboard(n: u8) -> Address {
    Address { kind: 1, addr: BdAddr::new([n; 6]) }
}

fn bond(n: u8) -> CentralReply {
    CentralReply::Bond { identity: Some(keyboard(n)) }
}

const NO_BOND: CentralReply = CentralReply::Bond { identity: None };

struct Search {
    central: DongleCentral,
    scan: ScanHandler,
}

impl Search {
    fn reply(&mut self, reply: CentralReply) {
        self.central.on_reply(&mut self.scan, reply);
    }

    fn step(&self) -> CentralStep {
        self.central.step
    }

    fn report(&mut self, event_kind: AdvEventKind, n: u8, data: &[u8]) {
        self.scan.on_adv_report(&AdvReport { event_kind, sender: keyboard(n), data: data.to_vec(), rssi: -50 });
    }
}

fn booted(reply: CentralReply) -> Search {
    let mut search = Search { central: DongleCentral::start(), scan: ScanHandler::new() };
    assert!(matches!(search.step(), CentralStep::AwaitHost));
    search.reply(CentralReply::Done);
    assert!(matches!(search.step(), CentralStep::LoadBonds));
    search.reply(CentralReply::Done);
    assert!(matches!(search.step(), CentralStep::HandOverBonds));
    search.reply(CentralReply::Done);
    assert!(matches!(search.step(), CentralStep::ReadBond { boot: true }));
    search.reply(reply);
    search
}

fn window(search: &mut Search, pick: Option<Address>) {
    assert!(matches!(search.step(), CentralStep::StartWindowScan { .. }));
    search.reply(CentralReply::ScanStarted { ok: true });
    assert!(matches!(search.step(), CentralStep::PairingWindow { .. }));
    search.reply(CentralReply::Picked { pick });
    assert!(matches!(search.step(), CentralStep::StopScan { .. }));
    search.reply(CentralReply::Done);
}

/// Past boot, waiting for keyboard 1 to ask.
fn waiting() -> Search {
    let mut search = booted(bond(1));
    window(&mut search, None);
    search.reply(bond(1));
    search.reply(CentralReply::Done);
    assert!(matches!(search.step(), CentralStep::AwaitAsk { .. }));
    search
}

#[test]
fn a_bonded_dongle_holds_one_window_at_boot() {
    let mut search = booted(bond(1));
    assert!(matches!(search.step(), CentralStep::StartWindowScan { boot: true }));
    assert_eq!(search.scan.bonded_addr, Some(BdAddr::new([1; 6])));
    window(&mut search, None);
    assert!(matches!(search.step(), CentralStep::ReadBond { boot: false }));
    search.reply(bond(1));
    match search.step() {
        CentralStep::StartAskScan { address } => assert_eq!(address, keyboard(1)),
        other => panic!("{:?}", other),
    }
    search.reply(CentralReply::Done);
    match search.step() {
        CentralStep::AwaitAsk { address } => assert_eq!(address, keyboard(1)),
        other => panic!("{:?}", other),
    }
}

#[test]
fn a_seeker_at_boot_replaces_the_bonded_keyboard() {
    let mut search = booted(bond(1));
    window(&mut search, Some(keyboard(2)));
    match search.step() {
        CentralStep::Connect { address, peer, boot } => {
            assert_eq!((address, peer, boot), (keyboard(2), Peer::New, true));
        }
        other => panic!("{:?}", other),
    }
    search.reply(CentralReply::Connected { ok: true });
    assert!(matches!(search.step(), CentralStep::RunConnection { peer: Peer::New, boot: true }));
    // No pause between boot and the loop.
    search.reply(CentralReply::Done);
    assert!(matches!(search.step(), CentralStep::ReadBond { boot: false }));
    search.reply(bond(2));
    assert_eq!(search.scan.bonded_addr, Some(BdAddr::new([2; 6])));
}

#[test]
fn a_failed_connect_at_boot_goes_on_to_the_loop() {
    let mut search = booted(bond(1));
    window(&mut search, Some(keyboard(2)));
    search.reply(CentralReply::Connected { ok: false });
    assert!(matches!(search.step(), CentralStep::ReadBond { boot: false }));
}

#[test]
fn a_window_whose_scan_never_starts_is_over() {
    let mut search = booted(bond(1));
    search.reply(CentralReply::ScanStarted { ok: false });
    assert!(matches!(search.step(), CentralStep::ReadBond { boot: false }));
    search.reply(NO_BOND);
    search.reply(CentralReply::ScanStarted { ok: false });
    assert!(matches!(search.step(), CentralStep::Pause));
}

#[test]
fn the_bonded_keyboard_is_connected_once_it_asks() {
    let mut search = waiting();
    search.report(AdvEventKind::AdvDirectInd, 1, &[]);
    search.reply(CentralReply::Scanned);
    assert!(matches!(search.step(), CentralStep::StopScan { found: Some((_, Peer::Bonded)), boot: false }));
    search.reply(CentralReply::Done);
    match search.step() {
        CentralStep::Connect { address, peer, boot } => {
            assert_eq!((address, peer, boot), (keyboard(1), Peer::Bonded, false));
        }
        other => panic!("{:?}", other),
    }
    search.reply(CentralReply::Connected { ok: true });
    assert!(matches!(search.step(), CentralStep::RunConnection { peer: Peer::Bonded, boot: false }));
    search.reply(CentralReply::Done);
    assert!(matches!(search.step(), CentralStep::Pause));
    search.reply(CentralReply::Done);
    assert!(matches!(search.step(), CentralStep::ReadBond { boot: false }));
}

#[test]
fn nothing_but_an_ask_of_the_bonded_keyboard_ends_the_wait() {
    let mut search = waiting();
    search.reply(CentralReply::Scanned);
    search.reply(CentralReply::Done);
    search.report(AdvEventKind::AdvInd, 1, &[0x02, 0x01, 0x06]);
    search.reply(CentralReply::Scanned);
    search.report(AdvEventKind::AdvDirectInd, 2, &[]);
    search.report(AdvEventKind::AdvInd, 2, SEEKING_DATA);
    search.reply(CentralReply::Scanned);
    assert!(matches!(search.step(), CentralStep::AwaitAsk { .. }));
    search.report(AdvEventKind::AdvInd, 1, SEEKING_DATA);
    search.reply(CentralReply::Scanned);
    assert!(matches!(search.step(), CentralStep::StopScan { .. }));
}

#[test]
fn an_ask_from_before_the_wait_does_not_count() {
    let mut search = booted(bond(1));
    search.report(AdvEventKind::AdvDirectInd, 1, &[]);
    assert!(search.scan.bonded_asked.signaled());
    window(&mut search, None);
    search.reply(bond(1));
    search.reply(CentralReply::Done);
    search.reply(CentralReply::Scanned);
    assert!(matches!(search.step(), CentralStep::AwaitAsk { .. }));
}

#[test]
fn whoever_was_seen_before_a_window_is_forgotten() {
    let mut search = booted(NO_BOND);
    search.report(AdvEventKind::AdvInd, 2, SEEKING_DATA);
    search.reply(NO_BOND);
    assert!(matches!(search.step(), CentralStep::StartWindowScan { boot: false }));
    assert!(search.scan.take_window_event(1).is_none());
    search.reply(CentralReply::ScanStarted { ok: true });
    search.report(AdvEventKind::AdvInd, 3, SEEKING_DATA);
    match search.scan.take_window_event(2) {
        Some(WindowEvent::SeekerSeen { at, address, rssi }) => assert_eq!((at, address, rssi), (2, keyboard(3), -50)),
        other => panic!("{:?}", other),
    }
}

#[test]
fn without_a_bond_windows_repeat_with_a_pause() {
    let mut search = booted(NO_BOND);
    assert!(matches!(search.step(), CentralStep::ReadBond { boot: false }));
    assert_eq!(search.scan.bonded_addr, None);
    search.reply(NO_BOND);
    assert!(matches!(search.step(), CentralStep::StartWindowScan { boot: false }));
    window(&mut search, None);
    assert!(matches!(search.step(), CentralStep::Pause));
    search.reply(CentralReply::Done);
    search.reply(NO_BOND);
    window(&mut search, Some(keyboard(3)));
    search.reply(CentralReply::Connected { ok: false });
    assert!(matches!(search.step(), CentralStep::Pause));
}

#[test]
fn a_lost_bond_opens_a_window() {
    let mut search = waiting();
    search.report(AdvEventKind::AdvDirectInd, 1, &[]);
    search.reply(CentralReply::Scanned);
    search.reply(CentralReply::Done);
    search.reply(CentralReply::Connected { ok: true });
    search.reply(CentralReply::Done);
    search.reply(CentralReply::Done);
    search.reply(NO_BOND);
    assert!(matches!(search.step(), CentralStep::StartWindowScan { boot: false }));
    assert_eq!(search.scan.bonded_addr, None);
}

#[test]
fn a_reply_that_does_not_belong_is_ignored() {
    let mut search = Search { central: DongleCentral::start(), scan: ScanHandler::new() };
    search.reply(CentralReply::Connected { ok: true });
    search.reply(CentralReply::Scanned);
    assert!(matches!(search.step(), CentralStep::AwaitHost));
}

#[test]
fn a_dongle_runs_once() {
    let router = 42u32;
    let mut dongle = Dongle::new("controller", [1, 2, 3, 4, 5, 6], &router);
    assert_eq!(dongle.random_address(), Address { kind: 1, addr: BdAddr::new([1, 2, 3, 4, 5, 6]) });
    assert_eq!(dongle.router(), &42);
    assert_eq!(dongle.take_controller(), Some("controller"));
    assert_eq!(dongle.take_controller(), None);
}
