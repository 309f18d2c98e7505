use dongle::address::{Address, BdAddr};
use dongle::pairing::{PairingWindow, WindowEvent, WindowPhase};
use dongle::scan::{AdvEventKind, AdvReport, ScanHandler};
use dongle::window::poll;

const SEEKING_DATA: &[u8] = &[0x02, 0x01, 0x04, 0x04, 0xFF, 0x53, 0x52, 0x01];
const HOST_DATA: &[u8] = &[0x02, 0x01, 0x06];

fn keyboard(n: u8) -> Address {
    Address { kind: 1, addr: BdAddr::new([n; 6]) }
}

struct Held {
    window: PairingWindow,
    scan: ScanHandler,
}

impl Held {
    /// A window of 30 s, while keyboard 1 is the bonded one.
    fn open() -> Held {
        let mut scan = ScanHandler::new();
        scan.watch(Some(keyboard(1).addr));
        Held { window: PairingWindow::open(0, 30), scan }
    }

    fn report(&mut self, n: u8, data: &[u8], rssi: i8) {
        let report = AdvReport { event_kind: AdvEventKind::AdvInd, sender: keyboard(n), data: data.to_vec(), rssi };
        self.scan.on_adv_report(&report);
    }

    fn poll(&mut self, now: u64) -> bool {
        poll(&mut self.window, &mut self.scan, now)
    }

    fn tick(&mut self, now: u64) {
        self.window.on_event(WindowEvent::Timer { now });
    }

    fn pick(&self) -> Option<Option<Address>> {
        match self.window.phase {
            WindowPhase::Closed { pick } => Some(pick),
            _ => None,
        }
    }
}

#[test]
fn the_bonded_keyboard_first_means_no_pick() {
    let mut held = Held::open();
    assert!(!held.poll(1));
    held.tick(2);
    held.report(1, HOST_DATA, -40);
    held.report(2, SEEKING_DATA, -10);
    assert!(held.poll(3));
    assert_eq!(held.pick(), Some(None));
    // A closed window takes nothing more out.
    assert!(!held.poll(4));
    assert!(held.scan.seeking_keyboard.signaled());
}

#[test]
fn the_strongest_taken_out_within_two_seconds_is_picked() {
    let mut held = Held::open();
    held.report(2, SEEKING_DATA, -70);
    assert!(held.poll(1_000_000));
    held.report(1, HOST_DATA, -1);
    held.report(3, SEEKING_DATA, -40);
    while held.poll(2_000_000) {}
    held.report(4, SEEKING_DATA, -60);
    while held.poll(2_500_000) {}
    held.report(5, SEEKING_DATA, -5);
    while held.poll(3_000_001) {}
    assert_eq!(held.pick(), None);
    held.tick(3_000_001);
    assert_eq!(held.pick(), Some(Some(keyboard(3))));
}

#[test]
fn a_seeker_taken_out_late_in_the_window_is_picked_at_its_deadline() {
    let mut held = Held::open();
    held.tick(29_000_000);
    held.report(2, SEEKING_DATA, -70);
    assert!(held.poll(29_999_999));
    held.tick(30_000_000);
    assert_eq!(held.pick(), Some(Some(keyboard(2))));
}

#[test]
fn an_empty_window_ends_without_a_pick() {
    let mut held = Held::open();
    held.report(2, HOST_DATA, -70);
    assert!(!held.poll(29_000_000));
    held.tick(30_000_000);
    assert_eq!(held.pick(), Some(None));
}
