use dongle::address::{Address, BdAddr};
use dongle::pairing::{PairingWindow, WindowEvent, WindowPhase};

fn keyboard(n: u8) -> Address {
    Address { kind: 1, addr: BdAddr::new([n, 0, 0, 0, 0, 0]) }
}

fn seen(at: u64, n: u8, rssi: i8) -> WindowEvent {
    WindowEvent::SeekerSeen { at, address: keyboard(n), rssi }
}

fn run(window: &mut PairingWindow, events: &[WindowEvent]) {
    for event in events {
        window.on_event(*event);
    }
}

fn pick(window: &PairingWindow) -> Option<Option<Address>> {
    match window.phase {
        WindowPhase::Closed { pick } => Some(pick),
        _ => None,
    }
}

#[test]
fn a_window_lasts_as_long_as_it_was_opened_for() {
    let window = PairingWindow::open(5, 30);
    assert_eq!(window.deadline, 30_000_005);
    assert_eq!(window.wake_at(), Some(30_000_005));
    assert!(matches!(window.phase, WindowPhase::Waiting));
}

#[test]
fn the_strongest_within_two_seconds_is_picked() {
    let mut window = PairingWindow::open(0, 30);
    run(&mut window, &[seen(1_000_000, 1, -70), seen(1_500_000, 2, -40), seen(2_000_000, 3, -55)]);
    assert_eq!(window.wake_at(), Some(3_000_000));
    run(&mut window, &[WindowEvent::Timer { now: 2_999_999 }]);
    assert_eq!(pick(&window), None);
    run(&mut window, &[WindowEvent::Timer { now: 3_000_000 }]);
    assert_eq!(pick(&window), Some(Some(keyboard(2))));
    assert_eq!(window.wake_at(), None);
}

#[test]
fn of_two_equally_strong_the_first_is_picked() {
    let mut window = PairingWindow::open(0, 30);
    run(&mut window, &[seen(0, 1, -50), seen(1, 2, -50), WindowEvent::Timer { now: 2_000_000 }]);
    assert_eq!(pick(&window), Some(Some(keyboard(1))));
}

#[test]
fn the_bonded_keyboard_first_ends_the_window() {
    let mut window = PairingWindow::open(0, 30);
    run(&mut window, &[WindowEvent::BondedSeen, seen(1, 1, -50), WindowEvent::Timer { now: 9_000_000 }]);
    assert_eq!(pick(&window), Some(None));
}

#[test]
fn a_seeker_first_beats_the_bonded_keyboard() {
    let mut window = PairingWindow::open(0, 30);
    run(&mut window, &[seen(0, 1, -50), WindowEvent::BondedSeen]);
    assert_eq!(pick(&window), None);
    run(&mut window, &[WindowEvent::Timer { now: 2_000_000 }]);
    assert_eq!(pick(&window), Some(Some(keyboard(1))));
}

#[test]
fn an_empty_window_closes_at_its_deadline() {
    let mut window = PairingWindow::open(0, 1);
    run(&mut window, &[WindowEvent::Timer { now: 999_999 }]);
    assert_eq!(pick(&window), None);
    run(&mut window, &[WindowEvent::Timer { now: 1_000_000 }]);
    assert_eq!(pick(&window), Some(None));
}

#[test]
fn a_keyboard_found_late_in_the_window_is_not_lost() {
    let mut window = PairingWindow::open(0, 3);
    run(&mut window, &[seen(2_000_000, 1, -50)]);
    assert_eq!(window.wake_at(), Some(3_000_000));
    run(&mut window, &[WindowEvent::Timer { now: 2_999_999 }]);
    assert_eq!(pick(&window), None);
    run(&mut window, &[WindowEvent::Timer { now: 3_000_000 }]);
    assert_eq!(pick(&window), Some(Some(keyboard(1))));
}

#[test]
fn the_deadline_picks_the_strongest_so_far() {
    let mut window = PairingWindow::open(0, 30);
    run(&mut window, &[seen(29_000_000, 1, -70), seen(29_500_000, 2, -40), seen(29_600_000, 3, -60)]);
    run(&mut window, &[WindowEvent::BondedSeen, WindowEvent::Timer { now: 30_000_000 }]);
    assert_eq!(pick(&window), Some(Some(keyboard(2))));
}

#[test]
fn a_seeker_later_than_two_seconds_is_not_considered() {
    let mut window = PairingWindow::open(0, 30);
    run(&mut window, &[seen(0, 1, -70), seen(2_500_000, 2, -10), WindowEvent::Timer { now: 2_500_000 }]);
    assert_eq!(pick(&window), Some(Some(keyboard(1))));
    let mut window = PairingWindow::open(0, 30);
    run(&mut window, &[seen(0, 1, -70), seen(2_000_000, 2, -10), WindowEvent::Timer { now: 2_500_000 }]);
    assert_eq!(pick(&window), Some(Some(keyboard(2))));
}

#[test]
fn a_first_seeker_past_the_deadline_comes_too_late() {
    let mut window = PairingWindow::open(0, 3);
    run(&mut window, &[seen(3_000_000, 1, -50)]);
    assert_eq!(pick(&window), Some(None));
}

#[test]
fn a_collection_that_is_over_by_then_still_counts() {
    let mut window = PairingWindow::open(0, 3);
    run(&mut window, &[seen(2_000_000, 1, -50), WindowEvent::Timer { now: 4_000_000 }]);
    assert_eq!(pick(&window), Some(Some(keyboard(1))));
}

#[test]
fn a_closed_window_stays_closed() {
    let mut window = PairingWindow::open(0, 3);
    run(&mut window, &[WindowEvent::BondedSeen]);
    run(&mut window, &[seen(1, 1, 0), WindowEvent::BondedSeen, WindowEvent::Timer { now: 9_000_000 }]);
    assert_eq!(pick(&window), Some(None));
}
