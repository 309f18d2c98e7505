//! A pairing window from its opening to its end: how what is scanned reaches the
//! window, and what comes of it.

use vstd::prelude::*;

#[allow(unused_imports)]
use crate::adv::seeks_dongle;
use crate::pairing::PairingWindow;
#[allow(unused_imports)]
use crate::pairing::{
    GATHER_US, WindowEvent, WindowPhase, first_seen_at, gathered, is_strongest,
    law_open_window_tracks_strongest, law_pick_is_the_strongest_seeker, seekers,
};
use crate::scan::ScanHandler;
#[allow(unused_imports)]
use crate::scan::{
    AdvReportView, ScanState, bonded_comes_first, last_seeker, law_batches_compose,
    law_one_report,
    lemma_first_comer_concat, lemma_last_seeker_concat,
};

verus! {

/// A pairing window together with what the scan handler knows.
pub struct HeldWindow {
    pub window: PairingWindow,
    pub scan: ScanState,
}

/// What happens while a pairing window is held.
pub enum WindowInput {
    /// The scan handler took in these reports: [`ScanHandler::on_adv_reports`].
    Reported { reports: Seq<AdvReportView> },
    /// The window was told at `now` what was seen: [`poll`].
    Polled { now: u64 },
    /// The clock reads `now`: [`PairingWindow::on_event`] with a timer.
    Ticked { now: u64 },
}

impl HeldWindow {
    /// This window, opened with nobody seen.
    pub open spec fn opened(window: PairingWindow, scan: ScanState) -> HeldWindow {
        HeldWindow { window, scan: scan.without_candidates() }
    }

    /// What the window is told. A closed window is told nothing more.
    pub open spec fn event(self, input: WindowInput) -> Option<WindowEvent> {
        if self.window.phase is Closed {
            None
        } else {
            match input {
                WindowInput::Reported { .. } => None,
                WindowInput::Polled { now } => self.scan.window_event(now),
                WindowInput::Ticked { now } => Some(WindowEvent::Timer { now }),
            }
        }
    }

    /// The window and the scan after an input.
    pub open spec fn after(self, input: WindowInput) -> HeldWindow {
        HeldWindow {
            window: match self.event(input) {
                Some(event) => self.window.step(event),
                None => self.window,
            },
            scan: match input {
                WindowInput::Reported { reports } => self.scan.after(reports),
                WindowInput::Polled { .. } => if self.window.phase is Closed {
                    self.scan
                } else {
                    self.scan.window_told()
                },
                WindowInput::Ticked { .. } => self.scan,
            },
        }
    }

    /// The window and the scan after a series of inputs.
    pub open spec fn run(self, inputs: Seq<WindowInput>) -> HeldWindow
        decreases inputs.len(),
    {
        if inputs.len() == 0 {
            self
        } else {
            self.run(inputs.drop_last()).after(inputs.last())
        }
    }

    /// All that the window is told, in order, up to what closes it.
    pub open spec fn told(self, inputs: Seq<WindowInput>) -> Seq<WindowEvent>
        decreases inputs.len(),
    {
        if inputs.len() == 0 {
            seq![]
        } else {
            let before = inputs.drop_last();
            match self.run(before).event(inputs.last()) {
                Some(event) => self.told(before).push(event),
                None => self.told(before),
            }
        }
    }
}

/// Tell an open window at `now` what was seen, if anything; returns whether there
/// was something to tell. A closed window is told nothing.
pub fn poll(window: &mut PairingWindow, scan: &mut ScanHandler, now: u64) -> (told: bool)
    requires
        now + GATHER_US <= u64::MAX,
    ensures
        (HeldWindow { window: *final(window), scan: final(scan)@ }) == (HeldWindow {
            window: *old(window),
            scan: old(scan)@,
        }).after(WindowInput::Polled { now }),
        told == ((HeldWindow { window: *old(window), scan: old(scan)@ }).event(
            WindowInput::Polled { now },
        ) is Some),
{
    if window.wake_at().is_none() {
        return false;
    }
    match scan.take_window_event(now) {
        Some(event) => {
            window.on_event(event);
            true
        },
        None => false,
    }
}

/// All reports that came in, in order.
pub open spec fn reports_of(inputs: Seq<WindowInput>) -> Seq<AdvReportView>
    decreases inputs.len(),
{
    if inputs.len() == 0 {
        seq![]
    } else {
        let before = reports_of(inputs.drop_last());
        match inputs.last() {
            WindowInput::Reported { reports } => before + reports,
            _ => before,
        }
    }
}

/// The clock has room for the time that seekers are collected.
pub open spec fn clock_has_room(inputs: Seq<WindowInput>) -> bool {
    forall|i: int|
        0 <= i < inputs.len() ==> (#[trigger] inputs[i] matches WindowInput::Polled { now } ==> now
            + GATHER_US <= u64::MAX)
}

proof fn lemma_clock_has_room(inputs: Seq<WindowInput>)
    requires
        clock_has_room(inputs),
        inputs.len() > 0,
    ensures
        clock_has_room(inputs.drop_last()),
        inputs.last() matches WindowInput::Polled { now } ==> now + GATHER_US <= u64::MAX,
{
    let before = inputs.drop_last();
    assert forall|i: int| 0 <= i < before.len() implies (
    #[trigger] before[i] matches WindowInput::Polled { now } ==> now + GATHER_US <= u64::MAX) by {
        assert(before[i] == inputs[i]);
    }
    assert(inputs[inputs.len() - 1] == inputs.last());
}

/// What the window is told leaves the clock the room it needs.
proof fn lemma_told_has_room(held: HeldWindow, inputs: Seq<WindowInput>)
    requires
        clock_has_room(inputs),
    ensures
        forall|i: int|
            0 <= i < held.told(inputs).len() ==> (#[trigger] held.told(
                inputs,
            )[i] matches WindowEvent::SeekerSeen { at, .. } ==> at + GATHER_US <= u64::MAX),
    decreases inputs.len(),
{
    if inputs.len() > 0 {
        lemma_clock_has_room(inputs);
        let before = inputs.drop_last();
        lemma_told_has_room(held, before);
        let old_told = held.told(before);
        let told = held.told(inputs);
        assert forall|i: int| 0 <= i < told.len() implies (
        #[trigger] told[i] matches WindowEvent::SeekerSeen { at, .. } ==> at + GATHER_US
            <= u64::MAX) by {
            if i < old_told.len() {
                assert(told[i] == old_told[i]);
            }
        }
    }
}

/// While a window waits, nothing of what was reported since it opened has been
/// taken out; one that gathers or has a pick was first reported a seeker.
proof fn lemma_first_report_decides(
    window: PairingWindow,
    scan: ScanState,
    inputs: Seq<WindowInput>,
)
    requires
        window.phase is Waiting,
    ensures
        ({
            let held = HeldWindow::opened(window, scan).run(inputs);
            let reports = reports_of(inputs);
            &&& held.window.deadline == window.deadline
            &&& match held.window.phase {
                WindowPhase::Waiting => held.scan == scan.without_candidates().after(reports),
                WindowPhase::Gathering { .. } | WindowPhase::Closed { pick: Some(_) } => {
                    &&& last_seeker(reports) is Some
                    &&& !bonded_comes_first(reports, scan.bonded_addr)
                },
                WindowPhase::Closed { pick: None } => true,
            }
        }),
    decreases inputs.len(),
{
    let fresh = scan.without_candidates();
    if inputs.len() == 0 {
        assert(last_seeker(reports_of(inputs)) is None);
        assert(fresh.after(reports_of(inputs)) == fresh);
    } else {
        let before = inputs.drop_last();
        lemma_first_report_decides(window, scan, before);
        match inputs.last() {
            WindowInput::Reported { reports } => {
                law_batches_compose(fresh, reports_of(before), reports);
                lemma_first_comer_concat(reports_of(before), reports, scan.bonded_addr);
                lemma_last_seeker_concat(reports_of(before), reports);
            },
            _ => {},
        }
    }
}

/// What becomes of a pairing window, whatever reports come in, whenever it is
/// told of them and whenever the clock is read. If the bonded keyboard was
/// reported before any seeker, there is no pick. A window that is closed has a
/// pick exactly if a seeker was taken out before the deadline, and the pick is
/// the strongest of the seekers taken out within two seconds of the first.
pub proof fn law_pairing_window(window: PairingWindow, scan: ScanState, inputs: Seq<WindowInput>)
    requires
        window.phase is Waiting,
        clock_has_room(inputs),
    ensures
        ({
            let opened = HeldWindow::opened(window, scan);
            let end = opened.run(inputs).window;
            let told = opened.told(inputs);
            &&& end == window.run(told)
            &&& bonded_comes_first(reports_of(inputs), scan.bonded_addr) ==> end.phase is Waiting
                || end.phase == (WindowPhase::Closed { pick: None })
            &&& match end.phase {
                WindowPhase::Waiting => seekers(told).len() == 0,
                WindowPhase::Gathering { best, rssi, .. } => {
                    &&& seekers(told).len() > 0
                    &&& first_seen_at(told) < window.deadline
                    &&& is_strongest(gathered(told), best, rssi)
                },
                WindowPhase::Closed { pick: Some(pick) } => {
                    &&& seekers(told).len() > 0
                    &&& first_seen_at(told) < window.deadline
                    &&& exists|rssi: i8| is_strongest(gathered(told), pick, rssi)
                },
                WindowPhase::Closed { pick: None } => {
                    seekers(told).len() == 0 || first_seen_at(told) >= window.deadline
                },
            }
        }),
    decreases inputs.len(),
{
    lemma_first_report_decides(window, scan, inputs);
    let opened = HeldWindow::opened(window, scan);
    if inputs.len() > 0 {
        let before = inputs.drop_last();
        lemma_clock_has_room(inputs);
        law_pairing_window(window, scan, before);
        lemma_told_has_room(opened, before);
        let old_told = opened.told(before);
        let told = opened.told(inputs);
        let held = opened.run(before);
        match held.event(inputs.last()) {
            Some(event) => {
                assert(told.drop_last() =~= old_told);
                lemma_told_has_room(opened, inputs);
                match window.run(told).phase {
                    WindowPhase::Closed { pick: Some(pick) } => {
                        law_pick_is_the_strongest_seeker(window, old_told, event, pick);
                        let rssi = choose|rssi: i8| is_strongest(gathered(old_told), pick, rssi);
                        assert(gathered(told) == gathered(old_told));
                        assert(is_strongest(gathered(told), pick, rssi));
                    },
                    WindowPhase::Closed { pick: None } => {},
                    _ => {
                        law_open_window_tracks_strongest(window, told);
                    },
                }
            },
            None => {},
        }
    }
}

/// A seeker that came first and was taken out in time is not lost: if a seeker was
/// reported, the bonded keyboard not before it, and the window, still open, was
/// polled after that and before its deadline, then whatever else happens before
/// and after, it goes on to gather or closes with a pick.
pub proof fn law_first_seeker_in_time_wins(
    window: PairingWindow,
    scan: ScanState,
    before: Seq<WindowInput>,
    now: u64,
    later: Seq<WindowInput>,
)
    requires
        window.phase is Waiting,
        !(HeldWindow::opened(window, scan).run(before).window.phase is Closed),
        last_seeker(reports_of(before)) is Some,
        !bonded_comes_first(reports_of(before), scan.bonded_addr),
        now < window.deadline,
    ensures
        match HeldWindow::opened(window, scan).run(
            before.push(WindowInput::Polled { now }) + later,
        ).window.phase {
            WindowPhase::Waiting => false,
            WindowPhase::Gathering { .. } => true,
            WindowPhase::Closed { pick } => pick is Some,
        },
    decreases later.len(),
{
    let opened = HeldWindow::opened(window, scan);
    let polled = before.push(WindowInput::Polled { now });
    if later.len() == 0 {
        lemma_first_report_decides(window, scan, before);
        assert(polled + later =~= polled);
        assert(polled.drop_last() =~= before);
    } else {
        law_first_seeker_in_time_wins(window, scan, before, now, later.drop_last());
        assert((polled + later).drop_last() =~= polled + later.drop_last());
    }
}

/// A window opens with nobody seen, and with the bonded keyboard watched as before.
pub proof fn law_window_opens_with_nobody_seen(window: PairingWindow, scan: ScanState)
    ensures
        ({
            let opened = HeldWindow::opened(window, scan);
            &&& opened.window == window
            &&& opened.scan.seeking_keyboard is None
            &&& !opened.scan.bonded_seen
            &&& !opened.scan.bonded_leads
            &&& opened.scan.bonded_addr == scan.bonded_addr
            &&& opened.scan.bonded_asked == scan.bonded_asked
        }),
{
}

/// Polling an open window, waiting or gathering and whatever its candidate, tells
/// it exactly what the scan handler has to tell: no seeker is taken out without
/// being told, and nothing else is told.
pub proof fn law_polling_tells_all_that_is_taken_out(held: HeldWindow, now: u64)
    requires
        !(held.window.phase is Closed),
    ensures
        held.scan.bonded_leads ==> {
            let next = held.after(WindowInput::Polled { now });
            &&& held.event(WindowInput::Polled { now }) == Some(WindowEvent::BondedSeen)
            &&& next.window == held.window.step(WindowEvent::BondedSeen)
            &&& next.scan.seeking_keyboard == held.scan.seeking_keyboard
            &&& !next.scan.bonded_leads && !next.scan.bonded_seen
        },
        !held.scan.bonded_leads ==> match held.scan.seeking_keyboard {
            Some((address, rssi)) => {
                let next = held.after(WindowInput::Polled { now });
                let told = WindowEvent::SeekerSeen { at: now, address, rssi };
                &&& held.event(WindowInput::Polled { now }) == Some(told)
                &&& next.window == held.window.step(told)
                &&& next.scan.seeking_keyboard is None
                &&& next.scan.bonded_seen == held.scan.bonded_seen
            },
            None => {
                let next = held.after(WindowInput::Polled { now });
                &&& held.scan.bonded_seen ==> {
                    &&& held.event(WindowInput::Polled { now }) == Some(WindowEvent::BondedSeen)
                    &&& next.window == held.window.step(WindowEvent::BondedSeen)
                    &&& !next.scan.bonded_seen
                }
                &&& !held.scan.bonded_seen ==> {
                    &&& held.event(WindowInput::Polled { now }) is None
                    &&& next == held
                }
            },
        },
{
}

/// Reports reach the handler and not the window; the clock reaches an open window
/// and not the handler; and a closed window is left as it is, with nothing taken
/// out for it.
pub proof fn law_reports_and_clock_stay_apart(
    held: HeldWindow,
    reports: Seq<AdvReportView>,
    now: u64,
)
    ensures
        held.after(WindowInput::Reported { reports }).window == held.window,
        held.after(WindowInput::Reported { reports }).scan == held.scan.after(reports),
        held.event(WindowInput::Reported { reports }) is None,
        held.after(WindowInput::Ticked { now }).scan == held.scan,
        !(held.window.phase is Closed) ==> held.after(WindowInput::Ticked { now }).window
            == held.window.step(WindowEvent::Timer { now }),
        held.window.phase is Closed ==> {
            &&& held.after(WindowInput::Ticked { now }) == held
            &&& held.after(WindowInput::Polled { now }) == held
            &&& held.event(WindowInput::Polled { now }) is None
        },
{
}

/// Each report taken in and the window polled right after it, at the time that
/// stands with the report.
pub open spec fn polled_after_each(seen: Seq<(AdvReportView, u64)>) -> Seq<WindowInput>
    decreases seen.len(),
{
    if seen.len() == 0 {
        seq![]
    } else {
        polled_after_each(seen.drop_last()).push(
            WindowInput::Reported { reports: seq![seen.last().0] },
        ).push(WindowInput::Polled { now: seen.last().1 })
    }
}

/// The report at `k` is of a seeker seen within two seconds of the one at `first`.
pub open spec fn seeks_in_time(seen: Seq<(AdvReportView, u64)>, first: int, k: int) -> bool {
    &&& first <= k < seen.len()
    &&& seeks_dongle(seen[k].0.data)
    &&& seen[k].1 <= seen[first].1 + 2_000_000
}

/// The report at `k` is of the strongest of the seekers seen within two seconds of
/// the one at `first`, and of the earliest of these if several are as strong.
pub open spec fn strongest_in_time(
    seen: Seq<(AdvReportView, u64)>,
    first: int,
    k: int,
) -> bool {
    &&& seeks_in_time(seen, first, k)
    &&& forall|j: int|
        #![trigger seen[j]]
        seeks_in_time(seen, first, j) ==> seen[j].0.rssi <= seen[k].0.rssi && (j < k
            ==> seen[j].0.rssi < seen[k].0.rssi)
}

/// One report and a poll right after it, with nothing left in the handler before:
/// the handler holds nothing afterwards, and the window was told what the report
/// says.
proof fn lemma_report_and_poll(held: HeldWindow, report: AdvReportView, now: u64)
    requires
        !(held.window.phase is Closed),
        held.scan.seeking_keyboard is None,
        !held.scan.bonded_seen,
        !held.scan.bonded_leads,
    ensures
        ({
            let reported = held.after(WindowInput::Reported { reports: seq![report] });
            let next = reported.after(WindowInput::Polled { now });
            &&& next.scan.seeking_keyboard is None
            &&& !next.scan.bonded_seen
            &&& !next.scan.bonded_leads
            &&& next.scan.bonded_addr == held.scan.bonded_addr
            &&& next.window == if seeks_dongle(report.data) {
                held.window.step(
                    WindowEvent::SeekerSeen { at: now, address: report.sender, rssi: report.rssi },
                )
            } else if held.scan.bonded_addr == Some(report.sender.addr) {
                held.window.step(WindowEvent::BondedSeen)
            } else {
                held.window
            }
        }),
{
    law_one_report(held.scan, report);
}

/// What a window that is polled after each report has come to, before any tick.
proof fn lemma_polled_after_each(
    window: PairingWindow,
    scan: ScanState,
    seen: Seq<(AdvReportView, u64)>,
    first: int,
)
    requires
        window.phase is Waiting,
        0 <= first,
        forall|i: int|
            #![trigger seen[i]]
            0 <= i < seen.len() ==> seen[i].1 + 2_000_000 <= u64::MAX,
        forall|i: int|
            #![trigger seen[i]]
            0 <= i < seen.len() && i < first ==> !seeks_dongle(seen[i].0.data)
                && scan.bonded_addr != Some(seen[i].0.sender.addr),
        first < seen.len() ==> seeks_dongle(seen[first].0.data) && seen[first].1
            < window.deadline,
    ensures
        ({
            let held = HeldWindow::opened(window, scan).run(polled_after_each(seen));
            &&& held.scan.seeking_keyboard is None
            &&& !held.scan.bonded_seen
            &&& !held.scan.bonded_leads
            &&& held.scan.bonded_addr == scan.bonded_addr
            &&& held.window.deadline == window.deadline
            &&& first >= seen.len() ==> held.window.phase is Waiting
            &&& first < seen.len() ==> {
                &&& held.window.phase matches WindowPhase::Gathering { best, rssi, until }
                &&& until == seen[first].1 + 2_000_000
                &&& exists|k: int|
                    #![trigger seen[k]]
                    strongest_in_time(seen, first, k) && seen[k].0.sender == best && seen[k].0.rssi
                        == rssi
            }
        }),
    decreases seen.len(),
{
    let opened = HeldWindow::opened(window, scan);
    if seen.len() > 0 {
        let before = seen.drop_last();
        let n = before.len() as int;
        assert(seen[n] == seen.last());
        assert forall|i: int| #![trigger before[i]] 0 <= i < before.len() implies before[i]
            == seen[i] by {}
        assert forall|i: int| #![trigger before[i]] 0 <= i < before.len() implies before[i].1
            + 2_000_000 <= u64::MAX by {
            assert(before[i] == seen[i]);
        }
        assert forall|i: int|
            #![trigger before[i]]
            0 <= i < before.len() && i < first implies !seeks_dongle(before[i].0.data)
            && scan.bonded_addr != Some(before[i].0.sender.addr) by {
            assert(before[i] == seen[i]);
        }
        if first < before.len() {
            assert(before[first] == seen[first]);
        }
        lemma_polled_after_each(window, scan, before, first);
        let (report, now) = seen.last();
        let held = opened.run(polled_after_each(before));
        let reported = polled_after_each(before).push(
            WindowInput::Reported { reports: seq![report] },
        );
        let polled = reported.push(WindowInput::Polled { now });
        assert(polled.drop_last() =~= reported);
        assert(reported.drop_last() =~= polled_after_each(before));
        assert(opened.run(reported) == held.after(
            WindowInput::Reported { reports: seq![report] },
        ));
        lemma_report_and_poll(held, report, now);
        let next = opened.run(polled);
        if first == n {
            assert(seeks_in_time(seen, first, n));
            assert(strongest_in_time(seen, first, n));
        } else if first < n {
            match held.window.phase {
                WindowPhase::Gathering { best, rssi, until } => {
                    let k = choose|k: int|
                        #![trigger before[k]]
                        strongest_in_time(before, first, k) && before[k].0.sender == best
                            && before[k].0.rssi == rssi;
                    assert(seen[k] == before[k]);
                    assert forall|j: int|
                        #![trigger seen[j]]
                        seeks_in_time(seen, first, j) && j < n implies seeks_in_time(
                        before,
                        first,
                        j,
                    ) && before[j] == seen[j] by {
                        assert(before[j] == seen[j]);
                    }
                    if seeks_in_time(seen, first, n) && report.rssi > rssi {
                        assert(strongest_in_time(seen, first, n));
                    } else {
                        assert(strongest_in_time(seen, first, k));
                    }
                },
                _ => {},
            }
        }
    }
}

/// A window that is polled after each report picks the strongest of the seekers
/// that were reported within two seconds of the first, the earliest of these if
/// several are as strong: if the bonded keyboard was not reported before the first
/// seeker, and that one was seen before the deadline, then a look at the clock two
/// seconds later, or at the deadline, closes the window with that pick.
pub proof fn law_strongest_reported_seeker_is_picked(
    window: PairingWindow,
    scan: ScanState,
    seen: Seq<(AdvReportView, u64)>,
    first: int,
    now: u64,
)
    requires
        window.phase is Waiting,
        forall|i: int|
            #![trigger seen[i]]
            0 <= i < seen.len() ==> seen[i].1 + 2_000_000 <= u64::MAX,
        0 <= first < seen.len(),
        seeks_dongle(seen[first].0.data),
        seen[first].1 < window.deadline,
        forall|i: int|
            #![trigger seen[i]]
            0 <= i < first ==> !seeks_dongle(seen[i].0.data) && scan.bonded_addr != Some(
                seen[i].0.sender.addr,
            ),
        now >= seen[first].1 + 2_000_000 || now >= window.deadline,
    ensures
        HeldWindow::opened(window, scan).run(
            polled_after_each(seen).push(WindowInput::Ticked { now }),
        ).window.phase matches WindowPhase::Closed { pick: Some(pick) } && exists|k: int|
            #![trigger seen[k]]
            strongest_in_time(seen, first, k) && seen[k].0.sender == pick,
{
    lemma_polled_after_each(window, scan, seen, first);
    let inputs = polled_after_each(seen);
    let ticked = inputs.push(WindowInput::Ticked { now });
    assert(ticked.drop_last() =~= inputs);
    let held = HeldWindow::opened(window, scan).run(inputs);
    match held.window.phase {
        WindowPhase::Gathering { best, rssi, .. } => {
            let k = choose|k: int|
                #![trigger seen[k]]
                strongest_in_time(seen, first, k) && seen[k].0.sender == best && seen[k].0.rssi
                    == rssi;
            assert(seen[k].0.sender == best);
        },
        _ => {},
    }
}

/// A window that is polled after each report has no pick if the bonded keyboard is
/// the first one reported: it closes at that report.
pub proof fn law_bonded_keyboard_reported_first_ends_the_window(
    window: PairingWindow,
    scan: ScanState,
    seen: Seq<(AdvReportView, u64)>,
)
    requires
        window.phase is Waiting,
        seen.len() > 0,
        forall|i: int|
            #![trigger seen[i]]
            0 <= i < seen.len() ==> seen[i].1 + 2_000_000 <= u64::MAX,
        forall|i: int|
            #![trigger seen[i]]
            0 <= i < seen.len() - 1 ==> !seeks_dongle(seen[i].0.data) && scan.bonded_addr != Some(
                seen[i].0.sender.addr,
            ),
        !seeks_dongle(seen.last().0.data),
        scan.bonded_addr == Some(seen.last().0.sender.addr),
    ensures
        HeldWindow::opened(window, scan).run(polled_after_each(seen)).window.phase == (
        WindowPhase::Closed { pick: None }),
{
    let opened = HeldWindow::opened(window, scan);
    let before = seen.drop_last();
    assert forall|i: int| #![trigger before[i]] 0 <= i < before.len() implies before[i].1
        + 2_000_000 <= u64::MAX by {
        assert(before[i] == seen[i]);
    }
    assert forall|i: int|
        #![trigger before[i]]
        0 <= i < before.len() && i < before.len() implies !seeks_dongle(before[i].0.data)
        && scan.bonded_addr != Some(before[i].0.sender.addr) by {
        assert(before[i] == seen[i]);
    }
    lemma_polled_after_each(window, scan, before, before.len() as int);
    let (report, now) = seen.last();
    let held = opened.run(polled_after_each(before));
    let reported = polled_after_each(before).push(WindowInput::Reported { reports: seq![report] });
    let polled = reported.push(WindowInput::Polled { now });
    assert(polled.drop_last() =~= reported);
    assert(reported.drop_last() =~= polled_after_each(before));
    assert(opened.run(reported) == held.after(WindowInput::Reported { reports: seq![report] }));
    lemma_report_and_poll(held, report, now);
}

} // verus!
