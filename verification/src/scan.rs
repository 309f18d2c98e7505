//! What the dongle learns from advertising reports.

use vstd::prelude::*;

use bt_hci::FromHciBytesError;
use bt_hci::param::{LeAdvEventKind, LeAdvReport, LeAdvReportsIter};

use crate::address::{Address, BdAddr};
use crate::adv::Adv;
#[allow(unused_imports)]
use crate::adv::seeks_dongle;
#[allow(unused_imports)]
use crate::pairing::{PairingWindow, WindowPhase};
use crate::pairing::WindowEvent;
use crate::signal::Signal;

verus! {

/// How an advertisement was sent.
#[derive(Clone, Copy, Debug, PartialEq, Eq, Structural)]
pub enum AdvEventKind {
    AdvInd,
    AdvDirectInd,
    AdvScanInd,
    AdvNonconnInd,
    ScanRsp,
}

/// One advertising report of the controller.
pub struct AdvReport {
    pub event_kind: AdvEventKind,
    /// The sender's address and address type.
    pub sender: Address,
    /// The advertising payload.
    pub data: Vec<u8>,
    /// Received signal strength, in dBm.
    pub rssi: i8,
}

/// The contents of an [`AdvReport`].
pub struct AdvReportView {
    pub event_kind: AdvEventKind,
    pub sender: Address,
    pub data: Seq<u8>,
    pub rssi: i8,
}

impl View for AdvReport {
    type V = AdvReportView;

    open spec fn view(&self) -> AdvReportView {
        AdvReportView {
            event_kind: self.event_kind,
            sender: self.sender,
            data: self.data@,
            rssi: self.rssi,
        }
    }
}

/// `bt_hci::param::LeAdvReportsIter`, which walks the advertising reports of one
/// controller event.
#[verifier::external_type_specification]
#[verifier::external_body]
pub struct ExLeAdvReportsIter<'a>(LeAdvReportsIter<'a>);

/// `bt_hci::param::LeAdvReport`, the item type of that iterator.
#[verifier::external_type_specification]
#[verifier::external_body]
pub struct ExLeAdvReport<'a>(LeAdvReport<'a>);

/// `bt_hci::FromHciBytesError`, the error type of that iterator.
#[verifier::external_type_specification]
#[verifier::external_body]
pub struct ExFromHciBytesError(FromHciBytesError);

/// The reports that the iterator has yet to hand out, up to its end or to the
/// first one whose bytes are malformed.
pub uninterp spec fn pending_reports(it: LeAdvReportsIter<'_>) -> Seq<AdvReportView>;

/// The next well-formed report.
///
/// Calls `LeAdvReportsIter::next`, which decodes one report from the front of
/// the bytes it holds and moves past it. Claimed of it: while a well-formed
/// report is pending it hands out the first one and keeps the others, in order;
/// once none is pending, it hands out no report but its end or an error.
#[verifier::external_body]
fn next_report(it: &mut LeAdvReportsIter<'_>) -> (report: Option<AdvReport>)
    ensures
        pending_reports(*old(it)).len() == 0 ==> report is None,
        pending_reports(*old(it)).len() > 0 ==> {
            &&& report is Some
            &&& report->0@ == pending_reports(*old(it)).first()
            &&& pending_reports(*final(it)) == pending_reports(*old(it)).drop_first()
        },
{
    let report = it.next()?.ok()?;
    let event_kind = match report.event_kind {
        LeAdvEventKind::AdvInd => AdvEventKind::AdvInd,
        LeAdvEventKind::AdvDirectInd => AdvEventKind::AdvDirectInd,
        LeAdvEventKind::AdvScanInd => AdvEventKind::AdvScanInd,
        LeAdvEventKind::AdvNonconnInd => AdvEventKind::AdvNonconnInd,
        LeAdvEventKind::ScanRsp => AdvEventKind::ScanRsp,
    };
    let addr = BdAddr { raw: report.addr.into_inner() };
    let sender = Address { kind: report.addr_kind.as_raw(), addr };
    Some(AdvReport { event_kind, sender, data: report.data.to_vec(), rssi: report.rssi })
}

impl AdvReportView {
    /// The sender looks for a dongle.
    pub open spec fn seeks(self) -> bool {
        seeks_dongle(self.data)
    }

    /// The sender is the keyboard at the watched address.
    pub open spec fn is_from(self, watched: Option<BdAddr>) -> bool {
        watched == Some(self.sender.addr)
    }

    /// The report shows the bonded keyboard advertising anything but a search
    /// for a dongle.
    pub open spec fn shows_bonded(self, watched: Option<BdAddr>) -> bool {
        self.is_from(watched) && !self.seeks()
    }

    /// By this report the bonded keyboard asks for the dongle: it seeks one
    /// again, or it advertises to this dongle alone. (The controller reports a
    /// directed advertisement to its target only.)
    pub open spec fn asks_for_dongle(self, watched: Option<BdAddr>) -> bool {
        self.is_from(watched) && (self.seeks() || self.event_kind is AdvDirectInd)
    }
}

/// The sender and the signal strength of the last report that seeks a dongle.
pub open spec fn last_seeker(reports: Seq<AdvReportView>) -> Option<(Address, i8)>
    decreases reports.len(),
{
    if reports.len() == 0 {
        None
    } else if reports.last().seeks() {
        Some((reports.last().sender, reports.last().rssi))
    } else {
        last_seeker(reports.drop_last())
    }
}

/// Some report shows the bonded keyboard advertising without seeking.
pub open spec fn any_shows_bonded(reports: Seq<AdvReportView>, watched: Option<BdAddr>) -> bool {
    exists|i: int| 0 <= i < reports.len() && (#[trigger] reports[i]).shows_bonded(watched)
}

/// By some report the bonded keyboard asks for the dongle.
pub open spec fn any_asks_for_dongle(reports: Seq<AdvReportView>, watched: Option<BdAddr>) -> bool {
    exists|i: int| 0 <= i < reports.len() && (#[trigger] reports[i]).asks_for_dongle(watched)
}

/// The bonded keyboard shows up, and nobody seeks a dongle before it does.
pub open spec fn bonded_comes_first(reports: Seq<AdvReportView>, watched: Option<BdAddr>) -> bool {
    exists|i: int|
        {
            &&& 0 <= i < reports.len()
            &&& (#[trigger] reports[i]).shows_bonded(watched)
            &&& forall|j: int| 0 <= j < i ==> !(#[trigger] reports[j]).seeks()
        }
}

/// What the scan handler tells the dongle's central. Inside the BLE runner it
/// has no access to bonds or profiles, so it only reports; the central decides.
pub struct ScanHandler {
    /// The bonded keyboard's address to watch.
    pub bonded_addr: Option<BdAddr>,
    /// The most recent keyboard seen seeking a dongle, and its signal strength.
    pub seeking_keyboard: Signal<(Address, i8)>,
    /// The bonded keyboard was seen advertising (anything but seeking). This
    /// blocks adopting a replacement; it never triggers a connect.
    pub bonded_seen: Signal<()>,
    /// The bonded keyboard was seen while no seeker waited to be taken out: it
    /// came first.
    pub bonded_leads: bool,
    /// The bonded keyboard asked for the dongle: a directed advertisement, or
    /// seeking again after clearing its bond. Only this triggers a connect.
    pub bonded_asked: Signal<()>,
}

/// What a [`ScanHandler`] knows.
pub struct ScanState {
    pub bonded_addr: Option<BdAddr>,
    pub seeking_keyboard: Option<(Address, i8)>,
    pub bonded_seen: bool,
    pub bonded_leads: bool,
    pub bonded_asked: bool,
}

impl View for ScanHandler {
    type V = ScanState;

    open spec fn view(&self) -> ScanState {
        ScanState {
            bonded_addr: self.bonded_addr,
            seeking_keyboard: self.seeking_keyboard@,
            bonded_seen: self.bonded_seen@ is Some,
            bonded_leads: self.bonded_leads,
            bonded_asked: self.bonded_asked@ is Some,
        }
    }
}

impl ScanState {
    /// What is known once these reports came in as well.
    pub open spec fn after(self, reports: Seq<AdvReportView>) -> ScanState {
        ScanState {
            bonded_addr: self.bonded_addr,
            seeking_keyboard: match last_seeker(reports) {
                Some(seeker) => Some(seeker),
                None => self.seeking_keyboard,
            },
            bonded_seen: self.bonded_seen || any_shows_bonded(reports, self.bonded_addr),
            bonded_leads: self.bonded_leads || (self.seeking_keyboard is None
                && bonded_comes_first(reports, self.bonded_addr)),
            bonded_asked: self.bonded_asked || any_asks_for_dongle(reports, self.bonded_addr),
        }
    }

    /// What there is to tell an open pairing window at `now`: that the bonded
    /// keyboard is there if it came first, else the latest seeker, else that the
    /// bonded keyboard is there.
    pub open spec fn window_event(self, now: u64) -> Option<WindowEvent> {
        if self.bonded_leads {
            Some(WindowEvent::BondedSeen)
        } else {
            match self.seeking_keyboard {
                Some((address, rssi)) => Some(WindowEvent::SeekerSeen { at: now, address, rssi }),
                None => if self.bonded_seen {
                    Some(WindowEvent::BondedSeen)
                } else {
                    None
                },
            }
        }
    }

    /// What is known once the pairing window was told.
    pub open spec fn window_told(self) -> ScanState {
        if !self.bonded_leads && self.seeking_keyboard is Some {
            ScanState { seeking_keyboard: None, ..self }
        } else {
            ScanState { bonded_seen: false, bonded_leads: false, ..self }
        }
    }

    /// With nobody seen.
    pub open spec fn without_candidates(self) -> ScanState {
        ScanState {
            seeking_keyboard: None,
            bonded_seen: false,
            bonded_leads: false,
            ..self
        }
    }
}

/// A pairing window is judged by what is seen while it is open, not by what was
/// seen before.
pub proof fn law_window_starts_afresh(
    state: ScanState,
    earlier: Seq<AdvReportView>,
    reports: Seq<AdvReportView>,
)
    ensures
        state.after(earlier).without_candidates().after(reports).seeking_keyboard == last_seeker(
            reports,
        ),
        state.after(earlier).without_candidates().after(reports).bonded_seen == any_shows_bonded(
            reports,
            state.bonded_addr,
        ),
        state.after(earlier).without_candidates().after(reports).bonded_leads == bonded_comes_first(
            reports,
            state.bonded_addr,
        ),
{
}

/// Whoever shows up first in a fresh window decides it. If it is the bonded
/// keyboard, that blocks adopting a replacement: the window closes without a
/// pick, though seekers followed. If it is a seeker, the window goes on with the
/// latest one, though the bonded keyboard followed; past its deadline it closes
/// instead. If it is nobody, the window is told nothing.
pub proof fn law_first_one_seen_decides_the_window(
    window: PairingWindow,
    state: ScanState,
    reports: Seq<AdvReportView>,
    now: u64,
)
    requires
        window.phase is Waiting,
    ensures
        ({
            let event = state.without_candidates().after(reports).window_event(now);
            if bonded_comes_first(reports, state.bonded_addr) {
                &&& event == Some(WindowEvent::BondedSeen)
                &&& window.step(event->0).phase == (WindowPhase::Closed { pick: None })
            } else {
                match last_seeker(reports) {
                    Some((address, rssi)) => {
                        &&& event == Some(WindowEvent::SeekerSeen { at: now, address, rssi })
                        &&& now < window.deadline ==> window.step(event->0).phase is Gathering
                        &&& now >= window.deadline ==> window.step(event->0).phase == (
                        WindowPhase::Closed { pick: None })
                    },
                    None => event is None,
                }
            }
        }),
{
    if last_seeker(reports) is None {
        lemma_no_last_seeker(reports);
        if any_shows_bonded(reports, state.bonded_addr) {
            let watched = state.bonded_addr;
            let i = choose|i: int|
                0 <= i < reports.len() && (#[trigger] reports[i]).shows_bonded(watched);
            assert(reports[i].shows_bonded(watched));
        }
    }
}

/// There is no last seeker exactly if nobody seeks.
proof fn lemma_no_last_seeker(reports: Seq<AdvReportView>)
    ensures
        last_seeker(reports) is None <==> forall|i: int|
            0 <= i < reports.len() ==> !(#[trigger] reports[i]).seeks(),
    decreases reports.len(),
{
    if reports.len() > 0 {
        let before = reports.drop_last();
        lemma_no_last_seeker(before);
        if last_seeker(reports) is None {
            assert forall|i: int| 0 <= i < reports.len() implies !(
            #[trigger] reports[i]).seeks() by {
                if i < before.len() {
                    assert(before[i] == reports[i]);
                }
            }
        } else if !reports.last().seeks() {
            let i = choose|i: int| 0 <= i < before.len() && (#[trigger] before[i]).seeks();
            assert(reports[i].seeks());
        } else {
            assert(reports[reports.len() - 1].seeks());
        }
    }
}

/// Only an ask ends the wait for one: with earlier asks forgotten, the bonded
/// keyboard is taken to ask for the dongle exactly if one of the reports since
/// says so.
pub proof fn law_only_an_ask_counts_as_one(state: ScanState, reports: Seq<AdvReportView>)
    ensures
        (ScanState { bonded_asked: false, ..state }).after(reports).bonded_asked
            <==> any_asks_for_dongle(reports, state.bonded_addr),
{
}

/// Reports may come in any grouping: one batch after another leaves the same
/// knowledge as both at once.
pub proof fn law_batches_compose(
    state: ScanState,
    first: Seq<AdvReportView>,
    second: Seq<AdvReportView>,
)
    ensures
        state.after(first).after(second) == state.after(first + second),
{
    lemma_last_seeker_concat(first, second);
    let watched = state.bonded_addr;
    let both = first + second;
    if any_shows_bonded(first, watched) {
        let i = choose|i: int| 0 <= i < first.len() && (#[trigger] first[i]).shows_bonded(watched);
        assert(both[i].shows_bonded(watched));
    }
    if any_shows_bonded(second, watched) {
        let i = choose|i: int|
            0 <= i < second.len() && (#[trigger] second[i]).shows_bonded(watched);
        assert(both[first.len() + i].shows_bonded(watched));
    }
    if any_shows_bonded(both, watched) {
        let i = choose|i: int| 0 <= i < both.len() && (#[trigger] both[i]).shows_bonded(watched);
        if i < first.len() {
            assert(first[i].shows_bonded(watched));
        } else {
            assert(second[i - first.len()].shows_bonded(watched));
        }
    }
    lemma_first_comer_concat(first, second, watched);
    if any_asks_for_dongle(first, watched) {
        let i = choose|i: int|
            0 <= i < first.len() && (#[trigger] first[i]).asks_for_dongle(watched);
        assert(both[i].asks_for_dongle(watched));
    }
    if any_asks_for_dongle(second, watched) {
        let i = choose|i: int|
            0 <= i < second.len() && (#[trigger] second[i]).asks_for_dongle(watched);
        assert(both[first.len() + i].asks_for_dongle(watched));
    }
    if any_asks_for_dongle(both, watched) {
        let i = choose|i: int| 0 <= i < both.len() && (#[trigger] both[i]).asks_for_dongle(watched);
        if i < first.len() {
            assert(first[i].asks_for_dongle(watched));
        } else {
            assert(second[i - first.len()].asks_for_dongle(watched));
        }
    }
}

/// The bonded keyboard comes first in two batches if it does in the first, or if
/// nobody seeks there and it does in the second.
pub(crate) proof fn lemma_first_comer_concat(
    first: Seq<AdvReportView>,
    second: Seq<AdvReportView>,
    watched: Option<BdAddr>,
)
    ensures
        bonded_comes_first(first + second, watched) <==> {
            ||| bonded_comes_first(first, watched)
            ||| last_seeker(first) is None && bonded_comes_first(second, watched)
        },
{
    let both = first + second;
    let n = first.len();
    lemma_no_last_seeker(first);
    if bonded_comes_first(first, watched) {
        let i = choose|i: int|
            {
                &&& 0 <= i < first.len()
                &&& (#[trigger] first[i]).shows_bonded(watched)
                &&& forall|j: int| 0 <= j < i ==> !(#[trigger] first[j]).seeks()
            };
        assert(both[i].shows_bonded(watched));
        assert forall|j: int| 0 <= j < i implies !(#[trigger] both[j]).seeks() by {
            assert(both[j] == first[j]);
        }
    }
    if last_seeker(first) is None && bonded_comes_first(second, watched) {
        let i = choose|i: int|
            {
                &&& 0 <= i < second.len()
                &&& (#[trigger] second[i]).shows_bonded(watched)
                &&& forall|j: int| 0 <= j < i ==> !(#[trigger] second[j]).seeks()
            };
        assert(both[n + i].shows_bonded(watched));
        assert forall|j: int| 0 <= j < n + i implies !(#[trigger] both[j]).seeks() by {
            if j < n {
                assert(both[j] == first[j]);
            } else {
                assert(both[j] == second[j - n]);
            }
        }
    }
    if bonded_comes_first(both, watched) {
        let i = choose|i: int|
            {
                &&& 0 <= i < both.len()
                &&& (#[trigger] both[i]).shows_bonded(watched)
                &&& forall|j: int| 0 <= j < i ==> !(#[trigger] both[j]).seeks()
            };
        if i < n {
            assert(first[i].shows_bonded(watched));
            assert forall|j: int| 0 <= j < i implies !(#[trigger] first[j]).seeks() by {
                assert(both[j] == first[j]);
            }
        } else {
            assert forall|j: int| 0 <= j < n implies !(#[trigger] first[j]).seeks() by {
                assert(both[j] == first[j]);
            }
            assert(second[i - n].shows_bonded(watched));
            assert forall|j: int| 0 <= j < i - n implies !(#[trigger] second[j]).seeks() by {
                assert(both[n + j] == second[j]);
            }
        }
    }
}

pub(crate) proof fn lemma_last_seeker_concat(first: Seq<AdvReportView>, second: Seq<AdvReportView>)
    ensures
        last_seeker(first + second) == match last_seeker(second) {
            Some(seeker) => Some(seeker),
            None => last_seeker(first),
        },
    decreases second.len(),
{
    if second.len() == 0 {
        assert(first + second =~= first);
    } else {
        assert((first + second).drop_last() =~= first + second.drop_last());
        lemma_last_seeker_concat(first, second.drop_last());
    }
}

/// An advertisement of the bonded keyboard to its host blocks adopting a
/// replacement but never triggers a connect.
pub proof fn law_host_advertisement_never_asks(state: ScanState, report: AdvReportView)
    requires
        report.is_from(state.bonded_addr),
        !report.seeks(),
        !(report.event_kind is AdvDirectInd),
    ensures
        state.after(seq![report]) == (ScanState {
            bonded_seen: true,
            bonded_leads: state.bonded_leads || state.seeking_keyboard is None,
            ..state
        }),
{
    let reports = seq![report];
    assert(reports[0].shows_bonded(state.bonded_addr));
    assert(!any_asks_for_dongle(reports, state.bonded_addr));
    assert(last_seeker(reports.drop_last()) is None);
}

/// A directed advertisement of the bonded keyboard triggers the connect.
pub proof fn law_directed_advertisement_asks(state: ScanState, report: AdvReportView)
    requires
        report.is_from(state.bonded_addr),
        !report.seeks(),
        report.event_kind is AdvDirectInd,
    ensures
        state.after(seq![report]) == (ScanState {
            bonded_seen: true,
            bonded_leads: state.bonded_leads || state.seeking_keyboard is None,
            bonded_asked: true,
            ..state
        }),
{
    let reports = seq![report];
    assert(reports[0].shows_bonded(state.bonded_addr));
    assert(reports[0].asks_for_dongle(state.bonded_addr));
    assert(last_seeker(reports.drop_last()) is None);
}

/// The bonded keyboard seeking again triggers the connect and competes as a
/// pairing candidate; it does not count as seen.
pub proof fn law_bonded_seeking_again_asks(state: ScanState, report: AdvReportView)
    requires
        report.is_from(state.bonded_addr),
        report.seeks(),
    ensures
        state.after(seq![report]) == (ScanState {
            seeking_keyboard: Some((report.sender, report.rssi)),
            bonded_asked: true,
            ..state
        }),
{
    let reports = seq![report];
    assert(reports[0].asks_for_dongle(state.bonded_addr));
    assert(!any_shows_bonded(reports, state.bonded_addr));
}

/// Another keyboard is a pairing candidate and nothing more, whatever it sends.
/// With no bond every keyboard is another one.
pub proof fn law_other_keyboards_are_candidates_only(
    state: ScanState,
    reports: Seq<AdvReportView>,
)
    requires
        forall|i: int|
            0 <= i < reports.len() ==> !(#[trigger] reports[i]).is_from(state.bonded_addr),
    ensures
        state.after(reports).bonded_seen == state.bonded_seen,
        state.after(reports).bonded_leads == state.bonded_leads,
        state.after(reports).bonded_asked == state.bonded_asked,
{
}

impl ScanHandler {
    /// A handler that watches no keyboard and has seen none.
    pub fn new() -> (handler: ScanHandler)
        ensures
            handler@ == (ScanState {
                bonded_addr: None,
                seeking_keyboard: None,
                bonded_seen: false,
                bonded_leads: false,
                bonded_asked: false,
            }),
    {
        ScanHandler {
            bonded_addr: None,
            seeking_keyboard: Signal::new(),
            bonded_seen: Signal::new(),
            bonded_leads: false,
            bonded_asked: Signal::new(),
        }
    }

    /// Watch the keyboard at this address, or none.
    pub fn watch(&mut self, addr: Option<BdAddr>)
        ensures
            final(self)@ == (ScanState { bonded_addr: addr, ..old(self)@ }),
    {
        self.bonded_addr = addr;
    }

    /// Forget who was seen before a pairing window opens.
    pub fn forget_candidates(&mut self)
        ensures
            final(self)@ == old(self)@.without_candidates(),
    {
        self.seeking_keyboard.reset();
        self.bonded_seen.reset();
        self.bonded_leads = false;
    }

    /// Forget that the bonded keyboard asked for the dongle, before waiting for
    /// it to ask.
    pub fn forget_ask(&mut self)
        ensures
            final(self)@ == (ScanState { bonded_asked: false, ..old(self)@ }),
    {
        self.bonded_asked.reset();
    }

    /// Take out what was seen for an open pairing window at `now`, by whoever
    /// came first.
    pub fn take_window_event(&mut self, now: u64) -> (event: Option<WindowEvent>)
        ensures
            event == old(self)@.window_event(now),
            final(self)@ == old(self)@.window_told(),
    {
        if !self.bonded_leads {
            if let Some((address, rssi)) = self.seeking_keyboard.try_take() {
                return Some(WindowEvent::SeekerSeen { at: now, address, rssi });
            }
        }
        let seen = self.bonded_seen.try_take().is_some() || self.bonded_leads;
        self.bonded_leads = false;
        if seen {
            Some(WindowEvent::BondedSeen)
        } else {
            None
        }
    }

    /// Take out whether the bonded keyboard asked for the dongle.
    pub fn take_ask(&mut self) -> (asked: bool)
        ensures
            asked == old(self)@.bonded_asked,
            final(self)@ == (ScanState { bonded_asked: false, ..old(self)@ }),
    {
        self.bonded_asked.try_take().is_some()
    }

    /// Take in the well-formed reports of one controller event, up to the first
    /// malformed one.
    pub fn on_adv_reports(&mut self, it: LeAdvReportsIter<'_>)
        ensures
            final(self)@ == old(self)@.after(pending_reports(it)),
    {
        let mut rest = it;
        let ghost mut done: Seq<AdvReportView> = seq![];
        assert(done + pending_reports(it) =~= pending_reports(it));
        assert(last_seeker(done) is None);
        loop
            invariant
                pending_reports(it) == done + pending_reports(rest),
                self@ == old(self)@.after(done),
            decreases pending_reports(rest).len(),
        {
            match next_report(&mut rest) {
                Some(report) => {
                    self.on_adv_report(&report);
                    proof {
                        law_batches_compose(old(self)@, done, seq![report@]);
                        done = done + seq![report@];
                        assert(pending_reports(it) =~= done + pending_reports(rest));
                    }
                },
                None => {
                    assert(done =~= pending_reports(it));
                    return;
                },
            }
        }
    }

    /// Take in one report.
    pub fn on_adv_report(&mut self, report: &AdvReport)
        ensures
            final(self)@ == old(self)@.after(seq![report@]),
    {
        let bonded = self.bonded_addr == Some(report.sender.addr);
        proof {
            let reports = seq![report@];
            assert(reports.drop_last() =~= seq![]);
            assert(last_seeker(reports.drop_last()) is None);
            let watched = self.bonded_addr;
            assert(report@.shows_bonded(watched) ==> reports[0].shows_bonded(watched));
            assert(report@.asks_for_dongle(watched) ==> reports[0].asks_for_dongle(watched));
            assert(bonded_comes_first(reports, watched) <==> report@.shows_bonded(watched));
        }
        if Adv::decode(&report.data) == Some(Adv::DongleSeeking) {
            self.seeking_keyboard.signal((report.sender, report.rssi));
            // Seeking again means it cleared its bond; the reconnect will re-pair.
            if bonded {
                self.bonded_asked.signal(());
            }
        } else if bonded {
            self.bonded_seen.signal(());
            if !self.seeking_keyboard.signaled() {
                self.bonded_leads = true;
            }
            // Directed advertisements are only reported to their target: us.
            if report.event_kind == AdvEventKind::AdvDirectInd {
                self.bonded_asked.signal(());
            }
        }
    }
}

/// What the scan handler knows of the bonded keyboard after some reports, from the
/// reports themselves: it was seen if some report came from its address and did not
/// seek a dongle; it asked if some report came from its address and sought a dongle
/// or was a directed advertisement; and it came first if it was seen with no seeker
/// known or reported before. What was known before stays known.
pub proof fn law_what_is_known_of_the_bonded_keyboard(
    state: ScanState,
    reports: Seq<AdvReportView>,
)
    ensures
        state.after(reports).bonded_addr == state.bonded_addr,
        state.after(reports).bonded_seen <==> state.bonded_seen || exists|i: int|
            0 <= i < reports.len() && state.bonded_addr == Some(
                (#[trigger] reports[i]).sender.addr,
            ) && !seeks_dongle(reports[i].data),
        state.after(reports).bonded_asked <==> state.bonded_asked || exists|i: int|
            0 <= i < reports.len() && state.bonded_addr == Some(
                (#[trigger] reports[i]).sender.addr,
            ) && (seeks_dongle(reports[i].data) || reports[i].event_kind is AdvDirectInd),
        state.after(reports).bonded_leads <==> state.bonded_leads || (
        state.seeking_keyboard is None && exists|i: int|
            {
                &&& 0 <= i < reports.len()
                &&& state.bonded_addr == Some((#[trigger] reports[i]).sender.addr)
                &&& !seeks_dongle(reports[i].data)
                &&& forall|j: int| 0 <= j < i ==> !seeks_dongle((#[trigger] reports[j]).data)
            }),
{
    let watched = state.bonded_addr;
    if any_shows_bonded(reports, watched) {
        let i = choose|i: int|
            0 <= i < reports.len() && (#[trigger] reports[i]).shows_bonded(watched);
        assert(watched == Some(reports[i].sender.addr));
    }
    if exists|i: int|
        0 <= i < reports.len() && watched == Some((#[trigger] reports[i]).sender.addr)
            && !seeks_dongle(reports[i].data) {
        let i = choose|i: int|
            0 <= i < reports.len() && watched == Some((#[trigger] reports[i]).sender.addr)
                && !seeks_dongle(reports[i].data);
        assert(reports[i].shows_bonded(watched));
    }
    if any_asks_for_dongle(reports, watched) {
        let i = choose|i: int|
            0 <= i < reports.len() && (#[trigger] reports[i]).asks_for_dongle(watched);
        assert(watched == Some(reports[i].sender.addr));
    }
    if exists|i: int|
        0 <= i < reports.len() && watched == Some((#[trigger] reports[i]).sender.addr) && (
        seeks_dongle(reports[i].data) || reports[i].event_kind is AdvDirectInd) {
        let i = choose|i: int|
            0 <= i < reports.len() && watched == Some((#[trigger] reports[i]).sender.addr) && (
            seeks_dongle(reports[i].data) || reports[i].event_kind is AdvDirectInd);
        assert(reports[i].asks_for_dongle(watched));
    }
    if bonded_comes_first(reports, watched) {
        let i = choose|i: int|
            {
                &&& 0 <= i < reports.len()
                &&& (#[trigger] reports[i]).shows_bonded(watched)
                &&& forall|j: int| 0 <= j < i ==> !(#[trigger] reports[j]).seeks()
            };
        assert forall|j: int| 0 <= j < i implies !seeks_dongle((#[trigger] reports[j]).data) by {
            assert(!reports[j].seeks());
        }
        assert(watched == Some(reports[i].sender.addr));
    }
    if exists|i: int|
        {
            &&& 0 <= i < reports.len()
            &&& watched == Some((#[trigger] reports[i]).sender.addr)
            &&& !seeks_dongle(reports[i].data)
            &&& forall|j: int| 0 <= j < i ==> !seeks_dongle((#[trigger] reports[j]).data)
        } {
        let i = choose|i: int|
            {
                &&& 0 <= i < reports.len()
                &&& watched == Some((#[trigger] reports[i]).sender.addr)
                &&& !seeks_dongle(reports[i].data)
                &&& forall|j: int| 0 <= j < i ==> !seeks_dongle((#[trigger] reports[j]).data)
            };
        assert(reports[i].shows_bonded(watched));
        assert forall|j: int| 0 <= j < i implies !(#[trigger] reports[j]).seeks() by {
            assert(!seeks_dongle(reports[j].data));
        }
    }
}

/// The latest of the reports that seek a dongle is the seeker that is known, with
/// its address and its signal strength; if none of them does, it is whoever was
/// known before.
pub proof fn law_latest_seeker_is_known(state: ScanState, reports: Seq<AdvReportView>)
    ensures
        forall|i: int|
            {
                &&& 0 <= i < reports.len()
                &&& seeks_dongle((#[trigger] reports[i]).data)
                &&& forall|j: int|
                    i < j < reports.len() ==> !seeks_dongle((#[trigger] reports[j]).data)
            } ==> state.after(reports).seeking_keyboard == Some(
                (reports[i].sender, reports[i].rssi),
            ),
        (forall|i: int| 0 <= i < reports.len() ==> !seeks_dongle((#[trigger] reports[i]).data))
            ==> state.after(reports).seeking_keyboard == state.seeking_keyboard,
{
    assert forall|i: int|
        {
            &&& 0 <= i < reports.len()
            &&& seeks_dongle((#[trigger] reports[i]).data)
            &&& forall|j: int| i < j < reports.len() ==> !seeks_dongle((#[trigger] reports[j]).data)
        } implies state.after(reports).seeking_keyboard == Some(
        (reports[i].sender, reports[i].rssi),
    ) by {
        lemma_last_seeker_is(reports, i);
    }
    if forall|i: int| 0 <= i < reports.len() ==> !seeks_dongle((#[trigger] reports[i]).data) {
        assert forall|i: int| 0 <= i < reports.len() implies !(#[trigger] reports[i]).seeks() by {
            assert(!seeks_dongle(reports[i].data));
        }
        lemma_no_last_seeker(reports);
    }
}

/// The report at `i` is the last seeker if it seeks and none after it does.
proof fn lemma_last_seeker_is(reports: Seq<AdvReportView>, i: int)
    requires
        0 <= i < reports.len(),
        seeks_dongle(reports[i].data),
        forall|j: int| i < j < reports.len() ==> !seeks_dongle((#[trigger] reports[j]).data),
    ensures
        last_seeker(reports) == Some((reports[i].sender, reports[i].rssi)),
    decreases reports.len(),
{
    if i < reports.len() - 1 {
        let before = reports.drop_last();
        assert(!seeks_dongle(reports[reports.len() - 1].data));
        assert forall|j: int| i < j < before.len() implies !seeks_dongle(
            (#[trigger] before[j]).data,
        ) by {
            assert(before[j] == reports[j]);
        }
        lemma_last_seeker_is(before, i);
    }
}

/// What a pairing window is told is taken out of the handler, and nothing is taken
/// out untold. The bonded keyboard, if it came first, is told before a seeker; a
/// seeker is told with its own address and signal strength at the time of the
/// asking; the bonded keyboard is told in the end if it was seen at all; and
/// nothing is told only if nobody was seen.
pub proof fn law_what_is_told_is_taken_out(state: ScanState, now: u64)
    ensures
        state.window_told().bonded_addr == state.bonded_addr,
        state.window_told().bonded_asked == state.bonded_asked,
        state.bonded_leads ==> {
            &&& state.window_event(now) == Some(WindowEvent::BondedSeen)
            &&& !state.window_told().bonded_leads
            &&& !state.window_told().bonded_seen
            &&& state.window_told().seeking_keyboard == state.seeking_keyboard
        },
        !state.bonded_leads && state.seeking_keyboard is Some ==> {
            &&& state.window_event(now) matches Some(WindowEvent::SeekerSeen { at, address, rssi })
            &&& at == now
            &&& state.seeking_keyboard == Some((address, rssi))
            &&& state.window_told().seeking_keyboard is None
            &&& state.window_told().bonded_seen == state.bonded_seen
            &&& !state.window_told().bonded_leads
        },
        !state.bonded_leads && state.seeking_keyboard is None && state.bonded_seen ==> {
            &&& state.window_event(now) == Some(WindowEvent::BondedSeen)
            &&& !state.window_told().bonded_seen
            &&& !state.window_told().bonded_leads
            &&& state.window_told().seeking_keyboard is None
        },
        !state.bonded_leads && state.seeking_keyboard is None && !state.bonded_seen ==> {
            &&& state.window_event(now) is None
            &&& state.window_told() == state
        },
{
}

/// Forgetting who was seen forgets just that: the bonded keyboard is watched as
/// before, and an ask of it still counts.
pub proof fn law_forgetting_candidates(state: ScanState)
    ensures
        state.without_candidates().seeking_keyboard is None,
        !state.without_candidates().bonded_seen,
        !state.without_candidates().bonded_leads,
        state.without_candidates().bonded_addr == state.bonded_addr,
        state.without_candidates().bonded_asked == state.bonded_asked,
{
}

/// The contents of a report and of a handler are those of their fields.
pub proof fn law_scan_contents_are_the_fields(report: AdvReport, handler: ScanHandler)
    ensures
        report@.event_kind == report.event_kind,
        report@.sender == report.sender,
        report@.data == report.data@,
        report@.rssi == report.rssi,
        handler@.bonded_addr == handler.bonded_addr,
        handler@.seeking_keyboard == handler.seeking_keyboard@,
        handler@.bonded_seen == (handler.bonded_seen@ is Some),
        handler@.bonded_leads == handler.bonded_leads,
        handler@.bonded_asked == (handler.bonded_asked@ is Some),
{
}

/// What one report changes: a seeker becomes the one that is known; the bonded
/// keyboard counts as seen if it does not seek, and as having asked if it seeks or
/// advertises to this dongle alone; any other report changes nothing.
pub proof fn law_one_report(state: ScanState, report: AdvReportView)
    ensures
        ({
            let next = state.after(seq![report]);
            let bonded = state.bonded_addr == Some(report.sender.addr);
            let seeks = seeks_dongle(report.data);
            &&& next.bonded_addr == state.bonded_addr
            &&& seeks ==> next.seeking_keyboard == Some((report.sender, report.rssi))
            &&& !seeks ==> next.seeking_keyboard == state.seeking_keyboard
            &&& bonded && !seeks ==> next.bonded_seen
            &&& !bonded || seeks ==> next.bonded_seen == state.bonded_seen
            &&& bonded && !seeks && state.seeking_keyboard is None ==> next.bonded_leads
            &&& !bonded || seeks || state.seeking_keyboard is Some ==> next.bonded_leads
                == state.bonded_leads
            &&& bonded && (seeks || report.event_kind is AdvDirectInd) ==> next.bonded_asked
            &&& !bonded || !(seeks || report.event_kind is AdvDirectInd) ==> next.bonded_asked
                == state.bonded_asked
        }),
{
    let reports = seq![report];
    let watched = state.bonded_addr;
    assert(last_seeker(reports.drop_last()) is None);
    assert(reports[0] == report);
    assert(any_shows_bonded(reports, watched) <==> report.shows_bonded(watched));
    assert(any_asks_for_dongle(reports, watched) <==> report.asks_for_dongle(watched));
    assert(bonded_comes_first(reports, watched) <==> report.shows_bonded(watched));
}

} // verus!
