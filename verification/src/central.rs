//! The dongle itself, and what its BLE central does over time.

use vstd::prelude::*;

use crate::address::{Address, BdAddr};
#[allow(unused_imports)]
use crate::scan::{AdvReportView, ScanState, any_asks_for_dongle, law_batches_compose};
use crate::scan::ScanHandler;
use crate::secure::Peer;

verus! {

/// How long the central rests between two rounds, in milliseconds.
pub const PAUSE_MS: u64 = 500;

/// The dongle: the parts it runs on. `C` is the BLE controller, `R` the router
/// that the USB side serves.
pub struct Dongle<'a, C, R> {
    /// Taken when the dongle starts to run.
    controller: Option<C>,
    address: [u8; 6],
    router: &'a R,
}

impl<'a, C, R> Dongle<'a, C, R> {
    /// The controller, while the dongle has not started to run.
    pub closed spec fn spec_controller(&self) -> Option<C> {
        self.controller
    }

    /// The bytes of the dongle's own address.
    pub closed spec fn spec_address(&self) -> [u8; 6] {
        self.address
    }

    /// The router.
    pub closed spec fn spec_router(&self) -> &'a R {
        self.router
    }

    /// `router` must be the one that this binary's USB transport serves.
    pub fn new(controller: C, address: [u8; 6], router: &'a R) -> (dongle: Dongle<'a, C, R>)
        ensures
            dongle.spec_controller() == Some(controller),
            dongle.spec_address() == address,
            dongle.spec_router() == router,
    {
        Dongle { controller: Some(controller), address, router }
    }

    /// Take the controller to run on; `None` if the dongle was started before.
    pub fn take_controller(&mut self) -> (controller: Option<C>)
        ensures
            controller == old(self).spec_controller(),
            final(self).spec_controller() is None,
            final(self).spec_address() == old(self).spec_address(),
            final(self).spec_router() == old(self).spec_router(),
    {
        self.controller.take()
    }

    /// The random address that the dongle uses.
    pub fn random_address(&self) -> (address: Address)
        ensures
            address.kind == 1,
            address.addr.raw == self.spec_address(),
    {
        Address::random(self.address)
    }

    /// The router that the USB side serves.
    pub fn router(&self) -> (router: &'a R)
        ensures
            router == self.spec_router(),
    {
        self.router
    }
}

/// What the central does next. `boot` marks the one attempt at boot to adopt a
/// keyboard while a bond exists.
#[derive(Clone, Copy, Debug)]
pub enum CentralStep {
    /// Wait until the BLE host has started.
    AwaitHost,
    /// Load the stored bond.
    LoadBonds,
    /// Hand the stored bond to the BLE host.
    HandOverBonds,
    /// Read the bond.
    ReadBond { boot: bool },
    /// Start to scan for this keyboard alone. Trying goes on until the scan
    /// starts.
    StartAskScan { address: Address },
    /// Wait until this keyboard asks for the dongle. Its bare address would match
    /// its host advertising too.
    AwaitAsk { address: Address },
    /// Open a pairing window, and start to scan for every keyboard until its
    /// deadline at most.
    StartWindowScan { boot: bool },
    /// Hold the pairing window.
    PairingWindow { boot: bool },
    /// Stop the scan, and wait until it has fully stopped: the connect that
    /// follows would fail otherwise. Then connect to what was found, if anything.
    StopScan { found: Option<(Address, Peer)>, boot: bool },
    /// Connect.
    Connect { address: Address, peer: Peer, boot: bool },
    /// Run the connection from start to end.
    RunConnection { peer: Peer, boot: bool },
    /// Rest for [`PAUSE_MS`].
    Pause,
}

/// What came of a step.
#[derive(Clone, Copy, Debug)]
pub enum CentralReply {
    /// The step is done.
    Done,
    /// The stored bond is to this keyboard, or there is none.
    Bond { identity: Option<Address> },
    /// The scan of a pairing window started, or did not before the deadline.
    ScanStarted { ok: bool },
    /// The scan handler may have something new to tell.
    Scanned,
    /// The pairing window picked this keyboard, or none.
    Picked { pick: Option<Address> },
    /// The connect succeeded or not.
    Connected { ok: bool },
}

/// Where the dongle's central stands: find a keyboard, connect, relay, repeat.
#[derive(Clone, Copy, Debug)]
pub struct DongleCentral {
    /// What to do next.
    pub step: CentralStep,
}

impl CentralStep {
    /// Where an attempt at a keyboard ends: at boot the loop begins, later it
    /// pauses first.
    pub open spec fn round_over(boot: bool) -> CentralStep {
        if boot {
            CentralStep::ReadBond { boot: false }
        } else {
            CentralStep::Pause
        }
    }

    /// The step after this one, given what the scan handler knows. A reply that
    /// does not belong to this step leaves it pending.
    pub open spec fn after(self, scan: ScanState, reply: CentralReply) -> CentralStep {
        match (self, reply) {
            (CentralStep::AwaitHost, CentralReply::Done) => CentralStep::LoadBonds,
            (CentralStep::LoadBonds, CentralReply::Done) => CentralStep::HandOverBonds,
            (CentralStep::HandOverBonds, CentralReply::Done) => CentralStep::ReadBond {
                boot: true,
            },
            (CentralStep::ReadBond { boot: true }, CentralReply::Bond { identity }) => {
                match identity {
                    Some(_) => CentralStep::StartWindowScan { boot: true },
                    None => CentralStep::ReadBond { boot: false },
                }
            },
            (CentralStep::ReadBond { boot: false }, CentralReply::Bond { identity }) => {
                match identity {
                    Some(address) => CentralStep::StartAskScan { address },
                    None => CentralStep::StartWindowScan { boot: false },
                }
            },
            (CentralStep::StartAskScan { address }, CentralReply::Done) => CentralStep::AwaitAsk {
                address,
            },
            (CentralStep::AwaitAsk { address }, CentralReply::Scanned) => if scan.bonded_asked {
                CentralStep::StopScan { found: Some((address, Peer::Bonded)), boot: false }
            } else {
                self
            },
            (CentralStep::StartWindowScan { boot }, CentralReply::ScanStarted { ok }) => if ok {
                CentralStep::PairingWindow { boot }
            } else {
                Self::round_over(boot)
            },
            (CentralStep::PairingWindow { boot }, CentralReply::Picked { pick }) => match pick {
                Some(address) => CentralStep::StopScan { found: Some((address, Peer::New)), boot },
                None => CentralStep::StopScan { found: None, boot },
            },
            (CentralStep::StopScan { found, boot }, CentralReply::Done) => match found {
                Some((address, peer)) => CentralStep::Connect { address, peer, boot },
                None => Self::round_over(boot),
            },
            (CentralStep::Connect { address: _, peer, boot }, CentralReply::Connected { ok }) => {
                if ok {
                    CentralStep::RunConnection { peer, boot }
                } else {
                    Self::round_over(boot)
                }
            },
            (CentralStep::RunConnection { peer: _, boot }, CentralReply::Done) => Self::round_over(
                boot,
            ),
            (CentralStep::Pause, CentralReply::Done) => CentralStep::ReadBond { boot: false },
            (step, _) => step,
        }
    }

    /// The step comes before the first read of the bond.
    pub open spec fn is_start_up(self) -> bool {
        self is AwaitHost || self is LoadBonds || self is HandOverBonds
    }

    /// The step belongs to the attempt at boot.
    pub open spec fn is_boot(self) -> bool {
        match self {
            CentralStep::AwaitHost | CentralStep::LoadBonds | CentralStep::HandOverBonds => true,
            CentralStep::ReadBond { boot }
            | CentralStep::StartWindowScan { boot }
            | CentralStep::PairingWindow { boot }
            | CentralStep::StopScan { boot, .. }
            | CentralStep::Connect { boot, .. }
            | CentralStep::RunConnection { boot, .. } => boot,
            CentralStep::StartAskScan { .. }
            | CentralStep::AwaitAsk { .. }
            | CentralStep::Pause => false,
        }
    }
}

/// The address of a bonded keyboard, to watch for.
pub open spec fn bond_addr(identity: Option<Address>) -> Option<BdAddr> {
    match identity {
        Some(address) => Some(address.addr),
        None => None,
    }
}

/// The central together with what its scan handler knows: the dongle's search
/// for a keyboard.
pub struct Search {
    pub central: DongleCentral,
    pub scan: ScanState,
}

/// What moves the search on.
pub enum SearchEvent {
    /// The central got this reply: [`DongleCentral::on_reply`].
    Replied { reply: CentralReply },
    /// The scan handler took in these reports: [`ScanHandler::on_adv_reports`].
    Reported { reports: Seq<AdvReportView> },
    /// A pairing window took out what was seen: [`ScanHandler::take_window_event`].
    WindowPolled,
}

impl Search {
    /// A search that has not begun.
    pub open spec fn fresh() -> Search {
        Search {
            central: DongleCentral { step: CentralStep::AwaitHost },
            scan: ScanState {
                bonded_addr: None,
                seeking_keyboard: None,
                bonded_seen: false,
                bonded_leads: false,
                bonded_asked: false,
            },
        }
    }

    /// What the scan handler knows after the central got a reply. When the bond
    /// is read its address is watched from then on, and whoever was seen before
    /// the scan that follows is forgotten. An ask that was told is taken out.
    pub open spec fn scan_after(self, reply: CentralReply) -> ScanState {
        match (self.central.step, reply) {
            (CentralStep::ReadBond { .. }, CentralReply::Bond { identity }) => {
                let watching = ScanState { bonded_addr: bond_addr(identity), ..self.scan };
                match self.central.step.after(self.scan, reply) {
                    CentralStep::StartAskScan { .. } => ScanState {
                        bonded_asked: false,
                        ..watching
                    },
                    CentralStep::StartWindowScan { .. } => watching.without_candidates(),
                    _ => watching,
                }
            },
            (CentralStep::AwaitAsk { .. }, CentralReply::Scanned) => ScanState {
                bonded_asked: false,
                ..self.scan
            },
            _ => self.scan,
        }
    }

    /// The search after an event.
    pub open spec fn after(self, event: SearchEvent) -> Search {
        match event {
            SearchEvent::Replied { reply } => Search {
                central: DongleCentral { step: self.central.step.after(self.scan, reply) },
                scan: self.scan_after(reply),
            },
            SearchEvent::Reported { reports } => Search {
                scan: self.scan.after(reports),
                ..self
            },
            SearchEvent::WindowPolled => Search { scan: self.scan.window_told(), ..self },
        }
    }

    /// The search after a series of events.
    pub open spec fn run(self, events: Seq<SearchEvent>) -> Search
        decreases events.len(),
    {
        if events.len() == 0 {
            self
        } else {
            self.run(events.drop_last()).after(events.last())
        }
    }

    /// What always holds of a search: it waits for, and connects as bonded to,
    /// only the keyboard that is watched; a window at boot means that there is a
    /// bond, one later that there is none.
    pub open spec fn well_formed(self) -> bool {
        let watched = self.scan.bonded_addr;
        match self.central.step {
            CentralStep::AwaitHost | CentralStep::LoadBonds | CentralStep::HandOverBonds => {
                watched is None
            },
            CentralStep::ReadBond { .. } | CentralStep::Pause => true,
            CentralStep::StartAskScan { address } | CentralStep::AwaitAsk { address } => watched
                == Some(address.addr),
            CentralStep::StartWindowScan { boot } | CentralStep::PairingWindow { boot } => boot
                <==> watched is Some,
            CentralStep::StopScan { found: Some((address, Peer::Bonded)), boot }
            | CentralStep::Connect { address, peer: Peer::Bonded, boot } => {
                !boot && watched == Some(address.addr)
            },
            CentralStep::RunConnection { peer: Peer::Bonded, boot } => !boot && watched is Some,
            CentralStep::StopScan { boot, .. }
            | CentralStep::Connect { boot, .. }
            | CentralStep::RunConnection { boot, .. } => boot <==> watched is Some,
        }
    }
}

impl DongleCentral {
    /// A central that has done nothing yet.
    pub fn start() -> (central: DongleCentral)
        ensures
            central == Search::fresh().central,
    {
        DongleCentral { step: CentralStep::AwaitHost }
    }

    /// Take in what came of the pending step, and tell the scan handler whom to
    /// watch and what to forget.
    pub fn on_reply(&mut self, scan: &mut ScanHandler, reply: CentralReply)
        ensures
            (Search { central: *final(self), scan: final(scan)@ }) == (Search {
                central: *old(self),
                scan: old(scan)@,
            }).after(SearchEvent::Replied { reply }),
    {
        match (self.step, reply) {
            (CentralStep::AwaitHost, CentralReply::Done) => {
                self.step = CentralStep::LoadBonds;
            },
            (CentralStep::LoadBonds, CentralReply::Done) => {
                self.step = CentralStep::HandOverBonds;
            },
            (CentralStep::HandOverBonds, CentralReply::Done) => {
                self.step = CentralStep::ReadBond { boot: true };
            },
            (CentralStep::ReadBond { boot }, CentralReply::Bond { identity }) => {
                match identity {
                    Some(address) => {
                        scan.watch(Some(address.addr));
                        // The only chance to pair while a bond exists: one window
                        // at boot, so a keyboard the user already set seeking can
                        // replace the bonded one.
                        if boot {
                            scan.forget_candidates();
                            self.step = CentralStep::StartWindowScan { boot: true };
                        } else {
                            scan.forget_ask();
                            self.step = CentralStep::StartAskScan { address };
                        }
                    },
                    None => {
                        scan.watch(None);
                        if boot {
                            self.step = CentralStep::ReadBond { boot: false };
                        } else {
                            scan.forget_candidates();
                            self.step = CentralStep::StartWindowScan { boot: false };
                        }
                    },
                }
            },
            (CentralStep::StartAskScan { address }, CentralReply::Done) => {
                self.step = CentralStep::AwaitAsk { address };
            },
            (CentralStep::AwaitAsk { address }, CentralReply::Scanned) => {
                if scan.take_ask() {
                    self.step =
                    CentralStep::StopScan { found: Some((address, Peer::Bonded)), boot: false };
                }
            },
            (CentralStep::StartWindowScan { boot }, CentralReply::ScanStarted { ok }) => {
                self.step =
                if ok {
                    CentralStep::PairingWindow { boot }
                } else {
                    Self::next_round(boot)
                };
            },
            (CentralStep::PairingWindow { boot }, CentralReply::Picked { pick }) => {
                self.step =
                match pick {
                    Some(address) => CentralStep::StopScan {
                        found: Some((address, Peer::New)),
                        boot,
                    },
                    None => CentralStep::StopScan { found: None, boot },
                };
            },
            (CentralStep::StopScan { found, boot }, CentralReply::Done) => {
                self.step =
                match found {
                    Some((address, peer)) => CentralStep::Connect { address, peer, boot },
                    None => Self::next_round(boot),
                };
            },
            (CentralStep::Connect { address: _, peer, boot }, CentralReply::Connected { ok }) => {
                self.step =
                if ok {
                    CentralStep::RunConnection { peer, boot }
                } else {
                    Self::next_round(boot)
                };
            },
            (CentralStep::RunConnection { peer: _, boot }, CentralReply::Done) => {
                self.step = Self::next_round(boot);
            },
            (CentralStep::Pause, CentralReply::Done) => {
                self.step = CentralStep::ReadBond { boot: false };
            },
            _ => {},
        }
    }

    fn next_round(boot: bool) -> (step: CentralStep)
        ensures
            step == CentralStep::round_over(boot),
    {
        if boot {
            CentralStep::ReadBond { boot: false }
        } else {
            CentralStep::Pause
        }
    }
}

/// A search keeps its invariant whatever happens.
pub proof fn law_search_stays_well_formed(search: Search, events: Seq<SearchEvent>)
    requires
        search.well_formed(),
    ensures
        search.run(events).well_formed(),
    decreases events.len(),
{
    if events.len() > 0 {
        law_search_stays_well_formed(search, events.drop_last());
    }
}

/// The address of the bond last read, or none if there was no bond or none was
/// read yet.
pub open spec fn last_bond_read(events: Seq<SearchEvent>) -> Option<BdAddr>
    decreases events.len(),
{
    if events.len() == 0 {
        None
    } else {
        let before = events.drop_last();
        match (Search::fresh().run(before).central.step, events.last()) {
            (
                CentralStep::ReadBond { .. },
                SearchEvent::Replied { reply: CentralReply::Bond { identity } },
            ) => bond_addr(identity),
            _ => last_bond_read(before),
        }
    }
}

/// The scan handler watches the bonded keyboard: at every moment, and so whenever
/// a pairing window or the wait for an ask begins, its address is that of the
/// bond last read, or none if there is no bond.
pub proof fn law_scan_watches_the_bond(events: Seq<SearchEvent>)
    ensures
        Search::fresh().run(events).scan.bonded_addr == last_bond_read(events),
    decreases events.len(),
{
    if events.len() > 0 {
        law_scan_watches_the_bond(events.drop_last());
    }
}

/// Every scan begins right after the bond was read, with that bond's address
/// watched and with nothing left of what was seen before: for a pairing window
/// nobody was seen, and for the bonded keyboard alone it has not asked.
pub proof fn law_scans_begin_afresh(search: Search, event: SearchEvent)
    ensures
        search.after(event).central.step is StartWindowScan && !(
        search.central.step is StartWindowScan) ==> {
            let scan = search.after(event).scan;
            &&& event matches SearchEvent::Replied { reply: CentralReply::Bond { identity } }
            &&& scan.bonded_addr == bond_addr(identity)
            &&& scan == scan.without_candidates()
        },
        search.after(event).central.step is StartAskScan && !(
        search.central.step is StartAskScan) ==> {
            let scan = search.after(event).scan;
            &&& event matches SearchEvent::Replied { reply: CentralReply::Bond { identity } }
            &&& identity is Some
            &&& search.after(event).central.step == (CentralStep::StartAskScan {
                address: identity->0,
            })
            &&& scan.bonded_addr == bond_addr(identity)
            &&& !scan.bonded_asked
        },
{
}

/// The steps that were carried out, in order.
pub open spec fn performed(events: Seq<SearchEvent>) -> Seq<CentralStep>
    decreases events.len(),
{
    if events.len() == 0 {
        seq![]
    } else {
        let before = events.drop_last();
        let step = Search::fresh().run(before).central.step;
        if Search::fresh().run(events).central.step == step {
            performed(before)
        } else {
            performed(before).push(step)
        }
    }
}

/// What the steps carried out so far end with, as far as the step that is
/// pending tells.
proof fn lemma_performed(events: Seq<SearchEvent>)
    ensures
        ({
            let done = performed(events);
            let n = done.len() as int;
            match Search::fresh().run(events).central.step {
                CentralStep::AwaitHost => n == 0,
                CentralStep::LoadBonds => n == 1 && done[0] is AwaitHost,
                CentralStep::HandOverBonds => n == 2 && done[0] is AwaitHost
                    && done[1] is LoadBonds,
                CentralStep::AwaitAsk { address } => n >= 4 && done[n - 1] == (
                CentralStep::StartAskScan { address }),
                CentralStep::PairingWindow { boot } => n >= 4 && done[n - 1] == (
                CentralStep::StartWindowScan { boot }),
                CentralStep::StopScan { found: Some((address, Peer::Bonded)), boot } => {
                    &&& n >= 5
                    &&& done[n - 2] == (CentralStep::StartAskScan { address })
                    &&& done[n - 1] == (CentralStep::AwaitAsk { address })
                },
                CentralStep::StopScan { found, boot } => {
                    &&& n >= 5
                    &&& done[n - 2] == (CentralStep::StartWindowScan { boot })
                    &&& done[n - 1] == (CentralStep::PairingWindow { boot })
                },
                CentralStep::Connect { address, peer, boot } => {
                    &&& n >= 6
                    &&& done[n - 1] == (CentralStep::StopScan {
                        found: Some((address, peer)),
                        boot,
                    })
                    &&& match peer {
                        Peer::Bonded => {
                            &&& done[n - 3] == (CentralStep::StartAskScan { address })
                            &&& done[n - 2] == (CentralStep::AwaitAsk { address })
                        },
                        Peer::New => {
                            &&& done[n - 3] == (CentralStep::StartWindowScan { boot })
                            &&& done[n - 2] == (CentralStep::PairingWindow { boot })
                        },
                    }
                },
                _ => true,
            }
        }),
        !Search::fresh().run(events).central.step.is_start_up() ==> {
            let done = performed(events);
            &&& done.len() >= 3
            &&& done[0] is AwaitHost
            &&& done[1] is LoadBonds
            &&& done[2] is HandOverBonds
            &&& !(Search::fresh().run(events).central.step is ReadBond) ==> done.len() >= 4
        },
    decreases events.len(),
{
    if events.len() > 0 {
        lemma_performed(events.drop_last());
    }
}

/// The stored bond is loaded after the BLE host has started, and handed to it
/// after that; all this comes first, before the bond is read and before any scan.
pub proof fn law_bonds_are_loaded_first(events: Seq<SearchEvent>)
    requires
        !Search::fresh().run(events).central.step.is_start_up(),
    ensures
        performed(events).len() >= 3,
        performed(events).take(3) == seq![
            CentralStep::AwaitHost,
            CentralStep::LoadBonds,
            CentralStep::HandOverBonds,
        ],
{
    lemma_performed(events);
}

/// The scan runs.
pub open spec fn scanning(events: Seq<SearchEvent>) -> bool
    decreases events.len(),
{
    if events.len() == 0 {
        false
    } else {
        let before = events.drop_last();
        match (Search::fresh().run(before).central.step, events.last()) {
            (
                CentralStep::StartAskScan { .. },
                SearchEvent::Replied { reply: CentralReply::Done },
            ) => true,
            (
                CentralStep::StartWindowScan { .. },
                SearchEvent::Replied { reply: CentralReply::ScanStarted { ok: true } },
            ) => true,
            (CentralStep::StopScan { .. }, SearchEvent::Replied { reply: CentralReply::Done }) => {
                false
            },
            _ => scanning(before),
        }
    }
}

/// Every scan that starts is stopped, whatever came of it: the scan runs only
/// while an ask is awaited, a pairing window is held or the scan is being
/// stopped, and never while the dongle connects or serves a connection.
pub proof fn law_every_scan_is_stopped(events: Seq<SearchEvent>)
    ensures
        ({
            let step = Search::fresh().run(events).central.step;
            scanning(events) <==> step is AwaitAsk || step is PairingWindow || step is StopScan
        }),
    decreases events.len(),
{
    if events.len() > 0 {
        law_every_scan_is_stopped(events.drop_last());
    }
}

/// The reports that came in since the bond was last read.
pub open spec fn reports_since_bond_read(events: Seq<SearchEvent>) -> Seq<AdvReportView>
    decreases events.len(),
{
    if events.len() == 0 {
        seq![]
    } else {
        let before = events.drop_last();
        match (Search::fresh().run(before).central.step, events.last()) {
            (
                CentralStep::ReadBond { .. },
                SearchEvent::Replied { reply: CentralReply::Bond { .. } },
            ) => seq![],
            (_, SearchEvent::Reported { reports }) => reports_since_bond_read(before) + reports,
            _ => reports_since_bond_read(before),
        }
    }
}

/// What is known of asks, by the step that is pending.
proof fn lemma_asks(events: Seq<SearchEvent>)
    ensures
        ({
            let search = Search::fresh().run(events);
            let reports = reports_since_bond_read(events);
            match search.central.step {
                CentralStep::StartAskScan { address } | CentralStep::AwaitAsk { address } => {
                    search.scan.bonded_asked <==> any_asks_for_dongle(reports, Some(address.addr))
                },
                CentralStep::StopScan { found: Some((address, Peer::Bonded)), .. }
                | CentralStep::Connect { address, peer: Peer::Bonded, .. } => {
                    any_asks_for_dongle(reports, Some(address.addr))
                },
                _ => true,
            }
        }),
    decreases events.len(),
{
    if events.len() > 0 {
        let before = events.drop_last();
        lemma_asks(before);
        law_search_stays_well_formed(Search::fresh(), before);
        match events.last() {
            SearchEvent::Reported { reports } => {
                let watching = ScanState {
                    bonded_asked: false,
                    ..Search::fresh().run(before).scan
                };
                law_batches_compose(watching, reports_since_bond_read(before), reports);
            },
            _ => {},
        }
    }
}

/// The dongle connects to the bonded keyboard only when that keyboard asked for
/// it: some report since the bond was last read is an ask of that keyboard. An
/// ask from before that, or seeing the keyboard advertise otherwise, does not
/// count. And it connects only after a scan for that keyboard alone was started,
/// the ask awaited and the scan stopped.
pub proof fn law_bonded_connect_only_when_asked(
    events: Seq<SearchEvent>,
    address: Address,
    boot: bool,
)
    requires
        Search::fresh().run(events).central.step == (CentralStep::Connect {
            address,
            peer: Peer::Bonded,
            boot,
        }),
    ensures
        any_asks_for_dongle(reports_since_bond_read(events), Some(address.addr)),
        last_bond_read(events) == Some(address.addr),
        !boot,
        seq![
            CentralStep::StartAskScan { address },
            CentralStep::AwaitAsk { address },
            CentralStep::StopScan { found: Some((address, Peer::Bonded)), boot },
        ].is_suffix_of(performed(events)),
{
    law_search_stays_well_formed(Search::fresh(), events);
    law_scan_watches_the_bond(events);
    lemma_asks(events);
    lemma_performed(events);
}

/// Once the bonded keyboard has asked, the wait for it is over: at the next look
/// at what was scanned the dongle stops the scan to connect to it. While it has
/// not asked, the wait goes on.
pub proof fn law_ask_ends_the_wait(events: Seq<SearchEvent>, address: Address)
    requires
        Search::fresh().run(events).central.step == (CentralStep::AwaitAsk { address }),
    ensures
        ({
            let next = Search::fresh().run(events).after(
                SearchEvent::Replied { reply: CentralReply::Scanned },
            );
            if any_asks_for_dongle(reports_since_bond_read(events), Some(address.addr)) {
                next.central.step == (CentralStep::StopScan {
                    found: Some((address, Peer::Bonded)),
                    boot: false,
                })
            } else {
                next.central.step == (CentralStep::AwaitAsk { address })
            }
        }),
{
    lemma_asks(events);
}

/// What the last pairing window picked.
pub open spec fn last_pick(events: Seq<SearchEvent>) -> Option<Address>
    decreases events.len(),
{
    if events.len() == 0 {
        None
    } else {
        let before = events.drop_last();
        match (Search::fresh().run(before).central.step, events.last()) {
            (
                CentralStep::PairingWindow { .. },
                SearchEvent::Replied { reply: CentralReply::Picked { pick } },
            ) => pick,
            _ => last_pick(before),
        }
    }
}

/// The dongle connects to a new keyboard only when a pairing window picked it,
/// and only after the window's scan was stopped.
pub proof fn law_new_connect_only_when_picked(
    events: Seq<SearchEvent>,
    address: Address,
    boot: bool,
)
    requires
        Search::fresh().run(events).central.step == (CentralStep::Connect {
            address,
            peer: Peer::New,
            boot,
        }),
    ensures
        last_pick(events) == Some(address),
        seq![
            CentralStep::StartWindowScan { boot },
            CentralStep::PairingWindow { boot },
            CentralStep::StopScan { found: Some((address, Peer::New)), boot },
        ].is_suffix_of(performed(events)),
{
    lemma_pick(events);
    lemma_performed(events);
}

proof fn lemma_pick(events: Seq<SearchEvent>)
    ensures
        match Search::fresh().run(events).central.step {
            CentralStep::StopScan { found: Some((address, Peer::New)), .. }
            | CentralStep::Connect { address, peer: Peer::New, .. } => last_pick(events) == Some(
                address,
            ),
            _ => true,
        },
    decreases events.len(),
{
    if events.len() > 0 {
        lemma_pick(events.drop_last());
    }
}

/// The attempt at boot comes once: a search that is past it stays past it.
pub proof fn law_boot_comes_once(search: Search, events: Seq<SearchEvent>)
    requires
        !search.central.step.is_boot(),
    ensures
        !search.run(events).central.step.is_boot(),
    decreases events.len(),
{
    if events.len() > 0 {
        law_boot_comes_once(search, events.drop_last());
    }
}

/// The only chance to pair while a bond exists is the one window at boot: past
/// it, a pairing window opens only once the bond was read and there is none.
pub proof fn law_no_window_while_bonded(search: Search, events: Seq<SearchEvent>)
    requires
        search.well_formed(),
        !search.central.step.is_boot(),
        search.run(events).central.step is StartWindowScan || search.run(
            events,
        ).central.step is PairingWindow,
    ensures
        search.run(events).scan.bonded_addr is None,
{
    law_search_stays_well_formed(search, events);
    law_boot_comes_once(search, events);
}

/// Once the bond is gone, for instance because the keyboard refused its key,
/// the next round opens a pairing window.
pub proof fn law_lost_bond_opens_a_window(search: Search)
    requires
        search.central.step == (CentralStep::ReadBond { boot: false }),
    ensures
        ({
            let next = search.after(
                SearchEvent::Replied { reply: CentralReply::Bond { identity: None } },
            );
            &&& next.central.step == (CentralStep::StartWindowScan { boot: false })
            &&& next.scan.bonded_addr is None
        }),
{
}

/// Rounds are paced: past boot, the bond is read again only after a pause.
pub proof fn law_rounds_are_paced(step: CentralStep, scan: ScanState, reply: CentralReply)
    requires
        !step.is_boot(),
        !(step is ReadBond),
        step.after(scan, reply) is ReadBond,
    ensures
        step is Pause,
{
}

/// The dongle gets ready in order and then reads the bond: each of waiting for
/// the host, loading the bond and handing it over leads on to the next.
pub proof fn law_start_up_goes_on(search: Search)
    ensures
        Search::fresh().central.step is AwaitHost,
        ({
            let next = search.after(SearchEvent::Replied { reply: CentralReply::Done });
            &&& search.central.step is AwaitHost ==> next.central.step is LoadBonds
            &&& search.central.step is LoadBonds ==> next.central.step is HandOverBonds
            &&& search.central.step is HandOverBonds ==> next.central.step == (
            CentralStep::ReadBond { boot: true })
            &&& search.central.step.is_start_up() ==> next.scan == search.scan
        }),
        search.central.step.is_start_up() <==> search.central.step is AwaitHost
            || search.central.step is LoadBonds || search.central.step is HandOverBonds,
{
}

/// What a read of the bond leads to. With a bond: a window at boot, later a scan
/// for that keyboard alone. Without: at boot the loop begins, later a window. The
/// scan handler watches that bond from then on; before a window whoever was seen
/// is forgotten, before the wait for an ask an earlier ask is, and nothing else.
pub proof fn law_bond_decides_what_to_scan_for(search: Search, identity: Option<Address>)
    requires
        search.central.step is ReadBond,
    ensures
        ({
            let boot = search.central.step == (CentralStep::ReadBond { boot: true });
            let next = search.after(
                SearchEvent::Replied { reply: CentralReply::Bond { identity } },
            );
            let scan = search.scan;
            match identity {
                Some(address) => {
                    &&& next.scan.bonded_addr == Some(address.addr)
                    &&& boot ==> {
                        &&& next.central.step == (CentralStep::StartWindowScan { boot: true })
                        &&& next.scan.seeking_keyboard is None
                        &&& !next.scan.bonded_seen
                        &&& !next.scan.bonded_leads
                        &&& next.scan.bonded_asked == scan.bonded_asked
                    }
                    &&& !boot ==> {
                        &&& next.central.step == (CentralStep::StartAskScan { address })
                        &&& !next.scan.bonded_asked
                        &&& next.scan.seeking_keyboard == scan.seeking_keyboard
                        &&& next.scan.bonded_seen == scan.bonded_seen
                        &&& next.scan.bonded_leads == scan.bonded_leads
                    }
                },
                None => {
                    &&& next.scan.bonded_addr is None
                    &&& next.scan.bonded_asked == scan.bonded_asked
                    &&& boot ==> {
                        &&& next.central.step == (CentralStep::ReadBond { boot: false })
                        &&& next.scan.seeking_keyboard == scan.seeking_keyboard
                        &&& next.scan.bonded_seen == scan.bonded_seen
                        &&& next.scan.bonded_leads == scan.bonded_leads
                    }
                    &&& !boot ==> {
                        &&& next.central.step == (CentralStep::StartWindowScan { boot: false })
                        &&& next.scan.seeking_keyboard is None
                        &&& !next.scan.bonded_seen
                        &&& !next.scan.bonded_leads
                    }
                },
            }
        }),
{
}

/// The wait for the bonded keyboard: once the scan for it has started it is waited
/// for; a look at what was scanned ends the wait exactly if it asked, and the ask
/// is used up. Then the scan is stopped, to connect to it as the bonded one.
pub proof fn law_wait_for_an_ask(search: Search, address: Address)
    ensures
        search.central.step == (CentralStep::StartAskScan { address }) ==> {
            let next = search.after(SearchEvent::Replied { reply: CentralReply::Done });
            &&& next.central.step == (CentralStep::AwaitAsk { address })
            &&& next.scan == search.scan
        },
        search.central.step == (CentralStep::AwaitAsk { address }) ==> {
            let next = search.after(SearchEvent::Replied { reply: CentralReply::Scanned });
            &&& search.scan.bonded_asked ==> next.central.step == (CentralStep::StopScan {
                found: Some((address, Peer::Bonded)),
                boot: false,
            })
            &&& !search.scan.bonded_asked ==> next.central.step == search.central.step
            &&& !next.scan.bonded_asked
            &&& next.scan.bonded_addr == search.scan.bonded_addr
            &&& next.scan.seeking_keyboard == search.scan.seeking_keyboard
            &&& next.scan.bonded_seen == search.scan.bonded_seen
            &&& next.scan.bonded_leads == search.scan.bonded_leads
        },
{
}

/// A pairing window is held exactly if its scan started; otherwise the round is
/// over. When it ends its scan is stopped, and what it picked, if anything, is
/// what the dongle is to connect to, as a new keyboard. At boot or later makes no
/// difference but for where the round ends.
pub proof fn law_window_is_held_and_ended(
    search: Search,
    boot: bool,
    ok: bool,
    pick: Option<Address>,
)
    ensures
        search.central.step == (CentralStep::StartWindowScan { boot }) ==> {
            let next = search.after(
                SearchEvent::Replied { reply: CentralReply::ScanStarted { ok } },
            );
            &&& next.scan == search.scan
            &&& ok ==> next.central.step == (CentralStep::PairingWindow { boot })
            &&& !ok && boot ==> next.central.step == (CentralStep::ReadBond { boot: false })
            &&& !ok && !boot ==> next.central.step is Pause
        },
        search.central.step == (CentralStep::PairingWindow { boot }) ==> {
            let next = search.after(SearchEvent::Replied { reply: CentralReply::Picked { pick } });
            &&& next.scan == search.scan
            &&& next.central.step matches CentralStep::StopScan { found, boot: later }
            &&& later == boot
            &&& pick is None <==> found is None
            &&& pick is Some ==> found == Some((pick->0, Peer::New))
        },
{
}

/// With the scan stopped, what was found is connected to: that keyboard, as the
/// peer it was found to be. If nothing was found the round is over.
pub proof fn law_what_was_found_is_connected(
    search: Search,
    found: Option<(Address, Peer)>,
    boot: bool,
)
    requires
        search.central.step == (CentralStep::StopScan { found, boot }),
    ensures
        ({
            let next = search.after(SearchEvent::Replied { reply: CentralReply::Done });
            &&& next.scan == search.scan
            &&& found matches Some((address, peer)) ==> next.central.step == (
            CentralStep::Connect { address, peer, boot })
            &&& found is None && boot ==> next.central.step == (CentralStep::ReadBond {
                boot: false,
            })
            &&& found is None && !boot ==> next.central.step is Pause
        }),
{
}

/// Every connect that succeeds is run, as the peer it was made to, whichever that
/// is and whether at boot or later; after one that fails the round is over. After
/// the connection has been run the round is over too, so it is run once.
pub proof fn law_every_connection_is_run(
    search: Search,
    address: Address,
    peer: Peer,
    boot: bool,
    ok: bool,
)
    ensures
        search.central.step == (CentralStep::Connect { address, peer, boot }) ==> {
            let next = search.after(SearchEvent::Replied { reply: CentralReply::Connected { ok } });
            &&& next.scan == search.scan
            &&& ok ==> next.central.step == (CentralStep::RunConnection { peer, boot })
            &&& !ok && boot ==> next.central.step == (CentralStep::ReadBond { boot: false })
            &&& !ok && !boot ==> next.central.step is Pause
        },
        search.central.step == (CentralStep::RunConnection { peer, boot }) ==> {
            let next = search.after(SearchEvent::Replied { reply: CentralReply::Done });
            &&& next.scan == search.scan
            &&& boot ==> next.central.step == (CentralStep::ReadBond { boot: false })
            &&& !boot ==> next.central.step is Pause
        },
{
}

/// After a pause the next round begins: the dongle never stops looking.
pub proof fn law_next_round_follows_a_pause(search: Search)
    requires
        search.central.step is Pause,
    ensures
        ({
            let next = search.after(SearchEvent::Replied { reply: CentralReply::Done });
            &&& next.central.step == (CentralStep::ReadBond { boot: false })
            &&& next.scan == search.scan
        }),
{
}

/// A reply counts only for the step that it answers; any other changes nothing,
/// neither the step nor what the scan handler knows.
pub proof fn law_stray_replies_change_nothing(search: Search, reply: CentralReply)
    requires
        match reply {
            CentralReply::Bond { .. } => !(search.central.step is ReadBond),
            CentralReply::ScanStarted { .. } => !(search.central.step is StartWindowScan),
            CentralReply::Scanned => !(search.central.step is AwaitAsk),
            CentralReply::Picked { .. } => !(search.central.step is PairingWindow),
            CentralReply::Connected { .. } => !(search.central.step is Connect),
            CentralReply::Done => {
                ||| search.central.step is ReadBond
                ||| search.central.step is AwaitAsk
                ||| search.central.step is StartWindowScan
                ||| search.central.step is PairingWindow
                ||| search.central.step is Connect
            },
        },
    ensures
        search.after(SearchEvent::Replied { reply }) == search,
{
}

/// What is scanned reaches the scan handler whatever the central is doing, and
/// moves the central by itself nowhere.
pub proof fn law_reports_are_always_taken_in(search: Search, reports: Seq<AdvReportView>)
    ensures
        search.after(SearchEvent::Reported { reports }).scan == search.scan.after(reports),
        search.after(SearchEvent::Reported { reports }).central == search.central,
        search.after(SearchEvent::WindowPolled).scan == search.scan.window_told(),
        search.after(SearchEvent::WindowPolled).central == search.central,
{
}

/// Rounds are half a second apart.
pub proof fn law_pause_length()
    ensures
        PAUSE_MS == 500,
{
}

} // verus!
