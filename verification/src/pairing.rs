//! The pairing window: choosing among the keyboards that seek a dongle.
//!
//! Times are microseconds on one monotonic clock.

use vstd::prelude::*;

use crate::address::Address;

verus! {

/// How long seekers are collected after the first one was seen.
pub const GATHER_US: u64 = 2_000_000;

/// Microseconds in a second.
pub const SECOND_US: u64 = 1_000_000;

/// How far a pairing window has got.
#[derive(Clone, Copy, Debug)]
pub enum WindowPhase {
    /// Nobody was seen yet.
    Waiting,
    /// A seeker was seen; more are collected until `until`, or until the window
    /// ends if that is sooner. `best` is the strongest so far.
    Gathering { best: Address, rssi: i8, until: u64 },
    /// The window is over, with the keyboard to pair with if there is one.
    Closed { pick: Option<Address> },
}

/// What happens while a window is open.
#[derive(Clone, Copy, Debug)]
pub enum WindowEvent {
    /// A keyboard was seen seeking a dongle.
    SeekerSeen { at: u64, address: Address, rssi: i8 },
    /// The bonded keyboard was seen advertising.
    BondedSeen,
    /// The clock reads `now`.
    Timer { now: u64 },
}

/// One scan for keyboards seeking a dongle, which picks the strongest seen
/// within two seconds of the first. Whichever shows up first wins: the bonded
/// keyboard ends the window with no pick, while a seeker seen before it was set
/// seeking by the user before the (re)plug, and that beats the automatic
/// reconnect. A seeker first seen shortly before the deadline is not lost: the
/// deadline cuts the collection short and the strongest so far is picked.
#[derive(Clone, Copy, Debug)]
pub struct PairingWindow {
    /// When the window ends, with the strongest seeker so far if there is one.
    pub deadline: u64,
    pub phase: WindowPhase,
}

impl PairingWindow {
    /// The window after an event.
    pub open spec fn step(self, event: WindowEvent) -> PairingWindow {
        let phase = match (self.phase, event) {
            (WindowPhase::Waiting, WindowEvent::SeekerSeen { at, address, rssi }) => {
                if at < self.deadline {
                    WindowPhase::Gathering {
                        best: address,
                        rssi,
                        until: (at + GATHER_US) as u64,
                    }
                } else {
                    WindowPhase::Closed { pick: None }
                }
            },
            (
                WindowPhase::Gathering { best: _, rssi: best_rssi, until },
                WindowEvent::SeekerSeen { at, address, rssi },
            ) if at <= until && rssi > best_rssi => WindowPhase::Gathering {
                best: address,
                rssi,
                until,
            },
            (WindowPhase::Waiting, WindowEvent::BondedSeen) => WindowPhase::Closed { pick: None },
            (
                WindowPhase::Gathering { best, rssi: _, until },
                WindowEvent::Timer { now },
            ) if now >= until || now >= self.deadline => WindowPhase::Closed { pick: Some(best) },
            (WindowPhase::Waiting, WindowEvent::Timer { now }) if now >= self.deadline => {
                WindowPhase::Closed { pick: None }
            },
            (phase, _) => phase,
        };
        PairingWindow { phase, ..self }
    }

    /// The window after a series of events.
    pub open spec fn run(self, events: Seq<WindowEvent>) -> PairingWindow
        decreases events.len(),
    {
        if events.len() == 0 {
            self
        } else {
            self.run(events.drop_last()).step(events.last())
        }
    }

    /// When the next timer is due, while the window is open.
    pub open spec fn due(self) -> Option<u64> {
        match self.phase {
            WindowPhase::Waiting => Some(self.deadline),
            WindowPhase::Gathering { until, .. } => Some(
                if until < self.deadline {
                    until
                } else {
                    self.deadline
                },
            ),
            WindowPhase::Closed { .. } => None,
        }
    }

    /// Open a window at `now` for `window_secs` seconds.
    pub fn open(now: u64, window_secs: u64) -> (window: PairingWindow)
        requires
            now + window_secs * SECOND_US <= u64::MAX,
        ensures
            window.deadline == now + window_secs * SECOND_US,
            window.deadline == now + window_secs * 1_000_000,
            window.phase is Waiting,
    {
        PairingWindow { deadline: now + window_secs * SECOND_US, phase: WindowPhase::Waiting }
    }

    /// Take in an event.
    pub fn on_event(&mut self, event: WindowEvent)
        requires
            event matches WindowEvent::SeekerSeen { at, .. } ==> at + GATHER_US <= u64::MAX,
        ensures
            *final(self) == old(self).step(event),
    {
        match (self.phase, event) {
            (WindowPhase::Waiting, WindowEvent::SeekerSeen { at, address, rssi }) => {
                // Don't wait out the whole window: collect for a while after the first one.
                self.phase =
                if at < self.deadline {
                    WindowPhase::Gathering { best: address, rssi, until: at + GATHER_US }
                } else {
                    WindowPhase::Closed { pick: None }
                };
            },
            (
                WindowPhase::Gathering { best: _, rssi: best_rssi, until },
                WindowEvent::SeekerSeen { at, address, rssi },
            ) => {
                if at <= until && rssi > best_rssi {
                    self.phase = WindowPhase::Gathering { best: address, rssi, until };
                }
            },
            (WindowPhase::Waiting, WindowEvent::BondedSeen) => {
                self.phase = WindowPhase::Closed { pick: None };
            },
            (WindowPhase::Waiting, WindowEvent::Timer { now }) => {
                if now >= self.deadline {
                    self.phase = WindowPhase::Closed { pick: None };
                }
            },
            (
                WindowPhase::Gathering { best, rssi: _, until },
                WindowEvent::Timer { now },
            ) => {
                if now >= until || now >= self.deadline {
                    self.phase = WindowPhase::Closed { pick: Some(best) };
                }
            },
            _ => {},
        }
    }

    /// When the next [`WindowEvent::Timer`] is due; `None` once the window is
    /// closed.
    pub fn wake_at(&self) -> (at: Option<u64>)
        ensures
            at == match self.phase {
                WindowPhase::Waiting => Some(self.deadline),
                WindowPhase::Gathering { until, .. } => Some(
                    if until < self.deadline {
                        until
                    } else {
                        self.deadline
                    },
                ),
                WindowPhase::Closed { .. } => None,
            },
            at == self.due(),
    {
        match self.phase {
            WindowPhase::Waiting => Some(self.deadline),
            WindowPhase::Gathering { best: _, rssi: _, until } => if until < self.deadline {
                Some(until)
            } else {
                Some(self.deadline)
            },
            WindowPhase::Closed { pick: _ } => None,
        }
    }
}

/// The keyboards seen seeking, with their signal strengths, in order.
pub open spec fn seekers(events: Seq<WindowEvent>) -> Seq<(Address, i8)>
    decreases events.len(),
{
    if events.len() == 0 {
        seq![]
    } else {
        let before = seekers(events.drop_last());
        match events.last() {
            WindowEvent::SeekerSeen { at: _, address, rssi } => before.push((address, rssi)),
            _ => before,
        }
    }
}

/// When the first seeker was seen; meaningful only if there is one.
pub open spec fn first_seen_at(events: Seq<WindowEvent>) -> u64
    decreases events.len(),
{
    if events.len() == 0 {
        0
    } else if seekers(events.drop_last()).len() > 0 {
        first_seen_at(events.drop_last())
    } else {
        match events.last() {
            WindowEvent::SeekerSeen { at, .. } => at,
            _ => 0,
        }
    }
}

/// The keyboards seen seeking within two seconds of the first, with their signal
/// strengths, in order.
pub open spec fn gathered(events: Seq<WindowEvent>) -> Seq<(Address, i8)>
    decreases events.len(),
{
    if events.len() == 0 {
        seq![]
    } else {
        let before = gathered(events.drop_last());
        match events.last() {
            WindowEvent::SeekerSeen { at, address, rssi } if at <= first_seen_at(events)
                + GATHER_US => before.push((address, rssi)),
            _ => before,
        }
    }
}

/// `best` is among those seen, none is stronger, and none of those seen before
/// it is as strong.
pub open spec fn is_strongest(seen: Seq<(Address, i8)>, best: Address, rssi: i8) -> bool {
    exists|i: int|
        {
            &&& 0 <= i < seen.len()
            &&& #[trigger] seen[i] == (best, rssi)
            &&& forall|j: int| 0 <= j < seen.len() ==> (#[trigger] seen[j]).1 <= rssi
            &&& forall|j: int| 0 <= j < i ==> (#[trigger] seen[j]).1 < rssi
        }
}

/// A window that is still open after some events gathers if a seeker was seen
/// and waits if none was; while it gathers, its candidate is the strongest so
/// far of the seekers seen within two seconds of the first, and that first one
/// was seen before the deadline.
pub proof fn law_open_window_tracks_strongest(window: PairingWindow, events: Seq<WindowEvent>)
    requires
        window.phase is Waiting,
        !(window.run(events).phase is Closed),
        forall|i: int|
            0 <= i < events.len() ==> (#[trigger] events[i] matches WindowEvent::SeekerSeen {
                at,
                ..
            } ==> at + GATHER_US <= u64::MAX),
    ensures
        window.run(events).deadline == window.deadline,
        match window.run(events).phase {
            WindowPhase::Waiting => seekers(events).len() == 0,
            WindowPhase::Gathering { best, rssi, until } => {
                &&& seekers(events).len() > 0
                &&& is_strongest(gathered(events), best, rssi)
                &&& until == first_seen_at(events) + GATHER_US
                &&& first_seen_at(events) < window.deadline
            },
            WindowPhase::Closed { .. } => true,
        },
    decreases events.len(),
{
    if events.len() > 0 {
        let before = events.drop_last();
        law_open_window_tracks_strongest(window, before);
        assert(events[events.len() - 1] == events.last());
        let seen = gathered(before);
        if seekers(before).len() == 0 {
            lemma_nobody_gathered(before);
        }
        match (window.run(before).phase, events.last()) {
            (WindowPhase::Waiting, WindowEvent::SeekerSeen { at, address, rssi }) => {
                assert(gathered(events)[0] == (address, rssi));
            },
            (
                WindowPhase::Gathering { best, rssi: best_rssi, until },
                WindowEvent::SeekerSeen { at, address, rssi },
            ) => {
                let i = choose|i: int|
                    {
                        &&& 0 <= i < seen.len()
                        &&& #[trigger] seen[i] == (best, best_rssi)
                        &&& forall|j: int| 0 <= j < seen.len() ==> (#[trigger] seen[j]).1 <= best_rssi
                        &&& forall|j: int| 0 <= j < i ==> (#[trigger] seen[j]).1 < best_rssi
                    };
                let now_seen = gathered(events);
                assert(forall|j: int| 0 <= j < seen.len() ==> now_seen[j] == seen[j]);
                if at <= until && rssi > best_rssi {
                    assert(now_seen[seen.len() as int] == (address, rssi));
                } else {
                    assert(now_seen[i] == (best, best_rssi));
                }
            },
            _ => {},
        }
    }
}

/// While nobody was seen seeking, nobody is gathered.
proof fn lemma_nobody_gathered(events: Seq<WindowEvent>)
    requires
        seekers(events).len() == 0,
    ensures
        gathered(events).len() == 0,
    decreases events.len(),
{
    if events.len() > 0 {
        lemma_nobody_gathered(events.drop_last());
    }
}

/// A window closes with a pick only once two seconds have passed since the
/// first seeker or the deadline has come, and then the pick is the strongest of
/// the seekers seen within two seconds of the first.
pub proof fn law_pick_is_the_strongest_seeker(
    window: PairingWindow,
    events: Seq<WindowEvent>,
    last: WindowEvent,
    pick: Address,
)
    requires
        window.phase is Waiting,
        !(window.run(events).phase is Closed),
        window.run(events).step(last).phase == (WindowPhase::Closed { pick: Some(pick) }),
        forall|i: int|
            0 <= i < events.len() ==> (#[trigger] events[i] matches WindowEvent::SeekerSeen {
                at,
                ..
            } ==> at + GATHER_US <= u64::MAX),
    ensures
        exists|rssi: i8| is_strongest(gathered(events), pick, rssi),
        last matches WindowEvent::Timer { now } && (now >= first_seen_at(events) + GATHER_US
            || now >= window.deadline),
        first_seen_at(events) < window.deadline,
{
    law_open_window_tracks_strongest(window, events);
    match window.run(events).phase {
        WindowPhase::Gathering { best, rssi, until } => {
            assert(is_strongest(gathered(events), pick, rssi));
        },
        _ => {},
    }
}

/// A keyboard that was seen seeking in time is not lost: once a window gathers,
/// whatever follows, it goes on to gather or closes with a pick.
pub proof fn law_seeker_is_not_lost(window: PairingWindow, events: Seq<WindowEvent>)
    requires
        window.phase is Gathering,
    ensures
        match window.run(events).phase {
            WindowPhase::Waiting => false,
            WindowPhase::Gathering { .. } => true,
            WindowPhase::Closed { pick } => pick is Some,
        },
    decreases events.len(),
{
    if events.len() > 0 {
        law_seeker_is_not_lost(window, events.drop_last());
    }
}

/// Whichever shows up first wins. While no seeker was seen, the bonded keyboard
/// closes the window without a pick; once one was, the bonded keyboard changes
/// nothing any more.
pub proof fn law_first_comer_wins(window: PairingWindow, events: Seq<WindowEvent>)
    requires
        window.phase is Waiting,
        !(window.run(events).phase is Closed),
        forall|i: int|
            0 <= i < events.len() ==> (#[trigger] events[i] matches WindowEvent::SeekerSeen {
                at,
                ..
            } ==> at + GATHER_US <= u64::MAX),
    ensures
        seekers(events).len() == 0 ==> window.run(events.push(WindowEvent::BondedSeen)).phase == (
        WindowPhase::Closed { pick: None }),
        seekers(events).len() > 0 ==> window.run(events.push(WindowEvent::BondedSeen))
            == window.run(events),
{
    law_open_window_tracks_strongest(window, events);
    let more = events.push(WindowEvent::BondedSeen);
    assert(more.drop_last() =~= events);
}

/// A closed window stays as it is.
pub proof fn law_closed_is_final(window: PairingWindow, events: Seq<WindowEvent>)
    requires
        window.phase is Closed,
    ensures
        window.run(events) == window,
    decreases events.len(),
{
    if events.len() > 0 {
        law_closed_is_final(window, events.drop_last());
    }
}

/// No window outlives its deadline: once the clock has reached it, the window
/// closes, whatever came before.
pub proof fn law_window_ends_at_deadline(
    window: PairingWindow,
    events: Seq<WindowEvent>,
    now: u64,
)
    requires
        now >= window.deadline,
    ensures
        window.run(events.push(WindowEvent::Timer { now })).phase is Closed,
{
    let more = events.push(WindowEvent::Timer { now });
    assert(more.drop_last() =~= events);
    lemma_deadline_is_kept(window, events);
}

proof fn lemma_deadline_is_kept(window: PairingWindow, events: Seq<WindowEvent>)
    ensures
        window.run(events).deadline == window.deadline,
    decreases events.len(),
{
    if events.len() > 0 {
        lemma_deadline_is_kept(window, events.drop_last());
    }
}

/// The first one seen decides a waiting window. A seeker seen before the deadline
/// is the candidate, and more are collected until two seconds later; one seen from
/// then on comes too late. The bonded keyboard ends the window with no pick.
pub proof fn law_first_one_seen_decides(window: PairingWindow, at: u64, address: Address, rssi: i8)
    requires
        window.phase is Waiting,
        at + 2_000_000 <= u64::MAX,
    ensures
        at < window.deadline ==> {
            let next = window.step(WindowEvent::SeekerSeen { at, address, rssi });
            &&& next.phase matches WindowPhase::Gathering { best, rssi: strength, until }
            &&& best == address
            &&& strength == rssi
            &&& until == at + 2_000_000
        },
        at >= window.deadline ==> window.step(
            WindowEvent::SeekerSeen { at, address, rssi },
        ).phase == (WindowPhase::Closed { pick: None }),
        window.step(WindowEvent::BondedSeen).phase == (WindowPhase::Closed { pick: None }),
{
}

/// While a window gathers, the stronger one of its candidate and a seeker seen in
/// time is the candidate afterwards, the earlier one if they are equally strong; a
/// seeker seen too late changes nothing, nor does the bonded keyboard. When the
/// collecting ends stays as it was.
pub proof fn law_stronger_seeker_is_kept(
    window: PairingWindow,
    best: Address,
    best_rssi: i8,
    until: u64,
    at: u64,
    address: Address,
    rssi: i8,
)
    requires
        window.phase == (WindowPhase::Gathering { best, rssi: best_rssi, until }),
    ensures
        ({
            let next = window.step(WindowEvent::SeekerSeen { at, address, rssi });
            &&& next.phase matches WindowPhase::Gathering {
                best: kept,
                rssi: strength,
                until: end,
            }
            &&& end == until
            &&& (kept == best && strength == best_rssi) || (kept == address && strength == rssi
                && at <= until && rssi > best_rssi)
            &&& strength >= best_rssi
            &&& at <= until ==> strength >= rssi
        }),
        window.step(WindowEvent::BondedSeen) == window,
{
}

/// The timer closes an open window exactly from the time on that it is due, with
/// the candidate as the pick if there is one; before that it changes nothing. It is
/// due at the deadline, or when the collecting ends if that is sooner; a closed
/// window has none due.
pub proof fn law_timer_closes_when_due(window: PairingWindow, now: u64)
    ensures
        window.due() is None <==> window.phase is Closed,
        window.due() matches Some(due) ==> {
            let next = window.step(WindowEvent::Timer { now });
            &&& due <= window.deadline
            &&& window.phase is Waiting ==> due == window.deadline
            &&& window.phase matches WindowPhase::Gathering { until, .. } ==> due <= until && (due
                == until || due == window.deadline)
            &&& now < due ==> next == window
            &&& now >= due ==> next.phase == (WindowPhase::Closed {
                pick: match window.phase {
                    WindowPhase::Gathering { best, .. } => Some(best),
                    _ => None,
                },
            })
        },
{
}

/// No event moves a window's deadline.
pub proof fn law_deadline_stays(window: PairingWindow, event: WindowEvent)
    ensures
        window.step(event).deadline == window.deadline,
        GATHER_US == 2_000_000,
        SECOND_US == 1_000_000,
{
}

} // verus!
