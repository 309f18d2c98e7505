//! The life of one connection: how it is made, watched, served and taken down.

use vstd::prelude::*;

use crate::address::Address;
use crate::gatt::KeyboardCharacteristics;
#[allow(unused_imports)]
use crate::gatt::cccd_handles;
use crate::secure::LinkEvent;

verus! {

/// How long a connect may take, in seconds.
pub const CONNECT_TIMEOUT_SECS: u64 = 15;

/// Parameters to request for a connection. Durations are in microseconds.
#[derive(Clone, Copy, Debug, PartialEq, Eq)]
pub struct ConnParams {
    pub min_connection_interval: u64,
    pub max_connection_interval: u64,
    pub max_latency: u16,
    pub min_event_length: u64,
    pub max_event_length: u64,
    pub supervision_timeout: u64,
}

/// The shortest and longest connection event to request by default, in
/// microseconds.
///
/// Calls the `Default` of `trouble_host::connection::RequestedConnParams`, whose
/// event lengths are both zero.
#[verifier::external_body]
fn default_event_lengths() -> (lengths: (u64, u64))
    ensures
        lengths.0 == 0,
        lengths.1 == 0,
{
    let params = trouble_host::connection::RequestedConnParams::default();
    (params.min_event_length.as_micros(), params.max_event_length.as_micros())
}

/// Link parameters while relaying: 7.5 ms interval, the same latency budget as
/// a split link. The long supervision timeout favors surviving radio noise over
/// a fast reconnect after a dongle power-cycle (rare): the keyboard starts its
/// directed reconnect advertising only after this timeout runs out.
pub open spec fn relay_params() -> ConnParams {
    ConnParams {
        min_connection_interval: 7_500,
        max_connection_interval: 7_500,
        max_latency: 30,
        min_event_length: 0,
        max_event_length: 0,
        supervision_timeout: 10_000_000,
    }
}

/// Link parameters while relaying.
pub fn relay_conn_params() -> (params: ConnParams)
    ensures
        params == relay_params(),
{
    let (min_event_length, max_event_length) = default_event_lengths();
    ConnParams {
        min_connection_interval: 7_500,
        max_connection_interval: 7_500,
        max_latency: 30,
        min_event_length,
        max_event_length,
        supervision_timeout: 10_000_000,
    }
}

/// The link survives what its parameters allow: the supervision timeout is
/// longer than twice the time that the keyboard may stay silent.
pub open spec fn outlasts_latency(params: ConnParams) -> bool {
    params.supervision_timeout > 2 * (params.max_latency + 1) * params.max_connection_interval
}

/// How to connect to a keyboard.
#[derive(Clone, Copy, Debug, PartialEq, Eq)]
pub struct ConnectPlan {
    /// The only address to accept.
    pub accept: Address,
    pub params: ConnParams,
    /// When to give up. If the keyboard is absent the attempt times out; the
    /// central retries.
    pub timeout_secs: u64,
}

/// How to connect to the keyboard at `address`: with the relay interval, but
/// zero latency and a longer supervision timeout while pairing and discovery
/// run; the relay settings come after.
pub fn connect(address: Address) -> (plan: ConnectPlan)
    ensures
        plan.accept == address,
        plan.params == (ConnParams {
            max_latency: 0,
            supervision_timeout: 30_000_000,
            ..relay_params()
        }),
        plan.timeout_secs == CONNECT_TIMEOUT_SECS,
        outlasts_latency(plan.params),
{
    assert(30_000_000 > 2 * (0 + 1) * 7_500) by (nonlinear_arith);
    ConnectPlan {
        accept: address,
        params: ConnParams {
            max_latency: 0,
            supervision_timeout: 30_000_000,
            ..relay_conn_params()
        },
        timeout_secs: CONNECT_TIMEOUT_SECS,
    }
}

/// The relay's link parameters are consistent.
pub proof fn law_relay_params_outlast_latency()
    ensures
        outlasts_latency(relay_params()),
{
}

/// What the watcher of a connection does about an event.
#[derive(Clone, Copy, Debug, PartialEq, Eq, Structural)]
pub enum Watch {
    /// The connection is over.
    Ended,
    /// Accept the parameters that the keyboard asked for, then go on.
    AnswerParams,
    /// Go on.
    GoOn,
}

/// What to do about an event of a connection that is being relayed. Events are
/// drained for the connection's whole life: a full queue drops new ones,
/// including the disconnect that ends the watch.
pub fn watch_connection<B>(event: &LinkEvent<B>) -> (watch: Watch)
    ensures
        watch is Ended <==> event is Disconnected,
        watch is AnswerParams <==> event is ParamsRequested,
{
    match event {
        LinkEvent::Disconnected { reason: _ } => Watch::Ended,
        LinkEvent::ParamsRequested => Watch::AnswerParams,
        _ => Watch::GoOn,
    }
}

/// What to do next with a connection, from start to end.
#[derive(Clone, Copy, Debug, PartialEq, Eq, Structural)]
pub enum ConnectionStep {
    /// Secure it.
    Secure,
    /// Open a GATT client on it.
    OpenClient,
    /// Run the GATT client, the watcher and the relay side by side until one of
    /// them ends.
    Serve,
    /// Tell the router that the link is down.
    LinkDown,
    /// Release everything still held on the host.
    ReleaseHeldKeys,
    /// Disconnect.
    Disconnect,
    /// Nothing is left to do.
    Done,
}

impl ConnectionStep {
    /// The step after this one; `ok` is whether this one succeeded.
    pub open spec fn after(self, ok: bool) -> ConnectionStep {
        match self {
            ConnectionStep::Secure => if ok {
                ConnectionStep::OpenClient
            } else {
                ConnectionStep::Disconnect
            },
            ConnectionStep::OpenClient => if ok {
                ConnectionStep::Serve
            } else {
                ConnectionStep::Disconnect
            },
            ConnectionStep::Serve => ConnectionStep::LinkDown,
            ConnectionStep::LinkDown => ConnectionStep::ReleaseHeldKeys,
            ConnectionStep::ReleaseHeldKeys => ConnectionStep::Disconnect,
            ConnectionStep::Disconnect | ConnectionStep::Done => ConnectionStep::Done,
        }
    }

    /// The step after `results.len()` steps with these results.
    pub open spec fn run(self, results: Seq<bool>) -> ConnectionStep
        decreases results.len(),
    {
        if results.len() == 0 {
            self
        } else {
            self.run(results.drop_last()).after(results.last())
        }
    }

    /// What to do first with a connection.
    pub fn first() -> (step: ConnectionStep)
        ensures
            step is Secure,
    {
        ConnectionStep::Secure
    }

    /// What to do after this step; `ok` is whether it succeeded.
    pub fn next(self, ok: bool) -> (step: ConnectionStep)
        ensures
            step == self.after(ok),
    {
        match self {
            ConnectionStep::Secure => if ok {
                ConnectionStep::OpenClient
            } else {
                ConnectionStep::Disconnect
            },
            ConnectionStep::OpenClient => if ok {
                ConnectionStep::Serve
            } else {
                ConnectionStep::Disconnect
            },
            ConnectionStep::Serve => ConnectionStep::LinkDown,
            ConnectionStep::LinkDown => ConnectionStep::ReleaseHeldKeys,
            ConnectionStep::ReleaseHeldKeys => ConnectionStep::Disconnect,
            ConnectionStep::Disconnect => ConnectionStep::Done,
            ConnectionStep::Done => ConnectionStep::Done,
        }
    }
}

/// The step was taken on the way.
pub open spec fn passed(results: Seq<bool>, step: ConnectionStep) -> bool {
    exists|n: int|
        0 <= n < results.len() && #[trigger] ConnectionStep::Secure.run(results.take(n)) == step
}

proof fn lemma_passed_grows(results: Seq<bool>, step: ConnectionStep)
    requires
        results.len() > 0,
    ensures
        passed(results.drop_last(), step) ==> passed(results, step),
        ConnectionStep::Secure.run(results.drop_last()) == step ==> passed(results, step),
{
    let before = results.drop_last();
    let n = before.len() as int;
    assert(results.take(n) =~= before);
    if passed(before, step) {
        let m = choose|m: int|
            0 <= m < before.len() && #[trigger] ConnectionStep::Secure.run(before.take(m)) == step;
        assert(before.take(m) =~= results.take(m));
    }
}

/// However a connection goes, it is disconnected before it is done with; and if
/// it was ever served, the router has been told that the link is down and the
/// held keys have been released before that.
pub proof fn law_connection_is_cleaned_up(results: Seq<bool>)
    ensures
        ConnectionStep::Secure.run(results) is Done ==> passed(results, ConnectionStep::Disconnect),
        (ConnectionStep::Secure.run(results) is Done || ConnectionStep::Secure.run(
            results,
        ) is Disconnect) && passed(results, ConnectionStep::Serve) ==> passed(
            results,
            ConnectionStep::LinkDown,
        ) && passed(results, ConnectionStep::ReleaseHeldKeys),
{
    lemma_cleanup_invariant(results);
}

proof fn lemma_cleanup_invariant(results: Seq<bool>)
    ensures
        ({
            let step = ConnectionStep::Secure.run(results);
            let served = passed(results, ConnectionStep::Serve);
            &&& step is Done ==> passed(results, ConnectionStep::Disconnect)
            &&& step is Secure || step is OpenClient || step is Serve ==> !served
            &&& step is LinkDown || step is ReleaseHeldKeys ==> served
            &&& step is ReleaseHeldKeys ==> passed(results, ConnectionStep::LinkDown)
            &&& (step is Disconnect || step is Done) && served ==> passed(
                results,
                ConnectionStep::LinkDown,
            ) && passed(results, ConnectionStep::ReleaseHeldKeys)
        }),
    decreases results.len(),
{
    if results.len() > 0 {
        let before = results.drop_last();
        lemma_cleanup_invariant(before);
        lemma_passed_grows(results, ConnectionStep::Serve);
        lemma_passed_grows(results, ConnectionStep::LinkDown);
        lemma_passed_grows(results, ConnectionStep::ReleaseHeldKeys);
        lemma_passed_grows(results, ConnectionStep::Disconnect);
        let serve = ConnectionStep::Serve;
        if passed(results, serve) && ConnectionStep::Secure.run(before) != serve {
            let n = choose|n: int|
                0 <= n < results.len() && #[trigger] ConnectionStep::Secure.run(results.take(n))
                    == serve;
            assert(results.take(before.len() as int) =~= before);
            assert(n != before.len());
            assert(results.take(n) =~= before.take(n));
        }
    }
}

/// A connection is done with after at most six steps.
pub proof fn law_connection_ends(results: Seq<bool>)
    requires
        results.len() >= 6,
    ensures
        ConnectionStep::Secure.run(results) is Done,
{
    lemma_steps_left(results);
}

/// Steps that are certainly left.
spec fn steps_left(step: ConnectionStep) -> int {
    match step {
        ConnectionStep::Secure => 6,
        ConnectionStep::OpenClient => 5,
        ConnectionStep::Serve => 4,
        ConnectionStep::LinkDown => 3,
        ConnectionStep::ReleaseHeldKeys => 2,
        ConnectionStep::Disconnect => 1,
        ConnectionStep::Done => 0,
    }
}

proof fn lemma_steps_left(results: Seq<bool>)
    ensures
        steps_left(ConnectionStep::Secure.run(results)) <= if results.len() < 6 {
            6 - results.len()
        } else {
            0
        },
    decreases results.len(),
{
    if results.len() > 0 {
        lemma_steps_left(results.drop_last());
    }
}

/// What to do next to get a secured connection to the point of relaying.
#[derive(Clone, Copy, Debug, PartialEq, Eq)]
pub enum SetupStep {
    /// Ask for the 2M PHY, as on a split link.
    SetPhy,
    /// Ask for the relay's link parameters.
    SetConnParams,
    /// Discover the keyboard's characteristics.
    Discover,
    /// Turn notifications on by a write to this CCCD.
    WriteCccd { handle: u16 },
    /// Open the one listener for every subscription.
    Listen,
    /// Tell the router that the link is up.
    LinkUp,
    /// Relay, until the connection ends.
    Relay,
    /// Relaying is over.
    Relayed,
    /// Setup failed, which ends the connection.
    Failed,
}

/// What came of a setup step.
#[derive(Clone, Copy, Debug)]
pub enum SetupReply {
    /// The step is done; `ok` is whether it succeeded.
    Done { ok: bool },
    /// Discovery found these characteristics.
    Discovered { chars: KeyboardCharacteristics },
}

/// Tuning the link, discovering and subscribing, in order.
pub struct Setup {
    /// What to do next.
    pub step: SetupStep,
    /// The CCCDs still to be written after the current one, last one first.
    pub pending: Vec<u16>,
}

/// The contents of a [`Setup`].
pub struct SetupView {
    pub step: SetupStep,
    pub pending: Seq<u16>,
}

impl View for Setup {
    type V = SetupView;

    open spec fn view(&self) -> SetupView {
        SetupView { step: self.step, pending: self.pending@.reverse() }
    }
}

impl SetupView {
    /// Go on to the first of these CCCDs, or past them if there is none.
    pub open spec fn subscribing(handles: Seq<u16>) -> SetupView {
        if handles.len() == 0 {
            SetupView { step: SetupStep::Listen, pending: handles }
        } else {
            SetupView {
                step: SetupStep::WriteCccd { handle: handles[0] },
                pending: handles.drop_first(),
            }
        }
    }

    /// The setup after a reply. Whether the keyboard takes the PHY and the
    /// parameters makes no difference; a failure of any other step ends it. A
    /// reply that does not belong to the step leaves it pending.
    pub open spec fn after(self, reply: SetupReply) -> SetupView {
        match (self.step, reply) {
            (SetupStep::SetPhy, SetupReply::Done { .. }) => SetupView {
                step: SetupStep::SetConnParams,
                ..self
            },
            (SetupStep::SetConnParams, SetupReply::Done { .. }) => SetupView {
                step: SetupStep::Discover,
                ..self
            },
            (SetupStep::Discover, SetupReply::Discovered { chars }) => Self::subscribing(
                cccd_handles(chars.notifying()),
            ),
            (
                SetupStep::Discover | SetupStep::WriteCccd { .. } | SetupStep::Listen,
                SetupReply::Done { ok: false },
            ) => SetupView { step: SetupStep::Failed, ..self },
            (SetupStep::WriteCccd { .. }, SetupReply::Done { ok: true }) => Self::subscribing(
                self.pending,
            ),
            (SetupStep::Listen, SetupReply::Done { ok: true }) => SetupView {
                step: SetupStep::LinkUp,
                ..self
            },
            (SetupStep::LinkUp, SetupReply::Done { .. }) => SetupView {
                step: SetupStep::Relay,
                ..self
            },
            (SetupStep::Relay, SetupReply::Done { .. }) => SetupView {
                step: SetupStep::Relayed,
                ..self
            },
            _ => self,
        }
    }

    /// The setup after a series of replies.
    pub open spec fn run(self, replies: Seq<SetupReply>) -> SetupView
        decreases replies.len(),
    {
        if replies.len() == 0 {
            self
        } else {
            self.run(replies.drop_last()).after(replies.last())
        }
    }
}

impl Setup {
    /// Start to set a connection up.
    pub fn start() -> (setup: Setup)
        ensures
            setup@ == (SetupView { step: SetupStep::SetPhy, pending: seq![] }),
    {
        let setup = Setup { step: SetupStep::SetPhy, pending: Vec::new() };
        assert(setup@.pending =~= seq![]);
        setup
    }

    /// Take in what came of the pending step.
    pub fn on_reply(&mut self, reply: SetupReply)
        ensures
            final(self)@ == old(self)@.after(reply),
    {
        match (self.step, reply) {
            (SetupStep::SetPhy, SetupReply::Done { ok: _ }) => {
                self.step = SetupStep::SetConnParams;
            },
            (SetupStep::SetConnParams, SetupReply::Done { ok: _ }) => {
                self.step = SetupStep::Discover;
            },
            (SetupStep::Discover, SetupReply::Discovered { chars }) => {
                self.pending = reversed(&chars.subscribe());
                self.write_next();
            },
            (SetupStep::Discover, SetupReply::Done { ok }) => {
                if !ok {
                    self.step = SetupStep::Failed;
                }
            },
            (SetupStep::WriteCccd { handle: _ }, SetupReply::Done { ok }) => {
                if ok {
                    self.write_next();
                } else {
                    self.step = SetupStep::Failed;
                }
            },
            (SetupStep::Listen, SetupReply::Done { ok }) => {
                if ok {
                    self.step = SetupStep::LinkUp;
                } else {
                    self.step = SetupStep::Failed;
                }
            },
            (SetupStep::LinkUp, SetupReply::Done { ok: _ }) => {
                self.step = SetupStep::Relay;
            },
            (SetupStep::Relay, SetupReply::Done { ok: _ }) => {
                self.step = SetupStep::Relayed;
            },
            _ => {},
        }
    }

    fn write_next(&mut self)
        ensures
            final(self)@ == SetupView::subscribing(old(self)@.pending),
    {
        let ghost handles = self@.pending;
        match self.pending.pop() {
            Some(handle) => {
                self.step = SetupStep::WriteCccd { handle };
                assert(self@.pending =~= handles.drop_first());
            },
            None => {
                self.step = SetupStep::Listen;
                assert(self@.pending =~= handles);
            },
        }
    }
}

/// The subscription handles that were written with success, in order.
pub open spec fn written(replies: Seq<SetupReply>) -> Seq<u16>
    decreases replies.len(),
{
    if replies.len() == 0 {
        seq![]
    } else {
        let before = replies.drop_last();
        match (first_setup().run(before).step, replies.last()) {
            (SetupStep::WriteCccd { handle }, SetupReply::Done { ok: true }) => written(
                before,
            ).push(handle),
            _ => written(before),
        }
    }
}

/// What discovery found, if it is done.
pub open spec fn discovered(replies: Seq<SetupReply>) -> Option<KeyboardCharacteristics>
    decreases replies.len(),
{
    if replies.len() == 0 {
        None
    } else {
        let before = replies.drop_last();
        match (first_setup().run(before).step, replies.last()) {
            (SetupStep::Discover, SetupReply::Discovered { chars }) => Some(chars),
            _ => discovered(before),
        }
    }
}

/// A setup that has not begun.
pub open spec fn first_setup() -> SetupView {
    SetupView { step: SetupStep::SetPhy, pending: seq![] }
}

/// The listener is opened, the link reported up and traffic relayed only once
/// discovery has found everything and every CCCD of what the keyboard notifies
/// on has been written, each once and in order.
pub proof fn law_relay_only_when_subscribed(replies: Seq<SetupReply>)
    ensures
        ({
            let step = first_setup().run(replies).step;
            step is Listen || step is LinkUp || step is Relay || step is Relayed ==> {
                &&& discovered(replies) is Some
                &&& written(replies) == cccd_handles(discovered(replies)->0.notifying())
            }
        }),
{
    lemma_setup_invariant(replies);
}

proof fn lemma_setup_invariant(replies: Seq<SetupReply>)
    ensures
        ({
            let setup = first_setup().run(replies);
            let wanted = cccd_handles(discovered(replies)->0.notifying());
            match setup.step {
                SetupStep::SetPhy | SetupStep::SetConnParams | SetupStep::Discover => written(
                    replies,
                ) == Seq::<u16>::empty(),
                SetupStep::WriteCccd { handle } => {
                    &&& discovered(replies) is Some
                    &&& wanted == written(replies) + seq![handle] + setup.pending
                },
                SetupStep::Listen | SetupStep::LinkUp | SetupStep::Relay | SetupStep::Relayed => {
                    &&& discovered(replies) is Some
                    &&& wanted == written(replies)
                },
                SetupStep::Failed => true,
            }
        }),
    decreases replies.len(),
{
    if replies.len() > 0 {
        let before = replies.drop_last();
        lemma_setup_invariant(before);
        let setup = first_setup().run(before);
        match (setup.step, replies.last()) {
            (SetupStep::Discover, SetupReply::Discovered { chars }) => {
                let wanted = cccd_handles(chars.notifying());
                assert(written(replies) == Seq::<u16>::empty());
                if wanted.len() > 0 {
                    assert(wanted =~= Seq::<u16>::empty() + seq![wanted[0]] + wanted.drop_first());
                } else {
                    assert(wanted =~= Seq::<u16>::empty());
                }
            },
            (SetupStep::WriteCccd { handle }, SetupReply::Done { ok: true }) => {
                let wanted = cccd_handles(discovered(before)->0.notifying());
                let pending = setup.pending;
                if pending.len() > 0 {
                    assert(wanted =~= written(before).push(handle) + seq![pending[0]]
                        + pending.drop_first());
                } else {
                    assert(wanted =~= written(before).push(handle));
                }
            },
            _ => {},
        }
    }
}

fn reversed(handles: &Vec<u16>) -> (back: Vec<u16>)
    ensures
        back@ == handles@.reverse(),
        back@.reverse() == handles@,
{
    let mut back: Vec<u16> = Vec::new();
    let mut left: usize = handles.len();
    while left > 0
        invariant
            left <= handles.len(),
            back@.len() == handles.len() - left,
            forall|i: int| 0 <= i < back@.len() ==> back@[i] == handles@[handles.len() - 1 - i],
        decreases left,
    {
        left = left - 1;
        back.push(handles[left]);
    }
    assert(back@ =~= handles@.reverse());
    assert(back@.reverse() =~= handles@);
    back
}

/// A connection goes one way: it is secured, then a client is opened on it, then it
/// is served, each only if what came before succeeded; it is taken down in order
/// after it was served, however that went; and it is disconnected at the end and
/// whenever securing or opening fails.
pub proof fn law_connection_goes_one_way(ok: bool)
    ensures
        ConnectionStep::Secure.after(true) is OpenClient,
        ConnectionStep::Secure.after(false) is Disconnect,
        ConnectionStep::OpenClient.after(true) is Serve,
        ConnectionStep::OpenClient.after(false) is Disconnect,
        ConnectionStep::Serve.after(ok) is LinkDown,
        ConnectionStep::LinkDown.after(ok) is ReleaseHeldKeys,
        ConnectionStep::ReleaseHeldKeys.after(ok) is Disconnect,
        ConnectionStep::Disconnect.after(ok) is Done,
        ConnectionStep::Done.after(ok) is Done,
{
}

/// A connection is served exactly if it was secured and a client was opened on it:
/// the first two results decide, and no later one does.
pub proof fn law_secured_connection_is_served(results: Seq<bool>)
    requires
        results.len() >= 3,
    ensures
        passed(results, ConnectionStep::Serve) <==> results[0] && results[1],
{
    reveal_with_fuel(ConnectionStep::run, 3);
    let one = results.take(1);
    let two = results.take(2);
    assert(one.drop_last() =~= seq![]);
    assert(two.drop_last() =~= one);
    assert(one.last() == results[0] && two.last() == results[1]);
    let start = ConnectionStep::Secure;
    assert(start.run(one) == start.after(results[0]));
    assert(start.run(two) == start.run(one).after(results[1]));
    if results[0] && results[1] {
        assert(start.run(results.take(2)) == ConnectionStep::Serve);
    } else {
        assert(start.run(two) is Disconnect || start.run(two) is Done);
        assert forall|n: int| 0 <= n < results.len() implies #[trigger] start.run(results.take(n))
            != ConnectionStep::Serve by {
            if n == 0 {
                assert(results.take(0) =~= seq![]);
            } else if n == 2 {
                assert(results.take(n) =~= two);
            } else if n > 2 {
                lemma_stays_down(results, n);
            }
        }
    }
}

/// A connection that is on its way down after two steps stays so.
proof fn lemma_stays_down(results: Seq<bool>, n: int)
    requires
        2 <= n <= results.len(),
        ConnectionStep::Secure.run(results.take(2)) is Disconnect || ConnectionStep::Secure.run(
            results.take(2),
        ) is Done,
    ensures
        ConnectionStep::Secure.run(results.take(n)) is Disconnect || ConnectionStep::Secure.run(
            results.take(n),
        ) is Done,
    decreases n,
{
    if n > 2 {
        lemma_stays_down(results, n - 1);
        assert(results.take(n).drop_last() =~= results.take(n - 1));
    }
}

/// The relay's link parameters: an interval of 7.5 ms and no other, 30 events that
/// the keyboard may skip, and ten seconds until the link counts as lost. A connect
/// may take fifteen seconds.
pub proof fn law_link_times()
    ensures
        relay_params().min_connection_interval == 7_500,
        relay_params().max_connection_interval == 7_500,
        relay_params().max_latency == 30,
        relay_params().min_event_length == 0,
        relay_params().max_event_length == 0,
        relay_params().supervision_timeout == 10_000_000,
        CONNECT_TIMEOUT_SECS == 15,
{
}

/// Setup begins with the PHY and then the link parameters, and what comes of either
/// makes no difference.
pub proof fn law_link_is_tuned_first(setup: SetupView, ok: bool)
    ensures
        first_setup().step is SetPhy,
        first_setup().pending.len() == 0,
        setup.step is SetPhy ==> {
            let next = setup.after(SetupReply::Done { ok });
            next.step is SetConnParams && next.pending == setup.pending
        },
        setup.step is SetConnParams ==> {
            let next = setup.after(SetupReply::Done { ok });
            next.step is Discover && next.pending == setup.pending
        },
{
}

/// What was discovered is subscribed to one CCCD after another, in order: what is
/// written next, if anything, and what is pending after it are together what was
/// pending before, and the listener is opened when nothing is.
pub proof fn law_subscribing_goes_through_the_list(
    setup: SetupView,
    chars: KeyboardCharacteristics,
)
    ensures
        setup.step is Discover ==> {
            let next = setup.after(SetupReply::Discovered { chars });
            let handles = cccd_handles(chars.notifying());
            &&& handles.len() == 0 <==> next.step is Listen
            &&& handles.len() > 0 ==> {
                &&& next.step matches SetupStep::WriteCccd { handle }
                &&& seq![handle] + next.pending == handles
            }
        },
        setup.step is WriteCccd ==> {
            let next = setup.after(SetupReply::Done { ok: true });
            &&& setup.pending.len() == 0 <==> next.step is Listen
            &&& setup.pending.len() > 0 ==> {
                &&& next.step matches SetupStep::WriteCccd { handle }
                &&& seq![handle] + next.pending == setup.pending
            }
        },
{
    let handles = cccd_handles(chars.notifying());
    if handles.len() > 0 {
        assert(seq![handles[0]] + handles.drop_first() =~= handles);
    }
    if setup.pending.len() > 0 {
        assert(seq![setup.pending[0]] + setup.pending.drop_first() =~= setup.pending);
    }
}

/// Once the listener is open the link is reported up, and then traffic is relayed
/// until that is over.
pub proof fn law_listening_leads_to_the_relay(setup: SetupView, ok: bool)
    ensures
        setup.step is Listen ==> setup.after(SetupReply::Done { ok: true }).step is LinkUp,
        setup.step is LinkUp ==> setup.after(SetupReply::Done { ok }).step is Relay,
        setup.step is Relay ==> setup.after(SetupReply::Done { ok }).step is Relayed,
{
}

/// Setup fails exactly if discovery, a subscription or opening the listener does.
pub proof fn law_setup_fails_for_a_reason(setup: SetupView, reply: SetupReply)
    requires
        !(setup.step is Failed),
    ensures
        setup.after(reply).step is Failed <==> {
            &&& setup.step is Discover || setup.step is WriteCccd || setup.step is Listen
            &&& reply == (SetupReply::Done { ok: false })
        },
{
}

/// A reply counts only for the step that it answers: characteristics only for
/// discovery, which nothing else completes, and nothing follows the end of setup.
pub proof fn law_stray_setup_replies_change_nothing(setup: SetupView, reply: SetupReply)
    requires
        setup.step is Failed || setup.step is Relayed || (setup.step is Discover && reply == (
        SetupReply::Done { ok: true })) || (!(setup.step is Discover) && reply is Discovered),
    ensures
        setup.after(reply) == setup,
{
}

/// The step to carry out is the one that the contents show.
pub proof fn law_setup_is_what_it_shows(setup: Setup)
    ensures
        setup@.step == setup.step,
        setup@.pending.len() == setup.pending@.len(),
{
}

/// A setup in which everything that matters succeeds: tuning the link, whatever
/// comes of it, then discovery, then `writes` subscriptions.
pub open spec fn good_replies(
    phy: bool,
    params: bool,
    chars: KeyboardCharacteristics,
    writes: nat,
) -> Seq<SetupReply> {
    seq![
        SetupReply::Done { ok: phy },
        SetupReply::Done { ok: params },
        SetupReply::Discovered { chars },
    ] + Seq::new(writes, |i: int| SetupReply::Done { ok: true })
}

proof fn lemma_good_replies(phy: bool, params: bool, chars: KeyboardCharacteristics, writes: nat)
    requires
        writes <= cccd_handles(chars.notifying()).len(),
    ensures
        first_setup().run(good_replies(phy, params, chars, writes)) == SetupView::subscribing(
            cccd_handles(chars.notifying()).skip(writes as int),
        ),
    decreases writes,
{
    let handles = cccd_handles(chars.notifying());
    let replies = good_replies(phy, params, chars, writes);
    if writes == 0 {
        let r2 = replies.drop_last();
        let r1 = r2.drop_last();
        reveal_with_fuel(SetupView::run, 4);
        assert(r1.drop_last().len() == 0);
        assert(replies.last() == replies[2] && r2.last() == replies[1] && r1.last() == replies[0]);
        assert(handles.skip(0) =~= handles);
    } else {
        let fewer = (writes - 1) as nat;
        lemma_good_replies(phy, params, chars, fewer);
        assert(replies.drop_last() =~= good_replies(phy, params, chars, fewer));
        assert(replies.last() == (SetupReply::Done { ok: true }));
        assert(handles.skip(fewer as int).drop_first() =~= handles.skip(writes as int));
    }
}

/// A setup in which everything that matters succeeds reaches the relay: with
/// discovery done and as many subscriptions written as there are CCCDs, the
/// listener opened and the link reported up, traffic is relayed, whatever came of
/// the PHY and the parameters.
pub proof fn law_good_setup_reaches_the_relay(
    phy: bool,
    params: bool,
    chars: KeyboardCharacteristics,
    up: bool,
)
    ensures
        first_setup().run(
            good_replies(phy, params, chars, cccd_handles(chars.notifying()).len()).push(
                SetupReply::Done { ok: true },
            ).push(SetupReply::Done { ok: up }),
        ).step is Relay,
{
    let handles = cccd_handles(chars.notifying());
    let subscribed = good_replies(phy, params, chars, handles.len());
    lemma_good_replies(phy, params, chars, handles.len());
    assert(handles.skip(handles.len() as int).len() == 0);
    let listening = subscribed.push(SetupReply::Done { ok: true });
    let replies = listening.push(SetupReply::Done { ok: up });
    assert(listening.drop_last() =~= subscribed);
    assert(first_setup().run(listening).step is LinkUp);
    assert(replies.drop_last() =~= listening);
}

} // verus!
