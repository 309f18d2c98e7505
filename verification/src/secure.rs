//! Securing a fresh connection: pair with a new keyboard, or encrypt the link
//! to the bonded one, and keep the stored bond true to what the keyboard holds.

use vstd::prelude::*;

verus! {

/// The one slot that the dongle keeps its bond in.
pub const BOND_SLOT: u8 = 0;

/// How long to wait for each event of a link that is being secured, in seconds.
pub const SECURE_TIMEOUT_SECS: u64 = 30;

/// HCI status code of a link that ended because a key was refused.
pub const AUTHENTICATION_FAILURE: u8 = 0x05;

/// Which keyboard a connection is to. Decides whether the link pairs or
/// encrypts, and whether a rejected key means the stored bond is dead.
#[derive(Clone, Copy, Debug, PartialEq, Eq, Structural)]
pub enum Peer {
    /// The keyboard this dongle already holds a bond for.
    Bonded,
    /// A keyboard from a pairing window; it replaces that bond.
    New,
}

/// What happens on a connection. `B` is the bond data of the BLE host.
pub enum LinkEvent<B> {
    /// Pairing is done; if both sides are bondable it brings a bond.
    PairingComplete { bond: Option<B> },
    /// The link is encrypted.
    Encrypted,
    PairingFailed,
    /// The link is gone; `reason` is the HCI status code.
    Disconnected { reason: u8 },
    /// The keyboard asks for other connection parameters and waits for an answer.
    ParamsRequested,
    /// Anything else.
    Other,
}

/// What is stored of a keyboard.
pub struct ProfileInfo<B> {
    pub slot_num: u8,
    pub removed: bool,
    pub info: B,
    /// The table of subscriptions, in its stored form.
    pub cccd_table: Vec<u8>,
}

/// The contents of a [`ProfileInfo`].
pub struct ProfileView<B> {
    pub slot_num: u8,
    pub removed: bool,
    pub info: B,
    pub cccd_table: Seq<u8>,
}

impl<B> View for ProfileInfo<B> {
    type V = ProfileView<B>;

    open spec fn view(&self) -> ProfileView<B> {
        ProfileView {
            slot_num: self.slot_num,
            removed: self.removed,
            info: self.info,
            cccd_table: self.cccd_table@,
        }
    }
}

/// What to do next to secure a connection.
pub enum SecureStep<B> {
    /// Make this side bondable. Both sides must be, or neither gets the bond
    /// data and the keyboard would re-pair on every reconnect.
    SetBondable,
    /// Ask for security, which starts pairing or encryption.
    RequestSecurity,
    /// Wait for the next event of the link, at most [`SECURE_TIMEOUT_SECS`].
    Listen,
    /// Accept the connection parameters that the keyboard asked for.
    AnswerParams,
    /// Store this in place of what the slot held.
    StoreBond { profile: ProfileInfo<B> },
    /// Drop the bond in this slot.
    ClearBond { slot: u8 },
    /// Done.
    Finished { secured: bool },
}

/// The contents of a [`SecureStep`].
pub enum SecureStepView<B> {
    SetBondable,
    RequestSecurity,
    Listen,
    AnswerParams,
    StoreBond { profile: ProfileView<B> },
    ClearBond { slot: u8 },
    Finished { secured: bool },
}

impl<B> View for SecureStep<B> {
    type V = SecureStepView<B>;

    open spec fn view(&self) -> SecureStepView<B> {
        match self {
            SecureStep::SetBondable => SecureStepView::SetBondable,
            SecureStep::RequestSecurity => SecureStepView::RequestSecurity,
            SecureStep::Listen => SecureStepView::Listen,
            SecureStep::AnswerParams => SecureStepView::AnswerParams,
            SecureStep::StoreBond { profile } => SecureStepView::StoreBond { profile: profile@ },
            SecureStep::ClearBond { slot } => SecureStepView::ClearBond { slot: *slot },
            SecureStep::Finished { secured } => SecureStepView::Finished { secured: *secured },
        }
    }
}

/// What came of a step.
pub enum SecureReply<B> {
    /// The call that the step asked for has returned.
    Returned { ok: bool },
    /// The link had this event to tell.
    Heard { event: LinkEvent<B> },
    /// Nothing was heard in time.
    TimedOut,
}

/// The status code of a link that ended because a key was refused.
///
/// Calls `bt_hci::param::Status::into_inner` on the constant
/// `Status::AUTHENTICATION_FAILURE`, which gives its code, 5.
#[verifier::external_body]
fn authentication_failure() -> (code: u8)
    ensures
        code == AUTHENTICATION_FAILURE,
{
    bt_hci::param::Status::AUTHENTICATION_FAILURE.into_inner()
}

impl<B> LinkEvent<B> {
    /// The keyboard refused the key: pairing failed, or the rejection came from
    /// the link layer as a disconnect.
    pub open spec fn refuses_key(self) -> bool {
        ||| self is PairingFailed
        ||| self matches LinkEvent::Disconnected { reason } && reason == AUTHENTICATION_FAILURE
    }
}

impl<B> SecureStepView<B> {
    /// The step after this one, given what came of this one. A reply that does
    /// not belong to this step leaves it pending.
    pub open spec fn after(self, peer: Peer, reply: SecureReply<B>) -> SecureStepView<B> {
        match (self, reply) {
            (SecureStepView::SetBondable, SecureReply::Returned { ok }) => if ok {
                SecureStepView::RequestSecurity
            } else {
                SecureStepView::Finished { secured: false }
            },
            (SecureStepView::RequestSecurity, SecureReply::Returned { ok }) => if ok {
                SecureStepView::Listen
            } else {
                SecureStepView::Finished { secured: false }
            },
            (SecureStepView::Listen, SecureReply::TimedOut) => SecureStepView::Finished {
                secured: false,
            },
            (SecureStepView::Listen, SecureReply::Heard { event }) => Self::after_event(
                peer,
                event,
            ),
            (SecureStepView::AnswerParams, SecureReply::Returned { .. }) => SecureStepView::Listen,
            (SecureStepView::StoreBond { .. }, SecureReply::Returned { .. }) => {
                SecureStepView::Finished { secured: true }
            },
            (SecureStepView::ClearBond { .. }, SecureReply::Returned { .. }) => {
                SecureStepView::Finished { secured: false }
            },
            (step, _) => step,
        }
    }

    /// The step after an event that was waited for.
    pub open spec fn after_event(peer: Peer, event: LinkEvent<B>) -> SecureStepView<B> {
        if event.refuses_key() && peer is Bonded {
            SecureStepView::ClearBond { slot: BOND_SLOT }
        } else {
            match event {
                LinkEvent::PairingComplete { bond: Some(info) } => SecureStepView::StoreBond {
                    profile: ProfileView {
                        slot_num: BOND_SLOT,
                        removed: false,
                        info,
                        cccd_table: seq![],
                    },
                },
                LinkEvent::PairingComplete { bond: None } | LinkEvent::Encrypted => {
                    SecureStepView::Finished { secured: true }
                },
                LinkEvent::PairingFailed | LinkEvent::Disconnected { .. } => {
                    SecureStepView::Finished { secured: false }
                },
                LinkEvent::ParamsRequested => SecureStepView::AnswerParams,
                LinkEvent::Other => SecureStepView::Listen,
            }
        }
    }

    /// The step reached from this one by a series of replies.
    pub open spec fn run(self, peer: Peer, replies: Seq<SecureReply<B>>) -> SecureStepView<B>
        decreases replies.len(),
    {
        if replies.len() == 0 {
            self
        } else {
            self.run(peer, replies.drop_last()).after(peer, replies.last())
        }
    }
}

impl<B> SecureStep<B> {
    /// What to do first.
    pub fn first() -> (step: SecureStep<B>)
        ensures
            step@ is SetBondable,
    {
        SecureStep::SetBondable
    }

    /// What to do once the reply to this step is in.
    pub fn next(self, peer: Peer, reply: SecureReply<B>) -> (step: SecureStep<B>)
        ensures
            step@ == self@.after(peer, reply),
    {
        match (self, reply) {
            (SecureStep::SetBondable, SecureReply::Returned { ok }) => if ok {
                SecureStep::RequestSecurity
            } else {
                SecureStep::Finished { secured: false }
            },
            (SecureStep::RequestSecurity, SecureReply::Returned { ok }) => if ok {
                SecureStep::Listen
            } else {
                SecureStep::Finished { secured: false }
            },
            (SecureStep::Listen, SecureReply::TimedOut) => SecureStep::Finished { secured: false },
            (SecureStep::Listen, SecureReply::Heard { event }) => Self::on_event(peer, event),
            (SecureStep::AnswerParams, SecureReply::Returned { ok: _ }) => SecureStep::Listen,
            (SecureStep::StoreBond { profile: _ }, SecureReply::Returned { ok: _ }) => {
                SecureStep::Finished { secured: true }
            },
            (SecureStep::ClearBond { slot: _ }, SecureReply::Returned { ok: _ }) => {
                SecureStep::Finished { secured: false }
            },
            (step, _) => step,
        }
    }

    /// What to do about an event of the link.
    fn on_event(peer: Peer, event: LinkEvent<B>) -> (step: SecureStep<B>)
        ensures
            step@ == SecureStepView::after_event(peer, event),
    {
        match event {
            // Save the new bond, also when the bonded keyboard cleared its side
            // and re-paired; otherwise we keep an old key nothing accepts anymore.
            LinkEvent::PairingComplete { bond: Some(info) } => SecureStep::StoreBond {
                profile: ProfileInfo {
                    slot_num: BOND_SLOT,
                    removed: false,
                    info,
                    cccd_table: Vec::new(),
                },
            },
            LinkEvent::PairingComplete { bond: None } => SecureStep::Finished { secured: true },
            LinkEvent::Encrypted => SecureStep::Finished { secured: true },
            LinkEvent::PairingFailed => if peer == Peer::Bonded {
                SecureStep::ClearBond { slot: BOND_SLOT }
            } else {
                SecureStep::Finished { secured: false }
            },
            // A keyboard that cleared its side rejects our key at the link layer,
            // so the rejection arrives here. The stored key is dead either way.
            LinkEvent::Disconnected { reason } => if peer == Peer::Bonded && reason
                == authentication_failure() {
                SecureStep::ClearBond { slot: BOND_SLOT }
            } else {
                SecureStep::Finished { secured: false }
            },
            // Securing is the only event reader until it returns, so answer these here.
            LinkEvent::ParamsRequested => SecureStep::AnswerParams,
            LinkEvent::Other => SecureStep::Listen,
        }
    }
}

/// Security is requested only after this side was made bondable.
pub proof fn law_bondable_before_security<B>(
    step: SecureStepView<B>,
    peer: Peer,
    reply: SecureReply<B>,
)
    requires
        !(step is RequestSecurity),
        step.after(peer, reply) is RequestSecurity,
    ensures
        step is SetBondable,
        reply == (SecureReply::<B>::Returned { ok: true }),
{
}

/// Some reply reports that the link is secure.
pub open spec fn link_reported_secure<B>(replies: Seq<SecureReply<B>>) -> bool {
    exists|i: int|
        0 <= i < replies.len() && (#[trigger] replies[i] matches SecureReply::Heard { event } && (
        event is PairingComplete || event is Encrypted))
}

/// A connection counts as secured only if the link reported that it is.
pub proof fn law_secured_only_if_reported<B>(peer: Peer, replies: Seq<SecureReply<B>>)
    ensures
        SecureStepView::<B>::SetBondable.run(peer, replies) == (SecureStepView::<B>::Finished {
            secured: true,
        }) ==> link_reported_secure(replies),
        SecureStepView::<B>::SetBondable.run(peer, replies) is StoreBond ==> link_reported_secure(
            replies,
        ),
    decreases replies.len(),
{
    if replies.len() > 0 {
        let before = replies.drop_last();
        law_secured_only_if_reported(peer, before);
        if link_reported_secure(before) {
            let i = choose|i: int|
                0 <= i < before.len() && (#[trigger] before[i] matches SecureReply::Heard { event }
                    && (event is PairingComplete || event is Encrypted));
            assert(replies[i] == before[i]);
        }
        assert(replies[replies.len() - 1] == replies.last());
    }
}

/// The stored bond is dropped exactly when the bonded keyboard refuses its key.
pub proof fn law_bond_dropped_iff_key_refused<B>(
    step: SecureStepView<B>,
    peer: Peer,
    reply: SecureReply<B>,
)
    requires
        !(step is ClearBond),
    ensures
        step.after(peer, reply) is ClearBond <==> {
            &&& step is Listen
            &&& peer is Bonded
            &&& reply matches SecureReply::Heard { event } && event.refuses_key()
        },
{
}

/// Some reply is a completed pairing that brought this bond.
pub open spec fn pairing_brought<B>(replies: Seq<SecureReply<B>>, info: B) -> bool {
    exists|i: int|
        0 <= i < replies.len() && #[trigger] replies[i] == (SecureReply::Heard {
            event: LinkEvent::PairingComplete { bond: Some(info) },
        })
}

/// A failed attempt at a new keyboard never costs the stored bond: whatever
/// happens on a connection to a new keyboard, nothing is dropped, and what was
/// stored is replaced only by the bond of a completed pairing.
pub proof fn law_new_keyboard_never_drops_the_bond<B>(replies: Seq<SecureReply<B>>)
    ensures
        !(SecureStepView::<B>::SetBondable.run(Peer::New, replies) is ClearBond),
        SecureStepView::<B>::SetBondable.run(Peer::New, replies) matches SecureStepView::StoreBond {
            profile,
        } ==> pairing_brought(replies, profile.info),
    decreases replies.len(),
{
    if replies.len() > 0 {
        let before = replies.drop_last();
        law_new_keyboard_never_drops_the_bond(before);
        match SecureStepView::<B>::SetBondable.run(Peer::New, before) {
            SecureStepView::StoreBond { profile } => {
                let i = choose|i: int|
                    0 <= i < before.len() && #[trigger] before[i] == (SecureReply::Heard {
                        event: LinkEvent::PairingComplete { bond: Some(profile.info) },
                    });
                assert(replies[i] == before[i]);
            },
            _ => {},
        }
        assert(replies[replies.len() - 1] == replies.last());
    }
}

/// A bond is stored exactly when a completed pairing brings one, and it is that
/// bond which is stored.
pub proof fn law_stored_bond_is_the_paired_one<B>(
    step: SecureStepView<B>,
    peer: Peer,
    reply: SecureReply<B>,
)
    requires
        !(step is StoreBond),
    ensures
        step.after(peer, reply) is StoreBond <==> {
            &&& step is Listen
            &&& reply matches SecureReply::Heard { event }
            &&& event matches LinkEvent::PairingComplete { bond }
            &&& bond is Some
        },
        step.after(peer, reply) matches SecureStepView::StoreBond { profile } ==> reply == (
        SecureReply::Heard { event: LinkEvent::PairingComplete { bond: Some(profile.info) } }),
{
}

/// The dongle has one bond: whatever is stored or dropped is in the one slot.
pub proof fn law_one_bond_slot<B>(peer: Peer, replies: Seq<SecureReply<B>>)
    ensures
        SecureStepView::<B>::SetBondable.run(peer, replies) matches SecureStepView::StoreBond { profile }
            ==> profile.slot_num == BOND_SLOT && !profile.removed,
        SecureStepView::<B>::SetBondable.run(peer, replies) matches SecureStepView::ClearBond { slot }
            ==> slot == BOND_SLOT,
    decreases replies.len(),
{
    if replies.len() > 0 {
        law_one_bond_slot(peer, replies.drop_last());
    }
}

/// A bond is stored without any subscription of the keyboard it replaces: its
/// table of subscriptions is empty.
pub proof fn law_new_bond_has_no_subscriptions<B>(peer: Peer, replies: Seq<SecureReply<B>>)
    ensures
        SecureStepView::<B>::SetBondable.run(peer, replies) matches SecureStepView::StoreBond {
            profile,
        } ==> profile.cccd_table.len() == 0,
    decreases replies.len(),
{
    if replies.len() > 0 {
        law_new_bond_has_no_subscriptions(peer, replies.drop_last());
    }
}

/// A bond is stored once: after that the connection is secured and nothing more
/// is done.
pub proof fn law_bond_is_stored_once<B>(
    step: SecureStepView<B>,
    peer: Peer,
    replies: Seq<SecureReply<B>>,
)
    requires
        step is StoreBond,
    ensures
        step.run(peer, replies) == step || step.run(peer, replies) == (
        SecureStepView::<B>::Finished { secured: true }),
    decreases replies.len(),
{
    if replies.len() > 0 {
        law_bond_is_stored_once(step, peer, replies.drop_last());
    }
}

/// A request for other connection parameters is always answered, and securing
/// goes on after it.
pub proof fn law_params_requests_are_answered<B>(peer: Peer, accepted: bool)
    ensures
        SecureStepView::<B>::Listen.after(
            peer,
            SecureReply::Heard { event: LinkEvent::ParamsRequested },
        ) is AnswerParams,
        SecureStepView::<B>::AnswerParams.after(
            peer,
            SecureReply::Returned { ok: accepted },
        ) is Listen,
{
}

/// Securing starts by making this side bondable and goes on only while its calls
/// succeed: bondable, then security requested, then the wait for the link. Either
/// call failing ends it, not secured.
pub proof fn law_securing_goes_on_while_calls_succeed<B>(peer: Peer, ok: bool)
    ensures
        ({
            let next = SecureStepView::<B>::SetBondable.after(peer, SecureReply::Returned { ok });
            &&& ok <==> next is RequestSecurity
            &&& !ok <==> next == (SecureStepView::<B>::Finished { secured: false })
        }),
        ({
            let next = SecureStepView::<B>::RequestSecurity.after(
                peer,
                SecureReply::Returned { ok },
            );
            &&& ok <==> next is Listen
            &&& !ok <==> next == (SecureStepView::<B>::Finished { secured: false })
        }),
{
}

/// A link that reports itself secure is secured, whichever keyboard it is to: at
/// once if it is encrypted or paired without a bond, and once the bond is stored,
/// whatever comes of storing it, if pairing brought one.
pub proof fn law_secure_link_is_secured<B>(peer: Peer, event: LinkEvent<B>, ok: bool)
    requires
        event is Encrypted || event is PairingComplete,
    ensures
        ({
            let next = SecureStepView::<B>::Listen.after(peer, SecureReply::Heard { event });
            match event {
                LinkEvent::PairingComplete { bond: Some(bond) } => {
                    &&& next matches SecureStepView::StoreBond { profile }
                    &&& profile.slot_num == 0
                    &&& !profile.removed
                    &&& profile.info == bond
                    &&& profile.cccd_table.len() == 0
                    &&& next.after(peer, SecureReply::Returned { ok }) == (
                    SecureStepView::<B>::Finished { secured: true })
                },
                _ => next == (SecureStepView::<B>::Finished { secured: true }),
            }
        }),
{
}

/// An event that neither reports the link secure, nor refuses the key, nor ends
/// the link, nor asks for parameters is of no interest: for either keyboard the
/// wait goes on as if it had not come.
pub proof fn law_other_events_change_nothing<B>(peer: Peer, event: LinkEvent<B>)
    requires
        !(event is Encrypted),
        !(event is PairingComplete),
        !(event is PairingFailed),
        !(event is Disconnected),
        !(event is ParamsRequested),
    ensures
        SecureStepView::<B>::Listen.after(peer, SecureReply::Heard { event }) is Listen,
{
}

/// Securing fails only for a reason: a call failed, the link fell silent, pairing
/// failed or the link was disconnected; or a dead bond was dropped for the last
/// two. And each of these ends it.
pub proof fn law_securing_fails_for_a_reason<B>(
    step: SecureStepView<B>,
    peer: Peer,
    reply: SecureReply<B>,
)
    requires
        !(step is Finished),
    ensures
        step.after(peer, reply) == (SecureStepView::<B>::Finished { secured: false }) <==> {
            ||| (step is SetBondable || step is RequestSecurity) && reply == (
            SecureReply::<B>::Returned { ok: false })
            ||| step is ClearBond && reply is Returned
            ||| step is Listen && reply is TimedOut
            ||| step is Listen && (match reply {
                SecureReply::Heard { event: LinkEvent::PairingFailed } => peer is New,
                SecureReply::Heard { event: LinkEvent::Disconnected { reason } } => peer is New
                    || reason != 5,
                _ => false,
            })
        },
{
}

/// The bonded keyboard refusing its key, by a failed pairing or by a disconnect
/// with status 5, drops the bond in slot 0 first and then ends securing, whatever
/// comes of the dropping.
pub proof fn law_refused_key_drops_the_bond<B>(event: LinkEvent<B>, ok: bool)
    requires
        event is PairingFailed || event == (LinkEvent::<B>::Disconnected { reason: 5 }),
    ensures
        ({
            let next = SecureStepView::<B>::Listen.after(
                Peer::Bonded,
                SecureReply::Heard { event },
            );
            &&& next == (SecureStepView::<B>::ClearBond { slot: 0 })
            &&& next.after(Peer::Bonded, SecureReply::Returned { ok }) == (
            SecureStepView::<B>::Finished { secured: false })
        }),
{
}

/// A reply counts only for the step that it answers: a wait is answered by an
/// event or by silence, every other step by its call returning, and nothing
/// follows the end. Any other reply changes nothing.
pub proof fn law_stray_secure_replies_change_nothing<B>(
    step: SecureStepView<B>,
    peer: Peer,
    reply: SecureReply<B>,
)
    requires
        step is Finished || (step is Listen <==> reply is Returned),
    ensures
        step.after(peer, reply) == step,
{
}

/// The contents of a step and of a profile are those of their fields.
pub proof fn law_secure_step_is_what_it_shows<B>(step: SecureStep<B>)
    ensures
        step is SetBondable <==> step@ is SetBondable,
        step is RequestSecurity <==> step@ is RequestSecurity,
        step is Listen <==> step@ is Listen,
        step is AnswerParams <==> step@ is AnswerParams,
        step is StoreBond <==> step@ is StoreBond,
        step matches SecureStep::StoreBond { profile } ==> {
            &&& step@->profile.slot_num == profile.slot_num
            &&& step@->profile.removed == profile.removed
            &&& step@->profile.info == profile.info
            &&& step@->profile.cccd_table == profile.cccd_table@
        },
        step is ClearBond <==> step@ is ClearBond,
        step matches SecureStep::ClearBond { slot } ==> step@->slot == slot,
        step is Finished <==> step@ is Finished,
        step matches SecureStep::Finished { secured } ==> step@->secured == secured,
{
}

/// Each wait for the link may last thirty seconds.
pub proof fn law_secure_timeout()
    ensures
        SECURE_TIMEOUT_SECS == 30,
        BOND_SLOT == 0,
        AUTHENTICATION_FAILURE == 5,
{
}

} // verus!
