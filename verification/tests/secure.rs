use bt_hci::param::Status;

use dongle::secure::{LinkEvent, Peer, SecureReply, SecureStep, AUTHENTICATION_FAILURE, BOND_SLOT, SECURE_TIMEOUT_SECS};

type Step = SecureStep<u32>;
type Reply = SecureReply<u32>;

fn listening() -> Step {
    let step = Step::first();
    assert!(matches!(step, SecureStep::SetBondable));
    let step = step.next(Peer::New, Reply::Returned { ok: true });
    assert!(matches!(step, SecureStep::RequestSecurity));
    step.next(Peer::New, Reply::Returned { ok: true })
}

fn hear(peer: Peer, event: LinkEvent<u32>) -> Step {
    listening().next(peer, Reply::Heard { event })
}

#[test]
fn a_connection_is_made_bondable_before_security_is_requested() {
    assert!(matches!(listening(), SecureStep::Listen));
    let refused = Step::first().next(Peer::New, Reply::Returned { ok: false });
    assert!(matches!(refused, SecureStep::Finished { secured: false }));
    let refused = SecureStep::RequestSecurity.next(Peer::Bonded, Reply::Returned { ok: false });
    assert!(matches!(refused, SecureStep::Finished { secured: false }));
}

#[test]
fn a_new_bond_is_stored_whoever_the_peer_is() {
    for peer in [Peer::Bonded, Peer::New] {
        match hear(peer, LinkEvent::PairingComplete { bond: Some(7) }) {
            SecureStep::StoreBond { profile } => {
                assert_eq!((profile.slot_num, profile.removed, profile.info), (BOND_SLOT, false, 7));
                assert!(profile.cccd_table.is_empty());
                let step = SecureStep::StoreBond { profile };
                let done = step.next(peer, Reply::Returned { ok: true });
                assert!(matches!(done, SecureStep::Finished { secured: true }));
            }
            _ => panic!("not stored"),
        }
    }
}

#[test]
fn an_encrypted_link_is_secure() {
    let step = hear(Peer::Bonded, LinkEvent::Encrypted);
    assert!(matches!(step, SecureStep::Finished { secured: true }));
    let step = hear(Peer::New, LinkEvent::PairingComplete { bond: None });
    assert!(matches!(step, SecureStep::Finished { secured: true }));
}

#[test]
fn a_refused_key_drops_the_bond() {
    let reason = Status::AUTHENTICATION_FAILURE.into_inner();
    assert_eq!(reason, AUTHENTICATION_FAILURE);
    for event in [LinkEvent::PairingFailed, LinkEvent::Disconnected { reason }] {
        match hear(Peer::Bonded, event) {
            SecureStep::ClearBond { slot } => {
                assert_eq!(slot, 0);
                let step = SecureStep::<u32>::ClearBond { slot };
                let done = step.next(Peer::Bonded, Reply::Returned { ok: true });
                assert!(matches!(done, SecureStep::Finished { secured: false }));
            }
            _ => panic!("not dropped"),
        }
    }
}

#[test]
fn a_new_keyboard_that_fails_costs_nothing() {
    let reason = AUTHENTICATION_FAILURE;
    for event in [LinkEvent::PairingFailed, LinkEvent::Disconnected { reason }] {
        assert!(matches!(hear(Peer::New, event), SecureStep::Finished { secured: false }));
    }
}

#[test]
fn any_other_disconnect_keeps_the_bond() {
    let reason = Status::CONN_TIMEOUT.into_inner();
    let step = hear(Peer::Bonded, LinkEvent::Disconnected { reason });
    assert!(matches!(step, SecureStep::Finished { secured: false }));
}

#[test]
fn a_silent_link_is_given_up() {
    assert_eq!(SECURE_TIMEOUT_SECS, 30);
    let step = listening().next(Peer::Bonded, Reply::TimedOut);
    assert!(matches!(step, SecureStep::Finished { secured: false }));
}

#[test]
fn params_requests_are_answered_while_securing() {
    let step = hear(Peer::New, LinkEvent::ParamsRequested);
    assert!(matches!(step, SecureStep::AnswerParams));
    let step = step.next(Peer::New, Reply::Returned { ok: false });
    assert!(matches!(step, SecureStep::Listen));
    assert!(matches!(hear(Peer::New, LinkEvent::Other), SecureStep::Listen));
}

#[test]
fn a_reply_to_another_step_changes_nothing() {
    let step = Step::first().next(Peer::New, Reply::TimedOut);
    assert!(matches!(step, SecureStep::SetBondable));
    let step = SecureStep::Finished { secured: true }.next(Peer::New, Reply::Returned { ok: false });
    assert!(matches!(step, SecureStep::Finished { secured: true }));
}
