use dongle::address::{Address, BdAddr};
use dongle::gatt::{Characteristic, KeyboardCharacteristics, Uuid};
use dongle::link::{
    connect, relay_conn_params, watch_connection, ConnParams, ConnectionStep, Setup, SetupReply, SetupStep, Watch,
};
use dongle::secure::LinkEvent;
use embassy_time::Duration;
use trouble_host::connection::RequestedConnParams;

fn requested(params: ConnParams) -> RequestedConnParams {
    RequestedConnParams {
        min_connection_interval: Duration::from_micros(params.min_connection_interval),
        max_connection_interval: Duration::from_micros(params.max_connection_interval),
        max_latency: params.max_latency,
        min_event_length: Duration::from_micros(params.min_event_length),
        max_event_length: Duration::from_micros(params.max_event_length),
        supervision_timeout: Duration::from_micros(params.supervision_timeout),
    }
}

#[test]
fn relay_parameters() {
    let params = relay_conn_params();
    let defaults = RequestedConnParams::default();
    assert_eq!(
        params,
        ConnParams {
            min_connection_interval: 7_500,
            max_connection_interval: 7_500,
            max_latency: 30,
            min_event_length: defaults.min_event_length.as_micros(),
            max_event_length: defaults.max_event_length.as_micros(),
            supervision_timeout: 10_000_000,
        }
    );
    assert!(requested(params).is_valid());
}

#[test]
fn connect_parameters() {
    let address = Address { kind: 1, addr: BdAddr::new([6; 6]) };
    let plan = connect(address);
    assert_eq!(plan.accept, address);
    assert_eq!(plan.timeout_secs, 15);
    assert_eq!(plan.params, ConnParams { max_latency: 0, supervision_timeout: 30_000_000, ..relay_conn_params() });
    assert!(requested(plan.params).is_valid());
}

#[test]
fn the_watcher_ends_on_disconnect_and_answers_requests() {
    assert_eq!(watch_connection(&LinkEvent::<u8>::Disconnected { reason: 8 }), Watch::Ended);
    assert_eq!(watch_connection(&LinkEvent::<u8>::ParamsRequested), Watch::AnswerParams);
    assert_eq!(watch_connection(&LinkEvent::<u8>::Other), Watch::GoOn);
    assert_eq!(watch_connection(&LinkEvent::<u8>::Encrypted), Watch::GoOn);
    assert_eq!(watch_connection(&LinkEvent::<u8>::PairingFailed), Watch::GoOn);
    assert_eq!(watch_connection(&LinkEvent::PairingComplete { bond: Some(1u8) }), Watch::GoOn);
}

fn steps(results: &[bool]) -> Vec<ConnectionStep> {
    let mut step = ConnectionStep::first();
    let mut taken = vec![step];
    for ok in results {
        step = step.next(*ok);
        taken.push(step);
    }
    taken
}

#[test]
fn a_served_connection_is_released_and_disconnected() {
    assert_eq!(
        steps(&[true; 6]),
        vec![
            ConnectionStep::Secure,
            ConnectionStep::OpenClient,
            ConnectionStep::Serve,
            ConnectionStep::LinkDown,
            ConnectionStep::ReleaseHeldKeys,
            ConnectionStep::Disconnect,
            ConnectionStep::Done,
        ]
    );
}

#[test]
fn a_connection_that_fails_early_is_disconnected() {
    assert_eq!(
        steps(&[false, true, true]),
        vec![ConnectionStep::Secure, ConnectionStep::Disconnect, ConnectionStep::Done, ConnectionStep::Done]
    );
    assert_eq!(steps(&[true, false])[2], ConnectionStep::Disconnect);
}

fn ch(handle: u16, cccd_handle: Option<u16>) -> Characteristic {
    Characteristic { uuid: Uuid::Uuid16(0x2A4D), handle, cccd_handle }
}

fn keyboard(all: bool) -> KeyboardCharacteristics {
    let cccd = |handle: u16| if all { Some(handle) } else { None };
    KeyboardCharacteristics {
        keyboard_input: ch(10, cccd(11)),
        keyboard_output: ch(20, Some(21)),
        mouse: ch(30, cccd(31)),
        media: ch(40, None),
        system: ch(50, cccd(51)),
        config_input: ch(70, cccd(71)),
        config_output: ch(80, Some(81)),
    }
}

fn set_up(setup: &mut Setup, chars: KeyboardCharacteristics) -> Vec<SetupStep> {
    let mut taken = vec![];
    while !matches!(setup.step, SetupStep::Relayed | SetupStep::Failed) {
        taken.push(setup.step);
        if setup.step == SetupStep::Discover {
            setup.on_reply(SetupReply::Discovered { chars });
        } else {
            setup.on_reply(SetupReply::Done { ok: true });
        }
    }
    taken
}

#[test]
fn setup_subscribes_before_it_relays() {
    let mut setup = Setup::start();
    assert_eq!(
        set_up(&mut setup, keyboard(true)),
        vec![
            SetupStep::SetPhy,
            SetupStep::SetConnParams,
            SetupStep::Discover,
            SetupStep::WriteCccd { handle: 11 },
            SetupStep::WriteCccd { handle: 31 },
            SetupStep::WriteCccd { handle: 51 },
            SetupStep::WriteCccd { handle: 71 },
            SetupStep::Listen,
            SetupStep::LinkUp,
            SetupStep::Relay,
        ]
    );
    assert_eq!(setup.step, SetupStep::Relayed);
}

#[test]
fn setup_goes_on_without_anything_to_subscribe_to() {
    let mut setup = Setup::start();
    assert_eq!(set_up(&mut setup, keyboard(false))[3], SetupStep::Listen);
}

#[test]
fn a_failed_setup_step_ends_the_setup() {
    // Tuning may fail without harm.
    let mut setup = Setup::start();
    setup.on_reply(SetupReply::Done { ok: false });
    setup.on_reply(SetupReply::Done { ok: false });
    assert_eq!(setup.step, SetupStep::Discover);
    setup.on_reply(SetupReply::Done { ok: false });
    assert_eq!(setup.step, SetupStep::Failed);

    let mut setup = Setup::start();
    setup.on_reply(SetupReply::Done { ok: true });
    setup.on_reply(SetupReply::Done { ok: true });
    setup.on_reply(SetupReply::Discovered { chars: keyboard(true) });
    setup.on_reply(SetupReply::Done { ok: true });
    assert_eq!(setup.step, SetupStep::WriteCccd { handle: 31 });
    setup.on_reply(SetupReply::Done { ok: false });
    assert_eq!(setup.step, SetupStep::Failed);
    setup.on_reply(SetupReply::Done { ok: true });
    assert_eq!(setup.step, SetupStep::Failed);

    let mut setup = Setup::start();
    setup.on_reply(SetupReply::Done { ok: true });
    setup.on_reply(SetupReply::Done { ok: true });
    setup.on_reply(SetupReply::Discovered { chars: keyboard(false) });
    assert_eq!(setup.step, SetupStep::Listen);
    setup.on_reply(SetupReply::Done { ok: false });
    assert_eq!(setup.step, SetupStep::Failed);
}
