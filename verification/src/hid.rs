//! HID input reports, as the USB host gets them.

use vstd::prelude::*;

verus! {

/// Modifiers and up to six keys held down.
#[derive(Clone, Copy, Debug, PartialEq, Eq)]
pub struct KeyboardReport {
    pub modifier: u8,
    pub reserved: u8,
    pub leds: u8,
    pub keycodes: [u8; 6],
}

/// Mouse buttons held down, and movement.
#[derive(Clone, Copy, Debug, PartialEq, Eq)]
pub struct MouseReport {
    pub buttons: u8,
    pub x: i8,
    pub y: i8,
    pub wheel: i8,
    pub pan: i8,
}

/// The media key held down.
#[derive(Clone, Copy, Debug, PartialEq, Eq)]
pub struct MediaKeyboardReport {
    pub usage_id: u16,
}

/// The system control key held down.
#[derive(Clone, Copy, Debug, PartialEq, Eq)]
pub struct SystemControlReport {
    pub usage_id: u8,
}

/// One report of any kind.
#[derive(Clone, Copy, Debug, PartialEq, Eq)]
pub enum Report {
    KeyboardReport(KeyboardReport),
    MouseReport(MouseReport),
    MediaKeyboardReport(MediaKeyboardReport),
    SystemControlReport(SystemControlReport),
}

/// A byte read as a two's complement number.
pub open spec fn signed(byte: u8) -> i8 {
    (if byte < 0x80 {
        byte as int
    } else {
        byte - 0x100
    }) as i8
}

/// The keyboard report that BLE report bytes carry: modifiers, a reserved byte,
/// six key codes.
pub open spec fn keyboard_report(data: Seq<u8>) -> KeyboardReport
    recommends
        data.len() >= 8,
{
    KeyboardReport {
        modifier: data[0],
        reserved: 0,
        leds: 0,
        keycodes: [data[2], data[3], data[4], data[5], data[6], data[7]],
    }
}

/// The mouse report that BLE report bytes carry: buttons, then four signed
/// movements.
pub open spec fn mouse_report(data: Seq<u8>) -> MouseReport
    recommends
        data.len() >= 5,
{
    MouseReport {
        buttons: data[0],
        x: signed(data[1]),
        y: signed(data[2]),
        wheel: signed(data[3]),
        pan: signed(data[4]),
    }
}

/// The media report that BLE report bytes carry: a usage, low byte first.
pub open spec fn media_report(data: Seq<u8>) -> MediaKeyboardReport
    recommends
        data.len() >= 2,
{
    MediaKeyboardReport { usage_id: (data[0] + 0x100 * data[1]) as u16 }
}

/// The system control report that BLE report bytes carry: a usage.
pub open spec fn system_report(data: Seq<u8>) -> SystemControlReport
    recommends
        data.len() >= 1,
{
    SystemControlReport { usage_id: data[0] }
}

fn to_signed(byte: u8) -> (number: i8)
    ensures
        number == signed(byte),
{
    assert(byte as i8 == if byte < 0x80 {
        byte as int
    } else {
        byte - 0x100
    }) by (bit_vector);
    byte as i8
}

impl KeyboardReport {
    /// Read the bytes of a BLE keyboard report.
    pub fn from_ble(data: &[u8]) -> (report: KeyboardReport)
        requires
            data@.len() >= 8,
        ensures
            report == keyboard_report(data@),
    {
        KeyboardReport {
            modifier: data[0],
            reserved: 0,
            leds: 0,
            keycodes: [data[2], data[3], data[4], data[5], data[6], data[7]],
        }
    }
}

impl MouseReport {
    /// Read the bytes of a BLE mouse report.
    pub fn from_ble(data: &[u8]) -> (report: MouseReport)
        requires
            data@.len() >= 5,
        ensures
            report == mouse_report(data@),
    {
        MouseReport {
            buttons: data[0],
            x: to_signed(data[1]),
            y: to_signed(data[2]),
            wheel: to_signed(data[3]),
            pan: to_signed(data[4]),
        }
    }
}

impl MediaKeyboardReport {
    /// Read the bytes of a BLE media report.
    pub fn from_ble(data: &[u8]) -> (report: MediaKeyboardReport)
        requires
            data@.len() >= 2,
        ensures
            report == media_report(data@),
    {
        MediaKeyboardReport { usage_id: data[0] as u16 + 0x100 * (data[1] as u16) }
    }
}

impl SystemControlReport {
    /// Read the bytes of a BLE system control report.
    pub fn from_ble(data: &[u8]) -> (report: SystemControlReport)
        requires
            data@.len() >= 1,
        ensures
            report == system_report(data@),
    {
        SystemControlReport { usage_id: data[0] }
    }
}

/// What the host takes to be held down: the latest report of each kind.
pub struct HostInput {
    pub keyboard: KeyboardReport,
    pub mouse: MouseReport,
    pub media: MediaKeyboardReport,
    pub system: SystemControlReport,
}

impl HostInput {
    /// A report replaces the one of its kind.
    pub open spec fn after(self, report: Report) -> HostInput {
        match report {
            Report::KeyboardReport(keyboard) => HostInput { keyboard, ..self },
            Report::MouseReport(mouse) => HostInput { mouse, ..self },
            Report::MediaKeyboardReport(media) => HostInput { media, ..self },
            Report::SystemControlReport(system) => HostInput { system, ..self },
        }
    }

    /// After a series of reports.
    pub open spec fn after_all(self, reports: Seq<Report>) -> HostInput
        decreases reports.len(),
    {
        if reports.len() == 0 {
            self
        } else {
            self.after_all(reports.drop_last()).after(reports.last())
        }
    }

    /// Nothing is held down and nothing moves.
    pub open spec fn is_released(self) -> bool {
        &&& self.keyboard.modifier == 0
        &&& self.keyboard.reserved == 0
        &&& self.keyboard.leds == 0
        &&& self.keyboard.keycodes@ == seq![0u8, 0u8, 0u8, 0u8, 0u8, 0u8]
        &&& self.mouse == (MouseReport { buttons: 0, x: 0, y: 0, wheel: 0, pan: 0 })
        &&& self.media.usage_id == 0
        &&& self.system.usage_id == 0
    }
}

/// The reports that release everything: an empty one of each kind.
pub open spec fn release_reports() -> Seq<Report> {
    seq![
        Report::KeyboardReport(
            KeyboardReport { modifier: 0, reserved: 0, leds: 0, keycodes: [0, 0, 0, 0, 0, 0] },
        ),
        Report::MouseReport(MouseReport { buttons: 0, x: 0, y: 0, wheel: 0, pan: 0 }),
        Report::MediaKeyboardReport(MediaKeyboardReport { usage_id: 0 }),
        Report::SystemControlReport(SystemControlReport { usage_id: 0 }),
    ]
}

/// The reports to send, in order, when the link dropped: they release whatever
/// the keyboard was holding, so that nothing stays stuck down on the host.
pub fn release_held_keys() -> (reports: Vec<Report>)
    ensures
        reports@ == release_reports(),
{
    let keyboard = KeyboardReport {
        modifier: 0,
        reserved: 0,
        leds: 0,
        keycodes: [0, 0, 0, 0, 0, 0],
    };
    vec![
        Report::KeyboardReport(keyboard),
        Report::MouseReport(MouseReport { buttons: 0, x: 0, y: 0, wheel: 0, pan: 0 }),
        Report::MediaKeyboardReport(MediaKeyboardReport { usage_id: 0 }),
        Report::SystemControlReport(SystemControlReport { usage_id: 0 }),
    ]
}

/// Whatever the host was told before, after the release reports nothing is held
/// down.
pub proof fn law_nothing_stays_stuck(host: HostInput)
    ensures
        host.after_all(release_reports()).is_released(),
{
    let reports = release_reports();
    let r3 = reports.drop_last();
    let r2 = r3.drop_last();
    let r1 = r2.drop_last();
    let r0 = r1.drop_last();
    reveal_with_fuel(HostInput::after_all, 5);
    assert(r0.len() == 0);
    assert(host.after_all(r0) == host);
    assert(reports.last() == reports[3] && r3.last() == reports[2] && r2.last() == reports[1]
        && r1.last() == reports[0]);
    assert(host.after_all(reports).keyboard.keycodes@ =~= seq![0u8, 0u8, 0u8, 0u8, 0u8, 0u8]);
}

/// The release is one report of each kind, the keyboard's first, then the mouse's,
/// the media keys' and the system keys', and every field of each is zero.
pub proof fn law_release_is_one_empty_report_of_each_kind()
    ensures
        release_reports().len() == 4,
        release_reports()[0] matches Report::KeyboardReport(keys) && keys.modifier == 0
            && keys.reserved == 0 && keys.leds == 0 && (forall|i: int|
            0 <= i < 6 ==> #[trigger] keys.keycodes@[i] == 0),
        release_reports()[1] matches Report::MouseReport(moves) && moves.buttons == 0 && moves.x
            == 0 && moves.y == 0 && moves.wheel == 0 && moves.pan == 0,
        release_reports()[2] matches Report::MediaKeyboardReport(keys) && keys.usage_id == 0,
        release_reports()[3] matches Report::SystemControlReport(keys) && keys.usage_id == 0,
{
}

/// Reading a report's bytes: each field is the byte that stands for it, and bytes
/// after the last field do not count. Movements are two's complement, the media
/// usage has its low byte first.
pub proof fn law_report_bytes(data: Seq<u8>, more: Seq<u8>)
    ensures
        data.len() >= 8 ==> {
            let keys = keyboard_report(data);
            &&& keys.modifier == data[0]
            &&& keys.reserved == 0
            &&& keys.leds == 0
            &&& forall|i: int| 0 <= i < 6 ==> #[trigger] keys.keycodes@[i] == data[i + 2]
            &&& keyboard_report(data + more) == keys
        },
        data.len() >= 5 ==> {
            let moves = mouse_report(data);
            &&& moves.buttons == data[0]
            &&& moves.x == data[1] || moves.x == data[1] - 256
            &&& moves.y == data[2] || moves.y == data[2] - 256
            &&& moves.wheel == data[3] || moves.wheel == data[3] - 256
            &&& moves.pan == data[4] || moves.pan == data[4] - 256
            &&& mouse_report(data + more) == moves
        },
        data.len() >= 2 ==> {
            &&& media_report(data).usage_id == data[0] + 256 * data[1]
            &&& media_report(data + more) == media_report(data)
        },
        data.len() >= 1 ==> {
            &&& system_report(data).usage_id == data[0]
            &&& system_report(data + more) == system_report(data)
        },
{
    if data.len() >= 8 {
        let codes = keyboard_report(data).keycodes;
        assert(codes@[0] == data[2] && codes@[1] == data[3] && codes@[2] == data[4] && codes@[3]
            == data[5] && codes@[4] == data[6] && codes@[5] == data[7]);
        assert(keyboard_report(data + more).keycodes =~= codes);
    }
}

} // verus!
