//! The keyboard's GATT side: which characteristics the relay needs, how they
//! are found, and what a notification on one of them carries.

use vstd::prelude::*;

use crate::hid::{KeyboardReport, MediaKeyboardReport, MouseReport, Report, SystemControlReport};
#[allow(unused_imports)]
use crate::hid::{keyboard_report, media_report, mouse_report, system_report};

verus! {

/// The HID service.
pub const HID_SERVICE: u16 = 0x1812;

/// The report characteristic of a HID service.
pub const HID_REPORT: u16 = 0x2A4D;

/// A Bluetooth UUID, as a number.
#[derive(Clone, Copy, Debug, PartialEq, Eq, Structural)]
pub enum Uuid {
    Uuid16(u16),
    Uuid32(u32),
    Uuid128(u128),
}

/// A characteristic of the keyboard, by its handles.
#[derive(Clone, Copy, Debug, PartialEq, Eq)]
pub struct Characteristic {
    pub uuid: Uuid,
    /// Handle of the value.
    pub handle: u16,
    /// Handle of the descriptor that subscribes to notifications, if there is one.
    pub cccd_handle: Option<u16>,
}

/// The UUIDs of the Rynk host protocol's own service.
#[derive(Clone, Copy, Debug, PartialEq, Eq)]
pub struct RynkIds {
    pub service: Uuid,
    pub input: Uuid,
    pub output: Uuid,
}

/// The host protocol that the keyboard speaks through the dongle.
#[derive(Clone, Copy, Debug, PartialEq, Eq)]
pub enum HostProtocol {
    /// A byte stream over a pair of characteristics in a service of its own.
    Rynk(RynkIds),
    /// Reports of 32 bytes over a second HID service.
    Vial,
}

/// The report characteristics of the keyboard's first HID service.
#[derive(Clone, Copy, Debug, PartialEq, Eq)]
pub struct HidReports {
    pub keyboard_input: Characteristic,
    pub keyboard_output: Characteristic,
    pub mouse: Characteristic,
    pub media: Characteristic,
    pub system: Characteristic,
}

/// The characteristics the relay needs on the keyboard.
#[derive(Clone, Copy, Debug, PartialEq, Eq)]
pub struct KeyboardCharacteristics {
    pub keyboard_input: Characteristic,
    pub keyboard_output: Characteristic,
    pub mouse: Characteristic,
    pub media: Characteristic,
    pub system: Characteristic,
    /// The host-protocol pair: from Rynk's own service, or the two report
    /// characteristics of Vial's own HID service.
    pub config_input: Characteristic,
    pub config_output: Characteristic,
}

/// The report characteristics among `found`, in declaration order. They all
/// share one UUID; both ends are RMK, so the order identifies them.
pub open spec fn reports_of(found: Seq<Characteristic>) -> Seq<Characteristic> {
    found.filter(|c: Characteristic| c.uuid == Uuid::Uuid16(HID_REPORT))
}

/// The first HID service's reports, if it declares enough of them.
pub open spec fn hid_reports(found: Seq<Characteristic>) -> Option<HidReports> {
    let reports = reports_of(found);
    if reports.len() >= 5 {
        Some(
            HidReports {
                keyboard_input: reports[0],
                keyboard_output: reports[1],
                mouse: reports[2],
                media: reports[3],
                system: reports[4],
            },
        )
    } else {
        None
    }
}

/// Vial's input and output report, if its service declares them.
pub open spec fn vial_pair(found: Seq<Characteristic>) -> Option<
    (Characteristic, Characteristic),
> {
    let reports = reports_of(found);
    if reports.len() >= 2 {
        Some((reports[0], reports[1]))
    } else {
        None
    }
}

/// All that the relay needs, put together.
pub open spec fn all_characteristics(
    hid: HidReports,
    config_input: Characteristic,
    config_output: Characteristic,
) -> KeyboardCharacteristics {
    KeyboardCharacteristics {
        keyboard_input: hid.keyboard_input,
        keyboard_output: hid.keyboard_output,
        mouse: hid.mouse,
        media: hid.media,
        system: hid.system,
        config_input,
        config_output,
    }
}

/// The report characteristics among `found`, in declaration order.
fn select_reports(found: &Vec<Characteristic>) -> (reports: Vec<Characteristic>)
    ensures
        reports@ == reports_of(found@),
{
    let mut reports: Vec<Characteristic> = Vec::new();
    let ghost is_report = |c: Characteristic| c.uuid == Uuid::Uuid16(HID_REPORT);
    let mut i: usize = 0;
    proof {
        reveal(Seq::filter);
        assert(found@.take(0).filter(is_report) =~= seq![]);
    }
    while i < found.len()
        invariant
            i <= found.len(),
            is_report == (|c: Characteristic| c.uuid == Uuid::Uuid16(HID_REPORT)),
            reports@ == found@.take(i as int).filter(is_report),
        decreases found.len() - i,
    {
        proof {
            reveal(Seq::filter);
            assert(found@.take(i + 1).drop_last() =~= found@.take(i as int));
        }
        if found[i].uuid == Uuid::Uuid16(HID_REPORT) {
            reports.push(found[i]);
        }
        i = i + 1;
    }
    assert(found@.take(i as int) =~= found@);
    reports
}

/// A question to the keyboard. A service is named by its position in the latest
/// answer to [`Query::Services`].
#[derive(Clone, Copy, Debug, PartialEq, Eq)]
pub enum Query {
    /// Which primary services have this UUID?
    Services { uuid: Uuid },
    /// Which characteristics does the service declare?
    Characteristics { service: usize },
    /// Which characteristic of the service has this UUID?
    Characteristic { service: usize, uuid: Uuid },
}

/// How far discovery has got.
#[derive(Clone, Copy, Debug)]
pub enum Discovery {
    /// Find the HID services.
    FindHidServices,
    /// List what HID service 0 declares; `services` were found.
    ListHidCharacteristics { services: usize },
    /// Find Rynk's service.
    FindRynkServices { hid: HidReports },
    /// Find Rynk's input in service 0.
    FindRynkInput { hid: HidReports },
    /// Find Rynk's output in service 0.
    FindRynkOutput { hid: HidReports, input: Characteristic },
    /// List what HID service 1, Vial's, declares.
    ListVialCharacteristics { hid: HidReports },
    /// Everything is there.
    Found { chars: KeyboardCharacteristics },
    /// Something is missing, or the keyboard failed to answer.
    Failed,
}

/// What the keyboard answered.
pub enum DiscoveryReply {
    /// So many services match.
    Services { count: usize },
    /// A service declares these characteristics, in this order.
    Characteristics { declared: Vec<Characteristic> },
    /// The characteristic that was asked for.
    Characteristic { found: Characteristic },
    /// The question failed.
    Error,
}

impl Discovery {
    /// What discovery does after an answer. An answer that does not belong to
    /// the question leaves it pending.
    pub open spec fn after(self, protocol: HostProtocol, reply: DiscoveryReply) -> Discovery {
        match (self, reply) {
            (Discovery::Found { chars }, _) => self,
            (_, DiscoveryReply::Error) => Discovery::Failed,
            (Discovery::FindHidServices, DiscoveryReply::Services { count }) => if count >= 1 {
                Discovery::ListHidCharacteristics { services: count }
            } else {
                Discovery::Failed
            },
            (
                Discovery::ListHidCharacteristics { services },
                DiscoveryReply::Characteristics { declared },
            ) => match (hid_reports(declared@), protocol) {
                (None, _) => Discovery::Failed,
                (Some(hid), HostProtocol::Rynk(_)) => Discovery::FindRynkServices { hid },
                (Some(hid), HostProtocol::Vial) => if services >= 2 {
                    Discovery::ListVialCharacteristics { hid }
                } else {
                    Discovery::Failed
                },
            },
            (Discovery::FindRynkServices { hid }, DiscoveryReply::Services { count }) => {
                if count >= 1 {
                    Discovery::FindRynkInput { hid }
                } else {
                    Discovery::Failed
                }
            },
            (Discovery::FindRynkInput { hid }, DiscoveryReply::Characteristic { found }) => {
                Discovery::FindRynkOutput { hid, input: found }
            },
            (
                Discovery::FindRynkOutput { hid, input },
                DiscoveryReply::Characteristic { found },
            ) => Discovery::Found { chars: all_characteristics(hid, input, found) },
            (
                Discovery::ListVialCharacteristics { hid },
                DiscoveryReply::Characteristics { declared },
            ) => match vial_pair(declared@) {
                Some((input, output)) => Discovery::Found {
                    chars: all_characteristics(hid, input, output),
                },
                None => Discovery::Failed,
            },
            _ => self,
        }
    }

    /// Where discovery gets by a series of answers.
    pub open spec fn run(self, protocol: HostProtocol, replies: Seq<DiscoveryReply>) -> Discovery
        decreases replies.len(),
    {
        if replies.len() == 0 {
            self
        } else {
            self.run(protocol, replies.drop_last()).after(protocol, replies.last())
        }
    }

    /// The question that is pending: the UUIDs of the protocol at hand, asked of
    /// the first HID service, of Rynk's first service, or of the second HID
    /// service.
    pub open spec fn pending(self, protocol: HostProtocol) -> Option<Query> {
        match (self, protocol) {
            (Discovery::FindHidServices, _) => Some(
                Query::Services { uuid: Uuid::Uuid16(HID_SERVICE) },
            ),
            (Discovery::ListHidCharacteristics { .. }, _) => Some(
                Query::Characteristics { service: 0 },
            ),
            (Discovery::FindRynkServices { .. }, HostProtocol::Rynk(ids)) => Some(
                Query::Services { uuid: ids.service },
            ),
            (Discovery::FindRynkInput { .. }, HostProtocol::Rynk(ids)) => Some(
                Query::Characteristic { service: 0, uuid: ids.input },
            ),
            (Discovery::FindRynkOutput { .. }, HostProtocol::Rynk(ids)) => Some(
                Query::Characteristic { service: 0, uuid: ids.output },
            ),
            (Discovery::ListVialCharacteristics { .. }, _) => Some(
                Query::Characteristics { service: 1 },
            ),
            _ => None,
        }
    }

    /// The question to ask the keyboard now; `None` once discovery is over.
    pub fn query(&self, protocol: HostProtocol) -> (query: Option<Query>)
        ensures
            query == self.pending(protocol),
    {
        match (*self, protocol) {
            (Discovery::FindHidServices, _) => Some(
                Query::Services { uuid: Uuid::Uuid16(HID_SERVICE) },
            ),
            (Discovery::ListHidCharacteristics { services: _ }, _) => Some(
                Query::Characteristics { service: 0 },
            ),
            (Discovery::FindRynkServices { hid: _ }, HostProtocol::Rynk(ids)) => Some(
                Query::Services { uuid: ids.service },
            ),
            (Discovery::FindRynkInput { hid: _ }, HostProtocol::Rynk(ids)) => Some(
                Query::Characteristic { service: 0, uuid: ids.input },
            ),
            (Discovery::FindRynkOutput { hid: _, input: _ }, HostProtocol::Rynk(ids)) => Some(
                Query::Characteristic { service: 0, uuid: ids.output },
            ),
            (Discovery::ListVialCharacteristics { hid: _ }, _) => Some(
                Query::Characteristics { service: 1 },
            ),
            _ => None,
        }
    }

    /// Where discovery starts.
    pub fn start() -> (discovery: Discovery)
        ensures
            discovery is FindHidServices,
    {
        Discovery::FindHidServices
    }

    /// Take in the answer to the pending question.
    pub fn next(self, protocol: HostProtocol, reply: DiscoveryReply) -> (discovery: Discovery)
        ensures
            discovery == self.after(protocol, reply),
    {
        match (self, reply) {
            (Discovery::Found { chars: _ }, _) => self,
            (_, DiscoveryReply::Error) => Discovery::Failed,
            (Discovery::FindHidServices, DiscoveryReply::Services { count }) => if count >= 1 {
                Discovery::ListHidCharacteristics { services: count }
            } else {
                Discovery::Failed
            },
            (
                Discovery::ListHidCharacteristics { services },
                DiscoveryReply::Characteristics { declared },
            ) => {
                let reports = select_reports(&declared);
                if reports.len() < 5 {
                    return Discovery::Failed;
                }
                let hid = HidReports {
                    keyboard_input: reports[0],
                    keyboard_output: reports[1],
                    mouse: reports[2],
                    media: reports[3],
                    system: reports[4],
                };
                match protocol {
                    HostProtocol::Rynk(_) => Discovery::FindRynkServices { hid },
                    HostProtocol::Vial => if services >= 2 {
                        Discovery::ListVialCharacteristics { hid }
                    } else {
                        Discovery::Failed
                    },
                }
            },
            (Discovery::FindRynkServices { hid }, DiscoveryReply::Services { count }) => {
                if count >= 1 {
                    Discovery::FindRynkInput { hid }
                } else {
                    Discovery::Failed
                }
            },
            (Discovery::FindRynkInput { hid }, DiscoveryReply::Characteristic { found }) => {
                Discovery::FindRynkOutput { hid, input: found }
            },
            (
                Discovery::FindRynkOutput { hid, input },
                DiscoveryReply::Characteristic { found },
            ) => Discovery::Found { chars: KeyboardCharacteristics::assemble(hid, input, found) },
            (
                Discovery::ListVialCharacteristics { hid },
                DiscoveryReply::Characteristics { declared },
            ) => {
                // Input (notify) first, then output (write).
                let reports = select_reports(&declared);
                if reports.len() < 2 {
                    return Discovery::Failed;
                }
                Discovery::Found {
                    chars: KeyboardCharacteristics::assemble(hid, reports[0], reports[1]),
                }
            },
            _ => self,
        }
    }
}

/// With Rynk, discovery finds exactly what the keyboard declares: the first
/// five reports of its first HID service, in their fixed order, and the pair of
/// Rynk's first service.
pub proof fn law_rynk_discovery(
    ids: RynkIds,
    hid_services: usize,
    declared: Vec<Characteristic>,
    rynk_services: usize,
    input: Characteristic,
    output: Characteristic,
)
    ensures
        Discovery::FindHidServices.run(
            HostProtocol::Rynk(ids),
            seq![
                DiscoveryReply::Services { count: hid_services },
                DiscoveryReply::Characteristics { declared },
                DiscoveryReply::Services { count: rynk_services },
                DiscoveryReply::Characteristic { found: input },
                DiscoveryReply::Characteristic { found: output },
            ],
        ) == match hid_reports(declared@) {
            Some(hid) if hid_services >= 1 && rynk_services >= 1 => Discovery::Found {
                chars: all_characteristics(hid, input, output),
            },
            _ => Discovery::Failed,
        },
{
    let replies = seq![
        DiscoveryReply::Services { count: hid_services },
        DiscoveryReply::Characteristics { declared },
        DiscoveryReply::Services { count: rynk_services },
        DiscoveryReply::Characteristic { found: input },
        DiscoveryReply::Characteristic { found: output },
    ];
    let r4 = replies.drop_last();
    let r3 = r4.drop_last();
    let r2 = r3.drop_last();
    let r1 = r2.drop_last();
    assert(r1.drop_last().len() == 0);
    reveal_with_fuel(Discovery::run, 6);
    assert(replies.last() == replies[4] && r4.last() == replies[3] && r3.last() == replies[2]
        && r2.last() == replies[1] && r1.last() == replies[0]);
}

/// With Vial, discovery finds exactly what the keyboard declares: the first
/// five reports of its first HID service and the first two of its second.
pub proof fn law_vial_discovery(
    hid_services: usize,
    declared: Vec<Characteristic>,
    vial_declared: Vec<Characteristic>,
)
    ensures
        Discovery::FindHidServices.run(
            HostProtocol::Vial,
            seq![
                DiscoveryReply::Services { count: hid_services },
                DiscoveryReply::Characteristics { declared },
                DiscoveryReply::Characteristics { declared: vial_declared },
            ],
        ) == match (hid_reports(declared@), vial_pair(vial_declared@)) {
            (Some(hid), Some((input, output))) if hid_services >= 2 => Discovery::Found {
                chars: all_characteristics(hid, input, output),
            },
            _ => Discovery::Failed,
        },
{
    let replies = seq![
        DiscoveryReply::Services { count: hid_services },
        DiscoveryReply::Characteristics { declared },
        DiscoveryReply::Characteristics { declared: vial_declared },
    ];
    let r2 = replies.drop_last();
    let r1 = r2.drop_last();
    assert(r1.drop_last().len() == 0);
    reveal_with_fuel(Discovery::run, 4);
    assert(replies.last() == replies[2] && r2.last() == replies[1] && r1.last() == replies[0]);
}

/// Discovery is never stuck: whatever the keyboard answers, it has a question
/// pending or is over.
pub proof fn law_discovery_has_a_question(
    protocol: HostProtocol,
    replies: Seq<DiscoveryReply>,
)
    ensures
        ({
            let discovery = Discovery::FindHidServices.run(protocol, replies);
            discovery.pending(protocol) is None <==> discovery is Found || discovery is Failed
        }),
    decreases replies.len(),
{
    if replies.len() > 0 {
        law_discovery_has_a_question(protocol, replies.drop_last());
    }
}

/// A question that fails ends discovery, unless everything was found before it.
pub proof fn law_error_ends_discovery(discovery: Discovery, protocol: HostProtocol)
    requires
        !(discovery is Found),
    ensures
        discovery.after(protocol, DiscoveryReply::Error) is Failed,
{
}

/// The characteristics among these that can be subscribed to, by their
/// subscription handles, in order.
pub open spec fn cccd_handles(chars: Seq<Characteristic>) -> Seq<u16>
    decreases chars.len(),
{
    if chars.len() == 0 {
        seq![]
    } else {
        let before = cccd_handles(chars.drop_last());
        match chars.last().cccd_handle {
            Some(handle) => before.push(handle),
            None => before,
        }
    }
}

/// The bytes that, written to a CCCD, turn notifications on.
pub fn notify_value() -> (value: [u8; 2])
    ensures
        value@ == seq![0x01u8, 0x00u8],
{
    [0x01, 0x00]
}

impl KeyboardCharacteristics {
    fn assemble(
        hid: HidReports,
        config_input: Characteristic,
        config_output: Characteristic,
    ) -> (chars: KeyboardCharacteristics)
        ensures
            chars == all_characteristics(hid, config_input, config_output),
    {
        KeyboardCharacteristics {
            keyboard_input: hid.keyboard_input,
            keyboard_output: hid.keyboard_output,
            mouse: hid.mouse,
            media: hid.media,
            system: hid.system,
            config_input,
            config_output,
        }
    }

    /// Everything the keyboard notifies on.
    pub open spec fn notifying(self) -> Seq<Characteristic> {
        seq![self.keyboard_input, self.mouse, self.media, self.system, self.config_input]
    }

    /// The CCCDs to write, each once, to subscribe to everything the keyboard
    /// notifies on.
    pub fn subscribe(&self) -> (handles: Vec<u16>)
        ensures
            handles@ == cccd_handles(self.notifying()),
    {
        let notifying: [Characteristic; 5] = [
            self.keyboard_input,
            self.mouse,
            self.media,
            self.system,
            self.config_input,
        ];
        let mut handles: Vec<u16> = Vec::new();
        let mut i: usize = 0;
        assert(notifying@ =~= self.notifying());
        assert(notifying@.take(0) =~= seq![]);
        while i < 5
            invariant
                i <= 5,
                notifying@.len() == 5,
                handles@ == cccd_handles(notifying@.take(i as int)),
            decreases 5 - i,
        {
            assert(notifying@.take(i + 1).drop_last() =~= notifying@.take(i as int));
            if let Some(handle) = notifying[i].cccd_handle {
                handles.push(handle);
            }
            i = i + 1;
        }
        assert(notifying@.take(5) =~= notifying@);
        handles
    }

    /// The HID report that a notification carries, if it is one. BLE report
    /// bytes match the USB layout, so the handle alone tells the kind of report;
    /// a notification too short for its kind carries none.
    pub open spec fn report_of(self, handle: u16, data: Seq<u8>) -> Option<Report> {
        if handle == self.keyboard_input.handle && data.len() >= 8 {
            Some(Report::KeyboardReport(keyboard_report(data)))
        } else if handle == self.mouse.handle && data.len() >= 5 {
            Some(Report::MouseReport(mouse_report(data)))
        } else if handle == self.media.handle && data.len() >= 2 {
            Some(Report::MediaKeyboardReport(media_report(data)))
        } else if handle == self.system.handle && data.len() >= 1 {
            Some(Report::SystemControlReport(system_report(data)))
        } else {
            None
        }
    }

    /// The HID report a notification carries, or `None`.
    pub fn report(&self, handle: u16, data: &[u8]) -> (report: Option<Report>)
        ensures
            report == self.report_of(handle, data@),
    {
        if handle == self.keyboard_input.handle && data.len() >= 8 {
            Some(Report::KeyboardReport(KeyboardReport::from_ble(data)))
        } else if handle == self.mouse.handle && data.len() >= 5 {
            Some(Report::MouseReport(MouseReport::from_ble(data)))
        } else if handle == self.media.handle && data.len() >= 2 {
            Some(Report::MediaKeyboardReport(MediaKeyboardReport::from_ble(data)))
        } else if handle == self.system.handle && data.len() >= 1 {
            Some(Report::SystemControlReport(SystemControlReport::from_ble(data)))
        } else {
            None
        }
    }
}

/// With handles that differ, as a keyboard's do, the handle alone tells the
/// kind of report.
pub proof fn law_handle_tells_the_kind(
    chars: KeyboardCharacteristics,
    handle: u16,
    data: Seq<u8>,
    report: Report,
)
    requires
        chars.keyboard_input.handle != chars.mouse.handle,
        chars.keyboard_input.handle != chars.media.handle,
        chars.keyboard_input.handle != chars.system.handle,
        chars.mouse.handle != chars.media.handle,
        chars.mouse.handle != chars.system.handle,
        chars.media.handle != chars.system.handle,
        chars.report_of(handle, data) == Some(report),
    ensures
        report is KeyboardReport <==> handle == chars.keyboard_input.handle,
        report is MouseReport <==> handle == chars.mouse.handle,
        report is MediaKeyboardReport <==> handle == chars.media.handle,
        report is SystemControlReport <==> handle == chars.system.handle,
{
}

/// These are the positions of the first report characteristics that stand at
/// `from` or later, in order: there is none between them, nor before the first.
pub open spec fn are_first_reports(
    declared: Seq<Characteristic>,
    from: int,
    at: Seq<int>,
) -> bool {
    &&& forall|k: int|
        0 <= k < at.len() ==> from <= #[trigger] at[k] < declared.len() && declared[at[k]].uuid
            == Uuid::Uuid16(0x2A4D)
    &&& forall|k: int, l: int| 0 <= k < l < at.len() ==> #[trigger] at[k] < #[trigger] at[l]
    &&& forall|j: int|
        from <= j < declared.len() && at.len() > 0 && j < at.last() && (
        #[trigger] declared[j]).uuid == Uuid::Uuid16(0x2A4D) ==> at.contains(j)
}

/// What precedes the next report characteristic does not count.
proof fn lemma_next_report(declared: Seq<Characteristic>, from: int, i: int)
    requires
        0 <= from <= i < declared.len(),
        declared[i].uuid == Uuid::Uuid16(HID_REPORT),
        forall|j: int|
            from <= j < i ==> (#[trigger] declared[j]).uuid != Uuid::Uuid16(HID_REPORT),
    ensures
        reports_of(declared.skip(from)) == seq![declared[i]] + reports_of(declared.skip(i + 1)),
    decreases i - from,
{
    reveal(Seq::filter);
    let is_report = |c: Characteristic| c.uuid == Uuid::Uuid16(HID_REPORT);
    let head = seq![declared[from]];
    assert(declared.skip(from) =~= head + declared.skip(from + 1));
    Seq::filter_distributes_over_add(head, declared.skip(from + 1), is_report);
    assert(head.drop_last() =~= seq![]);
    assert(head.drop_last().filter(is_report) =~= seq![]);
    if from == i {
        assert(head.filter(is_report) =~= head);
    } else {
        assert(head.filter(is_report) =~= seq![]);
        lemma_next_report(declared, from + 1, i);
        assert(reports_of(declared.skip(from)) =~= reports_of(declared.skip(from + 1)));
    }
}

/// The reports found are the ones at these positions.
proof fn lemma_reports_at(declared: Seq<Characteristic>, from: int, at: Seq<int>)
    requires
        0 <= from <= declared.len(),
        are_first_reports(declared, from, at),
    ensures
        reports_of(declared.skip(from)).len() >= at.len(),
        forall|k: int|
            0 <= k < at.len() ==> #[trigger] reports_of(declared.skip(from))[k] == declared[at[k]],
    decreases at.len(),
{
    if at.len() > 0 {
        let i = at[0];
        let rest = at.drop_first();
        assert forall|j: int| from <= j < i implies (#[trigger] declared[j]).uuid != Uuid::Uuid16(
            HID_REPORT,
        ) by {
            if declared[j].uuid == Uuid::Uuid16(HID_REPORT) {
                assert(at.last() == at[at.len() - 1]);
                assert(at.contains(j));
                let k = choose|k: int| 0 <= k < at.len() && at[k] == j;
                assert(at[0] <= at[k]);
            }
        }
        lemma_next_report(declared, from, i);
        assert forall|k: int| 0 <= k < rest.len() implies i + 1 <= #[trigger] rest[k]
            < declared.len() && declared[rest[k]].uuid == Uuid::Uuid16(0x2A4D) by {
            assert(rest[k] == at[k + 1]);
            assert(at[0] < at[k + 1]);
        }
        assert forall|k: int, l: int| 0 <= k < l < rest.len() implies #[trigger] rest[k]
            < #[trigger] rest[l] by {
            assert(at[k + 1] < at[l + 1]);
        }
        assert forall|j: int|
            i + 1 <= j < declared.len() && rest.len() > 0 && j < rest.last() && (
            #[trigger] declared[j]).uuid == Uuid::Uuid16(0x2A4D) implies rest.contains(j) by {
            assert(at.contains(j));
            let k = choose|k: int| 0 <= k < at.len() && at[k] == j;
            assert(rest[k - 1] == j);
        }
        lemma_reports_at(declared, i + 1, rest);
        let all = reports_of(declared.skip(from));
        let later = reports_of(declared.skip(i + 1));
        assert forall|k: int| 0 <= k < at.len() implies #[trigger] all[k] == declared[at[k]] by {
            if k > 0 {
                assert(all[k] == later[k - 1]);
                assert(rest[k - 1] == at[k]);
            }
        }
    }
}

/// Where the first `n` of the reports found stand.
proof fn lemma_positions(declared: Seq<Characteristic>, from: int, n: nat) -> (at: Seq<int>)
    requires
        0 <= from <= declared.len(),
        reports_of(declared.skip(from)).len() >= n,
    ensures
        at.len() == n,
        are_first_reports(declared, from, at),
    decreases declared.len() - from,
{
    reveal(Seq::filter);
    if n == 0 {
        seq![]
    } else {
        let is_report = |c: Characteristic| c.uuid == Uuid::Uuid16(HID_REPORT);
        if from == declared.len() {
            assert(declared.skip(from) =~= seq![]);
        }
        let head = seq![declared[from]];
        assert(declared.skip(from) =~= head + declared.skip(from + 1));
        Seq::filter_distributes_over_add(head, declared.skip(from + 1), is_report);
        assert(head.drop_last() =~= seq![]);
        assert(head.drop_last().filter(is_report) =~= seq![]);
        if declared[from].uuid == Uuid::Uuid16(HID_REPORT) {
            assert(head.filter(is_report) =~= head);
            let rest = lemma_positions(declared, from + 1, (n - 1) as nat);
            let at = seq![from] + rest;
            assert forall|k: int| 0 <= k < at.len() implies from <= #[trigger] at[k]
                < declared.len() && declared[at[k]].uuid == Uuid::Uuid16(0x2A4D) by {
                if k > 0 {
                    assert(at[k] == rest[k - 1]);
                }
            }
            assert forall|k: int, l: int| 0 <= k < l < at.len() implies #[trigger] at[k]
                < #[trigger] at[l] by {
                assert(at[l] == rest[l - 1]);
                if k > 0 {
                    assert(at[k] == rest[k - 1]);
                }
            }
            assert forall|j: int|
                from <= j < declared.len() && at.len() > 0 && j < at.last() && (
                #[trigger] declared[j]).uuid == Uuid::Uuid16(0x2A4D) implies at.contains(j) by {
                if j == from {
                    assert(at[0] == j);
                } else {
                    assert(at.last() == rest.last());
                    assert(rest.contains(j));
                    let k = choose|k: int| 0 <= k < rest.len() && rest[k] == j;
                    assert(at[k + 1] == j);
                }
            }
            at
        } else {
            assert(head.filter(is_report) =~= seq![]);
            assert(reports_of(declared.skip(from)) =~= reports_of(declared.skip(from + 1)));
            let at = lemma_positions(declared, from + 1, n);
            at
        }
    }
}

/// Five report characteristics in the first HID service are enough, whatever else
/// it declares: they are, in declaration order, the keyboard's input, its output,
/// the mouse, the media keys and the system keys. Discovery then goes on to the
/// host protocol's service, which for Vial is a second HID service.
pub proof fn law_five_reports_are_enough(
    protocol: HostProtocol,
    services: usize,
    declared: Vec<Characteristic>,
    at: Seq<int>,
)
    requires
        at.len() == 5,
        are_first_reports(declared@, 0, at),
    ensures
        ({
            let next = (Discovery::ListHidCharacteristics { services }).after(
                protocol,
                DiscoveryReply::Characteristics { declared },
            );
            let hid = HidReports {
                keyboard_input: declared@[at[0]],
                keyboard_output: declared@[at[1]],
                mouse: declared@[at[2]],
                media: declared@[at[3]],
                system: declared@[at[4]],
            };
            match protocol {
                HostProtocol::Rynk(_) => next == (Discovery::FindRynkServices { hid }),
                HostProtocol::Vial => if services >= 2 {
                    next == (Discovery::ListVialCharacteristics { hid })
                } else {
                    next is Failed
                },
            }
        }),
{
    assert(declared@.skip(0) =~= declared@);
    lemma_reports_at(declared@, 0, at);
    let reports = reports_of(declared@);
    assert(reports[0] == declared@[at[0]] && reports[1] == declared@[at[1]] && reports[2]
        == declared@[at[2]] && reports[3] == declared@[at[3]] && reports[4] == declared@[at[4]]);
}

/// Discovery gets past the first HID service only if that declares five report
/// characteristics.
pub proof fn law_fewer_than_five_reports_are_not_enough(
    protocol: HostProtocol,
    services: usize,
    declared: Vec<Characteristic>,
)
    ensures
        ({
            let next = (Discovery::ListHidCharacteristics { services }).after(
                protocol,
                DiscoveryReply::Characteristics { declared },
            );
            next is Failed || exists|at: Seq<int>|
                at.len() == 5 && #[trigger] are_first_reports(declared@, 0, at)
        }),
{
    assert(declared@.skip(0) =~= declared@);
    if reports_of(declared@).len() >= 5 {
        let at = lemma_positions(declared@, 0, 5);
        assert(are_first_reports(declared@, 0, at));
    }
}

/// Vial's service, the second HID service, needs two report characteristics: the
/// first is the input, the second the output. With these everything is found, and
/// each of the five found before is where it belongs; with fewer discovery fails.
pub proof fn law_vial_service_needs_two_reports(
    protocol: HostProtocol,
    hid: HidReports,
    declared: Vec<Characteristic>,
    at: Seq<int>,
)
    ensures
        ({
            let next = (Discovery::ListVialCharacteristics { hid }).after(
                protocol,
                DiscoveryReply::Characteristics { declared },
            );
            &&& at.len() == 2 && are_first_reports(declared@, 0, at) ==> next == (
            Discovery::Found {
                chars: KeyboardCharacteristics {
                    keyboard_input: hid.keyboard_input,
                    keyboard_output: hid.keyboard_output,
                    mouse: hid.mouse,
                    media: hid.media,
                    system: hid.system,
                    config_input: declared@[at[0]],
                    config_output: declared@[at[1]],
                },
            })
            &&& next is Failed || exists|found: Seq<int>|
                found.len() == 2 && #[trigger] are_first_reports(declared@, 0, found)
        }),
{
    assert(declared@.skip(0) =~= declared@);
    let reports = reports_of(declared@);
    if at.len() == 2 && are_first_reports(declared@, 0, at) {
        lemma_reports_at(declared@, 0, at);
        assert(reports[0] == declared@[at[0]] && reports[1] == declared@[at[1]]);
    }
    if reports.len() >= 2 {
        let found = lemma_positions(declared@, 0, 2);
        assert(are_first_reports(declared@, 0, found));
    }
}

/// The way through discovery, answer by answer: a service that is looked for is
/// taken if at least one is found, however many, and is missing otherwise; Rynk's
/// input and then its output are what was asked for; and with both everything is
/// found, each of the five found before where it belongs.
pub proof fn law_answers_lead_on(
    protocol: HostProtocol,
    hid: HidReports,
    input: Characteristic,
    count: usize,
    found: Characteristic,
)
    ensures
        count >= 1 ==> Discovery::FindHidServices.after(
            protocol,
            DiscoveryReply::Services { count },
        ) == (Discovery::ListHidCharacteristics { services: count }),
        count == 0 ==> Discovery::FindHidServices.after(
            protocol,
            DiscoveryReply::Services { count },
        ) is Failed,
        count >= 1 ==> (Discovery::FindRynkServices { hid }).after(
            protocol,
            DiscoveryReply::Services { count },
        ) == (Discovery::FindRynkInput { hid }),
        count == 0 ==> (Discovery::FindRynkServices { hid }).after(
            protocol,
            DiscoveryReply::Services { count },
        ) is Failed,
        (Discovery::FindRynkInput { hid }).after(
            protocol,
            DiscoveryReply::Characteristic { found },
        ) == (Discovery::FindRynkOutput { hid, input: found }),
        (Discovery::FindRynkOutput { hid, input }).after(
            protocol,
            DiscoveryReply::Characteristic { found },
        ) == (Discovery::Found {
            chars: KeyboardCharacteristics {
                keyboard_input: hid.keyboard_input,
                keyboard_output: hid.keyboard_output,
                mouse: hid.mouse,
                media: hid.media,
                system: hid.system,
                config_input: input,
                config_output: found,
            },
        }),
{
}

/// A Rynk keyboard is found: with a HID service whose first report characteristics
/// stand at `at`, and a Rynk service, discovery ends with all seven
/// characteristics, each the one that the keyboard declares for it.
pub proof fn law_rynk_keyboard_is_found(
    ids: RynkIds,
    hid_services: usize,
    declared: Vec<Characteristic>,
    at: Seq<int>,
    rynk_services: usize,
    input: Characteristic,
    output: Characteristic,
)
    requires
        hid_services >= 1,
        rynk_services >= 1,
        at.len() == 5,
        are_first_reports(declared@, 0, at),
    ensures
        Discovery::FindHidServices.run(
            HostProtocol::Rynk(ids),
            seq![
                DiscoveryReply::Services { count: hid_services },
                DiscoveryReply::Characteristics { declared },
                DiscoveryReply::Services { count: rynk_services },
                DiscoveryReply::Characteristic { found: input },
                DiscoveryReply::Characteristic { found: output },
            ],
        ) == (Discovery::Found {
            chars: KeyboardCharacteristics {
                keyboard_input: declared@[at[0]],
                keyboard_output: declared@[at[1]],
                mouse: declared@[at[2]],
                media: declared@[at[3]],
                system: declared@[at[4]],
                config_input: input,
                config_output: output,
            },
        }),
{
    law_rynk_discovery(ids, hid_services, declared, rynk_services, input, output);
    law_five_reports_are_enough(HostProtocol::Rynk(ids), hid_services, declared, at);
}

/// A Vial keyboard is found: with two HID services whose first report
/// characteristics stand at `at` and at `vial_at`, discovery ends with all seven
/// characteristics, each the one that the keyboard declares for it.
pub proof fn law_vial_keyboard_is_found(
    hid_services: usize,
    declared: Vec<Characteristic>,
    at: Seq<int>,
    vial_declared: Vec<Characteristic>,
    vial_at: Seq<int>,
)
    requires
        hid_services >= 2,
        at.len() == 5,
        are_first_reports(declared@, 0, at),
        vial_at.len() == 2,
        are_first_reports(vial_declared@, 0, vial_at),
    ensures
        Discovery::FindHidServices.run(
            HostProtocol::Vial,
            seq![
                DiscoveryReply::Services { count: hid_services },
                DiscoveryReply::Characteristics { declared },
                DiscoveryReply::Characteristics { declared: vial_declared },
            ],
        ) == (Discovery::Found {
            chars: KeyboardCharacteristics {
                keyboard_input: declared@[at[0]],
                keyboard_output: declared@[at[1]],
                mouse: declared@[at[2]],
                media: declared@[at[3]],
                system: declared@[at[4]],
                config_input: vial_declared@[vial_at[0]],
                config_output: vial_declared@[vial_at[1]],
            },
        }),
{
    law_vial_discovery(hid_services, declared, vial_declared);
    law_five_reports_are_enough(HostProtocol::Vial, hid_services, declared, at);
    let hid = HidReports {
        keyboard_input: declared@[at[0]],
        keyboard_output: declared@[at[1]],
        mouse: declared@[at[2]],
        media: declared@[at[3]],
        system: declared@[at[4]],
    };
    law_vial_service_needs_two_reports(HostProtocol::Vial, hid, vial_declared, vial_at);
}

/// What the keyboard is asked: first for its HID services, then for what the first
/// of them declares; then for Rynk's service and in its first one for the input and
/// the output, or for what the second HID service declares.
pub proof fn law_questions(
    protocol: HostProtocol,
    ids: RynkIds,
    services: usize,
    hid: HidReports,
    input: Characteristic,
)
    ensures
        Discovery::FindHidServices.pending(protocol) == Some(
            Query::Services { uuid: Uuid::Uuid16(0x1812) },
        ),
        (Discovery::ListHidCharacteristics { services }).pending(protocol) == Some(
            Query::Characteristics { service: 0 },
        ),
        (Discovery::FindRynkServices { hid }).pending(HostProtocol::Rynk(ids)) == Some(
            Query::Services { uuid: ids.service },
        ),
        (Discovery::FindRynkInput { hid }).pending(HostProtocol::Rynk(ids)) == Some(
            Query::Characteristic { service: 0, uuid: ids.input },
        ),
        (Discovery::FindRynkOutput { hid, input }).pending(HostProtocol::Rynk(ids)) == Some(
            Query::Characteristic { service: 0, uuid: ids.output },
        ),
        (Discovery::ListVialCharacteristics { hid }).pending(HostProtocol::Vial) == Some(
            Query::Characteristics { service: 1 },
        ),
{
}

/// An answer counts only for the question that it answers: one that is of another
/// kind changes nothing, and nothing follows the end of discovery.
pub proof fn law_stray_answers_change_nothing(
    discovery: Discovery,
    protocol: HostProtocol,
    reply: DiscoveryReply,
)
    requires
        discovery is Found || discovery is Failed || (match reply {
            DiscoveryReply::Services { .. } => !(discovery is FindHidServices) && !(
            discovery is FindRynkServices),
            DiscoveryReply::Characteristics { .. } => !(discovery is ListHidCharacteristics) && !(
            discovery is ListVialCharacteristics),
            DiscoveryReply::Characteristic { .. } => !(discovery is FindRynkInput) && !(
            discovery is FindRynkOutput),
            DiscoveryReply::Error => false,
        }),
    ensures
        discovery.after(protocol, reply) == discovery,
{
}

/// Subscribing writes to the CCCD, where there is one, of the keyboard's input, the
/// mouse, the media keys, the system keys and the host protocol's input, in this
/// order, and to no other.
pub proof fn law_subscribes_to_everything(chars: KeyboardCharacteristics)
    ensures
        cccd_handles(chars.notifying()) == (match chars.keyboard_input.cccd_handle {
            Some(handle) => seq![handle],
            None => seq![],
        }) + (match chars.mouse.cccd_handle {
            Some(handle) => seq![handle],
            None => seq![],
        }) + (match chars.media.cccd_handle {
            Some(handle) => seq![handle],
            None => seq![],
        }) + (match chars.system.cccd_handle {
            Some(handle) => seq![handle],
            None => seq![],
        }) + (match chars.config_input.cccd_handle {
            Some(handle) => seq![handle],
            None => seq![],
        }),
{
    let all = chars.notifying();
    let c4 = all.drop_last();
    let c3 = c4.drop_last();
    let c2 = c3.drop_last();
    let c1 = c2.drop_last();
    reveal_with_fuel(cccd_handles, 6);
    assert(c1.drop_last().len() == 0);
    assert(all.last() == all[4] && c4.last() == all[3] && c3.last() == all[2] && c2.last()
        == all[1] && c1.last() == all[0]);
}

/// What a notification carries, byte for byte. On the keyboard's handle eight bytes
/// or more are the modifiers, a byte that does not count and six key codes; on the
/// mouse's five or more are the buttons and four movements; on the media keys' two
/// or more are a usage, low byte first; on the system keys' one or more are a
/// usage. Where two of these share a handle, the first that fits counts.
pub proof fn law_notification_carries_a_report(
    chars: KeyboardCharacteristics,
    handle: u16,
    data: Seq<u8>,
)
    ensures
        ({
            let keyboard = handle == chars.keyboard_input.handle && data.len() >= 8;
            let mouse = handle == chars.mouse.handle && data.len() >= 5;
            let media = handle == chars.media.handle && data.len() >= 2;
            let system = handle == chars.system.handle && data.len() >= 1;
            let report = chars.report_of(handle, data);
            &&& report is Some <==> keyboard || mouse || media || system
            &&& keyboard ==> {
                &&& report matches Some(Report::KeyboardReport(keys))
                &&& keys.modifier == data[0]
                &&& keys.reserved == 0
                &&& keys.leds == 0
                &&& keys.keycodes@ == data.subrange(2, 8)
            }
            &&& mouse && !keyboard ==> {
                &&& report matches Some(Report::MouseReport(moves))
                &&& moves.buttons == data[0]
                &&& moves.x == data[1] || moves.x == data[1] - 256
                &&& moves.y == data[2] || moves.y == data[2] - 256
                &&& moves.wheel == data[3] || moves.wheel == data[3] - 256
                &&& moves.pan == data[4] || moves.pan == data[4] - 256
            }
            &&& media && !mouse && !keyboard ==> {
                &&& report matches Some(Report::MediaKeyboardReport(keys))
                &&& keys.usage_id == data[0] + 256 * data[1]
            }
            &&& system && !media && !mouse && !keyboard ==> {
                &&& report matches Some(Report::SystemControlReport(keys))
                &&& keys.usage_id == data[0]
            }
        }),
{
    if data.len() >= 8 {
        assert(keyboard_report(data).keycodes@ =~= data.subrange(2, 8));
    }
}

} // verus!
