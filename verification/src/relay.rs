//! Passing traffic between the keyboard and the USB host.
//!
//! The host protocol passes through unparsed in both directions; everything
//! else the keyboard notifies on is a HID report.

use vstd::prelude::*;

use crate::gatt::{HostProtocol, KeyboardCharacteristics};
#[allow(unused_imports)]
use crate::gatt::law_notification_carries_a_report;
use crate::hid::Report;

verus! {

/// Bytes that an ATT write spends on its header.
pub const WRITE_HEADER: u16 = 3;

/// Size of a Vial report.
pub const VIAL_REPORT_SIZE: usize = 32;

/// How long a full host stream may hold up the keyboard, in milliseconds.
pub const HOST_WRITE_TIMEOUT_MS: u64 = 20;

/// Ends a Rynk frame.
pub const FRAME_DELIMITER: u8 = 0;

/// Where a notification of the keyboard goes.
pub enum Route<'a> {
    /// Append these bytes to the host's config stream, waiting at most
    /// [`HOST_WRITE_TIMEOUT_MS`]; [`after_host_write`] says what then.
    HostStream { bytes: &'a [u8] },
    /// Queue this report for the host, or drop it if the queue is full: each
    /// report stands alone, so dropping one loses that reply, nothing else.
    HostReport { vial: [u8; 32] },
    /// Send this HID report to the host.
    Hid { report: Report },
    /// Nowhere.
    Dropped,
}

/// The route is the one that a notification on `handle` with this content takes.
pub open spec fn is_route(
    route: Route<'_>,
    protocol: HostProtocol,
    chars: KeyboardCharacteristics,
    handle: u16,
    data: Seq<u8>,
) -> bool {
    if handle == chars.config_input.handle {
        match protocol {
            HostProtocol::Rynk(_) => route matches Route::HostStream { bytes } && bytes@ == data,
            HostProtocol::Vial => if data.len() == VIAL_REPORT_SIZE {
                route matches Route::HostReport { vial } && vial@ == data
            } else {
                route is Dropped
            },
        }
    } else {
        match chars.report_of(handle, data) {
            Some(report) => route == (Route::Hid { report }),
            None => route is Dropped,
        }
    }
}

/// Where a notification of the keyboard goes. The config stream is the only one
/// not parsed; it goes straight to the host.
pub fn route<'a>(
    protocol: HostProtocol,
    chars: &KeyboardCharacteristics,
    handle: u16,
    data: &'a [u8],
) -> (route: Route<'a>)
    ensures
        is_route(route, protocol, *chars, handle, data@),
{
    if handle == chars.config_input.handle {
        match protocol {
            HostProtocol::Rynk(_) => Route::HostStream { bytes: data },
            HostProtocol::Vial => match vial_report(data) {
                Some(vial) => Route::HostReport { vial },
                None => Route::Dropped,
            },
        }
    } else {
        match chars.report(handle, data) {
            Some(report) => Route::Hid { report },
            None => Route::Dropped,
        }
    }
}

/// The bytes as a Vial report, if they have its size.
fn vial_report(data: &[u8]) -> (report: Option<[u8; 32]>)
    ensures
        report is Some <==> data@.len() == VIAL_REPORT_SIZE,
        report matches Some(report) ==> report@ == data@,
{
    if data.len() != VIAL_REPORT_SIZE {
        return None;
    }
    let mut report: [u8; 32] = [0u8;32];
    let mut i: usize = 0;
    while i < 32
        invariant
            i <= 32,
            data@.len() == 32,
            forall|j: int| 0 <= j < i ==> report@[j] == data@[j],
        decreases 32 - i,
    {
        report[i] = data[i];
        i = i + 1;
    }
    assert(report@ =~= data@);
    Some(report)
}

/// What to write, without waiting, after a write to the host's config stream:
/// if it ran out of time, a frame delimiter, so that the host drops the cut-off
/// frame and resyncs.
pub fn after_host_write(timed_out: bool) -> (resync: Option<u8>)
    ensures
        resync == if timed_out {
            Some(FRAME_DELIMITER)
        } else {
            None
        },
{
    if timed_out {
        Some(FRAME_DELIMITER)
    } else {
        None
    }
}

/// Largest single write to the Rynk characteristic: what the ATT MTU leaves
/// after the write header, at most `limit`, and at least one byte.
pub open spec fn largest_write(limit: int, att_mtu: int) -> int {
    let room = if att_mtu > WRITE_HEADER {
        att_mtu - WRITE_HEADER
    } else {
        0
    };
    let capped = if limit < room {
        limit
    } else {
        room
    };
    if capped < 1 {
        1
    } else {
        capped
    }
}

/// Largest single write to the Rynk characteristic on a link with this ATT MTU,
/// where the protocol sets the upper `limit`.
pub fn chunk_size(limit: usize, att_mtu: u16) -> (size: usize)
    ensures
        size == largest_write(limit as int, att_mtu as int),
{
    let room: usize = att_mtu.saturating_sub(WRITE_HEADER) as usize;
    let capped: usize = if limit < room {
        limit
    } else {
        room
    };
    if capped < 1 {
        1
    } else {
        capped
    }
}

/// Largest single write of a host request: a Rynk chunk, or one whole Vial
/// report.
pub open spec fn largest_request(protocol: HostProtocol, limit: int, att_mtu: int) -> int {
    match protocol {
        HostProtocol::Rynk(_) => largest_write(limit, att_mtu),
        HostProtocol::Vial => VIAL_REPORT_SIZE as int,
    }
}

/// How many bytes of host requests to take at a time, which is one write to the
/// keyboard: a Rynk chunk, or one whole Vial report.
pub fn request_size(protocol: HostProtocol, limit: usize, att_mtu: u16) -> (size: usize)
    ensures
        size == largest_request(protocol, limit as int, att_mtu as int),
        size >= 1,
{
    match protocol {
        HostProtocol::Rynk(_) => chunk_size(limit, att_mtu),
        HostProtocol::Vial => VIAL_REPORT_SIZE,
    }
}

/// The write that shows the host's LED state on the keyboard: the handle and
/// the bytes.
pub fn led_write(chars: &KeyboardCharacteristics, leds: u8) -> (write: (u16, [u8; 1]))
    ensures
        write.0 == chars.keyboard_output.handle,
        write.1@ == seq![leds],
{
    (chars.keyboard_output.handle, [leds])
}

/// What to do next to pass host requests on to the keyboard.
pub enum RequestStep {
    /// Wait for host requests and take at most [`request_size`] bytes of them:
    /// the read does the chunking.
    Take,
    /// Write these bytes to this handle, without waiting for a response. `rest`
    /// was taken with them and follows; it is empty unless more was taken than
    /// one write holds.
    Write { handle: u16, bytes: Vec<u8>, rest: Vec<u8> },
}

/// The contents of a [`RequestStep`].
pub enum RequestStepView {
    Take,
    Write { handle: u16, bytes: Seq<u8>, rest: Seq<u8> },
}

impl View for RequestStep {
    type V = RequestStepView;

    open spec fn view(&self) -> RequestStepView {
        match self {
            RequestStep::Take => RequestStepView::Take,
            RequestStep::Write { handle, bytes, rest } => RequestStepView::Write {
                handle: *handle,
                bytes: bytes@,
                rest: rest@,
            },
        }
    }
}

/// What came of a request step.
pub enum RequestReply {
    /// These bytes were taken.
    Taken { piece: Vec<u8> },
    /// The write succeeded or not.
    Written { ok: bool },
}

impl RequestStepView {
    /// Write as many of these bytes as one write holds, or take more if there are
    /// none.
    pub open spec fn writing(handle: u16, bytes: Seq<u8>, size: int) -> RequestStepView {
        if bytes.len() == 0 {
            RequestStepView::Take
        } else if bytes.len() <= size {
            RequestStepView::Write { handle, bytes, rest: seq![] }
        } else {
            RequestStepView::Write { handle, bytes: bytes.take(size), rest: bytes.skip(size) }
        }
    }

    /// The step after this one, where a write holds at most `size` bytes: what was
    /// taken is written as it is to the host-protocol output, and after a write,
    /// failed or not, what is left follows, or more is taken. A reply that does
    /// not belong to the step leaves it pending.
    pub open spec fn after(
        self,
        chars: KeyboardCharacteristics,
        size: int,
        reply: RequestReply,
    ) -> RequestStepView {
        match (self, reply) {
            (RequestStepView::Take, RequestReply::Taken { piece }) => Self::writing(
                chars.config_output.handle,
                piece@,
                size,
            ),
            (RequestStepView::Write { rest, .. }, RequestReply::Written { .. }) => Self::writing(
                chars.config_output.handle,
                rest,
                size,
            ),
            (step, _) => step,
        }
    }

    /// The step reached from this one by a series of replies.
    pub open spec fn run(
        self,
        chars: KeyboardCharacteristics,
        size: int,
        replies: Seq<RequestReply>,
    ) -> RequestStepView
        decreases replies.len(),
    {
        if replies.len() == 0 {
            self
        } else {
            self.run(chars, size, replies.drop_last()).after(chars, size, replies.last())
        }
    }

    /// What was taken and is still to be written after the write that is pending.
    pub open spec fn left(self) -> Seq<u8> {
        match self {
            RequestStepView::Take => seq![],
            RequestStepView::Write { rest, .. } => rest,
        }
    }
}

/// Passing host requests on to the keyboard, over one link.
pub struct RequestRelay {
    pub protocol: HostProtocol,
    /// Largest write that the Rynk protocol allows.
    pub limit: usize,
    /// The ATT MTU of the link.
    pub att_mtu: u16,
    /// What to do next.
    pub step: RequestStep,
}

impl RequestRelay {
    /// Largest single write.
    pub open spec fn largest(self) -> int {
        largest_request(self.protocol, self.limit as int, self.att_mtu as int)
    }

    /// Start to pass requests on.
    pub fn start(protocol: HostProtocol, limit: usize, att_mtu: u16) -> (relay: RequestRelay)
        ensures
            relay.protocol == protocol,
            relay.limit == limit,
            relay.att_mtu == att_mtu,
            relay.step@ is Take,
    {
        RequestRelay { protocol, limit, att_mtu, step: RequestStep::Take }
    }

    /// Take in what came of the pending step.
    pub fn next(self, chars: &KeyboardCharacteristics, reply: RequestReply) -> (relay: RequestRelay)
        ensures
            relay.protocol == self.protocol,
            relay.limit == self.limit,
            relay.att_mtu == self.att_mtu,
            relay.step@ == self.step@.after(*chars, self.largest(), reply),
    {
        let RequestRelay { protocol, limit, att_mtu, step } = self;
        let size: usize = request_size(protocol, limit, att_mtu);
        let handle: u16 = chars.config_output.handle;
        let step = match (step, reply) {
            (RequestStep::Take, RequestReply::Taken { piece }) => write_of(handle, piece, size),
            (
                RequestStep::Write { handle: _, bytes: _, rest },
                RequestReply::Written { ok: _ },
            ) => write_of(handle, rest, size),
            (step, _) => step,
        };
        RequestRelay { protocol, limit, att_mtu, step }
    }
}

/// Write as many of these bytes as one write of `size` bytes holds, or take more
/// if there are none.
fn write_of(handle: u16, bytes: Vec<u8>, size: usize) -> (step: RequestStep)
    ensures
        step@ == RequestStepView::writing(handle, bytes@, size as int),
{
    if bytes.len() == 0 {
        RequestStep::Take
    } else if bytes.len() <= size {
        RequestStep::Write { handle, bytes, rest: Vec::new() }
    } else {
        let mut first = bytes;
        let rest = first.split_off(size);
        assert(first@ =~= bytes@.take(size as int));
        assert(rest@ =~= bytes@.skip(size as int));
        RequestStep::Write { handle, bytes: first, rest }
    }
}

/// The pieces of host requests that were taken, in order.
pub open spec fn taken(
    chars: KeyboardCharacteristics,
    size: int,
    replies: Seq<RequestReply>,
) -> Seq<Seq<u8>>
    decreases replies.len(),
{
    if replies.len() == 0 {
        seq![]
    } else {
        let before = replies.drop_last();
        match (RequestStepView::Take.run(chars, size, before), replies.last()) {
            (RequestStepView::Take, RequestReply::Taken { piece }) => taken(
                chars,
                size,
                before,
            ).push(piece@),
            _ => taken(chars, size, before),
        }
    }
}

/// The writes of host requests that were issued, in order: the handles and the
/// bytes. A write is issued when a reply makes it the step to carry out.
pub open spec fn issued(
    chars: KeyboardCharacteristics,
    size: int,
    replies: Seq<RequestReply>,
) -> Seq<(u16, Seq<u8>)>
    decreases replies.len(),
{
    if replies.len() == 0 {
        seq![]
    } else {
        let before = replies.drop_last();
        let step = RequestStepView::Take.run(chars, size, before);
        match (step, replies.last(), step.after(chars, size, replies.last())) {
            (
                RequestStepView::Take,
                RequestReply::Taken { .. },
                RequestStepView::Write { handle, bytes, .. },
            )
            | (
                RequestStepView::Write { .. },
                RequestReply::Written { .. },
                RequestStepView::Write { handle, bytes, .. },
            ) => issued(chars, size, before).push((handle, bytes)),
            _ => issued(chars, size, before),
        }
    }
}

/// The bytes of a series of writes, one after another.
pub open spec fn bytes_of(writes: Seq<(u16, Seq<u8>)>) -> Seq<u8>
    decreases writes.len(),
{
    if writes.len() == 0 {
        seq![]
    } else {
        bytes_of(writes.drop_last()) + writes.last().1
    }
}

/// A series of pieces, one after another.
pub open spec fn joined(pieces: Seq<Seq<u8>>) -> Seq<u8>
    decreases pieces.len(),
{
    if pieces.len() == 0 {
        seq![]
    } else {
        joined(pieces.drop_last()) + pieces.last()
    }
}

/// Where the MTU and the protocol leave room for a byte at all, the chunk fits
/// both, and one byte more would not.
pub proof fn law_chunk_is_the_largest_that_fits(limit: int, att_mtu: int)
    requires
        limit >= 1,
        att_mtu > WRITE_HEADER,
    ensures
        1 <= largest_write(limit, att_mtu) <= limit,
        largest_write(limit, att_mtu) + WRITE_HEADER <= att_mtu,
        largest_write(limit, att_mtu) + 1 > limit || largest_write(limit, att_mtu) + 1
            + WRITE_HEADER > att_mtu,
{
}

/// A chunk always holds a byte, and never more than the protocol's limit: it
/// fits a buffer of that size.
pub proof fn law_chunk_fits_the_buffer(limit: int, att_mtu: int)
    requires
        limit >= 1,
    ensures
        1 <= largest_write(limit, att_mtu) <= limit,
{
}

/// Host requests reach the keyboard unparsed: the bytes of the writes issued,
/// with what is left of the last piece taken, are exactly the bytes taken from
/// the host, in order, none lost, added or repeated, whichever writes fail. So
/// nothing is left when more is to be taken. All writes go to the host-protocol
/// output.
pub proof fn law_requests_pass_through_unparsed(
    protocol: HostProtocol,
    limit: int,
    att_mtu: int,
    chars: KeyboardCharacteristics,
    replies: Seq<RequestReply>,
)
    ensures
        ({
            let size = largest_request(protocol, limit, att_mtu);
            let step = RequestStepView::Take.run(chars, size, replies);
            let writes = issued(chars, size, replies);
            let pieces = taken(chars, size, replies);
            &&& bytes_of(writes) + step.left() == joined(pieces)
            &&& step is Take ==> bytes_of(writes) == joined(pieces)
            &&& forall|i: int|
                0 <= i < writes.len() ==> (#[trigger] writes[i]).0 == chars.config_output.handle
        }),
    decreases replies.len(),
{
    let size = largest_request(protocol, limit, att_mtu);
    let writes = issued(chars, size, replies);
    let pieces = taken(chars, size, replies);
    let step = RequestStepView::Take.run(chars, size, replies);
    if replies.len() > 0 {
        let before = replies.drop_last();
        law_requests_pass_through_unparsed(protocol, limit, att_mtu, chars, before);
        let old_step = RequestStepView::Take.run(chars, size, before);
        let old_writes = issued(chars, size, before);
        let old_pieces = taken(chars, size, before);
        let sent = bytes_of(old_writes);
        match (old_step, replies.last()) {
            (RequestStepView::Take, RequestReply::Taken { piece }) => {
                assert(pieces.drop_last() =~= old_pieces);
                assert(joined(pieces) == sent + piece@);
                lemma_written(chars.config_output.handle, old_writes, writes, piece@, size, step);
            },
            (RequestStepView::Write { rest, .. }, RequestReply::Written { .. }) => {
                lemma_written(chars.config_output.handle, old_writes, writes, rest, size, step);
            },
            _ => {},
        }
    }
    assert(step is Take ==> bytes_of(writes) + step.left() =~= bytes_of(writes));
}

/// A write of these bytes, and what it leaves, hold all of them.
proof fn lemma_written(
    handle: u16,
    before: Seq<(u16, Seq<u8>)>,
    writes: Seq<(u16, Seq<u8>)>,
    bytes: Seq<u8>,
    size: int,
    step: RequestStepView,
)
    requires
        size >= 1,
        step == RequestStepView::writing(handle, bytes, size),
        step matches RequestStepView::Write { handle: h, bytes: b, .. } ==> writes == before.push(
            (h, b),
        ),
        step is Take ==> writes == before,
    ensures
        bytes_of(writes) + step.left() == bytes_of(before) + bytes,
{
    match step {
        RequestStepView::Take => {
            assert(bytes =~= seq![]);
        },
        RequestStepView::Write { handle: h, bytes: b, rest } => {
            assert(writes.drop_last() =~= before);
            assert(b + rest =~= bytes);
            assert(bytes_of(before) + b + rest =~= bytes_of(before) + (b + rest));
        },
    }
}

/// Every write of a host request has a byte at least and no more than one write
/// holds, however much was taken at a time: for Rynk, no more than what the ATT
/// MTU and the protocol's limit leave.
pub proof fn law_requests_fit_the_link(
    protocol: HostProtocol,
    limit: int,
    att_mtu: int,
    chars: KeyboardCharacteristics,
    replies: Seq<RequestReply>,
)
    ensures
        ({
            let size = largest_request(protocol, limit, att_mtu);
            let writes = issued(chars, size, replies);
            &&& protocol is Rynk ==> size == largest_write(limit, att_mtu)
            &&& forall|i: int|
                0 <= i < writes.len() ==> 1 <= (#[trigger] writes[i]).1.len() <= size
        }),
    decreases replies.len(),
{
    if replies.len() > 0 {
        let size = largest_request(protocol, limit, att_mtu);
        let before = replies.drop_last();
        law_requests_fit_the_link(protocol, limit, att_mtu, chars, before);
        let writes = issued(chars, size, replies);
        assert forall|i: int| 0 <= i < writes.len() implies 1 <= (#[trigger] writes[i]).1.len()
            <= size by {
            if i < issued(chars, size, before).len() {
                assert(writes[i] == issued(chars, size, before)[i]);
            }
        }
    }
}

/// What is taken within the size of one write goes on as one write: if every
/// piece has a byte at least and no more than one write holds, as when it is read
/// into a buffer of [`request_size`] bytes, there is one write for each piece
/// with just its bytes. So a Vial report, which has that size, is never split.
pub proof fn law_one_write_for_each_piece(
    protocol: HostProtocol,
    limit: int,
    att_mtu: int,
    chars: KeyboardCharacteristics,
    replies: Seq<RequestReply>,
)
    requires
        forall|i: int|
            0 <= i < replies.len() ==> (#[trigger] replies[i] matches RequestReply::Taken { piece }
                ==> 1 <= piece@.len() <= largest_request(protocol, limit, att_mtu)),
    ensures
        ({
            let size = largest_request(protocol, limit, att_mtu);
            let writes = issued(chars, size, replies);
            let pieces = taken(chars, size, replies);
            &&& writes.len() == pieces.len()
            &&& forall|i: int|
                0 <= i < writes.len() ==> #[trigger] writes[i] == (
                    chars.config_output.handle,
                    pieces[i],
                )
            &&& RequestStepView::Take.run(chars, size, replies).left().len() == 0
        }),
    decreases replies.len(),
{
    if replies.len() > 0 {
        let size = largest_request(protocol, limit, att_mtu);
        let before = replies.drop_last();
        assert forall|i: int| 0 <= i < before.len() implies (
        #[trigger] before[i] matches RequestReply::Taken { piece } ==> 1 <= piece@.len()
            <= size) by {
            assert(before[i] == replies[i]);
        }
        law_one_write_for_each_piece(protocol, limit, att_mtu, chars, before);
        assert(replies[replies.len() - 1] == replies.last());
        let writes = issued(chars, size, replies);
        assert forall|i: int| 0 <= i < writes.len() implies #[trigger] writes[i] == (
            chars.config_output.handle,
            taken(chars, size, replies)[i],
        ) by {
            if i < issued(chars, size, before).len() {
                assert(writes[i] == issued(chars, size, before)[i]);
            }
        }
    }
}

/// A failed write is not retried and does not end the relay: after it, as after
/// one that succeeded, what is left follows, or else the next piece is taken.
pub proof fn law_failed_write_is_not_retried(
    step: RequestStepView,
    chars: KeyboardCharacteristics,
    size: int,
    ok: bool,
)
    requires
        step is Write,
    ensures
        step.after(chars, size, RequestReply::Written { ok }) == RequestStepView::writing(
            chars.config_output.handle,
            step.left(),
            size,
        ),
        step.left().len() == 0 ==> step.after(chars, size, RequestReply::Written { ok }) is Take,
{
}

/// Whatever the keyboard sends on its Rynk characteristic reaches the host byte
/// for byte.
pub proof fn law_rynk_passes_through_unparsed(
    route: Route<'_>,
    protocol: HostProtocol,
    chars: KeyboardCharacteristics,
    data: Seq<u8>,
)
    requires
        protocol is Rynk,
        is_route(route, protocol, chars, chars.config_input.handle, data),
    ensures
        route matches Route::HostStream { bytes } && bytes@ == data,
{
}

/// The bytes of a Rynk stream since its last delimiter: a frame that is not
/// complete yet.
pub open spec fn open_frame(stream: Seq<u8>) -> Seq<u8>
    decreases stream.len(),
{
    if stream.len() == 0 || stream.last() == FRAME_DELIMITER {
        seq![]
    } else {
        open_frame(stream.drop_last()).push(stream.last())
    }
}

/// After the delimiter the host resyncs: whatever part of a frame got through
/// before it, the bytes that follow are read as if the stream began with them.
pub proof fn law_delimiter_resyncs(before: Seq<u8>, later: Seq<u8>)
    ensures
        open_frame(before.push(FRAME_DELIMITER) + later) == open_frame(later),
    decreases later.len(),
{
    let stream = before.push(FRAME_DELIMITER) + later;
    if later.len() == 0 {
        assert(stream =~= before.push(FRAME_DELIMITER));
    } else {
        assert(stream.drop_last() =~= before.push(FRAME_DELIMITER) + later.drop_last());
        law_delimiter_resyncs(before, later.drop_last());
    }
}

/// A Vial reply reaches the host byte for byte and whole, or not at all.
pub proof fn law_vial_passes_through_unparsed(
    route: Route<'_>,
    chars: KeyboardCharacteristics,
    data: Seq<u8>,
)
    requires
        is_route(route, HostProtocol::Vial, chars, chars.config_input.handle, data),
    ensures
        route matches Route::HostReport { vial } ==> vial@ == data,
        route is HostReport <==> data.len() == VIAL_REPORT_SIZE,
        route is HostReport || route is Dropped,
{
}

/// Only the config stream is passed on unparsed; on any other handle the host
/// gets a HID report or nothing.
pub proof fn law_other_handles_carry_hid_reports(
    route: Route<'_>,
    protocol: HostProtocol,
    chars: KeyboardCharacteristics,
    handle: u16,
    data: Seq<u8>,
)
    requires
        handle != chars.config_input.handle,
        is_route(route, protocol, chars, handle, data),
    ensures
        route is Hid || route is Dropped,
        route matches Route::Hid { report } ==> chars.report_of(handle, data) == Some(report),
{
}

/// On any handle but that of the host protocol's input, a notification that carries
/// a HID report is sent to the host as just that report, whichever the protocol,
/// and one that carries none goes nowhere.
pub proof fn law_every_hid_report_is_sent(
    route: Route<'_>,
    protocol: HostProtocol,
    chars: KeyboardCharacteristics,
    handle: u16,
    data: Seq<u8>,
)
    requires
        handle != chars.config_input.handle,
        is_route(route, protocol, chars, handle, data),
    ensures
        chars.report_of(handle, data) matches Some(report) ==> route == (Route::Hid { report }),
        chars.report_of(handle, data) is None <==> route is Dropped,
        handle == chars.keyboard_input.handle && data.len() >= 8 ==> {
            &&& route matches Route::Hid { report: Report::KeyboardReport(keys) }
            &&& keys.modifier == data[0]
            &&& keys.keycodes@ == data.subrange(2, 8)
        },
        handle == chars.mouse.handle && data.len() >= 5 ==> route is Hid,
        handle == chars.media.handle && data.len() >= 2 ==> route is Hid,
        handle == chars.system.handle && data.len() >= 1 ==> route is Hid,
{
    law_notification_carries_a_report(chars, handle, data);
}

/// On the handle of the host protocol's input nothing is read as a HID report, even
/// if it is also the handle of one: with Rynk everything goes to the host's stream
/// as it is, however long; with Vial exactly what has 32 bytes is queued as it is,
/// and anything else is dropped.
pub proof fn law_config_input_is_never_parsed(
    route: Route<'_>,
    protocol: HostProtocol,
    chars: KeyboardCharacteristics,
    data: Seq<u8>,
)
    requires
        is_route(route, protocol, chars, chars.config_input.handle, data),
    ensures
        protocol is Rynk ==> (route matches Route::HostStream { bytes } && bytes@ == data),
        protocol is Vial && data.len() == 32 ==> (route matches Route::HostReport { vial }
            && vial@ == data),
        protocol is Vial && data.len() != 32 ==> route is Dropped,
{
}

/// The largest write, from the limit and the MTU: what the MTU leaves after three
/// bytes or the limit, whichever is less, but one byte if that leaves none. A
/// request is that for Rynk and 32 bytes for Vial.
pub proof fn law_largest_request(relay: RequestRelay, limit: int, att_mtu: int)
    ensures
        limit >= 1 && att_mtu >= 4 ==> {
            let size = largest_write(limit, att_mtu);
            &&& size <= limit
            &&& size <= att_mtu - 3
            &&& size == limit || size == att_mtu - 3
        },
        limit < 1 || att_mtu < 4 ==> largest_write(limit, att_mtu) == 1,
        relay.protocol is Rynk ==> relay.largest() == largest_write(
            relay.limit as int,
            relay.att_mtu as int,
        ),
        relay.protocol is Vial ==> relay.largest() == 32,
        forall|protocol: HostProtocol|
            protocol is Rynk ==> #[trigger] largest_request(protocol, limit, att_mtu)
                == largest_write(limit, att_mtu),
        forall|protocol: HostProtocol|
            protocol is Vial ==> #[trigger] largest_request(protocol, limit, att_mtu) == 32,
{
}

/// What was taken from the host is written next, at once and from its start: as
/// much of it as one write holds, and the rest after that. Nothing taken means
/// nothing to write.
pub proof fn law_taken_bytes_are_written_next(
    chars: KeyboardCharacteristics,
    size: int,
    piece: Vec<u8>,
)
    requires
        size >= 1,
    ensures
        ({
            let next = RequestStepView::Take.after(chars, size, RequestReply::Taken { piece });
            &&& piece@.len() == 0 <==> next is Take
            &&& piece@.len() > 0 ==> {
                &&& next matches RequestStepView::Write { handle, bytes, rest }
                &&& handle == chars.config_output.handle
                &&& bytes + rest == piece@
                &&& bytes.len() == size || rest.len() == 0
                &&& 1 <= bytes.len() <= size
            }
        }),
{
    if piece@.len() > size {
        assert(piece@.take(size) + piece@.skip(size) =~= piece@);
    } else {
        assert(piece@ + seq![] =~= piece@);
    }
}

/// A reply counts only for the step that it answers; any other changes nothing.
pub proof fn law_stray_request_replies_change_nothing(
    step: RequestStepView,
    chars: KeyboardCharacteristics,
    size: int,
    reply: RequestReply,
)
    requires
        step is Take <==> reply is Written,
    ensures
        step.after(chars, size, reply) == step,
{
}

/// The step to carry out is the one that the contents show.
pub proof fn law_request_step_is_what_it_shows(step: RequestStep)
    ensures
        step is Take <==> step@ is Take,
        step matches RequestStep::Write { handle, bytes, rest } ==> step@ == (
        RequestStepView::Write { handle, bytes: bytes@, rest: rest@ }),
{
}

/// The numbers of the relay: a Vial report has 32 bytes, an ATT write spends three
/// on its header, a zero byte ends a Rynk frame, and a full host stream holds the
/// keyboard up for 20 ms at most.
pub proof fn law_relay_numbers()
    ensures
        VIAL_REPORT_SIZE == 32,
        WRITE_HEADER == 3,
        FRAME_DELIMITER == 0,
        HOST_WRITE_TIMEOUT_MS == 20,
{
}

} // verus!
