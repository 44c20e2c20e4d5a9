//! The dispatcher of the one UDP socket.
//!
//! Every datagram that reaches the server passes through [`dispatch`], one
//! at a time. A download request is acknowledged and answered with a burst
//! sender of its own. An upload request opens a measurement and is
//! acknowledged. Anything else is data: it is counted toward the measurement
//! of its peer, if that is still running, and then the table is swept, so
//! that a measurement ends even when its own peer has fallen silent.

use crate::command::{command_of, parse_command, Command};
use crate::peer::PeerAddr;
use crate::uploads::{
    after_datagram, after_registration, expired_part, fate_of, live_part, reports_exactly,
    DatagramFate, FinishedUpload, UploadSession, UploadTable, Uploads,
};
use crate::wire::{
    Reply, ACK_COUNT, DOWNLOAD_ACK_GAP_NANOS, RETRY_NANOS, UPLOAD_ACK_GAP_NANOS,
};
use vstd::prelude::*;

verus! {

/// What the receive loop has to report.
#[derive(Clone, Copy, Debug)]
pub enum UdpEvent<'a> {
    /// A datagram arrived from `peer`.
    Datagram { peer: PeerAddr, payload: &'a [u8] },
    /// The receive call failed.
    ReceiveFailed,
}

/// One thing for the receive loop to do before it receives again.
#[derive(Clone, Copy, Debug, PartialEq, Eq, Structural)]
pub enum UdpStep {
    /// Send `reply` to the peer of the datagram. A failed send is not tried
    /// again.
    Send { reply: Reply },
    /// Wait for `nanos` nanoseconds.
    Pause { nanos: u64 },
    /// Start a burst sender toward the peer of the datagram and go on
    /// without waiting for it.
    StartBurst,
}

/// What an event was taken for.
#[derive(Clone, Copy, Debug, PartialEq, Eq, Structural)]
pub enum Taken {
    /// A download request.
    Download,
    /// An upload request; the peer's measurement now runs.
    Upload,
    /// Data, with what became of it.
    Data { fate: DatagramFate },
    /// A failed receive.
    Failure,
}

/// The outcome of one event.
#[derive(Debug)]
pub struct Dispatch {
    /// What the event was taken for.
    pub taken: Taken,
    /// What to do, in this order, before receiving again.
    pub steps: Vec<UdpStep>,
    /// The measurements that the sweep ended, each with its final figure.
    pub ended: Vec<FinishedUpload>,
}

/// Acknowledgments: `reply` sent [`ACK_COUNT`] times, each followed by a
/// pause of `gap` nanoseconds.
pub open spec fn acknowledgments(reply: Reply, gap: u64) -> Seq<UdpStep> {
    Seq::new(
        2 * ACK_COUNT as nat,
        |i: int|
            if i % 2 == 0 {
                UdpStep::Send { reply }
            } else {
                UdpStep::Pause { nanos: gap }
            },
    )
}

/// The answer to a request: acknowledgments, then for a download the burst
/// sender, for an upload the probe. Data gets no answer.
pub open spec fn answer_to(command: Command) -> Seq<UdpStep> {
    match command {
        Command::Download => acknowledgments(Reply::AckDownload, DOWNLOAD_ACK_GAP_NANOS).push(
            UdpStep::StartBurst,
        ),
        Command::Upload => acknowledgments(Reply::AckUpload, UPLOAD_ACK_GAP_NANOS).push(
            UdpStep::Send { reply: Reply::Probe },
        ),
        Command::Unknown => Seq::empty(),
    }
}

/// The length of a payload as the table counts it.
pub open spec fn counted_len(payload: Seq<u8>) -> u64 {
    payload.len() as u64
}

/// What the event is taken for when the table holds `uploads`.
pub open spec fn taken_of(uploads: Uploads, event: UdpEvent<'_>, now: u64) -> Taken {
    match event {
        UdpEvent::Datagram { peer, payload } => match command_of(payload@) {
            Command::Download => Taken::Download,
            Command::Upload => Taken::Upload,
            Command::Unknown => Taken::Data {
                fate: fate_of(uploads, peer, counted_len(payload@), now),
            },
        },
        UdpEvent::ReceiveFailed => Taken::Failure,
    }
}

/// What the receive loop does after the event.
pub open spec fn steps_after(event: UdpEvent<'_>) -> Seq<UdpStep> {
    match event {
        UdpEvent::Datagram { peer, payload } => answer_to(command_of(payload@)),
        UdpEvent::ReceiveFailed => seq![UdpStep::Pause { nanos: RETRY_NANOS }],
    }
}

/// The table before the sweep that follows a data datagram; for any other
/// event, the table after the event.
pub open spec fn uploads_touched(uploads: Uploads, event: UdpEvent<'_>, now: u64) -> Uploads {
    match event {
        UdpEvent::Datagram { peer, payload } => match command_of(payload@) {
            Command::Download => uploads,
            Command::Upload => after_registration(uploads, peer, now),
            Command::Unknown => after_datagram(uploads, peer, counted_len(payload@), now),
        },
        UdpEvent::ReceiveFailed => uploads,
    }
}

/// Whether the event is followed by a sweep of the table: data is.
pub open spec fn sweeps(event: UdpEvent<'_>) -> bool {
    event matches UdpEvent::Datagram { payload, .. } && command_of(payload@) == Command::Unknown
}

/// The table after the event.
pub open spec fn uploads_after(uploads: Uploads, event: UdpEvent<'_>, now: u64) -> Uploads {
    if sweeps(event) {
        live_part(uploads_touched(uploads, event, now), now)
    } else {
        uploads_touched(uploads, event, now)
    }
}

/// The measurements that the sweep after the event ends.
pub open spec fn ended_by(uploads: Uploads, event: UdpEvent<'_>, now: u64) -> Uploads {
    if sweeps(event) {
        expired_part(uploads_touched(uploads, event, now), now)
    } else {
        Map::empty()
    }
}

/// The steps that acknowledge a request [`ACK_COUNT`] times.
fn acknowledge(reply: Reply, gap: u64) -> (steps: Vec<UdpStep>)
    ensures
        steps@ == acknowledgments(reply, gap),
{
    let mut steps: Vec<UdpStep> = Vec::new();
    let mut sent: usize = 0;
    while sent < ACK_COUNT
        invariant
            sent <= ACK_COUNT,
            steps@.len() == 2 * sent,
            forall|i: int| 0 <= i < steps@.len() ==> steps@[i] == acknowledgments(reply, gap)[i],
        decreases ACK_COUNT - sent,
    {
        steps.push(UdpStep::Send { reply });
        steps.push(UdpStep::Pause { nanos: gap });
        sent += 1;
    }
    assert(steps@ =~= acknowledgments(reply, gap));
    steps
}

/// Handles one event of the receive loop, seen at `now`.
///
/// The table changes as the event demands; the result says what the event
/// was taken for, what to send and how long to wait before receiving again,
/// and which measurements ended. A failed receive changes nothing and asks
/// for a pause: it never ends the loop.
pub fn dispatch(table: &mut UploadTable, event: UdpEvent<'_>, now: u64) -> (out: Dispatch)
    ensures
        final(table)@ == uploads_after(old(table)@, event, now),
        out.taken == taken_of(old(table)@, event, now),
        out.steps@ == steps_after(event),
        reports_exactly(out.ended@, ended_by(old(table)@, event, now)),
        out.ended@.len() == ended_by(old(table)@, event, now).dom().len(),
{
    match event {
        UdpEvent::ReceiveFailed => {
            let mut steps: Vec<UdpStep> = Vec::new();
            steps.push(UdpStep::Pause { nanos: RETRY_NANOS });
            assert(steps@ =~= steps_after(event));
            Dispatch { taken: Taken::Failure, steps, ended: Vec::new() }
        },
        UdpEvent::Datagram { peer, payload } => {
            match parse_command(payload) {
                Command::Download => {
                    let mut steps = acknowledge(Reply::AckDownload, DOWNLOAD_ACK_GAP_NANOS);
                    steps.push(UdpStep::StartBurst);
                    Dispatch { taken: Taken::Download, steps, ended: Vec::new() }
                },
                Command::Upload => {
                    table.register(peer, now);
                    let mut steps = acknowledge(Reply::AckUpload, UPLOAD_ACK_GAP_NANOS);
                    steps.push(UdpStep::Send { reply: Reply::Probe });
                    Dispatch { taken: Taken::Upload, steps, ended: Vec::new() }
                },
                Command::Unknown => {
                    let fate = table.record(peer, payload.len() as u64, now);
                    let ended = table.sweep(now);
                    Dispatch { taken: Taken::Data { fate }, steps: Vec::new(), ended }
                },
            }
        },
    }
}

/// Any data datagram, whoever sent it, drives the sweep: after it no
/// measurement is left whose deadline has passed, and each one that had
/// expired is accounted for once, with the total it had: the sender's own in
/// the datagram's fate, every other among the measurements ended.
pub proof fn lemma_data_drives_sweep(uploads: Uploads, event: UdpEvent<'_>, now: u64)
    requires
        sweeps(event),
    ensures
        forall|p: PeerAddr| #[trigger]
            uploads_after(uploads, event, now).contains_key(p) ==> !uploads_after(
                uploads,
                event,
                now,
            )[p].expired_at(now),
        forall|p: PeerAddr| #[trigger]
            uploads.contains_key(p) && uploads[p].expired_at(now) ==> {
                &&& !uploads_after(uploads, event, now).contains_key(p)
                &&& if (event matches UdpEvent::Datagram { peer, .. } && peer == p) {
                    taken_of(uploads, event, now) == (Taken::Data {
                        fate: DatagramFate::Expired { total_bytes: uploads[p].total_bytes },
                    }) && !ended_by(uploads, event, now).contains_key(p)
                } else {
                    ended_by(uploads, event, now).contains_key(p) && ended_by(
                        uploads,
                        event,
                        now,
                    )[p] == uploads[p]
                }
            },
        forall|p: PeerAddr| #[trigger]
            ended_by(uploads, event, now).contains_key(p) ==> uploads.contains_key(p)
                && uploads[p].expired_at(now),
        forall|p: PeerAddr| #[trigger]
            uploads.contains_key(p) && !uploads[p].expired_at(now) ==> uploads_after(
                uploads,
                event,
                now,
            ).contains_key(p),
{
}

/// Data from a peer without a measurement is counted toward no total: the
/// measurements that stay are as they were, and those that end do so with
/// the totals they had.
pub proof fn lemma_unmatched_data_is_inert(uploads: Uploads, event: UdpEvent<'_>, now: u64)
    requires
        sweeps(event),
        event matches UdpEvent::Datagram { peer, .. } && !uploads.contains_key(peer),
    ensures
        taken_of(uploads, event, now) == (Taken::Data { fate: DatagramFate::Unmatched }),
        uploads_after(uploads, event, now) == live_part(uploads, now),
        ended_by(uploads, event, now) == expired_part(uploads, now),
        forall|p: PeerAddr| #[trigger]
            uploads_after(uploads, event, now).contains_key(p) ==> uploads.contains_key(p)
                && uploads_after(uploads, event, now)[p] == uploads[p],
{
}

/// Data is counted inside the window only: a datagram adds to no total but
/// that of its own peer, and to that one only when it is seen no later
/// than the peer's deadline.
pub proof fn lemma_data_counts_in_window(uploads: Uploads, event: UdpEvent<'_>, now: u64)
    requires
        sweeps(event),
    ensures
        forall|p: PeerAddr| #[trigger]
            uploads_after(uploads, event, now).contains_key(p) ==> {
                &&& uploads.contains_key(p)
                &&& uploads_after(uploads, event, now)[p].registered_at
                    == uploads[p].registered_at
                &&& uploads_after(uploads, event, now)[p].total_bytes >= uploads[p].total_bytes
                &&& uploads_after(uploads, event, now)[p].total_bytes != uploads[p].total_bytes
                    ==> now <= uploads[p].deadline() && (event matches UdpEvent::Datagram {
                    peer,
                    ..
                } && peer == p)
            },
{
}

/// A request leaves every other peer's measurement alone, and an upload
/// request gives its own peer a fresh one: whatever the peer had before,
/// it now has one measurement, opened at `now` with nothing counted.
pub proof fn lemma_request_registers_one(uploads: Uploads, event: UdpEvent<'_>, now: u64)
    requires
        event matches UdpEvent::Datagram { payload, .. } && command_of(payload@)
            == Command::Upload,
    ensures
        event matches UdpEvent::Datagram { peer, .. } && {
            &&& uploads_after(uploads, event, now) == after_registration(uploads, peer, now)
            &&& uploads_after(uploads, event, now)[peer] == UploadSession::opened_at(now)
            &&& uploads_after(uploads, event, now).dom() == uploads.dom().insert(peer)
        },
{
    if let UdpEvent::Datagram { peer, payload } = event {
        assert(uploads_after(uploads, event, now).dom() =~= uploads.dom().insert(peer));
    }
}

/// The table after a run of events, each with the time at which it is
/// seen, the first one first.
pub open spec fn uploads_after_all(uploads: Uploads, events: Seq<(UdpEvent<'_>, u64)>) -> Uploads
    decreases events.len(),
{
    if events.len() == 0 {
        uploads
    } else {
        uploads_after(
            uploads_after_all(uploads, events.drop_last()),
            events.last().0,
            events.last().1,
        )
    }
}

/// However often the receive call fails in a row, the table is as it was
/// before, and after each failure the loop is asked to pause and receive
/// again.
pub proof fn lemma_repeated_failures_are_harmless(
    uploads: Uploads,
    events: Seq<(UdpEvent<'_>, u64)>,
)
    requires
        forall|i: int| 0 <= i < events.len() ==> (#[trigger] events[i]).0 is ReceiveFailed,
    ensures
        uploads_after_all(uploads, events) == uploads,
        forall|i: int|
            0 <= i < events.len() ==> steps_after((#[trigger] events[i]).0) == seq![
                UdpStep::Pause { nanos: RETRY_NANOS },
            ],
    decreases events.len(),
{
    if events.len() > 0 {
        let front = events.drop_last();
        assert forall|i: int| 0 <= i < front.len() implies (#[trigger] front[i]).0
            is ReceiveFailed by {
            assert(front[i] == events[i]);
        }
        lemma_repeated_failures_are_harmless(uploads, front);
        assert(events.last() == events[events.len() - 1]);
    }
}

/// A failed receive is harmless: the table stays as it is, nothing ends,
/// and the loop is asked to wait a moment and receive again.
pub proof fn lemma_receive_failure_is_harmless(uploads: Uploads, now: u64)
    ensures
        uploads_after(uploads, UdpEvent::ReceiveFailed, now) == uploads,
        ended_by(uploads, UdpEvent::ReceiveFailed, now) == Map::<PeerAddr, UploadSession>::empty(),
        taken_of(uploads, UdpEvent::ReceiveFailed, now) == Taken::Failure,
        steps_after(UdpEvent::ReceiveFailed) == seq![UdpStep::Pause { nanos: RETRY_NANOS }],
{
}

} // verus!
