//! The handler of one TCP connection.
//!
//! A connection waits for a command. A download command opens a phase in
//! which the handler writes chunk after chunk of filler until a window has
//! gone by; an upload command opens a phase in which it reads and counts
//! until a window has gone by. Either phase also ends when the peer goes
//! away or the socket fails, and the connection then waits for the next
//! command. Only the wait for a command ends the connection: on the end of
//! the stream, on a reset, or on a failed read.
//!
//! The handler performs nothing itself. [`TcpSession::step`] takes what
//! happened to the last operation and says which operation comes next.

use crate::clock::{phase_running, window_open};
use crate::command::{command_of, parse_command, Command};
use crate::count::{add_capped, capped_sum};
use crate::wire::{IoFailure, TCP_CHUNK_LEN};
use vstd::prelude::*;

verus! {

/// What happened to the operation that the handler asked for last.
#[derive(Clone, Copy, Debug)]
pub enum TcpEvent<'a> {
    /// A read returned these bytes; none at the end of the stream.
    Read { bytes: &'a [u8] },
    /// A read failed.
    ReadFailed { failure: IoFailure },
    /// A chunk of filler was written in full.
    Written,
    /// A write failed.
    WriteFailed { failure: IoFailure },
    /// The task runs again after giving way.
    Resumed,
}

/// The operation that the handler asks for next.
#[derive(Clone, Copy, Debug, PartialEq, Eq, Structural)]
pub enum TcpAction {
    /// Read from the connection.
    Read,
    /// Write one chunk of [`TCP_CHUNK_LEN`] bytes of filler.
    Write,
    /// Let other tasks run once.
    Yield,
    /// Nothing more: the connection is over.
    Close,
}

/// How a connection ended.
#[derive(Clone, Copy, Debug, PartialEq, Eq, Structural)]
pub enum Closing {
    /// The peer closed the stream.
    Disconnected,
    /// The peer reset the connection.
    Reset,
    /// A read failed; this is the one ending that counts as an error.
    Failed,
}

/// Why a phase ended.
#[derive(Clone, Copy, Debug, PartialEq, Eq, Structural)]
pub enum PhaseEnd {
    /// Its window has gone by.
    WindowOver,
    /// The peer closed the stream.
    EndOfStream,
    /// The peer went away: a reset, or for a download a broken pipe.
    PeerGone,
    /// The socket failed in another way.
    Failed,
}

/// Something worth a line in the log.
#[derive(Clone, Copy, Debug, PartialEq, Eq, Structural)]
pub enum TcpNote {
    Nothing,
    /// A request was read and taken for `command`.
    Request { command: Command },
    /// A download phase ended after `sent_bytes` bytes were written.
    DownloadDone { sent_bytes: u64, end: PhaseEnd },
    /// An upload phase ended after `received_bytes` bytes were read.
    UploadDone { received_bytes: u64, end: PhaseEnd },
    /// The connection ended.
    Closed { closing: Closing },
}

/// The handler's answer to an event.
#[derive(Clone, Copy, Debug, PartialEq, Eq, Structural)]
pub struct TcpStep {
    pub action: TcpAction,
    pub note: TcpNote,
}

/// Where a connection stands.
#[derive(Clone, Copy, Debug, PartialEq, Eq, Structural)]
pub enum TcpSession {
    /// Waiting for a command.
    AwaitingCommand,
    /// In a download phase begun at `started`, with `sent_bytes` written.
    Downloading { started: u64, sent_bytes: u64 },
    /// In an upload phase begun at `started`, with `received_bytes` read.
    Uploading { started: u64, received_bytes: u64 },
    /// Over.
    Closed { closing: Closing },
}

/// What ends a download phase when a write fails with `failure`.
pub open spec fn write_failure_end(failure: IoFailure) -> PhaseEnd {
    if failure == IoFailure::BrokenPipe || failure == IoFailure::ConnectionReset {
        PhaseEnd::PeerGone
    } else {
        PhaseEnd::Failed
    }
}

/// What ends an upload phase when a read fails with `failure`, which is not
/// a mere "try again".
pub open spec fn read_failure_end(failure: IoFailure) -> PhaseEnd {
    if failure == IoFailure::ConnectionReset {
        PhaseEnd::PeerGone
    } else {
        PhaseEnd::Failed
    }
}

/// How the connection ends when the read of a command fails with `failure`.
pub open spec fn read_failure_closing(failure: IoFailure) -> Closing {
    if failure == IoFailure::ConnectionReset {
        Closing::Reset
    } else {
        Closing::Failed
    }
}

impl TcpSession {
    /// The connection is in a download or an upload phase.
    pub open spec fn in_phase(self) -> bool {
        self is Downloading || self is Uploading
    }

    /// When the phase in progress began.
    pub open spec fn phase_started(self) -> u64 {
        match self {
            TcpSession::Downloading { started, .. } => started,
            TcpSession::Uploading { started, .. } => started,
            _ => 0,
        }
    }

    /// The bytes counted in the phase in progress.
    pub open spec fn phase_bytes(self) -> u64 {
        match self {
            TcpSession::Downloading { sent_bytes, .. } => sent_bytes,
            TcpSession::Uploading { received_bytes, .. } => received_bytes,
            _ => 0,
        }
    }

    /// A download phase begun at `started` that has written `sent_bytes`,
    /// after a look at the clock at `now`: it goes on inside its window and
    /// is over past it.
    pub open spec fn download_at(started: u64, sent_bytes: u64, now: u64) -> (TcpSession, TcpStep) {
        if phase_running(started, now) {
            (
                TcpSession::Downloading { started, sent_bytes },
                TcpStep { action: TcpAction::Write, note: TcpNote::Nothing },
            )
        } else {
            (
                TcpSession::AwaitingCommand,
                TcpStep {
                    action: TcpAction::Read,
                    note: TcpNote::DownloadDone { sent_bytes, end: PhaseEnd::WindowOver },
                },
            )
        }
    }

    /// An upload phase begun at `started` that has read `received_bytes`,
    /// after a look at the clock at `now`.
    pub open spec fn upload_at(started: u64, received_bytes: u64, now: u64) -> (
        TcpSession,
        TcpStep,
    ) {
        if phase_running(started, now) {
            (
                TcpSession::Uploading { started, received_bytes },
                TcpStep { action: TcpAction::Read, note: TcpNote::Nothing },
            )
        } else {
            (
                TcpSession::AwaitingCommand,
                TcpStep {
                    action: TcpAction::Read,
                    note: TcpNote::UploadDone { received_bytes, end: PhaseEnd::WindowOver },
                },
            )
        }
    }

    /// A request of these bytes read at `now` while waiting for a command.
    pub open spec fn request_at(bytes: Seq<u8>, now: u64) -> (TcpSession, TcpStep) {
        let command = command_of(bytes);
        let note = TcpNote::Request { command };
        match command {
            Command::Download => (
                TcpSession::Downloading { started: now, sent_bytes: 0 },
                TcpStep { action: TcpAction::Write, note },
            ),
            Command::Upload => (
                TcpSession::Uploading { started: now, received_bytes: 0 },
                TcpStep { action: TcpAction::Read, note },
            ),
            Command::Unknown => (
                TcpSession::AwaitingCommand,
                TcpStep { action: TcpAction::Read, note },
            ),
        }
    }

    /// The connection after `event`, seen at `now`, and the handler's
    /// answer to it.
    pub open spec fn react(self, event: TcpEvent<'_>, now: u64) -> (TcpSession, TcpStep) {
        match self {
            TcpSession::AwaitingCommand => match event {
                TcpEvent::Read { bytes } => if bytes@.len() == 0 {
                    (
                        TcpSession::Closed { closing: Closing::Disconnected },
                        TcpStep {
                            action: TcpAction::Close,
                            note: TcpNote::Closed { closing: Closing::Disconnected },
                        },
                    )
                } else {
                    TcpSession::request_at(bytes@, now)
                },
                TcpEvent::ReadFailed { failure } => (
                    TcpSession::Closed { closing: read_failure_closing(failure) },
                    TcpStep {
                        action: TcpAction::Close,
                        note: TcpNote::Closed { closing: read_failure_closing(failure) },
                    },
                ),
                _ => (self, TcpStep { action: TcpAction::Read, note: TcpNote::Nothing }),
            },
            TcpSession::Downloading { started, sent_bytes } => match event {
                TcpEvent::Written => TcpSession::download_at(
                    started,
                    capped_sum(sent_bytes, TCP_CHUNK_LEN as u64),
                    now,
                ),
                TcpEvent::WriteFailed { failure } => (
                    TcpSession::AwaitingCommand,
                    TcpStep {
                        action: TcpAction::Read,
                        note: TcpNote::DownloadDone { sent_bytes, end: write_failure_end(failure) },
                    },
                ),
                _ => TcpSession::download_at(started, sent_bytes, now),
            },
            TcpSession::Uploading { started, received_bytes } => match event {
                TcpEvent::Read { bytes } => if bytes@.len() == 0 {
                    (
                        TcpSession::AwaitingCommand,
                        TcpStep {
                            action: TcpAction::Read,
                            note: TcpNote::UploadDone {
                                received_bytes,
                                end: PhaseEnd::EndOfStream,
                            },
                        },
                    )
                } else {
                    TcpSession::upload_at(
                        started,
                        capped_sum(received_bytes, bytes@.len() as u64),
                        now,
                    )
                },
                TcpEvent::ReadFailed { failure } => if failure == IoFailure::WouldBlock {
                    (self, TcpStep { action: TcpAction::Yield, note: TcpNote::Nothing })
                } else {
                    (
                        TcpSession::AwaitingCommand,
                        TcpStep {
                            action: TcpAction::Read,
                            note: TcpNote::UploadDone {
                                received_bytes,
                                end: read_failure_end(failure),
                            },
                        },
                    )
                },
                _ => TcpSession::upload_at(started, received_bytes, now),
            },
            TcpSession::Closed { closing } => (
                self,
                TcpStep { action: TcpAction::Close, note: TcpNote::Nothing },
            ),
        }
    }

    /// A fresh connection. Its first operation is a read.
    pub fn open() -> (session: TcpSession)
        ensures
            session == TcpSession::AwaitingCommand,
    {
        TcpSession::AwaitingCommand
    }

    /// Takes in `event`, seen at `now`, and says what to do next.
    ///
    /// The event is read against where the connection stands. One that
    /// brings no news there, such as a completed write while the connection
    /// waits for a command, is taken as a bare wake-up: a phase looks at
    /// the clock, the wait for a command goes on.
    pub fn step(&mut self, event: TcpEvent<'_>, now: u64) -> (out: TcpStep)
        ensures
            (*final(self), out) == old(self).react(event, now),
    {
        match *self {
            TcpSession::AwaitingCommand => match event {
                TcpEvent::Read { bytes } => {
                    if bytes.len() == 0 {
                        self.close(Closing::Disconnected)
                    } else {
                        self.begin(parse_command(bytes), now)
                    }
                },
                TcpEvent::ReadFailed { failure } => {
                    let closing = match failure {
                        IoFailure::ConnectionReset => Closing::Reset,
                        _ => Closing::Failed,
                    };
                    self.close(closing)
                },
                _ => TcpStep { action: TcpAction::Read, note: TcpNote::Nothing },
            },
            TcpSession::Downloading { started, sent_bytes } => match event {
                TcpEvent::Written => {
                    self.settle_download(started, add_capped(sent_bytes, TCP_CHUNK_LEN as u64), now)
                },
                TcpEvent::WriteFailed { failure } => {
                    let end = match failure {
                        IoFailure::BrokenPipe => PhaseEnd::PeerGone,
                        IoFailure::ConnectionReset => PhaseEnd::PeerGone,
                        _ => PhaseEnd::Failed,
                    };
                    *self = TcpSession::AwaitingCommand;
                    TcpStep {
                        action: TcpAction::Read,
                        note: TcpNote::DownloadDone { sent_bytes, end },
                    }
                },
                _ => self.settle_download(started, sent_bytes, now),
            },
            TcpSession::Uploading { started, received_bytes } => match event {
                TcpEvent::Read { bytes } => {
                    if bytes.len() == 0 {
                        *self = TcpSession::AwaitingCommand;
                        TcpStep {
                            action: TcpAction::Read,
                            note: TcpNote::UploadDone {
                                received_bytes,
                                end: PhaseEnd::EndOfStream,
                            },
                        }
                    } else {
                        self.settle_upload(
                            started,
                            add_capped(received_bytes, bytes.len() as u64),
                            now,
                        )
                    }
                },
                TcpEvent::ReadFailed { failure } => match failure {
                    IoFailure::WouldBlock => TcpStep {
                        action: TcpAction::Yield,
                        note: TcpNote::Nothing,
                    },
                    _ => {
                        let end = match failure {
                            IoFailure::ConnectionReset => PhaseEnd::PeerGone,
                            _ => PhaseEnd::Failed,
                        };
                        *self = TcpSession::AwaitingCommand;
                        TcpStep {
                            action: TcpAction::Read,
                            note: TcpNote::UploadDone { received_bytes, end },
                        }
                    },
                },
                _ => self.settle_upload(started, received_bytes, now),
            },
            TcpSession::Closed { closing } => TcpStep {
                action: TcpAction::Close,
                note: TcpNote::Nothing,
            },
        }
    }

    /// Ends the connection.
    fn close(&mut self, closing: Closing) -> (out: TcpStep)
        ensures
            *final(self) == (TcpSession::Closed { closing }),
            out == (TcpStep { action: TcpAction::Close, note: TcpNote::Closed { closing } }),
    {
        *self = TcpSession::Closed { closing };
        TcpStep { action: TcpAction::Close, note: TcpNote::Closed { closing } }
    }

    /// Acts on a command read at `now`.
    fn begin(&mut self, command: Command, now: u64) -> (out: TcpStep)
        ensures
            forall|bytes: Seq<u8>|
                command_of(bytes) == command ==> (*final(self), out)
                    == #[trigger] TcpSession::request_at(bytes, now),
    {
        let note = TcpNote::Request { command };
        match command {
            Command::Download => {
                *self = TcpSession::Downloading { started: now, sent_bytes: 0 };
                TcpStep { action: TcpAction::Write, note }
            },
            Command::Upload => {
                *self = TcpSession::Uploading { started: now, received_bytes: 0 };
                TcpStep { action: TcpAction::Read, note }
            },
            Command::Unknown => {
                *self = TcpSession::AwaitingCommand;
                TcpStep { action: TcpAction::Read, note }
            },
        }
    }

    /// Goes on with a download phase or ends it, by the clock.
    fn settle_download(&mut self, started: u64, sent_bytes: u64, now: u64) -> (out: TcpStep)
        ensures
            (*final(self), out) == TcpSession::download_at(started, sent_bytes, now),
    {
        if window_open(started, now) {
            *self = TcpSession::Downloading { started, sent_bytes };
            TcpStep { action: TcpAction::Write, note: TcpNote::Nothing }
        } else {
            *self = TcpSession::AwaitingCommand;
            TcpStep {
                action: TcpAction::Read,
                note: TcpNote::DownloadDone { sent_bytes, end: PhaseEnd::WindowOver },
            }
        }
    }

    /// Goes on with an upload phase or ends it, by the clock.
    fn settle_upload(&mut self, started: u64, received_bytes: u64, now: u64) -> (out: TcpStep)
        ensures
            (*final(self), out) == TcpSession::upload_at(started, received_bytes, now),
    {
        if window_open(started, now) {
            *self = TcpSession::Uploading { started, received_bytes };
            TcpStep { action: TcpAction::Read, note: TcpNote::Nothing }
        } else {
            *self = TcpSession::AwaitingCommand;
            TcpStep {
                action: TcpAction::Read,
                note: TcpNote::UploadDone { received_bytes, end: PhaseEnd::WindowOver },
            }
        }
    }
}

impl TcpSession {
    /// The connection after `event`, seen at `now`.
    pub open spec fn next(self, event: TcpEvent<'_>, now: u64) -> TcpSession {
        self.react(event, now).0
    }

    /// The handler's answer to `event`, seen at `now`.
    pub open spec fn answer(self, event: TcpEvent<'_>, now: u64) -> TcpStep {
        self.react(event, now).1
    }

    /// Past its window a phase starts nothing: once a window has gone by
    /// since the phase began, no event makes the handler ask for another
    /// write, or for another read of the phase. What was already under way
    /// is still counted when it completes.
    pub proof fn lemma_window_bound(self, event: TcpEvent<'_>, now: u64)
        requires
            self.in_phase(),
            !phase_running(self.phase_started(), now),
        ensures
            !(self.answer(event, now).action is Write),
            self.answer(event, now).action is Read ==> self.next(event, now)
                == TcpSession::AwaitingCommand,
            self.next(event, now).in_phase() ==> self.next(event, now) == self,
    {
    }

    /// Inside a phase the clock and the count behave: the start of the
    /// phase stays where it is and the count never goes down. The count
    /// grows only by a chunk that was written, or by the bytes that a read
    /// returned.
    pub proof fn lemma_phase_counts(self, event: TcpEvent<'_>, now: u64)
        requires
            self.in_phase(),
            self.next(event, now).in_phase(),
        ensures
            self.next(event, now).phase_started() == self.phase_started(),
            self is Downloading <==> self.next(event, now) is Downloading,
            self.next(event, now).phase_bytes() >= self.phase_bytes(),
            self.next(event, now).phase_bytes() != self.phase_bytes() ==> {
                ||| self is Downloading && event is Written && self.next(event, now).phase_bytes()
                    == capped_sum(self.phase_bytes(), TCP_CHUNK_LEN as u64)
                ||| self is Uploading && (event matches TcpEvent::Read { bytes }
                    && self.next(event, now).phase_bytes() == capped_sum(
                    self.phase_bytes(),
                    bytes@.len() as u64,
                ))
            },
    {
    }

    /// A phase ends with its count: when a phase is left, the note gives
    /// the bytes counted up to then, the completed operation included.
    pub proof fn lemma_phase_reports(self, event: TcpEvent<'_>, now: u64)
        requires
            self.in_phase(),
            !self.next(event, now).in_phase(),
        ensures
            self.next(event, now) == TcpSession::AwaitingCommand,
            self.answer(event, now).action is Read,
            self matches TcpSession::Downloading { sent_bytes, .. } ==> (self.answer(
                event,
                now,
            ).note matches TcpNote::DownloadDone { sent_bytes: reported, .. } && reported
                >= sent_bytes),
            self matches TcpSession::Uploading { received_bytes, .. } ==> (self.answer(
                event,
                now,
            ).note matches TcpNote::UploadDone { received_bytes: reported, .. } && reported
                >= received_bytes),
    {
    }

    /// Only the wait for a command ends a connection, and a connection that
    /// is over stays so.
    pub proof fn lemma_closing(self, event: TcpEvent<'_>, now: u64)
        ensures
            self.next(event, now) is Closed ==> self is Closed || self
                == TcpSession::AwaitingCommand,
            self is Closed ==> self.next(event, now) == self && self.answer(event, now).action
                is Close,
            self.answer(event, now).action is Close <==> self.next(event, now) is Closed,
    {
    }
}

} // verus!