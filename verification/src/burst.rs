//! The sender that answers one UDP download request.
//!
//! It sends filler datagrams in bursts for one window. A burst is up to
//! [`BURST_LEN`] sends, one after the other, with no look at the clock in
//! between. A send that is turned down ends the burst after a short pause.
//! Between bursts the sender gives way, or pauses again when the burst sent
//! nothing, and then looks at the clock: inside the window the next burst
//! starts, past it the sender stops for good.
//!
//! The sender performs nothing itself. [`BurstSender::step`] takes what
//! happened to the last operation and says which operation comes next.

use crate::clock::{phase_running, window_open};
use crate::count::{add_capped, capped_sum};
use crate::wire::{IoFailure, BACKOFF_NANOS, BURST_LEN};
use vstd::prelude::*;

verus! {

/// What happened to the operation that the sender asked for last.
#[derive(Clone, Copy, Debug, PartialEq, Eq, Structural)]
pub enum BurstEvent {
    /// The datagram went out; the socket took `bytes` bytes of it.
    Sent { bytes: u64 },
    /// The send failed.
    SendFailed { failure: IoFailure },
    /// The pause is over, or the task runs again after giving way.
    Resumed,
}

/// The operation that the sender asks for next.
#[derive(Clone, Copy, Debug, PartialEq, Eq, Structural)]
pub enum BurstAction {
    /// Send one datagram of filler to the peer.
    Send,
    /// Wait for `nanos` nanoseconds.
    Pause { nanos: u64 },
    /// Let other tasks run once.
    Yield,
    /// Nothing more: the sender is done.
    Stop,
}

/// Where a sender stands.
#[derive(Clone, Copy, Debug, PartialEq, Eq, Structural)]
pub enum BurstStage {
    /// In a burst: `done` of its datagrams went out and one more is on its
    /// way.
    Sending { done: usize },
    /// A send was turned down and the pause after it is running.
    /// `any_sent` tells whether the burst had sent anything.
    BackingOff { any_sent: bool },
    /// Between two bursts.
    Resting,
    /// The window is over.
    Finished,
}

/// Something worth a line in the log.
#[derive(Clone, Copy, Debug, PartialEq, Eq, Structural)]
pub enum BurstNote {
    Nothing,
    /// A send failed for another reason than a full buffer.
    SendError,
    /// The sender stopped after sending `sent_bytes` bytes in all.
    Finished { sent_bytes: u64 },
}

/// The sender's answer to an event.
#[derive(Clone, Copy, Debug, PartialEq, Eq, Structural)]
pub struct BurstStep {
    pub action: BurstAction,
    pub note: BurstNote,
}

/// One download in progress.
#[derive(Clone, Copy, Debug, PartialEq, Eq, Structural)]
pub struct BurstSender {
    /// When the sender was started.
    pub started: u64,
    /// Bytes that went out so far.
    pub sent_bytes: u64,
    pub stage: BurstStage,
}

impl BurstSender {
    /// A burst never holds more than [`BURST_LEN`] datagrams.
    pub open spec fn wf(self) -> bool {
        self.stage matches BurstStage::Sending { done } ==> done < BURST_LEN
    }

    /// The sender started at `now`, with the first datagram of its first
    /// burst on its way.
    pub open spec fn launched_at(now: u64) -> BurstSender {
        BurstSender { started: now, sent_bytes: 0, stage: BurstStage::Sending { done: 0 } }
    }

    /// The sender after it looked at the clock at `now` between two bursts.
    pub open spec fn after_clock_check(self, now: u64) -> BurstSender {
        if phase_running(self.started, now) {
            BurstSender { stage: BurstStage::Sending { done: 0 }, ..self }
        } else {
            BurstSender { stage: BurstStage::Finished, ..self }
        }
    }

    /// The sender after `event`, seen at `now`.
    pub open spec fn next(self, event: BurstEvent, now: u64) -> BurstSender {
        match self.stage {
            BurstStage::Sending { done } => match event {
                BurstEvent::Sent { bytes } => BurstSender {
                    sent_bytes: capped_sum(self.sent_bytes, bytes),
                    stage: if done + 1 < BURST_LEN {
                        BurstStage::Sending { done: (done + 1) as usize }
                    } else {
                        BurstStage::Resting
                    },
                    ..self
                },
                BurstEvent::SendFailed { failure } => BurstSender {
                    stage: BurstStage::BackingOff { any_sent: done > 0 },
                    ..self
                },
                BurstEvent::Resumed => self.after_clock_check(now),
            },
            BurstStage::BackingOff { any_sent } => BurstSender {
                stage: BurstStage::Resting,
                ..self
            },
            BurstStage::Resting => self.after_clock_check(now),
            BurstStage::Finished => self,
        }
    }

    /// What a sender that looks at the clock at `now` between two bursts
    /// asks for.
    pub open spec fn clock_answer(self, now: u64) -> BurstStep {
        if phase_running(self.started, now) {
            BurstStep { action: BurstAction::Send, note: BurstNote::Nothing }
        } else {
            BurstStep {
                action: BurstAction::Stop,
                note: BurstNote::Finished { sent_bytes: self.sent_bytes },
            }
        }
    }

    /// What the sender asks for after `event`, seen at `now`.
    pub open spec fn answer(self, event: BurstEvent, now: u64) -> BurstStep {
        match self.stage {
            BurstStage::Sending { done } => match event {
                BurstEvent::Sent { bytes } => BurstStep {
                    action: if done + 1 < BURST_LEN {
                        BurstAction::Send
                    } else {
                        BurstAction::Yield
                    },
                    note: BurstNote::Nothing,
                },
                BurstEvent::SendFailed { failure } => BurstStep {
                    action: BurstAction::Pause { nanos: BACKOFF_NANOS },
                    note: if failure == IoFailure::WouldBlock {
                        BurstNote::Nothing
                    } else {
                        BurstNote::SendError
                    },
                },
                BurstEvent::Resumed => self.clock_answer(now),
            },
            BurstStage::BackingOff { any_sent } => BurstStep {
                action: if any_sent {
                    BurstAction::Yield
                } else {
                    BurstAction::Pause { nanos: BACKOFF_NANOS }
                },
                note: BurstNote::Nothing,
            },
            BurstStage::Resting => self.clock_answer(now),
            BurstStage::Finished => BurstStep {
                action: BurstAction::Stop,
                note: BurstNote::Nothing,
            },
        }
    }

    /// Starts a sender at `now`. Its first operation is a send.
    pub fn launch(now: u64) -> (sender: BurstSender)
        ensures
            sender == BurstSender::launched_at(now),
            sender.wf(),
    {
        BurstSender { started: now, sent_bytes: 0, stage: BurstStage::Sending { done: 0 } }
    }

    /// Takes in `event`, seen at `now`, and says what to do next.
    ///
    /// The event is read against where the sender stands. During a pause
    /// and between bursts every event is a bare wake-up; a wake-up in the
    /// middle of a burst drops the burst and looks at the clock.
    pub fn step(&mut self, event: BurstEvent, now: u64) -> (out: BurstStep)
        ensures
            *final(self) == old(self).next(event, now),
            out == old(self).answer(event, now),
            old(self).wf() ==> final(self).wf(),
    {
        match self.stage {
            BurstStage::Sending { done } => match event {
                BurstEvent::Sent { bytes } => {
                    self.sent_bytes = add_capped(self.sent_bytes, bytes);
                    if done < BURST_LEN - 1 {
                        self.stage = BurstStage::Sending { done: done + 1 };
                        BurstStep { action: BurstAction::Send, note: BurstNote::Nothing }
                    } else {
                        self.stage = BurstStage::Resting;
                        BurstStep { action: BurstAction::Yield, note: BurstNote::Nothing }
                    }
                },
                BurstEvent::SendFailed { failure } => {
                    self.stage = BurstStage::BackingOff { any_sent: done > 0 };
                    let note = match failure {
                        IoFailure::WouldBlock => BurstNote::Nothing,
                        _ => BurstNote::SendError,
                    };
                    BurstStep { action: BurstAction::Pause { nanos: BACKOFF_NANOS }, note }
                },
                BurstEvent::Resumed => self.check_clock(now),
            },
            BurstStage::BackingOff { any_sent } => {
                self.stage = BurstStage::Resting;
                let action = if any_sent {
                    BurstAction::Yield
                } else {
                    BurstAction::Pause { nanos: BACKOFF_NANOS }
                };
                BurstStep { action, note: BurstNote::Nothing }
            },
            BurstStage::Resting => self.check_clock(now),
            BurstStage::Finished => BurstStep {
                action: BurstAction::Stop,
                note: BurstNote::Nothing,
            },
        }
    }

    /// Starts the next burst if the window is still open at `now`, and
    /// stops the sender if it is not.
    fn check_clock(&mut self, now: u64) -> (out: BurstStep)
        ensures
            *final(self) == old(self).after_clock_check(now),
            out == old(self).clock_answer(now),
    {
        if window_open(self.started, now) {
            self.stage = BurstStage::Sending { done: 0 };
            BurstStep { action: BurstAction::Send, note: BurstNote::Nothing }
        } else {
            self.stage = BurstStage::Finished;
            BurstStep {
                action: BurstAction::Stop,
                note: BurstNote::Finished { sent_bytes: self.sent_bytes },
            }
        }
    }
}

impl BurstSender {
    /// How many sends the sender asks for while it takes in `events`, each
    /// with the time at which it is seen, one after the other.
    pub open spec fn sends_asked(self, events: Seq<(BurstEvent, u64)>) -> nat
        decreases events.len(),
    {
        if events.len() == 0 {
            0
        } else {
            let asked: nat = if self.answer(events[0].0, events[0].1).action is Send {
                1
            } else {
                0
            };
            asked + self.next(events[0].0, events[0].1).sends_asked(events.skip(1))
        }
    }

    /// How many more sends the burst in progress can ask for without a look
    /// at the clock.
    pub open spec fn sends_left(self) -> nat {
        match self.stage {
            BurstStage::Sending { done } => if done + 1 < BURST_LEN {
                (BURST_LEN - 1 - done) as nat
            } else {
                0
            },
            _ => 0,
        }
    }

    /// A burst begins inside the window: a send that does not continue a
    /// burst is asked for only while less than a window has gone by since
    /// the sender started.
    pub proof fn lemma_burst_begins_in_window(self, event: BurstEvent, now: u64)
        requires
            self.answer(event, now).action is Send,
            !(self.stage is Sending && event is Sent),
        ensures
            phase_running(self.started, now),
            self.next(event, now).stage == (BurstStage::Sending { done: 0 }),
    {
    }

    /// Past the window nothing new begins: whatever happens from then on,
    /// the sender asks for no send beyond those left in the burst in
    /// progress, fewer than [`BURST_LEN`] in any case.
    pub proof fn lemma_window_bound(self, events: Seq<(BurstEvent, u64)>)
        requires
            self.wf(),
            forall|i: int|
                0 <= i < events.len() ==> !phase_running(self.started, (#[trigger] events[i]).1),
        ensures
            self.sends_asked(events) <= self.sends_left(),
            self.sends_left() < BURST_LEN,
        decreases events.len(),
    {
        if events.len() > 0 {
            let after = self.next(events[0].0, events[0].1);
            let rest = events.skip(1);
            assert(!phase_running(self.started, events[0].1));
            assert forall|i: int| 0 <= i < rest.len() implies !phase_running(
                after.started,
                (#[trigger] rest[i]).1,
            ) by {
                assert(rest[i] == events[i + 1]);
            }
            after.lemma_window_bound(rest);
        }
    }

    /// A sender that has stopped stays stopped.
    pub proof fn lemma_finished_is_final(self, event: BurstEvent, now: u64)
        requires
            self.stage is Finished,
        ensures
            self.next(event, now) == self,
            self.answer(event, now).action is Stop,
    {
    }

    /// The count of bytes never goes down, grows only when a datagram went
    /// out, and then by what the socket took of it.
    pub proof fn lemma_count_grows(self, event: BurstEvent, now: u64)
        ensures
            self.next(event, now).sent_bytes >= self.sent_bytes,
            self.next(event, now).started == self.started,
            self.next(event, now).sent_bytes != self.sent_bytes ==> self.stage is Sending
                && event is Sent,
            self.stage is Sending ==> (event matches BurstEvent::Sent { bytes } ==> self.next(
                event,
                now,
            ).sent_bytes == capped_sum(self.sent_bytes, bytes)),
    {
    }
}

} // verus!