//! The bulk dispatcher as a state machine.
//!
//! Delivering a message, handing a report to the progress sink and waiting
//! between two recipients are the caller's work. The dispatcher decides: it
//! is told what happened, and answers with what is to be done next.

use vstd::prelude::*;
use crate::batch::clone_text;
use crate::batch::outcome_of;
use crate::batch::progress_of;
use crate::batch::text_of;
use crate::batch::Batch;
use crate::batch::BulkMessageRequest;
use crate::batch::MessageProgress;
use crate::batch::Progress;
use crate::template::render;
use crate::template::render_spec;

verus! {

/// Where a dispatch stands.
#[derive(Clone, Copy, PartialEq, Eq, Structural)]
pub enum Phase {
    /// Nothing has happened yet.
    Ready,
    /// A delivery to the recipient under the cursor is under way.
    Delivering,
    /// The report on the recipient under the cursor is with the sink.
    Reporting,
    /// The pause after the recipient under the cursor is under way.
    Pacing,
    /// The completion event is with the sink.
    Completing,
    /// The dispatch has ended.
    Done,
}

/// Why a dispatch failed, as the contracts see it.
pub ghost enum Failure {
    NotConnected,
    SinkError(Seq<char>),
}

/// Why a dispatch failed.
pub enum DispatchError {
    /// There was no session when the dispatch was started.
    NotConnected,
    /// The progress sink refused an event; its description is kept.
    SinkError(String),
}

impl View for DispatchError {
    type V = Failure;

    open spec fn view(&self) -> Failure {
        match self {
            DispatchError::NotConnected => Failure::NotConnected,
            DispatchError::SinkError(description) => Failure::SinkError(description@),
        }
    }
}

/// The text that stands for a missing session.
pub open spec fn not_connected_message() -> Seq<char> {
    "WhatsApp session not connected"@
}

impl DispatchError {
    /// The message of the error: a fixed text for a missing session, and
    /// the sink's own description for a refused event.
    pub fn message(&self) -> (text: String)
        ensures
            text@ == match self@ {
                Failure::NotConnected => not_connected_message(),
                Failure::SinkError(description) => description,
            },
    {
        match self {
            DispatchError::NotConnected => "WhatsApp session not connected".to_string(),
            DispatchError::SinkError(description) => description.clone(),
        }
    }
}

/// What the caller reports to the dispatcher, as the contracts see it.
pub ghost enum Event {
    Start,
    Delivered(Result<(), Seq<char>>),
    Emitted(Result<(), Seq<char>>),
    Paused,
}

/// What the caller reports to the dispatcher.
pub enum DispatchEvent {
    /// The dispatch is to begin.
    Start,
    /// The delivery that was asked for has ended, well or with a description
    /// of what went wrong.
    Delivered(Result<(), String>),
    /// The sink has taken the event that was handed to it, or refused it.
    Emitted(Result<(), String>),
    /// The pause that was asked for is over.
    Paused,
}

impl View for DispatchEvent {
    type V = Event;

    open spec fn view(&self) -> Event {
        match self {
            DispatchEvent::Start => Event::Start,
            DispatchEvent::Delivered(outcome) => Event::Delivered(outcome_of(*outcome)),
            DispatchEvent::Emitted(outcome) => Event::Emitted(outcome_of(*outcome)),
            DispatchEvent::Paused => Event::Paused,
        }
    }
}

/// What the dispatcher asks of the caller, as the contracts see it.
pub ghost enum Action {
    Deliver { phone: Seq<char>, message: Seq<char>, receipt_path: Option<Seq<char>> },
    EmitProgress(Progress),
    EmitComplete,
    Pause { seconds: u64 },
    Finish(Result<(), Failure>),
}

/// What the dispatcher asks of the caller.
pub enum DispatchAction {
    /// Attempt to deliver `message` to `phone`, with the receipt if one is
    /// named, and report `Delivered`.
    Deliver { phone: String, message: String, receipt_path: Option<String> },
    /// Hand the report to the progress sink, and report `Emitted`.
    EmitProgress(MessageProgress),
    /// Hand the completion event to the progress sink, and report `Emitted`.
    EmitComplete,
    /// Wait for so many seconds, and report `Paused`.
    Pause { seconds: u64 },
    /// The dispatch has ended with this result.
    Finish(Result<(), DispatchError>),
}

impl View for DispatchAction {
    type V = Action;

    open spec fn view(&self) -> Action {
        match self {
            DispatchAction::Deliver { phone, message, receipt_path } => Action::Deliver {
                phone: phone@,
                message: message@,
                receipt_path: text_of(*receipt_path),
            },
            DispatchAction::EmitProgress(report) => Action::EmitProgress(report@),
            DispatchAction::EmitComplete => Action::EmitComplete,
            DispatchAction::Pause { seconds } => Action::Pause { seconds: *seconds },
            DispatchAction::Finish(result) => Action::Finish(
                match result {
                    Ok(_) => Ok(()),
                    Err(error) => Err(error@),
                },
            ),
        }
    }
}

/// A dispatch, as the contracts see it: the batch, the position of the
/// recipient at hand, and the phase.
pub ghost struct DispatchState {
    pub batch: Batch,
    pub cursor: nat,
    pub phase: Phase,
}

/// The state before anything has happened.
pub open spec fn initial(batch: Batch) -> DispatchState {
    DispatchState { batch, cursor: 0, phase: Phase::Ready }
}

/// The delivery that is due to the recipient at position `i`: its message is
/// the template rendered with its tokens, and its receipt goes along only if
/// the batch says so.
pub open spec fn delivery_of(batch: Batch, i: int) -> Action {
    Action::Deliver {
        phone: batch.recipients[i].phone,
        message: render_spec(batch.template, batch.recipients[i].tokens),
        receipt_path: if batch.attach_receipt {
            batch.recipients[i].receipt_path
        } else {
            None
        },
    }
}

/// What follows once the sink has taken the report on the recipient under
/// the cursor: the completion event after the last recipient, else the pause
/// and then the next delivery, or the next delivery at once where the
/// interval is zero.
pub open spec fn after_report(s: DispatchState) -> (DispatchState, Action) {
    if s.cursor + 1 < s.batch.recipients.len() {
        if s.batch.interval_seconds > 0 {
            (
                DispatchState { phase: Phase::Pacing, ..s },
                Action::Pause { seconds: s.batch.interval_seconds },
            )
        } else {
            (
                DispatchState { phase: Phase::Delivering, cursor: (s.cursor + 1) as nat, ..s },
                delivery_of(s.batch, (s.cursor + 1) as int),
            )
        }
    } else {
        (DispatchState { phase: Phase::Completing, ..s }, Action::EmitComplete)
    }
}

/// The end of a dispatch with `result`.
pub open spec fn finish(s: DispatchState, result: Result<(), Failure>) -> (DispatchState, Action) {
    (DispatchState { phase: Phase::Done, ..s }, Action::Finish(result))
}

/// One step of the dispatcher: the state and the action that follow from
/// state `s` on event `e`, or `None` where `s` does not await `e`.
/// `connected` says whether a session is established; only the start asks.
pub open spec fn step_spec(
    connected: bool,
    s: DispatchState,
    e: Event,
) -> Option<(DispatchState, Action)> {
    let n = s.batch.recipients.len();
    match (s.phase, e) {
        (Phase::Ready, Event::Start) => Some(
            if !connected {
                finish(s, Err(Failure::NotConnected))
            } else if n == 0 {
                (DispatchState { phase: Phase::Completing, ..s }, Action::EmitComplete)
            } else {
                (
                    DispatchState { phase: Phase::Delivering, cursor: 0, ..s },
                    delivery_of(s.batch, 0),
                )
            },
        ),
        (Phase::Delivering, Event::Delivered(outcome)) => if s.cursor < n {
            Some(
                (
                    DispatchState { phase: Phase::Reporting, ..s },
                    Action::EmitProgress(progress_of(s.batch, s.cursor as int, outcome)),
                ),
            )
        } else {
            None
        },
        (Phase::Reporting, Event::Emitted(Ok(_))) => Some(after_report(s)),
        (Phase::Reporting, Event::Emitted(Err(description))) => Some(
            finish(s, Err(Failure::SinkError(description))),
        ),
        (Phase::Pacing, Event::Paused) => if s.cursor + 1 < n {
            Some(
                (
                    DispatchState { phase: Phase::Delivering, cursor: (s.cursor + 1) as nat, ..s },
                    delivery_of(s.batch, (s.cursor + 1) as int),
                ),
            )
        } else {
            None
        },
        (Phase::Completing, Event::Emitted(Ok(_))) => Some(finish(s, Ok(()))),
        (Phase::Completing, Event::Emitted(Err(description))) => Some(
            finish(s, Err(Failure::SinkError(description))),
        ),
        _ => None,
    }
}

/// A dispatch of one batch.
pub struct BulkDispatch {
    request: BulkMessageRequest,
    cursor: usize,
    phase: Phase,
}

impl View for BulkDispatch {
    type V = DispatchState;

    closed spec fn view(&self) -> DispatchState {
        DispatchState { batch: self.request@, cursor: self.cursor as nat, phase: self.phase }
    }
}

impl BulkDispatch {
    #[verifier::type_invariant]
    spec fn cursor_in_batch(&self) -> bool {
        match self.phase {
            Phase::Delivering | Phase::Reporting => self.cursor < self.request.students@.len(),
            Phase::Pacing => self.cursor + 1 < self.request.students@.len(),
            _ => true,
        }
    }

    /// A dispatch of `request` that has not begun.
    pub fn new(request: BulkMessageRequest) -> (dispatch: Self)
        ensures
            dispatch@ == initial(request@),
    {
        Self { request, cursor: 0, phase: Phase::Ready }
    }

    /// The phase the dispatch is in.
    pub fn phase(&self) -> (phase: Phase)
        ensures
            phase == self@.phase,
    {
        self.phase
    }

    /// Whether the dispatch has ended.
    pub fn is_done(&self) -> (done: bool)
        ensures
            done == (self@.phase == Phase::Done),
    {
        self.phase == Phase::Done
    }

    /// The delivery that is due to the recipient at position `i`.
    fn delivery(&self, i: usize) -> (action: DispatchAction)
        requires
            i < self.request.students@.len(),
        ensures
            action@ == delivery_of(self@.batch, i as int),
    {
        let student = &self.request.students[i];
        let message = render(self.request.message_template.as_str(), &student.personalization_tokens);
        let receipt_path = if self.request.attach_receipt {
            clone_text(&student.receipt_path)
        } else {
            None
        };
        DispatchAction::Deliver { phone: student.phone.clone(), message, receipt_path }
    }

    /// Takes one step: on an event that the dispatch awaits, moves on and
    /// answers with what is to be done next; on any other event, stays as it
    /// is and answers `None`.
    pub fn step(&mut self, connected: bool, event: DispatchEvent) -> (action: Option<DispatchAction>)
        ensures
            match step_spec(connected, old(self)@, event@) {
                Some((next, act)) => final(self)@ == next && action is Some && action->0@ == act,
                None => final(self)@ == old(self)@ && action is None,
            },
    {
        proof {
            use_type_invariant(&*self);
        }
        let n = self.request.students.len();
        match (self.phase, event) {
            (Phase::Ready, DispatchEvent::Start) => {
                if !connected {
                    self.phase = Phase::Done;
                    Some(DispatchAction::Finish(Err(DispatchError::NotConnected)))
                } else if n == 0 {
                    self.phase = Phase::Completing;
                    Some(DispatchAction::EmitComplete)
                } else {
                    self.cursor = 0;
                    self.phase = Phase::Delivering;
                    Some(self.delivery(0))
                }
            },
            (Phase::Delivering, DispatchEvent::Delivered(outcome)) => {
                self.phase = Phase::Reporting;
                Some(DispatchAction::EmitProgress(self.request.progress(self.cursor, outcome)))
            },
            (Phase::Reporting, DispatchEvent::Emitted(Ok(_))) => {
                if self.cursor + 1 < n {
                    if self.request.interval_seconds > 0 {
                        self.phase = Phase::Pacing;
                        Some(DispatchAction::Pause { seconds: self.request.interval_seconds })
                    } else {
                        self.phase = Phase::Delivering;
                        self.cursor = self.cursor + 1;
                        Some(self.delivery(self.cursor))
                    }
                } else {
                    self.phase = Phase::Completing;
                    Some(DispatchAction::EmitComplete)
                }
            },
            (Phase::Reporting, DispatchEvent::Emitted(Err(description))) => {
                self.phase = Phase::Done;
                Some(DispatchAction::Finish(Err(DispatchError::SinkError(description))))
            },
            (Phase::Pacing, DispatchEvent::Paused) => {
                self.phase = Phase::Delivering;
                self.cursor = self.cursor + 1;
                Some(self.delivery(self.cursor))
            },
            (Phase::Completing, DispatchEvent::Emitted(Ok(_))) => {
                self.phase = Phase::Done;
                Some(DispatchAction::Finish(Ok(())))
            },
            (Phase::Completing, DispatchEvent::Emitted(Err(description))) => {
                self.phase = Phase::Done;
                Some(DispatchAction::Finish(Err(DispatchError::SinkError(description))))
            },
            _ => None,
        }
    }
}

} // verus!
