//! The capture-trigger state machine.
//!
//! The machine drives a live target's control channel: connect, send a
//! trigger command, then receive until a new-capture message arrives or
//! the deadline elapses.  The decisions are a pure transition function
//! from state and event to next state and action; the caller performs
//! the action (connect, send, receive, shut down) and feeds the next
//! event back.  `lemma_shutdown_exactly_once` shows the channel is shut
//! down exactly once on every exit path: success, timeout or failure.
use vstd::prelude::*;

use crate::workflows::TriggerCaptureResponse;

verus! {

#[derive(Debug)]
pub enum TriggerState {
    Connecting,
    WaitingForCapture,
    Completed(TriggerCaptureResponse),
    TimedOut,
    Failed(String),
}

/// What the control channel reported since the last step.
#[derive(Debug)]
pub enum TriggerEvent {
    Connected,
    ConnectionError(String),
    NewCapture { path: String, frame_number: u32, api: String },
    OtherMessage,
    DeadlineElapsed,
}

/// What the caller must do next.
#[derive(Debug)]
pub enum TriggerAction {
    SendTrigger { num_frames: u32 },
    Receive,
    Shutdown,
    Idle,
}

pub open spec fn is_terminal(s: TriggerState) -> bool {
    match s {
        TriggerState::Completed(_) => true,
        TriggerState::TimedOut => true,
        TriggerState::Failed(_) => true,
        _ => false,
    }
}

/// The transition table.  A connection error fails the machine from any
/// live state; the deadline times it out; terminal states absorb every
/// further event without action.
pub open spec fn spec_trigger_step(s: TriggerState, num_frames: u32, ev: TriggerEvent) -> (
    TriggerState,
    TriggerAction,
) {
    if is_terminal(s) {
        (s, TriggerAction::Idle)
    } else {
        match (s, ev) {
            (TriggerState::Connecting, TriggerEvent::Connected) => (
                TriggerState::WaitingForCapture,
                TriggerAction::SendTrigger { num_frames },
            ),
            (TriggerState::Connecting, TriggerEvent::ConnectionError(m)) => (
                TriggerState::Failed(m),
                TriggerAction::Shutdown,
            ),
            (TriggerState::Connecting, TriggerEvent::DeadlineElapsed) => (
                TriggerState::TimedOut,
                TriggerAction::Shutdown,
            ),
            (TriggerState::Connecting, _) => (TriggerState::Connecting, TriggerAction::Idle),
            (TriggerState::WaitingForCapture, TriggerEvent::NewCapture { path, frame_number, api }) => (
                TriggerState::Completed(
                    TriggerCaptureResponse { capture_path: path, frame_number, api },
                ),
                TriggerAction::Shutdown,
            ),
            (TriggerState::WaitingForCapture, TriggerEvent::OtherMessage) => (
                TriggerState::WaitingForCapture,
                TriggerAction::Receive,
            ),
            (TriggerState::WaitingForCapture, TriggerEvent::DeadlineElapsed) => (
                TriggerState::TimedOut,
                TriggerAction::Shutdown,
            ),
            (TriggerState::WaitingForCapture, TriggerEvent::ConnectionError(m)) => (
                TriggerState::Failed(m),
                TriggerAction::Shutdown,
            ),
            (TriggerState::WaitingForCapture, TriggerEvent::Connected) => (
                TriggerState::WaitingForCapture,
                TriggerAction::Idle,
            ),
            (_, _) => (s, TriggerAction::Idle),
        }
    }
}

/// One step of the machine.
pub fn trigger_step(s: TriggerState, num_frames: u32, ev: TriggerEvent) -> (r: (
    TriggerState,
    TriggerAction,
))
    ensures
        r == spec_trigger_step(s, num_frames, ev),
{
    match s {
        TriggerState::Connecting => {
            match ev {
                TriggerEvent::Connected => (
                    TriggerState::WaitingForCapture,
                    TriggerAction::SendTrigger { num_frames },
                ),
                TriggerEvent::ConnectionError(m) => (
                    TriggerState::Failed(m),
                    TriggerAction::Shutdown,
                ),
                TriggerEvent::DeadlineElapsed => (TriggerState::TimedOut, TriggerAction::Shutdown),
                _ => (TriggerState::Connecting, TriggerAction::Idle),
            }
        },
        TriggerState::WaitingForCapture => {
            match ev {
                TriggerEvent::NewCapture { path, frame_number, api } => (
                    TriggerState::Completed(
                        TriggerCaptureResponse { capture_path: path, frame_number, api },
                    ),
                    TriggerAction::Shutdown,
                ),
                TriggerEvent::OtherMessage => (
                    TriggerState::WaitingForCapture,
                    TriggerAction::Receive,
                ),
                TriggerEvent::DeadlineElapsed => (TriggerState::TimedOut, TriggerAction::Shutdown),
                TriggerEvent::ConnectionError(m) => (
                    TriggerState::Failed(m),
                    TriggerAction::Shutdown,
                ),
                TriggerEvent::Connected => (TriggerState::WaitingForCapture, TriggerAction::Idle),
            }
        },
        other => (other, TriggerAction::Idle),
    }
}

/// The run of the machine over a whole event sequence: final state and
/// the actions requested along the way.
pub open spec fn trigger_run(s: TriggerState, num_frames: u32, evs: Seq<TriggerEvent>) -> (
    TriggerState,
    Seq<TriggerAction>,
)
    decreases evs.len(),
{
    if evs.len() == 0 {
        (s, Seq::<TriggerAction>::empty())
    } else {
        let step = spec_trigger_step(s, num_frames, evs[0]);
        let rest = trigger_run(step.0, num_frames, evs.drop_first());
        (rest.0, seq![step.1] + rest.1)
    }
}

pub open spec fn count_shutdowns(acts: Seq<TriggerAction>) -> nat
    decreases acts.len(),
{
    if acts.len() == 0 {
        0
    } else {
        (if acts[0] is Shutdown {
            1nat
        } else {
            0nat
        }) + count_shutdowns(acts.drop_first())
    }
}

/// From a terminal state the machine never moves and never acts.
pub proof fn lemma_run_after_terminal(s: TriggerState, num_frames: u32, evs: Seq<TriggerEvent>)
    requires
        is_terminal(s),
    ensures
        trigger_run(s, num_frames, evs).0 == s,
        count_shutdowns(trigger_run(s, num_frames, evs).1) == 0,
    decreases evs.len(),
{
    if evs.len() > 0 {
        lemma_run_after_terminal(s, num_frames, evs.drop_first());
        assert((seq![TriggerAction::Idle] + trigger_run(s, num_frames, evs.drop_first()).1)
            .drop_first() =~= trigger_run(s, num_frames, evs.drop_first()).1);
    }
}

/// On every exit path the channel is shut down exactly once: a run from
/// a live state requests `Shutdown` exactly once if it ends terminal,
/// and never otherwise.
pub proof fn lemma_shutdown_exactly_once(s: TriggerState, num_frames: u32, evs: Seq<TriggerEvent>)
    requires
        !is_terminal(s),
    ensures
        count_shutdowns(trigger_run(s, num_frames, evs).1) == (if is_terminal(
            trigger_run(s, num_frames, evs).0,
        ) {
            1nat
        } else {
            0nat
        }),
    decreases evs.len(),
{
    if evs.len() > 0 {
        let step = spec_trigger_step(s, num_frames, evs[0]);
        let rest = trigger_run(step.0, num_frames, evs.drop_first());
        assert((seq![step.1] + rest.1).drop_first() =~= rest.1);
        if is_terminal(step.0) {
            assert(step.1 is Shutdown);
            lemma_run_after_terminal(step.0, num_frames, evs.drop_first());
        } else {
            assert(!(step.1 is Shutdown));
            lemma_shutdown_exactly_once(step.0, num_frames, evs.drop_first());
        }
    }
}

} // verus!
