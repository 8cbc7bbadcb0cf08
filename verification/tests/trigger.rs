use renderdog_automation::workflows::trigger_capture::TriggerAction;
use renderdog_automation::workflows::trigger_capture::TriggerEvent;
use renderdog_automation::workflows::trigger_capture::TriggerState;
use renderdog_automation::workflows::trigger_capture::trigger_step;

fn is_shutdown(a: &TriggerAction) -> bool {
    matches!(a, TriggerAction::Shutdown)
}

#[test]
fn deadline_with_no_ready_message_times_out_with_one_shutdown() {
    // A one-second budget: the caller connects, sends the trigger, polls
    // a few times, and then reports that the deadline elapsed without a
    // new-capture message.
    let events = vec![
        TriggerEvent::Connected,
        TriggerEvent::OtherMessage,
        TriggerEvent::OtherMessage,
        TriggerEvent::OtherMessage,
        TriggerEvent::DeadlineElapsed,
    ];
    let mut state = TriggerState::Connecting;
    let mut shutdowns = 0;
    for ev in events {
        let (next, action) = trigger_step(state, 1, ev);
        if is_shutdown(&action) {
            shutdowns += 1;
        }
        state = next;
    }
    assert!(matches!(state, TriggerState::TimedOut));
    assert_eq!(shutdowns, 1);

    // Terminal states absorb late events without acting again.
    let (next, action) = trigger_step(state, 1, TriggerEvent::OtherMessage);
    assert!(matches!(next, TriggerState::TimedOut));
    assert!(matches!(action, TriggerAction::Idle));
}

#[test]
fn connected_sends_the_trigger_command() {
    let (next, action) = trigger_step(TriggerState::Connecting, 3, TriggerEvent::Connected);
    assert!(matches!(next, TriggerState::WaitingForCapture));
    match action {
        TriggerAction::SendTrigger { num_frames } => assert_eq!(num_frames, 3),
        _ => panic!("expected the trigger command"),
    }
}

#[test]
fn new_capture_completes_with_payload_and_shutdown() {
    let ev = TriggerEvent::NewCapture {
        path: "/tmp/cap_frame_0042.rdc".to_string(),
        frame_number: 42,
        api: "Vulkan".to_string(),
    };
    let (next, action) = trigger_step(TriggerState::WaitingForCapture, 1, ev);
    assert!(is_shutdown(&action));
    match next {
        TriggerState::Completed(r) => {
            assert_eq!(r.capture_path, "/tmp/cap_frame_0042.rdc");
            assert_eq!(r.frame_number, 42);
            assert_eq!(r.api, "Vulkan");
        },
        _ => panic!("expected completion"),
    }
}

#[test]
fn connection_error_fails_from_any_live_state() {
    let (next, action) = trigger_step(
        TriggerState::Connecting,
        1,
        TriggerEvent::ConnectionError("refused".to_string()),
    );
    assert!(is_shutdown(&action));
    match next {
        TriggerState::Failed(m) => assert_eq!(m, "refused"),
        _ => panic!("expected failure"),
    }
    let (next, action) = trigger_step(
        TriggerState::WaitingForCapture,
        1,
        TriggerEvent::ConnectionError("reset".to_string()),
    );
    assert!(is_shutdown(&action));
    assert!(matches!(next, TriggerState::Failed(_)));
}

#[test]
fn waiting_keeps_receiving_on_other_messages() {
    let (next, action) = trigger_step(TriggerState::WaitingForCapture, 1, TriggerEvent::OtherMessage);
    assert!(matches!(next, TriggerState::WaitingForCapture));
    assert!(matches!(action, TriggerAction::Receive));
}
