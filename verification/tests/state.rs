//! The shared state of a call: phases, events, the registry entry and pending
//! replies.

use active_call::model::{CallRecordHangupReason, DialDirection};
use active_call::negotiate::CodecType;
use active_call::state::{
    ActiveProxyCallStatus, CallSessionShared, ControllerEvent, MidDialogLeg, ProxyCallEvent,
    ProxyCallPhase, SessionAction,
};

fn session(id: &str) -> CallSessionShared {
    CallSessionShared::new(
        id.to_string(),
        DialDirection::Inbound,
        Some("caller".to_string()),
        Some("callee".to_string()),
        1_000,
    )
}

const ALL: [ProxyCallPhase; 10] = [
    ProxyCallPhase::Initializing,
    ProxyCallPhase::Routing,
    ProxyCallPhase::App,
    ProxyCallPhase::Dialing,
    ProxyCallPhase::Ringing,
    ProxyCallPhase::EarlyMedia,
    ProxyCallPhase::Bridged,
    ProxyCallPhase::Terminating,
    ProxyCallPhase::Failed,
    ProxyCallPhase::Ended,
];

#[test]
fn test_phase_valid_transitions() {
    // Normal call flow
    assert!(ProxyCallPhase::Initializing.can_transition_to(ProxyCallPhase::Ringing));
    assert!(ProxyCallPhase::Ringing.can_transition_to(ProxyCallPhase::EarlyMedia));
    assert!(ProxyCallPhase::EarlyMedia.can_transition_to(ProxyCallPhase::Bridged));
    assert!(ProxyCallPhase::Bridged.can_transition_to(ProxyCallPhase::Terminating));
    assert!(ProxyCallPhase::Terminating.can_transition_to(ProxyCallPhase::Ended));
}

#[test]
fn test_phase_invalid_transitions() {
    assert!(!ProxyCallPhase::Ended.can_transition_to(ProxyCallPhase::Initializing));
    assert!(!ProxyCallPhase::Ended.can_transition_to(ProxyCallPhase::Bridged));
    assert!(!ProxyCallPhase::Bridged.can_transition_to(ProxyCallPhase::Ringing));
    assert!(!ProxyCallPhase::Terminating.can_transition_to(ProxyCallPhase::Bridged));
}

#[test]
fn test_phase_is_terminal() {
    assert!(ProxyCallPhase::Ended.is_terminal());
    assert!(!ProxyCallPhase::Bridged.is_terminal());
    assert!(!ProxyCallPhase::Terminating.is_terminal());
}

#[test]
fn test_transition_to_terminating() {
    let mut shared = session("term-test");
    // Initially Initializing, which may become Terminating
    assert!(shared.transition_to_terminating());
    // Already Terminating
    assert!(!shared.transition_to_terminating());
}

#[test]
fn test_app_event_bridge_sender_is_installed_and_cleared() {
    let mut shared = CallSessionShared::new(
        "app-runtime-test".to_string(),
        DialDirection::Inbound,
        Some("sip:1001@127.0.0.1".to_string()),
        Some("sip:4000@127.0.0.1".to_string()),
        0,
    );
    let probe = || ControllerEvent::Custom("probe".to_string(), "{\"ok\":true}".to_string());

    shared.set_app_event_sender(true);
    assert!(shared.send_app_event(probe()));
    assert_eq!(shared.surface.app_events.as_ref().map(|v| v.len()), Some(1));

    shared.set_app_event_sender(false);
    assert!(!shared.send_app_event(probe()));
}

#[test]
fn no_phase_follows_itself_and_only_the_last_is_final() {
    for phase in ALL {
        assert!(!phase.can_transition_to(phase));
        let followed = ALL.iter().any(|next| phase.can_transition_to(*next));
        assert_eq!(followed, !phase.is_terminal());
    }
}

#[test]
fn phases_are_reported_in_order() {
    let mut shared = session("s");
    shared.set_event_sender();
    assert!(shared.transition_to_routing());
    assert!(!shared.transition_to_routing());
    assert!(shared.transition_to_dialing());
    assert!(shared.transition_to_ringing(false, 5_000));
    shared.transition_to_answered(9_000);
    shared.mark_hangup(CallRecordHangupReason::ByCaller);
    let phases: Vec<String> = shared
        .take_events()
        .iter()
        .map(|e| match e {
            ProxyCallEvent::PhaseChanged { phase, .. } => format!("{:?}", phase),
            ProxyCallEvent::Hangup { reason, .. } => format!("{:?}", reason),
            other => format!("{:?}", other),
        })
        .collect();
    assert_eq!(
        phases,
        vec![
            "Routing",
            "Dialing",
            "Ringing",
            "Bridged",
            "Ended",
            "Some(ByCaller)"
        ]
    );
    assert!(shared.take_events().is_empty());
}

#[test]
fn times_are_set_by_the_first_alert_and_answer() {
    let mut shared = session("s");
    assert!(shared.transition_to_ringing(true, 5_000));
    assert!(shared.transition_to_ringing(false, 6_000));
    assert_eq!(shared.snapshot().ring_time, Some(5_000));
    assert_eq!(shared.snapshot().phase, ProxyCallPhase::Ringing);
    shared.transition_to_answered(9_000);
    shared.transition_to_answered(10_000);
    assert_eq!(shared.snapshot().answer_time, Some(9_000));
    assert!(!shared.transition_to_ringing(false, 11_000));
}

#[test]
fn failure_does_not_tear_an_answered_call_down() {
    let mut shared = session("s");
    shared.transition_to_answered(9_000);
    shared.note_failure(488, Some("not here".to_string()));
    assert_eq!(shared.snapshot().phase, ProxyCallPhase::Bridged);
    assert_eq!(shared.snapshot().last_error_code, Some(488));

    let mut other = session("t");
    other.note_failure(486, None);
    assert_eq!(other.snapshot().phase, ProxyCallPhase::Failed);
    let told = other.rwi_hangup_event();
    assert_eq!(told.sip_status, Some(486));
    assert_eq!(told.reason, None);
}

#[test]
fn ended_call_is_told_with_its_reason() {
    let mut shared = session("s");
    shared.mark_hangup(CallRecordHangupReason::ByCallee);
    let told = shared.rwi_hangup_event();
    assert_eq!(told.call_id, "s");
    assert_eq!(told.sip_status, Some(200));
    assert_eq!(told.reason, Some("callee".to_string()));
    assert!(!shared.transition_to_terminating());
    assert!(!shared.transition_to_ringing(false, 1));
}

#[test]
fn queue_changes_are_reported() {
    let mut shared = session("s");
    shared.set_event_sender();
    shared.set_queue_name(Some("a".to_string()));
    shared.set_queue_name(Some("a".to_string()));
    shared.set_queue_name(Some("b".to_string()));
    shared.set_queue_name(None);
    let seen: Vec<String> = shared
        .take_events()
        .iter()
        .map(|e| match e {
            ProxyCallEvent::QueueEntered { name, .. } => format!("+{}", name),
            ProxyCallEvent::QueueLeft { name, .. } => format!("-{}", name.as_deref().unwrap()),
            other => format!("{:?}", other),
        })
        .collect();
    assert_eq!(seen, vec!["+a", "-a", "+b", "-b"]);
    assert_eq!(shared.queue_name(), None);
}

#[test]
fn new_target_is_reported_once() {
    let mut shared = session("s");
    shared.set_event_sender();
    shared.set_current_target(Some("sip:a@x".to_string()));
    shared.set_current_target(Some("sip:a@x".to_string()));
    let events = shared.take_events();
    assert_eq!(events.len(), 1);
    assert!(matches!(
        &events[0],
        ProxyCallEvent::TargetRinging { target: Some(t), .. } if t == "sip:a@x"
    ));
}

#[test]
fn registry_entry_follows_the_call() {
    let mut shared = session("s");
    shared.register_active_call();
    assert_eq!(
        shared.entry.as_ref().unwrap().status,
        ActiveProxyCallStatus::Ringing
    );
    shared.update_routed_parties(None, Some("routed".to_string()));
    assert_eq!(
        shared.entry.as_ref().unwrap().callee.as_deref(),
        Some("routed")
    );
    assert_eq!(
        shared.entry.as_ref().unwrap().caller.as_deref(),
        Some("caller")
    );
    shared.transition_to_answered(2_000);
    let entry = shared.entry.as_ref().unwrap();
    assert_eq!(entry.status, ActiveProxyCallStatus::Talking);
    assert_eq!(entry.answered_at, Some(2_000));
    shared.unregister();
    assert!(shared.entry.is_none());
}

#[test]
fn pending_reply_is_taken_once() {
    let mut shared = session("s");
    shared.store_mid_dialog_reply(MidDialogLeg::Caller, "d", 1);
    shared.store_mid_dialog_reply(MidDialogLeg::Callee, "d", 2);
    shared.store_mid_dialog_reply(MidDialogLeg::Caller, "d", 3);
    assert_eq!(
        shared.take_mid_dialog_reply(MidDialogLeg::Caller, "d"),
        Some(3)
    );
    assert_eq!(
        shared.take_mid_dialog_reply(MidDialogLeg::Caller, "d"),
        None
    );
    assert_eq!(
        shared.take_mid_dialog_reply(MidDialogLeg::Callee, "d"),
        Some(2)
    );
    assert_eq!(MidDialogLeg::Caller.pending_key("d"), "caller:d");
    assert_eq!(MidDialogLeg::Callee.pending_key("d"), "callee:d");
}

#[test]
fn published_media_is_kept() {
    let mut shared = session("s");
    shared.publish_exported_leg_media(Some("o".to_string()), None, None, Some(7), true);
    assert!(shared.surface.media.published);
    assert!(shared.surface.media.is_bridged);
    assert_eq!(shared.surface.media.ssrc, Some(7));
    shared.set_answer_sdp("answer".to_string());
    assert_eq!(shared.answer_sdp().as_deref(), Some("answer"));
    assert_eq!(shared.session_id(), "s");
}

#[test]
fn transfer_targets_are_trimmed() {
    assert!(matches!(
        SessionAction::from_transfer_target("  sip:bob@x "),
        SessionAction::TransferTarget(t) if t == "sip:bob@x"
    ));
}

#[test]
fn codec_constants() {
    assert_eq!(CodecType::PCMU.payload_type(), 0);
    assert_eq!(CodecType::PCMA.payload_type(), 8);
    assert_eq!(CodecType::G722.payload_type(), 9);
    assert_eq!(CodecType::G729.payload_type(), 18);
    assert_eq!(CodecType::Opus.clock_rate(), 48000);
    assert_eq!(CodecType::Opus.channels(), 2);
    assert_eq!(CodecType::from_payload_type(9), Some(CodecType::G722));
    assert_eq!(CodecType::from_payload_type(50), None);
    assert!(CodecType::Opus.is_dynamic());
    assert!(!CodecType::PCMU.is_dynamic());
}
