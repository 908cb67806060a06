//! The session of a call: failures, commands, renegotiation and teardown.

use active_call::bridge_runtime::ForwardingScope;
use active_call::media_endpoint::MediaConfig;
use active_call::model::{
    CallForwardingConfig, CallForwardingMode, CallRecordHangupReason, DialDirection, DialStrategy,
    Dialplan, DialplanFlow, MediaProxyMode, QueuePlan, RecordingConfig, RingbackConfig,
    RingbackMode, SupervisorMode, TransferEndpoint,
};
use active_call::negotiate::CodecType;
use active_call::sdp_direction::{
    media_direction_from_sdp, rewrite_sdp_direction, trickled_candidates, MediaDirection,
};
use active_call::session::{
    current_codec, reinvite_method, ActionPlan, CallSession, CallerCleanup, ForwardingChange,
    TerminationState,
};
use active_call::sip::{Header, InviteOption, Method, SipAddr, Transport, Uri};
use active_call::sip_leg::{DialogId, DialogPhase, InboundHangup, ServerDialog};
use active_call::state::{
    CallContext, CallSessionShared, MidDialogLeg, ProxyCallEvent, ProxyCallPhase, SessionAction,
    SessionKind,
};

const OFFER: &str = "v=0\r\n\
    o=- 1 1 IN IP4 10.0.0.1\r\n\
    s=-\r\n\
    c=IN IP4 10.0.0.1\r\n\
    t=0 0\r\n\
    m=audio 4000 RTP/AVP 8 0 101\r\n\
    a=rtpmap:8 PCMA/8000\r\n\
    a=rtpmap:0 PCMU/8000\r\n\
    a=rtpmap:101 telephone-event/8000\r\n\
    a=sendrecv\r\n";

const ANSWER: &str = "v=0\r\n\
    o=- 2 2 IN IP4 10.0.0.2\r\n\
    s=-\r\n\
    c=IN IP4 10.0.0.2\r\n\
    t=0 0\r\n\
    m=audio 5000 RTP/AVP 0\r\n\
    a=rtpmap:0 PCMU/8000\r\n\
    a=sendrecv\r\n";

fn uri(user: &str, host: &str) -> Uri {
    Uri {
        scheme: "sip:".to_string(),
        user: Some(user.to_string()),
        password: None,
        host: host.to_string(),
        port: None,
        params: String::new(),
    }
}

fn plan() -> Dialplan {
    Dialplan {
        direction: DialDirection::Inbound,
        session_id: Some("s1".to_string()),
        call_id: None,
        caller_display_name: None,
        caller: Some(uri("alice", "a.com")),
        caller_contact: None,
        flow: DialplanFlow::Targets(DialStrategy::Sequential(Vec::new())),
        max_ring_time: 60,
        recording: RecordingConfig {
            enabled: false,
            auto_start: false,
            option: None,
        },
        ringback: RingbackConfig {
            mode: RingbackMode::Auto,
            audio_file: None,
            loop_playback: false,
        },
        max_call_duration: None,
        call_timeout: 60_000,
        call_forwarding: None,
        voicemail_enabled: false,
        allow_codecs: vec![CodecType::PCMU, CodecType::PCMA],
        passthrough_failure: false,
        media_proxy: MediaProxyMode::Auto,
        enable_sipflow: true,
    }
}

fn media_config() -> MediaConfig {
    MediaConfig {
        external_ip: None,
        rtp_start_port: None,
        rtp_end_port: None,
        webrtc_port_start: None,
        webrtc_port_end: None,
        enable_latching: false,
    }
}

fn context(kind: SessionKind) -> CallContext {
    CallContext {
        session_id: "s1".to_string(),
        kind,
        dialplan: plan(),
        cookie_max_duration: Some(9_000),
        start_time: 0,
        media_config: media_config(),
        original_caller: "alice".to_string(),
        original_callee: "bob".to_string(),
        max_forwards: 69,
    }
}

fn dialog(call_id: &str) -> DialogId {
    DialogId {
        call_id: call_id.to_string(),
        local_tag: "l".to_string(),
        remote_tag: "r".to_string(),
    }
}

fn session(kind: SessionKind) -> CallSession {
    let shared = CallSessionShared::new(
        "s1".to_string(),
        DialDirection::Inbound,
        Some("alice".to_string()),
        Some("bob".to_string()),
        0,
    );
    CallSession::new(
        context(kind),
        Some(ServerDialog {
            id: dialog("in"),
            phase: DialogPhase::Pending,
        }),
        Some(OFFER.to_string()),
        true,
        None,
        shared,
        0,
    )
}

fn proxy() -> CallSession {
    let mut s = session(SessionKind::Proxy);
    s.ensure_target_leg(0);
    s
}

fn apply(s: &mut CallSession, action: SessionAction) -> ActionPlan {
    s.apply_session_action(action, None, &vec!["other".to_string()], 1_000)
}

#[test]
fn media_is_proxied_as_the_mode_says() {
    let webrtc = "m=audio 1 UDP/TLS/RTP/SAVPF 0";
    let check = CallSession::check_media_proxy;
    assert!(check(true, OFFER, MediaProxyMode::Disabled, false));
    assert!(check(false, OFFER, MediaProxyMode::All, false));
    assert!(!check(false, OFFER, MediaProxyMode::Disabled, true));
    assert!(!check(false, OFFER, MediaProxyMode::Nat, true));
    assert!(check(false, OFFER, MediaProxyMode::Auto, true));
    assert!(!check(false, OFFER, MediaProxyMode::Auto, false));
    assert!(check(false, webrtc, MediaProxyMode::Auto, false));
    assert!(!check(false, webrtc, MediaProxyMode::Auto, true));
}

#[test]
fn failures_are_listed_and_reported() {
    let mut s = proxy();
    s.shared.set_event_sender();
    s.note_attempt_failure(480, Some("away".to_string()), Some("sip:b@x".to_string()));
    assert!(s.last_error.is_none());
    s.set_error(486, Some("busy".to_string()), None);
    assert_eq!(s.last_error, Some((486, Some("busy".to_string()))));
    assert_eq!(s.hangup_reason, Some(CallRecordHangupReason::Failed));
    assert_eq!(s.hangup_messages.len(), 2);
    assert_eq!(s.hangup_messages[0].target.as_deref(), Some("sip:b@x"));
    assert!(s.failure_is_busy());
    assert!(!s.failure_is_no_answer());
    let events = s.shared.take_events();
    assert_eq!(events.len(), 3);
    assert!(matches!(
        &events[1],
        ProxyCallEvent::TargetFailed { code: Some(486), .. }
    ));
    assert!(matches!(
        &events[2],
        ProxyCallEvent::PhaseChanged { phase: ProxyCallPhase::Failed, .. }
    ));
}

#[test]
fn no_answer_counts_only_before_the_answer() {
    let mut s = proxy();
    s.set_error(408, None, None);
    assert!(s.failure_is_no_answer());
    s.answer_time = Some(1);
    assert!(!s.failure_is_no_answer());
    assert!(s.is_answered());
}

#[test]
fn routed_parties_are_noted() {
    let mut s = proxy();
    s.shared.set_event_sender();
    s.note_invite_details(&InviteOption {
        caller_display_name: None,
        caller: uri("alice", "gw"),
        callee: uri("bob", "gw"),
        contact: uri("pbx", "gw"),
        content_type: None,
        offer: None,
        destination: Some(SipAddr {
            transport: Some(Transport::Udp),
            host: "10.0.0.9".to_string(),
            port: Some(5060),
        }),
        credential: None,
        headers: None,
        call_id: None,
    });
    assert_eq!(s.routed_caller.as_deref(), Some("sip:alice@gw"));
    assert_eq!(s.routed_destination.as_deref(), Some("UDP 10.0.0.9:5060"));
    assert_eq!(s.shared.snapshot().callee.as_deref(), Some("sip:bob@gw"));
    assert_eq!(s.shared.take_events().len(), 1);
    let record = s.record_snapshot();
    assert_eq!(record.routed_contact.as_deref(), Some("sip:pbx@gw"));
    assert_eq!(record.original_callee.as_deref(), Some("bob"));
    assert_eq!(record.server_dialog_id, Some(dialog("in")));
}

#[test]
fn failed_setup_is_recorded() {
    let record = proxy().report_failure(503, Some("full".to_string()), dialog("in"));
    assert_eq!(record.last_error, Some((503, Some("full".to_string()))));
    assert_eq!(record.hangup_messages.len(), 1);
    assert_eq!(record.hangup_reason, Some(CallRecordHangupReason::Failed));
}

#[test]
fn retry_codes_come_from_the_queue() {
    let mut s = proxy();
    assert!(s.get_retry_codes().is_none());
    s.context.dialplan.flow = DialplanFlow::Queue {
        plan: QueuePlan {
            label: None,
            accept_immediately: false,
            hold: None,
            dial_strategy: None,
            retry_codes: Some(vec![486]),
            no_trying_timeout: None,
        },
        next: Box::new(DialplanFlow::Targets(DialStrategy::Parallel(Vec::new()))),
    };
    assert_eq!(s.get_retry_codes(), Some(&vec![486]));
}

#[test]
fn forwarding_is_immediate_or_timed() {
    let mut s = proxy();
    assert!(s.immediate_forwarding_config().is_none());
    s.context.dialplan.call_forwarding = Some(CallForwardingConfig {
        mode: CallForwardingMode::Always,
        endpoint: TransferEndpoint::Uri("sip:x@y".to_string()),
        timeout: 20,
    });
    assert!(s.immediate_forwarding_config().is_some());
    assert_eq!(s.forwarding_timeout(), None);
    s.context.dialplan.call_forwarding = Some(CallForwardingConfig {
        mode: CallForwardingMode::WhenNoAnswer,
        endpoint: TransferEndpoint::Uri("sip:x@y".to_string()),
        timeout: 20,
    });
    assert!(s.immediate_forwarding_config().is_none());
    assert_eq!(s.forwarding_timeout(), Some(20));
}

#[test]
fn requested_hangups_give_code_and_text() {
    let mut s = proxy();
    assert_eq!(
        s.resolve_pending_hangup(),
        (
            487,
            Some("Cancelled by system".to_string()),
            Some(CallRecordHangupReason::Canceled)
        )
    );
    s.store_pending_hangup(
        Some(CallRecordHangupReason::ByCaller),
        Some(603),
        Some("console".to_string()),
    );
    assert_eq!(
        s.resolve_pending_hangup(),
        (
            603,
            Some("Cancelled by console (caller)".to_string()),
            Some(CallRecordHangupReason::ByCaller)
        )
    );
    assert!(s.pending_hangup.is_none());
    s.store_pending_hangup(None, Some(200), Some("x".to_string()));
    assert_eq!(
        s.resolve_pending_hangup(),
        (487, Some("Cancelled by x".to_string()), None)
    );
    s.store_pending_hangup(Some(CallRecordHangupReason::NoAnswer), None, None);
    assert_eq!(
        s.resolve_pending_hangup().1.as_deref(),
        Some("Cancelled (noAnswer)")
    );
    s.store_pending_hangup(None, None, None);
    assert_eq!(
        s.resolve_pending_hangup().1.as_deref(),
        Some("Cancelled by controller")
    );
    assert_eq!(CallSession::status_code_for_value(486), Some(486));
    assert_eq!(CallSession::status_code_for_value(481), None);
}

#[test]
fn directions_are_mirrored_in_answers() {
    assert_eq!(media_direction_from_sdp(OFFER), MediaDirection::SendRecv);
    let held = OFFER.replace("a=sendrecv", "a=sendonly");
    assert_eq!(media_direction_from_sdp(&held), MediaDirection::SendOnly);
    assert_eq!(
        media_direction_from_sdp("v=0\r\na=inactive"),
        MediaDirection::Inactive
    );
    assert_eq!(MediaDirection::SendOnly.mirror(), MediaDirection::RecvOnly);
    for d in [
        MediaDirection::SendRecv,
        MediaDirection::SendOnly,
        MediaDirection::RecvOnly,
        MediaDirection::Inactive,
    ] {
        assert_eq!(d.mirror().mirror(), d);
    }
    let answer = rewrite_sdp_direction(ANSWER, &held);
    assert_eq!(answer.matches("a=recvonly\r\n").count(), 1);
    assert!(!answer.contains("a=sendrecv"));
}

#[test]
fn rewritten_direction_is_read_back_and_kept() {
    for (line, mirrored) in [
        ("a=sendrecv", MediaDirection::SendRecv),
        ("a=sendonly", MediaDirection::RecvOnly),
        ("a=recvonly", MediaDirection::SendOnly),
        ("a=inactive", MediaDirection::Inactive),
    ] {
        let offer = OFFER.replace("a=sendrecv", line);
        let once = rewrite_sdp_direction(ANSWER, &offer);
        assert_eq!(media_direction_from_sdp(&once), mirrored);
        assert_eq!(rewrite_sdp_direction(&once, &offer), once);
    }
}

#[test]
fn candidates_are_read_from_fragments() {
    assert_eq!(
        trickled_candidates("a=mid:0\r\na=candidate:1 1 UDP\r\n\r\ncandidate: 2 1 TCP \r\n"),
        vec!["1 1 UDP", "2 1 TCP"]
    );
    assert!(trickled_candidates("").is_empty());
}

#[test]
fn callee_offers_are_answered_or_refused() {
    let mut s = proxy();
    s.shared
        .store_mid_dialog_reply(MidDialogLeg::Callee, "d", 5);
    // Nothing has been negotiated.
    let r = s.handle_reinvite(
        MidDialogLeg::Callee,
        Method::Invite,
        "d",
        Some(ANSWER.to_string()),
        true,
    );
    let reply = r.reply.unwrap();
    assert_eq!((reply.handle, reply.status), (5, 488));
    assert!(r.forwarding.is_none());

    s.setup_target_track(ANSWER);
    let leg = s.target_leg.as_ref().unwrap();
    assert_eq!(leg.media.answer_sdp.as_deref(), Some(ANSWER));
    assert!(s.offer_supports_current_callee_codec(OFFER));
    let held = ANSWER.replace("a=sendrecv", "a=sendonly");
    s.shared
        .store_mid_dialog_reply(MidDialogLeg::Callee, "d", 6);
    let r = s.handle_reinvite(
        MidDialogLeg::Callee,
        Method::Invite,
        "d",
        Some(held.clone()),
        true,
    );
    let reply = r.reply.unwrap();
    assert_eq!((reply.handle, reply.status), (6, 200));
    assert!(reply.body.unwrap().contains("a=recvonly"));
    assert_eq!(
        r.forwarding,
        Some(ForwardingChange::Suppress(ForwardingScope::ExportedLeg))
    );
    assert_eq!(
        s.target_leg.as_ref().unwrap().media.offer_sdp.as_deref(),
        Some(held.as_str())
    );
    // It has been answered.
    let again = s.handle_reinvite(MidDialogLeg::Callee, Method::Update, "d", None, true);
    assert!(again.reply.is_none());

    let only_opus = ANSWER.replace("PCMU/8000", "opus/48000/2");
    assert!(!s.offer_supports_current_callee_codec(&only_opus));
}

#[test]
fn caller_offers_are_sent_on() {
    let mut s = proxy();
    s.set_answer("answer".to_string());
    if let Some(leg) = s.target_leg.as_mut() {
        leg.sip.set_connected_dialog(dialog("out"));
    }
    s.shared
        .store_mid_dialog_reply(MidDialogLeg::Caller, "d", 1);
    let r = s.handle_reinvite(
        MidDialogLeg::Caller,
        Method::Invite,
        "d",
        Some(OFFER.to_string()),
        true,
    );
    let reply = r.reply.unwrap();
    assert_eq!(reply.status, 200);
    assert_eq!(reply.body.as_deref(), Some("answer"));
    let forwarded = r.forward_offer.unwrap();
    assert_eq!(forwarded.dialog_id, dialog("out"));
    assert!(forwarded.as_invite);

    s.shared
        .store_mid_dialog_reply(MidDialogLeg::Caller, "d", 2);
    let r = s.handle_reinvite(
        MidDialogLeg::Caller,
        Method::Update,
        "d",
        Some(OFFER.to_string()),
        false,
    );
    assert_eq!(r.reply.unwrap().status, 488);
    assert!(r.forward_offer.is_none());

    s.shared
        .store_mid_dialog_reply(MidDialogLeg::Caller, "d", 3);
    let r = s.handle_reinvite(MidDialogLeg::Caller, Method::Update, "d", None, true);
    let reply = r.reply.unwrap();
    assert_eq!((reply.status, reply.body), (200, None));
}

#[test]
fn answer_is_recalled_from_the_shared_state() {
    let mut s = proxy();
    s.shared.set_answer_sdp("early".to_string());
    s.recall_answer();
    assert_eq!(s.exported_leg.media.answer_sdp.as_deref(), Some("early"));
}

#[test]
fn hangup_ends_the_call_and_is_kept() {
    let mut s = proxy();
    let plan = apply(
        &mut s,
        SessionAction::Hangup {
            reason: Some(CallRecordHangupReason::BySystem),
            code: Some(486),
            initiator: Some("console".to_string()),
        },
    );
    assert!(matches!(
        plan,
        ActionPlan::EndCall(InboundHangup::Reject(486, Some(t))) if t == "BySystem"
    ));
    assert_eq!(s.shared.snapshot().phase, ProxyCallPhase::Ended);
    assert_eq!(s.hangup_reason, Some(CallRecordHangupReason::BySystem));
    assert_eq!(s.resolve_pending_hangup().0, 486);
}

#[test]
fn commands_of_a_proxied_call() {
    let mut s = proxy();
    assert!(matches!(
        apply(&mut s, SessionAction::AcceptCall { callee: None, sdp: None, dialog_id: None }),
        ActionPlan::Accept { .. }
    ));
    assert!(matches!(
        apply(&mut s, SessionAction::StartRinging { ringback: None, passthrough: true }),
        ActionPlan::Ring(t) if t.is_empty()
    ));
    assert!(matches!(
        apply(&mut s, SessionAction::TransferTarget("x".to_string())),
        ActionPlan::TransferToUri(t) if t == "x"
    ));
    let to_queue = s.apply_session_action(
        SessionAction::TransferTarget("queue:1".to_string()),
        Some(TransferEndpoint::Queue("1".to_string())),
        &Vec::new(),
        0,
    );
    assert!(matches!(
        to_queue,
        ActionPlan::TransferTo(TransferEndpoint::Queue(q)) if q == "1"
    ));
    assert!(matches!(
        apply(&mut s, SessionAction::HandleTrickleIce("candidate:1".to_string())),
        ActionPlan::AddCandidates(v) if v == vec!["1"]
    ));
    assert!(matches!(
        apply(&mut s, SessionAction::StopPlayback),
        ActionPlan::RemoveTrack(t) if t == "prompt"
    ));
    assert!(matches!(
        apply(&mut s, SessionAction::Hold { music_source: Some("m.wav".to_string()) }),
        ActionPlan::Play { track_id, loop_playback: true, .. } if track_id == "hold_music"
    ));
    assert!(matches!(
        apply(&mut s, SessionAction::Hold { music_source: Some(String::new()) }),
        ActionPlan::Nothing
    ));
    assert!(matches!(
        apply(&mut s, SessionAction::Unhold),
        ActionPlan::RemoveTrack(t) if t == "hold_music"
    ));
    assert!(matches!(
        apply(&mut s, SessionAction::BridgeTo { target_session_id: "nobody".to_string() }),
        ActionPlan::SessionNotFound(t) if t == "nobody"
    ));
    assert!(matches!(
        apply(&mut s, SessionAction::BridgeTo { target_session_id: "other".to_string() }),
        ActionPlan::Nothing
    ));
    assert!(matches!(
        apply(&mut s, SessionAction::Unbridge),
        ActionPlan::StopBridge(false)
    ));
    assert!(matches!(
        apply(
            &mut s,
            SessionAction::StartSupervisorMode {
                supervisor_session_id: "a".to_string(),
                target_session_id: "b".to_string(),
                mode: SupervisorMode::Listen,
            }
        ),
        ActionPlan::Nothing
    ));
}

#[test]
fn methods_are_read_in_capital_letters() {
    let mut s = proxy();
    let reinvite = |method: &str| SessionAction::HandleReInvite {
        leg: MidDialogLeg::Caller,
        method: method.to_string(),
        sdp: None,
        dialog_id: "d".to_string(),
    };
    assert!(matches!(
        apply(&mut s, reinvite("update")),
        ActionPlan::ReInvite { method: Method::Update, .. }
    ));
    assert!(matches!(
        apply(&mut s, reinvite("INVITE")),
        ActionPlan::ReInvite { method: Method::Invite, .. }
    ));
    assert_eq!(reinvite_method("UPDATE"), Method::Update);
    assert_eq!(reinvite_method("update"), Method::Invite);
}

#[test]
fn prompts_without_a_track_get_a_random_one() {
    let mut s = proxy();
    let prompt = |track_id: Option<String>| SessionAction::PlayPrompt {
        audio_file: "p.wav".to_string(),
        send_progress: false,
        await_completion: true,
        track_id,
        loop_playback: false,
        interrupt_on_dtmf: false,
    };
    let mut ids: Vec<String> = Vec::new();
    for _ in 0..2 {
        match apply(&mut s, prompt(None)) {
            ActionPlan::Play { track_id, .. } => ids.push(track_id),
            other => panic!("{:?}", other),
        }
    }
    assert_eq!(ids[0].len(), 36);
    assert_ne!(ids[0], ids[1]);
    assert!(matches!(
        apply(&mut s, prompt(Some("t".to_string()))),
        ActionPlan::Play { track_id, .. } if track_id == "t"
    ));
}

#[test]
fn recordings_are_timed() {
    let mut s = proxy();
    let start = SessionAction::StartRecording {
        path: "r.wav".to_string(),
        max_duration: None,
        beep: false,
    };
    assert!(matches!(apply(&mut s, start.clone()), ActionPlan::StartRecorder(p) if p == "r.wav"));
    assert_eq!(s.recording_state, Some(("r.wav".to_string(), 1_000)));
    let stopped = s.apply_session_action(SessionAction::StopRecording, None, &Vec::new(), 3_500);
    assert!(matches!(stopped, ActionPlan::StopRecorder(None)));

    s.app_listens = true;
    apply(&mut s, start);
    let stopped = s.apply_session_action(SessionAction::StopRecording, None, &Vec::new(), 3_500);
    assert!(matches!(
        stopped,
        ActionPlan::StopRecorder(Some(i)) if i.duration == 2_500 && i.path == "r.wav"
    ));
    assert!(s.recording_state.is_none());
}

#[test]
fn supervisors_join_existing_sessions() {
    let mut s = proxy();
    let listen = |id: &str| SessionAction::SupervisorListen {
        target_session_id: id.to_string(),
    };
    assert!(matches!(apply(&mut s, listen("nobody")), ActionPlan::Nothing));
    assert!(matches!(apply(&mut s, listen("other")), ActionPlan::StartMixer));
    let mixer = s.bridge_runtime.supervisor_mixer.as_ref().unwrap();
    assert_eq!(mixer.id, "supervisor-s1-other");
    assert_eq!(mixer.mode, SupervisorMode::Listen);
    assert!(matches!(
        apply(&mut s, SessionAction::SupervisorStop),
        ActionPlan::StopMixer(true)
    ));
    assert!(matches!(
        apply(&mut s, SessionAction::SupervisorStop),
        ActionPlan::StopMixer(false)
    ));
}

#[test]
fn originated_sessions_drive_their_callee() {
    let mut s = session(SessionKind::RwiSingleLeg);
    assert!(s.drives_callee());
    assert!(matches!(
        apply(&mut s, SessionAction::TransferTarget("x".to_string())),
        ActionPlan::Refer(_)
    ));
    assert!(matches!(
        apply(&mut s, SessionAction::Hold { music_source: None }),
        ActionPlan::HoldCallee(None)
    ));
    assert!(matches!(
        apply(&mut s, SessionAction::Unhold),
        ActionPlan::UnholdCallee
    ));
    assert!(!proxy().drives_callee());
}

#[test]
fn callers_are_refused_or_told_goodbye() {
    let mut s = proxy();
    assert!(matches!(
        s.caller_cleanup(),
        CallerCleanup::Reject(500, Some(t)) if t == "Call failed"
    ));
    s.context.dialplan.passthrough_failure = true;
    s.set_error(404, Some("nobody".to_string()), None);
    assert!(matches!(
        s.caller_cleanup(),
        CallerCleanup::Reject(404, Some(t)) if t == "nobody"
    ));
    s.hangup_reason = Some(CallRecordHangupReason::ByCallee);
    s.exported_leg.set_server_dialog(ServerDialog {
        id: dialog("in"),
        phase: DialogPhase::Confirmed,
    });
    assert!(matches!(s.caller_cleanup(), CallerCleanup::Bye));
    s.exported_leg.set_server_dialog(ServerDialog {
        id: dialog("in"),
        phase: DialogPhase::Terminated,
    });
    assert!(matches!(s.caller_cleanup(), CallerCleanup::Nothing));
}

#[test]
fn teardown_waits_for_the_dialogs() {
    let mut s = proxy();
    s.add_callee_dialog(dialog("out"));
    s.store_pending_hangup(Some(CallRecordHangupReason::ByCaller), Some(200), None);
    let plan = s.enter_terminating(10_000);
    assert!(!plan.stop_bridge);
    assert_eq!(plan.callee_dialogs, vec![dialog("out")]);
    assert!(matches!(plan.caller, CallerCleanup::Reject(500, _)));
    assert_eq!(s.shared.snapshot().phase, ProxyCallPhase::Failed);
    assert_eq!(s.hangup_reason, Some(CallRecordHangupReason::Failed));
    assert!(!s.can_finalize_termination());
    assert!(!s.is_termination_complete(12_999));
    assert!(s.is_termination_complete(13_000));

    s.exported_leg.set_server_dialog(ServerDialog {
        id: dialog("in"),
        phase: DialogPhase::Terminated,
    });
    if let Some(leg) = s.target_leg.as_mut() {
        leg.sip.remove_dialog(&dialog("out"));
    }
    assert!(s.is_termination_complete(10_001));

    let record = s.finalize_session().unwrap();
    assert_eq!(record.last_error.unwrap().0, 487);
    assert_eq!(record.target_dialogs, vec![dialog("out")]);
    assert_eq!(s.shared.snapshot().phase, ProxyCallPhase::Ended);
    // The call is not reported again.
    let (told, again) = s.close();
    assert!(again.is_none());
    assert_eq!(told.sip_status, Some(487));
    assert!(s.shared.entry.is_none());
}

#[test]
fn known_reason_stays_through_the_teardown() {
    let mut s = proxy();
    s.hangup_reason = Some(CallRecordHangupReason::ByCallee);
    s.enter_terminating(0);
    assert_eq!(s.hangup_reason, Some(CallRecordHangupReason::ByCallee));
    assert!(s.last_error.is_none());
    assert_eq!(s.shared.snapshot().phase, ProxyCallPhase::Terminating);
    let (_, record) = s.close();
    assert_eq!(
        record.unwrap().hangup_reason,
        Some(CallRecordHangupReason::ByCallee)
    );
    let t = TerminationState::new(3, 1_000);
    assert_eq!(t.grace_deadline, 4_000);
}

#[test]
fn cancelled_session_notes_its_hangup() {
    let mut s = proxy();
    s.note_cancelled();
    assert_eq!(
        s.last_error,
        Some((487, Some("Cancelled by system".to_string())))
    );
    assert_eq!(s.hangup_reason, Some(CallRecordHangupReason::Canceled));
}

#[test]
fn calls_last_as_long_as_their_plan_says() {
    let mut s = proxy();
    assert_eq!(s.max_duration(), Some(9_000));
    s.context.dialplan.max_call_duration = Some(1);
    assert_eq!(s.max_duration(), Some(1));
}

#[test]
fn session_timer_is_set_where_timers_are_in_use() {
    let short = vec![Header::Other("Session-Expires".to_string(), "30".to_string())];
    let mut s = proxy();
    assert_eq!(s.init_server_timer(false, None, &short), Ok(()));
    assert_eq!(s.init_server_timer(true, None, &short), Err(422));
    assert_eq!(s.init_server_timer(true, None, &Vec::new()), Ok(()));
    assert_eq!(s.exported_leg.sip.session_timer.session_interval, 1800);
}

#[test]
fn legs_are_bridged_once_with_the_callees_codec() {
    let mut s = proxy();
    s.ensure_media_bridge_from_sdp(ANSWER, true);
    let bridge = s.bridge_runtime.media_bridge.as_ref().unwrap();
    assert_eq!(bridge.codec_a, CodecType::PCMU);
    assert_eq!(bridge.codec_b, CodecType::PCMU);
    assert_eq!(bridge.call_id, "s1");
    let other = ANSWER.replace("RTP/AVP 0", "RTP/AVP 8").replace("0 PCMU", "8 PCMA");
    s.ensure_media_bridge_from_sdp(&other, true);
    assert_eq!(
        s.bridge_runtime.media_bridge.as_ref().unwrap().codec_b,
        CodecType::PCMU
    );
    assert!(s.bridge_runtime.start_bridge());
    assert!(!s.bridge_runtime.start_bridge());
}

#[test]
fn offers_to_targets() {
    let mut s = proxy();
    assert_eq!(s.create_offer_for_target(Some("o".to_string()), 0).as_deref(), Some("o"));
    assert_eq!(s.create_offer_for_target(None, 0).as_deref(), Some("o"));
    assert_eq!(s.create_offer_for_target(Some("  ".to_string()), 0), None);
    assert_eq!(s.create_offer_for_target(None, 0), None);
    s.use_media_proxy = false;
    assert_eq!(s.create_offer_for_target(None, 0).as_deref(), Some(OFFER));
}

#[test]
fn contact_is_the_routed_one() {
    let mut s = proxy();
    let own = uri("rustpbx", "p.com");
    assert_eq!(
        s.local_contact_uri(Some(own.copy())).unwrap().to_text(),
        "sip:rustpbx@p.com"
    );
    s.context.dialplan.caller_contact = Some(uri("plan", "p.com"));
    assert_eq!(
        s.local_contact_uri(Some(own.copy())).unwrap().to_text(),
        "sip:plan@p.com"
    );
    s.routed_contact = Some("sip:routed@gw.net:5070;transport=tcp".to_string());
    let routed = s.local_contact_uri(Some(own)).unwrap();
    assert_eq!(routed.host, "gw.net");
    assert_eq!(routed.port, Some(5070));
    assert_eq!(routed.user.as_deref(), Some("routed"));
}

#[test]
fn current_codec_is_negotiated_answered_or_offered() {
    let mut s = proxy();
    let allow = vec![CodecType::PCMA, CodecType::PCMU];
    assert_eq!(current_codec(&s.exported_leg.media, &allow), Some(CodecType::PCMA));
    s.set_answer(ANSWER.to_string());
    assert_eq!(current_codec(&s.exported_leg.media, &allow), Some(CodecType::PCMU));
    assert_eq!(s.shared.answer_sdp().as_deref(), Some(ANSWER));
    s.exported_leg
        .media
        .freeze_answered_audio_with_allow_codecs(&allow);
    s.publish_exported_leg_media();
    let media = &s.shared.surface.media;
    assert!(media.published);
    assert_eq!(media.negotiated_audio.as_ref().unwrap().0, CodecType::PCMU);
    s.register_active_call();
    assert!(s.shared.entry.is_some());
}
