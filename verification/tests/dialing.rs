//! Dialing, alerting and answering, the loop of a running call, originated calls,
//! and applications.

use active_call::answer_runtime::{candidate_body, end_of_candidates_body};
use active_call::app_runtime::{app_result, AppChoice, AppEnd, AppError, AppSupport};
use active_call::dialplan_runtime::{
    plan_flow, DialplanStart, FlowFailureHandling, FlowPlan, TargetsEnd, TargetsOutcome,
};
use active_call::leg_event::{LegEvent, TerminationReason};
use active_call::media_endpoint::MediaConfig;
use active_call::media_peer::{MediaStream, VoiceEnginePeer};
use active_call::model::{
    find_param, CallForwardingConfig, CallForwardingMode, CallRecordHangupReason, DialDirection,
    DialStrategy, Dialplan, DialplanFlow, Location, MediaProxyMode, RecorderOption,
    RecordingConfig, RingbackConfig, RingbackMode, TransferEndpoint,
};
use active_call::negotiate::{CodecType, SdpMedia};
use active_call::originated_runtime::{
    audio_sections, build_local_offer_with_direction, finish_refer, hold_music_file, originate,
    CalleeRequestError, OriginateError, OriginateRequest, OriginatedDial, OriginatedEvent,
    OriginatedNext, OriginatedResult,
};
use active_call::proxy_call::{CallSessionBuilder, RequestParties};
use active_call::proxy_runtime::{
    admission, admission_of, check_callee, initial_recorder, proxy_session, transfer_to_endpoint,
    Admission, SetupWait, TransferPlan,
};
use active_call::sdp_direction::MediaDirection;
use active_call::session::{CallSession, OriginatedSessionEvent, PendingHangup};
use active_call::session_loop_runtime::{
    finish_refresh, is_trickle_ice_info, on_exported_event, on_target_event, on_tick, DialogEvent,
    LoopStep, SessionLoop, TickPlan,
};
use active_call::session_timer::{SessionRefresher, SessionTimerState};
use active_call::sip::{Header, InviteOption, Method, SipAddr, Transport, Uri};
use active_call::sip_leg::{CallLegDirection, DialogId, DialogPhase, ServerDialog, SipLeg};
use active_call::state::{
    CallContext, CallSessionShared, ControllerEvent, MidDialogLeg, ProxyCallEvent, ProxyCallPhase,
    SessionAction, SessionKind,
};
use active_call::target_runtime::{
    apply_route, callee_realm, complete_invite, invite_failure, locate_callee,
    on_sequential_attempt, parallel_outcome, transfer_error, transfer_failure, transfer_location,
    CalleeLookup, DialError, FailurePlan, InviteAttempt, InviteResponse, InviteStep, ParallelDial,
    ParallelEvent, ParallelStep, RoutedInvite, SequentialStep,
};

const OFFER: &str = "v=0\r\n\
    o=- 1 1 IN IP4 10.0.0.1\r\n\
    s=-\r\n\
    c=IN IP4 10.0.0.1\r\n\
    t=0 0\r\n\
    m=audio 4000 RTP/AVP 8 0 101\r\n\
    a=rtpmap:8 PCMA/8000\r\n\
    a=rtpmap:0 PCMU/8000\r\n\
    a=rtpmap:101 telephone-event/8000\r\n\
    a=sendrecv\r\n";

const ANSWER: &str = "v=0\r\n\
    o=- 2 2 IN IP4 10.0.0.2\r\n\
    s=-\r\n\
    c=IN IP4 10.0.0.2\r\n\
    t=0 0\r\n\
    m=audio 5000 RTP/AVP 0\r\n\
    a=rtpmap:0 PCMU/8000\r\n\
    a=sendrecv\r\n";

fn uri(user: &str, host: &str) -> Uri {
    Uri {
        scheme: "sip:".to_string(),
        user: Some(user.to_string()),
        password: None,
        host: host.to_string(),
        port: None,
        params: String::new(),
    }
}

fn plan() -> Dialplan {
    Dialplan {
        direction: DialDirection::Inbound,
        session_id: Some("s1".to_string()),
        call_id: None,
        caller_display_name: None,
        caller: Some(uri("alice", "a.com")),
        caller_contact: None,
        flow: DialplanFlow::Targets(DialStrategy::Sequential(Vec::new())),
        max_ring_time: 60,
        recording: RecordingConfig {
            enabled: false,
            auto_start: false,
            option: None,
        },
        ringback: RingbackConfig {
            mode: RingbackMode::Auto,
            audio_file: None,
            loop_playback: false,
        },
        max_call_duration: None,
        call_timeout: 60_000,
        call_forwarding: None,
        voicemail_enabled: false,
        allow_codecs: vec![CodecType::PCMU, CodecType::PCMA],
        passthrough_failure: false,
        media_proxy: MediaProxyMode::Auto,
        enable_sipflow: true,
    }
}

fn media_config() -> MediaConfig {
    MediaConfig {
        external_ip: None,
        rtp_start_port: None,
        rtp_end_port: None,
        webrtc_port_start: None,
        webrtc_port_end: None,
        enable_latching: false,
    }
}

fn context(kind: SessionKind) -> CallContext {
    CallContext {
        session_id: "s1".to_string(),
        kind,
        dialplan: plan(),
        cookie_max_duration: Some(9_000),
        start_time: 0,
        media_config: media_config(),
        original_caller: "alice".to_string(),
        original_callee: "bob".to_string(),
        max_forwards: 69,
    }
}

fn dialog(call_id: &str) -> DialogId {
    DialogId {
        call_id: call_id.to_string(),
        local_tag: "l".to_string(),
        remote_tag: "r".to_string(),
    }
}

fn session(kind: SessionKind) -> CallSession {
    let shared = CallSessionShared::new(
        "s1".to_string(),
        DialDirection::Inbound,
        Some("alice".to_string()),
        Some("bob".to_string()),
        0,
    );
    CallSession::new(
        context(kind),
        Some(ServerDialog {
            id: dialog("in"),
            phase: DialogPhase::Pending,
        }),
        Some(OFFER.to_string()),
        true,
        None,
        shared,
        0,
    )
}

fn proxy() -> CallSession {
    let mut s = session(SessionKind::Proxy);
    s.ensure_target_leg(0);
    s
}

fn invite() -> InviteOption {
    InviteOption {
        caller_display_name: None,
        caller: uri("alice", "a.com"),
        callee: uri("bob", "b.com"),
        contact: uri("pbx", "p.com"),
        content_type: None,
        offer: None,
        destination: None,
        credential: None,
        headers: Some(vec![Header::Other(
            "session-expires".to_string(),
            "60".to_string(),
        )]),
        call_id: None,
    }
}

fn accepted(idx: usize) -> ParallelEvent {
    ParallelEvent::Accepted {
        idx,
        dialog_id: dialog("b"),
        answer: ANSWER.to_string(),
        aor: "sip:bob@b.com".to_string(),
        caller_uri: "sip:alice@a.com".to_string(),
        callee_uri: "sip:bob@b.com".to_string(),
        contact: "sip:pbx@p.com".to_string(),
        destination: None,
    }
}

#[test]
fn parallel_targets_ring_at_once() {
    let mut s = proxy();
    assert_eq!(ParallelDial::begin(&mut s, 2), Ok(true));
    let mut dial = ParallelDial::dial(&mut s, 2).unwrap();
    for (idx, name) in [(0, "a"), (1, "b")] {
        let step = dial.on_event(
            &mut s,
            ParallelEvent::Calling {
                idx,
                dialog_id: dialog(name),
            },
        );
        assert!(matches!(step, ParallelStep::Wait));
    }
    assert!(matches!(
        dial.on_event(
            &mut s,
            ParallelEvent::Early { idx: 0, dialog_id: dialog("a"), sdp: None }
        ),
        ParallelStep::Ring
    ));
    assert!(matches!(
        dial.on_event(
            &mut s,
            ParallelEvent::Early { idx: 0, dialog_id: dialog("a"), sdp: Some("e".to_string()) }
        ),
        ParallelStep::EarlyMedia { dialog_id, sdp } if dialog_id == "a-l-r" && sdp == "e"
    ));
    let step = dial.on_event(&mut s, accepted(1));
    assert!(matches!(step, ParallelStep::Accept { idx: 1, .. }));
    assert_eq!(s.routed_callee.as_deref(), Some("sip:bob@b.com"));
    // The others are hung up.
    assert_eq!(
        dial.on_accepted(&mut s, 1, dialog("b"), true),
        vec![dialog("a")]
    );
    assert!(matches!(dial.on_event(&mut s, accepted(0)), ParallelStep::Wait));
    for _ in 0..3 {
        let failed = ParallelEvent::Failed {
            idx: 0,
            code: 487,
            reason: None,
            target: None,
        };
        assert!(matches!(dial.on_event(&mut s, failed), ParallelStep::Wait));
    }
    assert!(matches!(
        dial.on_event(&mut s, ParallelEvent::Terminated { idx: 0 }),
        ParallelStep::Wait
    ));
    assert!(matches!(
        dial.on_event(&mut s, ParallelEvent::Terminated { idx: 1 }),
        ParallelStep::Connected
    ));
    assert_eq!(dial.on_closed(), Ok(()));
}

#[test]
fn parallel_dialing_fails_with_all_targets() {
    let mut s = proxy();
    let mut dial = ParallelDial::dial(&mut s, 2).unwrap();
    let failed = |idx| ParallelEvent::Failed {
        idx,
        code: 486,
        reason: Some("busy".to_string()),
        target: Some("sip:b@x".to_string()),
    };
    assert!(matches!(dial.on_event(&mut s, failed(0)), ParallelStep::Wait));
    assert!(matches!(
        dial.on_event(&mut s, failed(1)),
        ParallelStep::Failed(DialError::AllParallelFailed)
    ));
    assert_eq!(s.last_error, Some((486, Some("busy".to_string()))));
    assert_eq!(dial.on_closed(), Err(DialError::NoSuccess));
    assert!(dial.on_accepted(&mut s, 0, dialog("a"), false).is_empty());

    let mut cancelled = ParallelDial::dial(&mut s, 1).unwrap();
    cancelled.on_event(
        &mut s,
        ParallelEvent::Calling {
            idx: 0,
            dialog_id: dialog("a"),
        },
    );
    assert!(matches!(
        cancelled.on_event(&mut s, ParallelEvent::Cancelled),
        ParallelStep::Abandon(v) if v == vec![dialog("a")]
    ));
}

#[test]
fn dialing_needs_targets_and_a_caller() {
    let mut s = proxy();
    assert_eq!(ParallelDial::begin(&mut s, 0), Err(DialError::NoTargets));
    assert_eq!(s.last_error.as_ref().unwrap().0, 500);
    // A caller that is missing is noticed once the caller's phone rings.
    let mut s = proxy();
    s.context.dialplan.caller = None;
    assert_eq!(ParallelDial::begin(&mut s, 1), Ok(true));
    assert_eq!(s.last_error, None);
    assert_eq!(
        ParallelDial::dial(&mut s, 1).err(),
        Some(DialError::NoCaller)
    );
    assert_eq!(
        s.last_error,
        Some((500, Some("No caller specified in dialplan".to_string())))
    );
    let mut s = proxy();
    s.exported_leg.media.early_media_sent = true;
    assert_eq!(ParallelDial::begin(&mut s, 1), Ok(false));
    for (e, text) in [
        (DialError::NoTargets, "No targets provided for parallel dialing"),
        (DialError::NoCaller, "No caller specified in dialplan"),
        (
            DialError::StoppedByPolicy,
            "Target failed and retry policy stopped failover",
        ),
        (DialError::AllSequentialFailed, "All sequential targets failed"),
        (DialError::AllParallelFailed, "All parallel targets failed"),
        (DialError::CallerCancelled, "Caller cancelled"),
        (
            DialError::NoSuccess,
            "Parallel dialing concluded without success",
        ),
    ] {
        assert_eq!(e.message(), text);
    }
}

#[test]
fn sequential_targets_are_tried_in_order() {
    let mut s = proxy();
    let targets = vec![
        Location::bare(uri("a", "x"), false),
        Location::bare(uri("b", "x"), false),
    ];
    let busy = || Err((486, Some("busy".to_string())));
    assert_eq!(
        on_sequential_attempt(&mut s, &targets, 0, busy()),
        SequentialStep::TryNext
    );
    assert_eq!(s.hangup_messages.len(), 2);
    assert_eq!(s.hangup_messages[1].target.as_deref(), Some("sip:a@x"));
    assert_eq!(
        on_sequential_attempt(&mut s, &targets, 1, Ok(())),
        SequentialStep::Connected
    );
    assert_eq!(
        on_sequential_attempt(&mut s, &targets, 1, busy()),
        SequentialStep::Failed(DialError::AllSequentialFailed)
    );
    s.context.dialplan.flow = DialplanFlow::Queue {
        plan: active_call::model::QueuePlan {
            label: None,
            accept_immediately: false,
            hold: None,
            dial_strategy: None,
            retry_codes: Some(vec![480]),
            no_trying_timeout: None,
        },
        next: Box::new(DialplanFlow::Targets(DialStrategy::Parallel(Vec::new()))),
    };
    assert_eq!(
        on_sequential_attempt(&mut s, &targets, 0, busy()),
        SequentialStep::Failed(DialError::StoppedByPolicy)
    );
}

#[test]
fn invites_end_in_success_or_failure() {
    assert_eq!(
        invite_failure(InviteResponse::Answered { code: 200, reason: None }),
        None
    );
    assert_eq!(
        invite_failure(InviteResponse::Answered { code: 404, reason: None }),
        Some((404, None))
    );
    assert_eq!(
        invite_failure(InviteResponse::NoResponse),
        Some((487, Some("Cancelled by callee".to_string())))
    );
    assert_eq!(
        invite_failure(InviteResponse::DialogError { reason: "x".to_string(), code: 503 }),
        Some((503, Some("x".to_string())))
    );
    assert_eq!(
        invite_failure(InviteResponse::OtherError),
        Some((500, Some("Invite failed".to_string())))
    );
    let event = parallel_outcome(
        3,
        InviteResponse::Answered { code: 200, reason: None },
        dialog("d"),
        ANSWER.to_string(),
        "sip:bob@b.com".to_string(),
        &invite(),
    );
    assert!(matches!(
        event,
        ParallelEvent::Accepted { idx: 3, callee_uri, .. } if callee_uri == "sip:bob@b.com"
    ));
    let event = parallel_outcome(
        3,
        InviteResponse::NoResponse,
        dialog("d"),
        String::new(),
        String::new(),
        &invite(),
    );
    assert!(matches!(event, ParallelEvent::Failed { idx: 3, code: 487, .. }));
}

#[test]
fn invite_is_repeated_once_with_a_longer_interval() {
    let mut attempt = InviteAttempt {
        option: invite(),
        retried: false,
    };
    let refused = || InviteResponse::Answered { code: 422, reason: None };
    assert!(matches!(
        attempt.on_response(refused(), Some("120".to_string())),
        InviteStep::Retry
    ));
    let headers = attempt.option.headers.as_ref().unwrap();
    assert_eq!(headers.len(), 1);
    assert!(matches!(&headers[0], Header::Other(n, v) if n == "Session-Expires" && v == "120"));
    assert!(matches!(
        attempt.on_response(refused(), Some("240".to_string())),
        InviteStep::Failed(422, None)
    ));
    let mut fresh = InviteAttempt {
        option: invite(),
        retried: false,
    };
    assert!(matches!(
        fresh.on_response(refused(), None),
        InviteStep::Failed(422, None)
    ));
    assert!(matches!(
        fresh.on_response(InviteResponse::Answered { code: 200, reason: None }, None),
        InviteStep::Connected
    ));
}

#[test]
fn routes_send_on_or_refuse() {
    assert!(apply_route(RoutedInvite::Forward(invite())).is_ok());
    assert!(apply_route(RoutedInvite::NotHandled(invite())).is_ok());
    assert_eq!(
        apply_route(RoutedInvite::Abort(403, Some("no".to_string()))).err(),
        Some((403, Some("no".to_string())))
    );
    assert_eq!(
        apply_route(RoutedInvite::Error).err(),
        Some((500, Some("Routing function error".to_string())))
    );
}

fn lookup(locations: Result<Vec<Location>, String>, user: Result<bool, String>) -> CalleeLookup {
    CalleeLookup {
        locations,
        user_exists: user,
    }
}

#[test]
fn callees_are_located_or_missing() {
    let mut at = Location::bare(uri("bob", "b.com"), false);
    at.destination = Some(SipAddr {
        transport: Some(Transport::Tcp),
        host: "10.0.0.5".to_string(),
        port: Some(5060),
    });
    let found = || lookup(Ok(vec![at.clone()]), Ok(true));
    assert_eq!(
        locate_callee(found()).unwrap().unwrap().to_text(),
        "TCP 10.0.0.5:5060"
    );
    assert_eq!(
        locate_callee(lookup(Err("down".to_string()), Ok(true))).err(),
        Some((480, Some("down".to_string())))
    );
    assert_eq!(
        locate_callee(lookup(Ok(Vec::new()), Ok(true))).err(),
        Some((480, Some("User offline".to_string())))
    );
    assert_eq!(
        locate_callee(lookup(Ok(Vec::new()), Ok(false))).err(),
        Some((404, Some("User not found".to_string())))
    );
    assert_eq!(
        locate_callee(lookup(Ok(Vec::new()), Err("db".to_string()))).err(),
        Some((500, Some("db".to_string())))
    );
    let done = complete_invite(invite(), Some(uri("me", "p.com")), true, found()).unwrap();
    assert_eq!(done.contact.to_text(), "sip:me@p.com");
    assert!(done.destination.is_some());
    let elsewhere = complete_invite(invite(), None, false, lookup(Ok(Vec::new()), Ok(false)));
    assert!(elsewhere.unwrap().destination.is_none());
    assert!(check_callee(invite(), None, true, lookup(Ok(Vec::new()), Ok(false))).is_err());
    assert!(check_callee(invite(), None, false, lookup(Ok(Vec::new()), Ok(false))).is_ok());
    let mut with_port = invite();
    with_port.callee.port = Some(5070);
    assert_eq!(callee_realm(&with_port), "b.com:5070");
}

#[test]
fn target_invites_are_built() {
    let mut s = proxy();
    let target = Location::bare(uri("bob", "b.com"), false);
    let o = s
        .build_target_invite(
            &target,
            Some("offer".to_string()),
            None,
            Vec::new(),
            true,
            Some(1800),
            0,
        )
        .unwrap();
    assert_eq!(o.offer.as_deref(), Some("offer"));
    assert_eq!(o.contact.to_text(), "sip:alice@a.com");
    assert_eq!(o.headers.unwrap().len(), 3);
    s.context.dialplan.caller = None;
    assert!(s
        .build_target_invite(&target, None, None, Vec::new(), false, None, 0)
        .is_err());
}

#[test]
fn parallel_invites_name_no_caller_and_no_call() {
    let mut s = proxy();
    s.context.dialplan.caller_display_name = Some("Alice".to_string());
    s.context.dialplan.call_id = Some("c1".to_string());
    let target = Location::bare(uri("bob", "b.com"), false);
    let tenant = || vec![Header::Other("X-Tenant".to_string(), "blue".to_string())];
    let offer = || Some("offer".to_string());
    let one = s
        .build_target_invite(&target, offer(), None, tenant(), true, Some(1800), 0)
        .unwrap();
    assert_eq!(one.caller_display_name.as_deref(), Some("Alice"));
    assert_eq!(one.call_id.as_deref(), Some("c1"));
    assert_eq!(one.headers.unwrap().len(), 4);

    let many = s.build_parallel_invite(&target, offer(), None, tenant(), 0);
    assert_eq!(many.caller_display_name, None);
    assert_eq!(many.call_id, None);
    assert_eq!(many.caller.to_text(), "sip:alice@a.com");
    assert_eq!(many.callee.to_text(), "sip:bob@b.com");
    assert_eq!(many.contact.to_text(), "sip:alice@a.com");
    assert_eq!(many.offer.as_deref(), Some("offer"));
    let headers = many.headers.unwrap();
    assert_eq!(headers.len(), 2);
    assert!(headers
        .iter()
        .any(|h| matches!(h, Header::Other(n, v) if n == "X-Tenant" && v == "blue")));
    assert!(headers.iter().any(|h| matches!(h, Header::MaxForwards(69))));
}

#[test]
fn target_answers_are_noted() {
    let mut s = proxy();
    let target = Location::bare(uri("bob", "b.com"), false);
    assert!(matches!(
        s.on_target_early(dialog("d"), "body".to_string()),
        SessionAction::StartRinging { ringback: Some(b), passthrough: false } if b == "body"
    ));
    let headers = vec![Header::Other("Session-Expires".to_string(), "300".to_string())];
    let r = s.on_target_answered(&target, dialog("d"), String::new(), &headers, true, None, 7);
    assert_eq!(r.callee, "sip:bob@b.com");
    assert_eq!(r.sdp, None);
    assert_eq!(r.dialog_id, "d-l-r");
    let leg = s.target_leg.as_ref().unwrap();
    assert_eq!(leg.sip.session_timer.session_interval, 300);
    assert_eq!(leg.sip.active_dialog_ids, vec![dialog("d")]);
}

#[test]
fn failed_calls_are_forwarded_recorded_or_reported() {
    let mut s = proxy();
    assert!(matches!(
        s.handle_failure(),
        FailurePlan::Report(500, Some(t)) if t == "Unknown error"
    ));
    s.set_error(486, Some("busy".to_string()), None);
    assert!(matches!(s.handle_failure(), FailurePlan::Report(486, _)));
    s.context.dialplan.voicemail_enabled = true;
    assert!(matches!(
        s.handle_failure(),
        FailurePlan::Voicemail { extension, caller_id } if extension == "bob" && caller_id == "alice"
    ));
    s.context.dialplan.call_forwarding = Some(CallForwardingConfig {
        mode: CallForwardingMode::WhenBusy,
        endpoint: TransferEndpoint::Uri("sip:x@y".to_string()),
        timeout: 0,
    });
    assert!(matches!(s.handle_failure(), FailurePlan::Forward(_)));
    s.set_error(408, None, None);
    assert!(matches!(s.handle_failure(), FailurePlan::Voicemail { .. }));
    s.set_error(404, None, None);
    assert!(matches!(s.handle_failure(), FailurePlan::Report(404, None)));
}

#[test]
fn transfers_name_their_target_and_failure() {
    assert_eq!(
        transfer_failure("sip:x@y", None, "486 Busy Here"),
        "forwarding to sip:x@y failed: 486 Busy Here"
    );
    assert_eq!(
        transfer_error("sip:x@y", 486, Some("busy".to_string())),
        "forwarding to sip:x@y failed: busy"
    );
    let text = transfer_error("sip:x@y", 486, None);
    assert!(text.starts_with("forwarding to sip:x@y failed: 486"));
    let at = transfer_location("sip:bob@b.com:5070").unwrap();
    assert_eq!(at.aor.port, Some(5070));
    assert_eq!(at.contact_raw.as_deref(), Some("sip:bob@b.com:5070"));
    assert!(transfer_location("").is_none());
    assert!(matches!(
        transfer_to_endpoint(TransferEndpoint::Queue("7".to_string()), true),
        TransferPlan::ToQueue { lookup, name } if lookup == "db-7" && name == "7"
    ));
    assert!(matches!(
        transfer_to_endpoint(TransferEndpoint::Queue("7".to_string()), false),
        TransferPlan::QueueUnsupported
    ));
    assert!(matches!(
        transfer_to_endpoint(TransferEndpoint::Uri("u".to_string()), false),
        TransferPlan::ToUri(u) if u == "u"
    ));
}

#[test]
fn caller_is_alerted_once() {
    let mut s = proxy();
    s.context.dialplan.ringback.audio_file = Some("ring.wav".to_string());
    let plan = s.begin_ringing("", false, 1_000).unwrap();
    assert!(plan.play_local && !plan.passthrough && !plan.early_media);
    assert_eq!(s.ring_time, Some(1_000));
    let r = s.finish_ringing(&plan, String::new(), false, None, &None).unwrap();
    assert_eq!(r.status, 180);
    assert_eq!(r.body, None);
    assert_eq!(r.ringback.unwrap().audio_file, "ring.wav");
    assert!(s.begin_ringing("", false, 2_000).is_none());

    let plan = s.begin_ringing(ANSWER, true, 2_000).unwrap();
    assert!(plan.early_media && plan.passthrough && plan.setup_track);
    s.ensure_target_leg(2_000);
    assert!(plan.codecs.as_ref().unwrap().is_ok());
    let r = s
        .finish_ringing(&plan, ANSWER.to_string(), true, Some("built".to_string()), &None)
        .unwrap();
    let leg = s.target_leg.as_ref().unwrap();
    assert_eq!(leg.media.answer_sdp.as_deref(), Some(ANSWER));
    assert_eq!(leg.media.negotiated_audio.as_ref().unwrap().0, CodecType::PCMU);
    assert_eq!(r.status, 183);
    assert_eq!(r.body.as_deref(), Some("built"));
    assert!(r.start_bridge);
    assert_eq!(s.shared.answer_sdp().as_deref(), Some("built"));
    assert!(s.begin_ringing(ANSWER, false, 3_000).is_none());
    assert!(s
        .finish_ringing(&plan, ANSWER.to_string(), false, None, &None)
        .is_none());
    s.answer_time = Some(4_000);
    assert!(s.begin_ringing(ANSWER, true, 5_000).is_none());
}

#[test]
fn ringback_modes() {
    for (mode, local, through) in [
        (RingbackMode::Local, true, false),
        (RingbackMode::Passthrough, false, true),
        (RingbackMode::Auto, false, true),
        (RingbackMode::Disabled, false, false),
    ] {
        let mut s = proxy();
        s.context.dialplan.ringback.mode = mode;
        let plan = s.begin_ringing(ANSWER, true, 0).unwrap();
        assert_eq!((plan.play_local, plan.passthrough), (local, through));
    }
}

#[test]
fn dialogs_of_a_call_are_registered() {
    // Before the call takes commands, its dialogs are not entered.
    let mut s = proxy();
    s.add_callee_dialog(dialog("early"));
    assert!(s.shared.surface.dialogs.is_empty());

    s.register_active_call();
    assert_eq!(s.shared.surface.dialogs, vec!["in-l-r"]);
    let target = Location::bare(uri("bob", "b.com"), false);
    s.on_target_early(dialog("a"), String::new());
    assert_eq!(s.shared.surface.dialogs, vec!["in-l-r", "a-l-r"]);
    // One that is open is not entered again.
    s.on_target_answered(&target, dialog("a"), String::new(), &Vec::new(), false, None, 0);
    assert_eq!(s.shared.surface.dialogs, vec!["in-l-r", "a-l-r"]);
    let mut dial = ParallelDial::dial(&mut s, 1).unwrap();
    dial.on_accepted(&mut s, 0, dialog("b"), true);
    assert_eq!(s.shared.surface.dialogs, vec!["in-l-r", "a-l-r", "b-l-r"]);
    s.shared.register_dialog("x".to_string());
    assert_eq!(s.shared.surface.dialogs.len(), 4);
}

#[test]
fn caller_is_answered() {
    let mut s = proxy();
    s.shared.set_event_sender();
    s.add_callee_dialog(dialog("out"));
    s.exported_leg.media.set_dtmf_listener_cancel(9);
    let plan = s.begin_accept(
        Some("bob".to_string()),
        &Some(ANSWER.to_string()),
        &Some("out-l-r".to_string()),
        5_000,
    );
    assert!(plan.first_answer && !plan.trickle);
    let optimized: Vec<CodecType> = plan.optimized.unwrap().iter().map(|c| c.codec).collect();
    assert_eq!(
        optimized,
        vec![CodecType::PCMU, CodecType::PCMA, CodecType::TelephoneEvent]
    );
    assert_eq!(s.answer_time, Some(5_000));
    assert_eq!(
        s.target_leg.as_ref().unwrap().sip.connected_dialog(),
        Some(&dialog("out"))
    );
    assert_eq!(s.answer_codecs_needed().unwrap().len(), 3);
    s.set_answer(OFFER.to_string());
    assert!(s.answer_codecs_needed().is_none());
    let media = s.connect_media(true, Some(ANSWER.to_string()));
    assert!(media.proxied && media.start_bridge && !media.stop_bridge);
    assert_eq!(media.cancelled_listener, Some(9));
    let leg = s.target_leg.as_ref().unwrap();
    assert_eq!(leg.media.answer_sdp.as_deref(), Some(ANSWER));
    let (headers, body) = s.accept_response();
    assert_eq!(headers.len(), 1);
    assert_eq!(body.as_deref(), Some(OFFER));
    s.exported_leg.sip.session_timer.active = true;
    s.exported_leg.sip.supports_trickle_ice = true;
    let (headers, _) = s.accept_response();
    assert!(matches!(
        &headers[2],
        Header::Other(n, v) if n == "Session-Expires" && v == "1800;refresher=uac"
    ));
    assert!(matches!(&headers[3], Header::Supported(v) if v == "trickle-ice"));
    s.note_answered(true, 5_000);
    assert_eq!(s.shared.snapshot().phase, ProxyCallPhase::Bridged);
    let events = s.shared.take_events();
    assert!(matches!(
        events.last(),
        Some(ProxyCallEvent::TargetAnswered { callee: Some(c), .. }) if c == "bob"
    ));
    let again = s.begin_accept(None, &None, &None, 6_000);
    assert!(!again.first_answer);
    assert_eq!(s.answer_time, Some(5_000));
}

#[test]
fn unproxied_answer_goes_to_the_caller() {
    let mut s = proxy();
    s.use_media_proxy = false;
    let media = s.connect_media(true, Some(ANSWER.to_string()));
    assert!(!media.proxied && !media.start_bridge);
    assert_eq!(s.exported_leg.media.answer_sdp.as_deref(), Some(ANSWER));
}

#[test]
fn candidates_are_trickled_in_fragments() {
    assert_eq!(candidate_body("1 1"), "a=mid:0\r\na=candidate:1 1\r\n");
    assert_eq!(
        end_of_candidates_body(),
        "a=mid:0\r\na=end-of-candidates\r\n"
    );
    let other = |v: &str| vec![Header::Other("Content-Type".to_string(), v.to_string())];
    assert!(is_trickle_ice_info(&other("Application/Trickle-ICE-sdpfrag")));
    assert!(!is_trickle_ice_info(&other("application/sdp")));
    let mut s = proxy();
    assert!(!s.trickle_ice_enabled());
    s.exported_leg.sip.supports_trickle_ice = true;
    assert!(!s.trickle_ice_enabled());
    s.exported_leg.media.offer_sdp = Some("m=audio 1 UDP/TLS/RTP/SAVPF 0".to_string());
    assert!(s.trickle_ice_enabled());
}

#[test]
fn caller_dialog_reports() {
    let mut s = proxy();
    let mut timer = SessionTimerState::new(0);
    let step = on_exported_event(
        &mut s.shared,
        &mut timer,
        DialogEvent::Updated {
            dialog_id: dialog("in"),
            method: Method::Invite,
            headers: Vec::new(),
            body: OFFER.to_string(),
            handle: 4,
        },
        10,
    );
    assert!(!step.reply_ok && !step.stop);
    assert!(matches!(
        step.event,
        Some(LegEvent::ReInvite { leg: MidDialogLeg::Caller, sdp: Some(_), .. })
    ));
    assert_eq!(
        s.shared.take_mid_dialog_reply(MidDialogLeg::Caller, "in-l-r"),
        Some(4)
    );
    let step = on_exported_event(
        &mut s.shared,
        &mut timer,
        DialogEvent::Terminated { dialog_id: dialog("in") },
        10,
    );
    assert!(step.stop);
    assert!(matches!(
        step.event,
        Some(LegEvent::Terminated { reason: TerminationReason::ByCaller })
    ));
    let step = on_exported_event(&mut s.shared, &mut timer, DialogEvent::Options, 10);
    assert!(step.reply_ok);
    let step = on_exported_event(&mut s.shared, &mut timer, DialogEvent::Closed, 10);
    assert!(step.stop && step.event.is_none());
    let step = on_exported_event(
        &mut s.shared,
        &mut timer,
        DialogEvent::Info {
            headers: vec![Header::Other(
                "content-type".to_string(),
                "application/trickle-ice-sdpfrag".to_string(),
            )],
            body: "candidate:1".to_string(),
        },
        10,
    );
    assert!(matches!(step.event, Some(LegEvent::TrickleIce { .. })));
}

#[test]
fn target_dialog_reports() {
    let mut s = proxy();
    let mut sip = SipLeg::new(CallLegDirection::Outbound, 0);
    sip.add_dialog(dialog("out"));
    let ended = || DialogEvent::Terminated { dialog_id: dialog("out") };
    let step = on_target_event(&mut s.shared, &mut sip, ended(), 5);
    assert!(step.stop);
    assert!(matches!(
        step.event,
        Some(LegEvent::Terminated { reason: TerminationReason::ByCallee })
    ));
    let step = on_target_event(&mut s.shared, &mut sip, ended(), 5);
    assert!(!step.stop && step.event.is_none());
    sip.session_timer.active = true;
    let step = on_target_event(
        &mut s.shared,
        &mut sip,
        DialogEvent::Updated {
            dialog_id: dialog("out"),
            method: Method::Update,
            headers: Vec::new(),
            body: String::new(),
            handle: 8,
        },
        50,
    );
    assert_eq!(sip.session_timer.last_refresh, 50);
    assert!(matches!(
        step.event,
        Some(LegEvent::ReInvite { leg: MidDialogLeg::Callee, sdp: None, .. })
    ));
}

#[test]
fn first_leg_to_end_gives_the_hangup() {
    let mut run = SessionLoop::new();
    let mut pending: Option<PendingHangup> = None;
    let reinvite = || {
        Some(LegEvent::ReInvite {
            leg: MidDialogLeg::Caller,
            method: Method::Update,
            sdp: None,
            dialog_id: "d".to_string(),
        })
    };
    assert!(matches!(
        run.on_leg_event(&mut pending, reinvite(), 0),
        LoopStep::Command(SessionAction::HandleReInvite { method, .. }) if method == "UPDATE"
    ));
    let ended = |reason| Some(LegEvent::Terminated { reason });
    assert!(matches!(
        run.on_leg_event(&mut pending, ended(TerminationReason::ByCallee), 1_000),
        LoopStep::Continue
    ));
    let hangup = pending.as_ref().unwrap();
    assert_eq!(hangup.reason, Some(CallRecordHangupReason::ByCallee));
    assert_eq!(hangup.code, Some(200));
    assert_eq!(hangup.initiator.as_deref(), Some("callee"));
    assert!(matches!(
        run.on_leg_event(&mut pending, reinvite(), 1_500),
        LoopStep::Continue
    ));
    assert!(!run.is_overdue(5_999));
    assert!(run.is_overdue(6_000));
    assert!(matches!(
        run.on_leg_event(&mut pending, ended(TerminationReason::ByCaller), 2_000),
        LoopStep::Cancel
    ));
    assert_eq!(
        pending.unwrap().reason,
        Some(CallRecordHangupReason::ByCallee)
    );
    let mut none: Option<PendingHangup> = None;
    assert!(matches!(run.on_leg_event(&mut none, None, 0), LoopStep::Stop));
}

#[test]
fn sessions_are_refreshed_or_expire() {
    let running = |refresher| SessionTimerState {
        enabled: true,
        active: true,
        refreshing: false,
        session_interval: 100,
        last_refresh: 0,
        refresher,
    };
    let mut server = running(SessionRefresher::Uas);
    let mut client = running(SessionRefresher::Uas);
    assert!(matches!(
        on_tick(false, &mut server, &mut client, true, 200_000),
        TickPlan::Nothing
    ));
    assert!(matches!(
        on_tick(true, &mut server, &mut client, true, 49_000),
        TickPlan::Refresh { server: None, client: None }
    ));
    match on_tick(true, &mut server, &mut client, true, 50_000) {
        TickPlan::Refresh { server: Some(h), client: None } => assert!(matches!(
            &h[1],
            Header::Other(n, v) if n == "Session-Expires" && v == "100;refresher=uas"
        )),
        other => panic!("{:?}", other),
    }
    assert!(server.refreshing);
    assert!(matches!(
        on_tick(true, &mut server, &mut client, true, 51_000),
        TickPlan::Refresh { server: None, client: None }
    ));
    finish_refresh(&mut server, Some(200), 52_000);
    assert!(!server.refreshing);
    assert_eq!(server.last_refresh, 52_000);
    finish_refresh(&mut server, Some(500), 60_000);
    assert_eq!(server.last_refresh, 52_000);
    assert!(matches!(
        on_tick(true, &mut server, &mut client, true, 100_000),
        TickPlan::Expired
    ));
}

fn request() -> OriginateRequest {
    OriginateRequest {
        call_id: "o1".to_string(),
        callee: uri("bob", "b.com"),
        offer: Some(OFFER.to_string()),
        timeout_secs: 30,
        caller_display: None,
        callee_display: Some("Bob".to_string()),
    }
}

fn originated() -> CallSession {
    originate(
        &request(),
        media_config(),
        MediaProxyMode::All,
        RingbackConfig {
            mode: RingbackMode::Auto,
            audio_file: None,
            loop_playback: false,
        },
        1_000,
    )
}

#[test]
fn originated_call_is_planned() {
    let s = originated();
    assert_eq!(s.context.kind, SessionKind::RwiSingleLeg);
    assert_eq!(s.context.dialplan.max_call_duration, Some(3_600_000));
    assert_eq!(s.context.dialplan.call_timeout, 30_000);
    assert_eq!(s.context.dialplan.allow_codecs.len(), 6);
    assert_eq!(s.context.max_forwards, 70);
    assert_eq!(s.context.original_callee, "Bob");
    assert_eq!(
        s.shared.snapshot().caller.as_deref(),
        Some("sip:rwi@local")
    );
    assert!(s.use_media_proxy && s.shared.entry.is_some());
}

#[test]
fn originated_call_is_answered() {
    let mut s = originated();
    let mut dial = OriginatedDial::begin(&mut s, Some(OFFER.to_string()), 1_000);
    assert_eq!(s.shared.snapshot().phase, ProxyCallPhase::Dialing);
    let step = dial.on_event(&mut s, OriginatedEvent::Calling, 2_000);
    assert!(matches!(step.report, Some(OriginatedSessionEvent::Ringing)));
    assert_eq!(s.ring_time, Some(2_000));
    let step = dial.on_event(&mut s, OriginatedEvent::Early, 3_000);
    assert!(matches!(step.report, Some(OriginatedSessionEvent::EarlyMedia)));
    assert_eq!(s.ring_time, Some(2_000));
    let answered = OriginatedEvent::InviteDone(OriginatedResult::Answered {
        dialog_id: dialog("out"),
        body: ANSWER.to_string(),
    });
    let step = dial.on_event(&mut s, answered, 4_000);
    assert!(matches!(step.report, Some(OriginatedSessionEvent::Answered)));
    assert!(dial.connected && dial.invite_completed);
    assert_eq!(s.answer_time, Some(4_000));
    assert_eq!(s.shared.snapshot().phase, ProxyCallPhase::Bridged);
    assert_eq!(s.exported_leg.media.answer_sdp.as_deref(), Some(ANSWER));
    assert_eq!(s.connected_callee_dialog(), Ok(dialog("out")));
    assert_eq!(s.shared.surface.dialogs, vec!["out-l-r"]);

    let update = OriginatedEvent::Updated {
        dialog_id: dialog("out"),
        method: Method::Invite,
        body: ANSWER.to_string(),
        handle: 11,
    };
    let step = dial.on_event(&mut s, update, 4_500);
    match step.next {
        OriginatedNext::Renegotiated(outcome) => {
            let reply = outcome.reply.unwrap();
            assert_eq!((reply.handle, reply.status), (11, 200));
        }
        other => panic!("{:?}", other),
    }

    let (id, held) = s.begin_hold(Some(OFFER.to_string()), true).unwrap();
    assert_eq!(id, dialog("out"));
    assert!(held.contains("a=sendonly"));
    let (_, resumed) = s.begin_hold(Some(OFFER.to_string()), false).unwrap();
    assert!(resumed.contains("a=sendrecv"));
    s.finish_hold(Some(ANSWER.to_string()));
    assert!(s.shared.surface.media.published);
    assert_eq!(
        s.begin_hold(None, true).err(),
        Some(CalleeRequestError::NoLocalDescription)
    );
    let (id, target) = s.begin_refer("sip:carol@c.com").unwrap();
    assert_eq!(id, dialog("out"));
    assert_eq!(target.to_text(), "sip:carol@c.com");
    assert_eq!(
        s.begin_refer("").err(),
        Some(CalleeRequestError::InvalidTarget)
    );
    assert!(s.try_begin_refer("sip:carol@c.com").unwrap().is_ok());
    // A target that cannot be read is refused with or without a leg to a callee.
    let alone = session(SessionKind::RwiSingleLeg);
    assert_eq!(
        alone.begin_refer("").err(),
        Some(CalleeRequestError::InvalidTarget)
    );
    assert_eq!(
        alone.try_begin_refer("").unwrap().err(),
        Some(CalleeRequestError::InvalidTarget)
    );
    assert!(alone.try_begin_refer("sip:carol@c.com").is_none());

    let step = dial.on_event(&mut s, OriginatedEvent::Terminated, 5_000);
    assert!(matches!(
        step.report,
        Some(OriginatedSessionEvent::Hangup { reason }) if reason == "terminated"
    ));
    assert_eq!(s.hangup_reason, Some(CallRecordHangupReason::ByCallee));
    assert!(matches!(
        dial.on_event(&mut s, OriginatedEvent::Cancelled, 6_000).next,
        OriginatedNext::HangUp(true)
    ));
}

#[test]
fn originated_call_fails() {
    let mut s = originated();
    let mut dial = OriginatedDial::begin(&mut s, None, 0);
    let step = dial.on_event(&mut s, OriginatedEvent::Timeout, 30_000);
    assert!(matches!(
        step.report,
        Some(OriginatedSessionEvent::Failed { reason, sip_status: Some(408) }) if reason == "no_answer"
    ));
    assert!(matches!(step.next, OriginatedNext::Failed(OriginateError::Timeout)));
    assert_eq!(s.hangup_reason, Some(CallRecordHangupReason::NoAnswer));

    let mut s = originated();
    let mut dial = OriginatedDial::begin(&mut s, None, 0);
    let busy = OriginatedEvent::InviteDone(OriginatedResult::Refused { code: Some(486) });
    let step = dial.on_event(&mut s, busy, 0);
    assert!(matches!(step.report, Some(OriginatedSessionEvent::Busy)));
    assert!(matches!(step.next, OriginatedNext::Failed(OriginateError::Refused)));

    let mut s = originated();
    let mut dial = OriginatedDial::begin(&mut s, None, 0);
    let error = OriginatedEvent::InviteDone(OriginatedResult::Error("x".to_string()));
    let step = dial.on_event(&mut s, error, 0);
    assert!(matches!(step.next, OriginatedNext::Failed(OriginateError::Failed)));
    assert_eq!(s.last_error, Some((500, Some("x".to_string()))));
    assert!(matches!(
        dial.on_event(&mut s, OriginatedEvent::Closed, 0).next,
        OriginatedNext::Done { cancel: false }
    ));
    assert_eq!(
        s.connected_callee_dialog(),
        Err(CalleeRequestError::NoConnectedDialog)
    );
}

#[test]
fn local_offers_change_direction() {
    let held = build_local_offer_with_direction(OFFER, MediaDirection::Inactive).unwrap();
    assert!(held.contains("a=inactive"));
    assert!(!held.contains("a=sendrecv"));
    assert!(build_local_offer_with_direction("nonsense", MediaDirection::SendOnly).is_none());
    let section = |is_audio| SdpMedia {
        is_audio,
        formats: Vec::new(),
        attributes: Vec::new(),
    };
    assert_eq!(
        audio_sections(&vec![section(true), section(false), section(true)]),
        vec![0, 2]
    );
    assert_eq!(finish_refer(Some(202)), Ok(()));
    assert_eq!(finish_refer(Some(403)), Err(CalleeRequestError::Rejected(403)));
    assert_eq!(finish_refer(None), Err(CalleeRequestError::NoResponse));
    assert_eq!(hold_music_file(Some(String::new())), None);
    assert_eq!(hold_music_file(Some("m".to_string())).as_deref(), Some("m"));
}

#[test]
fn calls_need_a_readable_description() {
    assert_eq!(admission(""), Admission::MissingDescription);
    assert_eq!(admission("nonsense"), Admission::MalformedDescription);
    assert_eq!(admission("  "), Admission::Admitted);
    assert_eq!(admission(OFFER), Admission::Admitted);
    assert_eq!(admission_of("x", false), Admission::MalformedDescription);
    assert_eq!(Admission::MissingDescription.refusal(), Some(488));
    assert_eq!(Admission::MalformedDescription.refusal(), Some(400));
    assert_eq!(Admission::Admitted.refusal(), None);
}

#[test]
fn proxied_session_begins() {
    let s = proxy_session(
        context(SessionKind::Proxy),
        ServerDialog {
            id: dialog("in"),
            phase: DialogPhase::Pending,
        },
        OFFER.to_string(),
        &vec![Header::Other("Supported".to_string(), "trickle-ice".to_string())],
        MediaProxyMode::Auto,
        true,
        false,
        Some("sip:bob@b.com".to_string()),
        5,
    );
    assert!(s.use_media_proxy);
    assert!(s.exported_leg.sip.supports_trickle_ice);
    assert_eq!(
        s.shared.snapshot().caller.as_deref(),
        Some("sip:alice@a.com")
    );
    assert_eq!(s.shared.entry.as_ref().unwrap().started_at, 5);
    let recording = RecordingConfig {
        enabled: true,
        auto_start: true,
        option: Some(RecorderOption {
            recorder_file: "f".to_string(),
            samplerate: 8000,
            ptime: 20,
        }),
    };
    assert!(initial_recorder(&recording, false).is_some());
    assert!(initial_recorder(&recording, true).is_none());
}

#[test]
fn setup_waits_between_half_a_minute_and_two() {
    for (ring, deadline) in [(0, 31_000), (60, 61_000), (500, 121_000)] {
        assert_eq!(SetupWait::new(ring, 1_000).deadline, deadline);
    }
    let mut wait = SetupWait::new(60, 0);
    wait.on_cancelled(10_000);
    assert!(!wait.is_over(11_999));
    assert!(wait.is_over(12_000));
    wait.on_cancelled(50_000);
    assert_eq!(wait.deadline, 12_000);
}

#[test]
fn test_dtmf_listener_cancel_is_installed_and_cleared() {
    let mut s = proxy();
    s.shared = CallSessionShared::new(
        "dtmf-runtime-test".to_string(),
        DialDirection::Inbound,
        Some("sip:1001@127.0.0.1".to_string()),
        Some("sip:4000@127.0.0.1".to_string()),
        0,
    );
    let token = 3;

    s.exported_leg.media.set_dtmf_listener_cancel(token);
    s.shared.set_dtmf_listener_cancel(Some(token));
    assert_eq!(s.shared.cancel_dtmf_listener(), Some(token));
    assert_eq!(s.shared.cancel_dtmf_listener(), None);

    let token2 = 4;
    s.exported_leg.media.set_dtmf_listener_cancel(token2);
    assert_eq!(s.teardown_app(), Some(token2));
    assert!(!s.shared.send_app_event(ControllerEvent::Custom(
        "probe".to_string(),
        "{\"ok\":true}".to_string(),
    )));
    assert_eq!(s.teardown_app(), None);
}

#[test]
fn plans_are_carried_out() {
    let mut s = proxy();
    s.enter_routing();
    assert_eq!(s.shared.snapshot().phase, ProxyCallPhase::Routing);
    // What was asked for meanwhile is done before the plan begins.
    s.shared.set_queue_name(Some("sales".to_string()));
    assert!(matches!(s.begin_dialplan(false), DialplanStart::Run));
    assert_eq!(s.shared.snapshot().phase, ProxyCallPhase::Routing);
    assert_eq!(s.shared.queue_name().as_deref(), Some("sales"));
    s.begin_targets();
    assert_eq!(s.shared.snapshot().phase, ProxyCallPhase::Dialing);
    assert_eq!(
        s.finish_targets(TargetsOutcome::Connected),
        TargetsEnd::Done
    );
    assert_eq!(
        s.finish_targets(TargetsOutcome::Failed),
        TargetsEnd::HandleFailure
    );
    assert_eq!(
        s.finish_targets(TargetsOutcome::TimedOut),
        TargetsEnd::TimeoutElapsed
    );
    assert_eq!(s.last_error.as_ref().unwrap().0, 408);

    let mut empty = proxy();
    assert!(matches!(empty.begin_dialplan(true), DialplanStart::Failed));
    assert_eq!(
        empty.last_error,
        Some((500, Some("No targets in dialplan".to_string())))
    );
    let mut forwarded = proxy();
    forwarded.context.dialplan.call_forwarding = Some(CallForwardingConfig {
        mode: CallForwardingMode::Always,
        endpoint: TransferEndpoint::Uri("sip:x@y".to_string()),
        timeout: 0,
    });
    assert!(matches!(
        forwarded.begin_dialplan(false),
        DialplanStart::Forward(_)
    ));
    let mut app = proxy();
    app.begin_application();
    assert_eq!(app.shared.snapshot().phase, ProxyCallPhase::App);
    assert!(matches!(
        plan_flow(
            &DialplanFlow::Targets(DialStrategy::Parallel(Vec::new())),
            FlowFailureHandling::Handle
        ),
        FlowPlan::Targets { handle: true, .. }
    ));
    assert!(matches!(
        plan_flow(
            &DialplanFlow::Application {
                app_name: "ivr".to_string(),
                app_params: None,
                auto_answer: true
            },
            FlowFailureHandling::Propagate
        ),
        FlowPlan::Application { auto_answer: true, .. }
    ));
}

#[test]
fn applications_are_found_by_name() {
    let s = proxy();
    let all = AppSupport {
        registry: true,
        voicemail: true,
        gateway: true,
    };
    let params = Some(vec![
        ("file".to_string(), "menu.toml".to_string()),
        ("extension".to_string(), "77".to_string()),
    ]);
    assert_eq!(
        find_param(params.as_ref().unwrap(), "extension").as_deref(),
        Some("77")
    );
    assert!(matches!(
        s.build_call_app("voicemail", &params, all),
        Ok(AppChoice::Voicemail { extension, caller_id }) if extension == "77" && caller_id == "alice"
    ));
    assert!(matches!(
        s.build_call_app("check_voicemail", &None, all),
        Ok(AppChoice::CheckVoicemail)
    ));
    assert!(matches!(
        s.build_call_app("ivr", &params, all),
        Ok(AppChoice::Ivr { file }) if file == "menu.toml"
    ));
    assert!(matches!(
        s.build_call_app("ivr", &None, all),
        Err(AppError::MissingFile)
    ));
    assert!(matches!(
        s.build_call_app("rwi", &None, all),
        Ok(AppChoice::Rwi { context, session_id: None }) if context == "default"
    ));
    let bare = AppSupport {
        registry: true,
        voicemail: false,
        gateway: false,
    };
    assert!(matches!(
        s.build_call_app("rwi", &None, bare),
        Err(AppError::NoGateway)
    ));
    assert!(matches!(
        s.build_call_app("voicemail", &None, bare),
        Err(AppError::Unknown(n)) if n == "voicemail"
    ));
    let nothing = AppSupport {
        registry: false,
        voicemail: true,
        gateway: true,
    };
    assert!(matches!(
        s.build_call_app("ivr", &params, nothing),
        Err(AppError::NoRegistry)
    ));
}

#[test]
fn applications_are_attached_and_detached() {
    let mut s = proxy();
    let own = s.install_event_bridge(Some("sip:t@x".to_string()), 3);
    assert_eq!(own.snapshot().callee.as_deref(), Some("sip:t@x"));
    assert!(s.app_listens);
    assert!(s
        .shared
        .send_app_event(ControllerEvent::DtmfReceived("1".to_string())));
    assert_eq!(s.spawn_dtmf_listener_if_needed(42).unwrap().len(), 1);
    assert_eq!(s.app_call_info(9).started_at, 9);
    assert_eq!(s.teardown_app(), Some(42));
    assert!(!s.app_listens);
    assert_eq!(s.shared.cancel_dtmf_listener(), None);
    s.exported_leg.media.offer_sdp = Some(ANSWER.to_string());
    assert!(s.spawn_dtmf_listener_if_needed(43).is_none());

    assert_eq!(app_result(AppEnd::Completed), Ok(()));
    assert_eq!(app_result(AppEnd::Cancelled), Ok(()));
    assert_eq!(
        app_result(AppEnd::Failed("e".to_string())),
        Err("e".to_string())
    );
    assert_eq!(
        app_result(AppEnd::Panicked("e".to_string())),
        Err("Application task panicked: e".to_string())
    );
}

#[test]
fn calls_are_begun_from_their_plan() {
    let parties = RequestParties {
        from_uri: Some(uri("from", "a.com")),
        to_uri: None,
        from_value: Some("<sip:from@a.com>".to_string()),
        to_value: None,
    };
    let c = CallSessionBuilder::new(plan(), None, 5)
        .with_cancel_token(1)
        .with_call_record_sender(Some(2))
        .with_addon_registry(None)
        .build_context(&parties, Some("sip:t@x".to_string()), media_config(), 4);
    assert_eq!(c.session_id, "s1");
    assert_eq!(c.original_caller, "sip:from@a.com");
    assert_eq!(c.original_callee, "sip:t@x");
    assert_eq!(c.max_forwards, 5);

    let mut unnamed = plan();
    unnamed.session_id = None;
    let (c, record) = CallSessionBuilder::new(unnamed, None, 5).report_failure(
        parties,
        403,
        Some("no".to_string()),
        None,
        media_config(),
        4,
    );
    assert_eq!(c.session_id.len(), 36);
    assert_eq!(c.original_caller, "<sip:from@a.com>");
    assert_eq!(c.original_callee, "");
    assert_eq!(record.last_error, Some((403, Some("no".to_string()))));
    let peer = VoiceEnginePeer::new(MediaStream::of_leg("s1", "caller"));
    assert_eq!(peer.stream.id, "s1-caller");
}
