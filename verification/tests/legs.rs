//! The legs of a call: dialogs, session timers, trickled candidates, queues.

use active_call::call_leg::{CallLeg, LegError, LegRole};
use active_call::media_endpoint::{prompt_complete, prompt_is_playable, AnswerPlan, MediaEndpoint, PromptEnd};
use active_call::model::{DialStrategy, DialplanFlow, Location, QueueHoldConfig, QueuePlan};
use active_call::negotiate::CodecType;
use active_call::queue_flow::{QueueEnd, QueueFlow, QueueStart};
use active_call::session_timer::{
    has_timer_support, lists_tag, parse_min_se, parse_session_expires, SessionRefresher,
    SessionTimerState,
};
use active_call::sip::{Header, Uri};
use active_call::sip_leg::{
    CallLegDirection, DialogId, DialogPhase, InboundHangup, ServerDialog, ServerReply, SipLeg,
    LOCAL_MIN_SE,
};
use active_call::state::ControllerEvent;

fn dialog(call_id: &str) -> DialogId {
    DialogId {
        call_id: call_id.to_string(),
        local_tag: "l".to_string(),
        remote_tag: "r".to_string(),
    }
}

fn other(name: &str, value: &str) -> Header {
    Header::Other(name.to_string(), value.to_string())
}

fn uri(user: &str, host: &str) -> Uri {
    Uri {
        scheme: "sip:".to_string(),
        user: Some(user.to_string()),
        password: None,
        host: host.to_string(),
        port: None,
        params: String::new(),
    }
}

#[test]
fn test_set_connected_dialog_tracks_value() {
    let mut sip_leg = SipLeg::new(CallLegDirection::Outbound, 0);
    let dialog_id = DialogId {
        call_id: "call-id".to_string(),
        local_tag: "local-tag".to_string(),
        remote_tag: "remote-tag".to_string(),
    };
    sip_leg.set_connected_dialog(dialog_id.clone());
    assert_eq!(sip_leg.connected_dialog(), Some(&dialog_id));
}

#[test]
fn test_init_timer_from_final_response_parses_header() {
    let mut sip_leg = SipLeg::new(CallLegDirection::Outbound, 0);
    let headers = vec![other("Session-Expires", "120;refresher=uac")];
    sip_leg.init_timer_from_final_response(&headers, 1800, 5);
    let timer = sip_leg.session_timer;
    assert!(timer.active);
    assert_eq!(timer.session_interval, 120);
    assert_eq!(timer.refresher, SessionRefresher::Uac);
    assert_eq!(timer.last_refresh, 5);
}

#[test]
fn test_should_retry_code_defaults_true_without_policy() {
    assert!(QueueFlow::should_retry_code(None, 486));
}

#[test]
fn test_should_retry_code_respects_retry_list() {
    let retry_codes = vec![408, 486];
    assert!(QueueFlow::should_retry_code(Some(&retry_codes), 486));
    assert!(!QueueFlow::should_retry_code(Some(&retry_codes), 603));
}

#[test]
fn response_without_the_header_gets_the_default_interval() {
    let mut leg = SipLeg::new(CallLegDirection::Outbound, 0);
    leg.init_timer_from_final_response(&Vec::new(), 1800, 7);
    assert!(leg.session_timer.active);
    assert_eq!(leg.session_timer.session_interval, 1800);

    let mut unreadable = SipLeg::new(CallLegDirection::Outbound, 0);
    unreadable.init_timer_from_final_response(&vec![other("Session-Expires", "soon")], 1800, 7);
    assert!(!unreadable.session_timer.active);
}

#[test]
fn request_sets_or_is_refused_its_interval() {
    let mut leg = SipLeg::new(CallLegDirection::Inbound, 0);
    assert!(leg
        .init_timer_from_initial_request(&vec![other("session-expires", "600;refresher=uas")], 1800)
        .is_ok());
    assert_eq!(leg.session_timer.session_interval, 600);
    assert_eq!(leg.session_timer.refresher, SessionRefresher::Uas);

    let mut short = SipLeg::new(CallLegDirection::Inbound, 0);
    let refused = short.init_timer_from_initial_request(&vec![other("Session-Expires", "89")], 1800);
    assert_eq!(refused, Err((422, Some("90".to_string()))));
    assert!(!short.session_timer.active);
    assert_eq!(LOCAL_MIN_SE, 90);

    let mut supported = SipLeg::new(CallLegDirection::Inbound, 0);
    let list = vec![other("Supported", "100rel, timer")];
    assert!(supported.init_timer_from_initial_request(&list, 1800).is_ok());
    assert_eq!(supported.session_timer.refresher, SessionRefresher::Uas);
    assert_eq!(supported.session_timer.session_interval, 1800);

    let mut silent = SipLeg::new(CallLegDirection::Inbound, 0);
    assert!(silent.init_timer_from_initial_request(&Vec::new(), 900).is_ok());
    assert_eq!(silent.session_timer.refresher, SessionRefresher::Uac);
}

#[test]
fn refresh_restarts_the_timer() {
    let mut timer = SessionTimerState::new(0);
    SipLeg::refresh_timer_state(&mut timer, &Vec::new(), 10);
    assert_eq!(timer.last_refresh, 0);
    SipLeg::refresh_timer_state(&mut timer, &vec![other("Session-Expires", "200")], 20);
    assert!(timer.active);
    assert_eq!(timer.session_interval, 200);
    assert_eq!(timer.last_refresh, 20);
    SipLeg::refresh_timer_state(&mut timer, &Vec::new(), 30);
    assert_eq!(timer.last_refresh, 30);
}

#[test]
fn refresh_is_due_at_half_of_the_interval() {
    let mut timer = SessionTimerState::new(0);
    timer.active = true;
    timer.session_interval = 100;
    assert!(!timer.should_refresh(49_999));
    assert!(timer.should_refresh(50_000));
    assert!(!timer.is_expired(99_999));
    assert!(timer.is_expired(100_000));
    timer.refreshing = true;
    assert!(!timer.should_refresh(60_000));
    timer.update_refresh(100_000);
    assert!(!timer.is_expired(150_000));
}

#[test]
fn timer_headers_are_read() {
    assert_eq!(parse_session_expires("1800"), Some((1800, None)));
    assert_eq!(
        parse_session_expires(" 90 ; refresher=UAS"),
        Some((90, Some(SessionRefresher::Uas)))
    );
    assert_eq!(parse_session_expires("x"), None);
    assert_eq!(parse_min_se("90;x=1"), Some(90));
    assert_eq!(parse_min_se(""), None);
    assert!(lists_tag("a, Timer ,b", "timer"));
    assert!(!lists_tag("timers", "timer"));
    assert!(has_timer_support(&vec![other("Supported", "timer")]));
    assert!(has_timer_support(&vec![Header::Supported("timer".to_string())]));
    assert!(has_timer_support(&vec![Header::Supported("100rel, TIMER".to_string())]));
    assert!(!has_timer_support(&vec![Header::Supported("100rel".to_string())]));
    assert!(!has_timer_support(&Vec::new()));
}

#[test]
fn trickled_candidates_are_announced_by_header() {
    assert!(SipLeg::has_trickle_ice_support(&vec![other(
        "Supported",
        "timer, trickle-ice"
    )]));
    assert!(SipLeg::has_trickle_ice_support(&vec![other(
        "X-RustPBX-Trickle-ICE",
        " yes "
    )]));
    assert!(!SipLeg::has_trickle_ice_support(&vec![other(
        "X-RustPBX-Trickle-ICE",
        "no"
    )]));
    assert!(SipLeg::has_trickle_ice_support(&vec![Header::Supported(
        "timer,trickle-ice".to_string()
    )]));
    assert!(!SipLeg::has_trickle_ice_support(&Vec::new()));
}

#[test]
fn ended_dialog_is_closed_but_recorded() {
    let mut leg = SipLeg::new(CallLegDirection::Outbound, 0);
    leg.add_dialog(dialog("a"));
    leg.add_dialog(dialog("a"));
    leg.open_dialog(dialog("b"));
    assert_eq!(leg.active_dialog_ids.len(), 2);
    assert_eq!(leg.recorded_dialogs(), vec![dialog("a")]);
    assert!(!leg.is_new_dialog(&dialog("a")));
    assert!(leg.remove_dialog(&dialog("a")));
    assert!(!leg.remove_dialog(&dialog("a")));
    assert!(leg.is_new_dialog(&dialog("a")));
    assert_eq!(leg.recorded_as("a-l-r"), Some(dialog("a")));
    assert_eq!(leg.recorded_as("b-l-r"), None);
}

#[test]
fn invite_carries_timer_and_offer() {
    let mut target = Location::bare(uri("bob", "b.com"), false);
    target.destination = None;
    let invite = SipLeg::build_outbound_invite_option(
        &target,
        uri("alice", "a.com"),
        Some("Alice".to_string()),
        Some("v=0".to_string()),
        None,
        vec![other("X-A", "1")],
        69,
        Some(1800),
        Some("cid".to_string()),
    );
    assert_eq!(invite.content_type.as_deref(), Some("application/sdp"));
    assert_eq!(invite.contact.to_text(), "sip:alice@a.com");
    assert_eq!(invite.callee.to_text(), "sip:bob@b.com");
    let headers = invite.headers.unwrap();
    assert_eq!(headers.len(), 4);
    assert!(matches!(&headers[1], Header::MaxForwards(69)));
    assert!(matches!(&headers[2], Header::Supported(v) if v == "timer"));
    assert!(matches!(&headers[3], Header::Other(n, v) if n == "Session-Expires" && v == "1800"));
}

#[test]
fn inbound_dialog_ends_as_its_phase_asks() {
    let mut leg = CallLeg::new(
        "s-exported".to_string(),
        LegRole::Caller,
        CallLegDirection::Inbound,
        None,
        0,
    );
    assert_eq!(leg.inbound_dialog().err(), Some(LegError::NoServerDialog));
    assert!(leg.is_server_dialog_terminated());
    assert!(matches!(leg.hangup_inbound(None, None), InboundHangup::Nothing));
    for (phase, code, expected) in [
        (DialogPhase::Pending, Some(486), "Reject(486, None)"),
        (DialogPhase::Pending, None, "Reject(487, None)"),
        (DialogPhase::WaitAck, Some(486), "Bye"),
        (DialogPhase::Confirmed, None, "Bye"),
        (DialogPhase::Terminated, None, "Nothing"),
    ] {
        leg.set_server_dialog(ServerDialog {
            id: dialog("a"),
            phase,
        });
        assert_eq!(format!("{:?}", leg.hangup_inbound(code, None)), expected);
    }
    assert_eq!(leg.inbound_dialog().ok(), Some(dialog("a")));
    assert_eq!(leg.server_dialog_id(), Some(dialog("a")));
    leg.set_server_dialog(ServerDialog {
        id: dialog("a"),
        phase: DialogPhase::Confirmed,
    });
    assert!(leg.is_server_dialog_confirmed());
    assert!(matches!(
        leg.hangup_inbound(None, Some("bye".to_string())),
        InboundHangup::ByeWithReason(t) if t == "bye"
    ));
    leg.sip.open_dialog(dialog("x"));
    assert_eq!(leg.terminate_client_dialogs(), vec![dialog("x")]);
}

fn queue(targets: Vec<Location>) -> QueuePlan {
    QueuePlan {
        accept_immediately: false,
        hold: None,
        dial_strategy: Some(DialStrategy::Sequential(targets)),
        label: None,
        retry_codes: None,
        no_trying_timeout: Some(4_000),
    }
}

#[test]
fn queue_rings_its_members() {
    let member = || Location::bare(uri("m", "x"), false);
    assert_eq!(QueueFlow::start(&queue(Vec::new())), QueueStart::Fail);
    assert_eq!(QueueFlow::start(&queue(vec![member()])), QueueStart::Dial);
    let mut music = queue(vec![member()]);
    music.accept_immediately = true;
    music.hold = Some(QueueHoldConfig {
        audio_file: Some("hold.wav".to_string()),
        loop_playback: true,
    });
    assert_eq!(
        QueueFlow::start(&music),
        QueueStart::AcceptThenDial { hold: true }
    );
    assert_eq!(
        QueueFlow::start_hold(&music),
        Some(("hold.wav".to_string(), true))
    );
    assert_eq!(QueueFlow::start_hold(&queue(Vec::new())), None);
    assert_eq!(QueueFlow::handle_queue_failure(true), QueueEnd::Next);
    assert_eq!(QueueFlow::handle_queue_failure(false), QueueEnd::Failure);
    assert_eq!(QueueFlow::finish(&music, true, true).0, QueueEnd::Connected);
    assert_eq!(QueueFlow::timed_out(), (408, Some("No-trying timeout".to_string())));
    let flow = DialplanFlow::Queue {
        plan: queue(Vec::new()),
        next: Box::new(DialplanFlow::Targets(DialStrategy::Parallel(Vec::new()))),
    };
    assert_eq!(QueueFlow::attempt_timeout(&flow), Some(4_000));
}

#[test]
fn queue_names_of_digits_are_references() {
    assert_eq!(QueueFlow::lookup_ref("42"), "db-42");
    assert_eq!(QueueFlow::lookup_ref("sales"), "sales");
    assert_eq!(
        QueueFlow::labelled(queue(Vec::new()), "sales").label.as_deref(),
        Some("sales")
    );
}

#[test]
fn answer_is_made_once() {
    let mut endpoint = MediaEndpoint::new(None);
    let offer = "v=0\r\nm=audio 1 UDP/TLS/RTP/SAVPF 0\r\n";
    assert!(matches!(
        endpoint.plan_caller_answer(Some(offer), false),
        AnswerPlan::AnswerWithNew { webrtc: true }
    ));
    assert!(matches!(
        endpoint.plan_caller_answer(Some(offer), true),
        AnswerPlan::AnswerWithExisting
    ));
    assert!(matches!(
        endpoint.plan_caller_answer(Some("  "), true),
        AnswerPlan::Describe { webrtc: false }
    ));
    assert!(matches!(
        endpoint.plan_caller_answer(None, false),
        AnswerPlan::Describe { webrtc: false }
    ));
    endpoint.store_answer("answer".to_string());
    assert!(matches!(
        endpoint.plan_caller_answer(Some(offer), false),
        AnswerPlan::Cached(a) if a == "answer"
    ));
    assert!(!endpoint.needs_remote_answer("answer"));
    assert!(endpoint.needs_remote_answer("other"));
    assert_eq!(endpoint.hold_codec(), CodecType::PCMU);
}

#[test]
fn test_missing_file_sends_interrupted_immediately() {
    assert!(!prompt_is_playable("/nonexistent/phantom.wav", false));
    assert!(prompt_is_playable("https://x/p.wav", false));
    assert!(prompt_is_playable("/p.wav", true));
    assert!(matches!(
        prompt_complete("default", PromptEnd::Missing),
        ControllerEvent::AudioComplete { track_id, interrupted: true } if track_id == "default"
    ));
}

#[test]
fn prompt_counts_as_interrupted_unless_it_was_played_out() {
    for (end, cut) in [
        (PromptEnd::Completed, false),
        (PromptEnd::Cancelled, true),
        (PromptEnd::NotStarted, true),
    ] {
        assert!(matches!(
            prompt_complete("t", end),
            ControllerEvent::AudioComplete { interrupted, .. } if interrupted == cut
        ));
    }
}

#[test]
fn requests_of_the_caller_are_answered_with_the_description() {
    assert!(matches!(
        SipLeg::reply_to_server_reinvite(Some("v=0".to_string())),
        ServerReply::Accept(s) if s == "v=0"
    ));
    assert!(matches!(
        SipLeg::reply_to_server_reinvite(None),
        ServerReply::Reject(488)
    ));
    assert!(matches!(
        SipLeg::reply_to_server_offerless_update(Some("v=0".to_string())),
        ServerReply::Accept(s) if s == "v=0"
    ));
    assert!(matches!(
        SipLeg::reply_to_server_offerless_update(None),
        ServerReply::Nothing
    ));
}
