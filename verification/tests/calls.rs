//! Taking on calls: refusals, recordings, directions and plans.

use active_call::call::{
    allow_methods, apply_callee_settings, apply_hints, apply_recording_policy,
    build_recorder_option, call_target, callee_user, choose_limiter, classify_request, covers,
    default_resolve, escape_reason_text, failure_direction, forwarded_hops, identity_from_uri,
    match_pattern, matches_any_pattern, name_recording, pattern_takes, q850_cause_from_status,
    q850_reason_value, refuse_plan, render_filename, resolve_direction,
    sanitize_filename_component, CallRequest, CalleeSettings, DialplanHints, LimiterChoice,
    PlanBase, PreviewOutcome, RecorderDefaults, RecordingNames, RecordingPolicy,
};
use active_call::model::{
    CallForwardingConfig, CallForwardingMode, DialDirection, DialStrategy, Dialplan, DialplanFlow,
    Location, MediaProxyMode, QueuePlan, RecorderOption, RecordingConfig, RingbackConfig,
    RingbackMode, TransferEndpoint,
};
use active_call::negotiate::CodecType;
use active_call::sip::{Method, Uri};

fn uri(user: Option<&str>, host: &str) -> Uri {
    Uri {
        scheme: "sip:".to_string(),
        user: user.map(|u| u.to_string()),
        password: None,
        host: host.to_string(),
        port: None,
        params: String::new(),
    }
}

fn plan() -> Dialplan {
    Dialplan {
        direction: DialDirection::Inbound,
        session_id: Some("s1".to_string()),
        call_id: None,
        caller_display_name: None,
        caller: None,
        caller_contact: None,
        flow: DialplanFlow::Targets(DialStrategy::Sequential(Vec::new())),
        max_ring_time: 60,
        recording: RecordingConfig {
            enabled: false,
            auto_start: false,
            option: None,
        },
        ringback: RingbackConfig {
            mode: RingbackMode::Auto,
            audio_file: None,
            loop_playback: false,
        },
        max_call_duration: None,
        call_timeout: 60_000,
        call_forwarding: None,
        voicemail_enabled: false,
        allow_codecs: vec![CodecType::PCMU],
        passthrough_failure: false,
        media_proxy: MediaProxyMode::Auto,
        enable_sipflow: true,
    }
}

fn policy() -> RecordingPolicy {
    RecordingPolicy {
        enabled: true,
        directions: Vec::new(),
        caller_allow: Vec::new(),
        caller_deny: Vec::new(),
        callee_allow: Vec::new(),
        callee_deny: Vec::new(),
        auto_start: None,
        filename_pattern: None,
        samplerate: None,
        ptime: None,
        root: "/rec".to_string(),
    }
}

fn names() -> RecordingNames {
    RecordingNames {
        caller: "alice@a.com".to_string(),
        callee: "bob@b.com".to_string(),
        direction: "inbound".to_string(),
        timestamp: "20240101-000000".to_string(),
    }
}

const DEFAULTS: RecorderDefaults = RecorderDefaults {
    samplerate: 16000,
    ptime: 200,
};

#[test]
fn causes_of_response_codes() {
    for (code, cause) in [
        (403, 21),
        (603, 21),
        (404, 1),
        (484, 1),
        (410, 22),
        (413, 127),
        (420, 127),
        (408, 18),
        (480, 18),
        (486, 17),
        (600, 17),
        (487, 31),
        (488, 79),
        (606, 79),
        (502, 38),
        (503, 38),
        (504, 34),
        (500, 41),
        (599, 41),
        (200, 16),
        (699, 16),
    ] {
        assert_eq!(q850_cause_from_status(code), cause, "code {}", code);
    }
}

#[test]
fn reasons_are_quoted() {
    assert_eq!(escape_reason_text("a\"b\\c"), "a\\\"b\\\\c");
    assert_eq!(
        q850_reason_value(486, Some("  he said \"no\" ")),
        "Q.850;cause=17;text=\"he said \\\"no\\\"\""
    );
    assert_eq!(
        q850_reason_value(404, None),
        "Q.850;cause=1;text=\"SIP 404\""
    );
    assert_eq!(
        q850_reason_value(404, Some("  ")),
        "Q.850;cause=1;text=\"SIP 404\""
    );
}

#[test]
fn patterns_select_parties() {
    assert!(match_pattern("*", "anything"));
    assert!(match_pattern("alice@*", "alice@a.com"));
    assert!(!match_pattern("alice@*", "bob@a.com"));
    assert!(match_pattern("[", "["));
    assert!(match_pattern("a[", "A["));
    assert!(pattern_takes("x", "X", None));
    assert!(!pattern_takes("x", "x", Some(false)));
    assert!(pattern_takes("*", "x", Some(false)));
    let list = vec!["1*".to_string(), "2*".to_string()];
    assert!(matches_any_pattern("21", &list));
    assert!(!matches_any_pattern("31", &list));
}

#[test]
fn identities_name_user_and_host() {
    assert_eq!(identity_from_uri(&uri(Some("alice"), "a.com")), "alice@a.com");
    assert_eq!(identity_from_uri(&uri(None, "a.com")), "a.com");
}

#[test]
fn file_names_are_filled_and_cleaned() {
    assert_eq!(
        render_filename("{session_id}-{caller}-{callee}-{direction}-{timestamp}", "s", "a", "b", "in", "t"),
        "s-a-b-in-t"
    );
    assert_eq!(sanitize_filename_component("alice@a.com", "f"), "alice_a.com");
    assert_eq!(sanitize_filename_component("../../etc", "f"), "_.._etc");
    assert_eq!(sanitize_filename_component("@@@", "f"), "f");
    assert_eq!(sanitize_filename_component("a  //  b", "f"), "a_b");
    let long = "x".repeat(300);
    assert_eq!(sanitize_filename_component(&long, "f").len(), 120);
}

#[test]
fn recordings_are_named_after_the_session() {
    assert_eq!(name_recording(&policy(), &names(), "s1"), "s1");
    let mut p = policy();
    p.filename_pattern = Some("{caller}/{callee}".to_string());
    assert_eq!(
        name_recording(&p, &names(), "s1"),
        "alice_a.com_bob_b.com"
    );
}

#[test]
fn recorder_has_path_and_format() {
    let mut p = policy();
    p.samplerate = Some(8000);
    let o = build_recorder_option(&Some("s.1".to_string()), &p, &names(), DEFAULTS).unwrap();
    assert_eq!(o.recorder_file, "/rec/s.wav");
    assert_eq!(o.samplerate, 8000);
    assert_eq!(o.ptime, 200);
    let random = build_recorder_option(&None, &p, &names(), DEFAULTS).unwrap();
    let other = build_recorder_option(&None, &p, &names(), DEFAULTS).unwrap();
    assert_eq!(random.recorder_file.len(), "/rec/".len() + 36 + ".wav".len());
    assert_ne!(random.recorder_file, other.recorder_file);
    assert!(build_recorder_option(&Some(String::new()), &p, &names(), DEFAULTS).is_none());
}

#[test]
fn recorder_paths_are_paths_of_the_system() {
    for root in ["/rec", "/rec/", "", ".", "a/b", "..", "a/./", "/"] {
        for id in [
            "s", "s.1", "a.b.c", "..", ".", "/", "/.", "//", "_", "./.", "@", "/..", "@/", "@/.", "../", "@.",
            ".@", "/@", "@.@", "./@",
        ] {
            let mut p = policy();
            p.root = root.to_string();
            let o = build_recorder_option(&Some(id.to_string()), &p, &names(), DEFAULTS).unwrap();
            let mut path = std::path::PathBuf::from(root);
            path.push(name_recording(&p, &names(), id));
            path.set_extension("wav");
            assert_eq!(o.recorder_file, path.to_string_lossy(), "{} {}", root, id);
        }
    }
}

#[test]
fn policy_covers_directions_and_parties() {
    assert!(covers(&policy(), DialDirection::Inbound, "a", "b"));
    let mut p = policy();
    p.directions = vec![DialDirection::Outbound];
    assert!(!covers(&p, DialDirection::Inbound, "a", "b"));
    assert!(covers(&p, DialDirection::Outbound, "a", "b"));
    let mut p = policy();
    p.caller_deny = vec!["a*".to_string()];
    assert!(!covers(&p, DialDirection::Inbound, "abc", "b"));
    let mut p = policy();
    p.callee_allow = vec!["b".to_string()];
    assert!(covers(&p, DialDirection::Inbound, "a", "b"));
    assert!(!covers(&p, DialDirection::Inbound, "a", "c"));
}

#[test]
fn covered_calls_are_recorded() {
    let r = apply_recording_policy(plan(), &Some(policy()), &names(), DEFAULTS);
    assert!(r.recording.enabled);
    assert!(r.recording.auto_start);
    assert_eq!(r.recording.option.unwrap().recorder_file, "/rec/s1.wav");
    // A call without an id is recorded under a new one.
    let mut unnamed = plan();
    unnamed.session_id = None;
    let r = apply_recording_policy(unnamed, &Some(policy()), &names(), DEFAULTS);
    let file = r.recording.option.unwrap().recorder_file;
    assert_eq!(file.len(), "/rec/".len() + 36 + ".wav".len());
    assert!(file.starts_with("/rec/") && file.ends_with(".wav"));

    let mut off = policy();
    off.enabled = false;
    let r = apply_recording_policy(plan(), &Some(off), &names(), DEFAULTS);
    assert!(!r.recording.enabled);
    let r = apply_recording_policy(plan(), &None, &names(), DEFAULTS);
    assert!(!r.recording.enabled);

    // A call that has its recorder keeps it.
    let mut own = plan();
    own.recording.enabled = true;
    own.recording.option = Some(RecorderOption {
        recorder_file: "mine.wav".to_string(),
        samplerate: 1,
        ptime: 2,
    });
    let r = apply_recording_policy(own, &Some(policy()), &names(), DEFAULTS);
    assert_eq!(r.recording.option.unwrap().recorder_file, "mine.wav");

    // A format that the plan sets is filled up by the policy.
    let mut half = plan();
    half.recording.option = Some(RecorderOption {
        recorder_file: String::new(),
        samplerate: 1,
        ptime: 2,
    });
    let mut p = policy();
    p.ptime = Some(20);
    p.auto_start = Some(false);
    let r = apply_recording_policy(half, &Some(p), &names(), DEFAULTS);
    assert!(!r.recording.auto_start);
    let o = r.recording.option.unwrap();
    assert_eq!(o.recorder_file, "/rec/s1.wav");
    assert_eq!((o.samplerate, o.ptime), (1, 20));
}

#[test]
fn directions_follow_from_the_parties() {
    assert_eq!(
        resolve_direction(true, true, false, false),
        Ok(DialDirection::Internal)
    );
    assert_eq!(
        resolve_direction(true, true, false, true),
        Ok(DialDirection::Outbound)
    );
    assert_eq!(
        resolve_direction(true, true, true, false),
        Ok(DialDirection::Outbound)
    );
    assert_eq!(
        resolve_direction(true, false, false, false),
        Ok(DialDirection::Outbound)
    );
    assert_eq!(
        resolve_direction(false, true, false, false),
        Ok(DialDirection::Inbound)
    );
    assert_eq!(
        resolve_direction(false, false, true, false),
        Ok(DialDirection::Inbound)
    );
    assert_eq!(
        resolve_direction(false, false, false, false),
        Err((
            "Both caller and callee are external realm".to_string(),
            Some(403)
        ))
    );
    assert_eq!(failure_direction(true), DialDirection::Inbound);
    assert_eq!(failure_direction(false), DialDirection::Internal);
}

#[test]
fn target_takes_secure_media_where_a_location_does() {
    let callee = || uri(Some("bob"), "b.com");
    let found = Some(vec![
        Location::bare(callee(), false),
        Location::bare(callee(), true),
    ]);
    assert!(call_target(callee(), &found).supports_webrtc);
    assert!(!call_target(callee(), &None).supports_webrtc);
    assert!(!call_target(callee(), &Some(Vec::new())).supports_webrtc);
}

fn hints() -> DialplanHints {
    DialplanHints {
        enable_recording: None,
        bypass_media: None,
        max_duration: None,
        enable_sipflow: None,
        allow_codecs: None,
    }
}

#[test]
fn hints_change_the_plan() {
    let mut h = hints();
    h.enable_recording = Some(true);
    h.bypass_media = Some(true);
    h.max_duration = Some(5_000);
    h.enable_sipflow = Some(false);
    h.allow_codecs = Some(vec!["pcma".to_string(), "nonsense".to_string(), "g722".to_string()]);
    let r = apply_hints(plan(), &Some(h), &Some(vec!["opus".to_string()]));
    assert!(r.recording.enabled);
    assert_eq!(r.media_proxy, MediaProxyMode::Disabled);
    assert_eq!(r.max_call_duration, Some(5_000));
    assert!(!r.enable_sipflow);
    assert_eq!(r.allow_codecs, vec![CodecType::PCMA, CodecType::G722]);

    let r = apply_hints(plan(), &None, &Some(vec!["g729".to_string()]));
    assert_eq!(r.allow_codecs, vec![CodecType::G729]);
    let r = apply_hints(plan(), &None, &Some(vec!["nonsense".to_string()]));
    assert_eq!(r.allow_codecs, vec![CodecType::PCMU]);
    let r = apply_hints(plan(), &Some(hints()), &None);
    assert_eq!(r.allow_codecs, vec![CodecType::PCMU]);
    assert_eq!(r.media_proxy, MediaProxyMode::Auto);
}

fn resolve(preview: PreviewOutcome) -> Result<Dialplan, (String, Option<u16>)> {
    default_resolve(
        PlanBase {
            dialplan: plan(),
            recording: RecordingConfig {
                enabled: true,
                auto_start: true,
                option: None,
            },
            passthrough_failure: true,
            media_proxy: MediaProxyMode::All,
            codecs: None,
        },
        "session".to_string(),
        DialDirection::Internal,
        uri(Some("alice"), "a.com"),
        Location::bare(uri(Some("bob"), "b.com"), false),
        preview,
        Some(uri(Some("rustpbx"), "p.com")),
    )
}

#[test]
fn routing_decides_on_the_flow() {
    let forward = resolve(PreviewOutcome::Forward(None)).unwrap();
    assert!(matches!(
        &forward.flow,
        DialplanFlow::Targets(DialStrategy::Sequential(t)) if t.len() == 1
    ));
    assert_eq!(forward.session_id.as_deref(), Some("session"));
    assert_eq!(forward.direction, DialDirection::Internal);
    assert!(forward.recording.enabled && forward.passthrough_failure);
    assert_eq!(forward.media_proxy, MediaProxyMode::All);
    assert_eq!(
        forward.caller_contact.unwrap().to_text(),
        "sip:rustpbx@p.com"
    );

    let app = resolve(PreviewOutcome::Application {
        app_name: "ivr".to_string(),
        app_params: None,
        auto_answer: true,
    })
    .unwrap();
    assert!(matches!(
        app.flow,
        DialplanFlow::Application { app_name, auto_answer: true, .. } if app_name == "ivr"
    ));

    let mut h = hints();
    h.max_duration = Some(7);
    let queue = resolve(PreviewOutcome::Queue {
        plan: QueuePlan {
            label: None,
            accept_immediately: true,
            hold: None,
            dial_strategy: None,
            retry_codes: None,
            no_trying_timeout: None,
        },
        hints: Some(h),
    })
    .unwrap();
    assert!(matches!(queue.flow, DialplanFlow::Queue { .. }));
    assert_eq!(queue.max_call_duration, Some(7));

    assert!(resolve(PreviewOutcome::NotHandled(None)).is_ok());
    assert_eq!(
        resolve(PreviewOutcome::Abort(603, None)).err(),
        Some(("route aborted during preview".to_string(), Some(603)))
    );
    assert_eq!(
        resolve(PreviewOutcome::Abort(403, Some("no".to_string()))).err(),
        Some(("no".to_string(), Some(403)))
    );
}

#[test]
fn own_users_set_forwarding_and_voicemail() {
    let settings = |to: &str| CalleeSettings {
        forwarding: Some(CallForwardingConfig {
            mode: CallForwardingMode::Always,
            endpoint: TransferEndpoint::Uri(to.to_string()),
            timeout: 10,
        }),
        voicemail_disabled: false,
    };
    let r = apply_callee_settings(plan(), Some(settings("sip:x@y")), false);
    assert!(r.voicemail_enabled);
    assert!(r.call_forwarding.is_some());
    let r = apply_callee_settings(plan(), Some(settings("sip:x@y")), true);
    assert!(!r.voicemail_enabled && r.call_forwarding.is_none());
    let mut forwarded = plan();
    forwarded.call_forwarding = settings("sip:first@y").forwarding;
    let r = apply_callee_settings(forwarded, Some(settings("sip:second@y")), false);
    assert!(matches!(
        r.call_forwarding.unwrap().endpoint,
        TransferEndpoint::Uri(u) if u == "sip:first@y"
    ));
    assert_eq!(
        callee_user(&uri(Some(" bob "), "b.com"), true).as_deref(),
        Some("bob")
    );
    assert_eq!(callee_user(&uri(Some("bob"), "b.com"), false), None);
    assert_eq!(callee_user(&uri(None, "b.com"), true), None);
}

#[test]
fn hops_run_out() {
    assert_eq!(forwarded_hops(None), Some(69));
    assert_eq!(forwarded_hops(Some("10")), Some(9));
    assert_eq!(forwarded_hops(Some("1")), Some(0));
    assert_eq!(forwarded_hops(Some("0")), None);
    assert_eq!(forwarded_hops(Some("many")), Some(69));
}

#[test]
fn requests_are_told_apart() {
    assert_eq!(classify_request(Method::Invite, ""), CallRequest::NewCall);
    assert_eq!(classify_request(Method::Invite, "t"), CallRequest::InDialog);
    assert_eq!(classify_request(Method::Bye, ""), CallRequest::InDialog);
    assert_eq!(
        classify_request(Method::Register, ""),
        CallRequest::NotHandled
    );
    assert_eq!(allow_methods().len(), 6);
}

#[test]
fn refused_plans_are_answered_unless_spam() {
    let error = ("no route".to_string(), Some(404));
    assert_eq!(
        refuse_plan(&error, false),
        Some((404, "Q.850;cause=1;text=\"no route\"".to_string()))
    );
    assert_eq!(refuse_plan(&error, true), None);
    assert_eq!(
        refuse_plan(&("x".to_string(), None), false).map(|r| r.0),
        Some(500)
    );
}

#[test]
fn limiter_is_given_or_configured() {
    assert_eq!(choose_limiter(true, None, false), LimiterChoice::Given);
    assert_eq!(
        choose_limiter(false, Some("db"), true),
        LimiterChoice::Database
    );
    assert_eq!(
        choose_limiter(false, Some("db"), false),
        LimiterChoice::InMemory
    );
    assert_eq!(
        choose_limiter(false, Some("memory"), true),
        LimiterChoice::InMemory
    );
    assert_eq!(choose_limiter(false, None, true), LimiterChoice::NoLimit);
}
