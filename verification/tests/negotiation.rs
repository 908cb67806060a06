//! Codec negotiation between the two legs of a call.

use active_call::caller_negotiation::{
    append_dtmf_codecs, build_final_caller_codec_info, build_optimized_caller_codec_info,
    promote_codec, should_advertise_caller_dtmf, used_payload_types, NegotiationError,
};
use active_call::media_endpoint::MediaEndpoint;
use active_call::negotiate::{CodecInfo, CodecType, MediaNegotiator, SdpAttribute, SdpMedia};

fn codec_types(codec_info: &[CodecInfo]) -> Vec<CodecType> {
    codec_info.iter().map(|codec| codec.codec).collect()
}

fn audio_section(sdp: &str) -> SdpMedia {
    let parsed = rustrtc::SessionDescription::parse(rustrtc::SdpType::Offer, sdp).unwrap();
    let section = parsed
        .media_sections
        .into_iter()
        .find(|m| m.kind == rustrtc::MediaKind::Audio)
        .unwrap();
    SdpMedia {
        is_audio: true,
        formats: section.formats,
        attributes: section
            .attributes
            .into_iter()
            .map(|a| SdpAttribute {
                key: a.key,
                value: a.value,
            })
            .collect(),
    }
}

fn caller_answer(
    caller_codecs: &[CodecInfo],
    caller_dtmf_codecs: &[CodecInfo],
    preferred_codec: Option<CodecType>,
) -> Vec<CodecInfo> {
    let mut codec_info = match preferred_codec {
        Some(codec) => promote_codec(caller_codecs.to_vec(), codec),
        None => caller_codecs.to_vec(),
    };
    let mut used = used_payload_types(&codec_info);
    append_dtmf_codecs(&mut codec_info, caller_dtmf_codecs, &mut used);
    codec_info
}

#[test]
fn caller_negotiation_test_should_advertise_caller_dtmf_for_media_proxy_even_without_callee_dtmf() {
    assert!(should_advertise_caller_dtmf(true, false));
    assert!(should_advertise_caller_dtmf(true, true));
    assert!(should_advertise_caller_dtmf(false, true));
    assert!(!should_advertise_caller_dtmf(false, false));
}

#[test]
fn test_build_final_caller_codec_info_respects_dialplan_priority() {
    let caller_offer_sdp = "v=0\r\n\
        o=- 123 123 IN IP4 192.168.1.10\r\n\
        s=-\r\n\
        c=IN IP4 192.168.1.10\r\n\
        t=0 0\r\n\
        m=audio 5004 RTP/AVP 111 9 0 8\r\n\
        a=rtpmap:111 opus/48000/2\r\n\
        a=rtpmap:9 G722/8000\r\n\
        a=rtpmap:0 PCMU/8000\r\n\
        a=rtpmap:8 PCMA/8000\r\n";
    let callee_answer_sdp = "v=0\r\n\
        o=- 456 456 IN IP4 192.168.1.20\r\n\
        s=-\r\n\
        c=IN IP4 192.168.1.20\r\n\
        t=0 0\r\n\
        m=audio 6004 RTP/AVP 0 8 9\r\n\
        a=rtpmap:0 PCMU/8000\r\n\
        a=rtpmap:8 PCMA/8000\r\n\
        a=rtpmap:9 G722/8000\r\n";
    let codec_info = build_final_caller_codec_info(
        Some(caller_offer_sdp),
        callee_answer_sdp,
        &[CodecType::PCMA, CodecType::PCMU, CodecType::G722],
        false,
    )
    .unwrap();

    assert_eq!(
        codec_types(&codec_info),
        vec![CodecType::PCMA, CodecType::PCMU, CodecType::G722]
    );
}

#[test]
fn test_build_final_caller_codec_info_uses_caller_order_when_dialplan_is_empty() {
    let caller_offer_sdp = "v=0\r\n\
        o=- 123 123 IN IP4 192.168.1.10\r\n\
        s=-\r\n\
        c=IN IP4 192.168.1.10\r\n\
        t=0 0\r\n\
        m=audio 5004 RTP/AVP 0 8\r\n\
        a=rtpmap:0 PCMU/8000\r\n\
        a=rtpmap:8 PCMA/8000\r\n";
    let callee_answer_sdp = "v=0\r\n\
        o=- 456 456 IN IP4 192.168.1.20\r\n\
        s=-\r\n\
        c=IN IP4 192.168.1.20\r\n\
        t=0 0\r\n\
        m=audio 6004 RTP/AVP 8 0\r\n\
        a=rtpmap:8 PCMA/8000\r\n\
        a=rtpmap:0 PCMU/8000\r\n";
    let codec_info =
        build_final_caller_codec_info(Some(caller_offer_sdp), callee_answer_sdp, &[], false)
            .unwrap();

    assert_eq!(codec_types(&codec_info), vec![CodecType::PCMU, CodecType::PCMA]);
}

#[test]
fn test_build_final_caller_codec_info_preserves_dtmf_merge() {
    let caller_offer_sdp = "v=0\r\n\
        o=- 123 123 IN IP4 192.168.1.10\r\n\
        s=-\r\n\
        c=IN IP4 192.168.1.10\r\n\
        t=0 0\r\n\
        m=audio 5004 RTP/AVP 0 101\r\n\
        a=rtpmap:0 PCMU/8000\r\n\
        a=rtpmap:101 telephone-event/8000\r\n";
    let callee_answer_sdp = "v=0\r\n\
        o=- 456 456 IN IP4 192.168.1.20\r\n\
        s=-\r\n\
        c=IN IP4 192.168.1.20\r\n\
        t=0 0\r\n\
        m=audio 6004 RTP/AVP 0\r\n\
        a=rtpmap:0 PCMU/8000\r\n";
    let codec_info = build_final_caller_codec_info(
        Some(caller_offer_sdp),
        callee_answer_sdp,
        &[CodecType::PCMU],
        true,
    )
    .unwrap();

    assert_eq!(
        codec_types(&codec_info),
        vec![CodecType::PCMU, CodecType::TelephoneEvent]
    );
    assert_eq!(codec_info[1].payload_type, 101);
}

#[test]
fn test_build_optimized_caller_codec_info_promotes_callee_selected_codec() {
    let caller_offer_sdp = "v=0\r\n\
        o=- 123 123 IN IP4 192.168.1.10\r\n\
        s=-\r\n\
        c=IN IP4 192.168.1.10\r\n\
        t=0 0\r\n\
        m=audio 5004 RTP/AVP 96 0 8 101\r\n\
        a=rtpmap:96 opus/48000/2\r\n\
        a=rtpmap:0 PCMU/8000\r\n\
        a=rtpmap:8 PCMA/8000\r\n\
        a=rtpmap:101 telephone-event/8000\r\n";
    let callee_answer_sdp = "v=0\r\n\
        o=- 456 456 IN IP4 192.168.1.20\r\n\
        s=-\r\n\
        c=IN IP4 192.168.1.20\r\n\
        t=0 0\r\n\
        m=audio 6004 RTP/AVP 0\r\n\
        a=rtpmap:0 PCMU/8000\r\n";

    let codec_info = build_optimized_caller_codec_info(
        Some(caller_offer_sdp),
        callee_answer_sdp,
        &[CodecType::PCMU, CodecType::Opus],
        false,
    )
    .unwrap();

    assert_eq!(
        codec_types(&codec_info),
        vec![
            CodecType::PCMU,
            CodecType::Opus,
            CodecType::PCMA,
            CodecType::TelephoneEvent
        ]
    );
}

#[test]
fn test_build_optimized_caller_codec_info_keeps_caller_order_when_callee_codec_is_unsupported()
{
    let caller_offer_sdp = "v=0\r\n\
        o=- 123 123 IN IP4 192.168.1.10\r\n\
        s=-\r\n\
        c=IN IP4 192.168.1.10\r\n\
        t=0 0\r\n\
        m=audio 5004 RTP/AVP 96 0 8 101\r\n\
        a=rtpmap:96 opus/48000/2\r\n\
        a=rtpmap:0 PCMU/8000\r\n\
        a=rtpmap:8 PCMA/8000\r\n\
        a=rtpmap:101 telephone-event/8000\r\n";
    let callee_answer_sdp = "v=0\r\n\
        o=- 456 456 IN IP4 192.168.1.20\r\n\
        s=-\r\n\
        c=IN IP4 192.168.1.20\r\n\
        t=0 0\r\n\
        m=audio 6004 RTP/AVP 9\r\n\
        a=rtpmap:9 G722/8000\r\n";

    let codec_info = build_optimized_caller_codec_info(
        Some(caller_offer_sdp),
        callee_answer_sdp,
        &[CodecType::G722],
        false,
    )
    .unwrap();

    assert_eq!(
        codec_types(&codec_info),
        vec![
            CodecType::Opus,
            CodecType::PCMU,
            CodecType::PCMA,
            CodecType::TelephoneEvent
        ]
    );
}

#[test]
fn test_parse_rtp_map_from_sdp() {
    let alice_offer = "v=0\r\n\
        o=- 8819118164752754436 2 IN IP4 127.0.0.1\r\n\
        s=-\r\n\
        t=0 0\r\n\
        m=audio 53824 UDP/TLS/RTP/SAVPF 111 63 9 0 8 13 110 126\r\n\
        a=rtpmap:111 opus/48000/2\r\n\
        a=rtpmap:63 red/48000/2\r\n\
        a=rtpmap:9 G722/8000\r\n\
        a=rtpmap:0 PCMU/8000\r\n\
        a=rtpmap:8 PCMA/8000\r\n\
        a=rtpmap:13 CN/8000\r\n\
        a=rtpmap:110 telephone-event/48000\r\n\
        a=rtpmap:126 telephone-event/8000\r\n";

    let section = audio_section(alice_offer);
    let rtp_map = MediaNegotiator::parse_rtp_map_from_section(&section);

    assert!(
        rtp_map
            .iter()
            .any(|(pt, (codec, _, _))| *pt == 111 && *codec == CodecType::Opus)
    );
    assert!(
        rtp_map
            .iter()
            .any(|(pt, (codec, _, _))| *pt == 0 && *codec == CodecType::PCMU)
    );
    assert!(
        rtp_map
            .iter()
            .any(|(pt, (codec, _, _))| *pt == 8 && *codec == CodecType::PCMA)
    );
    assert!(
        rtp_map
            .iter()
            .any(|(pt, (codec, _, _))| *pt == 9 && *codec == CodecType::G722)
    );
}

#[test]
fn test_extract_codec_params_opus() {
    let answer = "v=0\r\n\
        o=- 1767067292 1767067293 IN IP4 192.168.3.181\r\n\
        s=-\r\n\
        c=IN IP4 192.168.3.181\r\n\
        t=0 0\r\n\
        m=audio 12005 UDP/TLS/RTP/SAVPF 111\r\n\
        a=rtpmap:111 opus/48000/2\r\n";

    let codecs = MediaNegotiator::extract_codec_params(answer);
    let first = &codecs.audio[0];
    assert_eq!(first.codec, CodecType::Opus);
    assert_eq!(first.payload_type, 111);
    assert_eq!(first.clock_rate, 48000);
    assert_eq!(first.channels, 2);
}

#[test]
fn test_extract_codec_params_pcmu() {
    let answer = "v=0\r\n\
        o=- 1767067292 1767067293 IN IP4 192.168.3.181\r\n\
        s=-\r\n\
        c=IN IP4 192.168.3.181\r\n\
        t=0 0\r\n\
        m=audio 65365 RTP/AVP 0\r\n\
        a=rtpmap:0 PCMU/8000/1\r\n";

    let codecs = MediaNegotiator::extract_codec_params(answer);
    let first = &codecs.audio[0];
    assert_eq!(first.codec, CodecType::PCMU);
    assert_eq!(first.payload_type, 0);
    assert_eq!(first.clock_rate, 8000);
    assert_eq!(first.channels, 1);
}

#[test]
fn test_codec_compatibility_check() {
    let alice_offer = "v=0\r\n\
        o=- 8819118164752754436 2 IN IP4 127.0.0.1\r\n\
        s=-\r\n\
        t=0 0\r\n\
        m=audio 53824 UDP/TLS/RTP/SAVPF 111 9 0 8\r\n\
        a=rtpmap:111 opus/48000/2\r\n\
        a=rtpmap:9 G722/8000\r\n\
        a=rtpmap:0 PCMU/8000\r\n\
        a=rtpmap:8 PCMA/8000\r\n";

    let alice_codecs = MediaNegotiator::extract_codec_params(alice_offer).audio;

    let bob_answer = "v=0\r\n\
        o=- 1767067292 1767067293 IN IP4 192.168.3.181\r\n\
        s=-\r\n\
        c=IN IP4 192.168.3.181\r\n\
        t=0 0\r\n\
        m=audio 65365 RTP/AVP 0\r\n\
        a=rtpmap:0 PCMU/8000/1\r\n";

    let bob_codecs = MediaNegotiator::extract_codec_params(bob_answer).audio;
    let bob_codec = bob_codecs[0].codec;

    let alice_supports_pcmu = alice_codecs.iter().any(|c| c.codec == bob_codec);
    assert!(alice_supports_pcmu, "Alice should support PCMU");

    assert_eq!(bob_codec, CodecType::PCMU);
}

#[test]
fn test_codec_incompatibility() {
    let alice_offer = "v=0\r\n\
        o=- 8819118164752754436 2 IN IP4 127.0.0.1\r\n\
        s=-\r\n\
        t=0 0\r\n\
        m=audio 53824 UDP/TLS/RTP/SAVPF 111\r\n\
        a=rtpmap:111 opus/48000/2\r\n";

    let section = audio_section(alice_offer);
    let alice_codecs = MediaNegotiator::parse_rtp_map_from_section(&section);

    let bob_answer = "v=0\r\n\
        o=- 1767067292 1767067293 IN IP4 192.168.3.181\r\n\
        s=-\r\n\
        c=IN IP4 192.168.3.181\r\n\
        t=0 0\r\n\
        m=audio 65365 RTP/AVP 0\r\n\
        a=rtpmap:0 PCMU/8000/1\r\n";

    let bob_codecs = MediaNegotiator::extract_codec_params(bob_answer).audio;
    let bob_codec = bob_codecs[0].codec;

    let alice_supports_bob = alice_codecs
        .iter()
        .any(|(_, (codec, _, _))| *codec == bob_codec);
    assert!(
        !alice_supports_bob,
        "Alice should not support PCMU in this case, transcoding required"
    );
}

#[test]
fn test_build_callee_offer_preserves_caller_order_then_appends_allow_codecs() {

    let caller_rtp_map = vec![
        (96, (CodecType::Opus, 48000, 2)),
        (0, (CodecType::PCMU, 8000, 1)),
        (8, (CodecType::PCMA, 8000, 1)),
        (18, (CodecType::G729, 8000, 1)),
    ];
    let allow_codecs = vec![
        CodecType::G729,
        CodecType::G722,
        CodecType::PCMU,
        CodecType::PCMA,
        CodecType::Opus,
    ];

    let merged = MediaEndpoint::build_local_offer_codec_info_from_rtp_map(&caller_rtp_map, &allow_codecs);
    let order: Vec<CodecType> = merged
        .iter()
        .filter(|codec| codec.codec != CodecType::TelephoneEvent)
        .map(|codec| codec.codec)
        .collect();

    assert_eq!(
        order,
        vec![
            CodecType::Opus,
            CodecType::PCMU,
            CodecType::PCMA,
            CodecType::G729,
            CodecType::G722,
        ],
        "caller-supported codecs should keep caller order, then append extra allow_codecs"
    );
    assert_eq!(
        merged
            .iter()
            .rev()
            .find(|codec| codec.codec != CodecType::TelephoneEvent)
            .map(|codec| codec.payload_type),
        Some(9),
        "extra static codecs should retain their canonical payload type"
    );
}

#[test]
fn test_build_callee_offer_keeps_opus_pt_when_extra_g729_is_appended() {

    let caller_rtp_map = vec![
        (96, (CodecType::Opus, 48000, 2)),
        (0, (CodecType::PCMU, 8000, 1)),
        (8, (CodecType::PCMA, 8000, 1)),
    ];
    let allow_codecs = vec![
        CodecType::G729,
        CodecType::G722,
        CodecType::PCMU,
        CodecType::PCMA,
        CodecType::Opus,
    ];

    let merged = MediaEndpoint::build_local_offer_codec_info_from_rtp_map(&caller_rtp_map, &allow_codecs);
    let order_and_pt: Vec<(CodecType, u8)> = merged
        .iter()
        .filter(|codec| codec.codec != CodecType::TelephoneEvent)
        .map(|codec| (codec.codec, codec.payload_type))
        .collect();

    assert_eq!(
        order_and_pt,
        vec![
            (CodecType::Opus, 96),
            (CodecType::PCMU, 0),
            (CodecType::PCMA, 8),
            (CodecType::G729, 18),
            (CodecType::G722, 9),
        ],
        "caller-supported Opus must keep PT 96; appended static codecs should keep canonical PTs"
    );
}

#[test]
fn test_build_callee_offer_appended_opus_uses_dynamic_pt() {

    let caller_rtp_map = vec![
        (0, (CodecType::PCMU, 8000, 1)),
        (8, (CodecType::PCMA, 8000, 1)),
        (18, (CodecType::G729, 8000, 1)),
    ];
    let allow_codecs = vec![
        CodecType::G729,
        CodecType::G722,
        CodecType::PCMU,
        CodecType::PCMA,
        CodecType::Opus,
    ];

    let merged = MediaEndpoint::build_local_offer_codec_info_from_rtp_map(&caller_rtp_map, &allow_codecs);
    let order_and_pt: Vec<(CodecType, u8)> = merged
        .iter()
        .filter(|codec| codec.codec != CodecType::TelephoneEvent)
        .map(|codec| (codec.codec, codec.payload_type))
        .collect();

    assert_eq!(
        order_and_pt,
        vec![
            (CodecType::PCMU, 0),
            (CodecType::PCMA, 8),
            (CodecType::G729, 18),
            (CodecType::G722, 9),
            (CodecType::Opus, 96),
        ],
        "only Opus should use a dynamically allocated PT when appended"
    );
}

#[test]
fn test_build_callee_offer_adds_rustpbx_dtmf_capabilities() {

    let caller_rtp_map = vec![
        (96, (CodecType::Opus, 48000, 2)),
        (0, (CodecType::PCMU, 8000, 1)),
    ];
    let allow_codecs = vec![CodecType::PCMU, CodecType::Opus, CodecType::TelephoneEvent];

    let merged = MediaEndpoint::build_local_offer_codec_info_from_rtp_map(&caller_rtp_map, &allow_codecs);

    assert!(
        merged
            .iter()
            .any(|codec| codec.codec == CodecType::TelephoneEvent && codec.clock_rate == 8000),
        "callee offer should advertise rustpbx telephone-event/8000 support"
    );
    assert!(
        merged
            .iter()
            .any(|codec| codec.codec == CodecType::TelephoneEvent && codec.clock_rate == 48000),
        "callee offer should advertise rustpbx telephone-event/48000 support"
    );
}

#[test]
fn test_build_callee_offer_preserves_caller_telephone_event_variants() {

    let caller_rtp_map = vec![
        (96, (CodecType::Opus, 48000, 2)),
        (0, (CodecType::PCMU, 8000, 1)),
        (101, (CodecType::TelephoneEvent, 48000, 1)),
        (97, (CodecType::TelephoneEvent, 8000, 1)),
    ];
    let allow_codecs = vec![CodecType::Opus, CodecType::PCMU, CodecType::PCMA];

    let merged = MediaEndpoint::build_local_offer_codec_info_from_rtp_map(&caller_rtp_map, &allow_codecs);

    assert!(
        merged.iter().any(|codec| {
            codec.codec == CodecType::TelephoneEvent
                && codec.payload_type == 97
                && codec.clock_rate == 8000
        }),
        "callee offer should preserve caller's telephone-event/8000 payload type"
    );
    assert!(
        merged.iter().any(|codec| {
            codec.codec == CodecType::TelephoneEvent
                && codec.payload_type == 101
                && codec.clock_rate == 48000
        }),
        "callee offer should preserve caller's telephone-event/48000 payload type"
    );
}

#[test]
fn test_build_callee_offer_adds_missing_8000_dtmf_when_caller_has_only_48000() {

    let caller_rtp_map = vec![
        (96, (CodecType::Opus, 48000, 2)),
        (101, (CodecType::TelephoneEvent, 48000, 1)),
    ];
    let allow_codecs = vec![CodecType::Opus, CodecType::PCMU];

    let merged = MediaEndpoint::build_local_offer_codec_info_from_rtp_map(&caller_rtp_map, &allow_codecs);

    assert!(
        merged.iter().any(|codec| {
            codec.codec == CodecType::TelephoneEvent
                && codec.payload_type == 101
                && codec.clock_rate == 48000
        }),
        "callee offer should preserve caller's telephone-event/48000 payload type"
    );
    assert!(
        merged.iter().any(|codec| {
            codec.codec == CodecType::TelephoneEvent
                && codec.clock_rate == 8000
                && codec.payload_type != 101
        }),
        "callee offer should append a distinct telephone-event/8000 payload type for rustpbx interworking"
    );
}

#[test]
fn test_media_proxy_offer_preserves_caller_opus_priority_with_default_allow_codecs() {

    let caller_rtp_map = vec![
        (96, (CodecType::Opus, 48000, 2)),
        (0, (CodecType::PCMU, 8000, 1)),
        (8, (CodecType::PCMA, 8000, 1)),
        (18, (CodecType::G729, 8000, 1)),
    ];
    let allow_codecs = vec![
        CodecType::G729,
        CodecType::G722,
        CodecType::PCMU,
        CodecType::PCMA,
        CodecType::Opus,
    ];

    let callee_offer = MediaEndpoint::build_local_offer_codec_info_from_rtp_map(&caller_rtp_map, &allow_codecs);
    let callee_offer_order: Vec<(CodecType, u8)> = callee_offer
        .iter()
        .filter(|codec| codec.codec != CodecType::TelephoneEvent)
        .map(|codec| (codec.codec, codec.payload_type))
        .collect();

    assert_eq!(
        callee_offer_order,
        vec![
            (CodecType::Opus, 96),
            (CodecType::PCMU, 0),
            (CodecType::PCMA, 8),
            (CodecType::G729, 18),
            (CodecType::G722, 9),
        ],
        "media_proxy offer should preserve caller codec order first, so Opus stays ahead of PCMU/PCMA even when allow_codecs starts with G729"
    );

    let callee_answer_sdp = "v=0\r\n\
        o=- 456 456 IN IP4 192.168.1.20\r\n\
        s=-\r\n\
        c=IN IP4 192.168.1.20\r\n\
        t=0 0\r\n\
        m=audio 4000 RTP/AVP 96 0 8\r\n\
        a=rtpmap:96 opus/48000/2\r\n\
        a=rtpmap:0 PCMU/8000\r\n\
        a=rtpmap:8 PCMA/8000\r\n";

    let preferred_codec = MediaNegotiator::extract_codec_params(callee_answer_sdp)
        .audio
        .first()
        .map(|codec| codec.codec);
    assert_eq!(
        preferred_codec,
        Some(CodecType::Opus),
        "when B supports Opus and answers with Opus first, rustpbx should treat Opus as the preferred codec"
    );

    let caller_codecs: Vec<CodecInfo> = caller_rtp_map
        .iter()
        .map(|(pt, (codec, clock_rate, channels))| CodecInfo {
            payload_type: *pt,
            codec: *codec,
            clock_rate: *clock_rate,
            channels: *channels,
        })
        .collect();
    let caller_dtmf_codecs = vec![CodecInfo {
        payload_type: 97,
        codec: CodecType::TelephoneEvent,
        clock_rate: 8000,
        channels: 1,
    }];
    let caller_answer = caller_answer(
        &caller_codecs,
        &caller_dtmf_codecs,
        preferred_codec,
    );
    let caller_answer_order: Vec<CodecType> =
        caller_answer.iter().map(|codec| codec.codec).collect();

    assert_eq!(
        caller_answer_order,
        vec![
            CodecType::Opus,
            CodecType::PCMU,
            CodecType::PCMA,
            CodecType::G729,
            CodecType::TelephoneEvent,
        ],
        "caller answer should keep Opus first when callee also selected Opus, avoiding unnecessary 96->0 transcoding"
    );
}

#[test]
fn test_build_caller_answer_prefers_callee_codec_or_keeps_caller_order() {

    let caller_codecs = vec![
        CodecInfo {
            payload_type: 96,
            codec: CodecType::Opus,
            clock_rate: 48000,
            channels: 2,
        },
        CodecInfo {
            payload_type: 0,
            codec: CodecType::PCMU,
            clock_rate: 8000,
            channels: 1,
        },
        CodecInfo {
            payload_type: 8,
            codec: CodecType::PCMA,
            clock_rate: 8000,
            channels: 1,
        },
    ];

    let preferred = caller_answer(
        &caller_codecs,
        &[CodecInfo {
            payload_type: 101,
            codec: CodecType::TelephoneEvent,
            clock_rate: 8000,
            channels: 1,
        }],
        Some(CodecType::PCMU),
    );
    let preferred_order: Vec<CodecType> = preferred.iter().map(|codec| codec.codec).collect();
    assert_eq!(
        preferred_order,
        vec![
            CodecType::PCMU,
            CodecType::Opus,
            CodecType::PCMA,
            CodecType::TelephoneEvent,
        ],
        "caller answer should prioritize callee's chosen codec when caller also supports it"
    );

    let fallback = caller_answer(
        &caller_codecs,
        &[CodecInfo {
            payload_type: 101,
            codec: CodecType::TelephoneEvent,
            clock_rate: 8000,
            channels: 1,
        }],
        Some(CodecType::G722),
    );
    let fallback_order: Vec<CodecType> = fallback.iter().map(|codec| codec.codec).collect();
    assert_eq!(
        fallback_order,
        vec![
            CodecType::Opus,
            CodecType::PCMU,
            CodecType::PCMA,
            CodecType::TelephoneEvent,
        ],
        "unsupported callee codec should keep caller order and use caller-leg fallback"
    );
}

#[test]
fn codec_negotiation_tests_test_should_advertise_caller_dtmf_for_media_proxy_even_without_callee_dtmf() {
    assert!(should_advertise_caller_dtmf(true, false));
    assert!(should_advertise_caller_dtmf(true, true));
    assert!(should_advertise_caller_dtmf(false, true));
    assert!(!should_advertise_caller_dtmf(false, false));
}

#[test]
fn test_negotiate_final_codec_dialplan_priority() {

    let caller_offer_sdp = "v=0\r\n\
        o=- 123 123 IN IP4 192.168.1.10\r\n\
        s=-\r\n\
        c=IN IP4 192.168.1.10\r\n\
        t=0 0\r\n\
        m=audio 5004 RTP/AVP 111 9 0 8\r\n\
        a=rtpmap:111 opus/48000/2\r\n\
        a=rtpmap:9 G722/8000\r\n\
        a=rtpmap:0 PCMU/8000\r\n\
        a=rtpmap:8 PCMA/8000\r\n";

    let callee_answer_sdp = "v=0\r\n\
        o=- 456 456 IN IP4 192.168.1.20\r\n\
        s=-\r\n\
        c=IN IP4 192.168.1.20\r\n\
        t=0 0\r\n\
        m=audio 6004 RTP/AVP 0 8 9\r\n\
        a=rtpmap:0 PCMU/8000\r\n\
        a=rtpmap:8 PCMA/8000\r\n\
        a=rtpmap:9 G722/8000\r\n";

    let dialplan_codecs = vec![CodecType::PCMA, CodecType::PCMU, CodecType::G722];

    let caller_codecs = MediaNegotiator::extract_all_codecs(caller_offer_sdp);
    let callee_codecs = MediaNegotiator::extract_all_codecs(callee_answer_sdp);

    let mut negotiated = Vec::new();
    for codec_type in &dialplan_codecs {
        if let Some(caller_codec) = caller_codecs.iter().find(|c| &c.codec == codec_type) {
            if callee_codecs.iter().any(|c| c.codec == *codec_type) {
                negotiated.push(caller_codec.clone());
            }
        }
    }

    assert_eq!(negotiated.len(), 3, "Should have 3 codecs in intersection");
    assert_eq!(
        negotiated[0].codec,
        CodecType::PCMA,
        "PCMA should be first (dialplan priority)"
    );
    assert_eq!(
        negotiated[1].codec,
        CodecType::PCMU,
        "PCMU should be second"
    );
    assert_eq!(negotiated[2].codec, CodecType::G722, "G722 should be third");
}

#[test]
fn test_negotiate_empty_dialplan() {

    let caller_offer_sdp = "v=0\r\n\
        o=- 123 123 IN IP4 192.168.1.10\r\n\
        s=-\r\n\
        c=IN IP4 192.168.1.10\r\n\
        t=0 0\r\n\
        m=audio 5004 RTP/AVP 0 8\r\n\
        a=rtpmap:0 PCMU/8000\r\n\
        a=rtpmap:8 PCMA/8000\r\n";

    let callee_answer_sdp = "v=0\r\n\
        o=- 456 456 IN IP4 192.168.1.20\r\n\
        s=-\r\n\
        c=IN IP4 192.168.1.20\r\n\
        t=0 0\r\n\
        m=audio 6004 RTP/AVP 8 0\r\n\
        a=rtpmap:8 PCMA/8000\r\n\
        a=rtpmap:0 PCMU/8000\r\n";

    let caller_codecs = MediaNegotiator::extract_all_codecs(caller_offer_sdp);
    let callee_codecs = MediaNegotiator::extract_all_codecs(callee_answer_sdp);

    let mut negotiated = Vec::new();
    for caller_codec in &caller_codecs {
        if callee_codecs.iter().any(|c| c.codec == caller_codec.codec) {
            negotiated.push(caller_codec.clone());
        }
    }

    assert_eq!(negotiated.len(), 2);
    assert_eq!(
        negotiated[0].codec,
        CodecType::PCMU,
        "PCMU should be first (caller preference)"
    );
    assert_eq!(
        negotiated[1].codec,
        CodecType::PCMA,
        "PCMA should be second"
    );
}

#[test]
fn test_no_common_codec() {

    let caller_offer_sdp = "v=0\r\n\
        o=- 123 123 IN IP4 192.168.1.10\r\n\
        s=-\r\n\
        c=IN IP4 192.168.1.10\r\n\
        t=0 0\r\n\
        m=audio 5004 RTP/AVP 111\r\n\
        a=rtpmap:111 opus/48000/2\r\n";

    let callee_answer_sdp = "v=0\r\n\
        o=- 456 456 IN IP4 192.168.1.20\r\n\
        s=-\r\n\
        c=IN IP4 192.168.1.20\r\n\
        t=0 0\r\n\
        m=audio 6004 RTP/AVP 0\r\n\
        a=rtpmap:0 PCMU/8000\r\n";

    let caller_codecs = MediaNegotiator::extract_all_codecs(caller_offer_sdp);
    let callee_codecs = MediaNegotiator::extract_all_codecs(callee_answer_sdp);

    let mut negotiated = Vec::new();
    for caller_codec in &caller_codecs {
        if callee_codecs.iter().any(|c| c.codec == caller_codec.codec) {
            negotiated.push(caller_codec.clone());
        }
    }

    assert_eq!(
        negotiated.len(),
        0,
        "No common codec should result in empty negotiation"
    );
    assert_eq!(
        build_final_caller_codec_info(Some(caller_offer_sdp), callee_answer_sdp, &[], false),
        Err(NegotiationError::NoCommonCodec)
    );
}

#[test]
fn test_rfc3264_answer_prioritization() {

    let bob_offer_sdp = "v=0\r\n\
        o=- 123 123 IN IP4 127.0.0.1\r\n\
        s=-\r\n\
        t=0 0\r\n\
        m=audio 64348 UDP/TLS/RTP/SAVPF 111 63 9 0 8 13 110 126\r\n\
        a=rtpmap:111 opus/48000/2\r\n\
        a=rtpmap:63 red/48000/2\r\n\
        a=rtpmap:9 G722/8000\r\n\
        a=rtpmap:0 PCMU/8000\r\n\
        a=rtpmap:8 PCMA/8000\r\n\
        a=rtpmap:13 CN/8000\r\n\
        a=rtpmap:110 telephone-event/48000\r\n\
        a=rtpmap:126 telephone-event/8000\r\n";

    let alice_answer_sdp = "v=0\r\n\
        o=- 456 456 IN IP4 192.168.3.211\r\n\
        s=-\r\n\
        c=IN IP4 192.168.3.211\r\n\
        t=0 0\r\n\
        m=audio 58721 RTP/AVP 0 8 9 18 111\r\n\
        a=mid:0\r\n\
        a=sendrecv\r\n\
        a=rtcp-mux\r\n\
        a=rtpmap:0 PCMU/8000/1\r\n\
        a=rtpmap:8 PCMA/8000/1\r\n\
        a=rtpmap:9 G722/8000/1\r\n\
        a=rtpmap:18 G729/8000/1\r\n\
        a=rtpmap:111 opus/48000/2\r\n\
        a=ssrc:853670255 cname:rustrtc-cname-853670255\r\n";

    let alice_codecs = MediaNegotiator::extract_codec_params(alice_answer_sdp).audio;
    let alice_chosen = MediaNegotiator::select_best_codec(&alice_codecs, &[]);
    assert!(alice_chosen.is_some());
    let alice_codec = alice_chosen.unwrap();

    assert_eq!(
        alice_codec.codec,
        CodecType::PCMU,
        "Alice's Answer should prioritize PCMU (first in Answer)"
    );

    let bob_codecs = MediaNegotiator::extract_codec_params(bob_offer_sdp).audio;
    let bob_matching = bob_codecs
        .iter()
        .find(|c| c.codec == alice_codec.codec)
        .cloned();
    assert!(bob_matching.is_some(), "Bob should support PCMU");
    let bob_codec = bob_matching.unwrap();

    assert_eq!(
        bob_codec.codec, alice_codec.codec,
        "Both sides must use the same codec (PCMU)"
    );
    assert_eq!(
        bob_codec.codec,
        CodecType::PCMU,
        "The negotiated codec must be PCMU"
    );

    assert_eq!(
        bob_codec.codec, alice_codec.codec,
        "Same codec on both sides means no transcoding"
    );
}

#[test]
fn test_codec_a_from_caller_offer_not_answer() {

    let caller_offer_sdp = "v=0\r\n\
        o=- 100 100 IN IP4 10.0.0.1\r\n\
        s=-\r\n\
        c=IN IP4 10.0.0.1\r\n\
        t=0 0\r\n\
        m=audio 12000 RTP/AVP 8 0 9 101\r\n\
        a=rtpmap:8 PCMA/8000\r\n\
        a=rtpmap:0 PCMU/8000\r\n\
        a=rtpmap:9 G722/8000\r\n\
        a=rtpmap:101 telephone-event/8000\r\n\
        a=fmtp:101 0-15\r\n";

    let answer_to_caller_sdp = "v=0\r\n\
        o=- 200 200 IN IP4 10.0.0.2\r\n\
        s=-\r\n\
        c=IN IP4 10.0.0.2\r\n\
        t=0 0\r\n\
        m=audio 20000 RTP/AVP 9 0 8 101\r\n\
        a=rtpmap:9 G722/8000\r\n\
        a=rtpmap:0 PCMU/8000\r\n\
        a=rtpmap:8 PCMA/8000\r\n\
        a=rtpmap:101 telephone-event/8000\r\n";

    let allow_codecs = vec![
        CodecType::G729,
        CodecType::G722,
        CodecType::PCMU,
        CodecType::PCMA,
        CodecType::Opus,
        CodecType::TelephoneEvent,
    ];

    let answer_codecs = MediaNegotiator::extract_codec_params(answer_to_caller_sdp).audio;
    let old_codec_a = MediaNegotiator::select_best_codec(&answer_codecs, &allow_codecs);
    assert!(old_codec_a.is_some());
    assert_eq!(
        old_codec_a.unwrap().codec,
        CodecType::G722,
        "the order of the allowed codecs decides on an answer"
    );

    let offer_codecs = MediaNegotiator::extract_codec_params(caller_offer_sdp).audio;
    let new_codec_a = offer_codecs
        .iter()
        .find(|c| c.codec != CodecType::TelephoneEvent)
        .cloned();
    assert!(new_codec_a.is_some());
    assert_eq!(
        new_codec_a.unwrap().codec,
        CodecType::PCMA,
        "first codec from caller's OFFER is PCMA (what they actually send)"
    );
}

#[test]
fn test_early_media_codec_extraction() {

    let caller_offer_sdp = "v=0\r\n\
        o=- 100 100 IN IP4 10.0.0.1\r\n\
        s=-\r\n\
        c=IN IP4 10.0.0.1\r\n\
        t=0 0\r\n\
        m=audio 12000 RTP/AVP 8 0 101\r\n\
        a=rtpmap:8 PCMA/8000\r\n\
        a=rtpmap:0 PCMU/8000\r\n\
        a=rtpmap:101 telephone-event/8000\r\n\
        a=fmtp:101 0-15\r\n";

    let callee_early_sdp = "v=0\r\n\
        o=- 300 300 IN IP4 10.0.0.3\r\n\
        s=-\r\n\
        c=IN IP4 10.0.0.3\r\n\
        t=0 0\r\n\
        m=audio 30000 UDP/TLS/RTP/SAVPF 111 9 0 8 101\r\n\
        a=rtpmap:111 opus/48000/2\r\n\
        a=rtpmap:9 G722/8000\r\n\
        a=rtpmap:0 PCMU/8000\r\n\
        a=rtpmap:8 PCMA/8000\r\n\
        a=rtpmap:101 telephone-event/8000\r\n";

    let answer_for_caller = "v=0\r\n\
        o=- 200 200 IN IP4 10.0.0.2\r\n\
        s=-\r\n\
        c=IN IP4 10.0.0.2\r\n\
        t=0 0\r\n\
        m=audio 20000 RTP/AVP 8 0 101\r\n\
        a=rtpmap:8 PCMA/8000\r\n\
        a=rtpmap:0 PCMU/8000\r\n\
        a=rtpmap:101 telephone-event/8000\r\n";

    let allow_codecs = vec![
        CodecType::G729,
        CodecType::G722,
        CodecType::PCMU,
        CodecType::PCMA,
        CodecType::Opus,
        CodecType::TelephoneEvent,
    ];

    let offer_codecs = MediaNegotiator::extract_codec_params(caller_offer_sdp).audio;
    let codec_a = offer_codecs
        .iter()
        .find(|c| c.codec != CodecType::TelephoneEvent)
        .cloned()
        .unwrap();
    assert_eq!(
        codec_a.codec,
        CodecType::PCMA,
        "codec_a should be PCMA from caller's OFFER"
    );

    let callee_codecs = MediaNegotiator::extract_codec_params(callee_early_sdp).audio;
    let codec_b = MediaNegotiator::select_best_codec(&callee_codecs, &allow_codecs).unwrap();
    assert_ne!(
        codec_b.codec,
        CodecType::TelephoneEvent,
        "codec_b should not be TelephoneEvent"
    );

    let wrong_codecs = MediaNegotiator::extract_codec_params(answer_for_caller).audio;
    let wrong_codec_b =
        MediaNegotiator::select_best_codec(&wrong_codecs, &allow_codecs).unwrap();
    assert_ne!(
        wrong_codec_b.codec, codec_b.codec,
        "Using answer_for_caller for codec_b gives wrong codec (PCMA instead of callee's actual codec)"
    );
}

#[test]
fn test_skip_telephone_event_in_codec_selection() {

    let sdp_with_dtmf_first = "v=0\r\n\
        o=- 456 456 IN IP4 192.168.3.211\r\n\
        s=-\r\n\
        c=IN IP4 192.168.3.211\r\n\
        t=0 0\r\n\
        m=audio 58721 RTP/AVP 101 0 8\r\n\
        a=rtpmap:101 telephone-event/8000\r\n\
        a=rtpmap:0 PCMU/8000\r\n\
        a=rtpmap:8 PCMA/8000\r\n";

    let codecs = MediaNegotiator::extract_codec_params(sdp_with_dtmf_first).audio;
    let chosen = MediaNegotiator::select_best_codec(&codecs, &[]);

    assert!(chosen.is_some());
    let chosen_codec = chosen.unwrap();
    assert_eq!(
        chosen_codec.codec,
        CodecType::PCMU,
        "Should skip TelephoneEvent and select PCMU (first audio codec)"
    );
    assert_ne!(
        chosen_codec.codec,
        CodecType::TelephoneEvent,
        "Should never select TelephoneEvent as audio codec"
    );
}
