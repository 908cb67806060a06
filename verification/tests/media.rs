//! DTMF events, the bridge between two legs and the media of one leg.

use active_call::dtmf_listener::{parse_dtmf_rfc4733, DtmfReader};
use active_call::media_bridge::{
    sender_ssrc, AudioFrame, BridgeTracks, ForwardState, FrameVerdict, Leg, MediaBridge, Outbound,
    RecordedAs, RtpTiming,
};
use active_call::media_endpoint::MediaEndpoint;
use active_call::negotiate::{CodecInfo, CodecType, MediaNegotiator, RtpCodecParameters};

const OFFER: &str = "v=0\r\n\
    o=- 1 1 IN IP4 10.0.0.1\r\n\
    s=-\r\n\
    c=IN IP4 10.0.0.1\r\n\
    t=0 0\r\n\
    m=audio 4000 RTP/AVP 8 0 101\r\n\
    a=rtpmap:8 PCMA/8000\r\n\
    a=rtpmap:0 PCMU/8000\r\n\
    a=rtpmap:101 telephone-event/8000\r\n\
    a=ssrc:1234 cname:a\r\n";

fn info(payload_type: u8, codec: CodecType, clock_rate: u32) -> CodecInfo {
    CodecInfo {
        payload_type,
        codec,
        clock_rate,
        channels: 1,
    }
}

fn frame(rtp_timestamp: u32, sequence: u16, payload_type: u8, data: &[u8]) -> AudioFrame {
    AudioFrame {
        rtp_timestamp,
        clock_rate: 8000,
        data: data.to_vec(),
        sequence_number: Some(sequence),
        payload_type: Some(payload_type),
        marker: false,
    }
}

fn bridge(codec_a: CodecType, codec_b: CodecType) -> MediaBridge {
    MediaBridge {
        params_a: RtpCodecParameters {
            payload_type: codec_a.payload_type(),
            clock_rate: codec_a.clock_rate(),
            channels: 1,
        },
        params_b: RtpCodecParameters {
            payload_type: codec_b.payload_type(),
            clock_rate: codec_b.clock_rate(),
            channels: 1,
        },
        codec_a,
        codec_b,
        dtmf_codecs_a: vec![info(101, CodecType::TelephoneEvent, 8000)],
        dtmf_codecs_b: vec![info(110, CodecType::TelephoneEvent, 48000)],
        ssrc_a: None,
        ssrc_b: None,
        started: false,
        call_id: "test-call-id".to_string(),
    }
}

#[test]
fn test_parse_dtmf_digits_0_to_9() {
    for code in 0u8..=9 {
        let payload = [code, 0x80, 0x00, 0xA0];
        assert_eq!(parse_dtmf_rfc4733(&payload), Some(code.to_string()));
    }
}

#[test]
fn test_parse_dtmf_star_and_hash() {
    let star = [10u8, 0x80, 0x00, 0xA0];
    assert_eq!(parse_dtmf_rfc4733(&star), Some("*".to_string()));

    let hash = [11u8, 0x80, 0x00, 0xA0];
    assert_eq!(parse_dtmf_rfc4733(&hash), Some("#".to_string()));
}

#[test]
fn test_parse_dtmf_abcd() {
    for (event, ch) in [(12u8, 'A'), (13u8, 'B'), (14u8, 'C'), (15u8, 'D')] {
        let payload = [event, 0x80, 0x00, 0xA0];
        assert_eq!(parse_dtmf_rfc4733(&payload), Some(ch.to_string()));
    }
}

#[test]
fn test_parse_dtmf_no_end_bit_returns_none() {
    let payload = [1u8, 0x00, 0x00, 0xA0];
    assert_eq!(parse_dtmf_rfc4733(&payload), None);
}

#[test]
fn test_parse_dtmf_short_payload_returns_none() {
    assert_eq!(parse_dtmf_rfc4733(&[]), None);
    assert_eq!(parse_dtmf_rfc4733(&[1, 0x80, 0x00]), None);
}

#[test]
fn test_parse_dtmf_unknown_event_code_returns_none() {
    let payload = [16u8, 0x80, 0x00, 0xA0];
    assert_eq!(parse_dtmf_rfc4733(&payload), None);
}

#[test]
fn digit_is_reported_once_per_event() {
    let mut reader = DtmfReader::new(vec![101]);
    let end = [5u8, 0x80, 0x01, 0x90];
    assert_eq!(reader.on_frame(Some(101), &end, 8000), Some("5".to_string()));
    assert_eq!(reader.on_frame(Some(101), &end, 8000), None);
    assert_eq!(reader.on_frame(Some(101), &end, 9600), Some("5".to_string()));
    assert_eq!(reader.on_frame(Some(0), &end, 12000), None);
    assert_eq!(reader.on_frame(None, &end, 12000), None);
}

#[test]
fn test_media_bridge_transcoding_detection() {
    let mut bridge = bridge(CodecType::PCMU, CodecType::PCMA);
    assert_eq!(bridge.codec_a, CodecType::PCMU);
    assert_eq!(bridge.codec_b, CodecType::PCMA);
    assert!(bridge.needs_transcoding());
    assert!(bridge.start());
    assert!(!bridge.start());
}

#[test]
fn test_dtmf_rewriter_rescales_timestamp_duration_and_payload() {
    let mut timing = RtpTiming::new();
    let mut frame = AudioFrame {
        rtp_timestamp: 8000,
        clock_rate: 8000,
        data: vec![5, 0x80, 0x01, 0x90],
        sequence_number: Some(320),
        payload_type: Some(101),
        marker: false,
    };

    MediaBridge::rewrite_dtmf_duration(&mut frame, 8000, 48000);
    timing.rewrite(&mut frame, 8000, 48000, 110);

    assert_eq!(frame.payload_type, Some(110));
    let first_output_timestamp = frame.rtp_timestamp;
    let first_output_sequence = frame.sequence_number;
    assert_eq!(&frame.data[..], &[5, 0x80, 0x09, 0x60]);

    frame.rtp_timestamp = 8160;
    frame.clock_rate = 8000;
    frame.sequence_number = Some(321);
    frame.data = vec![5, 0x80, 0x03, 0x20];

    MediaBridge::rewrite_dtmf_duration(&mut frame, 8000, 48000);
    timing.rewrite(&mut frame, 8000, 48000, 110);

    assert_eq!(frame.rtp_timestamp, first_output_timestamp + 960);
    assert_eq!(
        frame.sequence_number,
        Some(first_output_sequence.unwrap().wrapping_add(1))
    );
    assert_eq!(&frame.data[..], &[5, 0x80, 0x12, 0xC0]);
}

#[test]
fn test_passthrough_audio_and_dtmf_share_rtp_timeline() {
    let mut timing = RtpTiming::new();
    let mut audio = AudioFrame {
        rtp_timestamp: 48_000,
        clock_rate: 48_000,
        data: vec![0; 8],
        sequence_number: Some(1000),
        payload_type: Some(96),
        marker: false,
    };

    timing.rewrite(&mut audio, 48_000, 8_000, 0);

    let first_output_timestamp = audio.rtp_timestamp;
    let first_output_sequence = audio.sequence_number.unwrap();

    let mut dtmf = AudioFrame {
        rtp_timestamp: 48_960,
        clock_rate: 48_000,
        data: vec![1, 0x80, 0x03, 0xC0],
        sequence_number: Some(1001),
        payload_type: Some(110),
        marker: false,
    };

    timing.rewrite(&mut dtmf, 48_000, 8_000, 101);

    assert_eq!(dtmf.payload_type, Some(101));
    assert_eq!(
        dtmf.sequence_number,
        Some(first_output_sequence.wrapping_add(1))
    );
    assert_eq!(dtmf.rtp_timestamp, first_output_timestamp + 160);
}

#[test]
fn durations_are_cut_off_at_sixteen_bits() {
    let mut long = frame(0, 1, 101, &[1, 0x80, 0xFF, 0xFF]);
    MediaBridge::rewrite_dtmf_duration(&mut long, 8000, 48000);
    assert_eq!(long.data, vec![1, 0x80, 0xFF, 0xFF]);

    let mut short = frame(0, 1, 101, &[1, 0x80, 0x01]);
    MediaBridge::rewrite_dtmf_duration(&mut short, 8000, 48000);
    assert_eq!(short.data, vec![1, 0x80, 0x01]);

    let mut same = frame(0, 1, 101, &[1, 0x80, 0x01, 0x90]);
    MediaBridge::rewrite_dtmf_duration(&mut same, 8000, 8000);
    assert_eq!(same.data, vec![1, 0x80, 0x01, 0x90]);
}

#[test]
fn timeline_wraps_with_its_counters() {
    let mut timing = RtpTiming {
        last_input: Some(u32::MAX - 79),
        last_output: u32::MAX,
        last_sequence: u16::MAX,
    };
    let mut f = frame(80, 7, 0, &[0]);
    timing.rewrite(&mut f, 8000, 8000, 0);
    assert_eq!(f.rtp_timestamp, 159);
    assert_eq!(f.sequence_number, Some(0));
}

#[test]
fn frames_are_recorded_and_sent() {
    let bridge = bridge(CodecType::PCMU, CodecType::PCMA);
    let route = bridge.route(Leg::A);
    let mut state = ForwardState::new();

    let mut audio = frame(160, 1, 0, &[0; 4]);
    let verdict = state.receive(&route, &mut audio, false);
    let out = Outbound {
        transcode: true,
        source_clock_rate: 8000,
        target_clock_rate: 8000,
        target_payload_type: 8,
    };
    assert_eq!(
        verdict,
        FrameVerdict::Forward(
            RecordedAs::Audio {
                codec: CodecType::PCMU
            },
            out
        )
    );
    state.send(&mut audio, out);
    assert_eq!(audio.payload_type, Some(8));
    assert_eq!(audio.rtp_timestamp, 160);

    // The same frame again is neither recorded nor sent.
    let mut again = frame(160, 1, 0, &[0; 4]);
    assert_eq!(
        state.receive(&route, &mut again, false),
        FrameVerdict::Duplicate
    );

    // An event goes out in the clock that the other leg has for events.
    let mut event = frame(320, 2, 101, &[5, 0x80, 0x01, 0x90]);
    assert_eq!(
        state.receive(&route, &mut event, false),
        FrameVerdict::Forward(
            RecordedAs::Dtmf {
                payload_type: 101,
                clock_rate: 8000
            },
            Outbound {
                transcode: false,
                source_clock_rate: 8000,
                target_clock_rate: 48000,
                target_payload_type: 110,
            }
        )
    );
    assert_eq!(event.data, vec![5, 0x80, 0x09, 0x60]);

    let mut quiet = frame(480, 3, 0, &[0; 4]);
    assert_eq!(
        state.receive(&route, &mut quiet, true),
        FrameVerdict::Suppressed
    );
    assert_eq!(state.packet_count, 3);
}

#[test]
fn frames_that_are_not_sent_need_no_clock() {
    let mut bridge = bridge(CodecType::PCMU, CodecType::PCMA);
    bridge.dtmf_codecs_a[0].clock_rate = 0;
    let route = bridge.route(Leg::A);
    let mut state = ForwardState::new();
    state.last_seq = Some(7);
    let mut event = frame(320, 7, 101, &[5, 0x80, 0x01, 0x90]);
    assert_eq!(
        state.receive(&route, &mut event, true),
        FrameVerdict::Suppressed
    );
    assert_eq!(
        state.receive(&route, &mut event, false),
        FrameVerdict::Duplicate
    );
    assert_eq!(event.data, vec![5, 0x80, 0x01, 0x90]);
}

#[test]
fn events_that_the_other_leg_does_not_take_are_recorded_only() {
    let mut bridge = bridge(CodecType::PCMU, CodecType::PCMU);
    bridge.dtmf_codecs_b = Vec::new();
    let mut state = ForwardState::new();
    let mut event = frame(320, 2, 101, &[5, 0x80, 0x01, 0x90]);
    assert_eq!(
        state.receive(&bridge.route(Leg::A), &mut event, false),
        FrameVerdict::Unsupported(RecordedAs::Dtmf {
            payload_type: 101,
            clock_rate: 8000
        })
    );
    assert_eq!(event.data, vec![5, 0x80, 0x01, 0x90]);
}

#[test]
fn event_clock_is_chosen_in_order_of_preference() {
    let source = info(101, CodecType::TelephoneEvent, 16000);
    let same = vec![
        info(97, CodecType::TelephoneEvent, 8000),
        info(98, CodecType::TelephoneEvent, 16000),
    ];
    assert_eq!(
        MediaBridge::select_target_dtmf_codec(&same, &source, 48000),
        Some(same[1])
    );
    let audio = vec![
        info(97, CodecType::TelephoneEvent, 8000),
        info(98, CodecType::TelephoneEvent, 48000),
    ];
    assert_eq!(
        MediaBridge::select_target_dtmf_codec(&audio, &source, 48000),
        Some(audio[1])
    );
    assert_eq!(
        MediaBridge::select_target_dtmf_codec(&audio, &source, 32000),
        Some(audio[0])
    );
    let other = vec![info(99, CodecType::TelephoneEvent, 44100)];
    assert_eq!(
        MediaBridge::select_target_dtmf_codec(&other, &source, 32000),
        Some(other[0])
    );
    assert_eq!(
        MediaBridge::select_target_dtmf_codec(&Vec::new(), &source, 8000),
        None
    );
}

#[test]
fn tracks_are_forwarded_once() {
    let mut tracks = BridgeTracks::new();
    assert!(tracks.on_track(Leg::A, "t1".to_string()));
    assert!(!tracks.on_track(Leg::A, "t1".to_string()));
    assert!(tracks.on_track(Leg::B, "t1".to_string()));
    tracks.on_closed(Leg::A);
    tracks.on_closed(Leg::B);
    assert!(!tracks.is_done());
    tracks.on_forwarder_done();
    tracks.on_forwarder_done();
    assert!(tracks.is_done());
}

#[test]
fn ssrc_is_kept_or_drawn() {
    assert_eq!(sender_ssrc(Some(7), Some(9)), 7);
    assert_eq!(sender_ssrc(None, Some(9)), 9);
    let drawn: Vec<u32> = (0..8).map(|_| sender_ssrc(None, None)).collect();
    assert!(drawn.iter().any(|s| *s != drawn[0]));
}

#[test]
fn test_cancel_dtmf_listener_clears_token() {
    let mut endpoint = MediaEndpoint::new(None);
    endpoint.set_dtmf_listener_cancel(7);
    assert_eq!(endpoint.cancel_dtmf_listener(), Some(7));
    assert!(endpoint.dtmf_listener_cancel.is_none());
}

#[test]
fn description_gives_codecs_and_ssrc() {
    let audio = MediaNegotiator::extract_codec_params(OFFER);
    assert_eq!(audio.audio.len(), 2);
    assert_eq!(audio.audio[0], info(8, CodecType::PCMA, 8000));
    assert_eq!(
        MediaNegotiator::extract_dtmf_codecs(OFFER),
        vec![info(101, CodecType::TelephoneEvent, 8000)]
    );
    assert_eq!(MediaNegotiator::extract_ssrc(OFFER), Some(1234));
    assert_eq!(MediaNegotiator::extract_ssrc("nonsense"), None);
    assert!(MediaNegotiator::extract_all_codecs("nonsense").is_empty());
}

#[test]
fn best_audio_follows_the_allowed_order() {
    let (codec, params, dtmf) =
        MediaEndpoint::select_best_audio_from_sdp(OFFER, &[CodecType::PCMU, CodecType::PCMA])
            .unwrap();
    assert_eq!(codec, CodecType::PCMU);
    assert_eq!(params.payload_type, 0);
    assert_eq!(dtmf.len(), 1);
    let bridged = MediaEndpoint::bridge_selection_from_sdp(OFFER, &[]).unwrap();
    assert_eq!(bridged.codec, CodecType::PCMA);
    assert_eq!(bridged.ssrc, Some(1234));
    let matching =
        MediaEndpoint::matching_bridge_selection_from_sdp(OFFER, Some(CodecType::PCMU)).unwrap();
    assert_eq!(matching.codec, CodecType::PCMU);
}

#[test]
fn payload_types_run_out() {
    let mut used = std::collections::HashSet::new();
    assert_eq!(MediaEndpoint::try_allocate_payload_type(&used, 101), Some(101));
    used.insert(101);
    assert_eq!(MediaEndpoint::try_allocate_payload_type(&used, 101), Some(96));
    for pt in 0..=255u8 {
        used.insert(pt);
    }
    assert_eq!(MediaEndpoint::try_allocate_payload_type(&used, 101), None);
}

#[test]
fn codec_names_are_read_by_the_codec_library() {
    let sdp = "v=0\r\n\
        o=- 1 1 IN IP4 10.0.0.1\r\n\
        s=-\r\n\
        c=IN IP4 10.0.0.1\r\n\
        t=0 0\r\n\
        m=audio 4000 RTP/AVP 97 98 18\r\n\
        a=rtpmap:97 opus/48000/2\r\n\
        a=rtpmap:98 frobnicate/8000\r\n";
    let codecs = MediaNegotiator::extract_all_codecs(sdp);
    assert_eq!(codecs.len(), 2);
    assert_eq!(codecs[0].codec, CodecType::Opus);
    assert_eq!(codecs[0].channels, 2);
    assert_eq!(codecs[1].codec, CodecType::G729);
}

#[test]
fn answer_of_the_other_side_is_kept_once() {
    let mut endpoint = MediaEndpoint::new(None);
    assert!(endpoint.needs_remote_answer(OFFER));
    endpoint.apply_remote_answer(OFFER);
    assert!(!endpoint.needs_remote_answer(OFFER));
    assert_eq!(endpoint.answer_sdp.as_deref(), Some(OFFER));
    assert_eq!(endpoint.ssrc, Some(1234));
    endpoint.ssrc = Some(5);
    endpoint.apply_remote_answer(OFFER);
    assert_eq!(endpoint.ssrc, Some(5));
    endpoint.apply_remote_answer("v=0\r\n");
    assert_eq!(endpoint.ssrc, None);
    assert_eq!(endpoint.answer_sdp.as_deref(), Some("v=0\r\n"));
}

#[test]
fn audio_is_fixed_once() {
    let allow = [CodecType::PCMU];
    let mut endpoint = MediaEndpoint::new(Some(OFFER.to_string()));
    endpoint.freeze_answered_audio(|_| None);
    assert!(endpoint.negotiated_audio.is_none());
    endpoint.freeze_answered_audio(|sdp| MediaEndpoint::select_best_audio_from_sdp(sdp, &allow));
    assert_eq!(endpoint.negotiated_audio.as_ref().unwrap().0, CodecType::PCMU);
    endpoint.freeze_answered_audio_with_allow_codecs(&[CodecType::PCMA]);
    assert_eq!(endpoint.negotiated_audio.as_ref().unwrap().0, CodecType::PCMU);
}

#[test]
fn prompt_takes_the_codec_of_a_track_or_of_the_offer() {
    let endpoint = MediaEndpoint::new(Some(OFFER.to_string()));
    assert_eq!(endpoint.prompt_codec(&vec![]).unwrap().codec, CodecType::PCMA);
    let tracks = vec![
        ("a".to_string(), None),
        ("b".to_string(), Some(info(9, CodecType::G722, 8000))),
    ];
    assert_eq!(endpoint.prompt_codec(&tracks).unwrap().codec, CodecType::G722);
    assert!(MediaEndpoint::new(None).prompt_codec(&vec![]).is_none());
}

#[test]
fn free_payload_type_is_taken() {
    let used: std::collections::HashSet<u8> = [101, 96].into_iter().collect();
    assert_eq!(MediaEndpoint::allocate_dynamic_payload_type(&used, 101), 97);
    assert_eq!(MediaEndpoint::allocate_dynamic_payload_type(&used, 110), 110);
}
