//! The bridge between the two legs of a call: which packets pass from one leg
//! to the other, and what becomes of their payload type, timestamp and DTMF
//! duration on the way.
use vstd::prelude::*;
use crate::negotiate::{CodecInfo, CodecType, RtpCodecParameters, copy_codecs};
use crate::text::same;

verus! {

/// A packet of audio, or of DTMF events.
#[derive(Debug)]
pub struct AudioFrame {
    pub rtp_timestamp: u32,
    pub clock_rate: u32,
    pub data: Vec<u8>,
    pub sequence_number: Option<u16>,
    pub payload_type: Option<u8>,
    pub marker: bool,
}

/// A duration in ticks of one clock, in ticks of another; at most what fits
/// into the sixteen bits of a DTMF payload.
pub open spec fn scaled_duration(duration: int, source: u32, target: u32) -> int {
    let scaled = duration * target as int / source as int;
    if scaled > 65535 {
        65535
    } else {
        scaled
    }
}

/// The duration in a DTMF payload.
pub open spec fn dtmf_duration(data: Seq<u8>) -> int {
    data[2] as int * 256 + data[3] as int
}

/// A DTMF payload with its duration in ticks of another clock. One without a
/// duration, and one that keeps its clock, stays as it is.
pub open spec fn rescaled_dtmf(data: Seq<u8>, source: u32, target: u32) -> Seq<u8> {
    if data.len() < 4 || source == target {
        data
    } else {
        let d = scaled_duration(dtmf_duration(data), source, target);
        data.update(2, (d / 256) as u8).update(3, (d % 256) as u8)
    }
}

/// Whether the clock of a DTMF payload can be divided by.
pub open spec fn can_rescale(data: Seq<u8>, source: u32, target: u32) -> bool {
    data.len() < 4 || source == target || source != 0
}

proof fn scaled_duration_bound(duration: int, source: u32, target: u32)
    requires
        0 <= duration <= 65535,
        source > 0,
    ensures
        0 <= duration * target as int,
        duration * target as int <= 65535 * 0xFFFF_FFFF,
        0 <= duration * target as int / source as int,
        duration * target as int / source as int <= duration * target as int,
        0 <= scaled_duration(duration, source, target) <= 65535,
{
    assert(0 <= duration * target <= 65535 * 0xFFFF_FFFF) by (nonlinear_arith)
        requires
            0 <= duration <= 65535,
            0 <= target <= 0xFFFF_FFFF,
    ;
    let p = duration * target as int;
    assert(0 <= p / source as int <= p) by (nonlinear_arith)
        requires
            0 <= p,
            source > 0,
    ;
}

/// The codec of a list with a payload type.
pub open spec fn with_type(codecs: Seq<CodecInfo>, payload_type: u8) -> Option<CodecInfo>
    decreases codecs.len(),
{
    if codecs.len() == 0 {
        None
    } else if codecs[0].payload_type == payload_type {
        Some(codecs[0])
    } else {
        with_type(codecs.drop_first(), payload_type)
    }
}

/// The first codec of a list with a clock rate.
pub open spec fn with_clock(codecs: Seq<CodecInfo>, clock_rate: u32) -> Option<CodecInfo>
    decreases codecs.len(),
{
    if codecs.len() == 0 {
        None
    } else if codecs[0].clock_rate == clock_rate {
        Some(codecs[0])
    } else {
        with_clock(codecs.drop_first(), clock_rate)
    }
}

/// The DTMF codec that the target leg gets events in: one with the clock of the
/// source, else of the target's audio, else of 8000 Hz, else the first.
pub open spec fn target_dtmf(codecs: Seq<CodecInfo>, source: CodecInfo, audio_clock: u32) -> Option<
    CodecInfo,
> {
    match with_clock(codecs, source.clock_rate) {
        Some(c) => Some(c),
        None => match with_clock(codecs, audio_clock) {
            Some(c) => Some(c),
            None => match with_clock(codecs, 8000) {
                Some(c) => Some(c),
                None => if codecs.len() > 0 {
                    Some(codecs[0])
                } else {
                    None
                },
            },
        },
    }
}

/// A DTMF event reaches the other leg wherever that leg takes DTMF events.
pub proof fn dtmf_reaches_target(codecs: Seq<CodecInfo>, source: CodecInfo, audio_clock: u32)
    ensures
        target_dtmf(codecs, source, audio_clock) is Some <==> codecs.len() > 0,
{
    with_clock_is_listed(codecs, source.clock_rate);
    with_clock_is_listed(codecs, audio_clock);
    with_clock_is_listed(codecs, 8000);
}

proof fn with_clock_is_listed(codecs: Seq<CodecInfo>, clock_rate: u32)
    ensures
        with_clock(codecs, clock_rate) matches Some(c) ==> codecs.contains(c) && c.clock_rate
            == clock_rate,
    decreases codecs.len(),
{
    if codecs.len() > 0 {
        with_clock_is_listed(codecs.drop_first(), clock_rate);
        assert(codecs.contains(codecs[0]));
        if let Some(c) = with_clock(codecs.drop_first(), clock_rate) {
            let i = choose|i: int| 0 <= i < codecs.drop_first().len() && codecs.drop_first()[i] == c;
            assert(codecs[i + 1] == c);
        }
    }
}

fn find_clock(codecs: &Vec<CodecInfo>, clock_rate: u32) -> (r: Option<CodecInfo>)
    ensures
        r == with_clock(codecs@, clock_rate),
{
    let mut i: usize = 0;
    assert(codecs@.skip(0) =~= codecs@);
    while i < codecs.len()
        invariant
            i <= codecs.len(),
            with_clock(codecs@.skip(i as int), clock_rate) == with_clock(codecs@, clock_rate),
        decreases codecs.len() - i,
    {
        assert(codecs@.skip(i as int)[0] == codecs@[i as int]);
        assert(codecs@.skip(i as int).drop_first() =~= codecs@.skip(i + 1));
        if codecs[i].clock_rate == clock_rate {
            return Some(codecs[i]);
        }
        i += 1;
    }
    assert(codecs@.skip(i as int) =~= Seq::empty());
    None
}

/// One of the two legs of a call.
#[derive(Clone, Copy, Debug, PartialEq, Eq, Structural)]
pub enum Leg {
    A,
    B,
}

/// What is sent from one leg to the other.
#[derive(Debug)]
pub struct ForwardRoute {
    pub source_codec: CodecType,
    pub target_codec: CodecType,
    pub target_params: RtpCodecParameters,
    pub source_dtmf: Vec<CodecInfo>,
    pub target_dtmf: Vec<CodecInfo>,
}

/// The bridge between the legs of a call.
#[derive(Clone, Debug)]
pub struct MediaBridge {
    pub params_a: RtpCodecParameters,
    pub params_b: RtpCodecParameters,
    pub codec_a: CodecType,
    pub codec_b: CodecType,
    pub dtmf_codecs_a: Vec<CodecInfo>,
    pub dtmf_codecs_b: Vec<CodecInfo>,
    pub ssrc_a: Option<u32>,
    pub ssrc_b: Option<u32>,
    pub started: bool,
    pub call_id: String,
}

impl MediaBridge {
    /// Brings the duration of a DTMF payload to the clock of the target.
    pub fn rewrite_dtmf_duration(frame: &mut AudioFrame, source_clock_rate: u32, target_clock_rate: u32)
        requires
            can_rescale(old(frame).data@, source_clock_rate, target_clock_rate),
        ensures
            final(frame).data@ == rescaled_dtmf(
                old(frame).data@,
                source_clock_rate,
                target_clock_rate,
            ),
            *final(frame) == (AudioFrame { data: final(frame).data, ..*old(frame) }),
    {
        if frame.data.len() < 4 || source_clock_rate == target_clock_rate {
            return;
        }
        let duration: u64 = frame.data[2] as u64 * 256 + frame.data[3] as u64;
        proof {
            scaled_duration_bound(duration as int, source_clock_rate, target_clock_rate);
        }
        let product: u64 = duration * target_clock_rate as u64;
        let quotient: u64 = product / source_clock_rate as u64;
        let scaled: u64 = if quotient > 65535 {
            65535
        } else {
            quotient
        };
        frame.data.set(2, (scaled / 256) as u8);
        frame.data.set(3, (scaled % 256) as u8);
    }

    /// The DTMF codec of a payload type.
    pub fn source_dtmf_codec(source_dtmf_codecs: &Vec<CodecInfo>, payload_type: u8) -> (r: Option<
        CodecInfo,
    >)
        ensures
            r == with_type(source_dtmf_codecs@, payload_type),
    {
        let codecs = source_dtmf_codecs;
        let mut i: usize = 0;
        assert(codecs@.skip(0) =~= codecs@);
        while i < codecs.len()
            invariant
                i <= codecs.len(),
                with_type(codecs@.skip(i as int), payload_type) == with_type(codecs@, payload_type),
                codecs == source_dtmf_codecs,
            decreases codecs.len() - i,
        {
            assert(codecs@.skip(i as int)[0] == codecs@[i as int]);
            assert(codecs@.skip(i as int).drop_first() =~= codecs@.skip(i + 1));
            if codecs[i].payload_type == payload_type {
                return Some(codecs[i]);
            }
            i += 1;
        }
        assert(codecs@.skip(i as int) =~= Seq::empty());
        None
    }

    /// The DTMF codec that the target leg gets events in, see [`target_dtmf`].
    pub fn select_target_dtmf_codec(
        target_dtmf_codecs: &Vec<CodecInfo>,
        source_dtmf: &CodecInfo,
        target_audio_clock_rate: u32,
    ) -> (r: Option<CodecInfo>)
        ensures
            r == target_dtmf(target_dtmf_codecs@, *source_dtmf, target_audio_clock_rate),
    {
        if let Some(c) = find_clock(target_dtmf_codecs, source_dtmf.clock_rate) {
            return Some(c);
        }
        if let Some(c) = find_clock(target_dtmf_codecs, target_audio_clock_rate) {
            return Some(c);
        }
        if let Some(c) = find_clock(target_dtmf_codecs, 8000) {
            return Some(c);
        }
        if target_dtmf_codecs.len() > 0 {
            Some(target_dtmf_codecs[0])
        } else {
            None
        }
    }

    /// Begins to forward; `false` where that was done before.
    pub fn start(&mut self) -> (r: bool)
        ensures
            r == !old(self).started,
            *final(self) == (MediaBridge { started: true, ..*old(self) }),
    {
        let first = !self.started;
        self.started = true;
        first
    }

    /// Whether the legs use different codecs.
    pub fn needs_transcoding(&self) -> (r: bool)
        ensures
            r == (self.codec_a != self.codec_b),
    {
        self.codec_a != self.codec_b
    }

    /// Whether `r` leads from `leg` to the other leg.
    pub open spec fn is_route(self, leg: Leg, r: ForwardRoute) -> bool {
        match leg {
            Leg::A => r.source_codec == self.codec_a && r.target_codec == self.codec_b
                && r.target_params == self.params_b && r.source_dtmf@ == self.dtmf_codecs_a@
                && r.target_dtmf@ == self.dtmf_codecs_b@,
            Leg::B => r.source_codec == self.codec_b && r.target_codec == self.codec_a
                && r.target_params == self.params_a && r.source_dtmf@ == self.dtmf_codecs_b@
                && r.target_dtmf@ == self.dtmf_codecs_a@,
        }
    }

    /// What is sent from `leg` to the other leg.
    pub fn route(&self, leg: Leg) -> (r: ForwardRoute)
        ensures
            self.is_route(leg, r),
    {
        match leg {
            Leg::A => ForwardRoute {
                source_codec: self.codec_a,
                target_codec: self.codec_b,
                target_params: self.params_b,
                source_dtmf: copy_codecs(&self.dtmf_codecs_a),
                target_dtmf: copy_codecs(&self.dtmf_codecs_b),
            },
            Leg::B => ForwardRoute {
                source_codec: self.codec_b,
                target_codec: self.codec_a,
                target_params: self.params_a,
                source_dtmf: copy_codecs(&self.dtmf_codecs_b),
                target_dtmf: copy_codecs(&self.dtmf_codecs_a),
            },
        }
    }
}

/// The outbound timeline of a forwarded track: audio and DTMF events share one
/// run of sequence numbers and timestamps.
#[derive(Clone, Copy, Debug, PartialEq, Eq, Structural)]
pub struct RtpTiming {
    pub last_input: Option<u32>,
    pub last_output: u32,
    pub last_sequence: u16,
}

/// A distance between timestamps of one clock, in ticks of another.
pub open spec fn scaled_ticks(delta: int, source: u32, target: u32) -> int {
    (delta * target as int / source as int) % 0x1_0000_0000
}

/// The distance from one timestamp to a later one, around the wrap.
pub open spec fn ticks_between(from: u32, to: u32) -> int {
    if to >= from {
        to - from
    } else {
        to - from + 0x1_0000_0000
    }
}

impl RtpTiming {
    /// A timeline that has not begun.
    pub fn new() -> (r: RtpTiming)
        ensures
            r == (RtpTiming { last_input: None, last_output: 0, last_sequence: 0 }),
    {
        RtpTiming { last_input: None, last_output: 0, last_sequence: 0 }
    }

    /// The timeline after a frame: it begins with the first frame's own
    /// timestamp and number, then advances by the distance between the inputs
    /// in ticks of the target clock, and by one number for each frame.
    pub open spec fn after(self, timestamp: u32, sequence: Option<u16>, source: u32, target: u32) -> RtpTiming {
        match self.last_input {
            None => RtpTiming {
                last_input: Some(timestamp),
                last_output: timestamp,
                last_sequence: match sequence {
                    Some(s) => s,
                    None => 0,
                },
            },
            Some(t) => RtpTiming {
                last_input: Some(timestamp),
                last_output: ((self.last_output + scaled_ticks(
                    ticks_between(t, timestamp),
                    source,
                    target,
                )) % 0x1_0000_0000) as u32,
                last_sequence: ((self.last_sequence + 1) % 0x1_0000) as u16,
            },
        }
    }

    /// Puts a frame onto the outbound timeline, with the payload type and clock
    /// of the target.
    pub fn rewrite(
        &mut self,
        frame: &mut AudioFrame,
        source_clock_rate: u32,
        target_clock_rate: u32,
        target_payload_type: u8,
    )
        requires
            source_clock_rate > 0,
        ensures
            *final(self) == old(self).after(
                old(frame).rtp_timestamp,
                old(frame).sequence_number,
                source_clock_rate,
                target_clock_rate,
            ),
            *final(frame) == (AudioFrame {
                rtp_timestamp: final(self).last_output,
                sequence_number: Some(final(self).last_sequence),
                payload_type: Some(target_payload_type),
                clock_rate: target_clock_rate,
                ..*old(frame)
            }),
    {
        let timestamp = frame.rtp_timestamp;
        match self.last_input {
            None => {
                self.last_output = timestamp;
                self.last_sequence = match frame.sequence_number {
                    Some(s) => s,
                    None => 0,
                };
            },
            Some(t) => {
                let delta: u64 = if timestamp >= t {
                    (timestamp - t) as u64
                } else {
                    timestamp as u64 + 0x1_0000_0000 - t as u64
                };
                assert(0 <= delta * target_clock_rate <= 0xFFFF_FFFF * 0xFFFF_FFFF)
                    by (nonlinear_arith)
                    requires
                        0 <= delta <= 0xFFFF_FFFF,
                        0 <= target_clock_rate <= 0xFFFF_FFFF,
                ;
                let product: u64 = delta * target_clock_rate as u64;
                let scaled: u64 = (product / source_clock_rate as u64) % 0x1_0000_0000;
                self.last_output = ((self.last_output as u64 + scaled) % 0x1_0000_0000) as u32;
                self.last_sequence = ((self.last_sequence as u32 + 1) % 0x1_0000) as u16;
            },
        }
        self.last_input = Some(timestamp);
        frame.rtp_timestamp = self.last_output;
        frame.sequence_number = Some(self.last_sequence);
        frame.payload_type = Some(target_payload_type);
        frame.clock_rate = target_clock_rate;
    }
}

/// What is recorded of a frame: a DTMF event with its payload type and clock,
/// or audio with its codec.
#[derive(Clone, Copy, Debug, PartialEq, Eq, Structural)]
pub enum RecordedAs {
    Dtmf { payload_type: u8, clock_rate: u32 },
    Audio { codec: CodecType },
}

/// How a frame goes out.
#[derive(Clone, Copy, Debug, PartialEq, Eq, Structural)]
pub struct Outbound {
    pub transcode: bool,
    pub source_clock_rate: u32,
    pub target_clock_rate: u32,
    pub target_payload_type: u8,
}

/// What becomes of a frame.
#[derive(Clone, Copy, Debug, PartialEq, Eq, Structural)]
pub enum FrameVerdict {
    /// The track is suppressed: the frame is not even looked at.
    Suppressed,
    /// The frame was seen before: it is neither recorded nor sent.
    Duplicate,
    /// The frame is a DTMF event that the target does not take: it is recorded
    /// and not sent.
    Unsupported(RecordedAs),
    /// The frame is recorded and sent.
    Forward(RecordedAs, Outbound),
}

/// The state of the forwarding of one track.
#[derive(Clone, Copy, Debug, PartialEq, Eq, Structural)]
pub struct ForwardState {
    pub last_seq: Option<u16>,
    pub packet_count: u64,
    pub timing: RtpTiming,
}

/// The DTMF codec that a frame is in, if it is a DTMF event.
pub open spec fn frame_dtmf(route: ForwardRoute, frame: AudioFrame) -> Option<CodecInfo> {
    match frame.payload_type {
        Some(pt) => with_type(route.source_dtmf@, pt),
        None => None,
    }
}

/// Whether a frame has the number of the one before it.
pub open spec fn repeated(last: Option<u16>, frame: AudioFrame) -> bool {
    frame.sequence_number is Some && last == frame.sequence_number
}

/// What becomes of a frame that arrives on a route.
pub open spec fn verdict(route: ForwardRoute, last: Option<u16>, frame: AudioFrame, suppressed: bool) -> FrameVerdict {
    if suppressed {
        FrameVerdict::Suppressed
    } else if repeated(last, frame) {
        FrameVerdict::Duplicate
    } else {
        match frame_dtmf(route, frame) {
            Some(d) => {
                let recorded = RecordedAs::Dtmf {
                    payload_type: frame.payload_type->0,
                    clock_rate: d.clock_rate,
                };
                match target_dtmf(route.target_dtmf@, d, route.target_params.clock_rate) {
                    Some(t) => FrameVerdict::Forward(
                        recorded,
                        Outbound {
                            transcode: false,
                            source_clock_rate: d.clock_rate,
                            target_clock_rate: t.clock_rate,
                            target_payload_type: t.payload_type,
                        },
                    ),
                    None => FrameVerdict::Unsupported(recorded),
                }
            },
            None => FrameVerdict::Forward(
                RecordedAs::Audio { codec: route.source_codec },
                Outbound {
                    transcode: route.source_codec != route.target_codec,
                    source_clock_rate: route.source_codec.spec_clock_rate(),
                    target_clock_rate: route.target_params.clock_rate,
                    target_payload_type: route.target_params.payload_type,
                },
            ),
        }
    }
}

impl ForwardState {
    /// A track of which nothing has been forwarded.
    pub fn new() -> (r: ForwardState)
        ensures
            r == (ForwardState {
                last_seq: None,
                packet_count: 0,
                timing: RtpTiming { last_input: None, last_output: 0, last_sequence: 0 },
            }),
    {
        ForwardState { last_seq: None, packet_count: 0, timing: RtpTiming::new() }
    }

    /// Whether a frame that arrived leads from `self` to `after` with the verdict `r`, and
    /// the frame to `out`: the duration of a DTMF event is brought to the target's clock.
    pub open spec fn receives(
        self,
        after: ForwardState,
        route: ForwardRoute,
        frame: AudioFrame,
        out: AudioFrame,
        suppressed: bool,
        r: FrameVerdict,
    ) -> bool {
        &&& r == verdict(route, self.last_seq, frame, suppressed)
        &&& after.timing == self.timing
        &&& after.packet_count == (if suppressed {
            self.packet_count as int
        } else {
            self.packet_count + 1
        })
        &&& after.last_seq == (if !suppressed && frame.sequence_number is Some {
            frame.sequence_number
        } else {
            self.last_seq
        })
        &&& out == (AudioFrame { data: out.data, ..frame })
        &&& out.data@ == (match r {
            FrameVerdict::Forward(RecordedAs::Dtmf { .. }, o) => rescaled_dtmf(
                frame.data@,
                o.source_clock_rate,
                o.target_clock_rate,
            ),
            _ => frame.data@,
        })
    }

    /// Whether sending a frame leads from `self` to `after`, and the frame to `out`.
    pub open spec fn sends(
        self,
        after: ForwardState,
        frame: AudioFrame,
        out: AudioFrame,
        outbound: Outbound,
    ) -> bool {
        &&& after.timing == self.timing.after(
            frame.rtp_timestamp,
            frame.sequence_number,
            outbound.source_clock_rate,
            outbound.target_clock_rate,
        )
        &&& after.last_seq == self.last_seq
        &&& after.packet_count == self.packet_count
        &&& out == (AudioFrame {
            rtp_timestamp: after.timing.last_output,
            sequence_number: Some(after.timing.last_sequence),
            payload_type: Some(outbound.target_payload_type),
            clock_rate: outbound.target_clock_rate,
            ..frame
        })
    }

    /// Looks at a frame that arrived: says what becomes of it, and brings the
    /// duration of a DTMF event to the target's clock.
    pub fn receive(&mut self, route: &ForwardRoute, frame: &mut AudioFrame, suppressed: bool) -> (r:
        FrameVerdict)
        requires
            suppressed || old(self).packet_count < u64::MAX,
            verdict(*route, old(self).last_seq, *old(frame), suppressed) matches FrameVerdict::Forward(
                RecordedAs::Dtmf { .. },
                o,
            ) ==> can_rescale(old(frame).data@, o.source_clock_rate, o.target_clock_rate),
        ensures
            old(self).receives(*final(self), *route, *old(frame), *final(frame), suppressed, r),
    {
        if suppressed {
            return FrameVerdict::Suppressed;
        }
        self.packet_count = self.packet_count + 1;
        let dtmf = match frame.payload_type {
            Some(pt) => MediaBridge::source_dtmf_codec(&route.source_dtmf, pt),
            None => None,
        };
        if let Some(seq) = frame.sequence_number {
            if let Some(last) = self.last_seq {
                if seq == last {
                    return FrameVerdict::Duplicate;
                }
            }
            self.last_seq = Some(seq);
        }
        match (dtmf, frame.payload_type) {
            (Some(d), Some(payload_type)) => {
                let recorded = RecordedAs::Dtmf { payload_type, clock_rate: d.clock_rate };
                match MediaBridge::select_target_dtmf_codec(
                    &route.target_dtmf,
                    &d,
                    route.target_params.clock_rate,
                ) {
                    Some(t) => {
                        MediaBridge::rewrite_dtmf_duration(frame, d.clock_rate, t.clock_rate);
                        FrameVerdict::Forward(
                            recorded,
                            Outbound {
                                transcode: false,
                                source_clock_rate: d.clock_rate,
                                target_clock_rate: t.clock_rate,
                                target_payload_type: t.payload_type,
                            },
                        )
                    },
                    None => FrameVerdict::Unsupported(recorded),
                }
            },
            _ => FrameVerdict::Forward(
                RecordedAs::Audio { codec: route.source_codec },
                Outbound {
                    transcode: route.source_codec != route.target_codec,
                    source_clock_rate: route.source_codec.clock_rate(),
                    target_clock_rate: route.target_params.clock_rate,
                    target_payload_type: route.target_params.payload_type,
                },
            ),
        }
    }

    /// Puts a frame that goes out, transcoded where that was needed, onto the
    /// outbound timeline.
    pub fn send(&mut self, frame: &mut AudioFrame, outbound: Outbound)
        requires
            outbound.source_clock_rate > 0,
        ensures
            old(self).sends(*final(self), *old(frame), *final(frame), outbound),
    {
        let mut timing = self.timing;
        timing.rewrite(
            frame,
            outbound.source_clock_rate,
            outbound.target_clock_rate,
            outbound.target_payload_type,
        );
        self.timing = timing;
    }
}

/// A frame that arrives twice in a row is sent once.
pub proof fn repeated_frame_is_sent_once(route: ForwardRoute, last: Option<u16>, frame: AudioFrame)
    requires
        frame.sequence_number is Some,
    ensures
        verdict(route, frame.sequence_number, frame, false) is Duplicate,
        last != frame.sequence_number ==> verdict(route, last, frame, false) !is Duplicate,
{
}

/// DTMF events are never transcoded, and audio is exactly where the codecs of
/// the legs differ.
pub proof fn only_audio_is_transcoded(route: ForwardRoute, last: Option<u16>, frame: AudioFrame)
    ensures
        verdict(route, last, frame, false) matches FrameVerdict::Forward(r, o) ==> (o.transcode <==> (
        r is Audio && route.source_codec != route.target_codec)),
{
}

/// Consecutive frames take consecutive numbers, whatever numbers they had.
pub proof fn outbound_numbers_are_consecutive(
    timing: RtpTiming,
    timestamp: u32,
    sequence: Option<u16>,
    source: u32,
    target: u32,
)
    requires
        timing.last_input is Some,
    ensures
        timing.after(timestamp, sequence, source, target).last_sequence as int == (
        timing.last_sequence + 1) % 0x1_0000,
        timing.after(timestamp, sequence, source, target).last_input == Some(timestamp),
{
}

/// A DTMF payload that keeps its clock keeps its bytes; one that does not
/// changes in its duration alone.
pub proof fn rescaling_touches_duration_only(data: Seq<u8>, source: u32, target: u32)
    requires
        source > 0,
    ensures
        source == target ==> rescaled_dtmf(data, source, target) == data,
        rescaled_dtmf(data, source, target).len() == data.len(),
        forall|i: int|
            0 <= i < data.len() && i != 2 && i != 3 ==> rescaled_dtmf(data, source, target)[i]
                == data[i],
        data.len() >= 4 && source != target ==> dtmf_duration(rescaled_dtmf(data, source, target))
            == scaled_duration(dtmf_duration(data), source, target),
{
    if data.len() >= 4 && source != target {
        scaled_duration_bound(dtmf_duration(data), source, target);
    }
}

/// The tracks that are being forwarded between two peer connections.
#[derive(Debug)]
pub struct BridgeTracks {
    pub started: Vec<(Leg, String)>,
    pub a_closed: bool,
    pub b_closed: bool,
    pub forwarders: usize,
}

/// Whether a track of a leg has been started.
pub open spec fn track_started(started: Seq<(Leg, String)>, leg: Leg, id: Seq<char>) -> bool {
    exists|i: int| 0 <= i < started.len() && (#[trigger] started[i]).0 == leg && started[i].1@ == id
}

impl BridgeTracks {
    /// A bridge without tracks.
    pub fn new() -> (r: BridgeTracks)
        ensures
            r.started@ == Seq::<(Leg, String)>::empty(),
            !r.a_closed,
            !r.b_closed,
            r.forwarders == 0,
    {
        BridgeTracks { started: Vec::new(), a_closed: false, b_closed: false, forwarders: 0 }
    }

    /// A track of `leg` appeared: it is forwarded unless that was begun before.
    pub fn on_track(&mut self, leg: Leg, track_id: String) -> (r: bool)
        requires
            old(self).forwarders < usize::MAX,
        ensures
            r == !track_started(old(self).started@, leg, track_id@),
            final(self).started@ == (if r {
                old(self).started@.push((leg, track_id))
            } else {
                old(self).started@
            }),
            final(self).forwarders == (if r {
                old(self).forwarders + 1
            } else {
                old(self).forwarders as int
            }),
            final(self).a_closed == old(self).a_closed,
            final(self).b_closed == old(self).b_closed,
    {
        let mut i: usize = 0;
        while i < self.started.len()
            invariant
                i <= self.started.len(),
                *self == *old(self),
                forall|j: int|
                    0 <= j < i ==> !((#[trigger] self.started@[j]).0 == leg && self.started@[j].1@
                        == track_id@),
            decreases self.started.len() - i,
        {
            if self.started[i].0 == leg && same(self.started[i].1.as_str(), track_id.as_str()) {
                assert(track_started(self.started@, leg, track_id@)) by {
                    assert(self.started@[i as int].0 == leg);
                }
                return false;
            }
            i += 1;
        }
        self.started.push((leg, track_id));
        self.forwarders = self.forwarders + 1;
        true
    }

    /// The peer connection of `leg` was closed.
    pub fn on_closed(&mut self, leg: Leg)
        ensures
            final(self).a_closed == (old(self).a_closed || leg is A),
            final(self).b_closed == (old(self).b_closed || leg is B),
            final(self).started == old(self).started,
            final(self).forwarders == old(self).forwarders,
    {
        match leg {
            Leg::A => {
                self.a_closed = true;
            },
            Leg::B => {
                self.b_closed = true;
            },
        }
    }

    /// The forwarding of a track came to its end.
    pub fn on_forwarder_done(&mut self)
        requires
            old(self).forwarders > 0,
        ensures
            final(self).forwarders == old(self).forwarders - 1,
            final(self).a_closed == old(self).a_closed,
            final(self).b_closed == old(self).b_closed,
            final(self).started == old(self).started,
    {
        self.forwarders = self.forwarders - 1;
    }

    /// Whether nothing is left to forward.
    pub fn is_done(&self) -> (r: bool)
        ensures
            r == (self.a_closed && self.b_closed && self.forwarders == 0),
    {
        self.a_closed && self.b_closed && self.forwarders == 0
    }
}

/// `rand::random::<u32>`: some number.
#[verifier::external_body]
fn random_ssrc() -> (r: u32) {
    rand::random::<u32>()
}

/// The SSRC that a track is sent with: the wanted one, else that of the sender
/// that it replaces, else a random one.
pub fn sender_ssrc(wanted: Option<u32>, replaced: Option<u32>) -> (r: u32)
    ensures
        wanted matches Some(s) ==> r == s,
        wanted is None ==> (replaced matches Some(s) ==> r == s),
{
    match (wanted, replaced) {
        (Some(s), _) => s,
        (None, Some(s)) => s,
        (None, None) => random_ssrc(),
    }
}

/// Whether a frame is audio on a route: its payload type is none of the source's DTMF
/// events.
pub open spec fn is_audio_on(route: ForwardRoute, frame: AudioFrame) -> bool {
    frame.payload_type matches Some(pt) ==> forall|i: int|
        0 <= i < route.source_dtmf@.len() ==> (#[trigger] route.source_dtmf@[i]).payload_type != pt
}

/// Whether a frame does not repeat the number of the one before it.
pub open spec fn is_new_after(last: Option<u16>, frame: AudioFrame) -> bool {
    frame.sequence_number matches Some(n) ==> last != Some(n)
}

/// The clock of a codec: 48 kHz for Opus, 8 kHz for all others.
pub open spec fn rtp_clock(codec: CodecType) -> int {
    if codec is Opus {
        48000
    } else {
        8000
    }
}

/// The DTMF events that a leg takes.
pub open spec fn events_taken(bridge: MediaBridge, leg_a: bool) -> Seq<CodecInfo> {
    if leg_a {
        bridge.dtmf_codecs_a@
    } else {
        bridge.dtmf_codecs_b@
    }
}

proof fn with_type_finds_the_first(codecs: Seq<CodecInfo>, pt: u8)
    ensures
        (forall|i: int| 0 <= i < codecs.len() ==> (#[trigger] codecs[i]).payload_type != pt)
            ==> with_type(codecs, pt) is None,
        forall|k: int|
            0 <= k < codecs.len() && (#[trigger] codecs[k]).payload_type == pt && (forall|j: int|
                0 <= j < k ==> (#[trigger] codecs[j]).payload_type != pt) ==> with_type(codecs, pt)
                == Some(codecs[k]),
    decreases codecs.len(),
{
    if codecs.len() > 0 {
        let rest = codecs.drop_first();
        with_type_finds_the_first(rest, pt);
        if forall|i: int| 0 <= i < codecs.len() ==> (#[trigger] codecs[i]).payload_type != pt {
            assert(codecs[0].payload_type != pt);
            assert forall|i: int| 0 <= i < rest.len() implies (#[trigger] rest[i]).payload_type != pt by {
                assert(rest[i] == codecs[i + 1]);
            }
        }
        assert forall|k: int|
            0 <= k < codecs.len() && (#[trigger] codecs[k]).payload_type == pt && (forall|j: int|
                0 <= j < k ==> (#[trigger] codecs[j]).payload_type != pt) implies with_type(
            codecs,
            pt,
        ) == Some(codecs[k]) by {
            if k > 0 {
                assert(codecs[0].payload_type != pt);
                assert(rest[k - 1] == codecs[k]);
                assert forall|j: int| 0 <= j < k - 1 implies (#[trigger] rest[j]).payload_type != pt by {
                    assert(rest[j] == codecs[j + 1]);
                }
            }
        }
    }
}

/// An audio frame is recorded in the codec of the leg that it comes from, and goes out
/// with the payload type and clock of the other leg; its own clock is that of the codec
/// it comes in, and it is transcoded where the codecs differ.
pub proof fn audio_goes_out_in_the_other_legs_terms(
    bridge: MediaBridge,
    leg: Leg,
    route: ForwardRoute,
    before: ForwardState,
    after: ForwardState,
    frame: AudioFrame,
    out: AudioFrame,
    r: FrameVerdict,
)
    requires
        bridge.is_route(leg, route),
        before.receives(after, route, frame, out, false, r),
        is_audio_on(route, frame),
        is_new_after(before.last_seq, frame),
    ensures
        ({
            let (from, to, params) = if leg is A {
                (bridge.codec_a, bridge.codec_b, bridge.params_b)
            } else {
                (bridge.codec_b, bridge.codec_a, bridge.params_a)
            };
            &&& r matches FrameVerdict::Forward(recorded, o)
            &&& recorded == (RecordedAs::Audio { codec: from })
            &&& o.source_clock_rate == rtp_clock(from)
            &&& o.target_clock_rate == params.clock_rate
            &&& o.target_payload_type == params.payload_type
            &&& o.transcode <==> from != to
            &&& out.data@ == frame.data@
            &&& out.rtp_timestamp == frame.rtp_timestamp
            &&& out.marker == frame.marker
        }),
{
    if let Some(pt) = frame.payload_type {
        with_type_finds_the_first(route.source_dtmf@, pt);
    }
}

/// A DTMF event goes out to a leg that takes events, in the clock that it came in where
/// the other leg has events in that clock, and under a payload type of that leg; it is
/// never transcoded. A leg that takes no events gets none, though the event is recorded.
pub proof fn events_go_out_in_the_other_legs_terms(
    bridge: MediaBridge,
    leg: Leg,
    route: ForwardRoute,
    before: ForwardState,
    after: ForwardState,
    frame: AudioFrame,
    out: AudioFrame,
    r: FrameVerdict,
    k: int,
)
    requires
        bridge.is_route(leg, route),
        before.receives(after, route, frame, out, false, r),
        is_new_after(before.last_seq, frame),
        0 <= k < route.source_dtmf@.len(),
        frame.payload_type == Some(route.source_dtmf@[k].payload_type),
        forall|j: int|
            0 <= j < k ==> (#[trigger] route.source_dtmf@[j]).payload_type
                != route.source_dtmf@[k].payload_type,
    ensures
        ({
            let theirs = events_taken(bridge, leg is B);
            let event = events_taken(bridge, leg is A)[k];
            let recorded = RecordedAs::Dtmf {
                payload_type: event.payload_type,
                clock_rate: event.clock_rate,
            };
            &&& theirs.len() == 0 ==> r == FrameVerdict::Unsupported(recorded)
            &&& theirs.len() > 0 ==> {
                &&& r matches FrameVerdict::Forward(as_event, o)
                &&& as_event == recorded
                &&& !o.transcode
                &&& o.source_clock_rate == event.clock_rate
                &&& exists|i: int|
                    0 <= i < theirs.len() && (#[trigger] theirs[i]).payload_type
                        == o.target_payload_type && theirs[i].clock_rate == o.target_clock_rate
                &&& (exists|i: int|
                    0 <= i < theirs.len() && (#[trigger] theirs[i]).clock_rate == event.clock_rate)
                    ==> o.target_clock_rate == event.clock_rate
            }
            &&& out.rtp_timestamp == frame.rtp_timestamp
        }),
{
    let theirs = events_taken(bridge, leg is B);
    let event = events_taken(bridge, leg is A)[k];
    assert(theirs == route.target_dtmf@ && event == route.source_dtmf@[k]);
    let clock = route.target_params.clock_rate;
    with_type_finds_the_first(route.source_dtmf@, event.payload_type);
    dtmf_reaches_target(theirs, event, clock);
    with_clock_is_listed(theirs, event.clock_rate);
    with_clock_is_listed(theirs, clock);
    with_clock_is_listed(theirs, 8000);
    if theirs.len() > 0 {
        let t = target_dtmf(theirs, event, clock)->0;
        assert(theirs.contains(theirs[0]));
        assert(theirs.contains(t));
        let i = choose|i: int| 0 <= i < theirs.len() && theirs[i] == t;
        assert(theirs[i].payload_type == t.payload_type);
        if exists|i: int|
            0 <= i < theirs.len() && (#[trigger] theirs[i]).clock_rate == event.clock_rate {
            let i = choose|i: int|
                0 <= i < theirs.len() && (#[trigger] theirs[i]).clock_rate == event.clock_rate;
            clock_is_found(theirs, event.clock_rate, i);
        }
    }
}

proof fn clock_is_found(codecs: Seq<CodecInfo>, clock_rate: u32, i: int)
    requires
        0 <= i < codecs.len(),
        codecs[i].clock_rate == clock_rate,
    ensures
        with_clock(codecs, clock_rate) is Some,
    decreases codecs.len(),
{
    if codecs[0].clock_rate != clock_rate {
        assert(codecs.drop_first()[i - 1] == codecs[i]);
        clock_is_found(codecs.drop_first(), clock_rate, i - 1);
    }
}

/// Two frames that are sent one after the other are as far apart on the outbound
/// timeline as they were on the inbound one, each counted in its own clock, around the
/// wrap of the timestamps; their numbers are consecutive. The payload goes out as it is.
pub proof fn frames_keep_their_distance(
    start: ForwardState,
    mid: ForwardState,
    end: ForwardState,
    first: AudioFrame,
    first_out: AudioFrame,
    second: AudioFrame,
    second_out: AudioFrame,
    a: Outbound,
    b: Outbound,
)
    requires
        start.sends(mid, first, first_out, a),
        mid.sends(end, second, second_out, b),
        b.source_clock_rate > 0,
    ensures
        ({
            let ticks = (second.rtp_timestamp - first.rtp_timestamp) % 0x1_0000_0000;
            let sent = ticks * b.target_clock_rate as int / b.source_clock_rate as int;
            second_out.rtp_timestamp as int == (first_out.rtp_timestamp + sent) % 0x1_0000_0000
        }),
        second_out.sequence_number is Some && first_out.sequence_number is Some,
        second_out.sequence_number->0 as int == (first_out.sequence_number->0 + 1) % 0x1_0000,
        first_out.payload_type == Some(a.target_payload_type),
        first_out.clock_rate == a.target_clock_rate,
        second_out.payload_type == Some(b.target_payload_type),
        second_out.clock_rate == b.target_clock_rate,
        first_out.data == first.data && first_out.marker == first.marker,
        start.timing.last_input is None ==> first_out.rtp_timestamp == first.rtp_timestamp,
        start.timing.last_input is None && first.sequence_number is Some
            ==> first_out.sequence_number == first.sequence_number,
{
    let ticks = (second.rtp_timestamp - first.rtp_timestamp) % 0x1_0000_0000;
    assert(mid.timing.last_input == Some(first.rtp_timestamp));
    assert(ticks == ticks_between(first.rtp_timestamp, second.rtp_timestamp));
    let sent = ticks * b.target_clock_rate as int / b.source_clock_rate as int;
    let out = first_out.rtp_timestamp as int;
    assert((out + sent % 0x1_0000_0000) % 0x1_0000_0000 == (out + sent) % 0x1_0000_0000) by {
        vstd::arithmetic::div_mod::lemma_add_mod_noop_right(out, sent, 0x1_0000_0000);
    }
}

/// Two audio frames of one leg, one sent after the other, are as far apart in the other
/// leg's clock as they were in the clock of the codec that they came in.
pub proof fn audio_keeps_its_pace(
    bridge: MediaBridge,
    leg: Leg,
    route: ForwardRoute,
    s: Seq<ForwardState>,
    first: AudioFrame,
    first_seen: AudioFrame,
    first_out: AudioFrame,
    second: AudioFrame,
    second_seen: AudioFrame,
    second_out: AudioFrame,
    a: FrameVerdict,
    b: FrameVerdict,
)
    requires
        bridge.is_route(leg, route),
        s.len() == 5,
        s[0].receives(s[1], route, first, first_seen, false, a),
        a is Forward,
        s[1].sends(s[2], first_seen, first_out, a->Forward_1),
        s[2].receives(s[3], route, second, second_seen, false, b),
        is_new_after(s[2].last_seq, second),
        is_audio_on(route, second),
        b is Forward,
        s[3].sends(s[4], second_seen, second_out, b->Forward_1),
    ensures
        ({
            let (from, params) = if leg is A {
                (bridge.codec_a, bridge.params_b)
            } else {
                (bridge.codec_b, bridge.params_a)
            };
            let ticks = (second.rtp_timestamp - first.rtp_timestamp) % 0x1_0000_0000;
            &&& second_out.rtp_timestamp as int == (first_out.rtp_timestamp + ticks
                * params.clock_rate as int / rtp_clock(from)) % 0x1_0000_0000
            &&& second_out.payload_type == Some(params.payload_type)
            &&& second_out.clock_rate == params.clock_rate
            &&& second_out.data@ == second.data@
        }),
{
    audio_goes_out_in_the_other_legs_terms(bridge, leg, route, s[2], s[3], second, second_seen, b);
    assert(s[3].timing == s[2].timing);
    let shifted = ForwardState { last_seq: s[3].last_seq, packet_count: s[3].packet_count, ..s[2] };
    assert(shifted == s[3]);
    let o = b->Forward_1;
    let ticks = (second.rtp_timestamp - first.rtp_timestamp) % 0x1_0000_0000;
    assert(s[3].timing.last_input == Some(first.rtp_timestamp));
    assert(ticks == ticks_between(first.rtp_timestamp, second.rtp_timestamp));
    let sent = ticks * o.target_clock_rate as int / o.source_clock_rate as int;
    let out = first_out.rtp_timestamp as int;
    vstd::arithmetic::div_mod::lemma_add_mod_noop_right(out, sent, 0x1_0000_0000);
}

/// What passes from leg A to leg B and what passes back meet: each leg's codec, and the
/// events that it takes, are the source of one way and the target of the other.
pub proof fn routes_of_a_bridge_meet(
    bridge: MediaBridge,
    there: ForwardRoute,
    back: ForwardRoute,
)
    requires
        bridge.is_route(Leg::A, there),
        bridge.is_route(Leg::B, back),
    ensures
        there.source_codec == bridge.codec_a && back.target_codec == bridge.codec_a,
        back.source_codec == bridge.codec_b && there.target_codec == bridge.codec_b,
        back.target_params == bridge.params_a && there.target_params == bridge.params_b,
        there.source_dtmf@ == bridge.dtmf_codecs_a@ && back.target_dtmf@ == bridge.dtmf_codecs_a@,
        back.source_dtmf@ == bridge.dtmf_codecs_b@ && there.target_dtmf@ == bridge.dtmf_codecs_b@,
{
}

/// A suppressed track passes nothing and its frames leave no trace; on any other a frame
/// is left out only where it repeats the number of the frame before it.
pub proof fn only_suppressed_and_repeated_frames_are_left_out(
    route: ForwardRoute,
    before: ForwardState,
    after: ForwardState,
    frame: AudioFrame,
    out: AudioFrame,
    suppressed: bool,
    r: FrameVerdict,
)
    requires
        before.receives(after, route, frame, out, suppressed, r),
    ensures
        suppressed <==> r is Suppressed,
        suppressed ==> after.last_seq == before.last_seq && after.packet_count
            == before.packet_count && out.data@ == frame.data@,
        !suppressed ==> (r is Duplicate <==> frame.sequence_number is Some && frame.sequence_number
            == before.last_seq),
        !suppressed && frame.sequence_number is Some ==> after.last_seq == frame.sequence_number,
        !suppressed && frame.sequence_number is None ==> after.last_seq == before.last_seq,
        !suppressed ==> after.packet_count == before.packet_count + 1,
        after.timing == before.timing,
{
}

/// The duration of a DTMF event lasts as long in the clock that it goes out in, as far
/// as its two bytes can say; the other bytes of the event stay as they are.
pub proof fn event_lasts_as_long(data: Seq<u8>, source: u32, target: u32)
    requires
        source > 0,
        data.len() >= 4,
    ensures
        ({
            let out = rescaled_dtmf(data, source, target);
            let ticks = (data[2] as int * 256 + data[3] as int) * target as int / source as int;
            &&& out.len() == data.len()
            &&& out[2] as int * 256 + out[3] as int == (if ticks > 65535 {
                65535
            } else {
                ticks
            })
            &&& forall|i: int| 0 <= i < data.len() && i != 2 && i != 3 ==> out[i] == data[i]
        }),
{
    rescaling_touches_duration_only(data, source, target);
    if source == target {
        let d = dtmf_duration(data);
        assert(d * target as int / source as int == d) by (nonlinear_arith)
            requires
                source > 0,
                source == target,
        ;
    }
}

/// A track is known by its leg and its name together: once it has started it stays so,
/// and a track of the other leg or of another name is another one.
pub proof fn tracks_are_told_by_leg_and_name(started: Seq<(Leg, String)>, leg: Leg, id: String, other: Leg, name: Seq<char>)
    ensures
        track_started(started.push((leg, id)), leg, id@),
        other != leg || name != id@ ==> track_started(started.push((leg, id)), other, name)
            == track_started(started, other, name),
        !track_started(Seq::<(Leg, String)>::empty(), leg, name),
{
    let t = started.push((leg, id));
    assert(t[started.len() as int].0 == leg);
    if track_started(started, other, name) {
        let i = choose|i: int|
            0 <= i < started.len() && (#[trigger] started[i]).0 == other && started[i].1@ == name;
        assert(t[i].0 == other);
    }
    if track_started(t, other, name) {
        let i = choose|i: int| 0 <= i < t.len() && (#[trigger] t[i]).0 == other && t[i].1@ == name;
        if i < started.len() {
            assert(started[i].0 == other);
        }
    }
}

} // verus!
