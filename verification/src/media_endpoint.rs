//! The media side of a call leg: the descriptions that were exchanged, the
//! codecs that follow from them and the offers that are made.
use std::collections::HashSet;
use vstd::prelude::*;
use crate::caller_negotiation::{
    append_dtmf_codecs, appended, dtmf_is_appended_without_conflict, payload_types,
    used_payload_types, with_dtmf,
};
use crate::negotiate::{
    CodecInfo, CodecType, MediaNegotiator, RtpCodecParameters, RtpMapEntry, audio_of, best_codec,
    contains_type, copy_codecs, dtmf_of, find_type, first_allowed_codec_is_used, first_audio,
    first_audio_codec, first_of_type, first_of_type_facts, has_type, info_of, infos, parse_media,
    parsed_media, rtp_map, sdp_codecs, sdp_ssrc,
};
use crate::state::ControllerEvent;
use crate::text::{contains, has_prefix, occurs, opt_text, own, same, starts_with, trim, trimmed};


verus! {

broadcast use vstd::std_specs::hash::group_hash_axioms;

/// The first payload type from `from` on that is not in use.
pub open spec fn next_free(used: Set<u8>, from: int) -> Option<u8>
    decreases 256 - from,
{
    if from < 0 || from > 255 {
        None
    } else if !used.contains(from as u8) {
        Some(from as u8)
    } else {
        next_free(used, from + 1)
    }
}

/// The payload type that a codec gets: the preferred one where it is free, else
/// the first free one of the dynamic range.
pub open spec fn allocated(used: Set<u8>, preferred: u8) -> Option<u8> {
    if !used.contains(preferred) {
        Some(preferred)
    } else {
        next_free(used, 96)
    }
}

/// The entries that are offered on as the caller offers them: each audio codec
/// that is allowed once, as it first occurs.
pub open spec fn caller_part(map: Seq<RtpMapEntry>, allow: Seq<CodecType>) -> Seq<CodecInfo>
    decreases map.len(),
{
    if map.len() == 0 {
        Seq::empty()
    } else {
        let rest = caller_part(map.drop_last(), allow);
        let info = info_of(map.last());
        if info.codec is TelephoneEvent || (allow.len() > 0 && !allow.contains(info.codec))
            || has_type(rest, info.codec) {
            rest
        } else {
            rest.push(info)
        }
    }
}

/// An allowed codec that the caller did not offer, as it is added to an offer.
pub open spec fn added_codec(codecs: Seq<CodecInfo>, t: CodecType) -> Option<CodecInfo> {
    let pt = if t.spec_is_dynamic() {
        next_free(payload_types(codecs), 96)
    } else {
        Some(t.spec_payload_type())
    };
    match pt {
        Some(p) => Some(
            CodecInfo {
                payload_type: p,
                codec: t,
                clock_rate: t.spec_clock_rate(),
                channels: t.spec_channels(),
            },
        ),
        None => None,
    }
}

/// The codecs followed by the allowed ones that are missing among them; `None`
/// where the payload types do not suffice.
pub open spec fn with_allowed(codecs: Seq<CodecInfo>, allow: Seq<CodecType>) -> Option<Seq<CodecInfo>>
    decreases allow.len(),
{
    if allow.len() == 0 {
        Some(codecs)
    } else {
        match with_allowed(codecs, allow.drop_last()) {
            Some(rest) => if allow.last() is TelephoneEvent || has_type(rest, allow.last()) {
                Some(rest)
            } else {
                match added_codec(rest, allow.last()) {
                    Some(c) => Some(rest.push(c)),
                    None => None,
                }
            },
            None => None,
        }
    }
}

/// Whether DTMF events at a clock rate are among the codecs.
pub open spec fn has_dtmf_at(codecs: Seq<CodecInfo>, clock_rate: u32) -> bool {
    exists|i: int|
        0 <= i < codecs.len() && (#[trigger] codecs[i]).codec is TelephoneEvent
            && codecs[i].clock_rate == clock_rate
}

/// The codecs with DTMF events at a clock rate, added where they are missing.
pub open spec fn with_dtmf_at(codecs: Seq<CodecInfo>, clock_rate: u32, preferred: u8) -> Option<
    Seq<CodecInfo>,
> {
    if has_dtmf_at(codecs, clock_rate) {
        Some(codecs)
    } else {
        match allocated(payload_types(codecs), preferred) {
            Some(pt) => Some(
                codecs.push(
                    CodecInfo {
                        payload_type: pt,
                        codec: CodecType::TelephoneEvent,
                        clock_rate,
                        channels: 1,
                    },
                ),
            ),
            None => None,
        }
    }
}

/// The codecs with the caller's DTMF codecs and DTMF events at both clock rates
/// that the proxy can carry.
pub open spec fn with_supported_dtmf(codecs: Seq<CodecInfo>, dtmf: Seq<CodecInfo>) -> Option<
    Seq<CodecInfo>,
> {
    match with_dtmf_at(with_dtmf(codecs, dtmf), 8000, 101) {
        Some(c) => with_dtmf_at(c, 48000, 110),
        None => None,
    }
}

/// The DTMF codecs of a map, each payload type once.
pub open spec fn telephone_events(map: Seq<RtpMapEntry>) -> Seq<CodecInfo> {
    appended(Seq::empty(), Set::empty(), dtmf_of(infos(map))).0
}

/// The codecs that are offered to the callee: those of the caller that are
/// allowed, in the caller's order, then the other allowed ones, then DTMF
/// events. `None` where the payload types do not suffice.
pub open spec fn local_offer(map: Seq<RtpMapEntry>, allow: Seq<CodecType>) -> Option<Seq<CodecInfo>> {
    match with_allowed(caller_part(map, allow), allow) {
        Some(c) => with_supported_dtmf(c, telephone_events(map)),
        None => None,
    }
}

proof fn payload_types_push(codecs: Seq<CodecInfo>, c: CodecInfo)
    ensures
        payload_types(codecs.push(c)) == payload_types(codecs).insert(c.payload_type),
{
    let next = codecs.push(c);
    assert forall|pt: u8| payload_types(next).contains(pt) <==> payload_types(codecs).insert(
        c.payload_type,
    ).contains(pt) by {
        if payload_types(next).contains(pt) {
            let k = choose|k: int| 0 <= k < next.len() && #[trigger] next[k].payload_type == pt;
            if k < codecs.len() {
                assert(codecs[k].payload_type == pt);
            }
        }
        if payload_types(codecs).contains(pt) {
            let k = choose|k: int| 0 <= k < codecs.len() && #[trigger] codecs[k].payload_type == pt;
            assert(next[k].payload_type == pt);
        }
        assert(next[codecs.len() as int].payload_type == c.payload_type);
    }
    assert(payload_types(next) =~= payload_types(codecs).insert(c.payload_type));
}

proof fn appended_used(codecs: Seq<CodecInfo>, more: Seq<CodecInfo>)
    ensures
        appended(codecs, payload_types(codecs), more).1 == payload_types(
            appended(codecs, payload_types(codecs), more).0,
        ),
    decreases more.len(),
{
    if more.len() > 0 {
        appended_used(codecs, more.drop_last());
        let c = appended(codecs, payload_types(codecs), more.drop_last()).0;
        payload_types_push(c, more.last());
    }
}

/// The media side of a call leg. `dtmf_listener_cancel` names the running DTMF
/// listener, so that it can be stopped.
#[derive(Debug)]
pub struct MediaEndpoint {
    pub offer_sdp: Option<String>,
    pub answer_sdp: Option<String>,
    pub negotiated_audio: Option<(CodecType, RtpCodecParameters, Vec<CodecInfo>)>,
    pub ssrc: Option<u32>,
    pub dtmf_listener_cancel: Option<u64>,
    pub early_media_sent: bool,
    pub directional_recorder_option: Option<String>,
}

impl MediaEndpoint {
    /// The payload type that a codec gets, see [`allocated`].
    pub fn try_allocate_payload_type(used_payload_types: &HashSet<u8>, preferred: u8) -> (r: Option<u8>)
        ensures
            r == allocated(used_payload_types@, preferred),
    {
        if !used_payload_types.contains(&preferred) {
            return Some(preferred);
        }
        Self::first_free(used_payload_types)
    }

    fn first_free(used_payload_types: &HashSet<u8>) -> (r: Option<u8>)
        ensures
            r == next_free(used_payload_types@, 96),
    {
        let mut next_pt: u8 = 96;
        while used_payload_types.contains(&next_pt)
            invariant
                96 <= next_pt,
                next_free(used_payload_types@, next_pt as int) == next_free(used_payload_types@, 96),
            decreases 256 - next_pt,
        {
            if next_pt == 255 {
                assert(next_free(used_payload_types@, 256) is None);
                return None;
            }
            next_pt += 1;
        }
        Some(next_pt)
    }

    /// The payload type that a codec gets: the preferred one where it is free,
    /// else the first free one of the dynamic range.
    pub fn allocate_dynamic_payload_type(used_payload_types: &HashSet<u8>, preferred: u8) -> (r: u8)
        requires
            allocated(used_payload_types@, preferred) is Some,
        ensures
            Some(r) == allocated(used_payload_types@, preferred),
    {
        match Self::try_allocate_payload_type(used_payload_types, preferred) {
            Some(pt) => pt,
            None => preferred,
        }
    }

    /// The DTMF codecs of a map, each payload type once.
    pub fn extract_telephone_event_codecs(rtp_map: &Vec<RtpMapEntry>) -> (r: Vec<CodecInfo>)
        ensures
            r@ == telephone_events(rtp_map@),
    {
        let all = MediaNegotiator::infos_of(rtp_map);
        let split = MediaNegotiator::split_codecs(&all);
        let mut out: Vec<CodecInfo> = Vec::new();
        let mut seen: HashSet<u8> = HashSet::new();
        assert(seen@ =~= Set::<u8>::empty());
        append_dtmf_codecs(&mut out, split.dtmf.as_slice(), &mut seen);
        out
    }

    fn add_dtmf_at(
        codec_info: &mut Vec<CodecInfo>,
        used_payload_types: &mut HashSet<u8>,
        clock_rate: u32,
        preferred: u8,
    ) -> (ok: bool)
        requires
            old(used_payload_types)@ == payload_types(old(codec_info)@),
        ensures
            final(used_payload_types)@ == payload_types(final(codec_info)@),
            ok == with_dtmf_at(old(codec_info)@, clock_rate, preferred) is Some,
            ok ==> Some(final(codec_info)@) == with_dtmf_at(
                old(codec_info)@,
                clock_rate,
                preferred,
            ),
    {
        let mut i: usize = 0;
        while i < codec_info.len()
            invariant
                i <= codec_info.len(),
                codec_info@ == old(codec_info)@,
                used_payload_types@ == old(used_payload_types)@,
                old(used_payload_types)@ == payload_types(old(codec_info)@),
                forall|j: int|
                    0 <= j < i ==> !((#[trigger] codec_info@[j]).codec is TelephoneEvent
                        && codec_info@[j].clock_rate == clock_rate),
            decreases codec_info.len() - i,
        {
            let c = codec_info[i];
            if matches!(c.codec, CodecType::TelephoneEvent) && c.clock_rate == clock_rate {
                assert(has_dtmf_at(codec_info@, clock_rate)) by {
                    assert(codec_info@[i as int].codec is TelephoneEvent);
                }
                return true;
            }
            i += 1;
        }
        assert(!has_dtmf_at(codec_info@, clock_rate));
        match Self::try_allocate_payload_type(used_payload_types, preferred) {
            Some(payload_type) => {
                let info = CodecInfo {
                    payload_type,
                    codec: CodecType::TelephoneEvent,
                    clock_rate,
                    channels: 1,
                };
                proof {
                    payload_types_push(codec_info@, info);
                }
                used_payload_types.insert(payload_type);
                codec_info.push(info);
                true
            },
            None => false,
        }
    }

    /// Adds the caller's DTMF codecs and DTMF events at both supported clock
    /// rates. Without free payload types the result is `false`.
    pub fn append_supported_dtmf_codecs(
        codec_info: &mut Vec<CodecInfo>,
        caller_dtmf_codecs: &[CodecInfo],
        used_payload_types: &mut HashSet<u8>,
    ) -> (ok: bool)
        requires
            old(used_payload_types)@ == payload_types(old(codec_info)@),
        ensures
            ok == with_supported_dtmf(old(codec_info)@, caller_dtmf_codecs@) is Some,
            ok ==> Some(final(codec_info)@) == with_supported_dtmf(
                old(codec_info)@,
                caller_dtmf_codecs@,
            ),
            ok ==> final(used_payload_types)@ == payload_types(final(codec_info)@),
    {
        proof {
            appended_used(codec_info@, caller_dtmf_codecs@);
        }
        append_dtmf_codecs(codec_info, caller_dtmf_codecs, used_payload_types);
        if !Self::add_dtmf_at(codec_info, used_payload_types, 8000, 101) {
            return false;
        }
        Self::add_dtmf_at(codec_info, used_payload_types, 48000, 110)
    }
}

/// What a leg sends and receives once it is bridged.
#[derive(Debug)]
pub struct BridgeSelection {
    pub codec: CodecType,
    pub params: RtpCodecParameters,
    pub dtmf_codecs: Vec<CodecInfo>,
    pub ssrc: Option<u32>,
}

/// The contents of a selection.
pub type SelectionView = (CodecType, RtpCodecParameters, Seq<CodecInfo>, Option<u32>);

/// The contents of a negotiated audio codec.
pub type AudioView = (CodecType, RtpCodecParameters, Seq<CodecInfo>);

/// The contents of an optional negotiated audio codec.
pub open spec fn audio_view(a: Option<(CodecType, RtpCodecParameters, Vec<CodecInfo>)>) -> Option<
    AudioView,
> {
    match a {
        Some(t) => Some((t.0, t.1, t.2@)),
        None => None,
    }
}

/// The contents of an optional selection.
pub open spec fn selection_view(b: Option<BridgeSelection>) -> Option<SelectionView> {
    match b {
        Some(s) => Some(s.contents()),
        None => None,
    }
}

/// The audio that is chosen for a leg: its codec, the parameters, and the DTMF codecs.
pub type SelectedAudio = (CodecType, RtpCodecParameters, Vec<CodecInfo>);

/// Whether `r` is what `selector` reads from a description, where there is one.
pub open spec fn is_selected<F: Fn(&str) -> Option<SelectedAudio>>(
    selector: F,
    sdp: Option<String>,
    r: Option<SelectedAudio>,
) -> bool {
    match sdp {
        Some(s) => exists|t: &str| t@ == s@ && #[trigger] selector.ensures((t,), r),
        None => r is None,
    }
}

impl BridgeSelection {
    /// The contents of the selection.
    pub open spec fn contents(self) -> SelectionView {
        (self.codec, self.params, self.dtmf_codecs@, self.ssrc)
    }

    /// The selection of a negotiated codec and an SSRC.
    pub fn from_audio_tuple(
        selection: (CodecType, RtpCodecParameters, Vec<CodecInfo>),
        ssrc: Option<u32>,
    ) -> (r: BridgeSelection)
        ensures
            r.contents() == (selection.0, selection.1, selection.2@, ssrc),
    {
        BridgeSelection {
            codec: selection.0,
            params: selection.1,
            dtmf_codecs: selection.2,
            ssrc,
        }
    }

    /// Narrowband audio without DTMF events, where nothing was negotiated.
    pub fn explicit_audio_default_selection() -> (r: BridgeSelection)
        ensures
            r.contents() == default_selection(),
    {
        let r = BridgeSelection {
            codec: CodecType::PCMU,
            params: RtpCodecParameters { payload_type: 0, clock_rate: 8000, channels: 1 },
            dtmf_codecs: Vec::new(),
            ssrc: None,
        };
        assert(r.dtmf_codecs@ =~= Seq::empty());
        r
    }
}

/// Narrowband audio without DTMF events.
pub open spec fn default_selection() -> SelectionView {
    (
        CodecType::PCMU,
        RtpCodecParameters { payload_type: 0, clock_rate: 8000, channels: 1 },
        Seq::empty(),
        None,
    )
}

/// The SSRC that a session description announces.
pub open spec fn ssrc_of(sdp: Seq<char>) -> Option<u32> {
    match sdp_ssrc(sdp) {
        Some(n) => Some(n as u32),
        None => None,
    }
}

/// The audio that a leg uses by a list of codecs: the best allowed codec, with
/// the DTMF codecs beside it.
pub open spec fn best_audio(codecs: Seq<CodecInfo>, allow: Seq<CodecType>) -> Option<AudioView> {
    match best_codec(audio_of(codecs), allow) {
        Some(c) => Some((c.codec, c.params(), dtmf_of(codecs))),
        None => None,
    }
}

/// The audio that a leg uses by a list of codecs where one codec is preferred:
/// that codec, else the first that carries audio.
pub open spec fn preferred_audio(codecs: Seq<CodecInfo>, preferred: Option<CodecType>) -> Option<
    AudioView,
> {
    let wanted = match preferred {
        Some(t) => first_of_type(audio_of(codecs), t),
        None => None,
    };
    let chosen = match wanted {
        Some(c) => Some(c),
        None => first_audio_codec(audio_of(codecs)),
    };
    match chosen {
        Some(c) => Some((c.codec, c.params(), dtmf_of(codecs))),
        None => None,
    }
}

/// An audio choice with the SSRC that its description announces.
pub open spec fn bridged(audio: Option<AudioView>, sdp: Seq<char>) -> Option<SelectionView> {
    match audio {
        Some(a) => Some((a.0, a.1, a.2, ssrc_of(sdp))),
        None => None,
    }
}

/// The first of two choices that there is.
pub open spec fn or_else<T>(a: Option<T>, b: Option<T>) -> Option<T> {
    match a {
        Some(x) => Some(x),
        None => b,
    }
}

/// What a description, where there is one, gives for bridging.
pub open spec fn best_bridge(sdp: Option<String>, allow: Seq<CodecType>) -> Option<SelectionView> {
    match sdp {
        Some(s) => bridged(best_audio(sdp_codecs(s@), allow), s@),
        None => None,
    }
}

/// What a description, where there is one, gives for bridging with a codec.
pub open spec fn matching_bridge(sdp: Option<String>, preferred: Option<CodecType>) -> Option<
    SelectionView,
> {
    match sdp {
        Some(s) => bridged(preferred_audio(sdp_codecs(s@), preferred), s@),
        None => None,
    }
}

/// The audio that a description, where there is one, gives.
pub open spec fn best_audio_of(sdp: Option<String>, allow: Seq<CodecType>) -> Option<AudioView> {
    match sdp {
        Some(s) => best_audio(sdp_codecs(s@), allow),
        None => None,
    }
}

fn allows(allow: &[CodecType], t: CodecType) -> (r: bool)
    ensures
        r == allow@.contains(t),
{
    let mut i: usize = 0;
    while i < allow.len()
        invariant
            i <= allow.len(),
            forall|j: int| 0 <= j < i ==> allow@[j] != t,
        decreases allow.len() - i,
    {
        if allow[i] == t {
            assert(allow@[i as int] == t);
            return true;
        }
        i += 1;
    }
    false
}

impl MediaEndpoint {
    fn offer_caller_part(map: &Vec<RtpMapEntry>, allow: &[CodecType]) -> (r: Vec<CodecInfo>)
        ensures
            r@ == caller_part(map@, allow@),
    {
        let mut out: Vec<CodecInfo> = Vec::new();
        let mut i: usize = 0;
        assert(map@.take(0) =~= Seq::empty());
        while i < map.len()
            invariant
                i <= map.len(),
                out@ == caller_part(map@.take(i as int), allow@),
            decreases map.len() - i,
        {
            let e = map[i];
            assert(map@.take(i + 1).drop_last() =~= map@.take(i as int));
            assert(map@.take(i + 1).last() == e);
            let info = CodecInfo {
                payload_type: e.0,
                codec: e.1.0,
                clock_rate: e.1.1,
                channels: e.1.2,
            };
            if !matches!(info.codec, CodecType::TelephoneEvent) && (allow.len() == 0 || allows(
                allow,
                info.codec,
            )) && !contains_type(&out, info.codec) {
                out.push(info);
            }
            i += 1;
        }
        assert(map@.take(i as int) =~= map@);
        out
    }

    fn offer_allowed(codecs: Vec<CodecInfo>, allow: &[CodecType]) -> (r: Option<Vec<CodecInfo>>)
        ensures
            (match r {
                Some(v) => Some(v@),
                None => None,
            }) == with_allowed(codecs@, allow@),
    {
        let mut out = codecs;
        let mut used = used_payload_types(&out);
        let mut i: usize = 0;
        assert(allow@.take(0) =~= Seq::empty());
        while i < allow.len()
            invariant
                i <= allow.len(),
                used@ == payload_types(out@),
                Some(out@) == with_allowed(codecs@, allow@.take(i as int)),
            decreases allow.len() - i,
        {
            let t = allow[i];
            assert(allow@.take(i + 1).drop_last() =~= allow@.take(i as int));
            assert(allow@.take(i + 1).last() == t);
            if !matches!(t, CodecType::TelephoneEvent) && !contains_type(&out, t) {
                let pt = if t.is_dynamic() {
                    Self::first_free(&used)
                } else {
                    Some(t.payload_type())
                };
                match pt {
                    Some(payload_type) => {
                        let info = CodecInfo {
                            payload_type,
                            codec: t,
                            clock_rate: t.clock_rate(),
                            channels: t.channels(),
                        };
                        proof {
                            payload_types_push(out@, info);
                        }
                        used.insert(payload_type);
                        out.push(info);
                    },
                    None => {
                        proof {
                            with_allowed_stays_none(codecs@, allow@, i + 1);
                        }
                        return None;
                    },
                }
            }
            i += 1;
        }
        assert(allow@.take(i as int) =~= allow@);
        Some(out)
    }

    /// The codecs that are offered to the callee, see [`local_offer`].
    pub fn try_build_local_offer(caller_rtp_map: &Vec<RtpMapEntry>, allow_codecs: &[CodecType]) -> (r:
        Option<Vec<CodecInfo>>)
        ensures
            (match r {
                Some(v) => Some(v@),
                None => None,
            }) == local_offer(caller_rtp_map@, allow_codecs@),
    {
        let from_caller = Self::offer_caller_part(caller_rtp_map, allow_codecs);
        match Self::offer_allowed(from_caller, allow_codecs) {
            Some(codecs) => {
                let mut out = codecs;
                let dtmf = Self::extract_telephone_event_codecs(caller_rtp_map);
                let mut used = used_payload_types(&out);
                if Self::append_supported_dtmf_codecs(&mut out, dtmf.as_slice(), &mut used) {
                    Some(out)
                } else {
                    None
                }
            },
            None => None,
        }
    }

    /// The codecs that are offered to the callee: those of the caller that are
    /// allowed, in the caller's order, then the other allowed ones, then DTMF
    /// events.
    pub fn build_local_offer_codec_info_from_rtp_map(
        caller_rtp_map: &Vec<RtpMapEntry>,
        allow_codecs: &[CodecType],
    ) -> (r: Vec<CodecInfo>)
        requires
            local_offer(caller_rtp_map@, allow_codecs@) is Some,
        ensures
            Some(r@) == local_offer(caller_rtp_map@, allow_codecs@),
    {
        match Self::try_build_local_offer(caller_rtp_map, allow_codecs) {
            Some(v) => v,
            None => Vec::new(),
        }
    }

    /// The codecs that are offered to the callee of a caller's description; an
    /// unreadable one counts as one without codecs. `None` where the payload
    /// types do not suffice.
    pub fn local_offer_codecs(caller_offer_sdp: Option<&str>, allow_codecs: &[CodecType]) -> (r:
        Option<Vec<CodecInfo>>)
        ensures
            (match r {
                Some(v) => Some(v@),
                None => None,
            }) == local_offer(offered_map(caller_offer_sdp), allow_codecs@),
    {
        let map = match caller_offer_sdp {
            Some(sdp) => match parse_media(sdp) {
                Some(media) => match MediaNegotiator::audio_section(&media) {
                    Some(section) => MediaNegotiator::parse_rtp_map_from_section(section),
                    None => Vec::new(),
                },
                None => Vec::new(),
            },
            None => Vec::new(),
        };
        assert(map@ =~= offered_map(caller_offer_sdp));
        Self::try_build_local_offer(&map, allow_codecs)
    }
}

/// The payload type map of the first audio section of a description.
pub open spec fn offered_map(sdp: Option<&str>) -> Seq<RtpMapEntry> {
    match sdp {
        Some(s) => match parsed_media(s@) {
            Some(m) => match first_audio(m) {
                Some(a) => rtp_map(a.2, a.1),
                None => Seq::empty(),
            },
            None => Seq::empty(),
        },
        None => Seq::empty(),
    }
}

proof fn with_allowed_stays_none(codecs: Seq<CodecInfo>, allow: Seq<CodecType>, k: int)
    requires
        0 <= k <= allow.len(),
        with_allowed(codecs, allow.take(k)) is None,
    ensures
        with_allowed(codecs, allow) is None,
    decreases allow.len() - k,
{
    if k == allow.len() {
        assert(allow.take(k) =~= allow);
    } else {
        assert(allow.take(k + 1).drop_last() =~= allow.take(k));
        with_allowed_stays_none(codecs, allow, k + 1);
    }
}

impl MediaEndpoint {
    /// The media side of a leg whose remote party offers `offer_sdp`.
    pub fn new(offer_sdp: Option<String>) -> (r: MediaEndpoint)
        ensures
            r == (MediaEndpoint {
                offer_sdp,
                answer_sdp: None,
                negotiated_audio: None,
                ssrc: None,
                dtmf_listener_cancel: None,
                early_media_sent: false,
                directional_recorder_option: None,
            }),
    {
        MediaEndpoint {
            offer_sdp,
            answer_sdp: None,
            negotiated_audio: None,
            ssrc: None,
            dtmf_listener_cancel: None,
            early_media_sent: false,
            directional_recorder_option: None,
        }
    }

    /// The audio that a list of codecs gives, see [`best_audio`].
    pub fn select_best_audio(codecs: &Vec<CodecInfo>, allow_codecs: &[CodecType]) -> (r: Option<
        (CodecType, RtpCodecParameters, Vec<CodecInfo>),
    >)
        ensures
            audio_view(r) == best_audio(codecs@, allow_codecs@),
    {
        let split = MediaNegotiator::split_codecs(codecs);
        match MediaNegotiator::select_best_codec(&split.audio, allow_codecs) {
            Some(c) => Some((c.codec, c.to_params(), split.dtmf)),
            None => None,
        }
    }

    /// The audio that a description gives, see [`best_audio`].
    pub fn select_best_audio_from_sdp(sdp: &str, allow_codecs: &[CodecType]) -> (r: Option<
        (CodecType, RtpCodecParameters, Vec<CodecInfo>),
    >)
        ensures
            audio_view(r) == best_audio(sdp_codecs(sdp@), allow_codecs@),
    {
        let codecs = MediaNegotiator::extract_all_codecs(sdp);
        Self::select_best_audio(&codecs, allow_codecs)
    }

    /// The SSRC that a description announces.
    pub fn ssrc_from_sdp(sdp: &str) -> (r: Option<u32>)
        ensures
            r == ssrc_of(sdp@),
    {
        MediaNegotiator::extract_ssrc(sdp)
    }

    /// What a description gives for bridging.
    pub fn bridge_selection_from_sdp(sdp: &str, allow_codecs: &[CodecType]) -> (r: Option<
        BridgeSelection,
    >)
        ensures
            selection_view(r) == bridged(best_audio(sdp_codecs(sdp@), allow_codecs@), sdp@),
    {
        match Self::select_best_audio_from_sdp(sdp, allow_codecs) {
            Some(a) => Some(BridgeSelection::from_audio_tuple(a, Self::ssrc_from_sdp(sdp))),
            None => None,
        }
    }

    /// The audio that a list of codecs gives where one is preferred.
    pub fn preferred_audio_of(codecs: &Vec<CodecInfo>, preferred_codec: Option<CodecType>) -> (r:
        Option<(CodecType, RtpCodecParameters, Vec<CodecInfo>)>)
        ensures
            audio_view(r) == preferred_audio(codecs@, preferred_codec),
    {
        let split = MediaNegotiator::split_codecs(codecs);
        let wanted = match preferred_codec {
            Some(t) => find_type(&split.audio, t),
            None => None,
        };
        let chosen = match wanted {
            Some(c) => Some(c),
            None => {
                let none: Vec<CodecType> = Vec::new();
                MediaNegotiator::select_best_codec(&split.audio, none.as_slice())
            },
        };
        match chosen {
            Some(c) => Some((c.codec, c.to_params(), split.dtmf)),
            None => None,
        }
    }

    /// What a description gives for bridging with a codec.
    pub fn matching_bridge_selection_from_sdp(sdp: &str, preferred_codec: Option<CodecType>) -> (r:
        Option<BridgeSelection>)
        ensures
            selection_view(r) == bridged(preferred_audio(sdp_codecs(sdp@), preferred_codec), sdp@),
    {
        let codecs = MediaNegotiator::extract_all_codecs(sdp);
        match Self::preferred_audio_of(&codecs, preferred_codec) {
            Some(a) => Some(BridgeSelection::from_audio_tuple(a, Self::ssrc_from_sdp(sdp))),
            None => None,
        }
    }

    /// Keeps what was negotiated.
    pub fn select_or_store_negotiated_audio(
        &mut self,
        negotiated_audio: Option<(CodecType, RtpCodecParameters, Vec<CodecInfo>)>,
    )
        ensures
            *final(self) == (MediaEndpoint { negotiated_audio, ..*old(self) }),
    {
        self.negotiated_audio = negotiated_audio;
    }

    /// Fixes the audio of an answered leg as `selector` reads it from a description:
    /// the answer decides, else the offer. What has been fixed once is kept.
    pub fn freeze_answered_audio<F: Fn(&str) -> Option<SelectedAudio>>(&mut self, selector: F)
        requires
            forall|sdp: &str| #[trigger] selector.requires((sdp,)),
        ensures
            old(self).negotiated_audio is Some ==> *final(self) == *old(self),
            old(self).negotiated_audio is None ==> exists|first: Option<SelectedAudio>| #[trigger]
                is_selected(selector, old(self).answer_sdp, first) && if first is Some {
                    final(self).negotiated_audio == first
                } else {
                    is_selected(selector, old(self).offer_sdp, final(self).negotiated_audio)
                },
            *final(self) == (MediaEndpoint {
                negotiated_audio: final(self).negotiated_audio,
                ..*old(self)
            }),
    {
        if self.negotiated_audio.is_some() {
            return;
        }
        let from_answer = match &self.answer_sdp {
            Some(sdp) => selector(sdp.as_str()),
            None => None,
        };
        assert(is_selected(selector, self.answer_sdp, from_answer));
        self.negotiated_audio = match from_answer {
            Some(a) => Some(a),
            None => match &self.offer_sdp {
                Some(sdp) => selector(sdp.as_str()),
                None => None,
            },
        };
    }

    /// Fixes the audio of an answered leg by the best codec that is allowed.
    pub fn freeze_answered_audio_with_allow_codecs(&mut self, allow_codecs: &[CodecType])
        ensures
            *final(self) == (MediaEndpoint {
                negotiated_audio: final(self).negotiated_audio,
                ..*old(self)
            }),
            old(self).negotiated_audio is Some ==> final(self).negotiated_audio == old(self).negotiated_audio,
            old(self).negotiated_audio is None ==> audio_view(final(self).negotiated_audio)
                == or_else(
                best_audio_of(old(self).answer_sdp, allow_codecs@),
                best_audio_of(old(self).offer_sdp, allow_codecs@),
            ),
    {
        let best = |sdp: &str| -> (r: Option<SelectedAudio>)
            ensures
                audio_view(r) == best_audio(sdp_codecs(sdp@), allow_codecs@),
            { MediaEndpoint::select_best_audio_from_sdp(sdp, allow_codecs) };
        self.freeze_answered_audio(best);
    }

    /// The SSRC that the answer announces.
    pub open spec fn spec_answered_ssrc(self) -> Option<u32> {
        match self.answer_sdp {
            Some(s) => ssrc_of(s@),
            None => None,
        }
    }

    /// The SSRC that the answer announces.
    pub fn answered_ssrc(&self) -> (r: Option<u32>)
        ensures
            r == self.spec_answered_ssrc(),
    {
        match &self.answer_sdp {
            Some(sdp) => Self::ssrc_from_sdp(sdp.as_str()),
            None => None,
        }
    }

    /// What the leg is bridged with: the negotiated audio, else what the answer
    /// gives, else what the offer gives.
    pub open spec fn bridge_choice(self, allow: Seq<CodecType>) -> Option<SelectionView> {
        match self.negotiated_audio {
            Some(a) => Some((a.0, a.1, a.2@, self.spec_answered_ssrc())),
            None => or_else(best_bridge(self.answer_sdp, allow), best_bridge(self.offer_sdp, allow)),
        }
    }

    /// See [`MediaEndpoint::bridge_choice`].
    pub fn bridge_audio_selection(&self, allow_codecs: &[CodecType]) -> (r: Option<BridgeSelection>)
        ensures
            selection_view(r) == self.bridge_choice(allow_codecs@),
    {
        if let Some(a) = &self.negotiated_audio {
            return Some(
                BridgeSelection::from_audio_tuple(
                    (a.0, a.1, copy_codecs(&a.2)),
                    self.answered_ssrc(),
                ),
            );
        }
        let from_answer = match &self.answer_sdp {
            Some(sdp) => Self::bridge_selection_from_sdp(sdp.as_str(), allow_codecs),
            None => None,
        };
        match from_answer {
            Some(s) => Some(s),
            None => match &self.offer_sdp {
                Some(sdp) => Self::bridge_selection_from_sdp(sdp.as_str(), allow_codecs),
                None => None,
            },
        }
    }

    /// What the leg is bridged with where the other leg has chosen a codec.
    pub fn bridge_audio_matching(&self, preferred_codec: Option<CodecType>) -> (r: Option<
        BridgeSelection,
    >)
        ensures
            selection_view(r) == or_else(
                matching_bridge(self.answer_sdp, preferred_codec),
                matching_bridge(self.offer_sdp, preferred_codec),
            ),
    {
        let from_answer = match &self.answer_sdp {
            Some(sdp) => Self::matching_bridge_selection_from_sdp(sdp.as_str(), preferred_codec),
            None => None,
        };
        match from_answer {
            Some(s) => Some(s),
            None => match &self.offer_sdp {
                Some(sdp) => Self::matching_bridge_selection_from_sdp(
                    sdp.as_str(),
                    preferred_codec,
                ),
                None => None,
            },
        }
    }
}

proof fn with_allowed_extends(codecs: Seq<CodecInfo>, allow: Seq<CodecType>)
    ensures
        with_allowed(codecs, allow) matches Some(c) ==> codecs.len() <= c.len() && c.take(
            codecs.len() as int,
        ) == codecs && (forall|t: CodecType|
            #![trigger has_type(c, t)]
            allow.contains(t) && t !is TelephoneEvent ==> has_type(c, t)),
    decreases allow.len(),
{
    if allow.len() == 0 {
        assert(codecs.take(codecs.len() as int) =~= codecs);
    } else if with_allowed(codecs, allow) is Some {
        let rest = with_allowed(codecs, allow.drop_last())->0;
        with_allowed_extends(codecs, allow.drop_last());
        let full = with_allowed(codecs, allow)->0;
        assert(full.take(codecs.len() as int) =~= rest.take(codecs.len() as int));
        assert forall|t: CodecType|
            #![trigger has_type(full, t)]
            allow.contains(t) && t !is TelephoneEvent implies has_type(full, t) by {
            if t == allow.last() && !has_type(rest, t) {
                assert(full[full.len() - 1].codec == t);
            } else {
                if t != allow.last() {
                    let i = choose|i: int| 0 <= i < allow.len() && allow[i] == t;
                    assert(allow.drop_last()[i] == t);
                }
                assert(has_type(rest, t));
                let i = choose|i: int| 0 <= i < rest.len() && #[trigger] rest[i].codec == t;
                assert(full[i].codec == t);
            }
        }
    }
}

proof fn with_dtmf_at_facts(codecs: Seq<CodecInfo>, clock_rate: u32, preferred: u8)
    ensures
        with_dtmf_at(codecs, clock_rate, preferred) matches Some(c) ==> codecs.len() <= c.len()
            && c.take(codecs.len() as int) == codecs && has_dtmf_at(c, clock_rate) && (forall|other: u32|
            has_dtmf_at(codecs, other) ==> has_dtmf_at(c, other)),
{
    if let Some(c) = with_dtmf_at(codecs, clock_rate, preferred) {
        assert(c.take(codecs.len() as int) =~= codecs);
        if !has_dtmf_at(codecs, clock_rate) {
            assert(c[codecs.len() as int].codec is TelephoneEvent);
        }
        assert forall|other: u32| has_dtmf_at(codecs, other) implies has_dtmf_at(c, other) by {
            let i = choose|i: int|
                0 <= i < codecs.len() && (#[trigger] codecs[i]).codec is TelephoneEvent
                    && codecs[i].clock_rate == other;
            assert(c[i] == codecs[i]);
        }
    }
}

/// An offer to the callee begins with the caller's allowed codecs in the
/// caller's order, holds every allowed audio codec, and DTMF events at both
/// clock rates.
pub proof fn local_offer_is_complete(map: Seq<RtpMapEntry>, allow: Seq<CodecType>)
    ensures
        local_offer(map, allow) matches Some(offer) ==> {
            &&& caller_part(map, allow).len() <= offer.len()
            &&& offer.take(caller_part(map, allow).len() as int) == caller_part(map, allow)
            &&& forall|t: CodecType|
                #![trigger has_type(offer, t)]
                allow.contains(t) && t !is TelephoneEvent ==> has_type(offer, t)
            &&& has_dtmf_at(offer, 8000)
            &&& has_dtmf_at(offer, 48000)
        },
{
    let start = caller_part(map, allow);
    let events = telephone_events(map);
    with_allowed_extends(start, allow);
    if let Some(offer) = local_offer(map, allow) {
        let c = with_allowed(start, allow)->0;
        let d = with_dtmf(c, events);
        dtmf_is_appended_without_conflict(c, events);
        with_dtmf_at_facts(d, 8000, 101);
        let e = with_dtmf_at(d, 8000, 101)->0;
        with_dtmf_at_facts(e, 48000, 110);
        assert(offer.take(start.len() as int) =~= start) by {
            assert forall|i: int| 0 <= i < start.len() implies offer[i] == start[i] by {
                assert(offer.take(e.len() as int)[i] == e[i]);
                assert(e.take(d.len() as int)[i] == d[i]);
                assert(d.take(c.len() as int)[i] == c[i]);
                assert(c.take(start.len() as int)[i] == start[i]);
            }
        }
        assert forall|t: CodecType|
            #![trigger has_type(offer, t)]
            allow.contains(t) && t !is TelephoneEvent implies has_type(offer, t) by {
            assert(has_type(c, t));
            let i = choose|i: int| 0 <= i < c.len() && #[trigger] c[i].codec == t;
            assert(d.take(c.len() as int)[i] == c[i]);
            assert(e.take(d.len() as int)[i] == d[i]);
            assert(offer.take(e.len() as int)[i] == e[i]);
            assert(offer[i].codec == t);
        }
    }
}

proof fn next_free_is_free(used: Set<u8>, from: int)
    requires
        0 <= from,
    ensures
        next_free(used, from) matches Some(pt) ==> !used.contains(pt) && from <= pt && (forall|p: u8|
            from <= p < pt ==> used.contains(p)),
        next_free(used, from) is None ==> (forall|p: u8| from <= p ==> used.contains(p)),
    decreases 256 - from,
{
    if from <= 255 && used.contains(from as u8) {
        next_free_is_free(used, from + 1);
    }
}

/// An allocated payload type is not in use, and one is found wherever the
/// preferred one or one of the dynamic range is free.
pub proof fn allocated_is_free(used: Set<u8>, preferred: u8)
    ensures
        allocated(used, preferred) matches Some(pt) ==> !used.contains(pt),
        allocated(used, preferred) is None ==> (forall|p: u8| 96 <= p ==> used.contains(p)),
{
    next_free_is_free(used, 96);
}

/// How the answer to the caller is made.
#[derive(Debug)]
pub enum AnswerPlan {
    /// The answer was made before.
    Cached(String),
    /// A new track describes itself.
    Describe { webrtc: bool },
    /// The existing track answers the offer.
    AnswerWithExisting,
    /// A new track answers the offer.
    AnswerWithNew { webrtc: bool },
}

/// The RTP settings of the proxy.
#[derive(Clone, Debug)]
pub struct MediaConfig {
    pub external_ip: Option<String>,
    pub rtp_start_port: Option<u16>,
    pub rtp_end_port: Option<u16>,
    pub webrtc_port_start: Option<u16>,
    pub webrtc_port_end: Option<u16>,
    pub enable_latching: bool,
}

/// Whether a description is one of WebRTC.
pub open spec fn webrtc_sdp(sdp: Seq<char>) -> bool {
    occurs(sdp, "RTP/SAVPF"@)
}

impl MediaEndpoint {
    /// Whether a description is one of WebRTC.
    pub fn is_webrtc_sdp(sdp: &str) -> (r: bool)
        ensures
            r == webrtc_sdp(sdp@),
    {
        contains(sdp, "RTP/SAVPF")
    }

    /// The ports that a track takes: those of its kind, where both ends of the
    /// range are configured.
    pub fn port_range(config: &MediaConfig, is_webrtc: bool) -> (r: Option<(u16, u16)>)
        ensures
            r == (if is_webrtc {
                match (config.webrtc_port_start, config.webrtc_port_end) {
                    (Some(a), Some(b)) => Some((a, b)),
                    _ => None,
                }
            } else {
                match (config.rtp_start_port, config.rtp_end_port) {
                    (Some(a), Some(b)) => Some((a, b)),
                    _ => None,
                }
            }),
    {
        let (start, end) = if is_webrtc {
            (config.webrtc_port_start, config.webrtc_port_end)
        } else {
            (config.rtp_start_port, config.rtp_end_port)
        };
        match (start, end) {
            (Some(a), Some(b)) => Some((a, b)),
            _ => None,
        }
    }

    /// How the answer to the caller is made. An answer is made once; without an
    /// offer, or with a blank one, the track describes itself.
    pub fn plan_caller_answer(&self, caller_offer_sdp: Option<&str>, has_track: bool) -> (r: AnswerPlan)
        ensures
            match self.answer_sdp {
                Some(a) => r == AnswerPlan::Cached(a),
                None => match caller_offer_sdp {
                    None => r == (AnswerPlan::Describe { webrtc: false }),
                    Some(o) => if trimmed(o@).len() == 0 {
                        r == (AnswerPlan::Describe { webrtc: webrtc_sdp(o@) })
                    } else if has_track {
                        r == AnswerPlan::AnswerWithExisting
                    } else {
                        r == (AnswerPlan::AnswerWithNew { webrtc: webrtc_sdp(o@) })
                    },
                },
            },
    {
        if let Some(a) = &self.answer_sdp {
            return AnswerPlan::Cached(a.clone());
        }
        match caller_offer_sdp {
            None => AnswerPlan::Describe { webrtc: false },
            Some(o) => {
                let webrtc = Self::is_webrtc_sdp(o);
                if trim(o).as_str().is_empty() {
                    AnswerPlan::Describe { webrtc }
                } else if has_track {
                    AnswerPlan::AnswerWithExisting
                } else {
                    AnswerPlan::AnswerWithNew { webrtc }
                }
            },
        }
    }

    /// Keeps the answer that was made, so that it is not made again.
    pub fn store_answer(&mut self, answer: String)
        ensures
            *final(self) == (MediaEndpoint { answer_sdp: Some(answer), ..*old(self) }),
    {
        self.answer_sdp = Some(answer);
    }

    /// Whether a remote answer still has to be applied to the track.
    pub fn needs_remote_answer(&self, remote_sdp: &str) -> (r: bool)
        ensures
            r == (opt_text(self.answer_sdp) != Some(remote_sdp@)),
    {
        match &self.answer_sdp {
            Some(a) => !same(a.as_str(), remote_sdp),
            None => true,
        }
    }

    /// Whether `after` is this media once the answer of the other side is in force:
    /// it is kept with the SSRC that it announces.
    pub open spec fn has_remote_answer(self, after: MediaEndpoint, remote_sdp: Seq<char>) -> bool {
        if opt_text(self.answer_sdp) == Some(remote_sdp) {
            after == self
        } else {
            &&& opt_text(after.answer_sdp) == Some(remote_sdp)
            &&& after == (MediaEndpoint {
                answer_sdp: after.answer_sdp,
                ssrc: ssrc_of(remote_sdp),
                ..self
            })
        }
    }

    /// Notes the answer of the other side, which the track has taken.
    pub fn apply_remote_answer(&mut self, remote_sdp: &str)
        ensures
            old(self).has_remote_answer(*final(self), remote_sdp@),
    {
        if self.needs_remote_answer(remote_sdp) {
            self.answer_sdp = Some(own(remote_sdp));
            self.ssrc = Self::ssrc_from_sdp(remote_sdp);
        }
    }

    /// Keeps which DTMF listener runs.
    pub fn set_dtmf_listener_cancel(&mut self, cancel: u64)
        ensures
            *final(self) == (MediaEndpoint { dtmf_listener_cancel: Some(cancel), ..*old(self) }),
    {
        self.dtmf_listener_cancel = Some(cancel);
    }

    /// Gives up the running DTMF listener; the result is what to stop.
    pub fn cancel_dtmf_listener(&mut self) -> (r: Option<u64>)
        ensures
            r == old(self).dtmf_listener_cancel,
            *final(self) == (MediaEndpoint { dtmf_listener_cancel: None, ..*old(self) }),
    {
        self.dtmf_listener_cancel.take()
    }

    /// Begins to record the leg to a file.
    pub fn start_directional_recording(&mut self, path: String)
        ensures
            *final(self) == (MediaEndpoint {
                directional_recorder_option: Some(path),
                ..*old(self)
            }),
    {
        self.directional_recorder_option = Some(path);
    }

    /// Stops recording the leg.
    pub fn stop_directional_recording(&mut self)
        ensures
            *final(self) == (MediaEndpoint { directional_recorder_option: None, ..*old(self) }),
    {
        self.directional_recorder_option = None;
    }

    /// The codecs of the leg's offer that carry audio.
    pub open spec fn offered_audio(self) -> Seq<CodecInfo> {
        match self.offer_sdp {
            Some(s) => audio_of(sdp_codecs(s@)),
            None => Seq::empty(),
        }
    }

    fn first_offered(&self) -> (r: Option<CodecInfo>)
        ensures
            r == (if self.offered_audio().len() > 0 {
                Some(self.offered_audio()[0])
            } else {
                None
            }),
    {
        match &self.offer_sdp {
            Some(sdp) => {
                let codecs = MediaNegotiator::extract_codec_params(sdp.as_str());
                if codecs.audio.len() > 0 {
                    Some(codecs.audio[0])
                } else {
                    None
                }
            },
            None => None,
        }
    }

    /// The codec that hold music is played in: the first that the leg offers.
    pub fn hold_codec(&self) -> (r: CodecType)
        ensures
            r == (if self.offered_audio().len() > 0 {
                self.offered_audio()[0].codec
            } else {
                CodecType::PCMU
            }),
    {
        match self.first_offered() {
            Some(c) => c.codec,
            None => CodecType::PCMU,
        }
    }

    /// The codec that a prompt is played in: that of the first track that has
    /// one, prompts aside, else the first that the leg offers.
    pub fn prompt_codec(&self, tracks: &Vec<(String, Option<CodecInfo>)>) -> (r: Option<CodecInfo>)
        ensures
            r == (match first_track_codec(tracks@) {
                Some(c) => Some(c),
                None => if self.offered_audio().len() > 0 {
                    Some(self.offered_audio()[0])
                } else {
                    None
                },
            }),
    {
        let mut i: usize = 0;
        assert(tracks@.skip(0) =~= tracks@);
        while i < tracks.len()
            invariant
                i <= tracks.len(),
                first_track_codec(tracks@.skip(i as int)) == first_track_codec(tracks@),
            decreases tracks.len() - i,
        {
            assert(tracks@.skip(i as int)[0] == tracks@[i as int]);
            assert(tracks@.skip(i as int).drop_first() =~= tracks@.skip(i + 1));
            if !same(tracks[i].0.as_str(), "prompt") {
                if let Some(c) = tracks[i].1 {
                    return Some(c);
                }
            }
            i += 1;
        }
        assert(tracks@.skip(i as int) =~= Seq::empty());
        self.first_offered()
    }
}

/// The codec of the first track that has one, prompts aside.
pub open spec fn first_track_codec(tracks: Seq<(String, Option<CodecInfo>)>) -> Option<CodecInfo>
    decreases tracks.len(),
{
    if tracks.len() == 0 {
        None
    } else if tracks[0].0@ != "prompt"@ && tracks[0].1 is Some {
        tracks[0].1
    } else {
        first_track_codec(tracks.drop_first())
    }
}

/// Whether a prompt is fetched over the network.
pub open spec fn remote_prompt(path: Seq<char>) -> bool {
    has_prefix(path, "http://"@) || has_prefix(path, "https://"@)
}

/// Whether a prompt can be played: it is fetched over the network, or its file
/// is there.
pub fn prompt_is_playable(path: &str, file_exists: bool) -> (r: bool)
    ensures
        r == (remote_prompt(path@) || file_exists),
{
    starts_with(path, "http://") || starts_with(path, "https://") || file_exists
}

/// How the playing of a prompt ends.
#[derive(Clone, Copy, Debug, PartialEq, Eq, Structural)]
pub enum PromptEnd {
    /// Its file is not there.
    Missing,
    /// It could not be started.
    NotStarted,
    /// It was played to its end.
    Completed,
    /// It was cancelled before.
    Cancelled,
}

/// What the application is told of the end of a prompt: it counts as interrupted
/// unless it was played to its end.
pub fn prompt_complete(track_id: &str, end: PromptEnd) -> (r: ControllerEvent)
    ensures
        r matches ControllerEvent::AudioComplete { track_id: id, interrupted } && id@ == track_id@
            && interrupted == (end !is Completed),
{
    ControllerEvent::AudioComplete {
        track_id: own(track_id),
        interrupted: end != PromptEnd::Completed,
    }
}

proof fn caller_part_facts(map: Seq<RtpMapEntry>, allow: Seq<CodecType>)
    ensures
        ({
            let c = caller_part(map, allow);
            &&& forall|i: int|
                0 <= i < c.len() ==> {
                    &&& (#[trigger] c[i]).codec !is TelephoneEvent
                    &&& allow.len() > 0 ==> allow.contains(c[i].codec)
                    &&& is_first_entry(map, c[i])
                }
            &&& forall|k: int|
                0 <= k < map.len() && (#[trigger] map[k]).1.0 !is TelephoneEvent && (allow.len() == 0
                    || allow.contains(map[k].1.0)) ==> has_type(c, map[k].1.0)
            &&& forall|i: int, j: int|
                0 <= i < j < c.len() ==> (#[trigger] c[i]).codec != (#[trigger] c[j]).codec
            &&& forall|i: int, j: int, k: int|
                0 <= i < j < c.len() && 0 <= k < map.len() && (#[trigger] map[k]).1.0 == (
                #[trigger] c[j]).codec ==> listed_before(map, (#[trigger] c[i]).codec, k)
        }),
    decreases map.len(),
{
    if map.len() > 0 {
        let prefix = map.drop_last();
        caller_part_facts(prefix, allow);
        let rest = caller_part(prefix, allow);
        let c = caller_part(map, allow);
        let last = map.len() - 1;
        assert(forall|k: int| 0 <= k < last ==> prefix[k] == map[k]);
        assert forall|i: int| 0 <= i < c.len() implies {
            &&& (#[trigger] c[i]).codec !is TelephoneEvent
            &&& allow.len() > 0 ==> allow.contains(c[i].codec)
            &&& is_first_entry(map, c[i])
        } by {
            if i < rest.len() {
                assert(c[i] == rest[i]);
                let k = choose|k: int| #[trigger] first_entry_at(prefix, rest[i], k);
                assert(prefix[k] == map[k]);
                assert(first_entry_at(map, c[i], k));
            } else {
                assert(c[i] == info_of(map.last()));
                assert forall|j: int| 0 <= j < last implies (#[trigger] map[j]).1.0 != c[i].codec by {
                    assert(prefix[j] == map[j]);
                }
                assert(first_entry_at(map, c[i], last));
            }
        }
        assert forall|t: CodecType| has_type(rest, t) implies has_type(c, t) by {
            let i = choose|i: int| 0 <= i < rest.len() && #[trigger] rest[i].codec == t;
            assert(c[i].codec == t);
        }
        assert forall|k: int|
            0 <= k < map.len() && (#[trigger] map[k]).1.0 !is TelephoneEvent && (allow.len() == 0
                || allow.contains(map[k].1.0)) implies has_type(c, map[k].1.0) by {
            if k < last {
                assert(prefix[k] == map[k]);
                assert(has_type(rest, map[k].1.0));
            } else if !has_type(rest, map[k].1.0) {
                assert(c[c.len() - 1].codec == map[k].1.0);
            }
        }
        assert forall|i: int, j: int| 0 <= i < j < c.len() implies (#[trigger] c[i]).codec != (
        #[trigger] c[j]).codec by {
            assert(c[i] == rest[i]);
            if j < rest.len() {
                assert(c[j] == rest[j]);
            } else {
                assert(rest[i].codec != map.last().1.0);
            }
        }
        assert forall|i: int, j: int, k: int|
            0 <= i < j < c.len() && 0 <= k < map.len() && (#[trigger] map[k]).1.0 == (
            #[trigger] c[j]).codec implies listed_before(map, (#[trigger] c[i]).codec, k) by {
            assert(c[i] == rest[i]);
            if j < rest.len() {
                assert(c[j] == rest[j]);
                let f = choose|f: int| #[trigger] first_entry_at(prefix, rest[j], f);
                assert(prefix[f].1.0 == rest[j].codec);
                assert(listed_before(prefix, rest[i].codec, f));
                let m = choose|m: int| 0 <= m < f && (#[trigger] prefix[m]).1.0 == rest[i].codec;
                if k < f {
                    assert(prefix[k].1.0 != rest[j].codec);
                }
                assert(map[m].1.0 == c[i].codec);
            } else {
                if k < last {
                    assert(prefix[k] == map[k]);
                    assert(has_type(rest, map[k].1.0));
                }
                let f = choose|f: int| #[trigger] first_entry_at(prefix, rest[i], f);
                assert(map[f].1.0 == c[i].codec);
            }
        }
    }
}

/// Whether `c` is the first entry of its codec in a map, and stands at `k`.
pub open spec fn first_entry_at(map: Seq<RtpMapEntry>, c: CodecInfo, k: int) -> bool {
    &&& 0 <= k < map.len()
    &&& map[k] == (c.payload_type, (c.codec, c.clock_rate, c.channels))
    &&& forall|j: int| 0 <= j < k ==> (#[trigger] map[j]).1.0 != c.codec
}

/// Whether `c` is the first entry of its codec in a map.
pub open spec fn is_first_entry(map: Seq<RtpMapEntry>, c: CodecInfo) -> bool {
    exists|k: int| #[trigger] first_entry_at(map, c, k)
}

/// Whether a map has a codec before position `k`.
pub open spec fn listed_before(map: Seq<RtpMapEntry>, t: CodecType, k: int) -> bool {
    exists|m: int| 0 <= m < k && (#[trigger] map[m]).1.0 == t
}

/// Whether a map has a codec.
pub open spec fn lists_codec(map: Seq<RtpMapEntry>, t: CodecType) -> bool {
    exists|k: int| 0 <= k < map.len() && (#[trigger] map[k]).1.0 == t
}

/// Whether a list of codecs has one before position `k`.
pub open spec fn allowed_before(allow: Seq<CodecType>, t: CodecType, k: int) -> bool {
    exists|m: int| 0 <= m < k && #[trigger] allow[m] == t
}

proof fn with_allowed_facts(codecs: Seq<CodecInfo>, allow: Seq<CodecType>)
    ensures
        with_allowed(codecs, allow) matches Some(w) ==> {
            &&& codecs.len() <= w.len()
            &&& forall|i: int| 0 <= i < codecs.len() ==> w[i] == codecs[i]
            &&& forall|i: int|
                codecs.len() <= i < w.len() ==> {
                    &&& (#[trigger] w[i]).codec !is TelephoneEvent
                    &&& allow.contains(w[i].codec)
                    &&& !has_type(codecs, w[i].codec)
                    &&& w[i].clock_rate == w[i].codec.spec_clock_rate()
                    &&& w[i].channels == w[i].codec.spec_channels()
                    &&& !w[i].codec.spec_is_dynamic() ==> w[i].payload_type
                        == w[i].codec.spec_payload_type()
                    &&& w[i].codec.spec_is_dynamic() ==> w[i].payload_type >= 96 && forall|k: int|
                        0 <= k < i ==> (#[trigger] w[k]).payload_type != w[i].payload_type
                }
            &&& forall|i: int, j: int|
                0 <= i < j < w.len() && codecs.len() <= j ==> (#[trigger] w[i]).codec != (
                #[trigger] w[j]).codec
            &&& forall|i: int, j: int, k: int|
                codecs.len() <= i < j < w.len() && 0 <= k < allow.len() && #[trigger] allow[k] == (
                #[trigger] w[j]).codec ==> allowed_before(allow, (#[trigger] w[i]).codec, k)
        },
    decreases allow.len(),
{
    if allow.len() > 0 && with_allowed(codecs, allow) is Some {
        let prefix = allow.drop_last();
        with_allowed_facts(codecs, prefix);
        let v = with_allowed(codecs, prefix)->0;
        let w = with_allowed(codecs, allow)->0;
        let last = allow.len() - 1;
        assert(forall|k: int| 0 <= k < last ==> prefix[k] == allow[k]);
        assert(forall|i: int| 0 <= i < v.len() ==> w[i] == v[i]);
        next_free_is_free(payload_types(v), 96);
        assert forall|k: int| 0 <= k < v.len() implies payload_types(v).contains(
            (#[trigger] w[k]).payload_type,
        ) by {
            assert(v[k].payload_type == w[k].payload_type);
        }
        assert forall|i: int| codecs.len() <= i < w.len() implies {
            &&& (#[trigger] w[i]).codec !is TelephoneEvent
            &&& allow.contains(w[i].codec)
            &&& !has_type(codecs, w[i].codec)
        } by {
            if i < v.len() {
                assert(w[i] == v[i]);
                let k = choose|k: int| 0 <= k < prefix.len() && prefix[k] == v[i].codec;
                assert(allow[k] == w[i].codec);
            } else {
                assert(allow[last] == w[i].codec);
                if has_type(codecs, w[i].codec) {
                    let k = choose|k: int|
                        0 <= k < codecs.len() && #[trigger] codecs[k].codec == w[i].codec;
                    assert(v[k].codec == w[i].codec);
                }
            }
        }
        assert forall|i: int, j: int| 0 <= i < j < w.len() && codecs.len() <= j implies (
        #[trigger] w[i]).codec != (#[trigger] w[j]).codec by {
            assert(w[i] == v[i]);
            if j < v.len() {
                assert(w[j] == v[j]);
            } else {
                assert(v[i].codec != allow.last());
            }
        }
        assert forall|i: int, j: int, k: int|
            codecs.len() <= i < j < w.len() && 0 <= k < allow.len() && #[trigger] allow[k] == (
            #[trigger] w[j]).codec implies allowed_before(allow, (#[trigger] w[i]).codec, k) by {
            assert(w[i] == v[i]);
            if j < v.len() {
                assert(w[j] == v[j]);
                let f = if k < last {
                    k
                } else {
                    choose|f: int| 0 <= f < prefix.len() && prefix[f] == v[j].codec
                };
                assert(prefix[f] == v[j].codec);
                assert(allowed_before(prefix, v[i].codec, f));
                let m = choose|m: int| 0 <= m < f && #[trigger] prefix[m] == v[i].codec;
                assert(allow[m] == w[i].codec);
            } else {
                if k < last {
                    assert(prefix[k] == allow[k]);
                    with_allowed_extends(codecs, prefix);
                    assert(has_type(v, allow[k]));
                }
                let m = choose|m: int| 0 <= m < prefix.len() && prefix[m] == v[i].codec;
                assert(allow[m] == w[i].codec);
            }
        }
    }
}

proof fn telephone_events_facts(map: Seq<RtpMapEntry>)
    ensures
        forall|i: int|
            0 <= i < telephone_events(map).len() ==> {
                let e = #[trigger] telephone_events(map)[i];
                &&& e.codec is TelephoneEvent
                &&& map.contains((e.payload_type, (e.codec, e.clock_rate, e.channels)))
            },
{
    let all = infos(map);
    let is_event = |i: CodecInfo| i.codec is TelephoneEvent;
    let events = dtmf_of(all);
    let e = Seq::<CodecInfo>::empty();
    assert(payload_types(e) =~= Set::empty());
    assert(telephone_events(map) == with_dtmf(e, events));
    dtmf_is_appended_without_conflict(e, events);
    assert forall|i: int| 0 <= i < telephone_events(map).len() implies {
        let e = #[trigger] telephone_events(map)[i];
        &&& e.codec is TelephoneEvent
        &&& map.contains((e.payload_type, (e.codec, e.clock_rate, e.channels)))
    } by {
        let x = telephone_events(map)[i];
        assert(events.contains(x));
        let k = choose|k: int| 0 <= k < events.len() && events[k] == x;
        all.lemma_filter_pred(is_event, k);
        all.lemma_filter_contains_rev(is_event, x);
        let m = choose|m: int| 0 <= m < all.len() && all[m] == x;
        assert(map[m] == (x.payload_type, (x.codec, x.clock_rate, x.channels)));
    }
}

/// The stretch of an offer before its DTMF events, and what the events are.
proof fn offer_parts(map: Seq<RtpMapEntry>, allow: Seq<CodecType>)
    requires
        local_offer(map, allow) is Some,
    ensures
        with_allowed(caller_part(map, allow), allow) is Some,
        ({
            let c = with_allowed(caller_part(map, allow), allow)->0;
            let offer = local_offer(map, allow)->0;
            &&& c.len() <= offer.len()
            &&& forall|i: int| 0 <= i < c.len() ==> offer[i] == c[i]
            &&& forall|i: int|
                c.len() <= i < offer.len() ==> {
                    &&& (#[trigger] offer[i]).codec is TelephoneEvent
                    &&& map.contains(
                        (
                            offer[i].payload_type,
                            (offer[i].codec, offer[i].clock_rate, offer[i].channels),
                        ),
                    ) || ((offer[i].clock_rate == 8000 || offer[i].clock_rate == 48000)
                        && offer[i].channels == 1)
                    &&& forall|k: int|
                        0 <= k < i ==> (#[trigger] offer[k]).payload_type != offer[i].payload_type
                }
        }),
{
    let events = telephone_events(map);
    let c = with_allowed(caller_part(map, allow), allow)->0;
    let d = with_dtmf(c, events);
    let e = with_dtmf_at(d, 8000, 101)->0;
    let offer = local_offer(map, allow)->0;
    telephone_events_facts(map);
    dtmf_is_appended_without_conflict(c, events);
    appended_are_free(c, payload_types(c), events);
    with_dtmf_at_facts(d, 8000, 101);
    with_dtmf_at_facts(e, 48000, 110);
    allocated_is_free(payload_types(d), 101);
    allocated_is_free(payload_types(e), 110);
    assert forall|i: int| 0 <= i < c.len() implies d[i] == c[i] by {
        assert(d.take(c.len() as int)[i] == c[i]);
    }
    assert forall|i: int| 0 <= i < d.len() implies e[i] == d[i] by {
        assert(e.take(d.len() as int)[i] == d[i]);
    }
    assert forall|i: int| 0 <= i < e.len() implies offer[i] == e[i] by {
        assert(offer.take(e.len() as int)[i] == e[i]);
    }
    assert forall|i: int| c.len() <= i < offer.len() implies {
        &&& (#[trigger] offer[i]).codec is TelephoneEvent
        &&& map.contains(
            (offer[i].payload_type, (offer[i].codec, offer[i].clock_rate, offer[i].channels)),
        ) || ((offer[i].clock_rate == 8000 || offer[i].clock_rate == 48000) && offer[i].channels
            == 1)
        &&& forall|k: int|
            0 <= k < i ==> (#[trigger] offer[k]).payload_type != offer[i].payload_type
    } by {
        if i < d.len() {
            assert(offer[i] == d[i]);
            assert(events.contains(d[i]));
            let k = choose|k: int| 0 <= k < events.len() && events[k] == d[i];
            assert(events[k].codec is TelephoneEvent);
            assert forall|k: int| 0 <= k < i implies (#[trigger] offer[k]).payload_type
                != offer[i].payload_type by {
                assert(offer[k] == d[k]);
            }
        } else if i < e.len() {
            assert(offer[i] == e[i]);
            assert forall|k: int| 0 <= k < i implies (#[trigger] offer[k]).payload_type
                != offer[i].payload_type by {
                assert(offer[k] == d[k]);
                assert(payload_types(d).contains(d[k].payload_type));
            }
        } else {
            assert forall|k: int| 0 <= k < i implies (#[trigger] offer[k]).payload_type
                != offer[i].payload_type by {
                assert(offer[k] == e[k]);
                assert(payload_types(e).contains(e[k].payload_type));
            }
        }
    }
}

proof fn appended_are_free(codecs: Seq<CodecInfo>, used: Set<u8>, more: Seq<CodecInfo>)
    requires
        forall|i: int| 0 <= i < codecs.len() ==> used.contains(#[trigger] codecs[i].payload_type),
    ensures
        ({
            let (c, u) = appended(codecs, used, more);
            &&& codecs.len() <= c.len()
            &&& forall|i: int| 0 <= i < c.len() ==> u.contains(#[trigger] c[i].payload_type)
            &&& forall|i: int, k: int|
                codecs.len() <= i < c.len() && 0 <= k < i ==> (#[trigger] c[k]).payload_type != (
                #[trigger] c[i]).payload_type
        }),
    decreases more.len(),
{
    if more.len() > 0 {
        appended_are_free(codecs, used, more.drop_last());
        let (c, u) = appended(codecs, used, more.drop_last());
        let (c2, u2) = appended(codecs, used, more);
        assert forall|i: int| 0 <= i < c2.len() implies u2.contains(#[trigger] c2[i].payload_type) by {
            if i < c.len() {
                assert(u.contains(c[i].payload_type));
            }
        }
        assert forall|i: int, k: int| codecs.len() <= i < c2.len() && 0 <= k < i implies (
        #[trigger] c2[k]).payload_type != (#[trigger] c2[i]).payload_type by {
            assert(c2[k] == c[k]);
            if i < c.len() {
                assert(c2[i] == c[i]);
            } else {
                assert(u.contains(c[k].payload_type));
            }
        }
    }
}

/// The callee is offered no audio codec that the dialplan does not allow, and none that
/// neither the caller offers nor the dialplan names. A codec that the caller offers is
/// offered on as the caller first lists it: with its payload type, clock and channels.
pub proof fn offer_keeps_to_the_dialplan(map: Seq<RtpMapEntry>, allow: Seq<CodecType>, i: int)
    requires
        local_offer(map, allow) matches Some(offer) && 0 <= i < offer.len(),
        local_offer(map, allow)->0[i].codec != CodecType::TelephoneEvent,
    ensures
        ({
            let c = local_offer(map, allow)->0[i];
            &&& allow.len() > 0 ==> allow.contains(c.codec)
            &&& lists_codec(map, c.codec) || allow.contains(c.codec)
            &&& lists_codec(map, c.codec) ==> is_first_entry(map, c)
            &&& !lists_codec(map, c.codec) ==> {
                &&& c.clock_rate == (if c.codec is Opus {
                    48000u32
                } else {
                    8000u32
                })
                &&& c.channels == (if c.codec is Opus {
                    2u16
                } else {
                    1u16
                })
                &&& c.codec is PCMU ==> c.payload_type == 0
                &&& c.codec is PCMA ==> c.payload_type == 8
                &&& c.codec is G722 ==> c.payload_type == 9
                &&& c.codec is G729 ==> c.payload_type == 18
                &&& c.codec is Opus ==> c.payload_type >= 96 && forall|k: int|
                    0 <= k < i ==> (#[trigger] local_offer(map, allow)->0[k]).payload_type
                        != c.payload_type
            }
        }),
{
    let start = caller_part(map, allow);
    let offer = local_offer(map, allow)->0;
    offer_parts(map, allow);
    caller_part_facts(map, allow);
    with_allowed_facts(start, allow);
    let w = with_allowed(start, allow)->0;
    assert(offer[i] == w[i]);
    if i < start.len() {
        assert(w[i] == start[i]);
        let k = choose|k: int| #[trigger] first_entry_at(map, start[i], k);
        assert(map[k].1.0 == start[i].codec);
    } else {
        if lists_codec(map, w[i].codec) {
            let k = choose|k: int| 0 <= k < map.len() && (#[trigger] map[k]).1.0 == w[i].codec;
            assert(has_type(start, map[k].1.0));
        }
        assert forall|k: int| 0 <= k < i implies (#[trigger] offer[k]) == w[k] by {}
    }
}

/// The callee is offered every audio codec that the dialplan allows, and where it
/// allows any, every audio codec of the caller; each once. DTMF events are offered at
/// both clock rates, behind all audio codecs, under payload types of their own.
pub proof fn offer_leaves_nothing_out(map: Seq<RtpMapEntry>, allow: Seq<CodecType>)
    requires
        local_offer(map, allow) is Some,
    ensures
        ({
            let offer = local_offer(map, allow)->0;
            &&& forall|t: CodecType|
                #![trigger allow.contains(t)]
                allow.contains(t) && t != CodecType::TelephoneEvent ==> exists|i: int|
                    0 <= i < offer.len() && (#[trigger] offer[i]).codec == t
            &&& allow.len() == 0 ==> forall|k: int|
                0 <= k < map.len() && (#[trigger] map[k]).1.0 != CodecType::TelephoneEvent
                    ==> exists|i: int| 0 <= i < offer.len() && (#[trigger] offer[i]).codec == map[k].1.0
            &&& forall|i: int, j: int|
                0 <= i < j < offer.len() && (#[trigger] offer[j]).codec != CodecType::TelephoneEvent
                    ==> (#[trigger] offer[i]).codec != offer[j].codec && offer[i].codec
                    != CodecType::TelephoneEvent
            &&& exists|i: int|
                0 <= i < offer.len() && (#[trigger] offer[i]).codec == CodecType::TelephoneEvent
                    && offer[i].clock_rate == 8000
            &&& exists|i: int|
                0 <= i < offer.len() && (#[trigger] offer[i]).codec == CodecType::TelephoneEvent
                    && offer[i].clock_rate == 48000
            &&& forall|i: int, j: int|
                0 <= i < j < offer.len() && (#[trigger] offer[j]).codec == CodecType::TelephoneEvent
                    ==> (#[trigger] offer[i]).payload_type != offer[j].payload_type
            &&& forall|j: int|
                0 <= j < offer.len() && (#[trigger] offer[j]).codec == CodecType::TelephoneEvent
                    ==> map.contains(
                    (offer[j].payload_type, (offer[j].codec, offer[j].clock_rate, offer[j].channels)),
                ) || offer[j].clock_rate == 8000 || offer[j].clock_rate == 48000
        }),
{
    let start = caller_part(map, allow);
    let offer = local_offer(map, allow)->0;
    local_offer_is_complete(map, allow);
    offer_parts(map, allow);
    caller_part_facts(map, allow);
    with_allowed_facts(start, allow);
    let w = with_allowed(start, allow)->0;
    assert forall|t: CodecType|
        #![trigger allow.contains(t)]
        allow.contains(t) && t != CodecType::TelephoneEvent implies exists|i: int|
            0 <= i < offer.len() && (#[trigger] offer[i]).codec == t by {
        assert(has_type(offer, t));
    }
    if allow.len() == 0 {
        assert forall|k: int|
            0 <= k < map.len() && (#[trigger] map[k]).1.0 != CodecType::TelephoneEvent implies exists|
            i: int,
        | 0 <= i < offer.len() && (#[trigger] offer[i]).codec == map[k].1.0 by {
            assert(has_type(start, map[k].1.0));
            let i = choose|i: int| 0 <= i < start.len() && #[trigger] start[i].codec == map[k].1.0;
            assert(offer[i] == w[i]);
            assert(w[i] == start[i]);
        }
    }
    assert forall|i: int, j: int|
        0 <= i < j < offer.len() && (#[trigger] offer[j]).codec
            != CodecType::TelephoneEvent implies (#[trigger] offer[i]).codec != offer[j].codec
        && offer[i].codec != CodecType::TelephoneEvent by {
        assert(offer[i] == w[i]);
        assert(offer[j] == w[j]);
        if j < start.len() {
            assert(w[i] == start[i]);
            assert(w[j] == start[j]);
        } else if i < start.len() {
            assert(w[i] == start[i]);
        }
    }
    assert(has_dtmf_at(offer, 8000));
    assert(has_dtmf_at(offer, 48000));
}

/// The callee is offered the audio codecs in the caller's order, and behind them those
/// that only the dialplan names, in its order.
pub proof fn offer_keeps_the_callers_order(
    map: Seq<RtpMapEntry>,
    allow: Seq<CodecType>,
    i: int,
    j: int,
    k: int,
)
    requires
        local_offer(map, allow) matches Some(offer) && 0 <= i < j < offer.len(),
        local_offer(map, allow)->0[j].codec != CodecType::TelephoneEvent,
    ensures
        0 <= k < map.len() && map[k].1.0 == local_offer(map, allow)->0[j].codec ==> listed_before(
            map,
            local_offer(map, allow)->0[i].codec,
            k,
        ),
        !lists_codec(map, local_offer(map, allow)->0[i].codec) && 0 <= k < allow.len() && allow[k]
            == local_offer(map, allow)->0[j].codec ==> allowed_before(
            allow,
            local_offer(map, allow)->0[i].codec,
            k,
        ),
{
    let start = caller_part(map, allow);
    let offer = local_offer(map, allow)->0;
    offer_parts(map, allow);
    caller_part_facts(map, allow);
    with_allowed_facts(start, allow);
    let w = with_allowed(start, allow)->0;
    assert(offer[i] == w[i]);
    assert(offer[j] == w[j]);
    if 0 <= k < map.len() && map[k].1.0 == offer[j].codec {
        if j >= start.len() {
            assert(allow.contains(map[k].1.0));
            assert(has_type(start, map[k].1.0));
        }
        assert(w[i] == start[i]);
        assert(w[j] == start[j]);
    }
    if !lists_codec(map, offer[i].codec) && i < start.len() {
        assert(w[i] == start[i]);
        let f = choose|f: int| #[trigger] first_entry_at(map, start[i], f);
        assert(map[f].1.0 == offer[i].codec);
    }
}

proof fn audio_is_listed(codecs: Seq<CodecInfo>)
    ensures
        forall|c: CodecInfo|
            #![trigger audio_of(codecs).contains(c)]
            audio_of(codecs).contains(c) <==> codecs.contains(c) && c.codec != CodecType::TelephoneEvent,
{
    let f = |i: CodecInfo| i.codec !is TelephoneEvent;
    assert forall|c: CodecInfo|
        #![trigger audio_of(codecs).contains(c)]
        audio_of(codecs).contains(c) <==> codecs.contains(c) && c.codec != CodecType::TelephoneEvent by {
        if audio_of(codecs).contains(c) {
            codecs.lemma_filter_contains_rev(f, c);
            let k = choose|k: int| 0 <= k < audio_of(codecs).len() && audio_of(codecs)[k] == c;
            codecs.lemma_filter_pred(f, k);
        }
        if codecs.contains(c) && c.codec != CodecType::TelephoneEvent {
            let i = choose|i: int| 0 <= i < codecs.len() && codecs[i] == c;
            codecs.lemma_filter_contains(f, i);
        }
    }
}

/// The audio of a leg is one of the codecs that are listed and, where any are named,
/// allowed, with the parameters it is listed with; there is one wherever the list has
/// such a codec. A leg that is to match another takes the other's codec where it lists
/// it.
pub proof fn audio_is_one_of_those_listed(
    codecs: Seq<CodecInfo>,
    allow: Seq<CodecType>,
    wanted: CodecType,
)
    ensures
        best_audio(codecs, allow) is Some <==> exists|i: int|
            0 <= i < codecs.len() && (#[trigger] codecs[i]).codec != CodecType::TelephoneEvent && (
            allow.len() == 0 || allow.contains(codecs[i].codec)),
        best_audio(codecs, allow) matches Some(a) ==> exists|i: int|
            0 <= i < codecs.len() && (#[trigger] codecs[i]).codec == a.0 && codecs[i].payload_type
                == a.1.payload_type && codecs[i].clock_rate == a.1.clock_rate && codecs[i].codec
                != CodecType::TelephoneEvent && (allow.len() == 0 || allow.contains(codecs[i].codec)),
        wanted != CodecType::TelephoneEvent && (exists|i: int|
            0 <= i < codecs.len() && (#[trigger] codecs[i]).codec == wanted) ==> (preferred_audio(
            codecs,
            Some(wanted),
        ) matches Some(a) && a.0 == wanted),
        preferred_audio(codecs, Some(wanted)) is Some <==> exists|i: int|
            0 <= i < codecs.len() && (#[trigger] codecs[i]).codec != CodecType::TelephoneEvent,
{
    let audio = audio_of(codecs);
    audio_is_listed(codecs);
    first_allowed_codec_is_used(audio, allow, 0);
    first_of_type_facts(audio, wanted);
    let some: Seq<CodecType> = Seq::empty();
    first_allowed_codec_is_used(audio, some, 0);
    if best_codec(audio, allow) is Some {
        let c = best_codec(audio, allow)->0;
        assert(audio.contains(c));
        let i = choose|i: int| 0 <= i < codecs.len() && codecs[i] == c;
        assert(codecs[i].codec == c.codec);
    }
    assert forall|i: int|
        0 <= i < codecs.len() && (#[trigger] codecs[i]).codec != CodecType::TelephoneEvent implies exists|k: int|
        0 <= k < audio.len() && #[trigger] audio[k] == codecs[i] by {
        assert(codecs.contains(codecs[i]));
        assert(audio.contains(codecs[i]));
        let k = choose|k: int| 0 <= k < audio.len() && audio[k] == codecs[i];
        assert(audio[k] == codecs[i]);
    }
    if best_codec(audio, some) is Some {
        let c = best_codec(audio, some)->0;
        assert(audio.contains(c));
        let i = choose|i: int| 0 <= i < codecs.len() && codecs[i] == c;
        assert(codecs[i].codec != CodecType::TelephoneEvent);
    }
    if first_of_type(audio, wanted) is Some {
        let c = first_of_type(audio, wanted)->0;
        let i = choose|i: int| 0 <= i < codecs.len() && codecs[i] == c;
        assert(codecs[i].codec != CodecType::TelephoneEvent);
    }
    if exists|i: int| 0 <= i < codecs.len() && (#[trigger] codecs[i]).codec != CodecType::TelephoneEvent {
        let i = choose|i: int|
            0 <= i < codecs.len() && (#[trigger] codecs[i]).codec != CodecType::TelephoneEvent;
        let k = choose|k: int| 0 <= k < audio.len() && #[trigger] audio[k] == codecs[i];
        assert(audio[k].codec != CodecType::TelephoneEvent);
        assert(best_codec(audio, some) is Some);
    }
    if wanted != CodecType::TelephoneEvent && exists|i: int|
        0 <= i < codecs.len() && (#[trigger] codecs[i]).codec == wanted {
        let i = choose|i: int| 0 <= i < codecs.len() && (#[trigger] codecs[i]).codec == wanted;
        let k = choose|k: int| 0 <= k < audio.len() && #[trigger] audio[k] == codecs[i];
        assert(audio[k].codec == wanted);
    }
}

/// A leg bridges what it negotiated; before that what its answer gives, and else what
/// its offer gives.
pub proof fn bridge_takes_what_was_negotiated(m: MediaEndpoint, allow: Seq<CodecType>)
    ensures
        m.negotiated_audio matches Some(a) ==> (m.bridge_choice(allow) matches Some(b) && b.0 == a.0
            && b.1 == a.1 && b.2 == a.2@),
        m.negotiated_audio is None ==> (m.answer_sdp matches Some(s) ==> best_audio(
            sdp_codecs(s@),
            allow,
        ) matches Some(x) ==> (m.bridge_choice(allow) matches Some(b) && b.0 == x.0 && b.1 == x.1
            && b.2 == x.2 && b.3 == ssrc_of(s@))),
        m.negotiated_audio is None && m.answer_sdp is None ==> (m.offer_sdp matches Some(s)
            ==> best_audio(sdp_codecs(s@), allow) matches Some(x) ==> (
        m.bridge_choice(allow) matches Some(b) && b.0 == x.0 && b.3 == ssrc_of(s@))),
        m.negotiated_audio is None && m.answer_sdp is None && m.offer_sdp is None ==> m.bridge_choice(
            allow,
        ) is None,
{
}

/// A prompt is played in the codec of the first track that has one and is no prompt
/// itself.
pub proof fn prompt_goes_by_the_first_track(tracks: Seq<(String, Option<CodecInfo>)>, k: int)
    requires
        0 <= k <= tracks.len(),
        forall|j: int| 0 <= j < k ==> (#[trigger] tracks[j]).0@ == "prompt"@ || tracks[j].1 is None,
        k < tracks.len() ==> tracks[k].0@ != "prompt"@ && tracks[k].1 is Some,
    ensures
        k < tracks.len() ==> first_track_codec(tracks) == tracks[k].1,
        k == tracks.len() ==> first_track_codec(tracks) is None,
    decreases k,
{
    if k > 0 {
        let rest = tracks.drop_first();
        assert(tracks[0].0@ == "prompt"@ || tracks[0].1 is None);
        assert forall|j: int| 0 <= j < k - 1 implies (#[trigger] rest[j]).0@ == "prompt"@
            || rest[j].1 is None by {
            assert(rest[j] == tracks[j + 1]);
        }
        if k < tracks.len() {
            assert(rest[k - 1] == tracks[k]);
        }
        prompt_goes_by_the_first_track(rest, k - 1);
    }
}

/// An answer of the other side is kept with the SSRC that it announces; the same answer
/// once more changes nothing.
pub proof fn remote_answer_is_kept(m: MediaEndpoint, after: MediaEndpoint, sdp: Seq<char>)
    requires
        m.has_remote_answer(after, sdp),
    ensures
        opt_text(after.answer_sdp) == Some(sdp),
        opt_text(m.answer_sdp) == Some(sdp) ==> after == m,
        opt_text(m.answer_sdp) != Some(sdp) ==> after.ssrc == ssrc_of(sdp),
        after.offer_sdp == m.offer_sdp && after.negotiated_audio == m.negotiated_audio
            && after.early_media_sent == m.early_media_sent,
{
}

/// Where nothing is known of a leg's audio it is G.711 with the mu-law: payload type 0 at
/// 8000 ticks, with one channel and without events.
pub proof fn unknown_audio_is_mu_law()
    ensures
        default_selection().0 == CodecType::PCMU,
        default_selection().1.payload_type == 0 && default_selection().1.clock_rate == 8000
            && default_selection().1.channels == 1,
        default_selection().2.len() == 0 && default_selection().3 is None,
{
}

/// The SSRC of a leg is the one that its answer announces, whatever its offer does.
pub proof fn ssrc_is_that_of_the_answer(m: MediaEndpoint)
    ensures
        m.answer_sdp is None ==> m.spec_answered_ssrc() is None,
        m.answer_sdp matches Some(s) ==> m.spec_answered_ssrc() == ssrc_of(s@),
        m.negotiated_audio is Some ==> (m.bridge_choice(Seq::empty()) matches Some(b) && b.3
            == m.spec_answered_ssrc()),
{
}

/// What a leg offers is the audio of its offer: no events, and nothing without an offer.
pub proof fn offered_audio_is_that_of_the_offer(m: MediaEndpoint)
    ensures
        m.offer_sdp is None ==> m.offered_audio().len() == 0,
        forall|i: int|
            0 <= i < m.offered_audio().len() ==> (#[trigger] m.offered_audio()[i]).codec
                != CodecType::TelephoneEvent,
        m.offer_sdp matches Some(s) ==> forall|c: CodecInfo|
            #![trigger m.offered_audio().contains(c)]
            m.offered_audio().contains(c) <==> sdp_codecs(s@).contains(c) && c.codec
                != CodecType::TelephoneEvent,
{
    if let Some(s) = m.offer_sdp {
        let codecs = sdp_codecs(s@);
        audio_is_listed(codecs);
        assert forall|i: int| 0 <= i < m.offered_audio().len() implies (
        #[trigger] m.offered_audio()[i]).codec != CodecType::TelephoneEvent by {
            assert(audio_of(codecs).contains(audio_of(codecs)[i]));
        }
    }
}

/// A prompt is fetched over the network where its path begins with `http://` or
/// `https://`.
pub proof fn prompts_are_fetched_by_http(rest: Seq<char>)
    ensures
        remote_prompt("http://"@ + rest),
        remote_prompt("https://"@ + rest),
        rest.len() == 0 || rest[0] != 'h' ==> !remote_prompt(rest),
{
    reveal_strlit("http://");
    reveal_strlit("https://");
    let a = "http://"@ + rest;
    let b = "https://"@ + rest;
    assert(a.take(7) =~= "http://"@);
    assert(b.take(8) =~= "https://"@);
    if has_prefix(rest, "http://"@) {
        assert(rest.take(7)[0] == rest[0]);
    }
    if has_prefix(rest, "https://"@) {
        assert(rest.take(8)[0] == rest[0]);
    }
}

} // verus!
