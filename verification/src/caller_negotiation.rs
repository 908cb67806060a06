//! Which codecs the caller is answered with.
use std::collections::HashSet;
use vstd::prelude::*;
use crate::negotiate::{
    CodecInfo, CodecType, ExtractedCodecs, MediaNegotiator, audio_of, best_codec, contains_type,
    dtmf_of, find_type, first_allowed_codec_is_used, first_of_type, first_of_type_facts, has_type,
    sdp_codecs,
};

verus! {

broadcast use vstd::std_specs::hash::group_hash_axioms;

/// The payload types of a list of codecs.
pub open spec fn payload_types(codecs: Seq<CodecInfo>) -> Set<u8> {
    Set::new(|pt: u8| exists|i: int| 0 <= i < codecs.len() && #[trigger] codecs[i].payload_type == pt)
}

/// `codecs` and then those of `more` whose payload type is not in use when
/// their turn comes; with the payload types then in use.
pub open spec fn appended(codecs: Seq<CodecInfo>, used: Set<u8>, more: Seq<CodecInfo>) -> (
    Seq<CodecInfo>,
    Set<u8>,
)
    decreases more.len(),
{
    if more.len() == 0 {
        (codecs, used)
    } else {
        let (c, u) = appended(codecs, used, more.drop_last());
        if u.contains(more.last().payload_type) {
            (c, u)
        } else {
            (c.push(more.last()), u.insert(more.last().payload_type))
        }
    }
}

/// `audio` and then the DTMF codecs whose payload types it leaves free.
pub open spec fn with_dtmf(audio: Seq<CodecInfo>, dtmf: Seq<CodecInfo>) -> Seq<CodecInfo> {
    appended(audio, payload_types(audio), dtmf).0
}

/// Whether no payload type occurs twice.
pub open spec fn distinct_payload_types(codecs: Seq<CodecInfo>) -> bool {
    forall|i: int, j: int|
        0 <= i < j < codecs.len() ==> (#[trigger] codecs[i]).payload_type != (
        #[trigger] codecs[j]).payload_type
}

/// Appends the DTMF codecs whose payload types are not in use.
pub fn append_dtmf_codecs(
    codec_info: &mut Vec<CodecInfo>,
    dtmf_codecs: &[CodecInfo],
    used_payload_types: &mut HashSet<u8>,
)
    ensures
        (final(codec_info)@, final(used_payload_types)@) == appended(
            old(codec_info)@,
            old(used_payload_types)@,
            dtmf_codecs@,
        ),
{
    let mut i: usize = 0;
    assert(dtmf_codecs@.take(0) =~= Seq::empty());
    while i < dtmf_codecs.len()
        invariant
            i <= dtmf_codecs.len(),
            (codec_info@, used_payload_types@) == appended(
                old(codec_info)@,
                old(used_payload_types)@,
                dtmf_codecs@.take(i as int),
            ),
        decreases dtmf_codecs.len() - i,
    {
        let d = dtmf_codecs[i];
        assert(dtmf_codecs@.take(i + 1).drop_last() =~= dtmf_codecs@.take(i as int));
        assert(dtmf_codecs@.take(i + 1).last() == d);
        if used_payload_types.insert(d.payload_type) {
            codec_info.push(d);
        } else {
            assert(used_payload_types@.insert(d.payload_type) =~= used_payload_types@);
        }
        i += 1;
    }
    assert(dtmf_codecs@.take(i as int) =~= dtmf_codecs@);
}

/// The payload types of a list of codecs.
pub fn used_payload_types(codecs: &Vec<CodecInfo>) -> (r: HashSet<u8>)
    ensures
        r@ == payload_types(codecs@),
{
    let mut out: HashSet<u8> = HashSet::new();
    let mut i: usize = 0;
    assert(out@ =~= payload_types(codecs@.take(0)));
    while i < codecs.len()
        invariant
            i <= codecs.len(),
            out@ == payload_types(codecs@.take(i as int)),
        decreases codecs.len() - i,
    {
        let ghost before = codecs@.take(i as int);
        let ghost after = codecs@.take(i + 1);
        out.insert(codecs[i].payload_type);
        i += 1;
        assert(out@ =~= payload_types(after)) by {
            assert forall|pt: u8| payload_types(after).contains(pt) <==> out@.contains(pt) by {
                if payload_types(after).contains(pt) {
                    let k = choose|k: int|
                        0 <= k < after.len() && #[trigger] after[k].payload_type == pt;
                    if k < before.len() {
                        assert(before[k].payload_type == pt);
                    }
                }
                if payload_types(before).contains(pt) {
                    let k = choose|k: int|
                        0 <= k < before.len() && #[trigger] before[k].payload_type == pt;
                    assert(after[k].payload_type == pt);
                }
                assert(after[i - 1].payload_type == codecs@[i - 1].payload_type);
            }
        }
    }
    assert(codecs@.take(i as int) =~= codecs@);
    out
}

fn append_dtmf(codecs: Vec<CodecInfo>, dtmf: &Vec<CodecInfo>) -> (r: Vec<CodecInfo>)
    ensures
        r@ == with_dtmf(codecs@, dtmf@),
{
    let mut out = codecs;
    let mut used = used_payload_types(&out);
    append_dtmf_codecs(&mut out, dtmf.as_slice(), &mut used);
    out
}

/// Whether the caller is offered DTMF events: the proxy relays the media and
/// can carry them, or the callee takes them.
pub fn should_advertise_caller_dtmf(use_media_proxy: bool, callee_has_dtmf: bool) -> (r: bool)
    ensures
        r == (use_media_proxy || callee_has_dtmf),
{
    use_media_proxy || callee_has_dtmf
}

/// The codecs of an optional session description.
pub open spec fn offer_codecs(sdp: Option<&str>) -> Seq<CodecInfo> {
    match sdp {
        Some(s) => sdp_codecs(s@),
        None => Seq::empty(),
    }
}

fn extract_offer(sdp: Option<&str>) -> (r: ExtractedCodecs)
    ensures
        r.audio@ == audio_of(offer_codecs(sdp)),
        r.dtmf@ == dtmf_of(offer_codecs(sdp)),
{
    match sdp {
        Some(s) => MediaNegotiator::extract_codec_params(s),
        None => MediaNegotiator::split_codecs(&Vec::new()),
    }
}

/// The codecs to answer the caller with where nothing is known of the callee:
/// all that the caller offers.
pub fn build_passthrough_caller_answer_codec_info(caller_offer_sdp: Option<&str>) -> (r: Vec<
    CodecInfo,
>)
    ensures
        r@ == with_dtmf(
            audio_of(offer_codecs(caller_offer_sdp)),
            dtmf_of(offer_codecs(caller_offer_sdp)),
        ),
{
    let caller = extract_offer(caller_offer_sdp);
    append_dtmf(caller.audio, &caller.dtmf)
}

/// The position of the first codec of type `t`, or the length of the list.
pub open spec fn type_index(codecs: Seq<CodecInfo>, t: CodecType) -> int
    decreases codecs.len(),
{
    if codecs.len() == 0 || codecs[0].codec == t {
        0
    } else {
        1 + type_index(codecs.drop_first(), t)
    }
}

proof fn type_index_at(codecs: Seq<CodecInfo>, t: CodecType, k: int)
    requires
        0 <= k <= codecs.len(),
        k < codecs.len() ==> codecs[k].codec == t,
        forall|j: int| 0 <= j < k ==> (#[trigger] codecs[j]).codec != t,
    ensures
        type_index(codecs, t) == k,
    decreases codecs.len(),
{
    if k > 0 {
        let rest = codecs.drop_first();
        assert(codecs[0].codec != t);
        assert forall|j: int| 0 <= j < k - 1 implies (#[trigger] rest[j]).codec != t by {
            assert(codecs[j + 1].codec != t);
        }
        type_index_at(rest, t, k - 1);
    }
}

/// The list with its first codec of type `t` moved to the front.
pub open spec fn promoted(codecs: Seq<CodecInfo>, t: CodecType) -> Seq<CodecInfo> {
    let k = type_index(codecs, t);
    if 0 < k < codecs.len() {
        seq![codecs[k]] + codecs.remove(k)
    } else {
        codecs
    }
}

/// Moves the first codec of type `t` to the front.
pub fn promote_codec(codecs: Vec<CodecInfo>, t: CodecType) -> (r: Vec<CodecInfo>)
    ensures
        r@ == promoted(codecs@, t),
{
    let mut out = codecs;
    let mut k: usize = 0;
    while k < out.len() && out[k].codec != t
        invariant
            k <= out.len(),
            out@ == codecs@,
            forall|j: int| 0 <= j < k ==> (#[trigger] codecs@[j]).codec != t,
        decreases out.len() - k,
    {
        k += 1;
    }
    proof {
        type_index_at(codecs@, t, k as int);
    }
    if k > 0 && k < out.len() {
        let preferred = out.remove(k);
        out.insert(0, preferred);
        assert(out@ =~= promoted(codecs@, t));
    }
    out
}

/// The codecs to answer the caller with once the callee has answered: those
/// that the caller offers, the one that the callee chose first. The caller's
/// DTMF events are among them whether or not the callee takes any.
pub open spec fn optimized_codecs(
    caller: Seq<CodecInfo>,
    callee: Seq<CodecInfo>,
    allow: Seq<CodecType>,
) -> Option<Seq<CodecInfo>> {
    match best_codec(audio_of(callee), allow) {
        Some(chosen) => Some(
            with_dtmf(promoted(audio_of(caller), chosen.codec), dtmf_of(caller)),
        ),
        None => None,
    }
}

/// See [`optimized_codecs`]. `None` without an offer of the caller, or where
/// the callee's answer holds no codec that the dialplan allows. The codecs are
/// the same with and without a media proxy.
pub fn build_optimized_caller_codec_info(
    caller_offer_sdp: Option<&str>,
    callee_answer_sdp: &str,
    allow_codecs: &[CodecType],
    _use_media_proxy: bool,
) -> (r: Option<Vec<CodecInfo>>)
    ensures
        (match r {
            Some(v) => Some(v@),
            None => None,
        }) == (match caller_offer_sdp {
            Some(s) => optimized_codecs(
                sdp_codecs(s@),
                sdp_codecs(callee_answer_sdp@),
                allow_codecs@,
            ),
            None => None,
        }),
{
    match caller_offer_sdp {
        Some(offer) => {
            let callee = MediaNegotiator::extract_all_codecs(callee_answer_sdp);
            let caller = MediaNegotiator::extract_all_codecs(offer);
            optimize_caller_codecs(&caller, &callee, allow_codecs)
        },
        None => None,
    }
}

/// See [`optimized_codecs`].
pub fn optimize_caller_codecs(
    caller: &Vec<CodecInfo>,
    callee: &Vec<CodecInfo>,
    allow_codecs: &[CodecType],
) -> (r: Option<Vec<CodecInfo>>)
    ensures
        (match r {
            Some(v) => Some(v@),
            None => None,
        }) == optimized_codecs(caller@, callee@, allow_codecs@),
{
    let callee_split = MediaNegotiator::split_codecs(callee);
    match MediaNegotiator::select_best_codec(&callee_split.audio, allow_codecs) {
        Some(chosen) => {
            let caller_split = MediaNegotiator::split_codecs(caller);
            let audio = promote_codec(caller_split.audio, chosen.codec);
            Some(append_dtmf(audio, &caller_split.dtmf))
        },
        None => None,
    }
}

/// Why no codecs could be agreed on.
#[derive(Clone, Copy, Debug, PartialEq, Eq, Structural)]
pub enum NegotiationError {
    /// No common codec found between caller, callee and dialplan.
    NoCommonCodec,
}

/// The codecs of the caller that the callee has too, in the dialplan's order.
pub open spec fn common_allowed(
    caller: Seq<CodecInfo>,
    callee: Seq<CodecInfo>,
    allow: Seq<CodecType>,
) -> Seq<CodecInfo>
    decreases allow.len(),
{
    if allow.len() == 0 {
        Seq::empty()
    } else {
        let rest = common_allowed(caller, callee, allow.drop_last());
        match first_of_type(caller, allow.last()) {
            Some(c) => if has_type(callee, allow.last()) {
                rest.push(c)
            } else {
                rest
            },
            None => rest,
        }
    }
}

/// The audio codecs that caller, callee and dialplan have in common: in the
/// order of the dialplan, or of the caller where the dialplan allows all.
pub open spec fn common_codecs(
    caller: Seq<CodecInfo>,
    callee: Seq<CodecInfo>,
    allow: Seq<CodecType>,
) -> Seq<CodecInfo> {
    if allow.len() == 0 {
        caller.filter(|c: CodecInfo| has_type(callee, c.codec))
    } else {
        common_allowed(caller, callee, allow)
    }
}

/// The codecs to answer the caller with; `None` without a common one.
pub open spec fn final_codecs(
    caller: Seq<CodecInfo>,
    callee: Seq<CodecInfo>,
    allow: Seq<CodecType>,
    use_media_proxy: bool,
) -> Option<Seq<CodecInfo>> {
    let common = common_codecs(audio_of(caller), audio_of(callee), allow);
    if common.len() == 0 {
        None
    } else if use_media_proxy || dtmf_of(callee).len() > 0 {
        Some(with_dtmf(common, dtmf_of(caller)))
    } else {
        Some(common)
    }
}

fn intersect(caller: &Vec<CodecInfo>, callee: &Vec<CodecInfo>, allow: &[CodecType]) -> (r: Vec<
    CodecInfo,
>)
    ensures
        r@ == common_codecs(caller@, callee@, allow@),
{
    let mut out: Vec<CodecInfo> = Vec::new();
    let mut i: usize = 0;
    if allow.len() == 0 {
        let ghost keep = |c: CodecInfo| has_type(callee@, c.codec);
        proof {
            reveal(Seq::filter);
            assert(caller@.take(0) =~= Seq::empty());
        }
        while i < caller.len()
            invariant
                i <= caller.len(),
                keep == (|c: CodecInfo| has_type(callee@, c.codec)),
                out@ == caller@.take(i as int).filter(keep),
            decreases caller.len() - i,
        {
            proof {
                reveal(Seq::filter);
                assert(caller@.take(i + 1).drop_last() =~= caller@.take(i as int));
            }
            if contains_type(callee, caller[i].codec) {
                out.push(caller[i]);
            }
            i += 1;
        }
        assert(caller@.take(i as int) =~= caller@);
    } else {
        assert(allow@.take(0) =~= Seq::empty());
        while i < allow.len()
            invariant
                i <= allow.len(),
                out@ == common_allowed(caller@, callee@, allow@.take(i as int)),
            decreases allow.len() - i,
        {
            let t = allow[i];
            assert(allow@.take(i + 1).drop_last() =~= allow@.take(i as int));
            assert(allow@.take(i + 1).last() == t);
            if let Some(c) = find_type(caller, t) {
                if contains_type(callee, t) {
                    out.push(c);
                }
            }
            i += 1;
        }
        assert(allow@.take(i as int) =~= allow@);
    }
    out
}

/// See [`final_codecs`].
pub fn finalize_caller_codecs(
    caller: &Vec<CodecInfo>,
    callee: &Vec<CodecInfo>,
    allow_codecs: &[CodecType],
    use_media_proxy: bool,
) -> (r: Result<Vec<CodecInfo>, NegotiationError>)
    ensures
        (match r {
            Ok(v) => Some(v@),
            Err(_) => None,
        }) == final_codecs(caller@, callee@, allow_codecs@, use_media_proxy),
{
    let caller_split = MediaNegotiator::split_codecs(caller);
    let callee_split = MediaNegotiator::split_codecs(callee);
    let common = intersect(&caller_split.audio, &callee_split.audio, allow_codecs);
    if common.len() == 0 {
        return Err(NegotiationError::NoCommonCodec);
    }
    if should_advertise_caller_dtmf(use_media_proxy, callee_split.dtmf.len() > 0) {
        Ok(append_dtmf(common, &caller_split.dtmf))
    } else {
        Ok(common)
    }
}

/// The codecs to answer the caller with; an error exactly where caller, callee
/// and dialplan have no audio codec in common.
pub fn build_final_caller_codec_info(
    caller_offer_sdp: Option<&str>,
    callee_answer_sdp: &str,
    allow_codecs: &[CodecType],
    use_media_proxy: bool,
) -> (r: Result<Vec<CodecInfo>, NegotiationError>)
    ensures
        (match r {
            Ok(v) => Some(v@),
            Err(_) => None,
        }) == final_codecs(
            offer_codecs(caller_offer_sdp),
            sdp_codecs(callee_answer_sdp@),
            allow_codecs@,
            use_media_proxy,
        ),
{
    let caller = match caller_offer_sdp {
        Some(s) => MediaNegotiator::extract_all_codecs(s),
        None => Vec::new(),
    };
    let callee = MediaNegotiator::extract_all_codecs(callee_answer_sdp);
    finalize_caller_codecs(&caller, &callee, allow_codecs, use_media_proxy)
}

proof fn appended_facts(codecs: Seq<CodecInfo>, used: Set<u8>, more: Seq<CodecInfo>)
    requires
        forall|i: int| 0 <= i < codecs.len() ==> used.contains(#[trigger] codecs[i].payload_type),
    ensures
        ({
            let (c, u) = appended(codecs, used, more);
            &&& codecs.len() <= c.len()
            &&& c.take(codecs.len() as int) == codecs
            &&& forall|i: int| 0 <= i < c.len() ==> u.contains(#[trigger] c[i].payload_type)
            &&& forall|i: int| codecs.len() <= i < c.len() ==> more.contains(#[trigger] c[i])
            &&& distinct_payload_types(codecs) ==> distinct_payload_types(c)
            &&& forall|pt: u8| used.contains(pt) ==> u.contains(pt)
        }),
    decreases more.len(),
{
    if more.len() == 0 {
        assert(codecs.take(codecs.len() as int) =~= codecs);
    } else {
        let rest = more.drop_last();
        appended_facts(codecs, used, rest);
        let (c, u) = appended(codecs, used, rest);
        let (c2, u2) = appended(codecs, used, more);
        assert forall|i: int| codecs.len() <= i < c2.len() implies more.contains(#[trigger] c2[i]) by {
            if i < c.len() {
                assert(c[i] == c2[i]);
                let k = choose|k: int| 0 <= k < rest.len() && rest[k] == c[i];
                assert(more[k] == c2[i]);
            } else {
                assert(more[more.len() - 1] == c2[i]);
            }
        }
        assert(c2.take(codecs.len() as int) =~= c.take(codecs.len() as int));
        assert forall|i: int| 0 <= i < c2.len() implies u2.contains(#[trigger] c2[i].payload_type) by {
            if i < c.len() {
                assert(u.contains(c[i].payload_type));
            }
        }
        if distinct_payload_types(codecs) {
            assert forall|i: int, j: int| 0 <= i < j < c2.len() implies (
            #[trigger] c2[i]).payload_type != (#[trigger] c2[j]).payload_type by {
                assert(u.contains(c[i].payload_type));
                if j < c.len() {
                    assert(c[i].payload_type != c[j].payload_type);
                }
            }
        }
    }
}

/// The DTMF codecs come after the audio codecs, which stay as they are, and
/// never take a payload type that is in use.
pub proof fn dtmf_is_appended_without_conflict(audio: Seq<CodecInfo>, dtmf: Seq<CodecInfo>)
    ensures
        audio.len() <= with_dtmf(audio, dtmf).len(),
        with_dtmf(audio, dtmf).take(audio.len() as int) == audio,
        forall|i: int|
            audio.len() <= i < with_dtmf(audio, dtmf).len() ==> dtmf.contains(
                #[trigger] with_dtmf(audio, dtmf)[i],
            ),
        distinct_payload_types(audio) ==> distinct_payload_types(with_dtmf(audio, dtmf)),
{
    assert forall|i: int| 0 <= i < audio.len() implies payload_types(audio).contains(
        #[trigger] audio[i].payload_type,
    ) by {}
    appended_facts(audio, payload_types(audio), dtmf);
}

proof fn type_index_bounds(codecs: Seq<CodecInfo>, t: CodecType)
    ensures
        0 <= type_index(codecs, t) <= codecs.len(),
        type_index(codecs, t) < codecs.len() <==> has_type(codecs, t),
        type_index(codecs, t) < codecs.len() ==> codecs[type_index(codecs, t)].codec == t,
    decreases codecs.len(),
{
    if codecs.len() > 0 {
        let rest = codecs.drop_first();
        type_index_bounds(rest, t);
        if codecs[0].codec != t {
            if has_type(codecs, t) {
                let i = choose|i: int| 0 <= i < codecs.len() && #[trigger] codecs[i].codec == t;
                assert(rest[i - 1].codec == t);
            }
            if has_type(rest, t) {
                let i = choose|i: int| 0 <= i < rest.len() && #[trigger] rest[i].codec == t;
                assert(codecs[i + 1].codec == t);
            }
        }
    }
}

/// Moving a codec to the front loses and adds none; the codec is then first
/// wherever the list has one of its type.
pub proof fn promotion_keeps_codecs(codecs: Seq<CodecInfo>, t: CodecType)
    ensures
        promoted(codecs, t).to_multiset() == codecs.to_multiset(),
        promoted(codecs, t).len() == codecs.len(),
        has_type(codecs, t) ==> promoted(codecs, t)[0].codec == t,
        !has_type(codecs, t) ==> promoted(codecs, t) == codecs,
{
    type_index_bounds(codecs, t);
    let k = type_index(codecs, t);
    if 0 < k < codecs.len() {
        let rest = codecs.remove(k);
        codecs.to_multiset_ensures();
        rest.to_multiset_ensures();
        assert(codecs.to_multiset().count(codecs[k]) > 0) by {
            assert(codecs.contains(codecs[k]));
        }
        assert(rest.to_multiset() == codecs.to_multiset().remove(codecs[k]));
        assert(rest.insert(0, codecs[k]) =~= promoted(codecs, t));
        vstd::seq_lib::to_multiset_insert(rest, 0, codecs[k]);
        assert(promoted(codecs, t).to_multiset() =~= codecs.to_multiset());
    }
}

/// The caller is answered with the codec that the callee chose first, wherever
/// the caller offers it, so that nothing needs to be transcoded.
pub proof fn callee_choice_comes_first(
    caller: Seq<CodecInfo>,
    callee: Seq<CodecInfo>,
    allow: Seq<CodecType>,
)
    ensures
        best_codec(audio_of(callee), allow) matches Some(chosen) ==> {
            &&& optimized_codecs(caller, callee, allow) is Some
            &&& has_type(audio_of(caller), chosen.codec) ==> optimized_codecs(
                caller,
                callee,
                allow,
            )->0[0].codec == chosen.codec
        },
{
    if let Some(chosen) = best_codec(audio_of(callee), allow) {
        let audio = promoted(audio_of(caller), chosen.codec);
        promotion_keeps_codecs(audio_of(caller), chosen.codec);
        dtmf_is_appended_without_conflict(audio, dtmf_of(caller));
        if has_type(audio_of(caller), chosen.codec) {
            let full = with_dtmf(audio, dtmf_of(caller));
            assert(full.take(audio.len() as int)[0] == full[0]);
        }
    }
}

proof fn common_allowed_facts(
    caller: Seq<CodecInfo>,
    callee: Seq<CodecInfo>,
    allow: Seq<CodecType>,
)
    ensures
        forall|i: int|
            0 <= i < common_allowed(caller, callee, allow).len() ==> {
                let c = #[trigger] common_allowed(caller, callee, allow)[i];
                caller.contains(c) && has_type(callee, c.codec) && allow.contains(c.codec)
            },
    decreases allow.len(),
{
    if allow.len() > 0 {
        let rest = allow.drop_last();
        common_allowed_facts(caller, callee, rest);
        first_of_type_facts(caller, allow.last());
        let full = common_allowed(caller, callee, allow);
        let part = common_allowed(caller, callee, rest);
        assert forall|i: int| 0 <= i < full.len() implies {
            let c = #[trigger] full[i];
            caller.contains(c) && has_type(callee, c.codec) && allow.contains(c.codec)
        } by {
            if i < part.len() {
                assert(full[i] == part[i]);
                let k = choose|k: int| 0 <= k < rest.len() && rest[k] == part[i].codec;
                assert(allow[k] == part[i].codec);
            } else {
                assert(allow[allow.len() - 1] == full[i].codec);
            }
        }
    }
}

/// Every audio codec that is agreed on is one that the caller offered, that the
/// callee has and that the dialplan allows.
pub proof fn common_codecs_are_common(
    caller: Seq<CodecInfo>,
    callee: Seq<CodecInfo>,
    allow: Seq<CodecType>,
)
    ensures
        forall|i: int|
            0 <= i < common_codecs(caller, callee, allow).len() ==> {
                let c = #[trigger] common_codecs(caller, callee, allow)[i];
                &&& caller.contains(c)
                &&& has_type(callee, c.codec)
                &&& allow.len() > 0 ==> allow.contains(c.codec)
            },
{
    common_allowed_facts(caller, callee, allow);
    let keep = |c: CodecInfo| has_type(callee, c.codec);
    if allow.len() == 0 {
        let common = caller.filter(keep);
        assert forall|i: int| 0 <= i < common.len() implies caller.contains(#[trigger] common[i])
            && has_type(callee, common[i].codec) by {
            caller.lemma_filter_pred(keep, i);
            assert(common.contains(common[i]));
            caller.lemma_filter_contains_rev(keep, common[i]);
        }
    }
}

proof fn filter_keeps_order(s: Seq<CodecInfo>, f: spec_fn(CodecInfo) -> bool, i: int, j: int)
    requires
        0 <= i < j < s.filter(f).len(),
    ensures
        exists|a: int, b: int|
            0 <= a < b < s.len() && #[trigger] s[a] == s.filter(f)[i] && #[trigger] s[b] == s.filter(
                f,
            )[j],
    decreases s.len(),
{
    reveal(Seq::filter);
    let rest = s.drop_last();
    let r = rest.filter(f);
    if j < r.len() {
        filter_keeps_order(rest, f, i, j);
        let (a, b) = choose|a: int, b: int|
            0 <= a < b < rest.len() && #[trigger] rest[a] == r[i] && #[trigger] rest[b] == r[j];
        assert(s[a] == s.filter(f)[i] && s[b] == s.filter(f)[j]);
    } else {
        assert(r.contains(r[i]));
        rest.lemma_filter_contains_rev(f, r[i]);
        let a = choose|a: int| 0 <= a < rest.len() && rest[a] == r[i];
        assert(s[a] == s.filter(f)[i] && s[s.len() - 1] == s.filter(f)[j]);
    }
}

proof fn common_allowed_is_complete(
    caller: Seq<CodecInfo>,
    callee: Seq<CodecInfo>,
    allow: Seq<CodecType>,
)
    ensures
        ({
            let c = common_allowed(caller, callee, allow);
            &&& forall|t: CodecType|
                #![trigger has_type(c, t)]
                allow.contains(t) && has_type(caller, t) && has_type(callee, t) ==> has_type(c, t)
            &&& forall|i: int|
                0 <= i < c.len() ==> first_of_type(caller, (#[trigger] c[i]).codec) == Some(c[i])
        }),
    decreases allow.len(),
{
    if allow.len() > 0 {
        let prefix = allow.drop_last();
        common_allowed_is_complete(caller, callee, prefix);
        common_allowed_facts(caller, callee, prefix);
        first_of_type_facts(caller, allow.last());
        let r = common_allowed(caller, callee, prefix);
        let c = common_allowed(caller, callee, allow);
        assert forall|t: CodecType|
            #![trigger has_type(c, t)]
            allow.contains(t) && has_type(caller, t) && has_type(callee, t) implies has_type(c, t) by {
            if t == allow.last() {
                assert(c[c.len() - 1].codec == t);
            } else {
                let k = choose|k: int| 0 <= k < allow.len() && allow[k] == t;
                assert(prefix[k] == t);
                assert(has_type(r, t));
                let i = choose|i: int| 0 <= i < r.len() && #[trigger] r[i].codec == t;
                assert(c[i].codec == t);
            }
        }
        assert forall|i: int| 0 <= i < c.len() implies first_of_type(
            caller,
            (#[trigger] c[i]).codec,
        ) == Some(c[i]) by {
            if i < r.len() {
                assert(c[i] == r[i]);
            }
        }
    }
}

proof fn common_allowed_keeps_order(
    caller: Seq<CodecInfo>,
    callee: Seq<CodecInfo>,
    allow: Seq<CodecType>,
    i: int,
    j: int,
)
    requires
        0 <= i < j < common_allowed(caller, callee, allow).len(),
    ensures
        stand_in_order(
            allow,
            common_allowed(caller, callee, allow)[i].codec,
            common_allowed(caller, callee, allow)[j].codec,
        ),
    decreases allow.len(),
{
    let prefix = allow.drop_last();
    let r = common_allowed(caller, callee, prefix);
    let c = common_allowed(caller, callee, allow);
    assert(c[i] == r[i]);
    if j < r.len() {
        assert(c[j] == r[j]);
        common_allowed_keeps_order(caller, callee, prefix, i, j);
        let (a, b) = choose|a: int, b: int|
            0 <= a < b < prefix.len() && #[trigger] prefix[a] == r[i].codec && #[trigger] prefix[b]
                == r[j].codec;
        assert(allow[a] == c[i].codec && allow[b] == c[j].codec);
    } else {
        common_allowed_facts(caller, callee, prefix);
        first_of_type_facts(caller, allow.last());
        assert(prefix.contains(r[i].codec));
        let a = choose|a: int| 0 <= a < prefix.len() && prefix[a] == r[i].codec;
        assert(allow[a] == c[i].codec && allow[allow.len() - 1] == c[j].codec);
    }
}

proof fn split_facts(all: Seq<CodecInfo>)
    ensures
        forall|x: CodecInfo|
            #![trigger all.contains(x)]
            all.contains(x) ==> if x.codec is TelephoneEvent {
                dtmf_of(all).contains(x)
            } else {
                audio_of(all).contains(x)
            },
        forall|i: int|
            0 <= i < audio_of(all).len() ==> all.contains(#[trigger] audio_of(all)[i])
                && audio_of(all)[i].codec !is TelephoneEvent,
        forall|i: int|
            0 <= i < dtmf_of(all).len() ==> all.contains(#[trigger] dtmf_of(all)[i]) && dtmf_of(
                all,
            )[i].codec is TelephoneEvent,
        forall|t: CodecType|
            #![trigger has_type(all, t)]
            #![trigger has_type(audio_of(all), t)]
            t !is TelephoneEvent ==> has_type(all, t) == has_type(audio_of(all), t),
{
    let a = |i: CodecInfo| i.codec !is TelephoneEvent;
    let d = |i: CodecInfo| i.codec is TelephoneEvent;
    assert forall|x: CodecInfo| #![trigger all.contains(x)] all.contains(x) implies if x.codec is TelephoneEvent {
        dtmf_of(all).contains(x)
    } else {
        audio_of(all).contains(x)
    } by {
        let k = choose|k: int| 0 <= k < all.len() && all[k] == x;
        if x.codec is TelephoneEvent {
            all.lemma_filter_contains(d, k);
        } else {
            all.lemma_filter_contains(a, k);
        }
    }
    assert forall|i: int| 0 <= i < audio_of(all).len() implies all.contains(
        #[trigger] audio_of(all)[i],
    ) && audio_of(all)[i].codec !is TelephoneEvent by {
        all.lemma_filter_pred(a, i);
        assert(all.filter(a).contains(all.filter(a)[i]));
        all.lemma_filter_contains_rev(a, all.filter(a)[i]);
    }
    assert forall|i: int| 0 <= i < dtmf_of(all).len() implies all.contains(
        #[trigger] dtmf_of(all)[i],
    ) && dtmf_of(all)[i].codec is TelephoneEvent by {
        all.lemma_filter_pred(d, i);
        assert(all.filter(d).contains(all.filter(d)[i]));
        all.lemma_filter_contains_rev(d, all.filter(d)[i]);
    }
    assert forall|t: CodecType|
        #![trigger has_type(all, t)]
        #![trigger has_type(audio_of(all), t)]
        t !is TelephoneEvent implies has_type(all, t) == has_type(audio_of(all), t) by {
        if has_type(all, t) {
            let k = choose|k: int| 0 <= k < all.len() && #[trigger] all[k].codec == t;
            assert(all.contains(all[k]));
            assert(audio_of(all).contains(all[k]));
            let i = choose|i: int| 0 <= i < audio_of(all).len() && audio_of(all)[i] == all[k];
            assert(audio_of(all)[i].codec == t);
        }
        if has_type(audio_of(all), t) {
            let i = choose|i: int| 0 <= i < audio_of(all).len() && #[trigger] audio_of(all)[i].codec == t;
            assert(all.contains(audio_of(all)[i]));
            let k = choose|k: int| 0 <= k < all.len() && all[k] == audio_of(all)[i];
            assert(all[k].codec == t);
        }
    }
}

proof fn appended_covers(codecs: Seq<CodecInfo>, used: Set<u8>, more: Seq<CodecInfo>)
    requires
        forall|pt: u8| #[trigger] used.contains(pt) ==> payload_types(codecs).contains(pt),
    ensures
        ({
            let (c, u) = appended(codecs, used, more);
            &&& forall|pt: u8| #[trigger] u.contains(pt) ==> payload_types(c).contains(pt)
            &&& forall|k: int| 0 <= k < more.len() ==> u.contains((#[trigger] more[k]).payload_type)
        }),
    decreases more.len(),
{
    if more.len() > 0 {
        let rest = more.drop_last();
        appended_covers(codecs, used, rest);
        let (c, u) = appended(codecs, used, rest);
        let (c2, u2) = appended(codecs, used, more);
        assert forall|pt: u8| #[trigger] u2.contains(pt) implies payload_types(c2).contains(pt) by {
            if u.contains(pt) {
                assert(payload_types(c).contains(pt));
                let i = choose|i: int| 0 <= i < c.len() && #[trigger] c[i].payload_type == pt;
                assert(c2[i].payload_type == pt);
            } else {
                assert(c2[c2.len() - 1].payload_type == pt);
            }
        }
        assert forall|k: int| 0 <= k < more.len() implies u2.contains(
            (#[trigger] more[k]).payload_type,
        ) by {
            if k < rest.len() {
                assert(rest[k] == more[k]);
            }
        }
    }
}

/// The list of codecs with the caller's DTMF events behind them, in plain terms.
proof fn with_dtmf_facts(audio: Seq<CodecInfo>, all: Seq<CodecInfo>)
    requires
        forall|i: int| 0 <= i < audio.len() ==> (#[trigger] audio[i]).codec !is TelephoneEvent,
    ensures
        ({
            let v = with_dtmf(audio, dtmf_of(all));
            &&& audio.len() <= v.len()
            &&& forall|i: int| 0 <= i < audio.len() ==> v[i] == audio[i]
            &&& forall|i: int|
                audio.len() <= i < v.len() ==> (#[trigger] v[i]).codec is TelephoneEvent
                    && all.contains(v[i])
            &&& forall|k: int|
                0 <= k < all.len() && (#[trigger] all[k]).codec is TelephoneEvent ==> exists|i: int|
                    0 <= i < v.len() && (#[trigger] v[i]).payload_type == all[k].payload_type
        }),
{
    let events = dtmf_of(all);
    let v = with_dtmf(audio, events);
    split_facts(all);
    dtmf_is_appended_without_conflict(audio, events);
    appended_covers(audio, payload_types(audio), events);
    assert forall|i: int| 0 <= i < audio.len() implies v[i] == audio[i] by {
        assert(v.take(audio.len() as int)[i] == audio[i]);
    }
    assert forall|i: int| audio.len() <= i < v.len() implies (
    #[trigger] v[i]).codec is TelephoneEvent && all.contains(v[i]) by {
        assert(events.contains(v[i]));
        let k = choose|k: int| 0 <= k < events.len() && events[k] == v[i];
        assert(all.contains(events[k]));
    }
    assert forall|k: int|
        0 <= k < all.len() && (#[trigger] all[k]).codec is TelephoneEvent implies exists|i: int|
        0 <= i < v.len() && (#[trigger] v[i]).payload_type == all[k].payload_type by {
        assert(all.contains(all[k]));
        assert(events.contains(all[k]));
        let m = choose|m: int| 0 <= m < events.len() && events[m] == all[k];
        let u = appended(audio, payload_types(audio), events).1;
        assert(u.contains(events[m].payload_type));
        assert(payload_types(v).contains(events[m].payload_type));
        let i = choose|i: int| 0 <= i < v.len() && #[trigger] v[i].payload_type == all[k].payload_type;
        assert(v[i].payload_type == all[k].payload_type);
    }
}

/// Whether one member of a list stands before another.
pub open spec fn stand_in_order<T>(s: Seq<T>, x: T, y: T) -> bool {
    exists|a: int, b: int| 0 <= a < b < s.len() && #[trigger] s[a] == x && #[trigger] s[b] == y
}

/// Whether both sides have an audio codec and the dialplan allows it.
pub open spec fn all_take(
    caller: Seq<CodecInfo>,
    callee: Seq<CodecInfo>,
    allow: Seq<CodecType>,
    t: CodecType,
) -> bool {
    &&& t != CodecType::TelephoneEvent
    &&& exists|i: int| 0 <= i < caller.len() && (#[trigger] caller[i]).codec == t
    &&& exists|i: int| 0 <= i < callee.len() && (#[trigger] callee[i]).codec == t
    &&& allow.len() == 0 || allow.contains(t)
}

/// The caller is answered with exactly the audio codecs that both sides have and the
/// dialplan allows, each as the caller offered it. No answer is made exactly where there
/// is no such codec.
pub proof fn answer_has_what_all_take(
    caller: Seq<CodecInfo>,
    callee: Seq<CodecInfo>,
    allow: Seq<CodecType>,
    use_media_proxy: bool,
)
    ensures
        final_codecs(caller, callee, allow, use_media_proxy) is Some <==> exists|t: CodecType|
            all_take(caller, callee, allow, t),
        final_codecs(caller, callee, allow, use_media_proxy) matches Some(v) ==> {
            &&& forall|i: int|
                0 <= i < v.len() ==> caller.contains(#[trigger] v[i]) && (v[i].codec
                    != CodecType::TelephoneEvent ==> all_take(caller, callee, allow, v[i].codec))
            &&& forall|t: CodecType|
                #![trigger all_take(caller, callee, allow, t)]
                all_take(caller, callee, allow, t) ==> exists|i: int|
                    0 <= i < v.len() && (#[trigger] v[i]).codec == t
        },
{
    let ca = audio_of(caller);
    let ce = audio_of(callee);
    let common = common_codecs(ca, ce, allow);
    let keep = |c: CodecInfo| has_type(ce, c.codec);
    split_facts(caller);
    split_facts(callee);
    common_codecs_are_common(ca, ce, allow);
    common_allowed_is_complete(ca, ce, allow);
    assert forall|i: int| 0 <= i < common.len() implies caller.contains(#[trigger] common[i])
        && common[i].codec !is TelephoneEvent && all_take(caller, callee, allow, common[i].codec) by {
        assert(ca.contains(common[i]));
        let k = choose|k: int| 0 <= k < ca.len() && ca[k] == common[i];
        assert(caller.contains(ca[k]));
        assert(ca[k].codec == common[i].codec);
        assert(has_type(ca, common[i].codec));
        assert(has_type(caller, common[i].codec));
        assert(has_type(callee, common[i].codec));
    }
    assert forall|t: CodecType|
        #![trigger all_take(caller, callee, allow, t)]
        all_take(caller, callee, allow, t) implies has_type(common, t) by {
        assert(has_type(caller, t));
        assert(has_type(callee, t));
        assert(has_type(ca, t));
        assert(has_type(ce, t));
        if allow.len() == 0 {
            let k = choose|k: int| 0 <= k < ca.len() && #[trigger] ca[k].codec == t;
            assert(keep(ca[k]));
            ca.lemma_filter_contains(keep, k);
            let i = choose|i: int| 0 <= i < common.len() && common[i] == ca[k];
            assert(common[i].codec == t);
        }
    }
    if common.len() > 0 {
        assert(all_take(caller, callee, allow, common[0].codec));
        let v = final_codecs(caller, callee, allow, use_media_proxy)->0;
        with_dtmf_facts(common, caller);
        assert forall|i: int| 0 <= i < v.len() implies caller.contains(#[trigger] v[i]) && (v[i].codec
            != CodecType::TelephoneEvent ==> all_take(caller, callee, allow, v[i].codec)) by {
            if i < common.len() {
                assert(v[i] == common[i]);
            }
        }
        assert forall|t: CodecType|
            #![trigger all_take(caller, callee, allow, t)]
            all_take(caller, callee, allow, t) implies exists|i: int|
            0 <= i < v.len() && (#[trigger] v[i]).codec == t by {
            assert(has_type(common, t));
            let i = choose|i: int| 0 <= i < common.len() && #[trigger] common[i].codec == t;
            assert(v[i].codec == t);
        }
    } else if exists|t: CodecType| all_take(caller, callee, allow, t) {
        let t = choose|t: CodecType| all_take(caller, callee, allow, t);
        assert(has_type(common, t));
    }
}

/// The audio codecs of the answer to the caller stand in the dialplan's order, or in the
/// caller's where the dialplan allows all, and before all DTMF events.
pub proof fn answer_keeps_the_dialplans_order(
    caller: Seq<CodecInfo>,
    callee: Seq<CodecInfo>,
    allow: Seq<CodecType>,
    use_media_proxy: bool,
    i: int,
    j: int,
)
    requires
        final_codecs(caller, callee, allow, use_media_proxy) matches Some(v) && 0 <= i < j < v.len(),
        final_codecs(caller, callee, allow, use_media_proxy)->0[j].codec != CodecType::TelephoneEvent,
    ensures
        ({
            let v = final_codecs(caller, callee, allow, use_media_proxy)->0;
            &&& v[i].codec != CodecType::TelephoneEvent
            &&& allow.len() > 0 ==> stand_in_order(allow, v[i].codec, v[j].codec)
            &&& allow.len() == 0 ==> stand_in_order(caller, v[i], v[j])
        }),
{
    let ca = audio_of(caller);
    let ce = audio_of(callee);
    let common = common_codecs(ca, ce, allow);
    let keep = |c: CodecInfo| has_type(ce, c.codec);
    let v = final_codecs(caller, callee, allow, use_media_proxy)->0;
    split_facts(caller);
    common_codecs_are_common(ca, ce, allow);
    assert forall|i: int| 0 <= i < common.len() implies (
    #[trigger] common[i]).codec !is TelephoneEvent by {
        assert(ca.contains(common[i]));
        let k = choose|k: int| 0 <= k < ca.len() && ca[k] == common[i];
        assert(ca[k].codec !is TelephoneEvent);
    }
    with_dtmf_facts(common, caller);
    assert(v[j] == common[j]);
    assert(v[i] == common[i]);
    if allow.len() > 0 {
        common_allowed_keeps_order(ca, ce, allow, i, j);
    } else {
        filter_keeps_order(ca, keep, i, j);
        let (a, b) = choose|a: int, b: int|
            0 <= a < b < ca.len() && #[trigger] ca[a] == common[i] && #[trigger] ca[b] == common[j];
        filter_keeps_order(caller, |i: CodecInfo| i.codec !is TelephoneEvent, a, b);
        let (x, y) = choose|x: int, y: int|
            0 <= x < y < caller.len() && #[trigger] caller[x] == ca[a] && #[trigger] caller[y]
                == ca[b];
        assert(caller[x] == v[i] && caller[y] == v[j]);
    }
}

/// The caller's DTMF events are answered exactly where the media goes through the proxy
/// or the callee takes such events: then each payload type of the caller's events is in
/// the answer, else no event is.
pub proof fn answer_has_events_where_they_are_of_use(
    caller: Seq<CodecInfo>,
    callee: Seq<CodecInfo>,
    allow: Seq<CodecType>,
    use_media_proxy: bool,
)
    requires
        final_codecs(caller, callee, allow, use_media_proxy) is Some,
    ensures
        ({
            let v = final_codecs(caller, callee, allow, use_media_proxy)->0;
            let of_use = use_media_proxy || exists|i: int|
                0 <= i < callee.len() && (#[trigger] callee[i]).codec == CodecType::TelephoneEvent;
            &&& of_use ==> forall|k: int|
                0 <= k < caller.len() && (#[trigger] caller[k]).codec == CodecType::TelephoneEvent
                    ==> exists|i: int|
                    0 <= i < v.len() && (#[trigger] v[i]).payload_type == caller[k].payload_type
            &&& !of_use ==> forall|i: int|
                0 <= i < v.len() ==> (#[trigger] v[i]).codec != CodecType::TelephoneEvent
        }),
{
    let ca = audio_of(caller);
    let common = common_codecs(ca, audio_of(callee), allow);
    split_facts(caller);
    split_facts(callee);
    common_codecs_are_common(ca, audio_of(callee), allow);
    assert forall|i: int| 0 <= i < common.len() implies (
    #[trigger] common[i]).codec !is TelephoneEvent by {
        assert(ca.contains(common[i]));
        let k = choose|k: int| 0 <= k < ca.len() && ca[k] == common[i];
        assert(ca[k].codec !is TelephoneEvent);
    }
    with_dtmf_facts(common, caller);
    let events = dtmf_of(callee);
    if events.len() > 0 {
        assert(callee.contains(events[0]));
        let i = choose|i: int| 0 <= i < callee.len() && callee[i] == events[0];
        assert(callee[i].codec == CodecType::TelephoneEvent);
    }
    if exists|i: int|
        0 <= i < callee.len() && (#[trigger] callee[i]).codec == CodecType::TelephoneEvent {
        let i = choose|i: int|
            0 <= i < callee.len() && (#[trigger] callee[i]).codec == CodecType::TelephoneEvent;
        assert(callee.contains(callee[i]));
        assert(events.contains(callee[i]));
    }
}

/// Once the callee has answered, the caller is answered with all that the caller
/// offered and nothing else; the codec that the callee chose comes first, so that
/// nothing is transcoded. The callee's choice is the first codec of the dialplan's list
/// that the callee has, or the callee's first where the dialplan allows all.
pub proof fn answer_puts_the_callees_choice_first(
    caller: Seq<CodecInfo>,
    callee: Seq<CodecInfo>,
    allow: Seq<CodecType>,
    k: int,
)
    ensures
        optimized_codecs(caller, callee, allow) is Some <==> exists|i: int|
            0 <= i < callee.len() && (#[trigger] callee[i]).codec != CodecType::TelephoneEvent && (
            allow.len() == 0 || allow.contains(callee[i].codec)),
        optimized_codecs(caller, callee, allow) matches Some(v) ==> {
            &&& forall|i: int| 0 <= i < v.len() ==> caller.contains(#[trigger] v[i])
            &&& forall|m: int|
                0 <= m < caller.len() && (#[trigger] caller[m]).codec != CodecType::TelephoneEvent
                    ==> v.contains(caller[m])
            &&& forall|m: int|
                0 <= m < caller.len() && (#[trigger] caller[m]).codec == CodecType::TelephoneEvent
                    ==> exists|i: int|
                    0 <= i < v.len() && (#[trigger] v[i]).payload_type == caller[m].payload_type
            &&& forall|i: int, j: int|
                0 <= i < j < v.len() && (#[trigger] v[j]).codec != CodecType::TelephoneEvent ==> (
                #[trigger] v[i]).codec != CodecType::TelephoneEvent
            &&& 0 <= k < allow.len() && allow[k] != CodecType::TelephoneEvent && (exists|i: int|
                0 <= i < callee.len() && (#[trigger] callee[i]).codec == allow[k]) && (forall|j: int|
                0 <= j < k && #[trigger] allow[j] != CodecType::TelephoneEvent ==> forall|i: int|
                    0 <= i < callee.len() ==> (#[trigger] callee[i]).codec != allow[j]) && (exists|
                i: int,
            |
                0 <= i < caller.len() && (#[trigger] caller[i]).codec == allow[k]) ==> v[0].codec
                == allow[k]
            &&& allow.len() == 0 && 0 <= k < callee.len() && callee[k].codec
                != CodecType::TelephoneEvent && (forall|j: int|
                0 <= j < k ==> (#[trigger] callee[j]).codec == CodecType::TelephoneEvent) && (exists|
                i: int,
            |
                0 <= i < caller.len() && (#[trigger] caller[i]).codec == callee[k].codec)
                ==> v[0].codec == callee[k].codec
        },
{
    let ca = audio_of(caller);
    let ce = audio_of(callee);
    split_facts(caller);
    split_facts(callee);
    first_allowed_codec_is_used(ce, allow, k);
    if exists|i: int|
        0 <= i < callee.len() && (#[trigger] callee[i]).codec != CodecType::TelephoneEvent && (
        allow.len() == 0 || allow.contains(callee[i].codec)) {
        let i = choose|i: int|
            0 <= i < callee.len() && (#[trigger] callee[i]).codec != CodecType::TelephoneEvent && (
            allow.len() == 0 || allow.contains(callee[i].codec));
        assert(callee.contains(callee[i]));
        assert(ce.contains(callee[i]));
        let m = choose|m: int| 0 <= m < ce.len() && ce[m] == callee[i];
        assert(ce[m].codec == callee[i].codec);
    }
    if let Some(chosen) = best_codec(ce, allow) {
        let m = choose|m: int| 0 <= m < ce.len() && ce[m] == chosen;
        assert(callee.contains(ce[m]));
        let i = choose|i: int| 0 <= i < callee.len() && callee[i] == ce[m];
        assert(callee[i].codec != CodecType::TelephoneEvent);
        let audio = promoted(ca, chosen.codec);
        let v = optimized_codecs(caller, callee, allow)->0;
        promotion_keeps_codecs(ca, chosen.codec);
        callee_choice_comes_first(caller, callee, allow);
        same_members(audio, ca);
        assert forall|i: int| 0 <= i < audio.len() implies (
        #[trigger] audio[i]).codec !is TelephoneEvent && caller.contains(audio[i]) by {
            assert(audio.contains(audio[i]));
            assert(ca.contains(audio[i]));
            let m = choose|m: int| 0 <= m < ca.len() && ca[m] == audio[i];
            assert(caller.contains(ca[m]));
        }
        with_dtmf_facts(audio, caller);
        assert forall|i: int| 0 <= i < v.len() implies caller.contains(#[trigger] v[i]) by {
            if i < audio.len() {
                assert(v[i] == audio[i]);
            }
        }
        assert forall|m: int|
            0 <= m < caller.len() && (#[trigger] caller[m]).codec
                != CodecType::TelephoneEvent implies v.contains(caller[m]) by {
            assert(caller.contains(caller[m]));
            assert(ca.contains(caller[m]));
            assert(audio.contains(caller[m]));
            let i = choose|i: int| 0 <= i < audio.len() && audio[i] == caller[m];
            assert(v[i] == caller[m]);
        }
        assert forall|i: int, j: int|
            0 <= i < j < v.len() && (#[trigger] v[j]).codec
                != CodecType::TelephoneEvent implies (#[trigger] v[i]).codec
            != CodecType::TelephoneEvent by {
            assert(v[i] == audio[i]);
        }
        if 0 <= k < allow.len() && allow[k] != CodecType::TelephoneEvent && (exists|i: int|
            0 <= i < callee.len() && (#[trigger] callee[i]).codec == allow[k]) && (forall|j: int|
            0 <= j < k && #[trigger] allow[j] != CodecType::TelephoneEvent ==> forall|i: int|
                0 <= i < callee.len() ==> (#[trigger] callee[i]).codec != allow[j]) && (exists|i: int|
            0 <= i < caller.len() && (#[trigger] caller[i]).codec == allow[k]) {
            assert(has_type(callee, allow[k]));
            assert(has_type(ce, allow[k]));
            assert(has_type(caller, allow[k]));
            assert(has_type(ca, allow[k]));
            assert forall|j: int|
                0 <= j < k && #[trigger] allow[j] != CodecType::TelephoneEvent implies forall|i: int|
                0 <= i < ce.len() ==> (#[trigger] ce[i]).codec != allow[j] by {
                assert(!has_type(callee, allow[j]));
                assert(!has_type(ce, allow[j]));
            }
            assert(chosen.codec == allow[k]);
        }
        if allow.len() == 0 && 0 <= k < callee.len() && callee[k].codec
            != CodecType::TelephoneEvent && (forall|j: int|
            0 <= j < k ==> (#[trigger] callee[j]).codec == CodecType::TelephoneEvent) && (exists|
            i: int,
        |
            0 <= i < caller.len() && (#[trigger] caller[i]).codec == callee[k].codec) {
            first_audio_stays_first(callee, k);
            first_allowed_codec_is_used(ce, allow, 0);
            assert(has_type(caller, callee[k].codec));
            assert(has_type(ca, callee[k].codec));
        }
    }
}

proof fn same_members(a: Seq<CodecInfo>, b: Seq<CodecInfo>)
    requires
        a.to_multiset() == b.to_multiset(),
    ensures
        forall|x: CodecInfo| a.contains(x) <==> b.contains(x),
{
    broadcast use vstd::seq_lib::group_to_multiset_ensures;

    assert forall|x: CodecInfo| a.contains(x) <==> b.contains(x) by {
        assert(a.contains(x) <==> a.to_multiset().count(x) > 0);
        assert(b.contains(x) <==> b.to_multiset().count(x) > 0);
    }
}

proof fn first_audio_stays_first(all: Seq<CodecInfo>, k: int)
    requires
        0 <= k < all.len(),
        all[k].codec != CodecType::TelephoneEvent,
        forall|j: int| 0 <= j < k ==> (#[trigger] all[j]).codec == CodecType::TelephoneEvent,
    ensures
        audio_of(all).len() > 0,
        audio_of(all)[0] == all[k],
    decreases all.len(),
{
    reveal(Seq::filter);
    let rest = all.drop_last();
    if k < rest.len() {
        assert forall|j: int| 0 <= j < k implies (#[trigger] rest[j]).codec
            == CodecType::TelephoneEvent by {
            assert(all[j] == rest[j]);
        }
        first_audio_stays_first(rest, k);
    } else {
        split_facts(rest);
        if audio_of(rest).len() > 0 {
            assert(rest.contains(audio_of(rest)[0]));
            let j = choose|j: int| 0 <= j < rest.len() && rest[j] == audio_of(rest)[0];
            assert(all[j] == rest[j]);
        }
    }
}

} // verus!
