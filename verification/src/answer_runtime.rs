//! Alerting and answering the caller. Moments are in milliseconds.
use vstd::prelude::*;
use crate::bridge_runtime::BridgeRuntime;
use crate::call_leg::CallLeg;
use crate::caller_negotiation::{
    NegotiationError, build_final_caller_codec_info, build_optimized_caller_codec_info,
    build_passthrough_caller_answer_codec_info, final_codecs, optimized_codecs, with_dtmf,
};
use crate::media_bridge::MediaBridge;
use crate::media_endpoint::{MediaEndpoint, audio_view, best_audio_of, or_else, webrtc_sdp};
use crate::model::RingbackMode;
use crate::negotiate::{CodecInfo, CodecType, audio_of, dtmf_of, sdp_codecs};
use crate::session::{CallSession, has_kept_answer};
use crate::session_timer::{
    SessionTimerState, names_timer, session_expires, session_interval_is_read_back,
    timer_is_named_anywhere_in_the_list,
};
use crate::sip::{Header, HeaderView, header_views};
use crate::sip_leg::SipLeg;
use crate::state::{
    CallSessionShared, CallSessionSnapshot, ControlSurface, ProxyCallEvent, change_events, logged,
    logged_twice, refreshed_entry,
};
use crate::text::{decimal, decimal_of, join2, join3, occurs_at, opt_text, own, own_opt};

verus! {

/// The track of the callee's media towards the caller.
pub open spec fn callee_track_text(dialog_id: Option<Seq<char>>) -> Seq<char> {
    match dialog_id {
        Some(d) => "callee-track-"@ + d,
        None => "callee-track"@,
    }
}

/// Whether the caller hears a ringback of the proxy's own.
pub open spec fn plays_local(mode: RingbackMode, early_media: bool) -> bool {
    match mode {
        RingbackMode::Local => true,
        RingbackMode::Passthrough => false,
        RingbackMode::Auto => !early_media,
        RingbackMode::Disabled => false,
    }
}

/// Whether the caller hears the early media of the callee.
pub open spec fn passes_through(mode: RingbackMode, early_media: bool) -> bool {
    match mode {
        RingbackMode::Local => false,
        RingbackMode::Passthrough => early_media,
        RingbackMode::Auto => early_media,
        RingbackMode::Disabled => false,
    }
}

/// The caller hears at most one of a ringback and the callee's early media, and
/// early media only where there is some.
pub proof fn one_source_of_ringback(mode: RingbackMode, early_media: bool)
    ensures
        !(plays_local(mode, early_media) && passes_through(mode, early_media)),
        passes_through(mode, early_media) ==> early_media,
        mode is Auto ==> plays_local(mode, early_media) != passes_through(mode, early_media),
{
}

/// How the caller is alerted.
#[derive(Debug)]
pub struct RingingPlan {
    pub early_media: bool,
    pub play_local: bool,
    pub passthrough: bool,
    /// The callee's early media has to be set up as a track towards the caller.
    pub setup_track: bool,
    /// The codecs of the answer to the caller, where the proxy carries the early
    /// media; an error where the sides have none in common.
    pub codecs: Option<Result<Vec<CodecInfo>, NegotiationError>>,
}

/// A ringback that is played to the caller.
#[derive(Clone, Debug)]
pub struct Ringback {
    pub audio_file: String,
    pub loop_playback: bool,
    /// The track that is not forwarded meanwhile.
    pub suppressed_track: Option<String>,
}

/// The provisional response to the caller.
#[derive(Clone, Debug)]
pub struct RingingResponse {
    pub status: u16,
    /// The session description, sent as `application/sdp`.
    pub body: Option<String>,
    pub ringback: Option<Ringback>,
    /// Whether the bridge has to be set going.
    pub start_bridge: bool,
}

impl CallSession {
    /// Whether the caller is alerted once more: not after the answer, not twice
    /// without news of a dialog, and not after early media.
    pub open spec fn alerts(self, answer: Seq<char>, has_dialog: bool) -> bool {
        &&& self.answer_time is None
        &&& !(self.ring_time is Some && answer.len() == 0 && !has_dialog)
        &&& !(self.exported_leg.media.early_media_sent && !has_dialog)
    }

    /// The session once the caller is alerted.
    pub open spec fn alerted(self, after: CallSession, early_media: bool, now: u64) -> bool {
        &&& if self.shared.inner.can_ring() {
            self.shared.becomes(self.shared.inner.ringing(early_media, now), after.shared)
        } else {
            after.shared == self.shared
        }
        &&& after == (CallSession {
            shared: after.shared,
            ring_time: match self.ring_time {
                Some(t) => Some(t),
                None => Some(now),
            },
            exported_leg: CallLeg {
                media: MediaEndpoint {
                    early_media_sent: self.exported_leg.media.early_media_sent || early_media,
                    ..self.exported_leg.media
                },
                ..self.exported_leg
            },
            ..self
        })
    }

    /// What an alert of the callee leads to for the caller.
    pub open spec fn rings(
        self,
        after: CallSession,
        answer: Seq<char>,
        has_dialog: bool,
        now: u64,
        r: Option<RingingPlan>,
    ) -> bool {
        &&& r is Some == self.alerts(answer, has_dialog)
        &&& (r is None ==> after == self)
        &&& (r matches Some(p) ==> {
            let mode = self.context.dialplan.ringback.mode;
            &&& self.alerted(after, answer.len() > 0, now)
            &&& p.early_media == (answer.len() > 0)
            &&& p.play_local == plays_local(mode, p.early_media)
            &&& p.passthrough == passes_through(mode, p.early_media)
            &&& p.setup_track == (self.use_media_proxy && p.passthrough)
            &&& p.codecs is Some == (self.use_media_proxy && p.early_media)
            &&& p.codecs matches Some(c) ==> final_outcome(c) == final_codecs_of(
                self.exported_leg.media.offer_sdp,
                answer,
                self.context.dialplan.allow_codecs@,
            )
        })
    }

    /// Begins to alert the caller; `None` where it is not alerted. `answer` is the
    /// description that the callee sent, empty where it sent none.
    pub fn begin_ringing(&mut self, answer: &str, has_dialog: bool, now: u64) -> (r: Option<RingingPlan>)
        ensures
            old(self).rings(*final(self), answer@, has_dialog, now, r),
    {
        if self.answer_time.is_some() {
            return None;
        }
        let early_media = !answer.is_empty();
        if self.ring_time.is_some() && !early_media && !has_dialog {
            return None;
        }
        if self.exported_leg.media.early_media_sent && !has_dialog {
            return None;
        }
        let _moved = self.shared.transition_to_ringing(early_media, now);
        if self.ring_time.is_none() {
            self.ring_time = Some(now);
        }
        let (play_local, passthrough) = match self.context.dialplan.ringback.mode {
            RingbackMode::Local => (true, false),
            RingbackMode::Passthrough => (false, early_media),
            RingbackMode::Auto => (!early_media, early_media),
            RingbackMode::Disabled => (false, false),
        };
        let mut codecs: Option<Result<Vec<CodecInfo>, NegotiationError>> = None;
        if early_media {
            self.exported_leg.media.early_media_sent = true;
            if self.use_media_proxy {
                let offer = match &self.exported_leg.media.offer_sdp {
                    Some(s) => Some(s.as_str()),
                    None => None,
                };
                codecs = Some(
                    build_final_caller_codec_info(
                        offer,
                        answer,
                        self.context.dialplan.allow_codecs.as_slice(),
                        true,
                    ),
                );
            }
        }
        Some(
            RingingPlan {
                early_media,
                play_local,
                passthrough,
                setup_track: self.use_media_proxy && passthrough,
                codecs,
            },
        )
    }

    /// The ringback that the caller hears, where the plan of the call has a file and
    /// the proxy carries the media.
    fn ringback(&self, plan: &RingingPlan, dialog_id: &Option<String>) -> (r: Option<Ringback>)
        ensures
            r is Some == (plan.play_local && self.use_media_proxy
                && self.context.dialplan.ringback.audio_file is Some),
            r matches Some(b) ==> {
                &&& b.audio_file == self.context.dialplan.ringback.audio_file->0
                &&& b.loop_playback == self.context.dialplan.ringback.loop_playback
                &&& opt_text(b.suppressed_track) == (if plan.early_media {
                    Some(callee_track_text(opt_text(*dialog_id)))
                } else {
                    None
                })
            },
    {
        if !plan.play_local || !self.use_media_proxy {
            return None;
        }
        match &self.context.dialplan.ringback.audio_file {
            Some(f) => {
                let suppressed_track = if plan.early_media {
                    Some(
                        match dialog_id {
                            Some(d) => join2("callee-track-", d.as_str()),
                            None => own("callee-track"),
                        },
                    )
                } else {
                    None
                };
                Some(
                    Ringback {
                        audio_file: f.clone(),
                        loop_playback: self.context.dialplan.ringback.loop_playback,
                        suppressed_track,
                    },
                )
            },
            None => None,
        }
    }

    /// Whether `p` is the response that alerts the caller as planned, with `answer` of the
    /// callee and the description `built` for the caller.
    pub open spec fn is_ringing_response(
        self,
        p: RingingResponse,
        plan: RingingPlan,
        answer: String,
        built: Option<String>,
        dialog_id: Option<Seq<char>>,
    ) -> bool {
        &&& p.status == (if plan.early_media {
            183u16
        } else {
            180u16
        })
        &&& p.body == (if plan.passthrough {
            if plan.codecs is Some {
                built
            } else {
                Some(answer)
            }
        } else {
            None
        })
        &&& p.start_bridge == (plan.codecs is Some
            && self.bridge_runtime.media_bridge is None)
        &&& p.ringback is Some == (plan.play_local && self.use_media_proxy
            && self.context.dialplan.ringback.audio_file is Some)
        &&& p.ringback matches Some(b) ==> b.audio_file
            == self.context.dialplan.ringback.audio_file->0 && b.loop_playback
            == self.context.dialplan.ringback.loop_playback && opt_text(
            b.suppressed_track,
        ) == (if plan.early_media {
            Some(callee_track_text(dialog_id))
        } else {
            None
        })
    }

    /// Completes the alerting of the caller. `answer` is the description that the
    /// callee sent, `track_ready` says whether the track to the callee has taken it,
    /// and `built` is the answer to the caller that was built from the codecs of the
    /// plan, `None` where that failed. Returns the response to the caller; none is
    /// sent where the proxy should carry early media but could not build an answer.
    pub fn finish_ringing(
        &mut self,
        plan: &RingingPlan,
        answer: String,
        track_ready: bool,
        built: Option<String>,
        dialog_id: &Option<String>,
    ) -> (r: Option<RingingResponse>)
        requires
            plan.codecs is Some == (old(self).use_media_proxy && plan.early_media),
            plan.passthrough ==> plan.early_media,
            plan.setup_track && track_ready ==> old(self).target_leg is Some,
        ensures
            ({
                let carried = plan.codecs is Some;
                let ok = !carried || (plan.codecs->0 is Ok && built is Some);
                let set = CallSession { target_leg: final(self).target_leg, ..*old(self) };
                &&& r is Some == ok
                &&& if plan.setup_track && track_ready {
                    old(self).target_answered(set, answer@)
                } else {
                    final(self).target_leg == old(self).target_leg
                }
                &&& !ok || !carried ==> *final(self) == set
                &&& ok && carried ==> {
                    &&& final(self).exported_leg == (CallLeg {
                        media: MediaEndpoint {
                            answer_sdp: built,
                            ..old(self).exported_leg.media
                        },
                        ..old(self).exported_leg
                    })
                    &&& has_kept_answer(old(self).shared, final(self).shared, built)
                    &&& if old(self).bridge_runtime.media_bridge is Some {
                        final(self).bridge_runtime == old(self).bridge_runtime
                    } else {
                        old(self).is_newly_bridged(
                            final(self).bridge_runtime,
                            final(self).exported_leg.media,
                            answer@,
                            true,
                            true,
                        )
                    }
                    &&& *final(self) == (CallSession {
                        exported_leg: final(self).exported_leg,
                        shared: final(self).shared,
                        bridge_runtime: final(self).bridge_runtime,
                        ..set
                    })
                }
            }),
            r matches Some(p) ==> old(self).is_ringing_response(
                p,
                *plan,
                answer,
                built,
                opt_text(*dialog_id),
            ),
    {
        if plan.setup_track && track_ready {
            self.setup_target_track(answer.as_str());
        }
        let mut body = answer;
        let mut start_bridge = false;
        if let Some(codecs) = &plan.codecs {
            if codecs.is_err() {
                return None;
            }
            match built {
                Some(answer_for_caller) => {
                    let callee_sdp = body;
                    self.set_answer(answer_for_caller.clone());
                    body = answer_for_caller;
                    if !self.bridge_runtime.is_active() {
                        self.ensure_media_bridge_from_sdp(callee_sdp.as_str(), true);
                        start_bridge = self.bridge_runtime.start_bridge();
                    }
                },
                None => return None,
            }
        }
        let ringback = self.ringback(plan, dialog_id);
        let status: u16 = if plan.early_media {
            183
        } else {
            180
        };
        let body = if plan.passthrough {
            Some(body)
        } else {
            None
        };
        Some(RingingResponse { status, body, ringback, start_bridge })
    }

    /// Whether candidates are trickled to the caller: it supports that, and offered
    /// secure media.
    pub open spec fn trickles(self) -> bool {
        self.exported_leg.sip.supports_trickle_ice && (
        self.exported_leg.media.offer_sdp matches Some(s) && webrtc_sdp(s@))
    }

    /// See [`CallSession::trickles`].
    pub fn trickle_ice_enabled(&self) -> (r: bool)
        ensures
            r == self.trickles(),
    {
        if !self.exported_leg.sip.supports_trickle_ice {
            return false;
        }
        match &self.exported_leg.media.offer_sdp {
            Some(s) => MediaEndpoint::is_webrtc_sdp(s.as_str()),
            None => false,
        }
    }
}

/// What was negotiated for the caller's answer.
pub open spec fn final_outcome(r: Result<Vec<CodecInfo>, NegotiationError>) -> Option<Seq<CodecInfo>> {
    match r {
        Ok(v) => Some(v@),
        Err(_) => None,
    }
}

/// The codecs that an optional description offers.
pub open spec fn codecs_offered(sdp: Option<String>) -> Seq<CodecInfo> {
    match sdp {
        Some(s) => sdp_codecs(s@),
        None => Seq::empty(),
    }
}

/// The codecs of the answer to the caller after the callee's early media.
pub open spec fn final_codecs_of(offer: Option<String>, callee: Seq<char>, allow: Seq<CodecType>) -> Option<
    Seq<CodecInfo>,
> {
    final_codecs(codecs_offered(offer), sdp_codecs(callee), allow, true)
}

/// What answering the caller begins with.
#[derive(Debug)]
pub struct AcceptPlan {
    /// Whether the call had not been answered before.
    pub first_answer: bool,
    /// Whether candidates are trickled to the caller.
    pub trickle: bool,
    /// The codecs of an answer that fits the callee's choice, where one is built.
    pub optimized: Option<Vec<CodecInfo>>,
}

/// What the media of the call needs once the answer to the caller is known.
#[derive(Clone, Debug)]
pub struct AcceptMedia {
    /// The proxy carries the media: the ringback is removed, and what the callee
    /// sends is forwarded.
    pub proxied: bool,
    /// The listener for DTMF digits that is cancelled.
    pub cancelled_listener: Option<u64>,
    /// Whether the bridge has to be set going.
    pub start_bridge: bool,
    /// Whether there is a bridge that has to be stopped.
    pub stop_bridge: bool,
}

/// The headers of the final response to the caller.
pub open spec fn accept_headers(answered: bool, timer: SessionTimerState, trickle: bool) -> Seq<HeaderView> {
    let body = if answered {
        seq![HeaderView::ContentType("application/sdp"@)]
    } else {
        Seq::empty()
    };
    let timed = if timer.active {
        seq![
            HeaderView::Supported("timer"@),
            HeaderView::Other(
                "Session-Expires"@,
                decimal(timer.session_interval as nat) + ";refresher="@
                    + timer.refresher.name_text(),
            ),
        ]
    } else {
        Seq::empty()
    };
    let trickled = if trickle {
        seq![HeaderView::Supported("trickle-ice"@)]
    } else {
        Seq::empty()
    };
    body + timed + trickled
}

/// Whether `after` is `leg` with the dialog that is named so connected, where one of
/// its dialogs is.
pub open spec fn dialog_connected(leg: Option<CallLeg>, after: Option<CallLeg>, name: Option<Seq<char>>) -> bool {
    match (leg, name) {
        (Some(l), Some(n)) => {
            if exists|i: int| 0 <= i < l.sip.recorded().len() && (#[trigger] l.sip.recorded()[i]).text() == n {
                &&& after matches Some(a)
                &&& a.sip.connected_dialog_id matches Some(d)
                &&& d@.text() == n
                &&& l.sip.recorded().contains(d@)
                &&& a == (CallLeg {
                    sip: SipLeg { connected_dialog_id: a.sip.connected_dialog_id, ..l.sip },
                    ..l
                })
            } else {
                after == leg
            }
        },
        _ => after == leg,
    }
}

impl CallSession {
    fn connect_dialog(&mut self, dialog_id: &Option<String>)
        ensures
            dialog_connected(old(self).target_leg, final(self).target_leg, opt_text(*dialog_id)),
            *final(self) == (CallSession { target_leg: final(self).target_leg, ..*old(self) }),
    {
        if let Some(name) = dialog_id {
            if let Some(leg) = self.target_leg.take() {
                let mut leg = leg;
                let ghost l = leg;
                match leg.sip.recorded_as(name.as_str()) {
                    Some(id) => {
                        proof {
                            let k = l.sip.recorded().index_of(id@);
                            assert(l.sip.recorded()[k].text() == name@);
                        }
                        leg.sip.set_connected_dialog(id);
                    },
                    None => {},
                }
                self.target_leg = Some(leg);
            }
        }
    }

    /// The codecs of an answer that fits the callee's choice: built on the first
    /// answer, unless early media was sent.
    pub open spec fn optimized_answer(self, callee_answer: Option<String>) -> Option<Seq<CodecInfo>> {
        match (self.exported_leg.media.offer_sdp, callee_answer) {
            (Some(offer), Some(sdp)) => if self.answer_time is None
                && !self.exported_leg.media.early_media_sent {
                optimized_codecs(
                    sdp_codecs(offer@),
                    sdp_codecs(sdp@),
                    self.context.dialplan.allow_codecs@,
                )
            } else {
                None
            },
            _ => None,
        }
    }

    /// What the answer of the callee leads to before the media is connected.
    pub open spec fn accepts(
        self,
        after: CallSession,
        callee: Option<String>,
        callee_answer: Option<String>,
        dialog_id: Option<Seq<char>>,
        now: u64,
        r: AcceptPlan,
    ) -> bool {
        &&& r.first_answer == (self.answer_time is None)
        &&& r.trickle == self.trickles()
        &&& (match r.optimized {
            Some(v) => Some(v@),
            None => None,
        }) == self.optimized_answer(callee_answer)
        &&& after.connected_callee == (match callee {
            Some(c) => match self.routed_callee {
                Some(routed) => Some(routed),
                None => Some(c),
            },
            None => self.connected_callee,
        })
        &&& after.answer_time == (match self.answer_time {
            Some(t) => Some(t),
            None => Some(now),
        })
        &&& dialog_connected(self.target_leg, after.target_leg, dialog_id)
        &&& after == (CallSession {
            connected_callee: after.connected_callee,
            answer_time: after.answer_time,
            target_leg: after.target_leg,
            ..self
        })
    }

    /// Begins to answer the caller. The connected party is the routed callee, else
    /// `callee`; the connected dialog is the one that is named so. The first answer
    /// gives the call its time of answer.
    pub fn begin_accept(
        &mut self,
        callee: Option<String>,
        callee_answer: &Option<String>,
        dialog_id: &Option<String>,
        now: u64,
    ) -> (r: AcceptPlan)
        ensures
            old(self).accepts(
                *final(self),
                callee,
                *callee_answer,
                opt_text(*dialog_id),
                now,
                r,
            ),
    {
        let first_answer = self.answer_time.is_none();
        if let Some(c) = callee {
            self.connected_callee = match &self.routed_callee {
                Some(routed) => Some(routed.clone()),
                None => Some(c),
            };
        }
        self.connect_dialog(dialog_id);
        if first_answer {
            self.answer_time = Some(now);
        }
        let mut optimized: Option<Vec<CodecInfo>> = None;
        if first_answer && !self.exported_leg.media.early_media_sent {
            if let Some(sdp) = callee_answer {
                let offer = match &self.exported_leg.media.offer_sdp {
                    Some(s) => Some(s.as_str()),
                    None => None,
                };
                optimized = build_optimized_caller_codec_info(
                    offer,
                    sdp.as_str(),
                    self.context.dialplan.allow_codecs.as_slice(),
                    self.use_media_proxy,
                );
            }
        }
        AcceptPlan { first_answer, trickle: self.trickle_ice_enabled(), optimized }
    }

    /// The codecs of the answer to the caller, where there is none yet: those that
    /// the caller offered.
    pub fn answer_codecs_needed(&self) -> (r: Option<Vec<CodecInfo>>)
        ensures
            r is Some == (self.exported_leg.media.answer_sdp is None),
            r matches Some(v) ==> v@ == with_dtmf(
                audio_of(codecs_offered(self.exported_leg.media.offer_sdp)),
                dtmf_of(codecs_offered(self.exported_leg.media.offer_sdp)),
            ),
    {
        if self.exported_leg.media.answer_sdp.is_some() {
            return None;
        }
        let offer = match &self.exported_leg.media.offer_sdp {
            Some(s) => Some(s.as_str()),
            None => None,
        };
        Some(build_passthrough_caller_answer_codec_info(offer))
    }

    /// Whether answering leads from `self` to `after`: the caller's audio is fixed on the
    /// first answer; with the proxy the legs are bridged, without it the callee's answer
    /// goes to the caller.
    pub open spec fn media_connected(
        self,
        after: CallSession,
        first_answer: bool,
        callee_answer: Option<String>,
        r: AcceptMedia,
    ) -> bool {
        &&& r.proxied == self.use_media_proxy
        &&& r.stop_bridge == (!self.use_media_proxy
            && self.bridge_runtime.media_bridge is Some)
        &&& (!first_answer || self.exported_leg.media.negotiated_audio is Some
            ==> after.exported_leg.media.negotiated_audio
            == self.exported_leg.media.negotiated_audio)
        &&& (first_answer && self.exported_leg.media.negotiated_audio is None ==> audio_view(
            after.exported_leg.media.negotiated_audio,
        ) == or_else(
            best_audio_of(
                self.exported_leg.media.answer_sdp,
                self.context.dialplan.allow_codecs@,
            ),
            best_audio_of(
                self.exported_leg.media.offer_sdp,
                self.context.dialplan.allow_codecs@,
            ),
        ))
        &&& after.exported_leg.media.answer_sdp == (if !self.use_media_proxy
            && callee_answer is Some {
            callee_answer
        } else {
            self.exported_leg.media.answer_sdp
        })
        &&& (self.use_media_proxy ==> {
            let fresh = callee_answer is Some && self.bridge_runtime.media_bridge is None;
            &&& if fresh {
                self.is_newly_bridged(
                    after.bridge_runtime,
                    after.exported_leg.media,
                    callee_answer->0@,
                    false,
                    true,
                )
            } else {
                after.bridge_runtime == (BridgeRuntime {
                    media_bridge: match self.bridge_runtime.media_bridge {
                        Some(b) => Some(MediaBridge { started: true, ..b }),
                        None => None,
                    },
                    ..self.bridge_runtime
                })
            }
            &&& r.start_bridge == (fresh || (self.bridge_runtime.media_bridge matches Some(
                b,
            ) && !b.started))
            &&& r.cancelled_listener == (if fresh {
                self.exported_leg.media.dtmf_listener_cancel
            } else {
                None
            })
            &&& match callee_answer {
                Some(sdp) => self.target_answered(
                    (CallSession { target_leg: after.target_leg, ..self }),
                    sdp@,
                ),
                None => after.target_leg == self.target_leg,
            }
            &&& after.shared == (CallSessionShared {
                surface: ControlSurface {
                    dtmf_listener_cancel: if fresh {
                        None
                    } else {
                        self.shared.surface.dtmf_listener_cancel
                    },
                    ..self.shared.surface
                },
                ..self.shared
            })
        })
        &&& (!self.use_media_proxy ==> {
            &&& !r.start_bridge
            &&& r.cancelled_listener is None
            &&& after.bridge_runtime == self.bridge_runtime
            &&& after.target_leg == self.target_leg
            &&& callee_answer is None ==> after.shared == self.shared
            &&& callee_answer is Some ==> has_kept_answer(
                self.shared,
                after.shared,
                callee_answer,
            )
        })
        &&& after == (CallSession {
            exported_leg: CallLeg {
                media: MediaEndpoint {
                    negotiated_audio: after.exported_leg.media.negotiated_audio,
                    answer_sdp: after.exported_leg.media.answer_sdp,
                    dtmf_listener_cancel: if r.proxied && callee_answer is Some
                        && self.bridge_runtime.media_bridge is None {
                        None
                    } else {
                        self.exported_leg.media.dtmf_listener_cancel
                    },
                    ..self.exported_leg.media
                },
                ..self.exported_leg
            },
            shared: after.shared,
            target_leg: after.target_leg,
            bridge_runtime: after.bridge_runtime,
            ..self
        })
    }

    /// Brings the media of the call to the answered state. On the first answer the
    /// caller's audio is fixed. Where the proxy carries the media, the legs are
    /// bridged; else the callee's answer goes to the caller and the bridge is
    /// stopped.
    pub fn connect_media(&mut self, first_answer: bool, callee_answer: Option<String>) -> (r: AcceptMedia)
        requires
            old(self).use_media_proxy && callee_answer is Some ==> old(self).target_leg is Some,
        ensures
            old(self).media_connected(*final(self), first_answer, callee_answer, r),
    {
        if first_answer {
            self.exported_leg.media.freeze_answered_audio_with_allow_codecs(
                self.context.dialplan.allow_codecs.as_slice(),
            );
        }
        if !self.use_media_proxy {
            if let Some(sdp) = callee_answer {
                self.set_answer(sdp);
            }
            return AcceptMedia {
                proxied: false,
                cancelled_listener: None,
                start_bridge: false,
                stop_bridge: self.bridge_runtime.is_active(),
            };
        }
        let mut cancelled_listener: Option<u64> = None;
        if let Some(sdp) = callee_answer {
            self.setup_target_track(sdp.as_str());
            if !self.bridge_runtime.is_active() {
                cancelled_listener = self.exported_leg.media.cancel_dtmf_listener();
                self.shared.set_dtmf_listener_cancel(None);
                self.ensure_media_bridge_from_sdp(sdp.as_str(), false);
            }
        }
        let start_bridge = self.bridge_runtime.start_bridge();
        AcceptMedia { proxied: true, cancelled_listener, start_bridge, stop_bridge: false }
    }

    /// The final response to the caller: its headers and its description.
    pub fn accept_response(&self) -> (r: (Vec<Header>, Option<String>))
        ensures
            header_views(r.0@) == accept_headers(
                self.exported_leg.media.answer_sdp is Some,
                self.exported_leg.sip.session_timer,
                self.exported_leg.sip.supports_trickle_ice,
            ),
            r.1 == self.exported_leg.media.answer_sdp,
    {
        let mut headers: Vec<Header> = Vec::new();
        if self.exported_leg.media.answer_sdp.is_some() {
            headers.push(Header::ContentType(own("application/sdp")));
        }
        let timer = self.exported_leg.sip.session_timer;
        if timer.active {
            headers.push(Header::Supported(own("timer")));
            let secs = decimal_of(timer.session_interval);
            let name = timer.refresher.name();
            headers.push(
                Header::Other(
                    own("Session-Expires"),
                    join3(secs.as_str(), ";refresher=", name.as_str()),
                ),
            );
        }
        if self.exported_leg.sip.supports_trickle_ice {
            headers.push(Header::Supported(own("trickle-ice")));
        }
        assert(header_views(headers@) =~= accept_headers(
            self.exported_leg.media.answer_sdp is Some,
            self.exported_leg.sip.session_timer,
            self.exported_leg.sip.supports_trickle_ice,
        ));
        (headers, own_opt(&self.exported_leg.media.answer_sdp))
    }

    /// Notes that the caller has been answered: the call is bridged for its
    /// observers, and the first answer names the callee.
    pub fn note_answered(&mut self, first_answer: bool, now: u64)
        ensures
            final(self).shared.inner == old(self).shared.inner.answered(now),
            final(self).shared.entry == refreshed_entry(
                old(self).shared.entry,
                final(self).shared.inner,
            ),
            final(self).shared.log() == logged(
                old(self).shared.log(),
                change_events(old(self).shared.inner, final(self).shared.inner) + (
                if first_answer {
                    seq![
                        ProxyCallEvent::TargetAnswered {
                            session_id: old(self).shared.inner.session_id,
                            callee: match old(self).connected_callee {
                                Some(c) => Some(c),
                                None => old(self).routed_callee,
                            },
                        },
                    ]
                } else {
                    Seq::empty()
                }),
            ),
            old(self).is_published_media(final(self).shared.surface.media),
            final(self).shared.surface == (ControlSurface {
                media: final(self).shared.surface.media,
                ..old(self).shared.surface
            }),
            final(self).shared.pending == old(self).shared.pending,
            *final(self) == (CallSession { shared: final(self).shared, ..*old(self) }),
    {
        let ghost start = self.shared.log();
        let ghost changes = change_events(self.shared.inner, self.shared.inner.answered(now));
        self.shared.transition_to_answered(now);
        if first_answer {
            let callee = match &self.connected_callee {
                Some(c) => Some(c.clone()),
                None => own_opt(&self.routed_callee),
            };
            let session_id = self.shared.session_id();
            let event = ProxyCallEvent::TargetAnswered { session_id, callee };
            proof {
                logged_twice(start, changes, seq![event]);
            }
            self.shared.emit_custom_event(event);
        } else {
            proof {
                assert(changes + Seq::<ProxyCallEvent>::empty() =~= changes);
            }
        }
        self.publish_exported_leg_media();
    }
}

/// The body of an INFO with a local candidate.
pub fn candidate_body(candidate: &str) -> (r: String)
    ensures
        r@ == "a=mid:0\r\na=candidate:"@ + candidate@ + "\r\n"@,
{
    join3("a=mid:0\r\na=candidate:", candidate, "\r\n")
}

/// The body of an INFO that says that there are no more candidates.
pub fn end_of_candidates_body() -> (r: String)
    ensures
        r@ == "a=mid:0\r\na=end-of-candidates\r\n"@,
{
    own("a=mid:0\r\na=end-of-candidates\r\n")
}

/// A call is answered at one moment: a later answer does not change it, and does
/// not name the callee again.
pub proof fn answer_time_is_set_once(s: CallSessionSnapshot, first: u64, later: u64)
    ensures
        s.answered(first).answered(later).answer_time == s.answered(first).answer_time,
        s.answer_time is None ==> s.answered(first).answer_time == Some(first),
{
}

/// A caller that has been answered is not alerted any more.
pub proof fn answered_caller_is_not_alerted(s: CallSession, answer: Seq<char>, has_dialog: bool)
    requires
        s.answer_time is Some,
    ensures
        !s.alerts(answer, has_dialog),
{
}

/// What a caller hears while the callee is alerted: with local ringback always that,
/// with early media to be passed on that alone, in the automatic mode early media where
/// there is some and else ringback, and nothing where ringback is off.
pub proof fn ringback_follows_its_mode(mode: RingbackMode, early_media: bool)
    ensures
        plays_local(mode, early_media) <==> mode is Local || (mode is Auto && !early_media),
        passes_through(mode, early_media) <==> early_media && (mode is Passthrough || mode is Auto),
{
}

/// A caller who has not been answered is alerted: for the first time in any case, unless
/// early media was sent before; again only with news, which is an answer or a dialog;
/// and after early media only with a dialog.
pub proof fn caller_is_alerted_with_news(s: CallSession, answer: Seq<char>, has_dialog: bool)
    requires
        s.answer_time is None,
    ensures
        has_dialog ==> s.alerts(answer, has_dialog),
        !has_dialog && s.exported_leg.media.early_media_sent ==> !s.alerts(answer, has_dialog),
        !has_dialog && !s.exported_leg.media.early_media_sent && s.ring_time is None ==> s.alerts(
            answer,
            has_dialog,
        ),
        !has_dialog && !s.exported_leg.media.early_media_sent && s.ring_time is Some ==> (s.alerts(
            answer,
            has_dialog,
        ) <==> answer.len() > 0),
{
}

/// Alerting a caller sets the time of the first alert only, and remembers that early
/// media was sent.
pub proof fn alert_is_noted(before: CallSession, after: CallSession, early_media: bool, now: u64)
    requires
        before.alerted(after, early_media, now),
    ensures
        before.ring_time is None ==> after.ring_time == Some(now),
        before.ring_time is Some ==> after.ring_time == before.ring_time,
        early_media ==> after.exported_leg.media.early_media_sent,
        !early_media ==> after.exported_leg.media.early_media_sent
            == before.exported_leg.media.early_media_sent,
        before.shared.inner.phase is Dialing || before.shared.inner.phase is Ringing ==> (
        after.shared.inner.phase is EarlyMedia <==> early_media),
        before.shared.inner.phase is Bridged || before.shared.inner.phase is Ended
            || before.shared.inner.phase is Failed || before.shared.inner.phase is Terminating
            || before.shared.inner.phase is App ==> after.shared == before.shared,
        after.answer_time == before.answer_time && after.target_leg == before.target_leg,
{
}

/// Candidates are trickled only to a caller who supports it and offered the secure media
/// of browsers.
pub proof fn candidates_are_trickled_to_browsers(s: CallSession)
    ensures
        s.trickles() ==> s.exported_leg.sip.supports_trickle_ice && s.exported_leg.media.offer_sdp is Some,
        s.exported_leg.sip.supports_trickle_ice ==> (s.exported_leg.media.offer_sdp matches Some(o) ==> (
        s.trickles() <==> exists|i: int| occurs_at(o@, "RTP/SAVPF"@, i))),
{
}

/// The final response to a caller says what is in it: a description only where there is
/// one, and the timer that runs, with its interval and the side that refreshes.
pub proof fn response_says_what_it_has(answered: bool, timer: SessionTimerState, trickle: bool)
    ensures
        ({
            let h = accept_headers(answered, timer, trickle);
            &&& answered ==> h[0] == HeaderView::ContentType("application/sdp"@)
            &&& h.len() == (if answered {
                1int
            } else {
                0
            }) + (if timer.active {
                2int
            } else {
                0
            }) + (if trickle {
                1int
            } else {
                0
            })
            &&& trickle ==> h.last() == HeaderView::Supported("trickle-ice"@)
            &&& timer.active ==> {
                let i = if answered {
                    2int
                } else {
                    1
                };
                &&& names_timer(h[i - 1])
                &&& h[i] matches HeaderView::Other(n, v)
                &&& n == "Session-Expires"@
                &&& session_expires(v) == Some((timer.session_interval as nat, Some(timer.refresher)))
            }
        }),
{
    session_interval_is_read_back(timer.session_interval, timer.refresher);
    timer_is_named_anywhere_in_the_list(Seq::empty(), Seq::empty());
}

/// An answer is fitted to the callee's choice only before the call is answered and where
/// no early media was sent.
pub proof fn answer_is_fitted_once(s: CallSession, callee_answer: Option<String>)
    ensures
        s.answer_time is Some || s.exported_leg.media.early_media_sent || callee_answer is None
            || s.exported_leg.media.offer_sdp is None ==> s.optimized_answer(callee_answer) is None,
{
}

/// Each dialog of the callee has a track of its own.
pub proof fn dialogs_have_their_own_tracks(a: Seq<char>, b: Seq<char>)
    ensures
        callee_track_text(Some(a)) == callee_track_text(Some(b)) ==> a == b,
        a.len() > 0 ==> callee_track_text(Some(a)) != callee_track_text(None),
{
    reveal_strlit("callee-track-");
    reveal_strlit("callee-track");
    let x = callee_track_text(Some(a));
    let y = callee_track_text(Some(b));
    assert(x.skip(13) =~= a);
    assert(y.skip(13) =~= b);
}

/// The dialog that an answer names is the one that is connected, where it is one of the
/// callee's; any other name changes nothing.
pub proof fn named_dialog_is_connected(leg: CallLeg, after: Option<CallLeg>, name: Seq<char>, i: int)
    requires
        dialog_connected(Some(leg), after, Some(name)),
    ensures
        0 <= i < leg.sip.recorded().len() && leg.sip.recorded()[i].text() == name ==> (after matches Some(a)
            && a.sip.connected_dialog_id matches Some(d) && d@.text() == name && leg.sip.recorded().contains(
            d@,
        )),
        (forall|k: int| 0 <= k < leg.sip.recorded().len() ==> (#[trigger] leg.sip.recorded()[k]).text()
            != name) ==> after == Some(leg),
        after matches Some(a) && a.media == leg.media && a.sip.session_timer == leg.sip.session_timer,
{
    if 0 <= i < leg.sip.recorded().len() && leg.sip.recorded()[i].text() == name {
        assert(leg.sip.recorded()[i].text() == name);
    }
}

/// The codecs of an early answer are those that the caller's offer, the callee's early
/// media and the dialplan have in common.
pub proof fn early_answer_fits_both_sides(offer: String, callee: Seq<char>, allow: Seq<CodecType>)
    ensures
        final_codecs_of(Some(offer), callee, allow) == final_codecs(
            sdp_codecs(offer@),
            sdp_codecs(callee),
            allow,
            true,
        ),
        codecs_offered(None).len() == 0,
        codecs_offered(Some(offer)) == sdp_codecs(offer@),
{
}

/// A caller is alerted with 183 where the callee sends early media, else with 180. The
/// description goes along only where the caller is to hear the callee: the one that was
/// built for the caller where the proxy carries the media, else the callee's own. The
/// ringback is that of the plan, and silences the callee's early media.
pub proof fn alert_carries_what_is_heard(
    s: CallSession,
    p: RingingResponse,
    plan: RingingPlan,
    answer: String,
    built: Option<String>,
    dialog_id: Option<Seq<char>>,
)
    requires
        s.is_ringing_response(p, plan, answer, built, dialog_id),
    ensures
        p.status == 183 <==> plan.early_media,
        p.status == 180 <==> !plan.early_media,
        !plan.passthrough ==> p.body is None,
        plan.passthrough && plan.codecs is Some ==> p.body == built,
        plan.passthrough && plan.codecs is None ==> p.body == Some(answer),
        p.start_bridge ==> s.bridge_runtime.media_bridge is None,
        !plan.play_local || !s.use_media_proxy ==> p.ringback is None,
        p.ringback matches Some(b) ==> s.context.dialplan.ringback.audio_file == Some(b.audio_file)
            && b.loop_playback == s.context.dialplan.ringback.loop_playback && (b.suppressed_track is Some
            <==> plan.early_media),
{
}

/// Answering without the proxy passes the callee's answer to the caller and bridges
/// nothing; with the proxy the caller keeps the answer it had, and the legs are bridged
/// and the bridge is going. The audio that the caller negotiated is not changed.
pub proof fn answer_reaches_the_caller(
    before: CallSession,
    after: CallSession,
    first_answer: bool,
    callee_answer: Option<String>,
    r: AcceptMedia,
)
    requires
        before.media_connected(after, first_answer, callee_answer, r),
    ensures
        r.proxied <==> before.use_media_proxy,
        !before.use_media_proxy && callee_answer is Some ==> after.exported_leg.media.answer_sdp
            == callee_answer && after.shared.inner.answer_sdp == callee_answer,
        before.use_media_proxy ==> after.exported_leg.media.answer_sdp
            == before.exported_leg.media.answer_sdp,
        before.use_media_proxy && callee_answer is Some ==> (after.bridge_runtime.media_bridge matches Some(
            b,
        ) && b.started) && (after.target_leg matches Some(l) && opt_text(l.media.answer_sdp) == Some(
            callee_answer->0@,
        )),
        !before.use_media_proxy ==> after.bridge_runtime == before.bridge_runtime && after.target_leg
            == before.target_leg && !r.start_bridge,
        r.stop_bridge <==> !before.use_media_proxy && before.bridge_runtime.media_bridge is Some,
        before.exported_leg.media.negotiated_audio is Some ==> after.exported_leg.media.negotiated_audio
            == before.exported_leg.media.negotiated_audio,
        !first_answer ==> after.exported_leg.media.negotiated_audio
            == before.exported_leg.media.negotiated_audio,
{
}

/// While the callee is alerted the caller hears what the mode of the plan says; the
/// proxy carries early media, and sets up a track for it, only where it carries the media
/// of the call.
pub proof fn alert_is_planned_by_the_mode(
    before: CallSession,
    after: CallSession,
    answer: Seq<char>,
    has_dialog: bool,
    now: u64,
    r: Option<RingingPlan>,
)
    requires
        before.rings(after, answer, has_dialog, now, r),
    ensures
        before.answer_time is Some ==> r is None,
        r is None ==> after == before,
        before.answer_time is None && has_dialog ==> r is Some,
        r matches Some(p) ==> {
            let mode = before.context.dialplan.ringback.mode;
            &&& p.early_media <==> answer.len() > 0
            &&& p.play_local <==> mode is Local || mode is Auto && answer.len() == 0
            &&& p.passthrough <==> answer.len() > 0 && (mode is Auto || mode is Passthrough)
            &&& p.setup_track <==> p.passthrough && before.use_media_proxy
            &&& p.codecs is Some <==> answer.len() > 0 && before.use_media_proxy
            &&& after.ring_time is Some
            &&& answer.len() > 0 ==> after.exported_leg.media.early_media_sent
        },
{
}

/// The first answer sets the time of the answer, later ones do not. The callee that is
/// connected is the routed one, where routing named one, else the one that answered.
pub proof fn first_answer_sets_the_time(
    before: CallSession,
    after: CallSession,
    callee: Option<String>,
    callee_answer: Option<String>,
    dialog_id: Option<Seq<char>>,
    now: u64,
    r: AcceptPlan,
)
    requires
        before.accepts(after, callee, callee_answer, dialog_id, now, r),
    ensures
        r.first_answer <==> before.answer_time is None,
        before.answer_time is None ==> after.answer_time == Some(now),
        before.answer_time is Some ==> after.answer_time == before.answer_time && r.optimized is None,
        callee is Some && before.routed_callee is Some ==> after.connected_callee
            == before.routed_callee,
        callee is Some && before.routed_callee is None ==> after.connected_callee == callee,
        callee is None ==> after.connected_callee == before.connected_callee,
        before.exported_leg.media.early_media_sent ==> r.optimized is None,
        after.exported_leg == before.exported_leg && after.shared == before.shared,
{
}

} // verus!
