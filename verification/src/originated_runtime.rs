//! Calls that the proxy originates: one outbound leg without an inbound dialog.
//! Moments are in milliseconds.
use vstd::prelude::*;
use crate::call_leg::{CallLeg, LegRole, is_fresh_leg};
use crate::media_endpoint::{MediaConfig, MediaEndpoint, audio_view, best_audio};
use crate::model::{
    CallRecordHangupReason, DialDirection, DialStrategy, Dialplan, DialplanFlow, MediaProxyMode,
    RecordingConfig, RingbackConfig,
};
use crate::negotiate::{CodecType, MediaText, SdpMedia, parse_media, parsed_media, sdp_codecs};
use crate::sdp_direction::MediaDirection;
use crate::session::{
    CallSession, OriginatedSessionEvent, ReInviteOutcome, is_new_session, is_registered,
};
use crate::session_loop_runtime::body_text;
use crate::sip::{Method, Uri, is_success, is_successful, parse_uri, parsed_uri};
use crate::sip_leg::{CallLegDirection, DialogId, SipLeg, dialog_added};
use crate::state::{
    CallContext, CallSessionShared, ControlSurface, MidDialogLeg, ProxyCallPhase, SessionKind,
};
use crate::text::{opt_text, own, own_opt};

verus! {

/// What the INVITE of an originated call came to.
#[derive(Debug)]
pub enum OriginatedResult {
    Answered { dialog_id: DialogId, body: String },
    /// Another final response, or none.
    Refused { code: Option<u16> },
    Error(String),
}

/// What happens while an originated call is dialed.
#[derive(Debug)]
pub enum OriginatedEvent {
    Timeout,
    Calling,
    Early,
    Terminated,
    /// A request that renegotiates the session came within the dialog.
    Updated { dialog_id: DialogId, method: Method, body: String, handle: u64 },
    /// A state of the dialog that nothing follows from.
    Other,
    Closed,
    InviteDone(OriginatedResult),
    Cancelled,
}

/// Why an originated call ended before it was answered.
#[derive(Clone, Copy, Debug, PartialEq, Eq, Structural)]
pub enum OriginateError {
    Timeout,
    Refused,
    Failed,
}

/// How the dialing goes on.
#[derive(Debug)]
pub enum OriginatedNext {
    Continue,
    /// The renegotiation that the callee asked for is answered.
    Renegotiated(ReInviteOutcome),
    /// The dialing is over; `cancel` says whether the session is cancelled.
    Done { cancel: bool },
    /// The connected dialog is hung up, where there is one, and the dialing is over.
    HangUp(bool),
    /// The session is cancelled, and the call has failed.
    Failed(OriginateError),
}

/// What follows from an event: what is reported, and how the dialing goes on.
#[derive(Debug)]
pub struct OriginatedStep {
    pub report: Option<OriginatedSessionEvent>,
    pub next: OriginatedNext,
}

/// The dialing of an originated call.
#[derive(Clone, Copy, Debug)]
pub struct OriginatedDial {
    pub invite_completed: bool,
    /// Whether the call was answered, so that there is a dialog to hang up.
    pub connected: bool,
}

/// Whether a report says that the call failed, with this text and code.
pub open spec fn is_failed_report(
    report: Option<OriginatedSessionEvent>,
    reason: Seq<char>,
    sip_status: Option<u16>,
) -> bool {
    report matches Some(OriginatedSessionEvent::Failed { reason: r, sip_status: s }) && r@ == reason
        && s == sip_status
}

impl CallSession {
    /// The session after a failure whose reason of the end is `reason`.
    pub open spec fn failed_for(
        self,
        after: CallSession,
        code: u16,
        text: Seq<char>,
        reason: CallRecordHangupReason,
    ) -> bool {
        &&& opt_text(after.error_text()) == Some(text)
        &&& after.hangup_reason == Some(reason)
        &&& self.failed(
            (CallSession { hangup_reason: Some(CallRecordHangupReason::Failed), ..after }),
            code,
            after.error_text(),
            None,
        )
    }

    /// The session once the callee of an originated call is alerted.
    pub open spec fn originated_ringing(self, after: CallSession, early_media: bool, now: u64) -> bool {
        &&& if self.shared.inner.can_ring() {
            self.shared.becomes(self.shared.inner.ringing(early_media, now), after.shared)
        } else {
            after.shared == self.shared
        }
        &&& after == (CallSession {
            shared: after.shared,
            ring_time: if early_media && self.ring_time is Some {
                self.ring_time
            } else {
                Some(now)
            },
            ..self
        })
    }

    /// The session once the answer of a callee is noted in both legs.
    pub open spec fn has_remote_audio(self, after: CallSession, body: String) -> bool {
        let media = after.exported_leg.media;
        &&& audio_view(media.negotiated_audio) == best_audio(
            sdp_codecs(body@),
            self.context.dialplan.allow_codecs@,
        )
        &&& after == (CallSession {
            target_leg: Some(
                CallLeg {
                    media: MediaEndpoint {
                        answer_sdp: Some(body),
                        ..self.target_leg->0.media
                    },
                    ..self.target_leg->0
                },
            ),
            exported_leg: CallLeg {
                media: MediaEndpoint {
                    answer_sdp: Some(body),
                    negotiated_audio: media.negotiated_audio,
                    ..self.exported_leg.media
                },
                ..self.exported_leg
            },
            ..self
        })
    }

    /// The session once the media of its exported leg is published.
    pub open spec fn has_published(self, after: CallSession) -> bool {
        &&& self.is_published_media(after.shared.surface.media)
        &&& after == (CallSession {
            shared: CallSessionShared {
                surface: ControlSurface {
                    media: after.shared.surface.media,
                    ..self.shared.surface
                },
                ..self.shared
            },
            ..self
        })
    }

    /// Notes the answer of a callee in both legs.
    fn store_remote_audio(&mut self, body: String)
        requires
            old(self).target_leg is Some,
        ensures
            old(self).has_remote_audio(*final(self), body),
    {
        let negotiated = MediaEndpoint::select_best_audio_from_sdp(
            body.as_str(),
            self.context.dialplan.allow_codecs.as_slice(),
        );
        if let Some(leg) = self.target_leg.take() {
            let mut leg = leg;
            leg.media.answer_sdp = Some(body.clone());
            self.target_leg = Some(leg);
        }
        self.exported_leg.media.answer_sdp = Some(body);
        self.exported_leg.media.select_or_store_negotiated_audio(negotiated);
    }

    /// The session once an originated call is answered: the dialog is connected and
    /// entered into the registry of active calls, the answer is kept for both legs, and
    /// the call is bridged for its observers.
    pub open spec fn originated_answered(
        self,
        after: CallSession,
        dialog_id: DialogId,
        body: String,
        now: u64,
    ) -> bool {
        exists|noted: CallSession, published: CallSession| #[trigger]
            self.answered_through(noted, published, after, dialog_id, body, now)
    }

    /// Whether an answer leads from `self` to `after`: first the answer is noted, then
    /// the media is published, and at last the call is answered for its observers.
    pub open spec fn answered_through(
        self,
        noted: CallSession,
        published: CallSession,
        after: CallSession,
        dialog_id: DialogId,
        body: String,
        now: u64,
    ) -> bool {
        let opened = (CallSession {
            shared: noted.shared,
            ..self.connected_on(noted.target_leg->0.sip, dialog_id, now)
        });
        &&& noted.target_leg->0.sip.active() == dialog_added(
            self.target_leg->0.sip.active(),
            dialog_id@,
        )
        &&& self.registers(noted.shared, dialog_id@.text())
        &&& if body@.len() > 0 {
            opened.has_remote_audio(noted, body)
        } else {
            noted == opened
        }
        &&& noted.has_published(published)
        &&& published.shared.becomes(published.shared.inner.answered(now), after.shared)
        &&& after == (CallSession { shared: after.shared, ..published })
    }

    /// The session with a connected dialog to the target, whose leg has `sip` for its
    /// open dialogs.
    pub open spec fn connected_on(self, sip: SipLeg, dialog_id: DialogId, now: u64) -> CallSession {
        CallSession {
            answer_time: Some(now),
            connected_callee: Some(self.context.original_callee),
            target_leg: Some(
                CallLeg {
                    sip: SipLeg {
                        active_dialog_ids: sip.active_dialog_ids,
                        connected_dialog_id: Some(dialog_id),
                        ..self.target_leg->0.sip
                    },
                    ..self.target_leg->0
                },
            ),
            ..self
        }
    }

    fn note_originated_answer(&mut self, dialog_id: DialogId, body: String, now: u64)
        requires
            old(self).target_leg is Some,
        ensures
            old(self).originated_answered(*final(self), dialog_id, body, now),
            final(self).target_leg is Some,
            final(self).shared.pending == old(self).shared.pending,
    {
        let ghost start = *self;
        self.answer_time = Some(now);
        self.connected_callee = Some(self.context.original_callee.clone());
        if let Some(leg) = self.target_leg.take() {
            let mut leg = leg;
            self.register_dialog(&dialog_id);
            leg.sip.open_dialog(dialog_id.copy());
            leg.sip.set_connected_dialog(dialog_id);
            self.target_leg = Some(leg);
        }
        let ghost opened = *self;
        if !body.as_str().is_empty() {
            self.store_remote_audio(body);
        }
        assert(opened == (CallSession {
            shared: opened.shared,
            ..start.connected_on(opened.target_leg->0.sip, dialog_id, now)
        }));
        let ghost noted = *self;
        self.publish_exported_leg_media();
        let ghost published = *self;
        assert(noted.has_published(published));
        self.shared.transition_to_answered(now);
        assert(start.answered_through(noted, published, *self, dialog_id, body, now));
    }
}

impl CallSession {
    /// The session once the handle to answer a request of the callee with is kept.
    pub open spec fn reply_kept(self, after: CallSession, dialog_id: Seq<char>, handle: u64) -> bool {
        &&& after.shared.well_formed()
        &&& after.shared.replies() == self.shared.replies().insert(
            MidDialogLeg::Callee.key_text(dialog_id),
            handle,
        )
        &&& after.shared.inner == self.shared.inner
        &&& after.shared.entry == self.shared.entry
        &&& after.shared.log() == self.shared.log()
        &&& after.shared.surface == self.shared.surface
        &&& after == (CallSession { shared: after.shared, ..self })
    }

    /// What a renegotiation that the callee asks for leads to.
    pub open spec fn renegotiates(
        self,
        after: CallSession,
        dialog_id: Seq<char>,
        method: Method,
        body: String,
        handle: u64,
        outcome: ReInviteOutcome,
    ) -> bool {
        exists|stored: CallSession|
            {
                &&& #[trigger] self.reply_kept(stored, dialog_id, handle)
                &&& stored.with_known_answer().callee_reinvited(
                    after,
                    method,
                    dialog_id,
                    body_text(body),
                    outcome,
                )
            }
    }
}

/// A renegotiation that the callee of an originated call asks for is answered at once,
/// and with 488 exactly where its offer does not fit.
pub proof fn renegotiation_is_answered(
    s: CallSession,
    after: CallSession,
    dialog_id: Seq<char>,
    method: Method,
    body: String,
    handle: u64,
    outcome: ReInviteOutcome,
)
    requires
        s.target_leg is Some,
        s.renegotiates(after, dialog_id, method, body, handle, outcome),
    ensures
        outcome.reply matches Some(reply) && reply.handle == handle && reply.status == (
        if body@.len() > 0 && !s.with_known_answer().callee_offer_fits(body@) {
            488u16
        } else {
            200u16
        }),
        !after.shared.replies().dom().contains(MidDialogLeg::Callee.key_text(dialog_id)),
{
}

impl OriginatedDial {
    /// Begins to dial: the call enters the dialing phase, and gets a leg to the
    /// target whose offer is that of the INVITE.
    pub fn begin(session: &mut CallSession, offer: Option<String>, now: u64) -> (r: OriginatedDial)
        ensures
            !r.invite_completed && !r.connected,
            final(session).target_leg is Some,
            is_fresh_leg(
                final(session).target_leg->0,
                old(session).context.session_id,
                LegRole::Callee,
                CallLegDirection::Outbound,
                offer,
                None,
                now,
            ),
            if old(session).shared.inner.phase.successors().contains(ProxyCallPhase::Dialing) {
                old(session).shared.becomes(
                    old(session).shared.inner.in_phase(ProxyCallPhase::Dialing),
                    final(session).shared,
                )
            } else {
                final(session).shared == old(session).shared
            },
            *final(session) == (CallSession {
                target_leg: final(session).target_leg,
                shared: final(session).shared,
                ..*old(session)
            }),
    {
        let _moved = session.shared.transition_to_dialing();
        let id = session.context.session_id.clone();
        session.target_leg = Some(
            CallLeg::new(id, LegRole::Callee, CallLegDirection::Outbound, offer, now),
        );
        OriginatedDial { invite_completed: false, connected: false }
    }

    /// Whether an event can come now: the INVITE ends once, and its timeout counts
    /// only until then.
    pub open spec fn expects(self, event: OriginatedEvent) -> bool {
        event is Timeout || event is InviteDone ==> !self.invite_completed
    }

    /// What an event leads to, and what becomes of the dialing and the session.
    pub open spec fn handles(
        self,
        session: CallSession,
        event: OriginatedEvent,
        now: u64,
        step: OriginatedStep,
        after: OriginatedDial,
        session_after: CallSession,
    ) -> bool {
        match event {
            OriginatedEvent::Timeout => {
                &&& session.failed_for(
                    session_after,
                    408,
                    "No answer"@,
                    CallRecordHangupReason::NoAnswer,
                )
                &&& is_failed_report(step.report, "no_answer"@, Some(408))
                &&& step.next == OriginatedNext::Failed(OriginateError::Timeout)
                &&& after == self
            },
            OriginatedEvent::Calling => {
                &&& session.originated_ringing(session_after, false, now)
                &&& step.report == Some(OriginatedSessionEvent::Ringing)
                &&& step.next == OriginatedNext::Continue
                &&& after == self
            },
            OriginatedEvent::Early => {
                &&& session.originated_ringing(session_after, true, now)
                &&& step.report == Some(OriginatedSessionEvent::EarlyMedia)
                &&& step.next == OriginatedNext::Continue
                &&& after == self
            },
            OriginatedEvent::Terminated => {
                &&& session_after == (CallSession {
                    hangup_reason: Some(
                        if session.answer_time is Some {
                            CallRecordHangupReason::ByCallee
                        } else {
                            CallRecordHangupReason::Failed
                        },
                    ),
                    ..session
                })
                &&& if session.answer_time is Some {
                    step.report matches Some(OriginatedSessionEvent::Hangup { reason }) && reason@
                        == "terminated"@
                } else {
                    is_failed_report(step.report, "terminated"@, None)
                }
                &&& step.next == (OriginatedNext::Done { cancel: true })
                &&& after == self
            },
            OriginatedEvent::Updated { dialog_id, method, body, handle } => {
                &&& step.report is None
                &&& after == self
                &&& if method is Invite || method is Update {
                    step.next is Renegotiated && session.renegotiates(
                        session_after,
                        dialog_id@.text(),
                        method,
                        body,
                        handle,
                        step.next->Renegotiated_0,
                    )
                } else {
                    step.next == OriginatedNext::Continue && session_after == session
                }
            },
            OriginatedEvent::Other => {
                &&& step.report is None
                &&& step.next == OriginatedNext::Continue
                &&& after == self
                &&& session_after == session
            },
            OriginatedEvent::Closed => {
                &&& step.report is None
                &&& step.next == (OriginatedNext::Done { cancel: false })
                &&& after == self
                &&& session_after == session
            },
            OriginatedEvent::InviteDone(result) => {
                &&& after == (OriginatedDial {
                    invite_completed: true,
                    connected: self.connected || result is Answered,
                })
                &&& match result {
                    OriginatedResult::Answered { dialog_id, body } => {
                        &&& session.originated_answered(session_after, dialog_id, body, now)
                        &&& step.report == Some(OriginatedSessionEvent::Answered)
                        &&& step.next == OriginatedNext::Continue
                    },
                    OriginatedResult::Refused { code } => {
                        &&& session.failed_for(
                            session_after,
                            match code {
                                Some(c) => c,
                                None => 500u16,
                            },
                            "Originate failed"@,
                            CallRecordHangupReason::Failed,
                        )
                        &&& if code == Some(486u16) || code == Some(600u16) {
                            step.report == Some(OriginatedSessionEvent::Busy)
                        } else {
                            is_failed_report(step.report, "originate_failed"@, code)
                        }
                        &&& step.next == OriginatedNext::Failed(OriginateError::Refused)
                    },
                    OriginatedResult::Error(text) => {
                        &&& session.failed_for(
                            session_after,
                            500,
                            text@,
                            CallRecordHangupReason::Failed,
                        )
                        &&& is_failed_report(step.report, text@, None)
                        &&& step.next == OriginatedNext::Failed(OriginateError::Failed)
                    },
                }
            },
            OriginatedEvent::Cancelled => {
                &&& step.report is None
                &&& step.next == OriginatedNext::HangUp(self.connected)
                &&& after == self
                &&& session_after == (CallSession {
                    hangup_reason: match session.hangup_reason {
                        Some(h) => Some(h),
                        None => Some(CallRecordHangupReason::Canceled),
                    },
                    ..session
                })
            },
        }
    }

    fn on_update(
        session: &mut CallSession,
        dialog_id: DialogId,
        method: Method,
        body: String,
        handle: u64,
    ) -> (r: OriginatedNext)
        requires
            old(session).target_leg is Some,
            old(session).shared.well_formed(),
        ensures
            final(session).target_leg is Some,
            final(session).shared.well_formed(),
            if method is Invite || method is Update {
                r is Renegotiated && old(session).renegotiates(
                    *final(session),
                    dialog_id@.text(),
                    method,
                    body,
                    handle,
                    r->Renegotiated_0,
                )
            } else {
                r == OriginatedNext::Continue && *final(session) == *old(session)
            },
    {
        if method != Method::Invite && method != Method::Update {
            return OriginatedNext::Continue;
        }
        let ghost start = *session;
        let id = dialog_id.to_text();
        session.shared.store_mid_dialog_reply(MidDialogLeg::Callee, id.as_str(), handle);
        let sdp = if body.as_str().is_empty() {
            None
        } else {
            Some(body)
        };
        let ghost stored = *session;
        session.recall_answer();
        let outcome = session.handle_callee_reinvite(method, id.as_str(), sdp);
        assert(start.reply_kept(stored, dialog_id@.text(), handle));
        OriginatedNext::Renegotiated(outcome)
    }

    fn on_result(&mut self, session: &mut CallSession, result: OriginatedResult, now: u64) -> (r:
        OriginatedStep)
        requires
            old(session).target_leg is Some,
            old(session).shared.well_formed(),
            !old(self).invite_completed,
        ensures
            old(self).handles(
                *old(session),
                OriginatedEvent::InviteDone(result),
                now,
                r,
                *final(self),
                *final(session),
            ),
            final(session).shared.well_formed(),
            final(session).target_leg is Some,
    {
        self.invite_completed = true;
        match result {
            OriginatedResult::Answered { dialog_id, body } => {
                session.note_originated_answer(dialog_id, body, now);
                self.connected = true;
                OriginatedStep {
                    report: Some(OriginatedSessionEvent::Answered),
                    next: OriginatedNext::Continue,
                }
            },
            OriginatedResult::Refused { code } => {
                let report = match code {
                    Some(486) | Some(600) => OriginatedSessionEvent::Busy,
                    _ => OriginatedSessionEvent::Failed {
                        reason: own("originate_failed"),
                        sip_status: code,
                    },
                };
                let status: u16 = match code {
                    Some(c) => c,
                    None => 500,
                };
                session.set_error(status, Some(own("Originate failed")), None);
                OriginatedStep {
                    report: Some(report),
                    next: OriginatedNext::Failed(OriginateError::Refused),
                }
            },
            OriginatedResult::Error(text) => {
                let report = OriginatedSessionEvent::Failed {
                    reason: text.clone(),
                    sip_status: None,
                };
                session.set_error(500, Some(text), None);
                OriginatedStep {
                    report: Some(report),
                    next: OriginatedNext::Failed(OriginateError::Failed),
                }
            },
        }
    }

    /// Handles an event of the dialing.
    pub fn on_event(&mut self, session: &mut CallSession, event: OriginatedEvent, now: u64) -> (r:
        OriginatedStep)
        requires
            old(self).expects(event),
            old(session).target_leg is Some,
            old(session).shared.well_formed(),
        ensures
            old(self).handles(*old(session), event, now, r, *final(self), *final(session)),
            final(session).shared.well_formed(),
            final(session).target_leg is Some,
    {
        match event {
            OriginatedEvent::Timeout => {
                session.set_error(408, Some(own("No answer")), None);
                let ghost failed = *session;
                session.hangup_reason = Some(CallRecordHangupReason::NoAnswer);
                assert(CallSession { hangup_reason: failed.hangup_reason, ..*session } == failed);
                OriginatedStep {
                    report: Some(
                        OriginatedSessionEvent::Failed {
                            reason: own("no_answer"),
                            sip_status: Some(408),
                        },
                    ),
                    next: OriginatedNext::Failed(OriginateError::Timeout),
                }
            },
            OriginatedEvent::Calling => {
                let _moved = session.shared.transition_to_ringing(false, now);
                session.ring_time = Some(now);
                OriginatedStep {
                    report: Some(OriginatedSessionEvent::Ringing),
                    next: OriginatedNext::Continue,
                }
            },
            OriginatedEvent::Early => {
                let _moved = session.shared.transition_to_ringing(true, now);
                if session.ring_time.is_none() {
                    session.ring_time = Some(now);
                }
                OriginatedStep {
                    report: Some(OriginatedSessionEvent::EarlyMedia),
                    next: OriginatedNext::Continue,
                }
            },
            OriginatedEvent::Terminated => {
                let report = if session.answer_time.is_some() {
                    session.hangup_reason = Some(CallRecordHangupReason::ByCallee);
                    OriginatedSessionEvent::Hangup { reason: own("terminated") }
                } else {
                    session.hangup_reason = Some(CallRecordHangupReason::Failed);
                    OriginatedSessionEvent::Failed { reason: own("terminated"), sip_status: None }
                };
                OriginatedStep {
                    report: Some(report),
                    next: OriginatedNext::Done { cancel: true },
                }
            },
            OriginatedEvent::Updated { dialog_id, method, body, handle } => OriginatedStep {
                report: None,
                next: Self::on_update(session, dialog_id, method, body, handle),
            },
            OriginatedEvent::Other => OriginatedStep {
                report: None,
                next: OriginatedNext::Continue,
            },
            OriginatedEvent::Closed => OriginatedStep {
                report: None,
                next: OriginatedNext::Done { cancel: false },
            },
            OriginatedEvent::InviteDone(result) => self.on_result(session, result, now),
            OriginatedEvent::Cancelled => {
                if session.hangup_reason.is_none() {
                    session.hangup_reason = Some(CallRecordHangupReason::Canceled);
                }
                OriginatedStep { report: None, next: OriginatedNext::HangUp(self.connected) }
            },
        }
    }
}

/// An originated call that fails is reported so, with the reason of its end noted.
pub proof fn failed_origination_is_reported(
    dial: OriginatedDial,
    session: CallSession,
    event: OriginatedEvent,
    now: u64,
    step: OriginatedStep,
    after: OriginatedDial,
    session_after: CallSession,
)
    requires
        dial.handles(session, event, now, step, after, session_after),
        step.next is Failed,
    ensures
        step.report is Some,
        step.report->0 is Failed || step.report->0 is Busy,
        session_after.last_error is Some,
        session_after.hangup_reason is Some,
        !(step.report->0 is Answered),
{
}

/// Why a held, resumed or transferred call could not be told so.
#[derive(Clone, Copy, Debug, PartialEq, Eq, Structural)]
pub enum CalleeRequestError {
    InvalidTarget,
    NoConnectedDialog,
    NoLocalDescription,
    Rejected(u16),
    NoResponse,
}

/// What `rustrtc` writes for a description whose sections at `sections` are given the
/// direction `d`.
pub uninterp spec fn redirected_sdp(sdp: Seq<char>, sections: Seq<usize>, d: MediaDirection) -> Seq<char>;

/// `rustrtc::SessionDescription::parse` and `to_sdp_string`: the description with
/// another direction for the sections at `sections`. The description has to be one
/// that can be read.
#[verifier::external_body]
fn redirect_sections(sdp: &str, sections: &Vec<usize>, d: MediaDirection) -> (r: String)
    requires
        parsed_media(sdp@) is Some,
        forall|i: int| 0 <= i < sections.len() ==> (#[trigger] sections@[i]) < parsed_media(sdp@)->0.len(),
    ensures
        r@ == redirected_sdp(sdp@, sections@, d),
{
    let parsed = rustrtc::SessionDescription::parse(rustrtc::SdpType::Offer, sdp);
    let mut desc = parsed.expect("a description that can be read");
    for i in sections {
        desc.media_sections[*i].direction = match d {
            MediaDirection::SendRecv => rustrtc::Direction::SendRecv,
            MediaDirection::SendOnly => rustrtc::Direction::SendOnly,
            MediaDirection::RecvOnly => rustrtc::Direction::RecvOnly,
            MediaDirection::Inactive => rustrtc::Direction::Inactive,
        };
    }
    desc.to_sdp_string()
}

/// The positions of the audio sections among the first `n` of a description.
pub open spec fn audio_positions(media: Seq<MediaText>, n: int) -> Seq<usize>
    decreases n,
{
    if n <= 0 {
        Seq::empty()
    } else if media[n - 1].0 {
        audio_positions(media, n - 1).push((n - 1) as usize)
    } else {
        audio_positions(media, n - 1)
    }
}

/// The positions of the audio sections of a description.
pub fn audio_sections(media: &Vec<SdpMedia>) -> (r: Vec<usize>)
    ensures
        ({
            let all = Seq::new(media@.len(), |i: int| media@[i].text());
            r@ == audio_positions(all, all.len() as int)
        }),
        forall|i: int| 0 <= i < r.len() ==> (#[trigger] r@[i]) < media.len(),
{
    let ghost all = Seq::new(media@.len(), |i: int| media@[i].text());
    let mut out: Vec<usize> = Vec::new();
    let mut i: usize = 0;
    while i < media.len()
        invariant
            i <= media.len(),
            all == Seq::new(media@.len(), |i: int| media@[i].text()),
            out@ == audio_positions(all, i as int),
            forall|k: int| 0 <= k < out.len() ==> (#[trigger] out@[k]) < media.len(),
        decreases media.len() - i,
    {
        assert(all[i as int].0 == media@[i as int].is_audio);
        if media[i].is_audio {
            out.push(i);
        }
        i += 1;
    }
    out
}

/// The local description with its audio in direction `direction`; `None` where it
/// cannot be read.
pub fn build_local_offer_with_direction(offer: &str, direction: MediaDirection) -> (r: Option<String>)
    ensures
        opt_text(r) == (match parsed_media(offer@) {
            Some(media) => Some(
                redirected_sdp(offer@, audio_positions(media, media.len() as int), direction),
            ),
            None => None,
        }),
{
    match parse_media(offer) {
        Some(media) => {
            let sections = audio_sections(&media);
            Some(redirect_sections(offer, &sections, direction))
        },
        None => None,
    }
}

impl CallSession {
    /// The dialog through which the callee is asked to hold, resume or transfer.
    pub fn connected_callee_dialog(&self) -> (r: Result<DialogId, CalleeRequestError>)
        requires
            self.target_leg is Some,
        ensures
            r == (match self.target_leg->0.sip.connected_dialog_id {
                Some(d) => Ok::<DialogId, CalleeRequestError>(d),
                None => Err(CalleeRequestError::NoConnectedDialog),
            }),
    {
        match &self.target_leg {
            Some(leg) => match &leg.sip.connected_dialog_id {
                Some(d) => Ok(d.copy()),
                None => Err(CalleeRequestError::NoConnectedDialog),
            },
            None => Err(CalleeRequestError::NoConnectedDialog),
        }
    }

    /// Begins to hold the callee, or to resume it: its new offer is the local
    /// description with the audio only sent, or both ways. Returns the dialog and the
    /// offer.
    pub fn begin_hold(&mut self, local_description: Option<String>, hold: bool) -> (r: Result<
        (DialogId, String),
        CalleeRequestError,
    >)
        requires
            old(self).target_leg is Some,
        ensures
            ({
                let d = if hold {
                    MediaDirection::SendOnly
                } else {
                    MediaDirection::SendRecv
                };
                match old(self).target_leg->0.sip.connected_dialog_id {
                    None => r == Err::<(DialogId, String), CalleeRequestError>(
                        CalleeRequestError::NoConnectedDialog,
                    ) && *final(self) == *old(self),
                    Some(dialog) => if local_description is Some && parsed_media(
                        local_description->0@,
                    ) is Some {
                        let media = parsed_media(local_description->0@)->0;
                        &&& r matches Ok((id, offer))
                        &&& id == dialog
                        &&& offer@ == redirected_sdp(
                            local_description->0@,
                            audio_positions(media, media.len() as int),
                            d,
                        )
                        &&& *final(self) == (CallSession {
                            exported_leg: CallLeg {
                                media: MediaEndpoint {
                                    offer_sdp: Some(offer),
                                    ..old(self).exported_leg.media
                                },
                                ..old(self).exported_leg
                            },
                            ..*old(self)
                        })
                    } else {
                        r == Err::<(DialogId, String), CalleeRequestError>(
                            CalleeRequestError::NoLocalDescription,
                        ) && *final(self) == *old(self)
                    },
                }
            }),
    {
        let dialog = match self.connected_callee_dialog() {
            Ok(d) => d,
            Err(e) => return Err(e),
        };
        let direction = if hold {
            MediaDirection::SendOnly
        } else {
            MediaDirection::SendRecv
        };
        let offer = match &local_description {
            Some(s) => build_local_offer_with_direction(s.as_str(), direction),
            None => None,
        };
        match offer {
            Some(o) => {
                self.exported_leg.media.offer_sdp = Some(o.clone());
                Ok((dialog, o))
            },
            None => Err(CalleeRequestError::NoLocalDescription),
        }
    }

    /// Notes the callee's answer to being held or resumed, where the response brought
    /// one, and publishes the media of the call.
    pub fn finish_hold(&mut self, body: Option<String>)
        requires
            old(self).target_leg is Some,
        ensures
            exists|noted: CallSession|
                (if body is Some && body->0@.len() > 0 {
                    old(self).has_remote_audio(noted, body->0)
                } else {
                    noted == *old(self)
                }) && #[trigger] noted.has_published(*final(self)),
    {
        if let Some(answer) = body {
            if !answer.as_str().is_empty() {
                self.store_remote_audio(answer);
            }
        }
        let ghost noted = *self;
        self.publish_exported_leg_media();
        assert(noted.has_published(*self));
    }

    /// Begins to transfer the callee: the dialog on which it is told, and the target.
    pub fn begin_refer(&self, target: &str) -> (r: Result<(DialogId, Uri), CalleeRequestError>)
        requires
            parsed_uri(target@) is Some ==> self.target_leg is Some,
        ensures
            match (parsed_uri(target@), self.target_leg->0.sip.connected_dialog_id) {
                (None, _) => r == Err::<(DialogId, Uri), CalleeRequestError>(
                    CalleeRequestError::InvalidTarget,
                ),
                (Some(_), None) => r == Err::<(DialogId, Uri), CalleeRequestError>(
                    CalleeRequestError::NoConnectedDialog,
                ),
                (Some(u), Some(d)) => r is Ok && r->Ok_0.0 == d && r->Ok_0.1@ == u,
            },
    {
        let uri = match parse_uri(target) {
            Some(u) => u,
            None => return Err(CalleeRequestError::InvalidTarget),
        };
        match self.connected_callee_dialog() {
            Ok(d) => Ok((d, uri)),
            Err(e) => Err(e),
        }
    }

    /// Begins to transfer the callee, see [`CallSession::begin_refer`]; `None` where the
    /// target can be read and the call has no leg to a callee.
    pub fn try_begin_refer(&self, target: &str) -> (r: Option<
        Result<(DialogId, Uri), CalleeRequestError>,
    >)
        ensures
            r is None == (parsed_uri(target@) is Some && self.target_leg is None),
            r matches Some(o) ==> match (
                parsed_uri(target@),
                self.target_leg->0.sip.connected_dialog_id,
            ) {
                (None, _) => o == Err::<(DialogId, Uri), CalleeRequestError>(
                    CalleeRequestError::InvalidTarget,
                ),
                (Some(_), None) => o == Err::<(DialogId, Uri), CalleeRequestError>(
                    CalleeRequestError::NoConnectedDialog,
                ),
                (Some(u), Some(d)) => o is Ok && o->Ok_0.0 == d && o->Ok_0.1@ == u,
            },
    {
        if self.target_leg.is_none() && parse_uri(target).is_some() {
            return None;
        }
        Some(self.begin_refer(target))
    }
}

/// Whether the callee took a transfer. `code` is the code of the response, where
/// one came.
pub fn finish_refer(code: Option<u16>) -> (r: Result<(), CalleeRequestError>)
    ensures
        r == (match code {
            Some(c) => if is_success(c) {
                Ok::<(), CalleeRequestError>(())
            } else {
                Err(CalleeRequestError::Rejected(c))
            },
            None => Err(CalleeRequestError::NoResponse),
        }),
{
    match code {
        Some(c) => if is_successful(c) {
            Ok(())
        } else {
            Err(CalleeRequestError::Rejected(c))
        },
        None => Err(CalleeRequestError::NoResponse),
    }
}

/// The music that a held callee hears.
pub fn hold_music_file(music_source: Option<String>) -> (r: Option<String>)
    ensures
        r == (if music_source is Some && music_source->0@.len() > 0 {
            music_source
        } else {
            None
        }),
{
    match music_source {
        Some(f) => if f.as_str().is_empty() {
            None
        } else {
            Some(f)
        },
        None => None,
    }
}

/// What an originated call is made from.
#[derive(Debug)]
pub struct OriginateRequest {
    pub call_id: String,
    pub callee: Uri,
    pub offer: Option<String>,
    pub timeout_secs: u64,
    pub caller_display: Option<String>,
    pub callee_display: Option<String>,
}

/// The address that stands for the caller of an originated call.
pub open spec fn originator_text(caller_display: Option<String>) -> Seq<char> {
    match caller_display {
        Some(c) => c@,
        None => "sip:rwi@local"@,
    }
}

/// The codecs of an originated call.
pub open spec fn originated_codecs() -> Seq<CodecType> {
    seq![
        CodecType::G729,
        CodecType::G722,
        CodecType::PCMU,
        CodecType::PCMA,
        CodecType::Opus,
        CodecType::TelephoneEvent,
    ]
}

/// The plan of an originated call: one hour at most, no forwarding and no
/// recording, and nothing to ring but the target of the request.
pub open spec fn is_originated_plan(plan: Dialplan, request: OriginateRequest) -> bool {
    &&& plan.direction is Outbound
    &&& plan.session_id == Some(request.call_id)
    &&& plan.call_id == Some(request.call_id)
    &&& plan.caller_display_name == request.caller_display
    &&& (match plan.caller {
        Some(u) => Some(u@),
        None => None,
    }) == parsed_uri(originator_text(request.caller_display))
    &&& plan.caller_contact is None
    &&& plan.flow matches DialplanFlow::Targets(DialStrategy::Sequential(t))
    &&& t@.len() == 0
    &&& plan.max_ring_time == (request.timeout_secs as u32)
    &&& !plan.recording.enabled
    &&& plan.max_call_duration == Some(3_600_000u64)
    &&& plan.call_forwarding is None
    &&& !plan.voicemail_enabled
    &&& plan.allow_codecs@ == originated_codecs()
    &&& !plan.passthrough_failure
    &&& plan.enable_sipflow
}

fn originated_plan(
    request: &OriginateRequest,
    ringback: RingbackConfig,
    media_proxy: MediaProxyMode,
    call_timeout: u64,
) -> (r: Dialplan)
    ensures
        is_originated_plan(r, *request),
        r.media_proxy == media_proxy,
        r.ringback == ringback,
        r.call_timeout == call_timeout,
{
    let caller = match &request.caller_display {
        Some(c) => parse_uri(c.as_str()),
        None => parse_uri("sip:rwi@local"),
    };
    let mut allow_codecs: Vec<CodecType> = Vec::new();
    allow_codecs.push(CodecType::G729);
    allow_codecs.push(CodecType::G722);
    allow_codecs.push(CodecType::PCMU);
    allow_codecs.push(CodecType::PCMA);
    allow_codecs.push(CodecType::Opus);
    allow_codecs.push(CodecType::TelephoneEvent);
    assert(allow_codecs@ =~= originated_codecs());
    Dialplan {
        direction: DialDirection::Outbound,
        session_id: Some(request.call_id.clone()),
        call_id: Some(request.call_id.clone()),
        caller_display_name: own_opt(&request.caller_display),
        caller,
        caller_contact: None,
        flow: DialplanFlow::Targets(DialStrategy::Sequential(Vec::new())),
        max_ring_time: #[verifier::truncate] (request.timeout_secs as u32),
        recording: RecordingConfig { enabled: false, auto_start: false, option: None },
        ringback,
        max_call_duration: Some(3_600_000),
        call_timeout,
        call_forwarding: None,
        voicemail_enabled: false,
        allow_codecs,
        passthrough_failure: false,
        media_proxy,
        enable_sipflow: true,
    }
}

/// The session of an originated call: its media always goes through the proxy, and
/// it has no inbound dialog.
pub fn originate(
    request: &OriginateRequest,
    media_config: MediaConfig,
    media_proxy: MediaProxyMode,
    ringback: RingbackConfig,
    now: u64,
) -> (r: CallSession)
    requires
        request.timeout_secs * 1000 <= u64::MAX,
    ensures
        is_originated_plan(r.context.dialplan, *request),
        r.context.dialplan.call_timeout == request.timeout_secs * 1000,
        r.context.dialplan.media_proxy == media_proxy,
        r.context.dialplan.ringback == ringback,
        r.context.session_id == request.call_id,
        r.context.cookie_max_duration is None,
        r.context.kind is RwiSingleLeg,
        r.context.start_time == now,
        r.context.media_config == media_config,
        r.context.max_forwards == 70,
        r.context.original_caller@ == (match request.caller_display {
            Some(c) => c@,
            None => Seq::<char>::empty(),
        }),
        r.context.original_callee@ == (match request.callee_display {
            Some(c) => c@,
            None => Seq::<char>::empty(),
        }),
        is_new_session(r, r.context, None, request.offer, true, None, now),
        r.shared.has_begun(
            request.call_id,
            DialDirection::Outbound,
            r.shared.inner.caller,
            r.shared.inner.callee,
            now,
        ),
        opt_text(r.shared.inner.caller) == (match parsed_uri(
            originator_text(request.caller_display),
        ) {
            Some(u) => Some(u.text()),
            None => None,
        }),
        opt_text(r.shared.inner.callee) == Some(request.callee.text()),
        is_registered(r),
{
    let dialplan = originated_plan(
        request,
        ringback,
        media_proxy,
        request.timeout_secs * 1000,
    );
    let caller = match &dialplan.caller {
        Some(u) => Some(u.to_text()),
        None => None,
    };
    let shared = CallSessionShared::new(
        request.call_id.clone(),
        DialDirection::Outbound,
        caller,
        Some(request.callee.to_text()),
        now,
    );
    let context = CallContext {
        session_id: request.call_id.clone(),
        kind: SessionKind::RwiSingleLeg,
        dialplan,
        cookie_max_duration: None,
        start_time: now,
        media_config,
        original_caller: match &request.caller_display {
            Some(c) => c.clone(),
            None => String::new(),
        },
        original_callee: match &request.callee_display {
            Some(c) => c.clone(),
            None => String::new(),
        },
        max_forwards: 70,
    };
    let mut session = CallSession::new(
        context,
        None,
        own_opt(&request.offer),
        true,
        None,
        shared,
        now,
    );
    session.register_active_call();
    session
}

/// What becomes of an originated call: it fails with 408 when nobody answers in time, is
/// busy after 486 and 600, and fails after any other refusal; it ends by its callee
/// where it was answered, and as a failure where it was not. A cancelled call keeps the
/// reason that is known.
pub proof fn originated_call_ends_as_it_went(
    dial: OriginatedDial,
    session: CallSession,
    event: OriginatedEvent,
    now: u64,
    step: OriginatedStep,
    after: OriginatedDial,
    session_after: CallSession,
)
    requires
        dial.handles(session, event, now, step, after, session_after),
    ensures
        event is Timeout ==> (session_after.last_error matches Some((code, _)) && code == 408)
            && session_after.hangup_reason == Some(CallRecordHangupReason::NoAnswer)
            && step.next is Failed,
        step.report == Some(OriginatedSessionEvent::Busy) <==> (event matches OriginatedEvent::InviteDone(
            OriginatedResult::Refused { code },
        ) && (code == Some(486u16) || code == Some(600u16))),
        (event matches OriginatedEvent::InviteDone(OriginatedResult::Refused { code: Some(c) }) ==> (
        session_after.last_error matches Some((code, _)) && code == c)),
        step.report == Some(OriginatedSessionEvent::Answered) <==> (
        event matches OriginatedEvent::InviteDone(OriginatedResult::Answered { .. })),
        event is Terminated && session.answer_time is Some ==> session_after.hangup_reason == Some(
            CallRecordHangupReason::ByCallee,
        ) && (step.report matches Some(e) && e is Hangup),
        event is Terminated && session.answer_time is None ==> session_after.hangup_reason == Some(
            CallRecordHangupReason::Failed,
        ) && (step.report matches Some(e) && e is Failed),
        event is Cancelled && session.hangup_reason is Some ==> session_after.hangup_reason
            == session.hangup_reason,
        event is Cancelled && session.hangup_reason is None ==> session_after.hangup_reason == Some(
            CallRecordHangupReason::Canceled,
        ),
        event is Cancelled ==> step.next == OriginatedNext::HangUp(dial.connected),
        after.invite_completed <==> dial.invite_completed || event is InviteDone,
        after.connected <==> dial.connected || (event matches OriginatedEvent::InviteDone(result)
            && result is Answered),
        (step.report matches Some(e) && e is Ringing) <==> event is Calling,
        (step.report matches Some(e) && e is EarlyMedia) <==> event is Early,
        (step.next is Done <==> event is Terminated || event is Closed),
{
}

/// An answered origination is connected with the dialog that answered: the call is
/// bridged from then on, and the answer, where there is one, is that of both legs.
pub proof fn originated_answer_connects(
    before: CallSession,
    after: CallSession,
    dialog_id: DialogId,
    body: String,
    now: u64,
)
    requires
        before.originated_answered(after, dialog_id, body, now),
    ensures
        after.answer_time == Some(now),
        after.shared.inner.phase is Bridged,
        after.connected_callee == Some(before.context.original_callee),
        after.target_leg matches Some(l) && l.sip.connected_dialog_id == Some(dialog_id)
            && l.sip.active().contains(dialog_id@),
        body@.len() > 0 ==> after.exported_leg.media.answer_sdp == Some(body)
            && after.target_leg->0.media.answer_sdp == Some(body),
        body@.len() == 0 ==> after.exported_leg.media == before.exported_leg.media,
        after.shared.surface.media.published,
{
    let (noted, published) = choose|noted: CallSession, published: CallSession| #[trigger]
        before.answered_through(noted, published, after, dialog_id, body, now);
    let v = before.target_leg->0.sip.active();
    let w = noted.target_leg->0.sip.active();
    if !v.contains(dialog_id@) {
        assert(w[w.len() - 1] == dialog_id@);
    }
    assert(w.contains(dialog_id@));
    assert(after.target_leg->0.sip.active() =~= w);
}

/// Ringing sets the phase and the time: early media keeps the time of an earlier alert.
pub proof fn originated_ringing_is_noted(before: CallSession, after: CallSession, early_media: bool, now: u64)
    requires
        before.originated_ringing(after, early_media, now),
    ensures
        after.ring_time is Some,
        !early_media || before.ring_time is None ==> after.ring_time == Some(now),
        early_media && before.ring_time is Some ==> after.ring_time == before.ring_time,
        before.shared.inner.phase is Dialing ==> (after.shared.inner.phase is EarlyMedia
            <==> early_media) && (after.shared.inner.phase is Ringing <==> !early_media),
{
}

/// The positions of the audio sections are those of all of them, in order.
pub proof fn audio_positions_are_those_of_audio(media: Seq<MediaText>, n: int)
    requires
        0 <= n <= media.len() <= usize::MAX,
    ensures
        forall|i: usize| #[trigger]
            audio_positions(media, n).contains(i) <==> i < n && media[i as int].0,
        forall|a: int, b: int|
            0 <= a < b < audio_positions(media, n).len() ==> #[trigger] audio_positions(media, n)[a]
                < #[trigger] audio_positions(media, n)[b],
    decreases n,
{
    if n > 0 {
        audio_positions_are_those_of_audio(media, n - 1);
        let before = audio_positions(media, n - 1);
        let all = audio_positions(media, n);
        assert forall|i: usize| #[trigger] all.contains(i) <==> i < n && media[i as int].0 by {
            if all.contains(i) {
                let k = choose|k: int| 0 <= k < all.len() && all[k] == i;
                if k < before.len() {
                    assert(before[k] == i);
                    assert(before.contains(i));
                }
            }
            if i < n && media[i as int].0 {
                if i < n - 1 {
                    assert(before.contains(i));
                    let k = choose|k: int| 0 <= k < before.len() && before[k] == i;
                    assert(all[k] == i);
                } else {
                    assert(all[all.len() - 1] == i);
                }
            }
        }
        assert forall|a: int, b: int| 0 <= a < b < all.len() implies #[trigger] all[a]
            < #[trigger] all[b] by {
            if b == before.len() {
                assert(before.contains(before[a]));
            } else {
                assert(before[a] < before[b]);
            }
        }
    }
}

/// An originated call may last an hour, rings for as long as was asked for, and is
/// neither recorded nor forwarded.
pub proof fn originated_call_is_plain(plan: Dialplan, request: OriginateRequest)
    requires
        is_originated_plan(plan, request),
    ensures
        plan.session_id == Some(request.call_id) && plan.call_id == Some(request.call_id),
        plan.max_call_duration == Some(3_600_000u64),
        !plan.recording.enabled && plan.call_forwarding is None && !plan.voicemail_enabled,
        request.timeout_secs <= u32::MAX ==> plan.max_ring_time == request.timeout_secs,
        plan.allow_codecs@.contains(CodecType::TelephoneEvent) && plan.allow_codecs@.contains(
            CodecType::PCMU,
        ) && plan.allow_codecs@.contains(CodecType::Opus),
        plan.direction is Outbound,
{
    let c = plan.allow_codecs@;
    assert(c[5] == CodecType::TelephoneEvent);
    assert(c[2] == CodecType::PCMU);
    assert(c[4] == CodecType::Opus);
}

/// The caller of an originated call is the one that the request shows, and its codecs are
/// those that every call may use.
pub proof fn originated_call_has_its_caller(plan: Dialplan, request: OriginateRequest, name: String)
    requires
        is_originated_plan(plan, request),
    ensures
        request.caller_display == Some(name) ==> (plan.caller matches Some(u) ==> parsed_uri(name@) == Some(
            u@,
        )),
        plan.caller_display_name == request.caller_display,
        forall|c: CodecType| #[trigger] plan.allow_codecs@.contains(c),
        plan.allow_codecs@.no_duplicates(),
{
    let s = plan.allow_codecs@;
    assert(s[0] == CodecType::G729 && s[1] == CodecType::G722 && s[2] == CodecType::PCMU && s[3]
        == CodecType::PCMA && s[4] == CodecType::Opus && s[5] == CodecType::TelephoneEvent);
    assert forall|c: CodecType| #[trigger] s.contains(c) by {
        match c {
            CodecType::G729 => assert(s[0] == c),
            CodecType::G722 => assert(s[1] == c),
            CodecType::PCMU => assert(s[2] == c),
            CodecType::PCMA => assert(s[3] == c),
            CodecType::Opus => assert(s[4] == c),
            CodecType::TelephoneEvent => assert(s[5] == c),
        }
    }
}

} // verus!
