//! The session that drives a call: what it notes of the call's attempts and
//! failures, how it answers commands, and how it is torn down. Moments are in
//! milliseconds.
use vstd::prelude::*;
use crate::bridge_runtime::{BridgeRuntime, ForwardingScope};
use crate::call_leg::{CallLeg, LegRole, NegotiationState, is_fresh_leg};
use crate::media_bridge::MediaBridge;
use crate::media_endpoint::{
    BridgeSelection, MediaEndpoint, SelectionView, audio_view, best_audio, best_audio_of, bridged,
    default_selection, matching_bridge, or_else, ssrc_of, webrtc_sdp,
};
use crate::model::{
    CallForwardingConfig, CallForwardingMode, CallRecordHangupReason, DialplanFlow, MediaProxyMode,
    RecorderOption, SupervisorMode, TransferEndpoint,
};
use crate::negotiate::{
    CodecInfo, CodecType, MediaNegotiator, RtpCodecParameters, audio_of, best_codec,
    best_codec_is_usable, contains_type, copy_codecs, dtmf_of, first_allowed_codec_is_used,
    first_of_type_facts, has_type, sdp_codecs,
};
use crate::recording_runtime::{RecordingInfo, RecordingState, start_recording, stop_recording};
use crate::sdp_direction::{
    MediaDirection, answer_lines, candidates_of, direction_is_what_the_lines_say, direction_of,
    lines_text, media_direction_from_sdp, rewrite_sdp_direction, says, standing_is_occurring,
    stands_at, trickled_candidates,
};
use crate::session_timer::{elapsed, names_timer};
use crate::sip::{Header, InviteOption, Method, Uri, header_views, parse_uri, parsed_uri};
use crate::sip_leg::{
    CallLegDirection, DialogId, DialogIdView, DialogPhase, ForwardedOffer, InboundHangup,
    ServerDialog, SipLeg, dialog_added, timer_asked,
};
use crate::state::{
    ActiveProxyCallEntry, ActiveProxyCallStatus, CallContext, CallHangup, CallSessionShared,
    CallSessionSnapshot, ControlSurface, MidDialogLeg, ProxyCallEvent, ProxyCallPhase,
    SessionAction, SessionKind, SharedExportedLegMedia, change_events, logged, logged_twice,
    refreshed_entry,
};
use crate::text::{
    has_prefix, has_suffix, join2, join3, occurs_at, opt_text, own, own_opt, same, split_on, texts,
    trim, trimmed, upper,
};

verus! {

/// A hangup that was asked for before the session was torn down.
#[derive(Clone, Debug)]
pub struct PendingHangup {
    pub reason: Option<CallRecordHangupReason>,
    pub code: Option<u16>,
    pub initiator: Option<String>,
}

/// What an originated session reports to the one that asked for it.
#[derive(Clone, Debug)]
pub enum OriginatedSessionEvent {
    Ringing,
    EarlyMedia,
    Answered,
    Failed { reason: String, sip_status: Option<u16> },
    Hangup { reason: String },
    Busy,
}

/// How far the teardown has come: the session waits for the dialogs to end, or
/// for the grace period to pass, before it is over.
#[derive(Clone, Copy, Debug)]
pub struct TerminationState {
    pub started_at: u64,
    pub caller_cleanup_sent: bool,
    pub callee_cleanup_sent: bool,
    pub grace_deadline: u64,
}

impl TerminationState {
    /// A teardown that begins at `now` and is given `grace_secs` seconds.
    pub fn new(grace_secs: u64, now: u64) -> (r: TerminationState)
        requires
            now + grace_secs * 1000 <= u64::MAX,
        ensures
            r.started_at == now,
            !r.caller_cleanup_sent,
            !r.callee_cleanup_sent,
            r.grace_deadline == now + grace_secs * 1000,
    {
        TerminationState {
            started_at: now,
            caller_cleanup_sent: false,
            callee_cleanup_sent: false,
            grace_deadline: now + grace_secs * 1000,
        }
    }
}

/// A failed attempt, as the call record lists it.
#[derive(Clone, Debug)]
pub struct SessionHangupMessage {
    pub code: u16,
    pub reason: Option<String>,
    pub target: Option<String>,
}

impl SessionHangupMessage {
    /// A copy.
    pub fn copy(&self) -> (r: SessionHangupMessage)
        ensures
            r == *self,
    {
        SessionHangupMessage {
            code: self.code,
            reason: own_opt(&self.reason),
            target: own_opt(&self.target),
        }
    }
}

/// A copy of a list of failed attempts.
pub fn copy_messages(v: &Vec<SessionHangupMessage>) -> (r: Vec<SessionHangupMessage>)
    ensures
        r@ == v@,
{
    let mut out: Vec<SessionHangupMessage> = Vec::new();
    let mut i: usize = 0;
    while i < v.len()
        invariant
            i <= v.len(),
            out@ == v@.take(i as int),
        decreases v.len() - i,
    {
        out.push(v[i].copy());
        assert(out@ =~= v@.take(i + 1));
        i += 1;
    }
    assert(out@ =~= v@);
    out
}

/// What the call record is made from.
#[derive(Debug)]
pub struct CallSessionRecordSnapshot {
    pub ring_time: Option<u64>,
    pub answer_time: Option<u64>,
    pub last_error: Option<(u16, Option<String>)>,
    pub hangup_reason: Option<CallRecordHangupReason>,
    pub hangup_messages: Vec<SessionHangupMessage>,
    pub original_caller: Option<String>,
    pub original_callee: Option<String>,
    pub routed_caller: Option<String>,
    pub routed_callee: Option<String>,
    pub connected_callee: Option<String>,
    pub routed_contact: Option<String>,
    pub routed_destination: Option<String>,
    pub last_queue_name: Option<String>,
    pub target_dialogs: Vec<DialogId>,
    pub server_dialog_id: Option<DialogId>,
}

/// The session of a call.
#[derive(Debug)]
pub struct CallSession {
    pub context: CallContext,
    pub pending_hangup: Option<PendingHangup>,
    pub last_error: Option<(u16, Option<String>)>,
    pub connected_callee: Option<String>,
    pub ring_time: Option<u64>,
    pub answer_time: Option<u64>,
    pub hangup_reason: Option<CallRecordHangupReason>,
    pub hangup_messages: Vec<SessionHangupMessage>,
    pub shared: CallSessionShared,
    pub exported_leg: CallLeg,
    pub target_leg: Option<CallLeg>,
    pub bridge_runtime: BridgeRuntime,
    pub use_media_proxy: bool,
    pub routed_caller: Option<String>,
    pub routed_callee: Option<String>,
    pub routed_contact: Option<String>,
    pub routed_destination: Option<String>,
    /// Whether the call is open to commands, so that its dialogs are entered into the
    /// registry of active calls.
    pub has_handle: bool,
    /// Whether the call has still to be reported.
    pub report_due: bool,
    /// Whether an application listens to the call.
    pub app_listens: bool,
    pub recording_state: RecordingState,
    pub termination_state: Option<TerminationState>,
}

/// Whether the media of a call goes through the proxy: always where the call is
/// recorded, else as the mode says; where the mode leaves it open, if the caller
/// and the targets differ in their kind of media.
pub open spec fn media_is_proxied(
    recorded: bool,
    offer: Seq<char>,
    mode: MediaProxyMode,
    all_webrtc_target: bool,
) -> bool {
    recorded || match mode {
        MediaProxyMode::All => true,
        MediaProxyMode::Disabled => false,
        MediaProxyMode::Nat => false,
        MediaProxyMode::Auto => webrtc_sdp(offer) != all_webrtc_target,
    }
}

/// Whether the shared state changes in the answer to the caller alone.
pub open spec fn has_kept_answer(before: CallSessionShared, after: CallSessionShared, sdp: Option<String>) -> bool {
    &&& after.inner == (CallSessionSnapshot { answer_sdp: sdp, ..before.inner })
    &&& after.entry == before.entry
    &&& after.log() == before.log()
    &&& after.pending == before.pending
    &&& after.surface == before.surface
}

/// The event of a failed attempt.
pub open spec fn failure_event(s: CallSessionSnapshot, code: u16, reason: Option<String>, target: Option<
    String,
>) -> ProxyCallEvent {
    ProxyCallEvent::TargetFailed { session_id: s.session_id, target, code: Some(code), reason }
}

/// The response code that a requested hangup is answered with, where it is one of
/// those in use.
pub open spec fn known_status(value: u16) -> Option<u16> {
    if value == 403 || value == 404 || value == 480 || value == 486 || value == 487 || value == 488
        || value == 500 || value == 503 || value == 600 || value == 603 {
        Some(value)
    } else {
        None
    }
}

/// The text that a requested hangup gives.
pub open spec fn hangup_text(p: PendingHangup) -> Seq<char> {
    match (p.initiator, p.reason) {
        (Some(i), Some(r)) => "Cancelled by "@ + i@ + " ("@ + r.label_text() + ")"@,
        (Some(i), None) => "Cancelled by "@ + i@,
        (None, Some(r)) => "Cancelled ("@ + r.label_text() + ")"@,
        (None, None) => "Cancelled by controller"@,
    }
}

/// The code, text and reason that a hangup gives: those asked for, else those of
/// a hangup by the system.
pub open spec fn hangup_outcome(p: Option<PendingHangup>) -> (u16, Seq<char>, Option<
    CallRecordHangupReason,
>) {
    match p {
        Some(h) => (
            match h.code {
                Some(c) => match known_status(c) {
                    Some(k) => k,
                    None => 487,
                },
                None => 487,
            },
            hangup_text(h),
            h.reason,
        ),
        None => (487, "Cancelled by system"@, Some(CallRecordHangupReason::Canceled)),
    }
}

/// Whether `r` is the session of a call that has just begun, but for its shared
/// state and for whether it takes commands.
pub open spec fn is_new_session(
    r: CallSession,
    context: CallContext,
    server_dialog: Option<ServerDialog>,
    caller_offer: Option<String>,
    use_media_proxy: bool,
    recorder_option: Option<RecorderOption>,
    now: u64,
) -> bool {
    &&& is_fresh_leg(
        r.exported_leg,
        context.session_id,
        LegRole::Caller,
        CallLegDirection::Inbound,
        caller_offer,
        server_dialog,
        now,
    )
    &&& r.hangup_messages@ == Seq::<SessionHangupMessage>::empty()
    &&& r == (CallSession {
        context,
        pending_hangup: None,
        last_error: None,
        connected_callee: None,
        ring_time: None,
        answer_time: None,
        hangup_reason: None,
        hangup_messages: r.hangup_messages,
        shared: r.shared,
        exported_leg: r.exported_leg,
        target_leg: None,
        bridge_runtime: BridgeRuntime {
            media_bridge: None,
            recorder_option,
            supervisor_mixer: None,
        },
        use_media_proxy,
        routed_caller: None,
        routed_callee: None,
        routed_contact: None,
        routed_destination: None,
        has_handle: r.has_handle,
        report_due: true,
        app_listens: false,
        recording_state: None,
        termination_state: None,
    })
}

/// Whether a call and the caller's dialog are entered into the registry of active
/// calls and its media is published, in a session that has just begun.
pub open spec fn is_registered(r: CallSession) -> bool {
    &&& r.has_handle
    &&& texts(r.shared.surface.dialogs@) == r.caller_dialogs()
    &&& r.shared.entry == Some(fresh_entry(r.shared.inner))
    &&& r.is_published_media(r.shared.surface.media)
    &&& r.shared.surface.app_events is None
    &&& r.shared.surface.dtmf_listener_cancel is None
}

/// The registry entry of a call that is being set up.
pub open spec fn fresh_entry(s: CallSessionSnapshot) -> ActiveProxyCallEntry {
    ActiveProxyCallEntry {
        session_id: s.session_id,
        caller: s.caller,
        callee: s.callee,
        direction: s.direction,
        started_at: s.started_at,
        answered_at: s.answer_time,
        status: ActiveProxyCallStatus::Ringing,
    }
}

impl CallSession {
    /// The session of a call that has just begun.
    pub fn new(
        context: CallContext,
        server_dialog: Option<ServerDialog>,
        caller_offer: Option<String>,
        use_media_proxy: bool,
        recorder_option: Option<RecorderOption>,
        shared: CallSessionShared,
        now: u64,
    ) -> (r: CallSession)
        ensures
            is_new_session(
                r,
                context,
                server_dialog,
                caller_offer,
                use_media_proxy,
                recorder_option,
                now,
            ),
            r.shared == shared,
            !r.has_handle,
    {
        let mut exported_leg = CallLeg::new(
            context.session_id.clone(),
            LegRole::Caller,
            CallLegDirection::Inbound,
            caller_offer,
            now,
        );
        if let Some(d) = server_dialog {
            exported_leg.set_server_dialog(d);
        }
        CallSession {
            context,
            pending_hangup: None,
            last_error: None,
            connected_callee: None,
            ring_time: None,
            answer_time: None,
            hangup_reason: None,
            hangup_messages: Vec::new(),
            shared,
            exported_leg,
            target_leg: None,
            bridge_runtime: BridgeRuntime::new(recorder_option),
            use_media_proxy,
            routed_caller: None,
            routed_callee: None,
            routed_contact: None,
            routed_destination: None,
            has_handle: false,
            report_due: true,
            app_listens: false,
            recording_state: None,
            termination_state: None,
        }
    }

    /// See [`media_is_proxied`].
    pub fn check_media_proxy(
        recorded: bool,
        offer_sdp: &str,
        mode: MediaProxyMode,
        all_webrtc_target: bool,
    ) -> (r: bool)
        ensures
            r == media_is_proxied(recorded, offer_sdp@, mode, all_webrtc_target),
    {
        if recorded {
            return true;
        }
        match mode {
            MediaProxyMode::All => true,
            MediaProxyMode::Disabled => false,
            MediaProxyMode::Nat => false,
            MediaProxyMode::Auto => {
                let caller_is_webrtc = MediaEndpoint::is_webrtc_sdp(offer_sdp);
                caller_is_webrtc != all_webrtc_target
            },
        }
    }

    /// Makes the leg to the target, unless there is one.
    pub fn ensure_target_leg(&mut self, now: u64)
        ensures
            old(self).has_target_leg(*final(self), now),
    {
        if self.target_leg.is_some() {
            return;
        }
        let id = self.context.session_id.clone();
        self.target_leg = Some(
            CallLeg::new(id, LegRole::Callee, CallLegDirection::Outbound, None, now),
        );
    }

    /// The response codes after which the next target is tried, where the plan of
    /// the call lists them.
    pub fn get_retry_codes(&self) -> (r: Option<&Vec<u16>>)
        ensures
            self.retry_codes() == (match r {
                Some(c) => Some(*c),
                None => None,
            }),
    {
        match &self.context.dialplan.flow {
            DialplanFlow::Queue { plan, .. } => match &plan.retry_codes {
                Some(c) => Some(c),
                None => None,
            },
            _ => None,
        }
    }

    /// See [`CallSession::get_retry_codes`].
    pub open spec fn retry_codes(self) -> Option<Vec<u16>> {
        match self.context.dialplan.flow {
            DialplanFlow::Queue { plan, .. } => plan.retry_codes,
            _ => None,
        }
    }

    /// The session after a failed attempt has been noted.
    pub open spec fn attempt_noted(
        self,
        after: CallSession,
        code: u16,
        reason: Option<String>,
        target: Option<String>,
    ) -> bool {
        &&& after.hangup_messages@ == self.hangup_messages@.push(
            SessionHangupMessage { code, reason, target },
        )
        &&& after.shared.inner == self.shared.inner
        &&& after.shared.entry == self.shared.entry
        &&& after.shared.pending == self.shared.pending
        &&& after.shared.surface == self.shared.surface
        &&& after.shared.log() == logged(
            self.shared.log(),
            seq![failure_event(self.shared.inner, code, reason, target)],
        )
        &&& after == (CallSession {
            hangup_messages: after.hangup_messages,
            shared: after.shared,
            ..self
        })
    }

    /// Notes a failed attempt and reports it.
    pub fn note_attempt_failure(&mut self, code: u16, reason: Option<String>, target: Option<String>)
        ensures
            old(self).attempt_noted(*final(self), code, reason, target),
    {
        self.hangup_messages.push(
            SessionHangupMessage { code, reason: own_opt(&reason), target: own_opt(&target) },
        );
        let session_id = self.shared.session_id();
        self.shared.emit_custom_event(
            ProxyCallEvent::TargetFailed { session_id, target, code: Some(code), reason },
        );
    }

    /// The session after it has failed.
    pub open spec fn failed(
        self,
        after: CallSession,
        code: u16,
        reason: Option<String>,
        target: Option<String>,
    ) -> bool {
        &&& after.last_error == Some((code, reason))
        &&& after.hangup_reason == Some(CallRecordHangupReason::Failed)
        &&& after.hangup_messages@ == self.hangup_messages@.push(
            SessionHangupMessage { code, reason, target },
        )
        &&& after.shared.inner == self.shared.inner.failed(code, reason)
        &&& after.shared.entry == refreshed_entry(self.shared.entry, after.shared.inner)
        &&& after.shared.pending == self.shared.pending
        &&& after.shared.surface == self.shared.surface
        &&& after.shared.log() == logged(
            self.shared.log(),
            seq![failure_event(self.shared.inner, code, reason, target)] + change_events(
                self.shared.inner,
                after.shared.inner,
            ),
        )
        &&& after == (CallSession {
            last_error: after.last_error,
            hangup_reason: after.hangup_reason,
            hangup_messages: after.hangup_messages,
            shared: after.shared,
            ..self
        })
    }

    /// Notes a failure: it becomes the error of the call, is listed with the
    /// attempts, and is reported.
    pub fn set_error(&mut self, code: u16, reason: Option<String>, target: Option<String>)
        ensures
            old(self).failed(*final(self), code, reason, target),
    {
        let ghost start = self.shared.log();
        let ghost event = failure_event(self.shared.inner, code, reason, target);
        self.last_error = Some((code, own_opt(&reason)));
        self.hangup_reason = Some(CallRecordHangupReason::Failed);
        self.note_attempt_failure(code, own_opt(&reason), target);
        proof {
            logged_twice(
                start,
                seq![event],
                change_events(self.shared.inner, self.shared.inner.failed(code, reason)),
            );
        }
        self.shared.note_failure(code, reason);
    }

    /// Whether the call has been answered.
    pub fn is_answered(&self) -> (r: bool)
        ensures
            r == (self.answer_time is Some),
    {
        self.answer_time.is_some()
    }

    /// Keeps the answer to the caller's offer.
    pub fn set_answer(&mut self, sdp: String)
        ensures
            final(self).exported_leg == (CallLeg {
                media: MediaEndpoint { answer_sdp: Some(sdp), ..old(self).exported_leg.media },
                ..old(self).exported_leg
            }),
            has_kept_answer(old(self).shared, final(self).shared, Some(sdp)),
            *final(self) == (CallSession {
                exported_leg: final(self).exported_leg,
                shared: final(self).shared,
                ..*old(self)
            }),
    {
        self.shared.set_answer_sdp(sdp.clone());
        self.exported_leg.media.answer_sdp = Some(sdp);
    }

    /// Notes the parties of an INVITE that is about to be sent.
    pub fn note_invite_details(&mut self, invite: &InviteOption)
        ensures
            opt_text(final(self).routed_caller) == Some(invite.caller.text()),
            opt_text(final(self).routed_callee) == Some(invite.callee.text()),
            opt_text(final(self).routed_contact) == Some(invite.contact.text()),
            opt_text(final(self).routed_destination) == (match invite.destination {
                Some(d) => Some(d@.text()),
                None => None,
            }),
            final(self).shared.inner == (CallSessionSnapshot {
                caller: CallSessionSnapshot::routed_party(
                    old(self).shared.inner.caller,
                    final(self).routed_caller,
                ),
                callee: CallSessionSnapshot::routed_party(
                    old(self).shared.inner.callee,
                    final(self).routed_callee,
                ),
                current_target: if opt_text(old(self).shared.inner.current_target) == Some(
                    invite.callee.text(),
                ) {
                    old(self).shared.inner.current_target
                } else {
                    final(self).routed_callee
                },
                ..old(self).shared.inner
            }),
            opt_text(old(self).shared.inner.current_target) == Some(invite.callee.text())
                ==> final(self).shared.log() == old(self).shared.log(),
            opt_text(old(self).shared.inner.current_target) != Some(invite.callee.text())
                ==> final(self).shared.log() == logged(
                old(self).shared.log(),
                seq![
                    ProxyCallEvent::TargetRinging {
                        session_id: old(self).shared.inner.session_id,
                        target: final(self).routed_callee,
                    },
                ],
            ),
            final(self).shared.entry == (if opt_text(old(self).shared.inner.caller) != Some(
                invite.caller.text(),
            ) || opt_text(old(self).shared.inner.callee) != Some(invite.callee.text()) || opt_text(
                old(self).shared.inner.current_target,
            ) != Some(invite.callee.text()) {
                refreshed_entry(old(self).shared.entry, final(self).shared.inner)
            } else {
                old(self).shared.entry
            }),
            final(self).shared.pending == old(self).shared.pending,
            final(self).shared.surface == old(self).shared.surface,
            *final(self) == (CallSession {
                routed_caller: final(self).routed_caller,
                routed_callee: final(self).routed_callee,
                routed_contact: final(self).routed_contact,
                routed_destination: final(self).routed_destination,
                shared: final(self).shared,
                ..*old(self)
            }),
    {
        self.routed_caller = Some(invite.caller.to_text());
        self.routed_callee = Some(invite.callee.to_text());
        self.routed_contact = Some(invite.contact.to_text());
        self.routed_destination = match &invite.destination {
            Some(d) => Some(d.to_text()),
            None => None,
        };
        self.shared.update_routed_parties(
            own_opt(&self.routed_caller),
            own_opt(&self.routed_callee),
        );
        self.shared.set_current_target(own_opt(&self.routed_callee));
    }

    /// The queue that the record of the call names: none does.
    pub fn last_queue_name(&self) -> (r: Option<String>)
        ensures
            r is None,
    {
        None
    }

    /// Whether `r` is what the call record is made from.
    pub open spec fn is_record(self, r: CallSessionRecordSnapshot) -> bool {
        &&& r.hangup_messages@ == self.hangup_messages@
        &&& r.target_dialogs@ == (match self.target_leg {
            Some(l) => l.sip.recorded_dialog_ids@,
            None => Seq::<DialogId>::empty(),
        })
        &&& r == (CallSessionRecordSnapshot {
            ring_time: self.ring_time,
            answer_time: self.answer_time,
            last_error: self.last_error,
            hangup_reason: self.hangup_reason,
            hangup_messages: r.hangup_messages,
            original_caller: Some(self.context.original_caller),
            original_callee: Some(self.context.original_callee),
            routed_caller: self.routed_caller,
            routed_callee: self.routed_callee,
            connected_callee: self.connected_callee,
            routed_contact: self.routed_contact,
            routed_destination: self.routed_destination,
            last_queue_name: None,
            target_dialogs: r.target_dialogs,
            server_dialog_id: match self.exported_leg.sip.server_dialog {
                Some(d) => Some(d.id),
                None => None,
            },
        })
    }

    /// What the call record is made from.
    pub fn record_snapshot(&self) -> (r: CallSessionRecordSnapshot)
        ensures
            self.is_record(r),
    {
        CallSessionRecordSnapshot {
            ring_time: self.ring_time,
            answer_time: self.answer_time,
            last_error: match &self.last_error {
                Some(e) => Some((e.0, own_opt(&e.1))),
                None => None,
            },
            hangup_reason: self.hangup_reason,
            hangup_messages: copy_messages(&self.hangup_messages),
            original_caller: Some(self.context.original_caller.clone()),
            original_callee: Some(self.context.original_callee.clone()),
            routed_caller: own_opt(&self.routed_caller),
            routed_callee: own_opt(&self.routed_callee),
            connected_callee: own_opt(&self.connected_callee),
            routed_contact: own_opt(&self.routed_contact),
            routed_destination: own_opt(&self.routed_destination),
            last_queue_name: self.last_queue_name(),
            target_dialogs: match &self.target_leg {
                Some(l) => l.sip.recorded_dialogs(),
                None => Vec::new(),
            },
            server_dialog_id: self.exported_leg.server_dialog_id(),
        }
    }

    /// The record of a call that failed before it was set up.
    pub fn report_failure(&self, code: u16, reason: Option<String>, server_dialog_id: DialogId) -> (r:
        CallSessionRecordSnapshot)
        ensures
            r.hangup_messages@ == seq![SessionHangupMessage { code, reason, target: None }],
            r.target_dialogs@ == Seq::<DialogId>::empty(),
            r == (CallSessionRecordSnapshot {
                ring_time: None,
                answer_time: None,
                last_error: Some((code, reason)),
                hangup_reason: Some(CallRecordHangupReason::Failed),
                hangup_messages: r.hangup_messages,
                original_caller: Some(self.context.original_caller),
                original_callee: Some(self.context.original_callee),
                routed_caller: None,
                routed_callee: None,
                connected_callee: None,
                routed_contact: None,
                routed_destination: None,
                last_queue_name: None,
                target_dialogs: r.target_dialogs,
                server_dialog_id: Some(server_dialog_id),
            }),
    {
        let mut messages: Vec<SessionHangupMessage> = Vec::new();
        messages.push(SessionHangupMessage { code, reason: own_opt(&reason), target: None });
        assert(messages@ =~= seq![SessionHangupMessage { code, reason, target: None }]);
        CallSessionRecordSnapshot {
            ring_time: None,
            answer_time: None,
            last_error: Some((code, reason)),
            hangup_reason: Some(CallRecordHangupReason::Failed),
            hangup_messages: messages,
            original_caller: Some(self.context.original_caller.clone()),
            original_callee: Some(self.context.original_callee.clone()),
            routed_caller: None,
            routed_callee: None,
            connected_callee: None,
            routed_contact: None,
            routed_destination: None,
            last_queue_name: None,
            target_dialogs: Vec::new(),
            server_dialog_id: Some(server_dialog_id),
        }
    }

    /// The shared state once a dialog of the call is entered into the registry of
    /// active calls, where the call takes commands.
    pub open spec fn registers(self, after: CallSessionShared, dialog: Seq<char>) -> bool {
        if self.has_handle {
            self.shared.has_entered(after, dialog)
        } else {
            after == self.shared
        }
    }

    pub(crate) fn register_dialog(&mut self, dialog_id: &DialogId)
        ensures
            old(self).registers(final(self).shared, dialog_id@.text()),
            *final(self) == (CallSession { shared: final(self).shared, ..*old(self) }),
    {
        if self.has_handle {
            self.shared.register_dialog(dialog_id.to_text());
        }
    }

    /// The session once a dialog to the target is entered, in its leg and in the
    /// registry of active calls. One that is open is not entered again.
    pub open spec fn dialog_entered(self, after: CallSession, id: DialogIdView) -> bool {
        let before = self.target_leg->0.sip;
        let now = after.target_leg->0.sip;
        &&& before.active().contains(id) ==> after == self
        &&& !before.active().contains(id) ==> {
            &&& now.active() == before.active().push(id)
            &&& now.recorded() == dialog_added(before.recorded(), id)
            &&& before.well_formed() ==> now.well_formed()
            &&& self.registers(after.shared, id.text())
        }
        &&& after == (CallSession {
            target_leg: Some(
                CallLeg {
                    sip: SipLeg {
                        active_dialog_ids: now.active_dialog_ids,
                        recorded_dialog_ids: now.recorded_dialog_ids,
                        ..before
                    },
                    ..self.target_leg->0
                },
            ),
            shared: after.shared,
            ..self
        })
    }

    /// Enters a dialog to the target, see [`CallSession::dialog_entered`].
    pub fn add_callee_dialog(&mut self, dialog_id: DialogId)
        requires
            old(self).target_leg is Some,
        ensures
            old(self).dialog_entered(*final(self), dialog_id@),
    {
        if let Some(leg) = self.target_leg.take() {
            let mut leg = leg;
            if leg.sip.is_new_dialog(&dialog_id) {
                self.register_dialog(&dialog_id);
                leg.sip.add_dialog(dialog_id);
            }
            self.target_leg = Some(leg);
        }
    }

    /// Whether every open dialog to the target is in the registry of active calls.
    pub open spec fn target_is_registered(self) -> bool {
        self.target_leg matches Some(leg) ==> forall|i: int|
            0 <= i < leg.sip.active().len() ==> texts(self.shared.surface.dialogs@).contains(
                (#[trigger] leg.sip.active()[i]).text(),
            )
    }

    /// The forwarding that applies to every call.
    pub fn immediate_forwarding_config(&self) -> (r: Option<&CallForwardingConfig>)
        ensures
            r == (match self.context.dialplan.call_forwarding {
                Some(c) => if c.mode is Always {
                    Some(&c)
                } else {
                    None
                },
                None => None,
            }),
    {
        match &self.context.dialplan.call_forwarding {
            Some(c) => if matches!(c.mode, CallForwardingMode::Always) {
                Some(c)
            } else {
                None
            },
            None => None,
        }
    }

    /// How long the targets are rung before an unanswered call is forwarded.
    pub fn forwarding_timeout(&self) -> (r: Option<u64>)
        ensures
            r == (match self.context.dialplan.call_forwarding {
                Some(c) => if c.mode is WhenNoAnswer {
                    Some(c.timeout)
                } else {
                    None
                },
                None => None,
            }),
    {
        match &self.context.dialplan.call_forwarding {
            Some(c) => if matches!(c.mode, CallForwardingMode::WhenNoAnswer) {
                Some(c.timeout)
            } else {
                None
            },
            None => None,
        }
    }

    /// The text of the last failure.
    pub open spec fn error_text(self) -> Option<String> {
        match self.last_error {
            Some((_, t)) => t,
            None => None,
        }
    }

    /// Whether the call failed because the callee is busy or declined.
    pub open spec fn busy(self) -> bool {
        self.last_error matches Some((code, _)) && (code == 486 || code == 600 || code == 603 || code
            == 487)
    }

    /// Whether the call failed because nobody answered.
    pub open spec fn unanswered(self) -> bool {
        self.answer_time is None && (self.last_error matches Some((code, _)) && (code == 408 || code
            == 480 || code == 504))
    }

    /// Whether the call failed because the callee is busy or declined.
    pub fn failure_is_busy(&self) -> (r: bool)
        ensures
            r == self.busy(),
    {
        match &self.last_error {
            Some(e) => e.0 == 486 || e.0 == 600 || e.0 == 603 || e.0 == 487,
            None => false,
        }
    }

    /// Whether the call failed because nobody answered.
    pub fn failure_is_no_answer(&self) -> (r: bool)
        ensures
            r == self.unanswered(),
    {
        if self.is_answered() {
            return false;
        }
        match &self.last_error {
            Some(e) => e.0 == 408 || e.0 == 480 || e.0 == 504,
            None => false,
        }
    }

    /// Keeps a hangup that was asked for, in place of an earlier one.
    pub fn store_pending_hangup(
        &mut self,
        reason: Option<CallRecordHangupReason>,
        code: Option<u16>,
        initiator: Option<String>,
    )
        ensures
            *final(self) == (CallSession {
                pending_hangup: Some(PendingHangup { reason, code, initiator }),
                ..*old(self)
            }),
    {
        self.pending_hangup = Some(PendingHangup { reason, code, initiator });
    }

    /// See [`known_status`].
    pub fn status_code_for_value(value: u16) -> (r: Option<u16>)
        ensures
            r == known_status(value),
    {
        match value {
            403 | 404 | 480 | 486 | 487 | 488 | 500 | 503 | 600 | 603 => Some(value),
            _ => None,
        }
    }

    /// Takes the hangup that was asked for, see [`hangup_outcome`].
    pub fn resolve_pending_hangup(&mut self) -> (r: (u16, Option<String>, Option<
        CallRecordHangupReason,
    >))
        ensures
            ({
                let o = hangup_outcome(old(self).pending_hangup);
                r.0 == o.0 && opt_text(r.1) == Some(o.1) && r.2 == o.2
            }),
            *final(self) == (CallSession { pending_hangup: None, ..*old(self) }),
    {
        match self.pending_hangup.take() {
            Some(h) => {
                let code = match h.code {
                    Some(c) => match Self::status_code_for_value(c) {
                        Some(k) => k,
                        None => 487,
                    },
                    None => 487,
                };
                let message = match (&h.initiator, &h.reason) {
                    (Some(i), Some(r)) => {
                        let label = r.label();
                        let a = join3("Cancelled by ", i.as_str(), " (");
                        join3(a.as_str(), label.as_str(), ")")
                    },
                    (Some(i), None) => join2("Cancelled by ", i.as_str()),
                    (None, Some(r)) => {
                        let label = r.label();
                        join3("Cancelled (", label.as_str(), ")")
                    },
                    (None, None) => own("Cancelled by controller"),
                };
                (code, Some(message), h.reason)
            },
            None => (
                487,
                Some(own("Cancelled by system")),
                Some(CallRecordHangupReason::Canceled),
            ),
        }
    }
}

/// The answer to a request within a dialog.
#[derive(Clone, Debug)]
pub struct MidDialogReply {
    pub handle: u64,
    pub status: u16,
    pub body: Option<String>,
}

/// A change of what is forwarded of the callee's media.
#[derive(Clone, Copy, Debug, PartialEq, Eq, Structural)]
pub enum ForwardingChange {
    Suppress(ForwardingScope),
    Resume(ForwardingScope),
}

/// What a re-INVITE or UPDATE leads to.
#[derive(Clone, Debug)]
pub struct ReInviteOutcome {
    pub reply: Option<MidDialogReply>,
    pub forwarding: Option<ForwardingChange>,
    pub forward_offer: Option<ForwardedOffer>,
}

/// The codec that a leg uses: the negotiated one, else the one its answer gives,
/// else the one its offer gives.
pub open spec fn codec_in_use(media: MediaEndpoint, allow: Seq<CodecType>) -> Option<CodecType> {
    match media.negotiated_audio {
        Some(a) => Some(a.0),
        None => match best_audio_of(media.answer_sdp, allow) {
            Some(a) => Some(a.0),
            None => match best_audio_of(media.offer_sdp, allow) {
                Some(a) => Some(a.0),
                None => None,
            },
        },
    }
}

/// Whether an offer has the codec that a leg uses.
pub open spec fn keeps_codec(media: MediaEndpoint, allow: Seq<CodecType>, offer: Seq<char>) -> bool {
    match codec_in_use(media, allow) {
        Some(c) => has_type(audio_of(sdp_codecs(offer)), c),
        None => false,
    }
}

/// The codec that an optional description gives.
fn codec_of(sdp: &Option<String>, allow: &Vec<CodecType>) -> (r: Option<CodecType>)
    ensures
        r == (match best_audio_of(*sdp, allow@) {
            Some(a) => Some(a.0),
            None => None,
        }),
{
    match sdp {
        Some(s) => match MediaEndpoint::select_best_audio_from_sdp(s.as_str(), allow.as_slice()) {
            Some(a) => Some(a.0),
            None => None,
        },
        None => None,
    }
}

/// See [`codec_in_use`].
pub fn current_codec(media: &MediaEndpoint, allow: &Vec<CodecType>) -> (r: Option<CodecType>)
    ensures
        r == codec_in_use(*media, allow@),
{
    if let Some(a) = &media.negotiated_audio {
        return Some(a.0);
    }
    let answered = codec_of(&media.answer_sdp, allow);
    if answered.is_some() {
        return answered;
    }
    codec_of(&media.offer_sdp, allow)
}

impl CallSession {
    /// Whether an offer has the codec that the leg to the target uses.
    pub fn offer_supports_current_callee_codec(&self, offer_sdp: &str) -> (r: bool)
        requires
            self.target_leg is Some,
        ensures
            r == keeps_codec(
                self.target_leg->0.media,
                self.context.dialplan.allow_codecs@,
                offer_sdp@,
            ),
    {
        match &self.target_leg {
            Some(leg) => match current_codec(&leg.media, &self.context.dialplan.allow_codecs) {
                Some(codec) => {
                    let offered = MediaNegotiator::extract_codec_params(offer_sdp);
                    contains_type(&offered.audio, codec)
                },
                None => false,
            },
            None => false,
        }
    }

    /// The answer to a request within a dialog, where it has not been answered yet.
    pub open spec fn reply_due(
        self,
        leg: MidDialogLeg,
        dialog_id: Seq<char>,
        status: u16,
        body: Option<String>,
    ) -> Option<MidDialogReply> {
        if self.shared.replies().dom().contains(leg.key_text(dialog_id)) {
            Some(
                MidDialogReply {
                    handle: self.shared.replies()[leg.key_text(dialog_id)],
                    status,
                    body,
                },
            )
        } else {
            None
        }
    }

    /// Answers a request within a dialog. A request is answered once.
    pub fn respond_to_mid_dialog(
        &mut self,
        leg: MidDialogLeg,
        dialog_id: &str,
        status: u16,
        body: Option<String>,
    ) -> (r: Option<MidDialogReply>)
        requires
            old(self).shared.well_formed(),
        ensures
            r == old(self).reply_due(leg, dialog_id@, status, body),
            final(self).shared.well_formed(),
            final(self).shared.replies() == old(self).shared.replies().remove(
                leg.key_text(dialog_id@),
            ),
            final(self).shared.inner == old(self).shared.inner,
            final(self).shared.entry == old(self).shared.entry,
            final(self).shared.log() == old(self).shared.log(),
            final(self).shared.surface == old(self).shared.surface,
            *final(self) == (CallSession { shared: final(self).shared, ..*old(self) }),
    {
        match self.shared.take_mid_dialog_reply(leg, dialog_id) {
            Some(handle) => Some(MidDialogReply { handle, status, body }),
            None => None,
        }
    }

    /// The base of the answer to a re-INVITE of the callee: the last answer, else
    /// the last offer.
    pub open spec fn callee_base(self) -> Option<String> {
        match self.target_leg->0.media.answer_sdp {
            Some(a) => Some(a),
            None => self.target_leg->0.media.offer_sdp,
        }
    }

    /// Whether the callee's new offer can be accepted.
    pub open spec fn callee_offer_fits(self, offer: Seq<char>) -> bool {
        self.callee_base() is Some && keeps_codec(
            self.target_leg->0.media,
            self.context.dialplan.allow_codecs@,
            offer,
        )
    }

    /// What is forwarded of the callee's media after an offer in direction `d`.
    pub open spec fn forwarding_after(self, d: MediaDirection) -> ForwardingChange {
        let scope = if self.bridge_runtime.media_bridge is Some {
            ForwardingScope::BothLegs
        } else {
            ForwardingScope::ExportedLeg
        };
        if d is SendOnly || d is Inactive {
            ForwardingChange::Suppress(scope)
        } else {
            ForwardingChange::Resume(scope)
        }
    }

    fn accept_callee_offer(&mut self, offer: String, base: &str) -> (r: (String, ForwardingChange))
        requires
            old(self).target_leg is Some,
        ensures
            r.0@ == lines_text(answer_lines(base@, offer@)),
            r.1 == old(self).forwarding_after(direction_of(offer@)),
            *final(self) == (CallSession {
                target_leg: Some(
                    CallLeg {
                        negotiation_state: NegotiationState::Stable,
                        media: MediaEndpoint {
                            offer_sdp: Some(offer),
                            answer_sdp: Some(r.0),
                            ..old(self).target_leg->0.media
                        },
                        ..old(self).target_leg->0
                    },
                ),
                ..*old(self)
            }),
    {
        let direction = media_direction_from_sdp(offer.as_str());
        let answer = rewrite_sdp_direction(base, offer.as_str());
        let scope = self.bridge_runtime.forwarding_scope();
        if let Some(leg) = self.target_leg.take() {
            let mut leg = leg;
            leg.media.offer_sdp = Some(offer);
            leg.media.answer_sdp = Some(answer.clone());
            leg.negotiation_state = NegotiationState::Stable;
            self.target_leg = Some(leg);
        }
        let change = match direction {
            MediaDirection::SendOnly | MediaDirection::Inactive => ForwardingChange::Suppress(scope),
            _ => ForwardingChange::Resume(scope),
        };
        (answer, change)
    }

    fn settle_target(&mut self)
        requires
            old(self).target_leg is Some,
        ensures
            *final(self) == (CallSession {
                target_leg: Some(
                    CallLeg {
                        negotiation_state: NegotiationState::Stable,
                        ..old(self).target_leg->0
                    },
                ),
                ..*old(self)
            }),
    {
        if let Some(leg) = self.target_leg.take() {
            let mut leg = leg;
            leg.negotiation_state = NegotiationState::Stable;
            self.target_leg = Some(leg);
        }
    }

    /// The session after a request within a dialog has been answered, but for what
    /// `after` has of its own beside the shared state.
    pub open spec fn answered_on(self, after: CallSession, leg: MidDialogLeg, dialog_id: Seq<char>) -> bool {
        &&& after.shared.well_formed()
        &&& after.shared.replies() == self.shared.replies().remove(leg.key_text(dialog_id))
        &&& after.shared.inner == self.shared.inner
        &&& after.shared.entry == self.shared.entry
        &&& after.shared.log() == self.shared.log()
        &&& after.shared.surface == self.shared.surface
    }

    /// What a re-INVITE or UPDATE of the callee leads to. An offer that lacks the
    /// codec in use, or comes before anything was negotiated, is refused with 488;
    /// any other is answered with what was negotiated, in the mirrored direction.
    pub open spec fn callee_reinvited(
        self,
        after: CallSession,
        method: Method,
        dialog_id: Seq<char>,
        sdp: Option<String>,
        r: ReInviteOutcome,
    ) -> bool {
        let before = self.target_leg->0.media;
        let media = after.target_leg->0.media;
        &&& r.forward_offer is None
        &&& match sdp {
            Some(offer) => if self.callee_offer_fits(offer@) {
                &&& media == (MediaEndpoint {
                    offer_sdp: Some(offer),
                    answer_sdp: media.answer_sdp,
                    ..before
                })
                &&& opt_text(media.answer_sdp) == Some(
                    lines_text(answer_lines(self.callee_base()->0@, offer@)),
                )
                &&& r.reply == self.reply_due(MidDialogLeg::Callee, dialog_id, 200, media.answer_sdp)
                &&& r.forwarding == Some(self.forwarding_after(direction_of(offer@)))
            } else {
                &&& media == before
                &&& r.reply == self.reply_due(MidDialogLeg::Callee, dialog_id, 488, None)
                &&& r.forwarding is None
            },
            None => {
                &&& media == before
                &&& r.reply == self.reply_due(
                    MidDialogLeg::Callee,
                    dialog_id,
                    200,
                    if method is Update {
                        None
                    } else {
                        before.answer_sdp
                    },
                )
                &&& r.forwarding is None
            },
        }
        &&& self.answered_on(after, MidDialogLeg::Callee, dialog_id)
        &&& after == (CallSession {
            target_leg: Some(
                CallLeg {
                    media,
                    negotiation_state: NegotiationState::Stable,
                    ..self.target_leg->0
                },
            ),
            shared: after.shared,
            ..self
        })
    }

    /// Handles a re-INVITE or UPDATE of the callee, see
    /// [`CallSession::callee_reinvited`].
    pub fn handle_callee_reinvite(&mut self, method: Method, dialog_id: &str, sdp: Option<String>) -> (r:
        ReInviteOutcome)
        requires
            old(self).target_leg is Some,
            old(self).shared.well_formed(),
        ensures
            old(self).callee_reinvited(*final(self), method, dialog_id@, sdp, r),
    {
        match sdp {
            Some(offer) => {
                let supported = self.offer_supports_current_callee_codec(offer.as_str());
                let base = match &self.target_leg {
                    Some(leg) => match &leg.media.answer_sdp {
                        Some(a) => Some(a.clone()),
                        None => own_opt(&leg.media.offer_sdp),
                    },
                    None => None,
                };
                match base {
                    Some(b) if supported => {
                        let (answer, change) = self.accept_callee_offer(offer, b.as_str());
                        let reply = self.respond_to_mid_dialog(
                            MidDialogLeg::Callee,
                            dialog_id,
                            200,
                            Some(answer),
                        );
                        ReInviteOutcome { reply, forwarding: Some(change), forward_offer: None }
                    },
                    _ => {
                        self.settle_target();
                        let reply = self.respond_to_mid_dialog(
                            MidDialogLeg::Callee,
                            dialog_id,
                            488,
                            None,
                        );
                        ReInviteOutcome { reply, forwarding: None, forward_offer: None }
                    },
                }
            },
            None => {
                self.settle_target();
                let body = if method == Method::Update {
                    None
                } else {
                    match &self.target_leg {
                        Some(leg) => own_opt(&leg.media.answer_sdp),
                        None => None,
                    }
                };
                let reply = self.respond_to_mid_dialog(MidDialogLeg::Callee, dialog_id, 200, body);
                ReInviteOutcome { reply, forwarding: None, forward_offer: None }
            },
        }
    }

    /// The answer of the exported leg, which the shared state may know first.
    pub open spec fn exported_answer(self) -> Option<String> {
        match self.exported_leg.media.answer_sdp {
            Some(a) => Some(a),
            None => self.shared.inner.answer_sdp,
        }
    }

    /// What a re-INVITE or UPDATE of the caller leads to. `offer_applied` says whether
    /// the media of the exported leg took the offer. An offer that was taken is sent
    /// on to the callee and answered with the answer in use; where there is none, or
    /// the offer was not taken, it is refused with 488.
    pub open spec fn caller_reinvited(
        self,
        after: CallSession,
        method: Method,
        dialog_id: Seq<char>,
        sdp: Option<String>,
        offer_applied: bool,
        r: ReInviteOutcome,
    ) -> bool {
        let answer = self.exported_leg.media.answer_sdp;
        &&& r.forwarding is None
        &&& r.forward_offer == (if sdp is Some && offer_applied {
            match self.target_leg->0.sip.connected_dialog_id {
                Some(d) => Some(ForwardedOffer { dialog_id: d, as_invite: method is Invite }),
                None => None,
            }
        } else {
            None
        })
        &&& r.reply == (match sdp {
            Some(_) => if offer_applied && answer is Some {
                self.reply_due(MidDialogLeg::Caller, dialog_id, 200, answer)
            } else {
                self.reply_due(MidDialogLeg::Caller, dialog_id, 488, None)
            },
            None => self.reply_due(
                MidDialogLeg::Caller,
                dialog_id,
                200,
                if method is Invite {
                    answer
                } else {
                    None
                },
            ),
        })
        &&& self.answered_on(after, MidDialogLeg::Caller, dialog_id)
        &&& after == (CallSession {
            exported_leg: CallLeg {
                negotiation_state: NegotiationState::Stable,
                ..self.exported_leg
            },
            shared: after.shared,
            ..self
        })
    }

    /// Handles a re-INVITE or UPDATE of the caller, see
    /// [`CallSession::caller_reinvited`].
    pub fn handle_caller_reinvite(
        &mut self,
        method: Method,
        dialog_id: &str,
        sdp: Option<String>,
        offer_applied: bool,
    ) -> (r: ReInviteOutcome)
        requires
            sdp is Some && offer_applied ==> old(self).target_leg is Some,
            old(self).shared.well_formed(),
        ensures
            old(self).caller_reinvited(*final(self), method, dialog_id@, sdp, offer_applied, r),
    {
        self.exported_leg.negotiation_state = NegotiationState::Stable;
        let answer = own_opt(&self.exported_leg.media.answer_sdp);
        if sdp.is_none() {
            let body = if method == Method::Invite {
                answer
            } else {
                None
            };
            let reply = self.respond_to_mid_dialog(MidDialogLeg::Caller, dialog_id, 200, body);
            return ReInviteOutcome { reply, forwarding: None, forward_offer: None };
        }
        if !offer_applied {
            let reply = self.respond_to_mid_dialog(MidDialogLeg::Caller, dialog_id, 488, None);
            return ReInviteOutcome { reply, forwarding: None, forward_offer: None };
        }
        let forward_offer = match &self.target_leg {
            Some(leg) => leg.sip.forward_remote_offer(method == Method::Invite),
            None => None,
        };
        let status: u16 = if answer.is_none() {
            488
        } else {
            200
        };
        let reply = self.respond_to_mid_dialog(MidDialogLeg::Caller, dialog_id, status, answer);
        ReInviteOutcome { reply, forwarding: None, forward_offer }
    }

    /// The session with the answer of the exported leg filled in.
    pub open spec fn with_known_answer(self) -> CallSession {
        CallSession {
            exported_leg: CallLeg {
                media: MediaEndpoint {
                    answer_sdp: self.exported_answer(),
                    ..self.exported_leg.media
                },
                ..self.exported_leg
            },
            ..self
        }
    }

    /// Fills in the answer of the exported leg before a re-INVITE is handled.
    pub fn recall_answer(&mut self)
        ensures
            *final(self) == old(self).with_known_answer(),
    {
        if self.exported_leg.media.answer_sdp.is_none() {
            self.exported_leg.media.answer_sdp = self.shared.answer_sdp();
        }
    }

    /// What a re-INVITE or UPDATE on a leg leads to, see
    /// [`CallSession::callee_reinvited`] and [`CallSession::caller_reinvited`].
    pub open spec fn reinvited(
        self,
        after: CallSession,
        leg: MidDialogLeg,
        method: Method,
        dialog_id: Seq<char>,
        sdp: Option<String>,
        offer_applied: bool,
        r: ReInviteOutcome,
    ) -> bool {
        match leg {
            MidDialogLeg::Callee => self.with_known_answer().callee_reinvited(
                after,
                method,
                dialog_id,
                sdp,
                r,
            ),
            MidDialogLeg::Caller => self.with_known_answer().caller_reinvited(
                after,
                method,
                dialog_id,
                sdp,
                offer_applied,
                r,
            ),
        }
    }

    /// Handles a re-INVITE or UPDATE on a leg, see [`CallSession::reinvited`].
    pub fn handle_reinvite(
        &mut self,
        leg: MidDialogLeg,
        method: Method,
        dialog_id: &str,
        sdp: Option<String>,
        offer_applied: bool,
    ) -> (r: ReInviteOutcome)
        requires
            leg is Callee || (sdp is Some && offer_applied) ==> old(self).target_leg is Some,
            old(self).shared.well_formed(),
        ensures
            old(self).reinvited(*final(self), leg, method, dialog_id@, sdp, offer_applied, r),
    {
        self.recall_answer();
        match leg {
            MidDialogLeg::Callee => self.handle_callee_reinvite(method, dialog_id, sdp),
            MidDialogLeg::Caller => self.handle_caller_reinvite(
                method,
                dialog_id,
                sdp,
                offer_applied,
            ),
        }
    }
}

/// A request within a dialog is answered once: a second answer finds nothing to
/// answer.
pub proof fn request_is_answered_once(
    s: CallSession,
    after: CallSession,
    leg: MidDialogLeg,
    dialog_id: Seq<char>,
    status: u16,
    body: Option<String>,
)
    requires
        after.shared.replies() == s.shared.replies().remove(leg.key_text(dialog_id)),
    ensures
        after.reply_due(leg, dialog_id, status, body) is None,
{
}

/// The text of a request method in capital letters.
pub uninterp spec fn unicode_upper(s: Seq<char>) -> Seq<char>;

/// `str::to_uppercase`: a text of ASCII characters has its letters in upper case.
#[verifier::external_body]
fn to_uppercase(text: &str) -> (r: String)
    ensures
        r@ == unicode_upper(text@),
        (forall|i: int| 0 <= i < text@.len() ==> (#[trigger] text@[i]) as u32 <= 127) ==> r@ == upper(
            text@,
        ),
{
    text.to_uppercase()
}

/// `uuid::Uuid::new_v4`: a random identifier as text, which has 36 characters.
#[verifier::external_body]
pub(crate) fn random_uuid() -> (r: String)
    ensures
        r@.len() == 36,
{
    uuid::Uuid::new_v4().to_string()
}

/// The method of a request within a dialog, given in capital letters: anything
/// but an UPDATE is taken for an INVITE.
pub fn reinvite_method(upper: &str) -> (r: Method)
    ensures
        r == (if upper@ == "UPDATE"@ {
            Method::Update
        } else {
            Method::Invite
        }),
{
    if same(upper, "UPDATE") {
        Method::Update
    } else {
        Method::Invite
    }
}

/// What a command asks of the media and signalling of the call.
#[derive(Clone, Debug)]
pub enum ActionPlan {
    /// The caller's dialog is ended so, and the session is cancelled.
    EndCall(InboundHangup),
    Accept { callee: Option<String>, sdp: Option<String>, dialog_id: Option<String> },
    Ring(String),
    Refer(String),
    TransferTo(TransferEndpoint),
    TransferToUri(String),
    ReInvite { leg: MidDialogLeg, method: Method, dialog_id: String, sdp: Option<String> },
    AddCandidates(Vec<String>),
    Play { audio_file: String, await_completion: bool, track_id: String, loop_playback: bool },
    StartRecorder(String),
    StopRecorder(Option<RecordingInfo>),
    RemoveTrack(String),
    HoldCallee(Option<String>),
    UnholdCallee,
    /// Whether there was a bridge that has to be stopped.
    StopBridge(bool),
    StartMixer,
    /// Whether there was a mixer that has to be stopped.
    StopMixer(bool),
    Nothing,
    /// The command names a session that does not exist.
    SessionNotFound(String),
}

/// Whether a command is one that a session carries out.
pub open spec fn is_supported(action: SessionAction) -> bool {
    match action {
        SessionAction::ProvideEarlyMedia(_) | SessionAction::ProvideEarlyMediaWithDialog(_, _)
        | SessionAction::PauseRecording | SessionAction::ResumeRecording
        | SessionAction::RefreshSession | SessionAction::MuteTrack(_)
        | SessionAction::UnmuteTrack(_) => false,
        _ => true,
    }
}

/// Whether a session is among those that are active.
pub open spec fn is_active_session(sessions: Seq<String>, id: Seq<char>) -> bool {
    exists|i: int| 0 <= i < sessions.len() && (#[trigger] sessions[i])@ == id
}

fn find_session(sessions: &Vec<String>, id: &str) -> (r: bool)
    ensures
        r == is_active_session(sessions@, id@),
{
    let mut i: usize = 0;
    while i < sessions.len()
        invariant
            i <= sessions.len(),
            forall|k: int| 0 <= k < i ==> (#[trigger] sessions@[k])@ != id@,
        decreases sessions.len() - i,
    {
        if same(sessions[i].as_str(), id) {
            return true;
        }
        i += 1;
    }
    false
}

impl CallSession {
    /// The session once it is told to hang up: the hangup is noted as a failure,
    /// the call is over, and the request is kept for the teardown.
    pub open spec fn told_to_hang_up(
        self,
        after: CallSession,
        reason: Option<CallRecordHangupReason>,
        code: Option<u16>,
        initiator: Option<String>,
    ) -> bool {
        let status = match code {
            Some(c) => c,
            None => 487,
        };
        let actual = match reason {
            Some(h) => h,
            None => CallRecordHangupReason::Canceled,
        };
        &&& after.last_error matches Some((c, text))
        &&& c == status
        &&& opt_text(text) == (match reason {
            Some(h) => Some(h.name_text()),
            None => None,
        })
        &&& after.hangup_reason == Some(actual)
        &&& after.hangup_messages@ == self.hangup_messages@.push(
            SessionHangupMessage { code: status, reason: text, target: None },
        )
        &&& after.shared.inner == self.shared.inner.failed(status, text).hung_up(actual)
        &&& after.shared.entry == refreshed_entry(self.shared.entry, after.shared.inner)
        &&& after.shared.log() == logged(
            self.shared.log(),
            seq![failure_event(self.shared.inner, status, text, None)] + change_events(
                self.shared.inner,
                self.shared.inner.failed(status, text),
            ) + change_events(self.shared.inner.failed(status, text), after.shared.inner),
        )
        &&& after.shared.pending == self.shared.pending
        &&& after.shared.surface == self.shared.surface
        &&& after.pending_hangup == Some(PendingHangup { reason, code, initiator })
        &&& after == (CallSession {
            last_error: after.last_error,
            hangup_reason: after.hangup_reason,
            hangup_messages: after.hangup_messages,
            pending_hangup: after.pending_hangup,
            shared: after.shared,
            ..self
        })
    }

    fn hang_up(
        &mut self,
        reason: Option<CallRecordHangupReason>,
        code: Option<u16>,
        initiator: Option<String>,
    ) -> (r: InboundHangup)
        ensures
            old(self).told_to_hang_up(*final(self), reason, code, initiator),
            r == old(self).exported_leg.inbound_hangup(
                Some(
                    match code {
                        Some(c) => c,
                        None => 487u16,
                    },
                ),
                final(self).error_text(),
            ),
    {
        let ghost start = *self;
        let status: u16 = match code {
            Some(c) => c,
            None => 487,
        };
        let text = match &reason {
            Some(h) => Some(h.name()),
            None => None,
        };
        let actual = match reason {
            Some(h) => h,
            None => CallRecordHangupReason::Canceled,
        };
        self.set_error(status, own_opt(&text), None);
        let ghost failed = self.shared.inner;
        self.hangup_reason = Some(actual);
        proof {
            logged_twice(
                start.shared.log(),
                seq![failure_event(start.shared.inner, status, text, None)] + change_events(
                    start.shared.inner,
                    failed,
                ),
                change_events(failed, failed.hung_up(actual)),
            );
        }
        self.shared.mark_hangup(actual);
        self.store_pending_hangup(reason, code, initiator);
        self.exported_leg.hangup_inbound(Some(status), text)
    }

    /// Whether the session drives its callee alone, without an inbound dialog.
    pub open spec fn is_originated(self) -> bool {
        self.context.kind is RwiSingleLeg || self.context.kind is AppDriven
    }

    /// Whether the session drives its callee alone, without an inbound dialog.
    pub fn drives_callee(&self) -> (r: bool)
        ensures
            r == self.is_originated(),
    {
        matches!(self.context.kind, SessionKind::RwiSingleLeg | SessionKind::AppDriven)
    }

    /// The session once a supervisor takes part in it.
    pub open spec fn supervised(self, after: CallSession, target: Seq<char>, mode: SupervisorMode) -> bool {
        &&& after.bridge_runtime.supervisor_mixer matches Some(m)
        &&& m.mode == mode
        &&& m.id@ == "supervisor-"@ + self.context.session_id@ + "-"@ + target
        &&& after == (CallSession {
            bridge_runtime: BridgeRuntime {
                supervisor_mixer: after.bridge_runtime.supervisor_mixer,
                ..self.bridge_runtime
            },
            ..self
        })
    }

    fn supervise(&mut self, target: &str, mode: SupervisorMode, sessions: &Vec<String>) -> (r: ActionPlan)
        ensures
            is_active_session(sessions@, target@) ==> r == ActionPlan::StartMixer && old(self).supervised(*final(self), target@, mode),
            !is_active_session(sessions@, target@) ==> r == ActionPlan::Nothing && *final(self)
                == *old(self),
    {
        if find_session(sessions, target) {
            let id = self.context.session_id.clone();
            self.bridge_runtime.start_supervisor_mode(id.as_str(), target, mode);
            ActionPlan::StartMixer
        } else {
            ActionPlan::Nothing
        }
    }

    /// What a command does to the session and asks of its media and signalling.
    pub open spec fn applies(
        self,
        action: SessionAction,
        endpoint: Option<TransferEndpoint>,
        sessions: Seq<String>,
        now: u64,
        plan: ActionPlan,
        after: CallSession,
    ) -> bool {
        match action {
            SessionAction::Hangup { reason, code, initiator } => {
                &&& self.told_to_hang_up(after, reason, code, initiator)
                &&& plan == ActionPlan::EndCall(
                    self.exported_leg.inbound_hangup(
                        Some(
                            match code {
                                Some(c) => c,
                                None => 487u16,
                            },
                        ),
                        after.error_text(),
                    ),
                )
            },
            SessionAction::AcceptCall { callee, sdp, dialog_id } => plan == (ActionPlan::Accept {
                callee,
                sdp,
                dialog_id,
            }) && after == self,
            SessionAction::StartRinging { ringback, passthrough } => {
                &&& plan is Ring
                &&& plan->Ring_0@ == (match ringback {
                    Some(t) => t@,
                    None => Seq::<char>::empty(),
                })
                &&& after == self
            },
            SessionAction::TransferTarget(target) => {
                &&& plan == (if self.is_originated() {
                    ActionPlan::Refer(target)
                } else {
                    match endpoint {
                        Some(e) => ActionPlan::TransferTo(e),
                        None => ActionPlan::TransferToUri(target),
                    }
                })
                &&& after == self
            },
            SessionAction::HandleReInvite { leg, method, sdp, dialog_id } => {
                &&& plan == (ActionPlan::ReInvite {
                    leg,
                    method: if unicode_upper(method@) == "UPDATE"@ {
                        Method::Update
                    } else {
                        Method::Invite
                    },
                    dialog_id,
                    sdp,
                })
                &&& after == self
            },
            SessionAction::HandleTrickleIce(payload) => {
                &&& plan is AddCandidates
                &&& texts(plan->AddCandidates_0@) == candidates_of(split_on(payload@, '\n'))
                &&& after == self
            },
            SessionAction::PlayPrompt {
                audio_file,
                send_progress,
                await_completion,
                track_id,
                loop_playback,
                interrupt_on_dtmf,
            } => {
                &&& plan is Play
                &&& plan == (ActionPlan::Play {
                    audio_file,
                    await_completion,
                    track_id: plan->Play_track_id,
                    loop_playback,
                })
                &&& match track_id {
                    Some(t) => plan->Play_track_id == t,
                    None => plan->Play_track_id@.len() == 36,
                }
                &&& after == self
            },
            SessionAction::StartRecording { path, max_duration, beep } => {
                &&& plan == ActionPlan::StartRecorder(path)
                &&& after == (CallSession {
                    recording_state: Some((path, now)),
                    exported_leg: CallLeg {
                        media: MediaEndpoint {
                            directional_recorder_option: Some(path),
                            ..self.exported_leg.media
                        },
                        ..self.exported_leg
                    },
                    ..self
                })
            },
            SessionAction::StopRecording => {
                &&& plan == ActionPlan::StopRecorder(
                    match self.recording_state {
                        Some((path, started)) => if self.app_listens {
                            Some(
                                RecordingInfo {
                                    path,
                                    duration: elapsed(now, started) as u64,
                                    size_bytes: 0,
                                },
                            )
                        } else {
                            None
                        },
                        None => None,
                    },
                )
                &&& after == (CallSession {
                    recording_state: None,
                    exported_leg: CallLeg {
                        media: MediaEndpoint {
                            directional_recorder_option: None,
                            ..self.exported_leg.media
                        },
                        ..self.exported_leg
                    },
                    ..self
                })
            },
            SessionAction::StopPlayback => plan is RemoveTrack && plan->RemoveTrack_0@ == "prompt"@
                && after == self,
            SessionAction::Hold { music_source } => {
                &&& after == self
                &&& if self.is_originated() {
                    plan == ActionPlan::HoldCallee(music_source)
                } else if music_source is Some && music_source->0@.len() > 0 {
                    &&& plan is Play
                    &&& plan == (ActionPlan::Play {
                        audio_file: music_source->0,
                        await_completion: true,
                        track_id: plan->Play_track_id,
                        loop_playback: true,
                    })
                    &&& plan->Play_track_id@ == "hold_music"@
                } else {
                    plan == ActionPlan::Nothing
                }
            },
            SessionAction::Unhold => {
                &&& after == self
                &&& if self.is_originated() {
                    plan == ActionPlan::UnholdCallee
                } else {
                    plan is RemoveTrack && plan->RemoveTrack_0@ == "hold_music"@
                }
            },
            SessionAction::BridgeTo { target_session_id } => {
                &&& after == self
                &&& plan == (if is_active_session(sessions, target_session_id@) {
                    ActionPlan::Nothing
                } else {
                    ActionPlan::SessionNotFound(target_session_id)
                })
            },
            SessionAction::Unbridge => {
                &&& plan == ActionPlan::StopBridge(self.bridge_runtime.media_bridge is Some)
                &&& after == (CallSession {
                    bridge_runtime: BridgeRuntime { media_bridge: None, ..self.bridge_runtime },
                    ..self
                })
            },
            SessionAction::SupervisorListen { target_session_id } => self.supervision_applies(
                target_session_id@,
                SupervisorMode::Listen,
                sessions,
                plan,
                after,
            ),
            SessionAction::SupervisorWhisper { target_session_id } => self.supervision_applies(
                target_session_id@,
                SupervisorMode::Whisper,
                sessions,
                plan,
                after,
            ),
            SessionAction::SupervisorBarge { target_session_id } => self.supervision_applies(
                target_session_id@,
                SupervisorMode::Barge,
                sessions,
                plan,
                after,
            ),
            SessionAction::SupervisorStop => {
                &&& plan == ActionPlan::StopMixer(self.bridge_runtime.supervisor_mixer is Some)
                &&& after == (CallSession {
                    bridge_runtime: BridgeRuntime { supervisor_mixer: None, ..self.bridge_runtime },
                    ..self
                })
            },
            SessionAction::StartSupervisorMode { supervisor_session_id, target_session_id, mode } => plan
                == ActionPlan::Nothing && after == self,
            _ => true,
        }
    }

    /// What a supervisor's command does: nothing where the target does not exist.
    pub open spec fn supervision_applies(
        self,
        target: Seq<char>,
        mode: SupervisorMode,
        sessions: Seq<String>,
        plan: ActionPlan,
        after: CallSession,
    ) -> bool {
        if is_active_session(sessions, target) {
            plan == ActionPlan::StartMixer && self.supervised(after, target, mode)
        } else {
            plan == ActionPlan::Nothing && after == self
        }
    }

    /// Carries out a command. `endpoint` is the endpoint that the target of a
    /// transfer names, where it names one, and `sessions` are the sessions that
    /// are active.
    pub fn apply_session_action(
        &mut self,
        action: SessionAction,
        endpoint: Option<TransferEndpoint>,
        sessions: &Vec<String>,
        now: u64,
    ) -> (r: ActionPlan)
        requires
            is_supported(action),
        ensures
            old(self).applies(action, endpoint, sessions@, now, r, *final(self)),
            action matches SessionAction::HandleReInvite { method, .. } ==> {
                &&& method@ == "UPDATE"@ ==> r->ReInvite_method == Method::Update
                &&& method@ == "INVITE"@ ==> r->ReInvite_method == Method::Invite
            },
    {
        match action {
            SessionAction::Hangup { reason, code, initiator } => ActionPlan::EndCall(
                self.hang_up(reason, code, initiator),
            ),
            SessionAction::AcceptCall { callee, sdp, dialog_id } => ActionPlan::Accept {
                callee,
                sdp,
                dialog_id,
            },
            SessionAction::StartRinging { ringback, passthrough: _ } => ActionPlan::Ring(
                match ringback {
                    Some(t) => t,
                    None => String::new(),
                },
            ),
            SessionAction::TransferTarget(target) => {
                if self.drives_callee() {
                    ActionPlan::Refer(target)
                } else {
                    match endpoint {
                        Some(e) => ActionPlan::TransferTo(e),
                        None => ActionPlan::TransferToUri(target),
                    }
                }
            },
            SessionAction::HandleReInvite { leg, method, sdp, dialog_id } => {
                let capitals = to_uppercase(method.as_str());
                proof {
                    reveal_strlit("UPDATE");
                    reveal_strlit("INVITE");
                    assert(upper("UPDATE"@) =~= "UPDATE"@);
                    assert(upper("INVITE"@) =~= "INVITE"@);
                    assert("INVITE"@[0] != "UPDATE"@[0]);
                }
                ActionPlan::ReInvite {
                    leg,
                    method: reinvite_method(capitals.as_str()),
                    dialog_id,
                    sdp,
                }
            },
            SessionAction::HandleTrickleIce(payload) => ActionPlan::AddCandidates(
                trickled_candidates(payload.as_str()),
            ),
            SessionAction::PlayPrompt {
                audio_file,
                send_progress: _,
                await_completion,
                track_id,
                loop_playback,
                interrupt_on_dtmf: _,
            } => {
                let track_id = match track_id {
                    Some(t) => t,
                    None => random_uuid(),
                };
                ActionPlan::Play { audio_file, await_completion, track_id, loop_playback }
            },
            SessionAction::StartRecording { path, max_duration: _, beep: _ } => {
                start_recording(
                    &mut self.exported_leg.media,
                    &mut self.recording_state,
                    path.clone(),
                    now,
                );
                ActionPlan::StartRecorder(path)
            },
            SessionAction::StopRecording => {
                let listens = self.app_listens;
                let info = stop_recording(
                    &mut self.exported_leg.media,
                    &mut self.recording_state,
                    listens,
                    now,
                );
                ActionPlan::StopRecorder(info)
            },
            SessionAction::StopPlayback => ActionPlan::RemoveTrack(own("prompt")),
            SessionAction::Hold { music_source } => {
                if self.drives_callee() {
                    ActionPlan::HoldCallee(music_source)
                } else {
                    match music_source {
                        Some(file) if !file.as_str().is_empty() => ActionPlan::Play {
                            audio_file: file,
                            await_completion: true,
                            track_id: own("hold_music"),
                            loop_playback: true,
                        },
                        _ => ActionPlan::Nothing,
                    }
                }
            },
            SessionAction::Unhold => {
                if self.drives_callee() {
                    ActionPlan::UnholdCallee
                } else {
                    ActionPlan::RemoveTrack(own("hold_music"))
                }
            },
            SessionAction::BridgeTo { target_session_id } => {
                if find_session(sessions, target_session_id.as_str()) {
                    ActionPlan::Nothing
                } else {
                    ActionPlan::SessionNotFound(target_session_id)
                }
            },
            SessionAction::Unbridge => ActionPlan::StopBridge(self.bridge_runtime.clear_bridge()),
            SessionAction::SupervisorListen { target_session_id } => self.supervise(
                target_session_id.as_str(),
                SupervisorMode::Listen,
                sessions,
            ),
            SessionAction::SupervisorWhisper { target_session_id } => self.supervise(
                target_session_id.as_str(),
                SupervisorMode::Whisper,
                sessions,
            ),
            SessionAction::SupervisorBarge { target_session_id } => self.supervise(
                target_session_id.as_str(),
                SupervisorMode::Barge,
                sessions,
            ),
            SessionAction::SupervisorStop => ActionPlan::StopMixer(
                self.bridge_runtime.stop_supervisor_mode(),
            ),
            SessionAction::StartSupervisorMode { .. } => ActionPlan::Nothing,
            _ => ActionPlan::Nothing,
        }
    }
}

/// A command to hang up ends the call for its observers, and the teardown finds
/// the command.
pub proof fn hangup_ends_the_call(
    s: CallSession,
    after: CallSession,
    reason: Option<CallRecordHangupReason>,
    code: Option<u16>,
    initiator: Option<String>,
)
    requires
        s.told_to_hang_up(after, reason, code, initiator),
    ensures
        after.shared.inner.phase is Ended,
        after.shared.inner.hangup_reason == after.hangup_reason,
        hangup_outcome(after.pending_hangup).2 == reason,
        after.hangup_reason is Some,
{
}

/// A hangup with one of the codes in use is answered with that code.
pub proof fn requested_code_is_used(p: PendingHangup)
    requires
        p.code is Some,
    ensures
        known_status(p.code->0) is Some ==> hangup_outcome(Some(p)).0 == p.code->0,
        known_status(p.code->0) is None ==> hangup_outcome(Some(p)).0 == 487,
{
}

/// How the caller's dialog is ended in the teardown.
#[derive(Clone, Debug)]
pub enum CallerCleanup {
    /// It is over already.
    Nothing,
    Bye,
    Reject(u16, Option<String>),
}

/// What the teardown of a session begins with.
#[derive(Debug)]
pub struct TerminationPlan {
    /// Whether there is a bridge that has to be stopped.
    pub stop_bridge: bool,
    /// The dialogs to the target that are hung up.
    pub callee_dialogs: Vec<DialogId>,
    pub caller: CallerCleanup,
}

/// The seconds that the dialogs are given to end.
pub const TERMINATION_GRACE_SECS: u64 = 3;

/// The snapshot once the teardown has begun.
pub open spec fn torn_down(s: CallSessionSnapshot) -> CallSessionSnapshot {
    if s.phase is Ended || s.phase is Terminating {
        s
    } else {
        s.in_phase(ProxyCallPhase::Terminating)
    }
}

impl CallSession {
    /// Whether the caller's dialog is ended by a BYE: the call was answered and one
    /// of the parties hung up.
    pub open spec fn ends_with_bye(self) -> bool {
        (self.hangup_reason == Some(CallRecordHangupReason::ByCallee) || self.hangup_reason == Some(
            CallRecordHangupReason::ByCaller,
        )) && (self.exported_leg.dialog_is(DialogPhase::Confirmed, false)
            || self.exported_leg.dialog_is(DialogPhase::WaitAck, false))
    }

    /// Whether `c` is how the caller's dialog is ended: not at all where it is over,
    /// by a BYE after a call, else by a refusal. The refusal has the code and text
    /// of the failure where the plan passes failures through.
    pub open spec fn is_caller_cleanup(self, c: CallerCleanup) -> bool {
        if self.exported_leg.dialog_is(DialogPhase::Terminated, true) {
            c is Nothing
        } else if self.ends_with_bye() {
            c is Bye
        } else if self.context.dialplan.passthrough_failure && self.last_error is Some {
            self.last_error matches Some((code, text)) && c == CallerCleanup::Reject(code, text)
        } else {
            c is Reject && c->Reject_0 == 500 && opt_text(c->Reject_1) == Some("Call failed"@)
        }
    }

    /// See [`CallSession::is_caller_cleanup`].
    pub fn caller_cleanup(&self) -> (r: CallerCleanup)
        ensures
            self.is_caller_cleanup(r),
    {
        if self.exported_leg.is_server_dialog_terminated() {
            return CallerCleanup::Nothing;
        }
        let normal_hangup = matches!(
            self.hangup_reason,
            Some(CallRecordHangupReason::ByCallee) | Some(CallRecordHangupReason::ByCaller)
        );
        if normal_hangup && (self.exported_leg.is_server_dialog_confirmed()
            || self.exported_leg.is_server_dialog_waiting_ack()) {
            return CallerCleanup::Bye;
        }
        if self.context.dialplan.passthrough_failure {
            if let Some(e) = &self.last_error {
                return CallerCleanup::Reject(e.0, own_opt(&e.1));
            }
        }
        CallerCleanup::Reject(500, Some(own("Call failed")))
    }

    /// The session once the reason of its end is settled: a reason that is known
    /// stays; else the hangup that was asked for counts, and is noted as a failure
    /// where none was noted before.
    pub open spec fn end_settled(self, after: CallSession) -> bool {
        let o = hangup_outcome(self.pending_hangup);
        if self.hangup_reason is Some {
            after == self
        } else if self.last_error is Some {
            after == (CallSession { pending_hangup: None, hangup_reason: o.2, ..self })
        } else {
            &&& after.last_error is Some
            &&& opt_text(after.error_text()) == Some(o.1)
            &&& (CallSession { pending_hangup: None, hangup_reason: o.2, ..self }).failed(
                after,
                o.0,
                after.error_text(),
                None,
            )
        }
    }

    fn settle_end(&mut self)
        ensures
            old(self).end_settled(*final(self)),
    {
        if self.hangup_reason.is_some() {
            return;
        }
        let (code, text, reason) = self.resolve_pending_hangup();
        if reason.is_some() {
            self.hangup_reason = reason;
        }
        if self.last_error.is_none() {
            self.set_error(code, text, None);
        }
    }

    /// The session once the teardown has begun, before its end is settled.
    pub open spec fn teardown_begun(self, after: CallSession) -> bool {
        &&& if self.shared.inner.phase is Ended || self.shared.inner.phase is Terminating {
            after.shared == self.shared
        } else {
            self.shared.becomes(torn_down(self.shared.inner), after.shared)
        }
        &&& after == (CallSession { shared: after.shared, ..self })
    }

    /// Whether the teardown leads from `self` to `after` with `mid` in between: the
    /// phase changes, the reason of the end is settled, and the cleanup is noted.
    pub open spec fn torn_down_through(self, mid: CallSession, after: CallSession, now: u64) -> bool {
        &&& self.teardown_begun(mid)
        &&& after.termination_state == Some(
            TerminationState {
                started_at: now,
                caller_cleanup_sent: !self.exported_leg.dialog_is(DialogPhase::Terminated, true),
                callee_cleanup_sent: true,
                grace_deadline: (now + TERMINATION_GRACE_SECS * 1000) as u64,
            },
        )
        &&& mid.end_settled((CallSession { termination_state: self.termination_state, ..after }))
    }

    /// Begins the teardown: the phase changes, the reason of the end is settled,
    /// the bridge is stopped, and the dialogs of both legs are ended.
    pub fn enter_terminating(&mut self, now: u64) -> (r: TerminationPlan)
        requires
            now + TERMINATION_GRACE_SECS * 1000 <= u64::MAX,
        ensures
            exists|mid: CallSession| #[trigger] old(self).torn_down_through(mid, *final(self), now),
            r.stop_bridge == (old(self).bridge_runtime.media_bridge is Some),
            r.callee_dialogs@ == (match old(self).target_leg {
                Some(l) => l.sip.active_dialog_ids@,
                None => Seq::<DialogId>::empty(),
            }),
            final(self).is_caller_cleanup(r.caller),
    {
        let ghost start = *self;
        let _moved = self.shared.transition_to_terminating();
        let ghost mid = *self;
        self.settle_end();
        let stop_bridge = self.bridge_runtime.is_active();
        let mut state = TerminationState::new(TERMINATION_GRACE_SECS, now);
        let callee_dialogs = match &self.target_leg {
            Some(l) => l.terminate_client_dialogs(),
            None => Vec::new(),
        };
        state.callee_cleanup_sent = true;
        let caller = self.caller_cleanup();
        if !self.exported_leg.is_server_dialog_terminated() {
            state.caller_cleanup_sent = true;
        }
        let ghost settled = *self;
        self.termination_state = Some(state);
        proof {
            assert(CallSession { termination_state: start.termination_state, ..*self } == settled);
            assert(start.torn_down_through(mid, *self, now));
        }
        TerminationPlan { stop_bridge, callee_dialogs, caller }
    }

    /// Whether the legs that were told to end have ended.
    pub open spec fn can_finalize(self) -> bool {
        match self.termination_state {
            None => true,
            Some(t) => {
                &&& t.caller_cleanup_sent ==> self.exported_leg.dialog_is(
                    DialogPhase::Terminated,
                    true,
                )
                &&& t.callee_cleanup_sent ==> match self.target_leg {
                    Some(l) => l.sip.active_dialog_ids@.len() == 0,
                    None => true,
                }
            },
        }
    }

    /// Whether the legs that were told to end have ended.
    pub fn can_finalize_termination(&self) -> (r: bool)
        ensures
            r == self.can_finalize(),
    {
        match &self.termination_state {
            None => true,
            Some(t) => {
                let caller_ok = if t.caller_cleanup_sent {
                    self.exported_leg.is_server_dialog_terminated()
                } else {
                    true
                };
                let callee_ok = if t.callee_cleanup_sent {
                    match &self.target_leg {
                        Some(l) => l.sip.active_dialog_ids.len() == 0,
                        None => true,
                    }
                } else {
                    true
                };
                caller_ok && callee_ok
            },
        }
    }

    /// Whether the teardown waits no longer: the legs have ended, or the grace
    /// period is over.
    pub fn is_termination_complete(&self, now: u64) -> (r: bool)
        ensures
            r == (self.can_finalize() || (self.termination_state matches Some(t) && now
                >= t.grace_deadline)),
    {
        if self.can_finalize_termination() {
            return true;
        }
        match &self.termination_state {
            Some(t) => now >= t.grace_deadline,
            None => false,
        }
    }

    /// The session once it has ended: the call is reported, unless it was, and is
    /// over.
    pub open spec fn finalized(self, after: CallSession, record: Option<CallSessionRecordSnapshot>) -> bool {
        &&& self.reported(record)
        &&& self.shared.becomes(
            self.shared.inner.hung_up(
                match self.hangup_reason {
                    Some(h) => h,
                    None => CallRecordHangupReason::Canceled,
                },
            ),
            after.shared,
        )
        &&& after == (CallSession { report_due: false, shared: after.shared, ..self })
    }

    /// Whether `record` is what is reported of the call: its record, unless the call
    /// has been reported.
    pub open spec fn reported(self, record: Option<CallSessionRecordSnapshot>) -> bool {
        match record {
            Some(r) => self.report_due && self.is_record(r),
            None => !self.report_due,
        }
    }

    /// Ends the session, see [`CallSession::finalized`].
    pub fn finalize_session(&mut self) -> (r: Option<CallSessionRecordSnapshot>)
        ensures
            old(self).finalized(*final(self), r),
    {
        let snapshot = if self.report_due {
            self.report_due = false;
            Some(self.record_snapshot())
        } else {
            None
        };
        let reason = match self.hangup_reason {
            Some(h) => h,
            None => CallRecordHangupReason::Canceled,
        };
        self.shared.mark_hangup(reason);
        snapshot
    }

    /// The session once it has been let go of: it has left the registry of active
    /// calls, and the call is reported, unless it was.
    pub open spec fn closed(self, after: CallSession, record: Option<CallSessionRecordSnapshot>) -> bool {
        &&& self.reported(record)
        &&& after.shared.entry is None
        &&& after.shared.inner == self.shared.inner
        &&& after.shared.log() == self.shared.log()
        &&& after.shared.pending == self.shared.pending
        &&& after.shared.surface == self.shared.surface
        &&& after == (CallSession { report_due: false, shared: after.shared, ..self })
    }

    /// Lets go of the session, see [`CallSession::closed`], and tells its owner of the
    /// end.
    pub fn close(&mut self) -> (r: (CallHangup, Option<CallSessionRecordSnapshot>))
        ensures
            r.0.call_id == old(self).shared.inner.session_id,
            opt_text(r.0.reason) == (match old(self).shared.inner.hangup_reason {
                Some(h) => Some(h.label_text()),
                None => opt_text(old(self).shared.inner.last_error_reason),
            }),
            r.0.sip_status == (match (
                old(self).shared.inner.last_error_code,
                old(self).shared.inner.hangup_reason,
            ) {
                (Some(c), _) => Some(c),
                (None, Some(_)) => Some(200u16),
                (None, None) => None,
            }),
            old(self).closed(*final(self), r.1),
    {
        let event = self.shared.rwi_hangup_event();
        self.shared.unregister();
        let snapshot = if self.report_due {
            self.report_due = false;
            Some(self.record_snapshot())
        } else {
            None
        };
        (event, snapshot)
    }

    /// The session once it has been cancelled: the hangup that was asked for is
    /// noted as a failure, and gives the reason of the end.
    pub fn note_cancelled(&mut self)
        ensures
            ({
                let o = hangup_outcome(old(self).pending_hangup);
                &&& final(self).last_error == Some((o.0, final(self).error_text()))
                &&& opt_text(final(self).error_text()) == Some(o.1)
                &&& final(self).hangup_reason == Some(
                    match o.2 {
                        Some(h) => h,
                        None => CallRecordHangupReason::Canceled,
                    },
                )
                &&& (CallSession { pending_hangup: None, ..*old(self) }).failed(
                    (CallSession {
                        hangup_reason: Some(CallRecordHangupReason::Failed),
                        ..*final(self)
                    }),
                    o.0,
                    final(self).error_text(),
                    None,
                )
            }),
    {
        let (code, text, reason) = self.resolve_pending_hangup();
        self.set_error(code, text, None);
        let ghost failed = *self;
        self.hangup_reason = match reason {
            Some(h) => Some(h),
            None => Some(CallRecordHangupReason::Canceled),
        };
        assert(CallSession { hangup_reason: failed.hangup_reason, ..*self } == failed);
    }

    /// How long the call may last: as its plan says, else as the transaction says.
    pub fn max_duration(&self) -> (r: Option<u64>)
        ensures
            r == (match self.context.dialplan.max_call_duration {
                Some(d) => Some(d),
                None => self.context.cookie_max_duration,
            }),
    {
        match self.context.dialplan.max_call_duration {
            Some(d) => Some(d),
            None => self.context.cookie_max_duration,
        }
    }

    /// Sets the session timer of the caller's dialog, where timers are in use and
    /// there is such a dialog. An error is the code to refuse the call with.
    pub fn init_server_timer(
        &mut self,
        timers: bool,
        session_expires: Option<u64>,
        headers: &Vec<Header>,
    ) -> (r: Result<(), u16>)
        ensures
            !timers || old(self).exported_leg.sip.server_dialog is None ==> r is Ok && *final(self)
                == *old(self),
            timers && old(self).exported_leg.sip.server_dialog is Some ==> {
                let supported = exists|i: int|
                    0 <= i < headers.len() && names_timer((#[trigger] headers@[i])@);
                match timer_asked(
                    old(self).exported_leg.sip.session_timer,
                    header_views(headers@),
                    supported,
                    match session_expires {
                        Some(e) => e,
                        None => 1800u64,
                    },
                ) {
                    Some(t) => r is Ok && *final(self) == (CallSession {
                        exported_leg: CallLeg {
                            sip: SipLeg { session_timer: t, ..old(self).exported_leg.sip },
                            ..old(self).exported_leg
                        },
                        ..*old(self)
                    }),
                    None => r == Err::<(), u16>(422) && *final(self) == *old(self),
                }
            },
    {
        if !timers || self.exported_leg.sip.server_dialog.is_none() {
            return Ok(());
        }
        let default_expires: u64 = match session_expires {
            Some(e) => e,
            None => 1800,
        };
        match self.exported_leg.sip.init_timer_from_initial_request(headers, default_expires) {
            Ok(()) => Ok(()),
            Err(e) => Err(e.0),
        }
    }
}

/// The caller of an unanswered call is refused, never sent a BYE.
pub proof fn unanswered_caller_is_refused(s: CallSession, c: CallerCleanup)
    requires
        s.exported_leg.dialog_is(DialogPhase::Pending, false),
        s.is_caller_cleanup(c),
    ensures
        c is Reject,
{
}

/// A call is reported once: what is reported when the session ends is not
/// reported again when it is let go of, and what was not is reported then.
pub proof fn call_is_reported_once(
    s: CallSession,
    ended: CallSession,
    gone: CallSession,
    at_end: Option<CallSessionRecordSnapshot>,
    at_close: Option<CallSessionRecordSnapshot>,
)
    requires
        s.finalized(ended, at_end),
        ended.closed(gone, at_close),
    ensures
        at_end is Some == s.report_due,
        at_close is None,
        gone.shared.inner.phase is Ended,
        gone.shared.entry is None,
{
}

/// A session that begins its teardown has a reason for its end, unless the hangup
/// that was asked for gave none while a failure was known.
pub proof fn torn_down_session_has_a_reason(s: CallSession, mid: CallSession, after: CallSession, now: u64)
    requires
        s.torn_down_through(mid, after, now),
        s.last_error is None || s.hangup_reason is Some || s.pending_hangup is None
            || s.pending_hangup->0.reason is Some,
    ensures
        after.hangup_reason is Some,
        after.shared.inner.phase is Terminating || after.shared.inner.phase is Failed
            || after.shared.inner.phase is Ended,
{
}

/// A copy of a negotiated audio codec.
pub fn copy_audio(a: &Option<(CodecType, RtpCodecParameters, Vec<CodecInfo>)>) -> (r: Option<
    (CodecType, RtpCodecParameters, Vec<CodecInfo>),
>)
    ensures
        audio_view(r) == audio_view(*a),
{
    match a {
        Some(t) => Some((t.0, t.1, copy_codecs(&t.2))),
        None => None,
    }
}

/// A description that is more than white space.
pub open spec fn described(sdp: Option<String>) -> Option<String> {
    match sdp {
        Some(s) => if trimmed(s@).len() > 0 {
            Some(s)
        } else {
            None
        },
        None => None,
    }
}

/// See [`described`].
fn unless_blank(sdp: Option<String>) -> (r: Option<String>)
    ensures
        r == described(sdp),
{
    match sdp {
        Some(s) => {
            let t = trim(s.as_str());
            if t.as_str().is_empty() {
                None
            } else {
                Some(s)
            }
        },
        None => None,
    }
}

/// The audio of the two legs of a bridge, once the callee has described its own:
/// the callee's description counts for the callee, and the caller's audio is the
/// one that matches it or the one that the caller negotiated.
pub open spec fn bridge_ends(
    exported: MediaEndpoint,
    callee_sdp: Seq<char>,
    match_codec: bool,
    allow: Seq<CodecType>,
) -> (SelectionView, SelectionView) {
    let callee = match or_else(
        bridged(best_audio(sdp_codecs(callee_sdp), allow), callee_sdp),
        exported.bridge_choice(allow),
    ) {
        Some(b) => b,
        None => default_selection(),
    };
    let matching = if match_codec {
        or_else(
            matching_bridge(exported.answer_sdp, Some(callee.0)),
            matching_bridge(exported.offer_sdp, Some(callee.0)),
        )
    } else {
        exported.bridge_choice(allow)
    };
    let caller = match matching {
        Some(b) => b,
        None => default_selection(),
    };
    (caller, callee)
}

/// Whether a bridge has the audio `ends` and has not been set going.
pub open spec fn is_bridge_of(b: MediaBridge, ends: (SelectionView, SelectionView)) -> bool {
    let (caller, callee) = ends;
    &&& b.codec_a == caller.0
    &&& b.params_a == caller.1
    &&& b.dtmf_codecs_a@ == caller.2
    &&& b.ssrc_a == caller.3
    &&& b.codec_b == callee.0
    &&& b.params_b == callee.1
    &&& b.dtmf_codecs_b@ == callee.2
    &&& b.ssrc_b == callee.3
    &&& !b.started
}

fn select_ends(
    exported: &MediaEndpoint,
    callee_sdp: &str,
    match_codec: bool,
    allow: &Vec<CodecType>,
) -> (r: (BridgeSelection, BridgeSelection))
    ensures
        (r.0.contents(), r.1.contents()) == bridge_ends(*exported, callee_sdp@, match_codec, allow@),
{
    let callee = match MediaEndpoint::bridge_selection_from_sdp(callee_sdp, allow.as_slice()) {
        Some(b) => b,
        None => match exported.bridge_audio_selection(allow.as_slice()) {
            Some(b) => b,
            None => BridgeSelection::explicit_audio_default_selection(),
        },
    };
    let matching = if match_codec {
        exported.bridge_audio_matching(Some(callee.codec))
    } else {
        exported.bridge_audio_selection(allow.as_slice())
    };
    let caller = match matching {
        Some(b) => b,
        None => BridgeSelection::explicit_audio_default_selection(),
    };
    (caller, callee)
}

impl CallSession {
    /// Whether `runtime` has a new bridge of the legs, see [`bridge_ends`], which is
    /// set going or not. `media` is the media of the exported leg.
    pub open spec fn is_newly_bridged(
        self,
        runtime: BridgeRuntime,
        media: MediaEndpoint,
        callee_sdp: Seq<char>,
        match_codec: bool,
        started: bool,
    ) -> bool {
        &&& runtime.media_bridge matches Some(b)
        &&& is_bridge_of(
            (MediaBridge { started: false, ..b }),
            bridge_ends(media, callee_sdp, match_codec, self.context.dialplan.allow_codecs@),
        )
        &&& b.started == started
        &&& b.call_id == (match self.context.dialplan.call_id {
            Some(id) => id,
            None => self.context.session_id,
        })
        &&& runtime == (BridgeRuntime { media_bridge: Some(b), ..self.bridge_runtime })
    }

    /// Bridges the legs, unless they are bridged, see [`bridge_ends`].
    pub fn ensure_media_bridge_from_sdp(&mut self, callee_sdp: &str, match_caller_to_callee_codec: bool)
        ensures
            old(self).bridge_runtime.media_bridge is Some ==> *final(self) == *old(self),
            old(self).bridge_runtime.media_bridge is None ==> old(self).is_newly_bridged(
                final(self).bridge_runtime,
                old(self).exported_leg.media,
                callee_sdp@,
                match_caller_to_callee_codec,
                false,
            ),
            *final(self) == (CallSession {
                bridge_runtime: final(self).bridge_runtime,
                ..*old(self)
            }),
    {
        if self.bridge_runtime.is_active() {
            return;
        }
        let (caller, callee) = select_ends(
            &self.exported_leg.media,
            callee_sdp,
            match_caller_to_callee_codec,
            &self.context.dialplan.allow_codecs,
        );
        let call_id = match &self.context.dialplan.call_id {
            Some(id) => id.clone(),
            None => self.context.session_id.clone(),
        };
        self.bridge_runtime.ensure_media_bridge(caller, callee, call_id);
    }

    /// The offer to a target. Without the media proxy it is the caller's own; with
    /// it, the description `generated` for the target, where that worked, else the
    /// last offer of the leg to the target. An empty description is no offer.
    pub open spec fn target_offer(self, generated: Option<String>) -> Option<String> {
        if !self.use_media_proxy {
            described(self.exported_leg.media.offer_sdp)
        } else {
            match generated {
                Some(s) => described(generated),
                None => match self.target_leg {
                    Some(l) => described(l.media.offer_sdp),
                    None => None,
                },
            }
        }
    }

    /// The session with a leg to the target: the one it has, or a new one.
    pub open spec fn has_target_leg(self, after: CallSession, now: u64) -> bool {
        &&& match self.target_leg {
            Some(l) => after.target_leg == Some(l),
            None => after.target_leg matches Some(l) && is_fresh_leg(
                l,
                self.context.session_id,
                LegRole::Callee,
                CallLegDirection::Outbound,
                None,
                None,
                now,
            ),
        }
        &&& after == (CallSession { target_leg: after.target_leg, ..self })
    }

    /// The session once an offer to a target has been made: it has a leg to the target,
    /// which keeps the description that was generated for it.
    pub open spec fn target_offered(self, after: CallSession, generated: Option<String>, now: u64) -> bool {
        let before = match self.target_leg {
            Some(l) => l.media.offer_sdp,
            None => None,
        };
        &&& after.target_leg matches Some(leg)
        &&& leg.media.offer_sdp == (if self.use_media_proxy && generated is Some {
            generated
        } else {
            before
        })
        &&& self.has_target_leg(
            (CallSession {
                target_leg: Some(
                    CallLeg { media: MediaEndpoint { offer_sdp: before, ..leg.media }, ..leg },
                ),
                ..after
            }),
            now,
        )
    }

    /// The offer to a target, see [`CallSession::target_offer`].
    pub fn create_offer_for_target(&mut self, generated: Option<String>, now: u64) -> (r: Option<String>)
        ensures
            r == old(self).target_offer(generated),
            old(self).target_offered(*final(self), generated, now),
    {
        self.ensure_target_leg(now);
        if !self.use_media_proxy {
            return unless_blank(own_opt(&self.exported_leg.media.offer_sdp));
        }
        match generated {
            Some(s) => {
                if let Some(leg) = self.target_leg.take() {
                    let mut leg = leg;
                    leg.media.offer_sdp = Some(s.clone());
                    self.target_leg = Some(leg);
                }
                unless_blank(Some(s))
            },
            None => match &self.target_leg {
                Some(l) => unless_blank(own_opt(&l.media.offer_sdp)),
                None => None,
            },
        }
    }

    /// Whether `after` is the session once the track to the target has taken the
    /// target's answer: the answer is kept, and gives the audio of the leg.
    pub open spec fn target_answered(self, after: CallSession, sdp: Seq<char>) -> bool {
        &&& self.target_leg matches Some(leg)
        &&& after.target_leg matches Some(set)
        &&& audio_view(set.media.negotiated_audio) == best_audio(
            sdp_codecs(sdp),
            self.context.dialplan.allow_codecs@,
        )
        &&& leg.media.has_remote_answer(
            (MediaEndpoint { negotiated_audio: leg.media.negotiated_audio, ..set.media }),
            sdp,
        )
        &&& set == (CallLeg { media: set.media, ..leg })
        &&& after == (CallSession { target_leg: Some(set), ..self })
    }

    /// Notes the target's answer, which the track to the target has taken.
    pub fn setup_target_track(&mut self, callee_answer_sdp: &str)
        requires
            old(self).target_leg is Some,
        ensures
            old(self).target_answered(*final(self), callee_answer_sdp@),
    {
        let negotiated = MediaEndpoint::select_best_audio_from_sdp(
            callee_answer_sdp,
            self.context.dialplan.allow_codecs.as_slice(),
        );
        if let Some(leg) = self.target_leg.take() {
            let mut leg = leg;
            leg.media.apply_remote_answer(callee_answer_sdp);
            leg.media.select_or_store_negotiated_audio(negotiated);
            self.target_leg = Some(leg);
        }
    }

    /// The contact of outbound requests: the one of the last routed INVITE, else the
    /// caller's, else the server's own.
    pub fn local_contact_uri(&self, default_contact: Option<Uri>) -> (r: Option<Uri>)
        ensures
            self.routed_contact is Some && parsed_uri(self.routed_contact->0@) is Some
                ==> r is Some && Some(r->0@) == parsed_uri(self.routed_contact->0@),
            self.routed_contact is None || parsed_uri(self.routed_contact->0@) is None ==> r == (
            if self.context.dialplan.caller_contact is Some {
                self.context.dialplan.caller_contact
            } else {
                default_contact
            }),
    {
        if let Some(c) = &self.routed_contact {
            if let Some(u) = parse_uri(c.as_str()) {
                return SipLeg::local_contact_uri(Some(u), default_contact);
            }
        }
        let own_contact = match &self.context.dialplan.caller_contact {
            Some(u) => Some(u.copy()),
            None => None,
        };
        SipLeg::local_contact_uri(own_contact, default_contact)
    }

    /// Whether `media` is what is published of the exported leg.
    pub open spec fn is_published_media(self, media: SharedExportedLegMedia) -> bool {
        let leg = self.exported_leg.media;
        &&& media.published
        &&& media.offer_sdp == leg.offer_sdp
        &&& media.answer_sdp == leg.answer_sdp
        &&& audio_view(media.negotiated_audio) == audio_view(leg.negotiated_audio)
        &&& media.ssrc == leg.spec_answered_ssrc()
        &&& media.is_bridged == (self.bridge_runtime.media_bridge is Some)
    }

    /// Publishes the media of the exported leg to the control surfaces.
    pub fn publish_exported_leg_media(&mut self)
        ensures
            old(self).is_published_media(final(self).shared.surface.media),
            *final(self) == (CallSession {
                shared: CallSessionShared {
                    surface: ControlSurface {
                        media: final(self).shared.surface.media,
                        ..old(self).shared.surface
                    },
                    ..old(self).shared
                },
                ..*old(self)
            }),
    {
        let ssrc = self.exported_leg.media.answered_ssrc();
        let active = self.bridge_runtime.is_active();
        self.shared.publish_exported_leg_media(
            own_opt(&self.exported_leg.media.offer_sdp),
            own_opt(&self.exported_leg.media.answer_sdp),
            copy_audio(&self.exported_leg.media.negotiated_audio),
            ssrc,
            active,
        );
    }

    /// The caller's dialog, where there is one.
    pub open spec fn caller_dialogs(self) -> Seq<Seq<char>> {
        match self.exported_leg.sip.server_dialog {
            Some(d) => seq![d.id@.text()],
            None => Seq::empty(),
        }
    }

    /// Opens the call to commands: enters it and the caller's dialog into the registry
    /// of active calls, and publishes its media.
    pub fn register_active_call(&mut self)
        ensures
            texts(final(self).shared.surface.dialogs@) == texts(old(self).shared.surface.dialogs@)
                + old(self).caller_dialogs(),
            final(self).shared.entry == Some(fresh_entry(old(self).shared.inner)),
            old(self).is_published_media(final(self).shared.surface.media),
            final(self).shared.surface == (ControlSurface {
                media: final(self).shared.surface.media,
                dialogs: final(self).shared.surface.dialogs,
                ..old(self).shared.surface
            }),
            final(self).shared.inner == old(self).shared.inner,
            final(self).shared.log() == old(self).shared.log(),
            final(self).shared.pending == old(self).shared.pending,
            *final(self) == (CallSession {
                shared: final(self).shared,
                has_handle: true,
                ..*old(self)
            }),
    {
        let ghost known = texts(self.shared.surface.dialogs@);
        self.shared.register_active_call();
        self.has_handle = true;
        let id = match &self.exported_leg.sip.server_dialog {
            Some(d) => Some(d.id.to_text()),
            None => None,
        };
        if let Some(id) = id {
            self.shared.register_dialog(id);
        }
        assert(texts(self.shared.surface.dialogs@) =~= known + self.caller_dialogs());
        self.publish_exported_leg_media();
    }
}

/// In a call that takes commands, every dialog to the target that is open is in the
/// registry of active calls, whatever dialog is entered next.
pub proof fn entered_dialogs_are_registered(before: CallSession, after: CallSession, id: DialogIdView)
    requires
        before.has_handle,
        before.target_leg is Some,
        before.target_is_registered(),
        before.dialog_entered(after, id),
    ensures
        after.target_is_registered(),
        texts(after.shared.surface.dialogs@).contains(id.text()),
{
    let known = texts(before.shared.surface.dialogs@);
    let active = before.target_leg->0.sip.active();
    if active.contains(id) {
        let i = choose|i: int| 0 <= i < active.len() && active[i] == id;
        assert(known.contains(active[i].text()));
    } else {
        let now = texts(after.shared.surface.dialogs@);
        assert(now == known.push(id.text()));
        assert(now[known.len() as int] == id.text());
        assert forall|i: int| 0 <= i < after.target_leg->0.sip.active().len() implies now.contains(
            (#[trigger] after.target_leg->0.sip.active()[i]).text(),
        ) by {
            if i < active.len() {
                assert(after.target_leg->0.sip.active()[i] == active[i]);
                let k = choose|k: int| 0 <= k < known.len() && known[k] == active[i].text();
                assert(now[k] == active[i].text());
            }
        }
    }
}

/// A re-INVITE of the callee is accepted exactly where something was negotiated before
/// and its offer has the codec in use. What was negotiated decides on the codec; before
/// that the last answer does, and else the last offer.
pub proof fn callee_offer_needs_the_codec_in_use(
    before: CallSession,
    after: CallSession,
    method: Method,
    dialog_id: Seq<char>,
    offer: String,
    applied: bool,
    r: ReInviteOutcome,
    codec: CodecType,
)
    requires
        before.target_leg is Some,
        before.reinvited(after, MidDialogLeg::Callee, method, dialog_id, Some(offer), applied, r),
        codec != CodecType::TelephoneEvent,
        before.target_leg->0.media.negotiated_audio matches Some(a) && a.0 == codec,
    ensures
        r.forwarding is Some <==> (before.target_leg->0.media.answer_sdp is Some
            || before.target_leg->0.media.offer_sdp is Some) && exists|i: int|
            0 <= i < sdp_codecs(offer@).len() && (#[trigger] sdp_codecs(offer@)[i]).codec == codec,
{
    let all = sdp_codecs(offer@);
    let carries = |i: CodecInfo| i.codec !is TelephoneEvent;
    if exists|i: int| 0 <= i < all.len() && (#[trigger] all[i]).codec == codec {
        let i = choose|i: int| 0 <= i < all.len() && (#[trigger] all[i]).codec == codec;
        all.lemma_filter_contains(carries, i);
        let k = choose|k: int| 0 <= k < audio_of(all).len() && audio_of(all)[k] == all[i];
        assert(audio_of(all)[k].codec == codec);
        assert(has_type(audio_of(all), codec));
    }
    if has_type(audio_of(all), codec) {
        let k = choose|k: int|
            0 <= k < audio_of(all).len() && #[trigger] audio_of(all)[k].codec == codec;
        assert(audio_of(all).contains(audio_of(all)[k]));
        all.lemma_filter_contains_rev(carries, audio_of(all)[k]);
        let i = choose|i: int| 0 <= i < all.len() && all[i] == audio_of(all)[k];
        assert(all[i].codec == codec);
    }
}

/// An accepted re-INVITE of the callee stops the callee's media exactly where its offer
/// says `a=sendonly` or `a=inactive`; any other offer lets it flow again. The media is
/// stopped and resumed on the same legs: on both where they are bridged, else on the
/// caller's. It is answered with 200 and the mirrored direction.
pub proof fn callee_hold_stops_and_resumes_media(
    before: CallSession,
    after: CallSession,
    method: Method,
    dialog_id: Seq<char>,
    offer: String,
    applied: bool,
    r: ReInviteOutcome,
)
    requires
        before.target_leg is Some,
        before.reinvited(after, MidDialogLeg::Callee, method, dialog_id, Some(offer), applied, r),
        r.forwarding is Some,
    ensures
        r.forwarding->0 is Suppress <==> says(offer@, "a=sendonly"@) || says(offer@, "a=inactive"@),
        r.forwarding->0 is Resume <==> !says(offer@, "a=sendonly"@) && !says(
            offer@,
            "a=inactive"@,
        ),
        r.forwarding->0 matches ForwardingChange::Suppress(scope) ==> (scope is BothLegs
            <==> before.bridge_runtime.media_bridge is Some),
        r.forwarding->0 matches ForwardingChange::Resume(scope) ==> (scope is BothLegs
            <==> before.bridge_runtime.media_bridge is Some),
        r.forward_offer is None,
        r.reply matches Some(reply) ==> {
            &&& reply.status == 200
            &&& reply.body matches Some(answer)
            &&& after.target_leg matches Some(leg)
            &&& leg.media.answer_sdp == Some(answer)
            &&& exists|base: String|
                {
                    &&& before.target_leg->0.media.answer_sdp == Some(base)
                        || before.target_leg->0.media.answer_sdp is None
                        && before.target_leg->0.media.offer_sdp == Some(base)
                    &&& answer@ == lines_text(#[trigger] answer_lines(base@, offer@))
                }
        },
        after.target_leg matches Some(leg) && leg.media.offer_sdp == Some(offer),
        after.bridge_runtime == before.bridge_runtime,
        after.context == before.context,
{
    direction_is_what_the_lines_say(offer@);
    let base = before.with_known_answer().callee_base()->0;
    assert(answer_lines(base@, offer@) == answer_lines(base@, offer@));
}

/// A re-INVITE of the callee that is not accepted is refused with 488, and leaves the
/// media of the call as it was; one without an offer is answered with 200 and what was
/// agreed on, where it is an INVITE.
pub proof fn refused_callee_offer_changes_nothing(
    before: CallSession,
    after: CallSession,
    method: Method,
    dialog_id: Seq<char>,
    sdp: Option<String>,
    applied: bool,
    r: ReInviteOutcome,
)
    requires
        before.target_leg is Some,
        before.reinvited(after, MidDialogLeg::Callee, method, dialog_id, sdp, applied, r),
        r.forwarding is None,
    ensures
        after.target_leg is Some && after.target_leg->0.media == before.target_leg->0.media,
        sdp is Some ==> (r.reply matches Some(reply) ==> reply.status == 488 && reply.body is None),
        sdp is None ==> (r.reply matches Some(reply) ==> reply.status == 200 && (method is Update
            ==> reply.body is None) && (method !is Update ==> reply.body
            == before.target_leg->0.media.answer_sdp)),
        r.forward_offer is None,
        after.bridge_runtime == before.bridge_runtime,
{
}

/// Holding and resuming undo each other: after an offer that holds and one that does
/// not, both accepted, what was stopped flows again on the same legs.
pub proof fn resume_undoes_hold(
    start: CallSession,
    held: CallSession,
    end: CallSession,
    method: Method,
    dialog_id: Seq<char>,
    hold: String,
    resume: String,
    a: ReInviteOutcome,
    b: ReInviteOutcome,
)
    requires
        start.target_leg is Some,
        start.reinvited(held, MidDialogLeg::Callee, method, dialog_id, Some(hold), true, a),
        held.reinvited(end, MidDialogLeg::Callee, method, dialog_id, Some(resume), true, b),
        says(hold@, "a=sendonly"@) || says(hold@, "a=inactive"@),
        !says(resume@, "a=sendonly"@) && !says(resume@, "a=inactive"@),
        a.forwarding is Some,
        b.forwarding is Some,
    ensures
        a.forwarding->0 matches ForwardingChange::Suppress(scope) && b.forwarding == Some(
            ForwardingChange::Resume(scope),
        ),
{
    callee_hold_stops_and_resumes_media(start, held, method, dialog_id, hold, true, a);
    callee_hold_stops_and_resumes_media(held, end, method, dialog_id, resume, true, b);
}

/// An offer of the caller that the media took is sent on to the connected dialog of the
/// callee, as an INVITE where it was one, and answered with the answer in use; one that
/// was not taken, or comes before there is an answer, is refused with 488. A request
/// without an offer is answered with 200. The caller's requests never stop the callee's
/// media.
pub proof fn callers_offer_is_sent_on(
    before: CallSession,
    after: CallSession,
    method: Method,
    dialog_id: Seq<char>,
    sdp: Option<String>,
    applied: bool,
    r: ReInviteOutcome,
)
    requires
        before.reinvited(after, MidDialogLeg::Caller, method, dialog_id, sdp, applied, r),
    ensures
        r.forwarding is None,
        ({
            let answer = if before.exported_leg.media.answer_sdp is Some {
                before.exported_leg.media.answer_sdp
            } else {
                before.shared.inner.answer_sdp
            };
            &&& r.reply matches Some(reply) ==> {
                &&& sdp is Some && applied && answer is Some ==> reply.status == 200 && reply.body
                    == answer
                &&& sdp is Some && (!applied || answer is None) ==> reply.status == 488
                    && reply.body is None
                &&& sdp is None ==> reply.status == 200
                &&& sdp is None && method is Invite ==> reply.body == answer
                &&& sdp is None && method !is Invite ==> reply.body is None
            }
        }),
        r.forward_offer is Some ==> sdp is Some && applied,
        sdp is Some && applied ==> match before.target_leg->0.sip.connected_dialog_id {
            Some(d) => r.forward_offer matches Some(f) && f.dialog_id == d && (f.as_invite
                <==> method is Invite),
            None => r.forward_offer is None,
        },
        after.target_leg == before.target_leg,
        after.bridge_runtime == before.bridge_runtime,
{
}

/// The request that a re-INVITE is answered by is the one that waits on the leg and
/// dialog that it came on; after it none waits there, and all others still do.
pub proof fn reinvite_answers_its_own_request(
    before: CallSession,
    after: CallSession,
    leg: MidDialogLeg,
    method: Method,
    dialog_id: Seq<char>,
    sdp: Option<String>,
    applied: bool,
    r: ReInviteOutcome,
)
    requires
        before.target_leg is Some,
        before.reinvited(after, leg, method, dialog_id, sdp, applied, r),
    ensures
        r.reply is Some <==> before.shared.replies().dom().contains(leg.key_text(dialog_id)),
        r.reply matches Some(reply) ==> reply.handle == before.shared.replies()[leg.key_text(
            dialog_id,
        )],
        after.shared.replies() == before.shared.replies().remove(leg.key_text(dialog_id)),
        MidDialogLeg::Caller.key_text(dialog_id) != MidDialogLeg::Callee.key_text(dialog_id),
{
    reveal_strlit("caller:");
    reveal_strlit("callee:");
    assert(MidDialogLeg::Caller.key_text(dialog_id)[4] == 'e');
    assert(MidDialogLeg::Caller.key_text(dialog_id)[5] == 'r');
    assert(MidDialogLeg::Callee.key_text(dialog_id)[5] == 'e');
}

/// The codec in use is the negotiated one, whatever the descriptions of the leg say.
pub proof fn negotiated_codec_is_in_use(media: MediaEndpoint, allow: Seq<CodecType>)
    ensures
        media.negotiated_audio matches Some(a) ==> codec_in_use(media, allow) == Some(a.0),
        media.negotiated_audio is None && media.answer_sdp is None && media.offer_sdp is None
            ==> codec_in_use(media, allow) is None,
        media.negotiated_audio is None ==> (codec_in_use(media, allow) matches Some(c) ==> c
            != CodecType::TelephoneEvent && (allow.len() > 0 ==> allow.contains(c))),
{
    if let Some(s) = media.answer_sdp {
        best_codec_is_usable(audio_of(sdp_codecs(s@)), allow);
    }
    if let Some(s) = media.offer_sdp {
        best_codec_is_usable(audio_of(sdp_codecs(s@)), allow);
    }
}

/// The media of a recorded call always goes through the proxy. That of any other does
/// so where all media is to, and, where it is left open, if just one side speaks the
/// secure media of browsers.
pub proof fn media_goes_through_the_proxy_where_needed(
    recorded: bool,
    offer: Seq<char>,
    mode: MediaProxyMode,
    all_webrtc_target: bool,
)
    ensures
        recorded || mode is All ==> media_is_proxied(recorded, offer, mode, all_webrtc_target),
        !recorded && (mode is Disabled || mode is Nat) ==> !media_is_proxied(
            recorded,
            offer,
            mode,
            all_webrtc_target,
        ),
        !recorded && mode is Auto && all_webrtc_target ==> (media_is_proxied(
            recorded,
            offer,
            mode,
            all_webrtc_target,
        ) <==> forall|i: int| !stands_at(offer, "RTP/SAVPF"@, i)),
        !recorded && mode is Auto && !all_webrtc_target ==> (media_is_proxied(
            recorded,
            offer,
            mode,
            all_webrtc_target,
        ) <==> exists|i: int| stands_at(offer, "RTP/SAVPF"@, i)),
{
    let w = "RTP/SAVPF"@;
    standing_is_occurring(offer, w);
    if webrtc_sdp(offer) {
        let i = choose|i: int| occurs_at(offer, w, i);
        assert(stands_at(offer, w, i));
    } else {
        assert forall|i: int| !stands_at(offer, w, i) by {
            assert(!occurs_at(offer, w, i));
        }
    }
}

/// A hangup is answered with the code that was asked for where it is one of those in
/// use, else with 487, and gives the reason that was asked for. Its text names who asked
/// and why, as far as that is known.
pub proof fn hangup_gives_what_was_asked_for(p: PendingHangup, code: u16)
    ensures
        p.code == Some(code) && (code == 403 || code == 404 || code == 480 || code == 486 || code == 487
            || code == 488 || code == 500 || code == 503 || code == 600 || code == 603)
            ==> hangup_outcome(Some(p)).0 == code,
        p.code is None ==> hangup_outcome(Some(p)).0 == 487,
        p.code == Some(code) && (code < 403 || code == 405 || code == 481 || code > 603)
            ==> hangup_outcome(Some(p)).0 == 487,
        hangup_outcome(Some(p)).2 == p.reason,
        hangup_outcome(None).0 == 487,
        hangup_outcome(None).2 == Some(CallRecordHangupReason::Canceled),
        p.initiator matches Some(i) ==> has_prefix(hangup_outcome(Some(p)).1, "Cancelled by "@ + i@),
        p.initiator is Some && p.reason is None ==> hangup_outcome(Some(p)).1 == "Cancelled by "@
            + p.initiator->0@,
        p.reason matches Some(r) ==> has_suffix(
            hangup_outcome(Some(p)).1,
            " ("@ + r.label_text() + ")"@,
        ),
{
    reveal_strlit("Cancelled by ");
    reveal_strlit("Cancelled (");
    reveal_strlit(" (");
    reveal_strlit(")");
    let t = hangup_outcome(Some(p)).1;
    if let Some(i) = p.initiator {
        let head = "Cancelled by "@ + i@;
        assert(t.take(head.len() as int) =~= head);
    }
    if let Some(r) = p.reason {
        let tail = " ("@ + r.label_text() + ")"@;
        assert(t.skip(t.len() - tail.len()) =~= tail);
    }
}

/// A failure is what the call ends with: its code and reason are kept, for the call as
/// for its observers, and added to the list of what went wrong.
pub proof fn failure_is_kept(
    before: CallSession,
    after: CallSession,
    code: u16,
    reason: Option<String>,
    target: Option<String>,
)
    requires
        before.failed(after, code, reason, target),
    ensures
        after.last_error == Some((code, reason)),
        after.hangup_reason == Some(CallRecordHangupReason::Failed),
        after.hangup_messages@.len() == before.hangup_messages@.len() + 1,
        after.hangup_messages@.last().code == code && after.hangup_messages@.last().reason == reason
            && after.hangup_messages@.last().target == target,
        forall|i: int|
            0 <= i < before.hangup_messages@.len() ==> after.hangup_messages@[i]
                == before.hangup_messages@[i],
        after.shared.inner.last_error_code == Some(code),
        after.shared.inner.last_error_reason == reason,
        before.shared.inner.phase is Bridged <==> after.shared.inner.phase is Bridged,
        after.answer_time == before.answer_time && after.target_leg == before.target_leg
            && after.exported_leg == before.exported_leg,
        before.shared.log() matches Some(l) ==> (after.shared.log() matches Some(m) && m.len() > l.len()
            && m[l.len() as int] == (ProxyCallEvent::TargetFailed {
            session_id: before.shared.inner.session_id,
            target,
            code: Some(code),
            reason,
        })),
{
    let l = before.shared.log();
    if let Some(x) = l {
        let m = after.shared.log()->0;
        assert(m[x.len() as int] == failure_event(before.shared.inner, code, reason, target));
    }
}

/// Only a queue names codes after which the next target is tried.
pub proof fn only_queues_name_retry_codes(s: CallSession)
    ensures
        s.context.dialplan.flow matches DialplanFlow::Queue { plan, .. } ==> s.retry_codes()
            == plan.retry_codes,
        !(s.context.dialplan.flow is Queue) ==> s.retry_codes() is None,
{
}

/// A callee is busy after 486, 487, 600 and 603, and has not answered after 408, 480 and
/// 504 unless the call was answered before.
pub proof fn failures_are_told_by_their_codes(s: CallSession, code: u16, reason: Option<String>)
    requires
        s.last_error == Some((code, reason)),
    ensures
        s.busy() <==> code == 486 || code == 487 || code == 600 || code == 603,
        s.unanswered() <==> s.answer_time is None && (code == 408 || code == 480 || code == 504),
        !(s.busy() && s.unanswered()),
{
}

/// A command to hang up is kept for the teardown with all that it says, is noted with
/// its code, else 487, and ends the caller's dialog as far as it goes: an answered one
/// with a BYE, one that still rings with a refusal of that code.
pub proof fn hangup_command_is_carried_out(
    before: CallSession,
    after: CallSession,
    reason: Option<CallRecordHangupReason>,
    code: Option<u16>,
    initiator: Option<String>,
    endpoint: Option<TransferEndpoint>,
    sessions: Seq<String>,
    now: u64,
    plan: ActionPlan,
)
    requires
        before.applies(
            SessionAction::Hangup { reason, code, initiator },
            endpoint,
            sessions,
            now,
            plan,
            after,
        ),
    ensures
        after.pending_hangup matches Some(p) && p.reason == reason && p.code == code && p.initiator
            == initiator,
        after.last_error matches Some((c, _)) && c == (match code {
            Some(x) => x,
            None => 487u16,
        }),
        reason is Some ==> after.hangup_reason == reason,
        reason is None ==> after.hangup_reason == Some(CallRecordHangupReason::Canceled),
        after.shared.inner.phase is Ended,
        plan matches ActionPlan::EndCall(h) && match before.exported_leg.sip.server_dialog {
            Some(d) => {
                &&& d.phase is Confirmed || d.phase is WaitAck ==> h is Bye || h is ByeWithReason
                &&& d.phase is Pending ==> (h matches InboundHangup::Reject(c, _) && c == (match code {
                    Some(x) => x,
                    None => 487u16,
                }))
                &&& d.phase is Terminated ==> h is Nothing
            },
            None => h is Nothing,
        },
{
}

/// Commands that only concern signalling or prompts leave the session as it is.
pub proof fn other_commands_leave_the_session(
    before: CallSession,
    action: SessionAction,
    endpoint: Option<TransferEndpoint>,
    sessions: Seq<String>,
    now: u64,
    plan: ActionPlan,
    after: CallSession,
)
    requires
        before.applies(action, endpoint, sessions, now, plan, after),
        action is AcceptCall || action is StartRinging || action is TransferTarget
            || action is HandleReInvite || action is HandleTrickleIce || action is PlayPrompt
            || action is StopPlayback || action is Hold || action is Unhold || action is BridgeTo,
    ensures
        after == before,
        action matches SessionAction::AcceptCall { callee, sdp, dialog_id } ==> (
        plan matches ActionPlan::Accept { callee: c, sdp: s, dialog_id: d } && c == callee && s == sdp
            && d == dialog_id),
        action matches SessionAction::StartRinging { ringback, .. } ==> (plan matches ActionPlan::Ring(
            text,
        ) && (ringback is None ==> text@.len() == 0) && (ringback is Some ==> text@ == ringback->0@)),
        action matches SessionAction::HandleReInvite { leg, sdp, dialog_id, .. } ==> (
        plan matches ActionPlan::ReInvite { leg: l, dialog_id: d, sdp: s, .. } && l == leg && d
            == dialog_id && s == sdp),
        action matches SessionAction::PlayPrompt { audio_file, loop_playback, await_completion, .. }
            ==> (plan matches ActionPlan::Play { audio_file: f, loop_playback: l, await_completion: w, .. }
            && f == audio_file && l == loop_playback && w == await_completion),
        action matches SessionAction::TransferTarget(t) ==> {
            &&& before.context.kind is RwiSingleLeg || before.context.kind is AppDriven ==> (
            plan matches ActionPlan::Refer(x) && x == t)
            &&& !(before.context.kind is RwiSingleLeg || before.context.kind is AppDriven) ==> {
                &&& endpoint matches Some(e) ==> (plan matches ActionPlan::TransferTo(x) && x == e)
                &&& endpoint is None ==> (plan matches ActionPlan::TransferToUri(x) && x == t)
            }
        },
{
}

/// Recording and supervision stop as they began: after the start and the stop of a
/// recording, or of a supervisor, the session is as it was before the start.
pub proof fn stopping_undoes_starting(
    start: CallSession,
    mid: CallSession,
    end: CallSession,
    path: String,
    max_duration: Option<u64>,
    beep: bool,
    endpoint: Option<TransferEndpoint>,
    sessions: Seq<String>,
    began: u64,
    ended: u64,
    p: ActionPlan,
    q: ActionPlan,
)
    requires
        start.applies(
            SessionAction::StartRecording { path, max_duration, beep },
            endpoint,
            sessions,
            began,
            p,
            mid,
        ),
        mid.applies(SessionAction::StopRecording, endpoint, sessions, ended, q, end),
    ensures
        p matches ActionPlan::StartRecorder(x) && x == path,
        mid.recording_state == Some((path, began)),
        mid.exported_leg.media.directional_recorder_option == Some(path),
        end.recording_state is None,
        end.exported_leg.media.directional_recorder_option is None,
        start.recording_state is None && start.exported_leg.media.directional_recorder_option is None
            ==> end == start,
        q matches ActionPlan::StopRecorder(info) && (start.app_listens <==> info is Some) && (
        info matches Some(i) ==> i.path == path && (ended >= began ==> i.duration == ended - began)),
{
}

/// A supervisor takes part in the way that the command says, in a session that is
/// active; a command for any other session changes nothing.
pub proof fn supervisors_take_part_as_told(
    before: CallSession,
    action: SessionAction,
    target: String,
    endpoint: Option<TransferEndpoint>,
    sessions: Seq<String>,
    now: u64,
    plan: ActionPlan,
    after: CallSession,
    i: int,
)
    requires
        before.applies(action, endpoint, sessions, now, plan, after),
        action == (SessionAction::SupervisorListen { target_session_id: target }) || action == (
        SessionAction::SupervisorWhisper { target_session_id: target }) || action == (
        SessionAction::SupervisorBarge { target_session_id: target }),
    ensures
        0 <= i < sessions.len() && sessions[i]@ == target@ ==> {
            &&& plan is StartMixer
            &&& after.bridge_runtime.supervisor_mixer matches Some(m) && {
                &&& m.mode is Listen <==> action is SupervisorListen
                &&& m.mode is Whisper <==> action is SupervisorWhisper
                &&& m.mode is Barge <==> action is SupervisorBarge
            }
        },
        (forall|k: int| 0 <= k < sessions.len() ==> (#[trigger] sessions[k])@ != target@) ==> plan is Nothing
            && after == before,
        after.bridge_runtime.media_bridge == before.bridge_runtime.media_bridge,
        after.exported_leg == before.exported_leg && after.target_leg == before.target_leg,
{
}

/// The caller's dialog is ended by what it has come to: one that is over not at all, one
/// that was answered by a BYE where a party hung up, any other by a refusal; the refusal
/// passes the failure on only where the plan says so.
pub proof fn caller_is_told_of_the_end(s: CallSession, c: CallerCleanup, d: ServerDialog)
    requires
        s.is_caller_cleanup(c),
        s.exported_leg.sip.server_dialog == Some(d),
    ensures
        c is Nothing <==> d.phase is Terminated,
        c is Bye <==> (d.phase is Confirmed || d.phase is WaitAck) && (s.hangup_reason == Some(
            CallRecordHangupReason::ByCallee,
        ) || s.hangup_reason == Some(CallRecordHangupReason::ByCaller)),
        c matches CallerCleanup::Reject(code, text) ==> {
            &&& s.context.dialplan.passthrough_failure && s.last_error is Some ==> s.last_error == Some(
                (code, text),
            )
            &&& !s.context.dialplan.passthrough_failure || s.last_error is None ==> code == 500
        },
{
}

/// The end of a call has the reason that is known; where none is, the one that the
/// hangup asked for. What was asked for counts as a failure where none is known.
pub proof fn end_has_its_reason(before: CallSession, after: CallSession)
    requires
        before.end_settled(after),
    ensures
        before.hangup_reason is Some ==> after == before,
        before.hangup_reason is None ==> after.pending_hangup is None,
        before.hangup_reason is None && before.last_error is Some ==> after.last_error
            == before.last_error,
        before.hangup_reason is None && before.last_error is Some ==> (
        before.pending_hangup matches Some(p) ==> after.hangup_reason == p.reason),
        before.hangup_reason is None && before.last_error is Some && before.pending_hangup is None
            ==> after.hangup_reason == Some(CallRecordHangupReason::Canceled),
        before.hangup_reason is None && before.last_error is None ==> after.last_error is Some
            && after.hangup_reason == Some(CallRecordHangupReason::Failed),
        before.hangup_reason is None && before.last_error is None && before.pending_hangup is None ==> (
        after.last_error matches Some((code, _)) && code == 487),
        before.answer_time == after.answer_time,
{
}

/// A teardown waits for the caller where the caller's dialog is not over, and for the
/// callee, for three seconds at most.
pub proof fn teardown_waits_for_the_legs(before: CallSession, mid: CallSession, after: CallSession, now: u64)
    requires
        before.torn_down_through(mid, after, now),
        now + 3000 <= u64::MAX,
    ensures
        after.termination_state matches Some(t) && {
            &&& t.started_at == now
            &&& t.grace_deadline == now + 3000
            &&& t.callee_cleanup_sent
            &&& t.caller_cleanup_sent <==> (before.exported_leg.sip.server_dialog matches Some(d)
                && !(d.phase is Terminated))
        },
{
}

/// A session can be let go of when the legs that were told to end have ended.
pub proof fn session_ends_with_its_legs(s: CallSession, t: TerminationState)
    requires
        s.termination_state == Some(t),
    ensures
        s.can_finalize() <==> (t.caller_cleanup_sent ==> (
        s.exported_leg.sip.server_dialog matches Some(d) ==> d.phase is Terminated)) && (
        t.callee_cleanup_sent ==> (s.target_leg matches Some(l) ==> l.sip.active_dialog_ids@.len() == 0)),
{
}

/// The record of a call tells what happened in it.
pub proof fn record_tells_what_happened(s: CallSession, after: CallSession, record: Option<CallSessionRecordSnapshot>)
    requires
        s.finalized(after, record),
    ensures
        record is Some <==> s.report_due,
        !after.report_due,
        after.shared.inner.phase is Ended,
        s.hangup_reason is Some ==> after.shared.inner.hangup_reason == s.hangup_reason,
        s.hangup_reason is None ==> after.shared.inner.hangup_reason == Some(
            CallRecordHangupReason::Canceled,
        ),
        record matches Some(r) ==> {
            &&& r.ring_time == s.ring_time && r.answer_time == s.answer_time
            &&& r.last_error == s.last_error && r.hangup_reason == s.hangup_reason
            &&& r.hangup_messages@ == s.hangup_messages@
            &&& r.original_caller == Some(s.context.original_caller)
            &&& r.original_callee == Some(s.context.original_callee)
            &&& r.routed_caller == s.routed_caller && r.routed_callee == s.routed_callee
            &&& r.connected_callee == s.connected_callee
            &&& r.routed_contact == s.routed_contact && r.routed_destination == s.routed_destination
        },
{
}

/// Without the media proxy a target gets the caller's own offer; with it the offer that
/// was made for it, which its leg keeps, else the last one. A blank offer is none.
pub proof fn target_gets_its_offer(
    before: CallSession,
    after: CallSession,
    generated: Option<String>,
    now: u64,
)
    requires
        before.target_offered(after, generated, now),
    ensures
        !before.use_media_proxy ==> (before.exported_leg.media.offer_sdp matches Some(o) ==> {
            &&& trimmed(o@).len() > 0 ==> before.target_offer(generated) == Some(o)
            &&& trimmed(o@).len() == 0 ==> before.target_offer(generated) is None
        }),
        !before.use_media_proxy && before.exported_leg.media.offer_sdp is None ==> before.target_offer(
            generated,
        ) is None,
        before.use_media_proxy ==> (generated matches Some(g) ==> {
            &&& trimmed(g@).len() > 0 ==> before.target_offer(generated) == Some(g)
            &&& after.target_leg matches Some(l) && l.media.offer_sdp == Some(g)
        }),
        before.use_media_proxy && generated is None ==> (before.target_leg matches Some(l)
            ==> l.media.offer_sdp matches Some(o) ==> trimmed(o@).len() > 0 ==> before.target_offer(
            generated,
        ) == Some(o)),
        after.target_leg is Some,
        before.target_leg matches Some(l) ==> (after.target_leg matches Some(m) && m.sip == l.sip),
        after.exported_leg == before.exported_leg && after.context == before.context,
{
}

/// The callee's end of a bridge has a codec that the callee's description lists and the
/// dialplan allows, with the callee's own events. Where the codecs are to match, the
/// caller's end has the same codec if the caller's answer lists it.
pub proof fn bridge_ends_are_those_of_the_legs(
    exported: MediaEndpoint,
    callee_sdp: Seq<char>,
    match_codec: bool,
    allow: Seq<CodecType>,
)
    ensures
        ({
            let listed = sdp_codecs(callee_sdp);
            let (caller, callee) = bridge_ends(exported, callee_sdp, match_codec, allow);
            &&& (exists|i: int|
                0 <= i < listed.len() && (#[trigger] listed[i]).codec != CodecType::TelephoneEvent && (
                allow.len() == 0 || allow.contains(listed[i].codec))) ==> {
                &&& callee.0 != CodecType::TelephoneEvent
                &&& allow.len() == 0 || allow.contains(callee.0)
                &&& exists|i: int|
                    0 <= i < listed.len() && (#[trigger] listed[i]).codec == callee.0
                        && listed[i].payload_type == callee.1.payload_type && listed[i].clock_rate
                        == callee.1.clock_rate
                &&& callee.2 == dtmf_of(listed)
                &&& callee.3 == ssrc_of(callee_sdp)
            }
            &&& match_codec && callee.0 != CodecType::TelephoneEvent ==> (
            exported.answer_sdp matches Some(a) ==> (exists|i: int|
                0 <= i < sdp_codecs(a@).len() && (#[trigger] sdp_codecs(a@)[i]).codec == callee.0)
                ==> caller.0 == callee.0 && caller.2 == dtmf_of(sdp_codecs(a@)) && caller.3 == ssrc_of(
                a@,
            ))
            &&& !match_codec ==> (exported.negotiated_audio matches Some(n) ==> caller.0 == n.0
                && caller.1 == n.1)
        }),
{
    let listed = sdp_codecs(callee_sdp);
    let audio = audio_of(listed);
    first_allowed_codec_is_used(audio, allow, 0);
    audio_members(listed);
    if exists|i: int|
        0 <= i < listed.len() && (#[trigger] listed[i]).codec != CodecType::TelephoneEvent && (
        allow.len() == 0 || allow.contains(listed[i].codec)) {
        let i = choose|i: int|
            0 <= i < listed.len() && (#[trigger] listed[i]).codec != CodecType::TelephoneEvent && (
            allow.len() == 0 || allow.contains(listed[i].codec));
        assert(audio.contains(listed[i]));
        let k = choose|k: int| 0 <= k < audio.len() && audio[k] == listed[i];
        assert(audio[k].codec != CodecType::TelephoneEvent);
        let c = best_codec(audio, allow)->0;
        assert(audio.contains(c));
        assert(listed.contains(c));
        let j = choose|j: int| 0 <= j < listed.len() && listed[j] == c;
        assert(listed[j].codec == c.codec);
    }
    let callee = bridge_ends(exported, callee_sdp, match_codec, allow).1;
    if let Some(a) = exported.answer_sdp {
        let codecs = sdp_codecs(a@);
        audio_members(codecs);
        first_of_type_facts(audio_of(codecs), callee.0);
        if callee.0 != CodecType::TelephoneEvent && exists|i: int|
            0 <= i < codecs.len() && (#[trigger] codecs[i]).codec == callee.0 {
            let i = choose|i: int| 0 <= i < codecs.len() && (#[trigger] codecs[i]).codec == callee.0;
            assert(audio_of(codecs).contains(codecs[i]));
            let k = choose|k: int| 0 <= k < audio_of(codecs).len() && audio_of(codecs)[k] == codecs[i];
            assert(audio_of(codecs)[k].codec == callee.0);
            assert(has_type(audio_of(codecs), callee.0));
        }
    }
}

proof fn audio_members(codecs: Seq<CodecInfo>)
    ensures
        forall|i: int|
            0 <= i < codecs.len() && (#[trigger] codecs[i]).codec != CodecType::TelephoneEvent
                ==> audio_of(codecs).contains(codecs[i]),
        forall|c: CodecInfo| #[trigger] audio_of(codecs).contains(c) ==> codecs.contains(c),
{
    let f = |i: CodecInfo| i.codec !is TelephoneEvent;
    assert forall|i: int|
        0 <= i < codecs.len() && (#[trigger] codecs[i]).codec != CodecType::TelephoneEvent implies audio_of(
        codecs,
    ).contains(codecs[i]) by {
        codecs.lemma_filter_contains(f, i);
    }
    assert forall|c: CodecInfo| #[trigger] audio_of(codecs).contains(c) implies codecs.contains(c) by {
        codecs.lemma_filter_contains_rev(f, c);
    }
}

/// Commands that a session does not carry out: those for early media, for pausing a
/// recording, for a refresh and for muting.
pub proof fn some_commands_are_not_supported(action: SessionAction)
    ensures
        action is Hangup || action is AcceptCall || action is StartRinging || action is TransferTarget
            || action is HandleReInvite || action is PlayPrompt || action is StartRecording
            || action is StopRecording || action is Hold || action is Unhold || action is BridgeTo
            || action is Unbridge || action is StopPlayback || action is HandleTrickleIce ==> is_supported(
            action,
        ),
        action is MuteTrack || action is UnmuteTrack || action is PauseRecording
            || action is ResumeRecording || action is RefreshSession || action is ProvideEarlyMedia
            || action is ProvideEarlyMediaWithDialog ==> !is_supported(action),
{
}

/// A failed attempt is noted in the list of what went wrong and told to observers; the
/// call itself has not failed by it.
pub proof fn failed_attempt_is_noted(
    before: CallSession,
    after: CallSession,
    code: u16,
    reason: Option<String>,
    target: Option<String>,
)
    requires
        before.attempt_noted(after, code, reason, target),
    ensures
        after.hangup_messages@.len() == before.hangup_messages@.len() + 1,
        after.hangup_messages@.last().code == code && after.hangup_messages@.last().reason == reason
            && after.hangup_messages@.last().target == target,
        after.last_error == before.last_error && after.hangup_reason == before.hangup_reason,
        after.shared.inner == before.shared.inner,
        before.shared.log() matches Some(l) ==> (after.shared.log() matches Some(m) && m.len() == l.len()
            + 1 && m.last() == (ProxyCallEvent::TargetFailed {
            session_id: before.shared.inner.session_id,
            target,
            code: Some(code),
            reason,
        })),
{
}

/// The answer of a target is kept in its leg and gives the audio of the leg; the caller's
/// leg is not touched.
pub proof fn target_answer_is_kept(before: CallSession, after: CallSession, sdp: Seq<char>)
    requires
        before.target_answered(after, sdp),
    ensures
        after.target_leg matches Some(l) && opt_text(l.media.answer_sdp) == Some(sdp) && (
        l.media.negotiated_audio is Some <==> best_audio(
            sdp_codecs(sdp),
            before.context.dialplan.allow_codecs@,
        ) is Some) && (l.media.negotiated_audio matches Some(a) ==> (before.context.dialplan.allow_codecs@.len()
            > 0 ==> before.context.dialplan.allow_codecs@.contains(a.0))),
        after.exported_leg == before.exported_leg && after.shared == before.shared,
        before.target_leg matches Some(l) ==> (after.target_leg matches Some(m) && m.sip == l.sip),
{
    best_codec_is_usable(audio_of(sdp_codecs(sdp)), before.context.dialplan.allow_codecs@);
}

/// A new bridge has the caller on one side and the callee on the other, each with its own
/// codec, parameters, events and SSRC.
pub proof fn bridge_has_a_side_for_each_leg(
    s: CallSession,
    runtime: BridgeRuntime,
    media: MediaEndpoint,
    callee_sdp: Seq<char>,
    match_codec: bool,
    started: bool,
)
    requires
        s.is_newly_bridged(runtime, media, callee_sdp, match_codec, started),
    ensures
        runtime.media_bridge matches Some(b) && {
            let (caller, callee) = bridge_ends(
                media,
                callee_sdp,
                match_codec,
                s.context.dialplan.allow_codecs@,
            );
            &&& b.codec_a == caller.0 && b.params_a == caller.1 && b.dtmf_codecs_a@ == caller.2
                && b.ssrc_a == caller.3
            &&& b.codec_b == callee.0 && b.params_b == callee.1 && b.dtmf_codecs_b@ == callee.2
                && b.ssrc_b == callee.3
            &&& b.started == started
            &&& s.context.dialplan.call_id matches Some(id) ==> b.call_id == id
            &&& s.context.dialplan.call_id is None ==> b.call_id == s.context.session_id
        },
        runtime.recorder_option == s.bridge_runtime.recorder_option && runtime.supervisor_mixer
            == s.bridge_runtime.supervisor_mixer,
{
}

/// A session that has just begun has the caller's offer and dialog and nothing of a
/// callee: nothing has rung, been answered or gone wrong.
pub proof fn new_session_is_untouched(
    r: CallSession,
    context: CallContext,
    server_dialog: Option<ServerDialog>,
    caller_offer: Option<String>,
    use_media_proxy: bool,
    recorder_option: Option<RecorderOption>,
    now: u64,
)
    requires
        is_new_session(
            r,
            context,
            server_dialog,
            caller_offer,
            use_media_proxy,
            recorder_option,
            now,
        ),
    ensures
        r.context == context && r.use_media_proxy == use_media_proxy && r.report_due,
        r.exported_leg.media.offer_sdp == caller_offer && r.exported_leg.media.answer_sdp is None,
        r.exported_leg.sip.server_dialog == server_dialog && r.exported_leg.role is Caller,
        r.bridge_runtime.recorder_option == recorder_option && r.bridge_runtime.media_bridge is None,
        r.target_leg is None && r.connected_callee is None,
        r.ring_time is None && r.answer_time is None && r.last_error is None && r.hangup_reason is None
            && r.pending_hangup is None && r.termination_state is None,
        r.hangup_messages@.len() == 0,
        !r.exported_leg.sip.session_timer.active && !r.exported_leg.media.early_media_sent,
{
}

/// Without the media proxy the leg to the target keeps the offer that it had.
pub proof fn generated_offer_is_kept_with_the_proxy(
    before: CallSession,
    after: CallSession,
    generated: Option<String>,
    now: u64,
)
    requires
        before.target_offered(after, generated, now),
        !before.use_media_proxy || generated is None,
    ensures
        before.target_leg matches Some(l) ==> (after.target_leg matches Some(m) && m.media.offer_sdp
            == l.media.offer_sdp),
        before.target_leg is None ==> (after.target_leg matches Some(m) && m.media.offer_sdp is None),
{
}

/// Before anything is negotiated a leg uses the codec that its answer gives, and only
/// where the answer gives none the one of its offer.
pub proof fn answer_goes_before_the_offer(media: MediaEndpoint, allow: Seq<CodecType>)
    requires
        media.negotiated_audio is None,
    ensures
        media.answer_sdp matches Some(a) ==> (best_audio(sdp_codecs(a@), allow) matches Some(x)
            ==> codec_in_use(media, allow) == Some(x.0)),
        media.answer_sdp matches Some(a) ==> best_audio(sdp_codecs(a@), allow) is None ==> (
        media.offer_sdp matches Some(o) ==> (best_audio(sdp_codecs(o@), allow) matches Some(x)
            ==> codec_in_use(media, allow) == Some(x.0))),
        media.answer_sdp is None ==> (media.offer_sdp matches Some(o) ==> (best_audio(
            sdp_codecs(o@),
            allow,
        ) matches Some(x) ==> codec_in_use(media, allow) == Some(x.0))),
{
}

/// What is published of a call's media is what its exported leg has.
pub proof fn published_media_is_that_of_the_leg(s: CallSession, media: SharedExportedLegMedia)
    requires
        s.is_published_media(media),
    ensures
        media.published,
        media.offer_sdp == s.exported_leg.media.offer_sdp,
        media.answer_sdp == s.exported_leg.media.answer_sdp,
        media.negotiated_audio is Some <==> s.exported_leg.media.negotiated_audio is Some,
        media.negotiated_audio matches Some(a) ==> (s.exported_leg.media.negotiated_audio matches Some(b) && b.0 == a.0),
        media.is_bridged <==> s.bridge_runtime.media_bridge is Some,
{
}

/// A call that is registered is in the registry as ringing, between its own parties, with
/// the dialog of its caller, and takes commands.
pub proof fn registered_call_is_in_the_registry(r: CallSession)
    requires
        is_registered(r),
    ensures
        r.has_handle,
        r.shared.entry matches Some(e) && e.session_id == r.shared.inner.session_id && e.caller
            == r.shared.inner.caller && e.callee == r.shared.inner.callee && e.status is Ringing
            && e.started_at == r.shared.inner.started_at && e.direction == r.shared.inner.direction
            && e.answered_at == r.shared.inner.answer_time,
        r.exported_leg.sip.server_dialog matches Some(d) ==> texts(r.shared.surface.dialogs@).len() == 1
            && texts(r.shared.surface.dialogs@)[0] == d.id@.text(),
        r.exported_leg.sip.server_dialog is None ==> texts(r.shared.surface.dialogs@).len() == 0,
        r.shared.surface.media.published,
{
}

/// An answer that is kept for observers changes nothing else that they see.
pub proof fn kept_answer_is_the_answer(before: CallSessionShared, after: CallSessionShared, sdp: Option<String>)
    requires
        has_kept_answer(before, after, sdp),
    ensures
        after.inner.answer_sdp == sdp,
        after.inner.phase == before.inner.phase && after.inner.caller == before.inner.caller
            && after.inner.callee == before.inner.callee && after.inner.answer_time
            == before.inner.answer_time,
        after.entry == before.entry && after.log() == before.log(),
{
}

} // verus!
