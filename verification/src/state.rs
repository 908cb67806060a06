//! The state of a call that its control surfaces share: the phase of the call,
//! the commands that it takes and the events that it reports.
use vstd::prelude::*;
use crate::media_endpoint::MediaConfig;
use crate::model::{CallRecordHangupReason, DialDirection, Dialplan, SupervisorMode};
use crate::negotiate::{CodecInfo, CodecType, RtpCodecParameters};
use crate::recording_runtime::RecordingInfo;
use crate::text::{join2, opt_text, own_opt, same, same_opt, texts, trim, trimmed};

verus! {

/// The kind of session driving this call.
#[derive(Clone, Copy, Debug, PartialEq, Eq, Structural)]
pub enum SessionKind {
    /// Normal B2BUA proxied call (inbound INVITE -> outbound INVITE).
    Proxy,
    /// RWI-originated single-leg call (no inbound server dialog).
    RwiSingleLeg,
    /// App-driven session (IVR, voicemail -- single leg + app).
    AppDriven,
}

/// What a call is about, fixed when its session begins. Moments are in
/// milliseconds.
#[derive(Debug)]
pub struct CallContext {
    pub session_id: String,
    pub kind: SessionKind,
    pub dialplan: Dialplan,
    /// The longest duration that the transaction allows, in milliseconds.
    pub cookie_max_duration: Option<u64>,
    pub start_time: u64,
    pub media_config: MediaConfig,
    pub original_caller: String,
    pub original_callee: String,
    pub max_forwards: u32,
}

/// The leg on which a mid-dialog request arrived.
#[derive(Clone, Copy, Debug, PartialEq, Eq, Structural)]
pub enum MidDialogLeg {
    Caller,
    Callee,
}

impl MidDialogLeg {
    /// The key under which the pending reply of a dialog is kept.
    pub open spec fn key_text(self, dialog_id: Seq<char>) -> Seq<char> {
        match self {
            MidDialogLeg::Caller => "caller:"@ + dialog_id,
            MidDialogLeg::Callee => "callee:"@ + dialog_id,
        }
    }

    /// The key under which the pending reply of a dialog is kept.
    pub fn pending_key(&self, dialog_id: &str) -> (r: String)
        ensures
            r@ == self.key_text(dialog_id@),
    {
        match self {
            MidDialogLeg::Caller => join2("caller:", dialog_id),
            MidDialogLeg::Callee => join2("callee:", dialog_id),
        }
    }
}

/// Two pending replies share a key only if they are of one leg and one dialog.
pub proof fn pending_keys_are_distinct(a: MidDialogLeg, x: Seq<char>, b: MidDialogLeg, y: Seq<char>)
    ensures
        a.key_text(x) == b.key_text(y) <==> a == b && x == y,
{
    reveal_strlit("caller:");
    reveal_strlit("callee:");
    assert(a.key_text(x).skip(7) =~= x);
    assert(b.key_text(y).skip(7) =~= y);
    assert(a.key_text(x)[5] == if a is Caller { 'r' } else { 'e' });
    assert(b.key_text(y)[5] == if b is Caller { 'r' } else { 'e' });
}

/// A command to a running session. Durations are in milliseconds.
#[derive(Clone, Debug)]
pub enum SessionAction {
    AcceptCall { callee: Option<String>, sdp: Option<String>, dialog_id: Option<String> },
    TransferTarget(String),
    ProvideEarlyMedia(String),
    ProvideEarlyMediaWithDialog(String, String),
    StartRinging { ringback: Option<String>, passthrough: bool },
    PlayPrompt {
        audio_file: String,
        send_progress: bool,
        await_completion: bool,
        track_id: Option<String>,
        loop_playback: bool,
        interrupt_on_dtmf: bool,
    },
    StartRecording { path: String, max_duration: Option<u64>, beep: bool },
    PauseRecording,
    ResumeRecording,
    StopRecording,
    Hangup { reason: Option<CallRecordHangupReason>, code: Option<u16>, initiator: Option<String> },
    HandleReInvite { leg: MidDialogLeg, method: String, sdp: Option<String>, dialog_id: String },
    HandleTrickleIce(String),
    RefreshSession,
    MuteTrack(String),
    UnmuteTrack(String),
    BridgeTo { target_session_id: String },
    Unbridge,
    StopPlayback,
    SupervisorListen { target_session_id: String },
    SupervisorWhisper { target_session_id: String },
    SupervisorBarge { target_session_id: String },
    SupervisorStop,
    StartSupervisorMode { supervisor_session_id: String, target_session_id: String, mode: SupervisorMode },
    Hold { music_source: Option<String> },
    Unhold,
}

impl SessionAction {
    /// The command to transfer to `target`, without the white space around it.
    pub fn from_transfer_target(target: &str) -> (r: SessionAction)
        ensures
            r is TransferTarget,
            r->TransferTarget_0@ == trimmed(target@),
    {
        SessionAction::TransferTarget(trim(target))
    }
}

/// The phase of a call.
#[derive(Clone, Copy, Debug, PartialEq, Eq, Structural)]
pub enum ProxyCallPhase {
    Initializing,
    Routing,
    App,
    Dialing,
    Ringing,
    EarlyMedia,
    Bridged,
    Terminating,
    Failed,
    Ended,
}

impl ProxyCallPhase {
    /// The phases that may follow this one.
    pub open spec fn successors(self) -> Set<ProxyCallPhase> {
        match self {
            ProxyCallPhase::Initializing => set![
                ProxyCallPhase::Routing,
                ProxyCallPhase::App,
                ProxyCallPhase::Dialing,
                ProxyCallPhase::Ringing,
                ProxyCallPhase::EarlyMedia,
                ProxyCallPhase::Bridged,
                ProxyCallPhase::Terminating,
                ProxyCallPhase::Failed,
                ProxyCallPhase::Ended
            ],
            ProxyCallPhase::Routing => set![
                ProxyCallPhase::App,
                ProxyCallPhase::Dialing,
                ProxyCallPhase::Ringing,
                ProxyCallPhase::Terminating,
                ProxyCallPhase::Failed
            ],
            ProxyCallPhase::App => set![
                ProxyCallPhase::Dialing,
                ProxyCallPhase::Routing,
                ProxyCallPhase::Terminating,
                ProxyCallPhase::Failed,
                ProxyCallPhase::Ended
            ],
            ProxyCallPhase::Dialing => set![
                ProxyCallPhase::Ringing,
                ProxyCallPhase::EarlyMedia,
                ProxyCallPhase::Bridged,
                ProxyCallPhase::Terminating,
                ProxyCallPhase::Failed
            ],
            ProxyCallPhase::Ringing => set![
                ProxyCallPhase::EarlyMedia,
                ProxyCallPhase::Bridged,
                ProxyCallPhase::Terminating,
                ProxyCallPhase::Failed,
                ProxyCallPhase::Ended
            ],
            ProxyCallPhase::EarlyMedia => set![
                ProxyCallPhase::Bridged,
                ProxyCallPhase::Terminating,
                ProxyCallPhase::Failed,
                ProxyCallPhase::Ended
            ],
            ProxyCallPhase::Bridged => set![
                ProxyCallPhase::Terminating,
                ProxyCallPhase::Failed,
                ProxyCallPhase::Ended
            ],
            ProxyCallPhase::Terminating => set![ProxyCallPhase::Ended, ProxyCallPhase::Failed],
            ProxyCallPhase::Failed => set![ProxyCallPhase::Terminating, ProxyCallPhase::Ended],
            ProxyCallPhase::Ended => Set::empty(),
        }
    }

    /// Returns `true` if the transition from the current phase to `target` is valid.
    pub fn can_transition_to(self, target: ProxyCallPhase) -> (r: bool)
        ensures
            r == self.successors().contains(target),
    {
        match self {
            ProxyCallPhase::Initializing => !matches!(target, ProxyCallPhase::Initializing),
            ProxyCallPhase::Routing => matches!(
                target,
                ProxyCallPhase::App | ProxyCallPhase::Dialing | ProxyCallPhase::Ringing
                | ProxyCallPhase::Terminating | ProxyCallPhase::Failed
            ),
            ProxyCallPhase::App => matches!(
                target,
                ProxyCallPhase::Dialing | ProxyCallPhase::Routing | ProxyCallPhase::Terminating
                | ProxyCallPhase::Failed | ProxyCallPhase::Ended
            ),
            ProxyCallPhase::Dialing => matches!(
                target,
                ProxyCallPhase::Ringing | ProxyCallPhase::EarlyMedia | ProxyCallPhase::Bridged
                | ProxyCallPhase::Terminating | ProxyCallPhase::Failed
            ),
            ProxyCallPhase::Ringing => matches!(
                target,
                ProxyCallPhase::EarlyMedia | ProxyCallPhase::Bridged | ProxyCallPhase::Terminating
                | ProxyCallPhase::Failed | ProxyCallPhase::Ended
            ),
            ProxyCallPhase::EarlyMedia => matches!(
                target,
                ProxyCallPhase::Bridged | ProxyCallPhase::Terminating | ProxyCallPhase::Failed
                | ProxyCallPhase::Ended
            ),
            ProxyCallPhase::Bridged => matches!(
                target,
                ProxyCallPhase::Terminating | ProxyCallPhase::Failed | ProxyCallPhase::Ended
            ),
            ProxyCallPhase::Terminating => matches!(
                target,
                ProxyCallPhase::Ended | ProxyCallPhase::Failed
            ),
            ProxyCallPhase::Failed => matches!(
                target,
                ProxyCallPhase::Terminating | ProxyCallPhase::Ended
            ),
            ProxyCallPhase::Ended => false,
        }
    }

    /// Whether the call is over.
    pub fn is_terminal(self) -> (r: bool)
        ensures
            r == (self is Ended),
            r == (self.successors() == Set::<ProxyCallPhase>::empty()),
    {
        proof {
            assert(self !is Ended ==> self.successors().contains(ProxyCallPhase::Failed)
                || self.successors().contains(ProxyCallPhase::Ended));
        }
        matches!(self, ProxyCallPhase::Ended)
    }
}

/// An event that a call reports to its observers.
#[derive(Clone, Debug)]
pub enum ProxyCallEvent {
    PhaseChanged { session_id: String, phase: ProxyCallPhase },
    TargetRinging { session_id: String, target: Option<String> },
    TargetAnswered { session_id: String, callee: Option<String> },
    TargetFailed {
        session_id: String,
        target: Option<String>,
        code: Option<u16>,
        reason: Option<String>,
    },
    QueueEntered { session_id: String, name: String },
    QueueLeft { session_id: String, name: Option<String> },
    Hangup { session_id: String, reason: Option<CallRecordHangupReason> },
}

/// What is known of a call at one moment. Times are in milliseconds.
#[derive(Clone, Debug)]
pub struct CallSessionSnapshot {
    pub session_id: String,
    pub phase: ProxyCallPhase,
    pub started_at: u64,
    pub ring_time: Option<u64>,
    pub answer_time: Option<u64>,
    pub hangup_reason: Option<CallRecordHangupReason>,
    pub last_error_code: Option<u16>,
    pub last_error_reason: Option<String>,
    pub caller: Option<String>,
    pub callee: Option<String>,
    pub current_target: Option<String>,
    pub queue_name: Option<String>,
    pub direction: DialDirection,
    pub answer_sdp: Option<String>,
}

/// Whether a registered call is being set up or has been answered.
#[derive(Clone, Copy, Debug, PartialEq, Eq, Structural)]
pub enum ActiveProxyCallStatus {
    Ringing,
    Talking,
}

/// The entry of a call in the registry of active calls.
#[derive(Clone, Debug)]
pub struct ActiveProxyCallEntry {
    pub session_id: String,
    pub caller: Option<String>,
    pub callee: Option<String>,
    pub direction: DialDirection,
    pub started_at: u64,
    pub answered_at: Option<u64>,
    pub status: ActiveProxyCallStatus,
}

/// What a call's owner is told when the call is over.
#[derive(Clone, Debug)]
pub struct CallHangup {
    pub call_id: String,
    pub reason: Option<String>,
    pub sip_status: Option<u16>,
}

/// The reply handle of a mid-dialog request that has not been answered yet.
#[derive(Clone, Debug)]
pub struct PendingReply {
    pub key: String,
    pub handle: u64,
}

/// The events that a change of phase gives.
pub open spec fn phase_events(id: String, before: ProxyCallPhase, after: ProxyCallPhase) -> Seq<
    ProxyCallEvent,
> {
    if before == after {
        Seq::empty()
    } else {
        seq![ProxyCallEvent::PhaseChanged { session_id: id, phase: after }]
    }
}

/// The events that a change of queue gives: the old queue is left before the
/// new one is entered.
pub open spec fn queue_events(id: String, before: Option<String>, after: Option<String>) -> Seq<
    ProxyCallEvent,
> {
    if opt_text(before) == opt_text(after) {
        Seq::empty()
    } else {
        match (before, after) {
            (Some(b), Some(a)) => seq![
                ProxyCallEvent::QueueLeft { session_id: id, name: Some(b) },
                ProxyCallEvent::QueueEntered { session_id: id, name: a },
            ],
            (Some(b), None) => seq![ProxyCallEvent::QueueLeft { session_id: id, name: Some(b) }],
            (None, Some(a)) => seq![ProxyCallEvent::QueueEntered { session_id: id, name: a }],
            (None, None) => Seq::empty(),
        }
    }
}

/// The events that a change of the hangup reason gives.
pub open spec fn hangup_events(
    id: String,
    before: Option<CallRecordHangupReason>,
    after: Option<CallRecordHangupReason>,
) -> Seq<ProxyCallEvent> {
    if before == after {
        Seq::empty()
    } else {
        seq![ProxyCallEvent::Hangup { session_id: id, reason: after }]
    }
}

/// The events that the step from one snapshot to the next gives, in order.
pub open spec fn change_events(before: CallSessionSnapshot, after: CallSessionSnapshot) -> Seq<
    ProxyCallEvent,
> {
    phase_events(after.session_id, before.phase, after.phase) + queue_events(
        after.session_id,
        before.queue_name,
        after.queue_name,
    ) + hangup_events(after.session_id, before.hangup_reason, after.hangup_reason)
}

/// The registry entry of a call after the call has become `s`.
pub open spec fn refreshed_entry(entry: Option<ActiveProxyCallEntry>, s: CallSessionSnapshot) -> Option<
    ActiveProxyCallEntry,
> {
    match entry {
        Some(e) => Some(
            ActiveProxyCallEntry {
                caller: s.caller,
                callee: s.callee,
                answered_at: s.answer_time,
                status: if s.phase is Bridged {
                    ActiveProxyCallStatus::Talking
                } else {
                    ActiveProxyCallStatus::Ringing
                },
                ..e
            },
        ),
        None => None,
    }
}

/// The events of `a` followed by those of `b`, where an observer listens.
pub open spec fn logged(log: Option<Seq<ProxyCallEvent>>, more: Seq<ProxyCallEvent>) -> Option<
    Seq<ProxyCallEvent>,
> {
    match log {
        Some(l) => Some(l + more),
        None => None,
    }
}

/// An event of a call that its application is told of.
#[derive(Clone, Debug)]
pub enum ControllerEvent {
    DtmfReceived(String),
    AudioComplete { track_id: String, interrupted: bool },
    RecordingComplete(RecordingInfo),
    Hangup(Option<CallRecordHangupReason>),
    Custom(String, String),
}

/// The media of the exported leg, as the control surfaces see it.
#[derive(Debug)]
pub struct SharedExportedLegMedia {
    /// Whether the session has published its media.
    pub published: bool,
    pub offer_sdp: Option<String>,
    pub answer_sdp: Option<String>,
    pub negotiated_audio: Option<(CodecType, RtpCodecParameters, Vec<CodecInfo>)>,
    pub ssrc: Option<u32>,
    pub is_bridged: bool,
}

/// What the control surfaces of a call reach: the application that runs on it,
/// the listener for its DTMF digits, and its media. `app_events` holds what has
/// been sent to the application and is `None` without one. `dialogs` are those that
/// were entered into the registry of active calls, where the call is found by them.
#[derive(Debug)]
pub struct ControlSurface {
    pub app_events: Option<Vec<ControllerEvent>>,
    pub dtmf_listener_cancel: Option<u64>,
    pub media: SharedExportedLegMedia,
    pub dialogs: Vec<String>,
}

impl ControlSurface {
    /// Whether nothing runs on the call and nothing has been published.
    pub open spec fn is_blank(self) -> bool {
        self.dialogs@ == Seq::<String>::empty() && self.app_events is None && self.dtmf_listener_cancel is None && !self.media.published
            && self.media.offer_sdp is None && self.media.answer_sdp is None
            && self.media.negotiated_audio is None && self.media.ssrc is None
            && !self.media.is_bridged
    }
}

/// The shared state of a call. `events` holds what has been reported since an
/// observer was attached and is `None` without one.
#[derive(Debug)]
pub struct CallSessionShared {
    pub inner: CallSessionSnapshot,
    pub entry: Option<ActiveProxyCallEntry>,
    pub events: Option<Vec<ProxyCallEvent>>,
    pub pending: Vec<PendingReply>,
    pub surface: ControlSurface,
}

impl CallSessionShared {
    /// The reported events.
    pub open spec fn log(self) -> Option<Seq<ProxyCallEvent>> {
        match self.events {
            Some(v) => Some(v@),
            None => None,
        }
    }

    /// The state after the call has become `next` and its changes are reported.
    pub open spec fn becomes(self, next: CallSessionSnapshot, after: CallSessionShared) -> bool {
        &&& after.inner == next
        &&& after.entry == refreshed_entry(self.entry, next)
        &&& after.log() == logged(self.log(), change_events(self.inner, next))
        &&& after.pending == self.pending
        &&& after.surface == self.surface
    }

    /// Whether a call has just begun between these parties.
    pub open spec fn has_begun(
        self,
        session_id: String,
        direction: DialDirection,
        caller: Option<String>,
        callee: Option<String>,
        started_at: u64,
    ) -> bool {
        self.inner == (CallSessionSnapshot {
            session_id,
            phase: ProxyCallPhase::Initializing,
            started_at,
            ring_time: None,
            answer_time: None,
            hangup_reason: None,
            last_error_code: None,
            last_error_reason: None,
            caller,
            callee,
            current_target: None,
            queue_name: None,
            direction,
            answer_sdp: None,
        }) && self.log() is None && self.pending@ == Seq::<PendingReply>::empty()
    }

    /// The state of a call that has just begun.
    pub fn new(
        session_id: String,
        direction: DialDirection,
        caller: Option<String>,
        callee: Option<String>,
        started_at: u64,
    ) -> (r: CallSessionShared)
        ensures
            r.has_begun(session_id, direction, caller, callee, started_at),
            r.entry is None,
            r.surface.is_blank(),
    {
        CallSessionShared {
            inner: CallSessionSnapshot {
                session_id,
                phase: ProxyCallPhase::Initializing,
                started_at,
                ring_time: None,
                answer_time: None,
                hangup_reason: None,
                last_error_code: None,
                last_error_reason: None,
                caller,
                callee,
                current_target: None,
                queue_name: None,
                direction,
                answer_sdp: None,
            },
            entry: None,
            events: None,
            pending: Vec::new(),
            surface: ControlSurface {
                app_events: None,
                dtmf_listener_cancel: None,
                media: SharedExportedLegMedia {
                    published: false,
                    offer_sdp: None,
                    answer_sdp: None,
                    negotiated_audio: None,
                    ssrc: None,
                    is_bridged: false,
                },
                dialogs: Vec::new(),
            },
        }
    }

    /// Attaches an observer: what is reported from now on is kept for it.
    pub fn set_event_sender(&mut self)
        ensures
            final(self).log() == Some(Seq::<ProxyCallEvent>::empty()),
            final(self).inner == old(self).inner,
            final(self).entry == old(self).entry,
            final(self).pending == old(self).pending,
            final(self).surface == old(self).surface,
    {
        self.events = Some(Vec::new());
    }

    /// Hands the reported events to the observer.
    pub fn take_events(&mut self) -> (r: Vec<ProxyCallEvent>)
        ensures
            r@ == (match old(self).log() {
                Some(l) => l,
                None => Seq::empty(),
            }),
            final(self).log() == (match old(self).log() {
                Some(_) => Some(Seq::<ProxyCallEvent>::empty()),
                None => None,
            }),
            final(self).inner == old(self).inner,
            final(self).entry == old(self).entry,
            final(self).pending == old(self).pending,
            final(self).surface == old(self).surface,
    {
        match self.events.take() {
            Some(v) => {
                self.events = Some(Vec::new());
                v
            },
            None => Vec::new(),
        }
    }

    /// Reports an event, where an observer listens.
    pub fn emit_custom_event(&mut self, event: ProxyCallEvent)
        ensures
            final(self).log() == logged(old(self).log(), seq![event]),
            final(self).inner == old(self).inner,
            final(self).entry == old(self).entry,
            final(self).pending == old(self).pending,
            final(self).surface == old(self).surface,
    {
        match self.events.take() {
            Some(v) => {
                let mut v = v;
                let ghost before = v@;
                v.push(event);
                assert(v@ =~= before + seq![event]);
                self.events = Some(v);
            },
            None => {},
        }
    }

    /// Brings the registry entry up to date.
    fn refresh_entry(&mut self)
        ensures
            final(self).inner == old(self).inner,
            final(self).entry == refreshed_entry(old(self).entry, old(self).inner),
            final(self).log() == old(self).log(),
            final(self).pending == old(self).pending,
            final(self).surface == old(self).surface,
    {
        if let Some(e) = self.entry.take() {
            let mut e = e;
            e.caller = own_opt(&self.inner.caller);
            e.callee = own_opt(&self.inner.callee);
            e.answered_at = self.inner.answer_time;
            e.status = if matches!(self.inner.phase, ProxyCallPhase::Bridged) {
                ActiveProxyCallStatus::Talking
            } else {
                ActiveProxyCallStatus::Ringing
            };
            self.entry = Some(e);
        }
    }

    fn report_phase(&mut self, before: ProxyCallPhase)
        ensures
            final(self).inner == old(self).inner,
            final(self).entry == old(self).entry,
            final(self).log() == logged(
                old(self).log(),
                phase_events(old(self).inner.session_id, before, old(self).inner.phase),
            ),
            final(self).pending == old(self).pending,
            final(self).surface == old(self).surface,
    {
        proof {
            logged_nothing(self.log());
        }
        if self.inner.phase != before {
            let session_id = self.inner.session_id.clone();
            let phase = self.inner.phase;
            self.emit_custom_event(ProxyCallEvent::PhaseChanged { session_id, phase });
        }
    }

    fn report_queue(&mut self, before: &Option<String>)
        ensures
            final(self).inner == old(self).inner,
            final(self).entry == old(self).entry,
            final(self).log() == logged(
                old(self).log(),
                queue_events(old(self).inner.session_id, *before, old(self).inner.queue_name),
            ),
            final(self).pending == old(self).pending,
            final(self).surface == old(self).surface,
    {
        let ghost start = self.log();
        let ghost id = self.inner.session_id;
        proof {
            logged_nothing(start);
        }
        if !same_opt(&self.inner.queue_name, before) {
            let after = own_opt(&self.inner.queue_name);
            match (before, after) {
                (Some(b), Some(a)) => {
                    let left = ProxyCallEvent::QueueLeft {
                        session_id: self.inner.session_id.clone(),
                        name: Some(b.clone()),
                    };
                    let entered = ProxyCallEvent::QueueEntered {
                        session_id: self.inner.session_id.clone(),
                        name: a,
                    };
                    proof {
                        logged_twice(start, seq![left], seq![entered]);
                        assert(seq![left] + seq![entered] =~= seq![left, entered]);
                    }
                    self.emit_custom_event(left);
                    self.emit_custom_event(entered);
                },
                (Some(b), None) => {
                    let session_id = self.inner.session_id.clone();
                    self.emit_custom_event(
                        ProxyCallEvent::QueueLeft { session_id, name: Some(b.clone()) },
                    );
                },
                (None, Some(a)) => {
                    let session_id = self.inner.session_id.clone();
                    self.emit_custom_event(ProxyCallEvent::QueueEntered { session_id, name: a });
                },
                (None, None) => {},
            }
        }
    }

    fn report_hangup(&mut self, before: Option<CallRecordHangupReason>)
        ensures
            final(self).inner == old(self).inner,
            final(self).entry == old(self).entry,
            final(self).log() == logged(
                old(self).log(),
                hangup_events(old(self).inner.session_id, before, old(self).inner.hangup_reason),
            ),
            final(self).pending == old(self).pending,
            final(self).surface == old(self).surface,
    {
        proof {
            logged_nothing(self.log());
        }
        let same_reason = match (self.inner.hangup_reason, before) {
            (Some(a), Some(b)) => a == b,
            (None, None) => true,
            _ => false,
        };
        if !same_reason {
            let session_id = self.inner.session_id.clone();
            let reason = self.inner.hangup_reason;
            self.emit_custom_event(ProxyCallEvent::Hangup { session_id, reason });
        }
    }

    /// Makes `next` the state of the call, refreshes the registry entry and
    /// reports what changed.
    fn update(&mut self, next: CallSessionSnapshot)
        ensures
            old(self).becomes(next, *final(self)),
    {
        let phase = self.inner.phase;
        let queue = own_opt(&self.inner.queue_name);
        let reason = self.inner.hangup_reason;
        let ghost start = self.log();
        let ghost id = next.session_id;
        proof {
            let p = phase_events(id, phase, next.phase);
            let q = queue_events(id, queue, next.queue_name);
            let h = hangup_events(id, reason, next.hangup_reason);
            logged_twice(start, p, q);
            logged_twice(start, p + q, h);
        }
        self.inner = next;
        self.refresh_entry();
        self.report_phase(phase);
        self.report_queue(&queue);
        self.report_hangup(reason);
    }
}

impl CallSessionSnapshot {
    /// A copy.
    pub fn copy(&self) -> (r: CallSessionSnapshot)
        ensures
            r == *self,
    {
        CallSessionSnapshot {
            session_id: self.session_id.clone(),
            phase: self.phase,
            started_at: self.started_at,
            ring_time: self.ring_time,
            answer_time: self.answer_time,
            hangup_reason: self.hangup_reason,
            last_error_code: self.last_error_code,
            last_error_reason: own_opt(&self.last_error_reason),
            caller: own_opt(&self.caller),
            callee: own_opt(&self.callee),
            current_target: own_opt(&self.current_target),
            queue_name: own_opt(&self.queue_name),
            direction: self.direction,
            answer_sdp: own_opt(&self.answer_sdp),
        }
    }

    /// The snapshot in phase `phase`.
    pub open spec fn in_phase(self, phase: ProxyCallPhase) -> CallSessionSnapshot {
        CallSessionSnapshot { phase, ..self }
    }

    /// Whether the callee may still be alerted.
    pub open spec fn can_ring(self) -> bool {
        self.phase is Initializing || self.phase is Routing || self.phase is Dialing
            || self.phase is Ringing || self.phase is EarlyMedia
    }

    /// The snapshot once the callee is alerted; the first alert sets the time.
    pub open spec fn ringing(self, has_early_media: bool, now: u64) -> CallSessionSnapshot {
        CallSessionSnapshot {
            ring_time: if self.ring_time is None {
                Some(now)
            } else {
                self.ring_time
            },
            phase: if has_early_media {
                ProxyCallPhase::EarlyMedia
            } else {
                ProxyCallPhase::Ringing
            },
            ..self
        }
    }

    /// The snapshot once the call is answered; the first answer sets the time.
    pub open spec fn answered(self, now: u64) -> CallSessionSnapshot {
        CallSessionSnapshot {
            answer_time: if self.answer_time is None {
                Some(now)
            } else {
                self.answer_time
            },
            phase: ProxyCallPhase::Bridged,
            ..self
        }
    }

    /// The snapshot after a failure: a bridged call stays bridged.
    pub open spec fn failed(self, code: u16, reason: Option<String>) -> CallSessionSnapshot {
        CallSessionSnapshot {
            last_error_code: Some(code),
            last_error_reason: reason,
            phase: if self.phase is Bridged {
                ProxyCallPhase::Bridged
            } else {
                ProxyCallPhase::Failed
            },
            ..self
        }
    }

    /// The snapshot of a call that is over for `reason`.
    pub open spec fn hung_up(self, reason: CallRecordHangupReason) -> CallSessionSnapshot {
        CallSessionSnapshot { hangup_reason: Some(reason), phase: ProxyCallPhase::Ended, ..self }
    }

    /// A party after routing: the routed one where there is one that differs.
    pub open spec fn routed_party(current: Option<String>, routed: Option<String>) -> Option<String> {
        if routed is Some && opt_text(current) != opt_text(routed) {
            routed
        } else {
            current
        }
    }
}

impl CallSessionShared {
    /// A copy of what is known of the call.
    pub fn snapshot(&self) -> (r: CallSessionSnapshot)
        ensures
            r == self.inner,
    {
        self.inner.copy()
    }

    fn enter_phase(&mut self, phase: ProxyCallPhase) -> (r: bool)
        ensures
            r == old(self).inner.phase.successors().contains(phase),
            r ==> old(self).becomes(old(self).inner.in_phase(phase), *final(self)),
            !r ==> *final(self) == *old(self),
    {
        if self.inner.phase.can_transition_to(phase) {
            let mut next = self.snapshot();
            next.phase = phase;
            self.update(next);
            true
        } else {
            false
        }
    }

    /// Enters the routing phase, where the phase allows it.
    pub fn transition_to_routing(&mut self) -> (r: bool)
        ensures
            r == old(self).inner.phase.successors().contains(ProxyCallPhase::Routing),
            r ==> old(self).becomes(
                old(self).inner.in_phase(ProxyCallPhase::Routing),
                *final(self),
            ),
            !r ==> *final(self) == *old(self),
    {
        self.enter_phase(ProxyCallPhase::Routing)
    }

    /// Enters the application phase, where the phase allows it.
    pub fn transition_to_app(&mut self) -> (r: bool)
        ensures
            r == old(self).inner.phase.successors().contains(ProxyCallPhase::App),
            r ==> old(self).becomes(old(self).inner.in_phase(ProxyCallPhase::App), *final(self)),
            !r ==> *final(self) == *old(self),
    {
        self.enter_phase(ProxyCallPhase::App)
    }

    /// Enters the dialing phase, where the phase allows it.
    pub fn transition_to_dialing(&mut self) -> (r: bool)
        ensures
            r == old(self).inner.phase.successors().contains(ProxyCallPhase::Dialing),
            r ==> old(self).becomes(
                old(self).inner.in_phase(ProxyCallPhase::Dialing),
                *final(self),
            ),
            !r ==> *final(self) == *old(self),
    {
        self.enter_phase(ProxyCallPhase::Dialing)
    }

    /// Notes that the callee is being alerted.
    pub fn transition_to_ringing(&mut self, has_early_media: bool, now: u64) -> (r: bool)
        ensures
            r == old(self).inner.can_ring(),
            r ==> old(self).becomes(old(self).inner.ringing(has_early_media, now), *final(self)),
            !r ==> *final(self) == *old(self),
    {
        match self.inner.phase {
            ProxyCallPhase::Initializing | ProxyCallPhase::Routing | ProxyCallPhase::Dialing
            | ProxyCallPhase::Ringing | ProxyCallPhase::EarlyMedia => {
                let mut next = self.snapshot();
                if next.ring_time.is_none() {
                    next.ring_time = Some(now);
                }
                next.phase = if has_early_media {
                    ProxyCallPhase::EarlyMedia
                } else {
                    ProxyCallPhase::Ringing
                };
                self.update(next);
                true
            },
            ProxyCallPhase::App | ProxyCallPhase::Bridged | ProxyCallPhase::Terminating
            | ProxyCallPhase::Failed | ProxyCallPhase::Ended => false,
        }
    }

    /// Notes that the call is answered.
    pub fn transition_to_answered(&mut self, now: u64)
        ensures
            old(self).becomes(old(self).inner.answered(now), *final(self)),
    {
        let mut next = self.snapshot();
        if next.answer_time.is_none() {
            next.answer_time = Some(now);
        }
        next.phase = ProxyCallPhase::Bridged;
        self.update(next);
    }

    /// Notes a failure with its response code and reason.
    pub fn note_failure(&mut self, code: u16, reason: Option<String>)
        ensures
            old(self).becomes(old(self).inner.failed(code, reason), *final(self)),
    {
        let mut next = self.snapshot();
        next.last_error_code = Some(code);
        next.last_error_reason = reason;
        if !matches!(next.phase, ProxyCallPhase::Bridged) {
            next.phase = ProxyCallPhase::Failed;
        }
        self.update(next);
    }

    /// Begins the teardown, unless it has begun or the call is over.
    pub fn transition_to_terminating(&mut self) -> (r: bool)
        ensures
            r == !(old(self).inner.phase is Ended || old(self).inner.phase is Terminating),
            r ==> old(self).becomes(
                old(self).inner.in_phase(ProxyCallPhase::Terminating),
                *final(self),
            ),
            !r ==> *final(self) == *old(self),
    {
        if matches!(self.inner.phase, ProxyCallPhase::Ended | ProxyCallPhase::Terminating) {
            return false;
        }
        let mut next = self.snapshot();
        next.phase = ProxyCallPhase::Terminating;
        self.update(next);
        true
    }

    /// Notes that the call is over.
    pub fn mark_hangup(&mut self, reason: CallRecordHangupReason)
        ensures
            old(self).becomes(old(self).inner.hung_up(reason), *final(self)),
    {
        let mut next = self.snapshot();
        next.hangup_reason = Some(reason);
        next.phase = ProxyCallPhase::Ended;
        self.update(next);
    }

    /// Notes the parties that routing chose. Without a change nothing is reported.
    pub fn update_routed_parties(&mut self, caller: Option<String>, callee: Option<String>)
        ensures
            final(self).inner == (CallSessionSnapshot {
                caller: CallSessionSnapshot::routed_party(old(self).inner.caller, caller),
                callee: CallSessionSnapshot::routed_party(old(self).inner.callee, callee),
                ..old(self).inner
            }),
            final(self).log() == old(self).log(),
            final(self).pending == old(self).pending,
            final(self).surface == old(self).surface,
            final(self).entry == (if final(self).inner == old(self).inner {
                if (caller is Some && opt_text(caller) != opt_text(old(self).inner.caller)) || (
                callee is Some && opt_text(callee) != opt_text(old(self).inner.callee)) {
                    refreshed_entry(old(self).entry, old(self).inner)
                } else {
                    old(self).entry
                }
            } else {
                refreshed_entry(old(self).entry, final(self).inner)
            }),
    {
        let mut next = self.snapshot();
        let mut changed = false;
        if caller.is_some() && !same_opt(&next.caller, &caller) {
            next.caller = caller;
            changed = true;
        }
        if callee.is_some() && !same_opt(&next.callee, &callee) {
            next.callee = callee;
            changed = true;
        }
        proof {
            logged_nothing(self.log());
            assert(change_events(self.inner, next) =~= Seq::empty());
        }
        if changed {
            self.update(next);
        }
    }

    /// Notes the target that is being rung and reports a new one.
    pub fn set_current_target(&mut self, target: Option<String>)
        ensures
            opt_text(old(self).inner.current_target) == opt_text(target) ==> *final(self) == *old(self),
            opt_text(old(self).inner.current_target) != opt_text(target) ==> {
                &&& final(self).inner == (CallSessionSnapshot {
                    current_target: target,
                    ..old(self).inner
                })
                &&& final(self).entry == refreshed_entry(old(self).entry, old(self).inner)
                &&& final(self).log() == logged(
                    old(self).log(),
                    seq![
                        ProxyCallEvent::TargetRinging {
                            session_id: old(self).inner.session_id,
                            target,
                        },
                    ],
                )
                &&& final(self).pending == old(self).pending
                &&& final(self).surface == old(self).surface
            },
    {
        if same_opt(&self.inner.current_target, &target) {
            return;
        }
        let mut next = self.snapshot();
        next.current_target = own_opt(&target);
        proof {
            logged_nothing(self.log());
            assert(change_events(self.inner, next) =~= Seq::empty());
        }
        self.update(next);
        let session_id = self.inner.session_id.clone();
        self.emit_custom_event(ProxyCallEvent::TargetRinging { session_id, target });
    }

    /// Notes the queue that the call waits in.
    pub fn set_queue_name(&mut self, queue: Option<String>)
        ensures
            opt_text(old(self).inner.queue_name) == opt_text(queue) ==> *final(self) == *old(self),
            opt_text(old(self).inner.queue_name) != opt_text(queue) ==> old(self).becomes(
                (CallSessionSnapshot { queue_name: queue, ..old(self).inner }),
                *final(self),
            ),
    {
        if same_opt(&self.inner.queue_name, &queue) {
            return;
        }
        let mut next = self.snapshot();
        next.queue_name = queue;
        self.update(next);
    }

    /// Keeps the answer SDP.
    pub fn set_answer_sdp(&mut self, sdp: String)
        ensures
            final(self).inner == (CallSessionSnapshot { answer_sdp: Some(sdp), ..old(self).inner }),
            final(self).entry == old(self).entry,
            final(self).log() == old(self).log(),
            final(self).pending == old(self).pending,
            final(self).surface == old(self).surface,
    {
        self.inner.answer_sdp = Some(sdp);
    }

    /// The answer SDP.
    pub fn answer_sdp(&self) -> (r: Option<String>)
        ensures
            r == self.inner.answer_sdp,
    {
        own_opt(&self.inner.answer_sdp)
    }

    /// The queue that the call waits in.
    pub fn queue_name(&self) -> (r: Option<String>)
        ensures
            r == self.inner.queue_name,
    {
        own_opt(&self.inner.queue_name)
    }

    /// The identifier of the session.
    pub fn session_id(&self) -> (r: String)
        ensures
            r == self.inner.session_id,
    {
        self.inner.session_id.clone()
    }

    /// What the owner of the call is told of its end: the hangup reason, else
    /// the text of the last failure; the code of the last failure, else 200
    /// where there is a hangup reason.
    pub fn rwi_hangup_event(&self) -> (r: CallHangup)
        ensures
            r.call_id == self.inner.session_id,
            opt_text(r.reason) == (match self.inner.hangup_reason {
                Some(h) => Some(h.label_text()),
                None => opt_text(self.inner.last_error_reason),
            }),
            r.sip_status == (match (self.inner.last_error_code, self.inner.hangup_reason) {
                (Some(c), _) => Some(c),
                (None, Some(_)) => Some(200u16),
                (None, None) => None,
            }),
    {
        CallHangup {
            call_id: self.inner.session_id.clone(),
            reason: match self.inner.hangup_reason {
                Some(h) => Some(h.label()),
                None => own_opt(&self.inner.last_error_reason),
            },
            sip_status: match (self.inner.last_error_code, self.inner.hangup_reason) {
                (Some(c), _) => Some(c),
                (None, Some(_)) => Some(200),
                (None, None) => None,
            },
        }
    }

    /// Enters the call into the registry of active calls, as one being set up.
    pub fn register_active_call(&mut self)
        ensures
            final(self).entry == Some(
                ActiveProxyCallEntry {
                    session_id: old(self).inner.session_id,
                    caller: old(self).inner.caller,
                    callee: old(self).inner.callee,
                    direction: old(self).inner.direction,
                    started_at: old(self).inner.started_at,
                    answered_at: old(self).inner.answer_time,
                    status: ActiveProxyCallStatus::Ringing,
                },
            ),
            final(self).inner == old(self).inner,
            final(self).log() == old(self).log(),
            final(self).pending == old(self).pending,
            final(self).surface == old(self).surface,
    {
        self.entry = Some(
            ActiveProxyCallEntry {
                session_id: self.inner.session_id.clone(),
                caller: own_opt(&self.inner.caller),
                callee: own_opt(&self.inner.callee),
                direction: self.inner.direction,
                started_at: self.inner.started_at,
                answered_at: self.inner.answer_time,
                status: ActiveProxyCallStatus::Ringing,
            },
        );
    }

    /// The state once a dialog is entered into the registry of active calls.
    pub open spec fn has_entered(self, after: CallSessionShared, dialog: Seq<char>) -> bool {
        &&& texts(after.surface.dialogs@) == texts(self.surface.dialogs@).push(dialog)
        &&& after == (CallSessionShared {
            surface: ControlSurface { dialogs: after.surface.dialogs, ..self.surface },
            ..self
        })
    }

    /// Enters a dialog of the call into the registry of active calls.
    pub fn register_dialog(&mut self, dialog_id: String)
        ensures
            old(self).has_entered(*final(self), dialog_id@),
    {
        let ghost before = texts(self.surface.dialogs@);
        self.surface.dialogs.push(dialog_id);
        assert(texts(self.surface.dialogs@) =~= before.push(dialog_id@));
    }

    /// Takes the call out of the registry of active calls.
    pub fn unregister(&mut self)
        ensures
            final(self).entry is None,
            final(self).inner == old(self).inner,
            final(self).log() == old(self).log(),
            final(self).pending == old(self).pending,
            final(self).surface == old(self).surface,
    {
        self.entry = None;
    }
}

/// The pending replies by key: of replies with one key the last stored counts.
pub open spec fn reply_map(v: Seq<PendingReply>) -> Map<Seq<char>, u64>
    decreases v.len(),
{
    if v.len() == 0 {
        Map::empty()
    } else {
        reply_map(v.drop_last()).insert(v.last().key@, v.last().handle)
    }
}

/// Whether no two pending replies have one key.
pub open spec fn distinct_keys(v: Seq<PendingReply>) -> bool {
    forall|i: int, j: int| 0 <= i < j < v.len() ==> (#[trigger] v[i]).key@ != (#[trigger] v[j]).key@
}

proof fn reply_map_at(v: Seq<PendingReply>, i: int)
    requires
        distinct_keys(v),
        0 <= i < v.len(),
    ensures
        reply_map(v).dom().contains(v[i].key@),
        reply_map(v)[v[i].key@] == v[i].handle,
    decreases v.len(),
{
    if i < v.len() - 1 {
        assert(v.drop_last()[i] == v[i]);
        reply_map_at(v.drop_last(), i);
    }
}

proof fn reply_map_absent(v: Seq<PendingReply>, k: Seq<char>)
    requires
        forall|i: int| 0 <= i < v.len() ==> (#[trigger] v[i]).key@ != k,
    ensures
        !reply_map(v).dom().contains(k),
    decreases v.len(),
{
    if v.len() > 0 {
        assert forall|i: int| 0 <= i < v.drop_last().len() implies (#[trigger] v.drop_last()[i]).key@
            != k by {
            assert(v[i].key@ != k);
        }
        assert(v[v.len() - 1].key@ != k);
        reply_map_absent(v.drop_last(), k);
    }
}

proof fn reply_map_removed(v: Seq<PendingReply>, i: int)
    requires
        distinct_keys(v),
        0 <= i < v.len(),
    ensures
        distinct_keys(v.remove(i)),
        reply_map(v.remove(i)) == reply_map(v).remove(v[i].key@),
    decreases v.len(),
{
    let k = v[i].key@;
    assert forall|a: int, b: int| 0 <= a < b < v.remove(i).len() implies (#[trigger] v.remove(
        i,
    )[a]).key@ != (#[trigger] v.remove(i)[b]).key@ by {
        let a2 = if a < i { a } else { a + 1 };
        let b2 = if b < i { b } else { b + 1 };
        assert(v[a2].key@ != v[b2].key@);
    }
    if i == v.len() - 1 {
        assert(v.remove(i) =~= v.drop_last());
        assert forall|j: int| 0 <= j < v.drop_last().len() implies (#[trigger] v.drop_last()[j]).key@
            != k by {
            assert(v[j].key@ != v[i].key@);
        }
        reply_map_absent(v.drop_last(), k);
        assert(reply_map(v).remove(k) =~= reply_map(v.drop_last()));
    } else {
        let w = v.drop_last();
        assert(distinct_keys(w)) by {
            assert forall|a: int, b: int| 0 <= a < b < w.len() implies (#[trigger] w[a]).key@ != (
            #[trigger] w[b]).key@ by {
                assert(v[a].key@ != v[b].key@);
            }
        }
        assert(w[i] == v[i]);
        reply_map_removed(w, i);
        assert(v.remove(i).drop_last() =~= w.remove(i));
        assert(v.remove(i).last() == v.last());
        assert(v[i].key@ != v[v.len() - 1].key@);
        assert(reply_map(v.remove(i)) =~= reply_map(v).remove(k));
    }
}

impl CallSessionShared {
    /// Whether the pending replies have distinct keys.
    pub open spec fn well_formed(self) -> bool {
        distinct_keys(self.pending@)
    }

    /// The pending replies by key.
    pub open spec fn replies(self) -> Map<Seq<char>, u64> {
        reply_map(self.pending@)
    }

    fn take_reply(&mut self, key: &str) -> (r: Option<u64>)
        requires
            old(self).well_formed(),
        ensures
            final(self).well_formed(),
            final(self).replies() == old(self).replies().remove(key@),
            r == (if old(self).replies().dom().contains(key@) {
                Some(old(self).replies()[key@])
            } else {
                None
            }),
            forall|i: int| 0 <= i < final(self).pending@.len() ==> (#[trigger] final(self).pending@[i]).key@
                != key@,
            final(self).inner == old(self).inner,
            final(self).entry == old(self).entry,
            final(self).log() == old(self).log(),
            final(self).surface == old(self).surface,
    {
        let mut i: usize = 0;
        while i < self.pending.len()
            invariant
                i <= self.pending.len(),
                self.well_formed(),
                *self == *old(self),
                forall|j: int| 0 <= j < i ==> (#[trigger] self.pending@[j]).key@ != key@,
            decreases self.pending.len() - i,
        {
            if same(self.pending[i].key.as_str(), key) {
                proof {
                    reply_map_at(self.pending@, i as int);
                    reply_map_removed(self.pending@, i as int);
                }
                let ghost before = self.pending@;
                let taken = self.pending.remove(i);
                assert forall|j: int| 0 <= j < self.pending@.len() implies (
                #[trigger] self.pending@[j]).key@ != key@ by {
                    let j2 = if j < i { j } else { j + 1 };
                    if j2 < i {
                        assert(before[j2].key@ != before[i as int].key@);
                    } else {
                        assert(before[i as int].key@ != before[j2].key@);
                    }
                }
                return Some(taken.handle);
            }
            i += 1;
        }
        proof {
            reply_map_absent(self.pending@, key@);
            assert(self.replies().remove(key@) =~= self.replies());
        }
        None
    }

    /// Keeps the handle to answer a mid-dialog request with, in place of an
    /// earlier one of that leg and dialog.
    pub fn store_mid_dialog_reply(&mut self, leg: MidDialogLeg, dialog_id: &str, handle: u64)
        requires
            old(self).well_formed(),
        ensures
            final(self).well_formed(),
            final(self).replies() == old(self).replies().insert(leg.key_text(dialog_id@), handle),
            final(self).inner == old(self).inner,
            final(self).entry == old(self).entry,
            final(self).log() == old(self).log(),
            final(self).surface == old(self).surface,
    {
        let key = leg.pending_key(dialog_id);
        let ghost k = key@;
        let _old_handle = self.take_reply(key.as_str());
        let ghost rest = self.pending@;
        self.pending.push(PendingReply { key, handle });
        proof {
            assert(self.pending@.drop_last() =~= rest);
            assert forall|i: int, j: int| 0 <= i < j < self.pending@.len() implies (
            #[trigger] self.pending@[i]).key@ != (#[trigger] self.pending@[j]).key@ by {
                if j == rest.len() {
                    assert(rest[i].key@ != k);
                } else {
                    assert(rest[i].key@ != rest[j].key@);
                }
            }
            assert(self.replies() =~= old(self).replies().insert(k, handle));
        }
    }

    /// Takes the handle to answer a mid-dialog request with.
    pub fn take_mid_dialog_reply(&mut self, leg: MidDialogLeg, dialog_id: &str) -> (r: Option<u64>)
        requires
            old(self).well_formed(),
        ensures
            final(self).well_formed(),
            final(self).replies() == old(self).replies().remove(leg.key_text(dialog_id@)),
            r == (if old(self).replies().dom().contains(leg.key_text(dialog_id@)) {
                Some(old(self).replies()[leg.key_text(dialog_id@)])
            } else {
                None
            }),
            final(self).inner == old(self).inner,
            final(self).entry == old(self).entry,
            final(self).log() == old(self).log(),
            final(self).surface == old(self).surface,
    {
        let key = leg.pending_key(dialog_id);
        self.take_reply(key.as_str())
    }
}

/// A stored reply is what the next take of its leg and dialog gives, once; the
/// replies of other legs and dialogs are not touched.
pub proof fn stored_reply_is_taken_once(
    replies: Map<Seq<char>, u64>,
    leg: MidDialogLeg,
    id: Seq<char>,
    handle: u64,
    other_leg: MidDialogLeg,
    other_id: Seq<char>,
)
    ensures
        ({
            let stored = replies.insert(leg.key_text(id), handle);
            let taken = stored.remove(leg.key_text(id));
            let k = other_leg.key_text(other_id);
            &&& stored.dom().contains(leg.key_text(id))
            &&& stored[leg.key_text(id)] == handle
            &&& !taken.dom().contains(leg.key_text(id))
            &&& (other_leg != leg || other_id != id) ==> (taken.dom().contains(k)
                <==> replies.dom().contains(k)) && (replies.dom().contains(k) ==> taken[k]
                == replies[k])
        }),
{
    pending_keys_are_distinct(leg, id, other_leg, other_id);
}

/// A call that is over enters no phase by a guarded transition.
pub proof fn ended_call_stays_ended(s: CallSessionSnapshot, phase: ProxyCallPhase)
    requires
        s.phase is Ended,
    ensures
        !s.phase.successors().contains(phase),
        !s.can_ring(),
{
}

/// No phase follows itself, and the only phase that nothing follows is the last.
pub proof fn phases_progress(phase: ProxyCallPhase)
    ensures
        !phase.successors().contains(phase),
        phase.successors() == Set::<ProxyCallPhase>::empty() <==> phase is Ended,
        phase !is Ended ==> phase.successors().contains(ProxyCallPhase::Terminating)
            || phase.successors().contains(ProxyCallPhase::Ended),
{
    assert(phase !is Ended ==> phase.successors().contains(ProxyCallPhase::Failed)
        || phase.successors().contains(ProxyCallPhase::Ended));
}

/// The times of the first alert and of the first answer never change once set.
pub proof fn times_are_set_once(s: CallSessionSnapshot, early: bool, t1: u64, t2: u64)
    ensures
        s.ringing(early, t1).ring_time is Some,
        s.ringing(early, t1).ringing(!early, t2).ring_time == s.ringing(early, t1).ring_time,
        s.answered(t1).answer_time is Some,
        s.answered(t1).answered(t2) == s.answered(t1),
        s.ring_time is Some ==> s.ringing(early, t1).ring_time == s.ring_time,
        s.answer_time is Some ==> s.answered(t1).answer_time == s.answer_time,
{
}

/// A failure keeps its code and reason, and does not tear an answered call down.
pub proof fn failure_keeps_bridged_call(s: CallSessionSnapshot, code: u16, reason: Option<String>, now: u64)
    ensures
        s.answered(now).failed(code, reason).phase is Bridged,
        s.failed(code, reason).last_error_code == Some(code),
        s.failed(code, reason).last_error_reason == reason,
        s.phase !is Bridged ==> s.failed(code, reason).phase is Failed,
{
}

pub(crate) proof fn logged_nothing(log: Option<Seq<ProxyCallEvent>>)
    ensures
        logged(log, Seq::empty()) == log,
{
    if let Some(l) = log {
        assert(l + Seq::<ProxyCallEvent>::empty() =~= l);
    }
}

pub(crate) proof fn logged_twice(log: Option<Seq<ProxyCallEvent>>, a: Seq<ProxyCallEvent>, b: Seq<ProxyCallEvent>)
    ensures
        logged(logged(log, a), b) == logged(log, a + b),
{
    if let Some(l) = log {
        assert(l + a + b =~= l + (a + b));
    }
}

impl CallSessionShared {
    /// Attaches an application to the call, or detaches it.
    pub fn set_app_event_sender(&mut self, attached: bool)
        ensures
            final(self).surface == (ControlSurface {
                app_events: final(self).surface.app_events,
                ..old(self).surface
            }),
            attached ==> final(self).surface.app_events is Some
                && final(self).surface.app_events->0@ == Seq::<ControllerEvent>::empty(),
            !attached ==> final(self).surface.app_events is None,
            *final(self) == (CallSessionShared { surface: final(self).surface, ..*old(self) }),
    {
        self.surface.app_events = if attached {
            Some(Vec::new())
        } else {
            None
        };
    }

    /// Sends an event to the application on the call. Returns whether one runs.
    pub fn send_app_event(&mut self, event: ControllerEvent) -> (r: bool)
        ensures
            r == (old(self).surface.app_events is Some),
            !r ==> *final(self) == *old(self),
            r ==> final(self).surface.app_events is Some && final(self).surface.app_events->0@
                == old(self).surface.app_events->0@.push(event),
            *final(self) == (CallSessionShared {
                surface: ControlSurface {
                    app_events: final(self).surface.app_events,
                    ..old(self).surface
                },
                ..*old(self)
            }),
    {
        match self.surface.app_events.take() {
            Some(v) => {
                let mut v = v;
                v.push(event);
                self.surface.app_events = Some(v);
                true
            },
            None => false,
        }
    }

    /// Keeps what cancels the listener for DTMF digits, or forgets it.
    pub fn set_dtmf_listener_cancel(&mut self, cancel: Option<u64>)
        ensures
            *final(self) == (CallSessionShared {
                surface: ControlSurface { dtmf_listener_cancel: cancel, ..old(self).surface },
                ..*old(self)
            }),
    {
        self.surface.dtmf_listener_cancel = cancel;
    }

    /// Takes what cancels the listener for DTMF digits: it is cancelled once.
    pub fn cancel_dtmf_listener(&mut self) -> (r: Option<u64>)
        ensures
            r == old(self).surface.dtmf_listener_cancel,
            *final(self) == (CallSessionShared {
                surface: ControlSurface { dtmf_listener_cancel: None, ..old(self).surface },
                ..*old(self)
            }),
    {
        self.surface.dtmf_listener_cancel.take()
    }

    /// The media of the exported leg, as it was published last.
    pub fn shared_exported_leg_media(&self) -> (r: &SharedExportedLegMedia)
        ensures
            *r == self.surface.media,
    {
        &self.surface.media
    }

    /// Publishes the media of the exported leg.
    pub fn publish_exported_leg_media(
        &mut self,
        offer_sdp: Option<String>,
        answer_sdp: Option<String>,
        negotiated_audio: Option<(CodecType, RtpCodecParameters, Vec<CodecInfo>)>,
        ssrc: Option<u32>,
        is_bridged: bool,
    )
        ensures
            *final(self) == (CallSessionShared {
                surface: ControlSurface {
                    media: SharedExportedLegMedia {
                        published: true,
                        offer_sdp,
                        answer_sdp,
                        negotiated_audio,
                        ssrc,
                        is_bridged,
                    },
                    ..old(self).surface
                },
                ..*old(self)
            }),
    {
        self.surface.media = SharedExportedLegMedia {
            published: true,
            offer_sdp,
            answer_sdp,
            negotiated_audio,
            ssrc,
            is_bridged,
        };
    }
}

/// Which phases follow which: a call goes on from its beginning to its end, comes back
/// from an application to its routing, and can fail and be torn down while it lasts.
pub proof fn phases_follow_each_other(p: ProxyCallPhase)
    ensures
        !p.successors().contains(ProxyCallPhase::Initializing),
        p.successors().contains(ProxyCallPhase::Routing) <==> p is Initializing || p is App,
        p.successors().contains(ProxyCallPhase::App) <==> p is Initializing || p is Routing,
        p.successors().contains(ProxyCallPhase::Dialing) <==> p is Initializing || p is Routing
            || p is App,
        p.successors().contains(ProxyCallPhase::Ringing) <==> p is Initializing || p is Routing
            || p is Dialing,
        p.successors().contains(ProxyCallPhase::EarlyMedia) <==> p is Initializing || p is Dialing
            || p is Ringing,
        p.successors().contains(ProxyCallPhase::Bridged) <==> p is Initializing || p is Dialing
            || p is Ringing || p is EarlyMedia,
        p.successors().contains(ProxyCallPhase::Terminating) <==> !(p is Terminating || p is Ended),
        p.successors().contains(ProxyCallPhase::Failed) <==> !(p is Failed || p is Ended),
        p.successors().contains(ProxyCallPhase::Ended) <==> !(p is Routing || p is Dialing
            || p is Ended),
{
}

/// Observers hear of a change of phase first and of a hangup last, in between of the
/// queue that is left and then of the one that is entered; and of nothing that stays.
pub proof fn observers_hear_of_what_changes(before: CallSessionSnapshot, after: CallSessionSnapshot)
    ensures
        ({
            let e = change_events(before, after);
            let id = after.session_id;
            let queue = opt_text(before.queue_name) != opt_text(after.queue_name);
            &&& before.phase == after.phase && !queue && before.hangup_reason == after.hangup_reason
                <==> e.len() == 0
            &&& before.phase != after.phase ==> e[0] == (ProxyCallEvent::PhaseChanged {
                session_id: id,
                phase: after.phase,
            })
            &&& before.hangup_reason != after.hangup_reason ==> e.last() == (ProxyCallEvent::Hangup {
                session_id: id,
                reason: after.hangup_reason,
            })
            &&& queue && before.phase == after.phase && before.hangup_reason == after.hangup_reason
                ==> {
                &&& before.queue_name matches Some(b) ==> e[0] == (ProxyCallEvent::QueueLeft {
                    session_id: id,
                    name: Some(b),
                })
                &&& after.queue_name matches Some(a) ==> e.last() == (ProxyCallEvent::QueueEntered {
                    session_id: id,
                    name: a,
                })
                &&& e.len() == (if before.queue_name is Some && after.queue_name is Some {
                    2int
                } else {
                    1
                })
            }
        }),
{
}

/// The registry shows a call as talking exactly while it is bridged, between the
/// parties that it has then; a call that is not in the registry does not get into it.
pub proof fn registry_shows_the_call(entry: Option<ActiveProxyCallEntry>, s: CallSessionSnapshot)
    ensures
        entry is None <==> refreshed_entry(entry, s) is None,
        (refreshed_entry(entry, s) matches Some(e) ==> {
            &&& e.status is Talking <==> s.phase is Bridged
            &&& e.caller == s.caller && e.callee == s.callee
            &&& e.answered_at == s.answer_time
            &&& e.session_id == entry->0.session_id && e.started_at == entry->0.started_at
                && e.direction == entry->0.direction
        }),
{
}

/// Each step of a call sets its own phase, time and reason, and nothing else.
pub proof fn steps_set_their_own_fields(
    s: CallSessionSnapshot,
    code: u16,
    text: Option<String>,
    reason: CallRecordHangupReason,
    now: u64,
)
    ensures
        s.ringing(true, now).phase is EarlyMedia && s.ringing(false, now).phase is Ringing,
        s.ring_time is None ==> s.ringing(true, now).ring_time == Some(now) && s.ringing(
            false,
            now,
        ).ring_time == Some(now),
        s.answered(now).phase is Bridged,
        s.answer_time is None ==> s.answered(now).answer_time == Some(now),
        s.hung_up(reason).phase is Ended && s.hung_up(reason).hangup_reason == Some(reason),
        s.ringing(true, now).answer_time == s.answer_time && s.answered(now).ring_time == s.ring_time,
        s.failed(code, text).hangup_reason == s.hangup_reason && s.hung_up(reason).last_error_code
            == s.last_error_code,
        s.answered(now).caller == s.caller && s.answered(now).callee == s.callee && s.answered(
            now,
        ).queue_name == s.queue_name && s.answered(now).answer_sdp == s.answer_sdp,
        s.failed(code, text).answer_time == s.answer_time && s.hung_up(reason).answer_time
            == s.answer_time,
{
}

/// Routing changes a party only to another one that it names.
pub proof fn routing_names_the_party(current: Option<String>, routed: Option<String>)
    ensures
        routed is None ==> CallSessionSnapshot::routed_party(current, routed) == current,
        routed is Some ==> opt_text(CallSessionSnapshot::routed_party(current, routed)) == opt_text(
            routed,
        ),
{
}

/// A callee can be alerted until the call is answered or over, but not while an
/// application has the call.
pub proof fn callee_is_alerted_before_the_answer(s: CallSessionSnapshot)
    ensures
        s.can_ring() <==> !(s.phase is App || s.phase is Bridged || s.phase is Terminating
            || s.phase is Failed || s.phase is Ended),
{
}

/// A call that has just begun has its parties and its direction; nothing has happened in
/// it, and nothing waits to be answered.
pub proof fn new_call_has_its_parties(
    s: CallSessionShared,
    session_id: String,
    direction: DialDirection,
    caller: Option<String>,
    callee: Option<String>,
    started_at: u64,
)
    requires
        s.has_begun(session_id, direction, caller, callee, started_at),
    ensures
        s.inner.session_id == session_id && s.inner.direction == direction && s.inner.caller == caller
            && s.inner.callee == callee && s.inner.started_at == started_at,
        s.inner.phase is Initializing,
        s.inner.ring_time is None && s.inner.answer_time is None && s.inner.hangup_reason is None
            && s.inner.last_error_code is None && s.inner.queue_name is None && s.inner.answer_sdp is None,
        s.pending@.len() == 0 && s.log() is None,
{
}

} // verus!
