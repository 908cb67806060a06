//! The events of a running call: what its dialogs report, how its session timers
//! are kept, and when it ends. Moments are in milliseconds.
use vstd::prelude::*;
use crate::leg_event::{LegEvent, TerminationReason};
use crate::model::CallRecordHangupReason;
use crate::session::{PendingHangup, hangup_outcome};
use crate::session_timer::{
    SessionRefresher, SessionTimerState, names_timer, session_expires,
    session_interval_is_read_back, timer_is_named_anywhere_in_the_list,
};
use crate::sip::{Header, HeaderView, Method, header_views, is_success, is_successful};
use crate::sip_leg::{DialogId, DialogIdView, SipLeg, timer_refreshed};
use crate::state::{CallSessionShared, MidDialogLeg, SessionAction};
use crate::text::{
    decimal, decimal_of, eq_ignoring_case, join2, join3, lower, opt_text, own, same_ignoring_case,
};

verus! {

/// Whether a header says that a body is a trickled fragment. The `Content-Type`
/// header is read with its name before it.
pub open spec fn names_trickle_fragment(h: HeaderView) -> bool {
    match h {
        HeaderView::ContentType(v) => same_ignoring_case(
            "Content-Type: "@ + v,
            "application/trickle-ice-sdpfrag"@,
        ),
        HeaderView::Other(n, v) => same_ignoring_case(n, "Content-Type"@) && same_ignoring_case(
            v,
            "application/trickle-ice-sdpfrag"@,
        ),
        _ => false,
    }
}

fn is_trickle_fragment(h: &Header) -> (r: bool)
    ensures
        r == names_trickle_fragment(h@),
{
    match h {
        Header::ContentType(v) => {
            let line = join2("Content-Type: ", v.as_str());
            eq_ignoring_case(line.as_str(), "application/trickle-ice-sdpfrag")
        },
        Header::Other(n, v) => eq_ignoring_case(n.as_str(), "Content-Type") && eq_ignoring_case(
            v.as_str(),
            "application/trickle-ice-sdpfrag",
        ),
        _ => false,
    }
}

/// Whether an INFO brings a trickled fragment.
pub open spec fn is_trickle_info(headers: Seq<Header>) -> bool {
    exists|i: int| 0 <= i < headers.len() && names_trickle_fragment((#[trigger] headers[i])@)
}

/// Whether an INFO brings a trickled fragment.
pub fn is_trickle_ice_info(headers: &Vec<Header>) -> (r: bool)
    ensures
        r == is_trickle_info(headers@),
{
    let mut i: usize = 0;
    while i < headers.len()
        invariant
            i <= headers.len(),
            forall|k: int| 0 <= k < i ==> !names_trickle_fragment((#[trigger] headers@[k])@),
        decreases headers.len() - i,
    {
        if is_trickle_fragment(&headers[i]) {
            return true;
        }
        i += 1;
    }
    false
}

/// What a dialog of a leg reports.
#[derive(Debug)]
pub enum DialogEvent {
    Terminated { dialog_id: DialogId },
    Info { headers: Vec<Header>, body: String },
    Updated {
        dialog_id: DialogId,
        method: Method,
        headers: Vec<Header>,
        body: String,
        handle: u64,
    },
    Notify,
    Options,
    /// A state of the dialog that nothing follows from.
    Other,
    /// No more reports can come.
    Closed,
}

/// What follows from a report of a dialog.
#[derive(Debug)]
pub struct DialogStep {
    pub event: Option<LegEvent>,
    /// Whether the request is answered with 200 at once.
    pub reply_ok: bool,
    /// Whether the dialog is listened to no longer.
    pub stop: bool,
}

/// The description of a request, where it has a body.
pub open spec fn body_text(body: String) -> Option<String> {
    if body@.len() > 0 {
        Some(body)
    } else {
        None
    }
}

fn body_of(body: String) -> (r: Option<String>)
    ensures
        r == body_text(body),
{
    if body.as_str().is_empty() {
        None
    } else {
        Some(body)
    }
}

/// Whether a request renegotiates the session.
pub open spec fn is_renegotiation(method: Method) -> bool {
    method is Invite || method is Update
}

/// Whether `event` tells of a request that renegotiates the session.
pub open spec fn is_reinvite(
    event: Option<LegEvent>,
    leg: MidDialogLeg,
    method: Method,
    body: String,
    dialog_id: DialogIdView,
) -> bool {
    &&& event matches Some(LegEvent::ReInvite { leg: l, method: m, sdp: s, dialog_id: d })
    &&& l == leg
    &&& m == method
    &&& s == body_text(body)
    &&& d@ == dialog_id.text()
}

/// What an event of the caller's dialog leads to.
pub open spec fn exported_handles(
    shared: CallSessionShared,
    shared_after: CallSessionShared,
    timer: SessionTimerState,
    timer_after: SessionTimerState,
    event: DialogEvent,
    now: u64,
    r: DialogStep,
) -> bool {
    &&& shared_after.well_formed()
    &&& shared_after.inner == shared.inner
    &&& shared_after.entry == shared.entry
    &&& shared_after.log() == shared.log()
    &&& shared_after.surface == shared.surface
    &&& (match event {
        DialogEvent::Terminated { .. } => r.stop && !r.reply_ok && r.event == Some(
            LegEvent::Terminated { reason: TerminationReason::ByCaller },
        ),
        DialogEvent::Info { headers, body } => !r.stop && r.reply_ok && r.event == (
        if is_trickle_info(headers@) && body@.len() > 0 {
            Some(LegEvent::TrickleIce { payload: body })
        } else {
            None
        }),
        DialogEvent::Updated { dialog_id, method, headers, body, handle } => {
            &&& !r.stop
            &&& if is_renegotiation(method) {
                &&& !r.reply_ok
                &&& is_reinvite(r.event, MidDialogLeg::Caller, method, body, dialog_id@)
            } else {
                &&& r.reply_ok
                &&& r.event is None
            }
        },
        DialogEvent::Notify | DialogEvent::Options => !r.stop && r.reply_ok && r.event is None,
        DialogEvent::Other => !r.stop && !r.reply_ok && r.event is None,
        DialogEvent::Closed => r.stop && !r.reply_ok && r.event is None,
    })
    &&& (match event {
        DialogEvent::Updated { dialog_id, method, headers, body, handle } => if is_renegotiation(
            method,
        ) {
            &&& shared_after.replies() == shared.replies().insert(
                MidDialogLeg::Caller.key_text(dialog_id@.text()),
                handle,
            )
            &&& timer_after == timer
        } else {
            &&& shared_after == shared
            &&& timer_after == timer_refreshed(
                timer,
                header_views(headers@),
                now,
            )
        },
        _ => shared_after == shared && timer_after == timer,
    })
}

/// Handles a report of the caller's dialog.
pub fn on_exported_event(
    shared: &mut CallSessionShared,
    server_timer: &mut SessionTimerState,
    event: DialogEvent,
    now: u64,
) -> (r: DialogStep)
    requires
        old(shared).well_formed(),
    ensures
        exported_handles(
            *old(shared),
            *final(shared),
            *old(server_timer),
            *final(server_timer),
            event,
            now,
            r,
        ),
{
    match event {
        DialogEvent::Terminated { .. } => DialogStep {
            event: Some(LegEvent::Terminated { reason: TerminationReason::ByCaller }),
            reply_ok: false,
            stop: true,
        },
        DialogEvent::Info { headers, body } => {
            let event = if is_trickle_ice_info(&headers) && !body.as_str().is_empty() {
                Some(LegEvent::TrickleIce { payload: body })
            } else {
                None
            };
            DialogStep { event, reply_ok: true, stop: false }
        },
        DialogEvent::Updated { dialog_id, method, headers, body, handle } => {
            if method == Method::Invite || method == Method::Update {
                let id = dialog_id.to_text();
                shared.store_mid_dialog_reply(MidDialogLeg::Caller, id.as_str(), handle);
                DialogStep {
                    event: Some(
                        LegEvent::ReInvite {
                            leg: MidDialogLeg::Caller,
                            method,
                            sdp: body_of(body),
                            dialog_id: id,
                        },
                    ),
                    reply_ok: false,
                    stop: false,
                }
            } else {
                SipLeg::refresh_timer_state(server_timer, &headers, now);
                DialogStep { event: None, reply_ok: true, stop: false }
            }
        },
        DialogEvent::Notify | DialogEvent::Options => DialogStep {
            event: None,
            reply_ok: true,
            stop: false,
        },
        DialogEvent::Other => DialogStep { event: None, reply_ok: false, stop: false },
        DialogEvent::Closed => DialogStep { event: None, reply_ok: false, stop: true },
    }
}

/// The timer after a request of the callee: a running timer is refreshed.
pub open spec fn touched(t: SessionTimerState, now: u64) -> SessionTimerState {
    if t.active {
        SessionTimerState { last_refresh: now, ..t }
    } else {
        t
    }
}

/// What an event of a dialog to the target leads to.
pub open spec fn target_handles(
    shared: CallSessionShared,
    shared_after: CallSessionShared,
    sip: SipLeg,
    sip_after: SipLeg,
    event: DialogEvent,
    now: u64,
    r: DialogStep,
) -> bool {
    &&& shared_after.well_formed()
    &&& sip_after.well_formed()
    &&& shared_after.inner == shared.inner
    &&& shared_after.entry == shared.entry
    &&& shared_after.log() == shared.log()
    &&& shared_after.surface == shared.surface
    &&& !r.reply_ok
    &&& (match event {
        DialogEvent::Terminated { dialog_id } => {
            let open = sip.active().contains(dialog_id@);
            &&& r.stop == open
            &&& r.event == (if open {
                Some(LegEvent::Terminated { reason: TerminationReason::ByCallee })
            } else {
                None
            })
            &&& !sip_after.active().contains(dialog_id@)
            &&& open ==> sip_after.active() == sip.active().remove(
                sip.active().index_of(dialog_id@),
            )
            &&& !open ==> sip_after == sip
            &&& sip_after == (SipLeg {
                active_dialog_ids: sip_after.active_dialog_ids,
                ..sip
            })
            &&& shared_after == shared
        },
        DialogEvent::Updated { dialog_id, method, headers, body, handle } => {
            &&& !r.stop
            &&& sip_after == (SipLeg {
                session_timer: touched(sip.session_timer, now),
                ..sip
            })
            &&& if is_renegotiation(method) {
                &&& is_reinvite(r.event, MidDialogLeg::Callee, method, body, dialog_id@)
                &&& shared_after.replies() == shared.replies().insert(
                    MidDialogLeg::Callee.key_text(dialog_id@.text()),
                    handle,
                )
            } else {
                r.event is None && shared_after == shared
            }
        },
        DialogEvent::Closed => r.stop && r.event is None && shared_after == shared
            && sip_after == sip,
        _ => !r.stop && r.event is None && shared_after == shared && sip_after == sip,
    })
}

/// Handles a report of a dialog to the target. The end of a dialog counts only if
/// the dialog was open.
pub fn on_target_event(
    shared: &mut CallSessionShared,
    sip: &mut SipLeg,
    event: DialogEvent,
    now: u64,
) -> (r: DialogStep)
    requires
        old(shared).well_formed(),
        old(sip).well_formed(),
    ensures
        target_handles(
            *old(shared),
            *final(shared),
            *old(sip),
            *final(sip),
            event,
            now,
            r,
        ),
{
    match event {
        DialogEvent::Terminated { dialog_id } => {
            if sip.remove_dialog(&dialog_id) {
                DialogStep {
                    event: Some(LegEvent::Terminated { reason: TerminationReason::ByCallee }),
                    reply_ok: false,
                    stop: true,
                }
            } else {
                DialogStep { event: None, reply_ok: false, stop: false }
            }
        },
        DialogEvent::Updated { dialog_id, method, headers: _, body, handle } => {
            if sip.session_timer.active {
                sip.session_timer.update_refresh(now);
            }
            if method == Method::Invite || method == Method::Update {
                let id = dialog_id.to_text();
                shared.store_mid_dialog_reply(MidDialogLeg::Callee, id.as_str(), handle);
                DialogStep {
                    event: Some(
                        LegEvent::ReInvite {
                            leg: MidDialogLeg::Callee,
                            method,
                            sdp: body_of(body),
                            dialog_id: id,
                        },
                    ),
                    reply_ok: false,
                    stop: false,
                }
            } else {
                DialogStep { event: None, reply_ok: false, stop: false }
            }
        },
        DialogEvent::Closed => DialogStep { event: None, reply_ok: false, stop: true },
        _ => DialogStep { event: None, reply_ok: false, stop: false },
    }
}

/// How long the session waits for the other leg once one has ended.
pub const TERMINATION_WAIT_MS: u64 = 5000;

/// The state of the loop that runs a call: once a leg has ended, the moment until
/// which the other one is waited for.
#[derive(Clone, Copy, Debug)]
pub struct SessionLoop {
    pub terminating_until: Option<u64>,
}

/// What follows from an event of a leg.
#[derive(Debug)]
pub enum LoopStep {
    Continue,
    Command(SessionAction),
    /// The session is cancelled and its loop ends.
    Cancel,
    /// The loop ends.
    Stop,
}

/// The hangup that the end of a leg asks for.
pub open spec fn is_leg_hangup(p: Option<PendingHangup>, reason: TerminationReason) -> bool {
    &&& p matches Some(h)
    &&& h.code == Some(200u16)
    &&& match reason {
        TerminationReason::ByCaller => h.reason == Some(CallRecordHangupReason::ByCaller)
            && opt_text(h.initiator) == Some("caller"@),
        TerminationReason::ByCallee => h.reason == Some(CallRecordHangupReason::ByCallee)
            && opt_text(h.initiator) == Some("callee"@),
    }
}

impl SessionLoop {
    /// The loop of a call that runs.
    pub fn new() -> (r: SessionLoop)
        ensures
            r.terminating_until is None,
    {
        SessionLoop { terminating_until: None }
    }

    /// What an event of a leg leads to: the first leg that ends gives the reason of the end
    /// and a time to wait for the other; after it nothing else is begun.
    pub open spec fn takes(
        self,
        after: SessionLoop,
        pending: Option<PendingHangup>,
        pending_after: Option<PendingHangup>,
        event: Option<LegEvent>,
        now: u64,
        r: LoopStep,
    ) -> bool {
        &&& (match event {
            Some(LegEvent::Terminated { reason }) => if self.terminating_until is None {
                &&& r is Continue
                &&& after.terminating_until == Some((now + TERMINATION_WAIT_MS) as u64)
                &&& is_leg_hangup(pending_after, reason)
            } else {
                &&& r is Cancel
                &&& after == self
                &&& pending_after == pending
            },
            Some(LegEvent::ReInvite { leg, method, sdp, dialog_id }) => {
                &&& after == self
                &&& pending_after == pending
                &&& if self.terminating_until is None {
                    &&& r matches LoopStep::Command(action)
                    &&& action is HandleReInvite
                    &&& action == (SessionAction::HandleReInvite {
                        leg,
                        method: action->method,
                        sdp,
                        dialog_id,
                    })
                    &&& action->method@ == method.name_text()
                } else {
                    r is Continue
                }
            },
            Some(LegEvent::TrickleIce { payload }) => {
                &&& after == self
                &&& pending_after == pending
                &&& if self.terminating_until is None {
                    r == LoopStep::Command(SessionAction::HandleTrickleIce(payload))
                } else {
                    r is Continue
                }
            },
            None => r is Stop && after == self && pending_after == pending,
        })
    }

    /// Handles an event of a leg; `None` where no more can come. The first leg that
    /// ends gives the hangup of the call, and the other leg is waited for; the
    /// second cancels the session. A call that is ending takes no more requests.
    pub fn on_leg_event(
        &mut self,
        pending_hangup: &mut Option<PendingHangup>,
        event: Option<LegEvent>,
        now: u64,
    ) -> (r: LoopStep)
        requires
            now + TERMINATION_WAIT_MS <= u64::MAX,
        ensures
            old(self).takes(
                *final(self),
                *old(pending_hangup),
                *final(pending_hangup),
                event,
                now,
                r,
            ),
    {
        match event {
            Some(LegEvent::Terminated { reason }) => {
                if self.terminating_until.is_some() {
                    return LoopStep::Cancel;
                }
                let (hangup_reason, initiator) = match reason {
                    TerminationReason::ByCaller => (
                        CallRecordHangupReason::ByCaller,
                        own("caller"),
                    ),
                    TerminationReason::ByCallee => (
                        CallRecordHangupReason::ByCallee,
                        own("callee"),
                    ),
                };
                *pending_hangup = Some(
                    PendingHangup {
                        reason: Some(hangup_reason),
                        code: Some(200),
                        initiator: Some(initiator),
                    },
                );
                self.terminating_until = Some(now + TERMINATION_WAIT_MS);
                LoopStep::Continue
            },
            Some(LegEvent::ReInvite { leg, method, sdp, dialog_id }) => {
                if self.terminating_until.is_some() {
                    return LoopStep::Continue;
                }
                LoopStep::Command(
                    SessionAction::HandleReInvite { leg, method: method.name(), sdp, dialog_id },
                )
            },
            Some(LegEvent::TrickleIce { payload }) => {
                if self.terminating_until.is_some() {
                    return LoopStep::Continue;
                }
                LoopStep::Command(SessionAction::HandleTrickleIce(payload))
            },
            None => LoopStep::Stop,
        }
    }

    /// Whether the wait for the other leg is over, so that the session is cancelled.
    pub fn is_overdue(&self, now: u64) -> (r: bool)
        ensures
            r == (self.terminating_until matches Some(t) && now >= t),
    {
        match self.terminating_until {
            Some(t) => now >= t,
            None => false,
        }
    }
}

/// What the session timers ask for.
#[derive(Debug)]
pub enum TickPlan {
    Nothing,
    /// A session has expired: the call is cancelled.
    Expired,
    /// The headers of the refresh of each dialog that is due.
    Refresh { server: Option<Vec<Header>>, client: Option<Vec<Header>> },
}

/// The headers of a session refresh.
pub open spec fn refresh_headers(interval: u64, refresher: SessionRefresher) -> Seq<HeaderView> {
    seq![
        HeaderView::Supported("timer"@),
        HeaderView::Other(
            "Session-Expires"@,
            decimal(interval as nat) + ";refresher="@ + refresher.name_text(),
        ),
    ]
}

fn build_refresh(interval: u64, refresher: SessionRefresher) -> (r: Vec<Header>)
    ensures
        header_views(r@) == refresh_headers(interval, refresher),
{
    let mut headers: Vec<Header> = Vec::new();
    headers.push(Header::Supported(own("timer")));
    let secs = decimal_of(interval);
    let name = refresher.name();
    headers.push(
        Header::Other(own("Session-Expires"), join3(secs.as_str(), ";refresher=", name.as_str())),
    );
    assert(header_views(headers@) =~= refresh_headers(interval, refresher));
    headers
}

/// The headers of an optional refresh.
pub open spec fn refresh_view(h: Option<Vec<Header>>) -> Option<Seq<HeaderView>> {
    match h {
        Some(v) => Some(header_views(v@)),
        None => None,
    }
}

/// Whether the proxy has to refresh a dialog: it is the refresher there, and a
/// refresh is due.
pub open spec fn refresh_due(t: SessionTimerState, own_side: SessionRefresher, now: u64) -> bool {
    t.refresher == own_side && t.due_at(now)
}

/// What a tick leads to for the timers of the server's and of the client's dialog: an
/// expired session ends, and a dialog that is due is refreshed.
pub open spec fn ticks(
    timers: bool,
    before: (SessionTimerState, SessionTimerState),
    after: (SessionTimerState, SessionTimerState),
    has_server_dialog: bool,
    now: u64,
    r: TickPlan,
) -> bool {
    let expired = before.0.expired_at(now) || before.1.expired_at(now);
    let server_due = has_server_dialog && refresh_due(
        before.0,
        SessionRefresher::Uas,
        now,
    );
    let client_due = refresh_due(before.1, SessionRefresher::Uac, now);
    &&& !timers ==> r is Nothing
    &&& timers && expired ==> r is Expired
    &&& !timers || expired ==> after.0 == before.0 && after.1 == before.1
    &&& timers && !expired ==> {
        &&& r matches TickPlan::Refresh { server, client }
        &&& refresh_view(server) == (if server_due {
            Some(
                refresh_headers(
                    before.0.session_interval,
                    SessionRefresher::Uas,
                ),
            )
        } else {
            None
        })
        &&& refresh_view(client) == (if client_due {
            Some(
                refresh_headers(
                    before.1.session_interval,
                    SessionRefresher::Uac,
                ),
            )
        } else {
            None
        })
        &&& after.0 == (SessionTimerState {
            refreshing: before.0.refreshing || server_due,
            ..before.0
        })
        &&& after.1 == (SessionTimerState {
            refreshing: before.1.refreshing || client_due,
            ..before.1
        })
    }
}

/// Looks after the session timers of both legs. A session that has expired cancels
/// the call; else the dialogs whose refresh is due are refreshed.
pub fn on_tick(
    timers: bool,
    server_timer: &mut SessionTimerState,
    client_timer: &mut SessionTimerState,
    has_server_dialog: bool,
    now: u64,
) -> (r: TickPlan)
    ensures
        ticks(
            timers,
            (*old(server_timer), *old(client_timer)),
            (*final(server_timer), *final(client_timer)),
            has_server_dialog,
            now,
            r,
        ),
{
    if !timers {
        return TickPlan::Nothing;
    }
    if server_timer.is_expired(now) || client_timer.is_expired(now) {
        return TickPlan::Expired;
    }
    let server = if has_server_dialog && server_timer.refresher == SessionRefresher::Uas
        && server_timer.should_refresh(now) {
        server_timer.refreshing = true;
        Some(build_refresh(server_timer.session_interval, SessionRefresher::Uas))
    } else {
        None
    };
    let client = if client_timer.refresher == SessionRefresher::Uac && client_timer.should_refresh(
        now,
    ) {
        client_timer.refreshing = true;
        Some(build_refresh(client_timer.session_interval, SessionRefresher::Uac))
    } else {
        None
    };
    TickPlan::Refresh { server, client }
}

/// Notes the end of a refresh: one that was accepted starts the interval anew.
/// `code` is the code of the response, where one came.
pub fn finish_refresh(timer: &mut SessionTimerState, code: Option<u16>, now: u64)
    ensures
        *final(timer) == (SessionTimerState {
            refreshing: false,
            last_refresh: if code is Some && is_success(code->0) {
                now
            } else {
                old(timer).last_refresh
            },
            ..*old(timer)
        }),
{
    timer.refreshing = false;
    if let Some(c) = code {
        if is_successful(c) {
            timer.update_refresh(now);
        }
    }
}

/// While a refresh is under way no other is begun for that dialog.
pub proof fn refresh_is_not_repeated(t: SessionTimerState, own_side: SessionRefresher, now: u64)
    requires
        refresh_due(t, own_side, now),
    ensures
        forall|later: u64|
            !refresh_due((SessionTimerState { refreshing: true, ..t }), own_side, later),
{
}

/// The leg that ends first gives the reason of the call's end.
pub proof fn first_leg_gives_the_reason(p: Option<PendingHangup>, reason: TerminationReason)
    requires
        is_leg_hangup(p, reason),
    ensures
        hangup_outcome(p).2 == Some(
            match reason {
                TerminationReason::ByCaller => CallRecordHangupReason::ByCaller,
                TerminationReason::ByCallee => CallRecordHangupReason::ByCallee,
            },
        ),
        hangup_outcome(p).0 == 487,
{
}

/// A running timer is refreshed by a request of the callee; one that does not run is not
/// set going by it.
pub proof fn request_keeps_a_session_alive(t: SessionTimerState, now: u64)
    ensures
        t.active ==> touched(t, now).last_refresh == now && touched(t, now).session_interval
            == t.session_interval && touched(t, now).active && touched(t, now).refresher == t.refresher,
        !t.active ==> touched(t, now) == t,
{
}

/// The side that is to refresh does so when half of the interval is over, the other side
/// never does.
pub proof fn refresher_refreshes_in_time(t: SessionTimerState, own_side: SessionRefresher, now: u64)
    requires
        t.active,
        !t.refreshing,
        now >= t.last_refresh,
    ensures
        t.refresher != own_side ==> !refresh_due(t, own_side, now),
        t.refresher == own_side ==> (refresh_due(t, own_side, now) <==> now - t.last_refresh
            >= t.session_interval * 500),
{
}

/// A refresh asks for the interval and the refresher that are agreed on.
pub proof fn refresh_keeps_the_interval(interval: u64, refresher: SessionRefresher)
    ensures
        ({
            let h = refresh_headers(interval, refresher);
            &&& h.len() == 2
            &&& names_timer(h[0])
            &&& h[1] matches HeaderView::Other(n, v)
            &&& n == "Session-Expires"@
            &&& session_expires(v) == Some((interval as nat, Some(refresher)))
        }),
{
    session_interval_is_read_back(interval, refresher);
    timer_is_named_anywhere_in_the_list(Seq::empty(), Seq::empty());
}

/// Only an INVITE or an UPDATE renegotiates a session; what it offers is its body, and
/// it is told of on the leg and dialog that it came on.
pub proof fn renegotiation_is_told_of(
    event: Option<LegEvent>,
    leg: MidDialogLeg,
    method: Method,
    body: String,
    dialog_id: DialogIdView,
)
    requires
        is_reinvite(event, leg, method, body, dialog_id),
    ensures
        event matches Some(LegEvent::ReInvite { leg: l, method: m, sdp, dialog_id: d }) && l == leg && m
            == method && d@ == dialog_id.text() && (body@.len() > 0 ==> sdp == Some(body)) && (
        body@.len() == 0 ==> sdp is None),
        is_renegotiation(method) <==> method is Invite || method is Update,
{
}

/// The end of a leg is noted as the hangup of its own party.
pub proof fn leg_ends_by_its_party(p: Option<PendingHangup>, reason: TerminationReason)
    requires
        is_leg_hangup(p, reason),
    ensures
        p matches Some(h) && {
            &&& h.reason == Some(CallRecordHangupReason::ByCaller) <==> reason is ByCaller
            &&& h.reason == Some(CallRecordHangupReason::ByCallee) <==> reason is ByCallee
            &&& h.code == Some(200u16)
        },
{
}

/// A fragment of candidates is told by its type of content, in any case, where the
/// header is not one of those that are read with their name.
pub proof fn fragment_is_told_by_its_type(n: Seq<char>, v: Seq<char>)
    ensures
        lower(n) == lower("Content-Type"@) && lower(v) == lower("application/trickle-ice-sdpfrag"@)
            <==> names_trickle_fragment(HeaderView::Other(n, v)),
        !names_trickle_fragment(HeaderView::Supported(v)) && !names_trickle_fragment(
            HeaderView::UserAgent(v),
        ),
{
}

/// A tick ends a session that has expired on either side, whatever is due; else it
/// refreshes the dialogs for which the proxy is the refresher and half of the interval is
/// over, and marks them so that they are not refreshed again meanwhile.
pub proof fn tick_looks_after_both_dialogs(
    timers: bool,
    before: (SessionTimerState, SessionTimerState),
    after: (SessionTimerState, SessionTimerState),
    has_server_dialog: bool,
    now: u64,
    r: TickPlan,
)
    requires
        ticks(timers, before, after, has_server_dialog, now, r),
        now >= (before.0).last_refresh && now >= (before.1).last_refresh,
    ensures
        !timers ==> r is Nothing && after == before,
        r is Expired <==> timers && ((before.0).active && now - (before.0).last_refresh
            >= (before.0).session_interval * 1000 || (before.1).active && now - (before.1).last_refresh
            >= (before.1).session_interval * 1000),
        (r matches TickPlan::Refresh { server, client } ==> {
            &&& server is Some <==> has_server_dialog && (before.0).active && !(before.0).refreshing
                && (before.0).refresher is Uas && now - (before.0).last_refresh >= (before.0).session_interval
                * 500
            &&& client is Some <==> (before.1).active && !(before.1).refreshing && (before.1).refresher is Uac
                && now - (before.1).last_refresh >= (before.1).session_interval * 500
            &&& server is Some ==> (after.0).refreshing
            &&& client is Some ==> (after.1).refreshing
        }),
        (after.0).last_refresh == (before.0).last_refresh && (after.1).last_refresh == (before.1).last_refresh,
        (after.0).session_interval == (before.0).session_interval && (after.1).session_interval
            == (before.1).session_interval,
{
}

/// The first leg that ends is waited after: from then on no command is begun, and the end
/// of the second leg ends the call. Until then the requests of a leg become commands.
pub proof fn first_end_is_waited_after(
    before: SessionLoop,
    after: SessionLoop,
    pending: Option<PendingHangup>,
    pending_after: Option<PendingHangup>,
    event: Option<LegEvent>,
    now: u64,
    r: LoopStep,
)
    requires
        before.takes(after, pending, pending_after, event, now, r),
    ensures
        before.terminating_until is Some ==> !(r is Command) && after == before && pending_after
            == pending,
        r is Cancel <==> (event matches Some(e) && e is Terminated) && before.terminating_until is Some,
        r is Stop <==> event is None,
        before.terminating_until is None ==> (event matches Some(LegEvent::Terminated { reason }) ==> {
            &&& after.terminating_until == Some((now + TERMINATION_WAIT_MS) as u64)
            &&& pending_after matches Some(p) && (p.reason == Some(CallRecordHangupReason::ByCaller)
                <==> reason is ByCaller)
        }),
        before.terminating_until is None ==> (r is Command <==> (event matches Some(e) && (e is ReInvite
            || e is TrickleIce))),
        before.terminating_until is None ==> (event matches Some(
            LegEvent::ReInvite { leg, method, sdp, dialog_id },
        ) ==> (r matches LoopStep::Command(SessionAction::HandleReInvite { leg: l, method: m, sdp: s, dialog_id: d })
            && l == leg && m@ == method.name_text() && s == sdp && d == dialog_id)),
{
}

/// The end of the caller's dialog ends the call by its caller; a re-INVITE or UPDATE waits
/// for its answer, and any other request is answered at once.
pub proof fn callers_requests_are_answered(
    shared: CallSessionShared,
    shared_after: CallSessionShared,
    timer: SessionTimerState,
    timer_after: SessionTimerState,
    event: DialogEvent,
    now: u64,
    r: DialogStep,
)
    requires
        exported_handles(shared, shared_after, timer, timer_after, event, now, r),
    ensures
        event is Terminated ==> r.stop && (r.event matches Some(LegEvent::Terminated { reason })
            && reason is ByCaller),
        r.stop <==> event is Terminated || event is Closed,
        event is Info || event is Notify || event is Options ==> r.reply_ok,
        (event matches DialogEvent::Updated { dialog_id, method, headers, body, handle } ==> {
            &&& r.reply_ok <==> !(method is Invite || method is Update)
            &&& method is Invite || method is Update ==> (r.event matches Some(
                LegEvent::ReInvite { leg, .. },
            ) && leg is Caller) && shared_after.replies().dom().contains(
                MidDialogLeg::Caller.key_text(dialog_id@.text()),
            ) && shared_after.replies()[MidDialogLeg::Caller.key_text(dialog_id@.text())] == handle
                && timer_after == timer
            &&& !(method is Invite || method is Update) ==> shared_after == shared
        }),
        (event matches DialogEvent::Info { headers, body } ==> (r.event is Some ==> (
        r.event matches Some(LegEvent::TrickleIce { payload }) && payload == body && body@.len() > 0))),
        shared_after.inner == shared.inner && shared_after.log() == shared.log(),
{
}

/// The end of a dialog to the target ends the call by its callee where that dialog was
/// open, and only that dialog is closed. A re-INVITE or UPDATE of the callee waits for its
/// answer, and keeps the session alive.
pub proof fn callees_requests_are_told_of(
    shared: CallSessionShared,
    shared_after: CallSessionShared,
    sip: SipLeg,
    sip_after: SipLeg,
    event: DialogEvent,
    now: u64,
    r: DialogStep,
)
    requires
        target_handles(shared, shared_after, sip, sip_after, event, now, r),
    ensures
        !r.reply_ok,
        (event matches DialogEvent::Terminated { dialog_id } ==> {
            &&& r.stop <==> sip.active().contains(dialog_id@)
            &&& r.event is Some <==> sip.active().contains(dialog_id@)
            &&& r.event matches Some(e) ==> (e matches LegEvent::Terminated { reason } && reason is ByCallee)
            &&& !sip_after.active().contains(dialog_id@)
            &&& sip_after.session_timer == sip.session_timer
        }),
        (event matches DialogEvent::Updated { dialog_id, method, headers, body, handle } ==> {
            &&& !r.stop
            &&& sip.session_timer.active ==> sip_after.session_timer.last_refresh == now
            &&& !sip.session_timer.active ==> sip_after.session_timer == sip.session_timer
            &&& r.event is Some <==> method is Invite || method is Update
            &&& r.event matches Some(e) ==> (e matches LegEvent::ReInvite { leg, .. } && leg is Callee)
            &&& method is Invite || method is Update ==> shared_after.replies().dom().contains(
                MidDialogLeg::Callee.key_text(dialog_id@.text()),
            ) && shared_after.replies()[MidDialogLeg::Callee.key_text(dialog_id@.text())] == handle
        }),
        shared_after.inner == shared.inner && shared_after.log() == shared.log(),
{
}

} // verus!
