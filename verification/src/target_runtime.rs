//! Dialing the targets of a call, one after the other or all at once, and what
//! follows when none of them answers.
use vstd::prelude::*;
use crate::call_leg::CallLeg;
use crate::locator::located_destination;
use crate::model::{CallForwardingMode, Location, TransferEndpoint};
use crate::queue_flow::{QueueFlow, code_list, retries_after};
use crate::session::CallSession;
use crate::session_timer::parse_min_se;
use crate::sip::{
    Header, HeaderView, InviteOption, SipAddr, Uri, header_views, host_port, host_port_text,
    is_success, is_successful, parse_uri, parsed_uri,
};
use crate::sip_leg::{
    DialogId, SipLeg, outbound_headers, timer_granted, timer_has_the_default_interval,
};
use crate::state::SessionAction;
use crate::text::{
    before, decimal, decimal_of, eq_ignoring_case, first_index_facts, join2, join3, lower,
    opt_text, own, own_opt, parse_number, same_ignoring_case, trimmed,
    written_number_has_digits_only, written_number_is_read_back,
};

verus! {

/// Why the targets could not be dialed.
#[derive(Clone, Copy, Debug, PartialEq, Eq, Structural)]
pub enum DialError {
    NoTargets,
    NoCaller,
    StoppedByPolicy,
    AllSequentialFailed,
    AllParallelFailed,
    CallerCancelled,
    NoSuccess,
}

impl DialError {
    /// The message of the error.
    pub open spec fn message_text(self) -> Seq<char> {
        match self {
            DialError::NoTargets => "No targets provided for parallel dialing"@,
            DialError::NoCaller => "No caller specified in dialplan"@,
            DialError::StoppedByPolicy => "Target failed and retry policy stopped failover"@,
            DialError::AllSequentialFailed => "All sequential targets failed"@,
            DialError::AllParallelFailed => "All parallel targets failed"@,
            DialError::CallerCancelled => "Caller cancelled"@,
            DialError::NoSuccess => "Parallel dialing concluded without success"@,
        }
    }

    /// The message of the error.
    pub fn message(&self) -> (r: String)
        ensures
            r@ == self.message_text(),
    {
        match self {
            DialError::NoTargets => own("No targets provided for parallel dialing"),
            DialError::NoCaller => own("No caller specified in dialplan"),
            DialError::StoppedByPolicy => own("Target failed and retry policy stopped failover"),
            DialError::AllSequentialFailed => own("All sequential targets failed"),
            DialError::AllParallelFailed => own("All parallel targets failed"),
            DialError::CallerCancelled => own("Caller cancelled"),
            DialError::NoSuccess => own("Parallel dialing concluded without success"),
        }
    }
}

/// What comes back from the targets that are rung at once.
#[derive(Clone, Debug)]
pub enum ParallelEvent {
    Calling { idx: usize, dialog_id: DialogId },
    Early { idx: usize, dialog_id: DialogId, sdp: Option<String> },
    Accepted {
        idx: usize,
        dialog_id: DialogId,
        answer: String,
        aor: String,
        caller_uri: String,
        callee_uri: String,
        contact: String,
        destination: Option<String>,
    },
    Failed { idx: usize, code: u16, reason: Option<String>, target: Option<String> },
    Terminated { idx: usize },
    Cancelled,
}

/// What is done about an event of a target.
#[derive(Debug)]
pub enum ParallelStep {
    Wait,
    /// The early media of a dialog is given to the caller.
    EarlyMedia { dialog_id: String, sdp: String },
    /// The caller is told that a target is alerted.
    Ring,
    /// The call is answered with this target, see [`ParallelDial::on_accepted`].
    Accept { idx: usize, dialog_id: DialogId, callee: String, sdp: String },
    /// These dialogs are hung up; the caller has given up.
    Abandon(Vec<DialogId>),
    Connected,
    Failed(DialError),
}

/// The state of ringing all targets at once.
#[derive(Debug)]
pub struct ParallelDial {
    pub failures: usize,
    pub accepted: Option<usize>,
    pub known_dialogs: Vec<Option<DialogId>>,
}

/// The dialogs that are known of the targets, but for that of target `skip`.
pub open spec fn open_dialogs(known: Seq<Option<DialogId>>, skip: Option<int>) -> Seq<DialogId>
    decreases known.len(),
{
    if known.len() == 0 {
        Seq::empty()
    } else {
        let before = open_dialogs(known.drop_last(), skip);
        match known.last() {
            Some(d) => if skip == Some(known.len() - 1) {
                before
            } else {
                before.push(d)
            },
            None => before,
        }
    }
}

fn collect_dialogs(known: &Vec<Option<DialogId>>, skip: Option<usize>) -> (r: Vec<DialogId>)
    ensures
        r@ == open_dialogs(
            known@,
            match skip {
                Some(i) => Some(i as int),
                None => None,
            },
        ),
{
    let ghost s = match skip {
        Some(i) => Some(i as int),
        None => None,
    };
    let mut out: Vec<DialogId> = Vec::new();
    let mut i: usize = 0;
    assert(known@.take(0) =~= Seq::empty());
    while i < known.len()
        invariant
            i <= known.len(),
            out@ == open_dialogs(known@.take(i as int), s),
            s == (match skip {
                Some(i) => Some(i as int),
                None => None,
            }),
        decreases known.len() - i,
    {
        proof {
            let now = known@.take(i + 1);
            assert(now.drop_last() =~= known@.take(i as int));
            assert(now.last() == known@[i as int]);
            assert(now.len() - 1 == i);
        }
        if let Some(d) = &known[i] {
            let skipped = match skip {
                Some(k) => k == i,
                None => false,
            };
            if !skipped {
                out.push(d.copy());
            }
        }
        i += 1;
    }
    assert(known@.take(i as int) =~= known@);
    out
}

impl ParallelDial {
    /// The number of targets.
    pub open spec fn targets(self) -> nat {
        self.known_dialogs@.len()
    }

    /// There is a target, and the accepted one is among them.
    pub open spec fn well_formed(self) -> bool {
        &&& self.targets() > 0
        &&& self.accepted matches Some(i) ==> i < self.targets()
    }

    /// Whether an event is of one of the targets.
    pub open spec fn concerns(self, event: ParallelEvent) -> bool {
        match event {
            ParallelEvent::Calling { idx, .. } => idx < self.targets(),
            ParallelEvent::Early { idx, .. } => idx < self.targets(),
            ParallelEvent::Accepted { idx, .. } => idx < self.targets(),
            ParallelEvent::Failed { idx, .. } => idx < self.targets(),
            ParallelEvent::Terminated { idx } => idx < self.targets(),
            ParallelEvent::Cancelled => true,
        }
    }

    /// Begins to ring `targets` targets at once; says whether the caller is told first
    /// that they are alerted. Without targets the call fails.
    pub fn begin(session: &mut CallSession, targets: usize) -> (r: Result<bool, DialError>)
        ensures
            targets == 0 ==> {
                &&& r == Err::<bool, DialError>(DialError::NoTargets)
                &&& opt_text(final(session).error_text()) == Some("No targets provided"@)
                &&& old(session).failed(*final(session), 500, final(session).error_text(), None)
            },
            targets > 0 ==> {
                &&& r == Ok::<bool, DialError>(!old(session).exported_leg.media.early_media_sent)
                &&& *final(session) == *old(session)
            },
    {
        if targets == 0 {
            session.set_error(500, Some(own("No targets provided")), None);
            return Err(DialError::NoTargets);
        }
        Ok(!session.exported_leg.media.early_media_sent)
    }

    /// The state in which the INVITEs to `targets` targets are sent, once the caller has
    /// been told. Without a caller in the plan of the call, the call fails.
    pub fn dial(session: &mut CallSession, targets: usize) -> (r: Result<ParallelDial, DialError>)
        requires
            targets > 0,
        ensures
            old(session).context.dialplan.caller is None ==> {
                &&& r == Err::<ParallelDial, DialError>(DialError::NoCaller)
                &&& opt_text(final(session).error_text()) == Some(
                    "No caller specified in dialplan"@,
                )
                &&& old(session).failed(*final(session), 500, final(session).error_text(), None)
            },
            old(session).context.dialplan.caller is Some ==> {
                &&& r matches Ok(d)
                &&& d.well_formed()
                &&& d.known_dialogs@ == Seq::new(targets as nat, |i: int| None::<DialogId>)
                &&& d == (ParallelDial {
                    failures: 0,
                    accepted: None,
                    known_dialogs: d.known_dialogs,
                })
                &&& *final(session) == *old(session)
            },
    {
        if session.context.dialplan.caller.is_none() {
            session.set_error(500, Some(own("No caller specified in dialplan")), None);
            return Err(DialError::NoCaller);
        }
        let mut known_dialogs: Vec<Option<DialogId>> = Vec::new();
        while known_dialogs.len() < targets
            invariant
                known_dialogs.len() <= targets,
                forall|i: int| 0 <= i < known_dialogs.len() ==> known_dialogs@[i] is None,
            decreases targets - known_dialogs.len(),
        {
            known_dialogs.push(None);
        }
        assert(known_dialogs@ =~= Seq::new(targets as nat, |i: int| None::<DialogId>));
        Ok(ParallelDial { failures: 0, accepted: None, known_dialogs })
    }

    /// The number of failures after one more.
    pub open spec fn failures_after(self) -> usize {
        if self.failures == usize::MAX {
            usize::MAX
        } else {
            (self.failures + 1) as usize
        }
    }

    /// Whether the failure of one more target fails the call: all have failed and
    /// none was accepted.
    pub open spec fn is_exhausted(self) -> bool {
        self.failures_after() >= self.targets() && self.accepted is None
    }

    /// What an event leads to, and what becomes of the dial and the session.
    pub open spec fn handles(
        self,
        session: CallSession,
        event: ParallelEvent,
        step: ParallelStep,
        after: ParallelDial,
        session_after: CallSession,
    ) -> bool {
        match event {
            ParallelEvent::Calling { idx, dialog_id } => {
                &&& step == ParallelStep::Wait
                &&& after.known_dialogs@ == self.known_dialogs@.update(
                    idx as int,
                    Some(dialog_id),
                )
                &&& after == (ParallelDial { known_dialogs: after.known_dialogs, ..self })
                &&& session_after == session
            },
            ParallelEvent::Early { idx, dialog_id, sdp } => {
                &&& match sdp {
                    Some(answer) => step is EarlyMedia && step->EarlyMedia_dialog_id@
                        == dialog_id@.text() && step->EarlyMedia_sdp == answer,
                    None => step == (if session.exported_leg.media.early_media_sent {
                        ParallelStep::Wait
                    } else {
                        ParallelStep::Ring
                    }),
                }
                &&& after == self
                &&& session_after == session
            },
            ParallelEvent::Accepted {
                idx,
                dialog_id,
                answer,
                aor,
                caller_uri,
                callee_uri,
                contact,
                destination,
            } => {
                &&& step == (if self.accepted is None {
                    ParallelStep::Accept { idx, dialog_id, callee: aor, sdp: answer }
                } else {
                    ParallelStep::Wait
                })
                &&& after == self
                &&& session_after == (CallSession {
                    routed_caller: Some(caller_uri),
                    routed_callee: Some(callee_uri),
                    routed_contact: Some(contact),
                    routed_destination: destination,
                    ..session
                })
            },
            ParallelEvent::Failed { idx, code, reason, target } => {
                &&& step == (if self.is_exhausted() {
                    ParallelStep::Failed(DialError::AllParallelFailed)
                } else {
                    ParallelStep::Wait
                })
                &&& after == (ParallelDial { failures: self.failures_after(), ..self })
                &&& session.failed(session_after, code, reason, target)
            },
            ParallelEvent::Terminated { idx } => {
                &&& step == (if self.accepted == Some(idx) {
                    ParallelStep::Connected
                } else {
                    ParallelStep::Wait
                })
                &&& after == self
                &&& session_after == session
            },
            ParallelEvent::Cancelled => {
                &&& step is Abandon
                &&& step->Abandon_0@ == open_dialogs(self.known_dialogs@, None)
                &&& after == self
                &&& session_after == session
            },
        }
    }

    /// Handles an event of a target.
    pub fn on_event(&mut self, session: &mut CallSession, event: ParallelEvent) -> (r: ParallelStep)
        requires
            old(self).well_formed(),
            old(self).concerns(event),
        ensures
            old(self).handles(*old(session), event, r, *final(self), *final(session)),
            final(self).well_formed(),
            final(self).accepted == old(self).accepted,
            final(self).targets() == old(self).targets(),
    {
        match event {
            ParallelEvent::Calling { idx, dialog_id } => {
                self.known_dialogs.set(idx, Some(dialog_id));
                ParallelStep::Wait
            },
            ParallelEvent::Early { idx: _, dialog_id, sdp } => match sdp {
                Some(answer) => ParallelStep::EarlyMedia {
                    dialog_id: dialog_id.to_text(),
                    sdp: answer,
                },
                None => if session.exported_leg.media.early_media_sent {
                    ParallelStep::Wait
                } else {
                    ParallelStep::Ring
                },
            },
            ParallelEvent::Accepted {
                idx,
                dialog_id,
                answer,
                aor,
                caller_uri,
                callee_uri,
                contact,
                destination,
            } => {
                session.routed_caller = Some(caller_uri);
                session.routed_callee = Some(callee_uri);
                session.routed_contact = Some(contact);
                session.routed_destination = destination;
                if self.accepted.is_none() {
                    ParallelStep::Accept { idx, dialog_id, callee: aor, sdp: answer }
                } else {
                    ParallelStep::Wait
                }
            },
            ParallelEvent::Failed { idx: _, code, reason, target } => {
                self.failures = if self.failures == usize::MAX {
                    usize::MAX
                } else {
                    self.failures + 1
                };
                session.set_error(code, reason, target);
                if self.failures >= self.known_dialogs.len() && self.accepted.is_none() {
                    ParallelStep::Failed(DialError::AllParallelFailed)
                } else {
                    ParallelStep::Wait
                }
            },
            ParallelEvent::Terminated { idx } => {
                let connected = match self.accepted {
                    Some(a) => a == idx,
                    None => false,
                };
                if connected {
                    ParallelStep::Connected
                } else {
                    ParallelStep::Wait
                }
            },
            ParallelEvent::Cancelled => ParallelStep::Abandon(
                collect_dialogs(&self.known_dialogs, None),
            ),
        }
    }

    /// Handles the outcome of answering the call with a target. Returns the dialogs
    /// to hang up: those of the other targets, once one is accepted.
    pub fn on_accepted(
        &mut self,
        session: &mut CallSession,
        idx: usize,
        dialog_id: DialogId,
        answered: bool,
    ) -> (r: Vec<DialogId>)
        requires
            old(self).well_formed(),
            old(self).accepted is None,
            idx < old(self).targets(),
            old(session).target_leg is Some,
        ensures
            final(self).well_formed(),
            !answered ==> r@ == Seq::<DialogId>::empty() && *final(self) == *old(self) && *final(session) == *old(session),
            answered ==> {
                &&& r@ == open_dialogs(old(self).known_dialogs@, Some(idx as int))
                &&& *final(self) == (ParallelDial { accepted: Some(idx), ..*old(self) })
                &&& old(session).dialog_entered(*final(session), dialog_id@)
            },
    {
        if !answered {
            return Vec::new();
        }
        self.accepted = Some(idx);
        session.add_callee_dialog(dialog_id);
        collect_dialogs(&self.known_dialogs, Some(idx))
    }

    /// The outcome once no more events can come.
    pub fn on_closed(&self) -> (r: Result<(), DialError>)
        ensures
            r == (if self.accepted is Some {
                Ok::<(), DialError>(())
            } else {
                Err(DialError::NoSuccess)
            }),
    {
        if self.accepted.is_some() {
            Ok(())
        } else {
            Err(DialError::NoSuccess)
        }
    }
}

proof fn open_dialogs_hold(known: Seq<Option<DialogId>>, skip: Option<int>, k: int)
    requires
        0 <= k < known.len(),
        known[k] is Some,
        skip != Some(k),
    ensures
        open_dialogs(known, skip).contains(known[k]->0),
    decreases known.len(),
{
    let before = open_dialogs(known.drop_last(), skip);
    let all = open_dialogs(known, skip);
    if k == known.len() - 1 {
        assert(all[all.len() - 1] == known[k]->0);
    } else {
        assert(known.drop_last()[k] == known[k]);
        open_dialogs_hold(known.drop_last(), skip, k);
        let j = before.index_of(known[k]->0);
        assert(all[j] == before[j]);
    }
}

/// When a target is accepted, the dialog of every other target is hung up; when
/// the caller gives up, the dialogs of all are.
pub proof fn other_targets_are_hung_up(known: Seq<Option<DialogId>>, accepted: Option<int>, k: int)
    requires
        0 <= k < known.len(),
        known[k] is Some,
        accepted != Some(k),
    ensures
        open_dialogs(known, accepted).contains(known[k]->0),
{
    open_dialogs_hold(known, accepted, k);
}

/// Once a target is accepted, the failures of others end nothing, and no other
/// target is accepted.
pub proof fn accepted_target_stays(
    dial: ParallelDial,
    session: CallSession,
    event: ParallelEvent,
    step: ParallelStep,
    after: ParallelDial,
    session_after: CallSession,
)
    requires
        dial.accepted is Some,
        dial.handles(session, event, step, after, session_after),
    ensures
        step !is Failed,
        step !is Accept,
        after.accepted == dial.accepted,
        step is Connected ==> event == (ParallelEvent::Terminated { idx: dial.accepted->0 }),
{
}

/// The result of an attempt: nothing, or the code and reason of the failure.
pub type AttemptResult = Result<(), (u16, Option<String>)>;

/// The code of a failed attempt.
pub open spec fn failure_code(result: AttemptResult) -> u16 {
    match result {
        Ok(_) => 0,
        Err((code, _)) => code,
    }
}

/// What is done after an attempt.
#[derive(Clone, Copy, Debug, PartialEq, Eq, Structural)]
pub enum SequentialStep {
    TryNext,
    Connected,
    Failed(DialError),
}

/// The step after the attempt with target `index` of `targets`.
pub open spec fn sequential_step(
    index: int,
    targets: int,
    retry_codes: Option<Seq<u16>>,
    result: AttemptResult,
) -> SequentialStep {
    match result {
        Ok(_) => SequentialStep::Connected,
        Err((code, _)) => if !retries_after(retry_codes, code) {
            SequentialStep::Failed(DialError::StoppedByPolicy)
        } else if index + 1 < targets {
            SequentialStep::TryNext
        } else {
            SequentialStep::Failed(DialError::AllSequentialFailed)
        },
    }
}

/// The outcome of ringing targets one after the other, from target `index` on, if
/// the attempts give `results`.
pub open spec fn sequential_outcome(
    index: int,
    results: Seq<AttemptResult>,
    retry_codes: Option<Seq<u16>>,
) -> Result<int, DialError>
    decreases results.len() - index,
{
    if index < 0 || index >= results.len() {
        Err(DialError::AllSequentialFailed)
    } else {
        match sequential_step(index, results.len() as int, retry_codes, results[index]) {
            SequentialStep::Connected => Ok(index),
            SequentialStep::Failed(e) => Err(e),
            SequentialStep::TryNext => sequential_outcome(index + 1, results, retry_codes),
        }
    }
}

/// Targets are rung in order: the call is connected with the first that answers,
/// and only if each target before it failed with a code after which the next is
/// tried.
pub proof fn first_answer_connects(results: Seq<AttemptResult>, retry_codes: Option<Seq<u16>>, k: int)
    requires
        0 <= k < results.len(),
        results[k] is Ok,
        forall|i: int|
            0 <= i < k ==> (#[trigger] results[i]) is Err && retries_after(
                retry_codes,
                failure_code(results[i]),
            ),
    ensures
        sequential_outcome(0, results, retry_codes) == Ok::<int, DialError>(k),
{
    first_answer_connects_from(results, retry_codes, 0, k);
}

proof fn first_answer_connects_from(
    results: Seq<AttemptResult>,
    retry_codes: Option<Seq<u16>>,
    index: int,
    k: int,
)
    requires
        0 <= index <= k < results.len(),
        results[k] is Ok,
        forall|i: int|
            0 <= i < k ==> (#[trigger] results[i]) is Err && retries_after(
                retry_codes,
                failure_code(results[i]),
            ),
    ensures
        sequential_outcome(index, results, retry_codes) == Ok::<int, DialError>(k),
    decreases k - index,
{
    if index < k {
        assert(results[index] is Err);
        first_answer_connects_from(results, retry_codes, index + 1, k);
    }
}

impl CallSession {
    /// The session after a target failed: the attempt is noted, and noted again as
    /// the error of the call.
    pub open spec fn target_failed(
        self,
        after: CallSession,
        code: u16,
        reason: Option<String>,
        target: Option<String>,
    ) -> bool {
        exists|mid: CallSession| #[trigger]
            self.attempt_noted(mid, code, reason, target) && mid.failed(after, code, reason, target)
    }
}

/// Handles the outcome of the attempt with target `index` of `targets`.
pub fn on_sequential_attempt(
    session: &mut CallSession,
    targets: &Vec<Location>,
    index: usize,
    result: AttemptResult,
) -> (r: SequentialStep)
    requires
        index < targets.len(),
    ensures
        r == sequential_step(
            index as int,
            targets.len() as int,
            code_list(old(session).retry_codes()),
            result,
        ),
        match result {
            Ok(_) => *final(session) == *old(session),
            Err((code, reason)) => {
                &&& final(session).last_error == Some((code, reason))
                &&& exists|target: Option<String>|
                    opt_text(target) == Some(targets@[index as int].aor.text()) && #[trigger] old(session).target_failed(*final(session), code, reason, target)
            },
        },
{
    match result {
        Ok(_) => SequentialStep::Connected,
        Err((code, reason)) => {
            let ghost start = *session;
            let retry = QueueFlow::should_retry_code(session.get_retry_codes(), code);
            let target = targets[index].aor.to_text();
            let noted = Some(target);
            session.note_attempt_failure(code, own_opt(&reason), own_opt(&noted));
            let ghost mid = *session;
            let ghost t = noted;
            session.set_error(code, reason, noted);
            proof {
                assert(start.attempt_noted(mid, code, reason, t));
                assert(start.target_failed(*session, code, reason, t));
            }
            if !retry {
                SequentialStep::Failed(DialError::StoppedByPolicy)
            } else if index + 1 < targets.len() {
                SequentialStep::TryNext
            } else {
                SequentialStep::Failed(DialError::AllSequentialFailed)
            }
        },
    }
}

/// What an INVITE came to.
#[derive(Clone, Debug)]
pub enum InviteResponse {
    Answered { code: u16, reason: Option<String> },
    /// No final response came.
    NoResponse,
    /// The dialog failed with a code of its own.
    DialogError { reason: String, code: u16 },
    OtherError,
}

/// Whether `failure` is the failure that an INVITE came to: none after a success.
pub open spec fn is_invite_failure(response: InviteResponse, failure: Option<(u16, Option<String>)>) -> bool {
    match response {
        InviteResponse::Answered { code, reason } => failure == (if is_success(code) {
            None
        } else {
            Some((code, reason))
        }),
        InviteResponse::NoResponse => failure matches Some((code, reason)) && code == 487
            && opt_text(reason) == Some("Cancelled by callee"@),
        InviteResponse::DialogError { reason, code } => failure == Some((code, Some(reason))),
        InviteResponse::OtherError => failure matches Some((code, reason)) && code == 500
            && opt_text(reason) == Some("Invite failed"@),
    }
}

/// See [`is_invite_failure`].
pub fn invite_failure(response: InviteResponse) -> (r: Option<(u16, Option<String>)>)
    ensures
        is_invite_failure(response, r),
{
    match response {
        InviteResponse::Answered { code, reason } => if is_successful(code) {
            None
        } else {
            Some((code, reason))
        },
        InviteResponse::NoResponse => Some((487, Some(own("Cancelled by callee")))),
        InviteResponse::DialogError { reason, code } => Some((code, Some(reason))),
        InviteResponse::OtherError => Some((500, Some(own("Invite failed")))),
    }
}

/// The event that the end of an INVITE to target `idx` gives. `body` is the body of
/// the response and `aor` the address of the target.
pub fn parallel_outcome(
    idx: usize,
    response: InviteResponse,
    dialog_id: DialogId,
    body: String,
    aor: String,
    invite: &InviteOption,
) -> (r: ParallelEvent)
    ensures
        response matches InviteResponse::Answered { code, .. } && is_success(code) ==> {
            &&& r is Accepted
            &&& r->Accepted_idx == idx
            &&& r->Accepted_dialog_id == dialog_id
            &&& r->answer == body
            &&& r->aor == aor
            &&& r->caller_uri@ == invite.caller.text()
            &&& r->callee_uri@ == invite.callee.text()
            &&& r->contact@ == invite.contact.text()
            &&& opt_text(r->destination) == (match invite.destination {
                Some(d) => Some(d@.text()),
                None => None,
            })
        },
        !(response matches InviteResponse::Answered { code, .. } && is_success(code)) ==> {
            &&& r is Failed
            &&& r->Failed_idx == idx
            &&& is_invite_failure(response, Some((r->Failed_code, r->Failed_reason)))
            &&& opt_text(r->Failed_target) == Some(invite.callee.text())
        },
{
    match invite_failure(response) {
        None => ParallelEvent::Accepted {
            idx,
            dialog_id,
            answer: body,
            aor,
            caller_uri: invite.caller.to_text(),
            callee_uri: invite.callee.to_text(),
            contact: invite.contact.to_text(),
            destination: match &invite.destination {
                Some(d) => Some(d.to_text()),
                None => None,
            },
        },
        Some((code, reason)) => ParallelEvent::Failed {
            idx,
            code,
            reason,
            target: Some(invite.callee.to_text()),
        },
    }
}

/// What the routing of an INVITE came to.
#[derive(Debug)]
pub enum RoutedInvite {
    NotHandled(InviteOption),
    Forward(InviteOption),
    Queue(InviteOption),
    Application(InviteOption),
    Abort(u16, Option<String>),
    Error,
}

/// The INVITE after routing: an error where routing refused the call or failed.
pub fn apply_route(route: RoutedInvite) -> (r: Result<InviteOption, (u16, Option<String>)>)
    ensures
        match route {
            RoutedInvite::NotHandled(o) | RoutedInvite::Forward(o) | RoutedInvite::Queue(o)
            | RoutedInvite::Application(o) => r == Ok::<InviteOption, (u16, Option<String>)>(o),
            RoutedInvite::Abort(code, reason) => r == Err::<InviteOption, (u16, Option<String>)>(
                (code, reason),
            ),
            RoutedInvite::Error => r matches Err((code, reason)) && code == 500 && opt_text(reason)
                == Some("Routing function error"@),
        },
{
    match route {
        RoutedInvite::NotHandled(o) | RoutedInvite::Forward(o) | RoutedInvite::Queue(o)
        | RoutedInvite::Application(o) => Ok(o),
        RoutedInvite::Abort(code, reason) => Err((code, reason)),
        RoutedInvite::Error => Err((500, Some(own("Routing function error")))),
    }
}

/// What is known of the callee in the own realm: the locations found, or why there
/// are none, and whether the user exists.
#[derive(Debug)]
pub struct CalleeLookup {
    pub locations: Result<Vec<Location>, String>,
    pub user_exists: Result<bool, String>,
}

/// Whether `outcome` is what a lookup of the callee comes to: the destination of
/// the first location, or the refusal of the call.
pub open spec fn is_located(lookup: CalleeLookup, outcome: Result<Option<SipAddr>, (u16, Option<String>)>) -> bool {
    match lookup.locations {
        Err(e) => outcome == Err::<Option<SipAddr>, (u16, Option<String>)>((480, Some(e))),
        Ok(found) => if found@.len() > 0 {
            outcome == Ok::<Option<SipAddr>, (u16, Option<String>)>(found@[0].destination)
        } else {
            match lookup.user_exists {
                Ok(true) => outcome matches Err((code, reason)) && code == 480 && opt_text(reason)
                    == Some("User offline"@),
                Ok(false) => outcome matches Err((code, reason)) && code == 404 && opt_text(reason)
                    == Some("User not found"@),
                Err(e) => outcome == Err::<Option<SipAddr>, (u16, Option<String>)>((500, Some(e))),
            }
        },
    }
}

/// See [`is_located`].
pub fn locate_callee(lookup: CalleeLookup) -> (r: Result<Option<SipAddr>, (u16, Option<String>)>)
    ensures
        is_located(lookup, r),
{
    match lookup.locations {
        Err(e) => Err((480, Some(e))),
        Ok(found) => {
            if found.len() > 0 {
                return Ok(located_destination(&found));
            }
            match lookup.user_exists {
                Ok(true) => Err((480, Some(own("User offline")))),
                Ok(false) => Err((404, Some(own("User not found")))),
                Err(e) => Err((500, Some(e))),
            }
        },
    }
}

/// The realm of the callee of an INVITE.
pub fn callee_realm(option: &InviteOption) -> (r: String)
    ensures
        r@ == host_port_text(option.callee.host@, option.callee.port),
{
    host_port(option.callee.host.as_str(), option.callee.port)
}

/// Whether `r` is the INVITE with its contact and, where it has no destination and its
/// callee is of the own realm, with the callee's.
pub open spec fn is_completed(
    option: InviteOption,
    enforced_contact: Option<Uri>,
    same_realm: bool,
    lookup: CalleeLookup,
    r: Result<InviteOption, (u16, Option<String>)>,
) -> bool {
    let contact = match enforced_contact {
        Some(c) => c,
        None => option.contact,
    };
    let looked_up = option.destination is None && same_realm;
    &&& !looked_up ==> r == Ok::<InviteOption, (u16, Option<String>)>(
        InviteOption { contact, ..option },
    )
    &&& looked_up ==> match r {
        Ok(o) => is_located(lookup, Ok(o.destination)) && o == (InviteOption {
            contact,
            destination: o.destination,
            ..option
        }),
        Err(e) => is_located(lookup, Err(e)),
    }
}

/// Completes a routed INVITE: it gets the contact that is enforced, and, where it
/// has no destination and its callee is of the own realm, that of the callee's
/// first location. `lookup` is what is known of the callee, needed only then.
pub fn complete_invite(
    option: InviteOption,
    enforced_contact: Option<Uri>,
    same_realm: bool,
    lookup: CalleeLookup,
) -> (r: Result<InviteOption, (u16, Option<String>)>)
    ensures
        is_completed(option, enforced_contact, same_realm, lookup, r),
{
    let mut option = option;
    if let Some(c) = enforced_contact {
        option.contact = c;
    }
    if option.destination.is_none() && same_realm {
        match locate_callee(lookup) {
            Ok(d) => {
                option.destination = d;
            },
            Err(e) => return Err(e),
        }
    }
    Ok(option)
}

/// The timer header of outbound INVITEs, where timers are in use.
pub open spec fn timer_header(timers: bool, session_expires: Option<u64>) -> Option<u64> {
    if timers {
        session_expires
    } else {
        None
    }
}

impl CallSession {
    /// Whether `o` is an INVITE of the caller of the plan to `target` with this offer.
    pub open spec fn is_invite_to(
        self,
        o: InviteOption,
        target: Location,
        offer: Option<String>,
        contact: Option<Uri>,
        headers: Seq<HeaderView>,
    ) -> bool {
        &&& self.context.dialplan.caller == Some(o.caller)
        &&& o.callee == target.aor
        &&& o.destination == target.destination
        &&& o.credential == target.credential
        &&& o.contact == (match contact {
            Some(c) => c,
            None => o.caller,
        })
        &&& o.offer == offer
        &&& opt_text(o.content_type) == (if offer is Some {
            Some("application/sdp"@)
        } else {
            None
        })
        &&& o.headers is Some
        &&& header_views(o.headers->0@) == headers
    }

    /// Builds the INVITE to a target: an error without a caller in the plan of the
    /// call. `generated` is the offer that the media proxy made for the target, and
    /// `headers` are those of the plan.
    pub fn build_target_invite(
        &mut self,
        target: &Location,
        generated: Option<String>,
        contact: Option<Uri>,
        headers: Vec<Header>,
        timers: bool,
        session_expires: Option<u64>,
        now: u64,
    ) -> (r: Result<InviteOption, (u16, Option<String>)>)
        ensures
            old(self).context.dialplan.caller is None ==> {
                &&& r matches Err((code, reason))
                &&& code == 500
                &&& opt_text(reason) == Some("No caller specified in dialplan"@)
                &&& *final(self) == *old(self)
            },
            old(self).context.dialplan.caller is Some ==> {
                &&& r matches Ok(o)
                &&& old(self).is_invite_to(
                    o,
                    *target,
                    old(self).target_offer(generated),
                    contact,
                    outbound_headers(
                        header_views(headers@),
                        old(self).context.max_forwards,
                        timer_header(timers, session_expires),
                    ),
                )
                &&& o.caller_display_name == old(self).context.dialplan.caller_display_name
                &&& o.call_id == old(self).context.dialplan.call_id
                &&& old(self).target_offered(*final(self), generated, now)
            },
    {
        let caller = match &self.context.dialplan.caller {
            Some(c) => c.copy(),
            None => return Err((500, Some(own("No caller specified in dialplan")))),
        };
        let offer = self.create_offer_for_target(generated, now);
        let expires = if timers {
            session_expires
        } else {
            None
        };
        Ok(
            SipLeg::build_outbound_invite_option(
                target,
                caller,
                own_opt(&self.context.dialplan.caller_display_name),
                offer,
                contact,
                headers,
                self.context.max_forwards,
                expires,
                own_opt(&self.context.dialplan.call_id),
            ),
        )
    }

    /// Builds the INVITE to one of the targets that are rung at once: it has no display
    /// name, no session timer and no Call-ID of its own.
    pub fn build_parallel_invite(
        &mut self,
        target: &Location,
        generated: Option<String>,
        contact: Option<Uri>,
        headers: Vec<Header>,
        now: u64,
    ) -> (r: InviteOption)
        requires
            old(self).context.dialplan.caller is Some,
        ensures
            old(self).is_invite_to(
                r,
                *target,
                old(self).target_offer(generated),
                contact,
                outbound_headers(header_views(headers@), old(self).context.max_forwards, None),
            ),
            r.caller_display_name is None,
            r.call_id is None,
            old(self).target_offered(*final(self), generated, now),
    {
        let offer = self.create_offer_for_target(generated, now);
        let caller = self.context.dialplan.caller.as_ref().unwrap().copy();
        SipLeg::build_outbound_invite_option(
            target,
            caller,
            None,
            offer,
            contact,
            headers,
            self.context.max_forwards,
            None,
            None,
        )
    }
}

/// Whether a header is the session timer of an INVITE.
pub open spec fn is_timer_value(h: HeaderView) -> bool {
    h is Other && same_ignoring_case(h->Other_0, "Session-Expires"@)
}

/// The headers without the session timer.
pub open spec fn without_timer(h: Seq<HeaderView>) -> Seq<HeaderView>
    decreases h.len(),
{
    if h.len() == 0 {
        Seq::empty()
    } else if is_timer_value(h.last()) {
        without_timer(h.drop_last())
    } else {
        without_timer(h.drop_last()).push(h.last())
    }
}

/// The headers with the interval `secs` in place of their session timer.
pub open spec fn with_interval(h: Seq<HeaderView>, secs: u64) -> Seq<HeaderView> {
    without_timer(h).push(HeaderView::Other("Session-Expires"@, decimal(secs as nat)))
}

fn replace_interval(headers: Vec<Header>, secs: u64) -> (r: Vec<Header>)
    ensures
        header_views(r@) == with_interval(header_views(headers@), secs),
{
    let ghost all = header_views(headers@);
    let mut out: Vec<Header> = Vec::new();
    let mut i: usize = 0;
    assert(header_views(out@) =~= without_timer(all.take(0)));
    while i < headers.len()
        invariant
            i <= headers.len(),
            all == header_views(headers@),
            header_views(out@) == without_timer(all.take(i as int)),
        decreases headers.len() - i,
    {
        let ghost before = header_views(out@);
        assert(all.take(i + 1).drop_last() =~= all.take(i as int));
        assert(all.take(i + 1).last() == headers@[i as int]@);
        let timer = match &headers[i] {
            Header::Other(n, _) => eq_ignoring_case(n.as_str(), "Session-Expires"),
            _ => false,
        };
        if !timer {
            out.push(headers[i].copy());
            assert(header_views(out@) =~= before.push(headers@[i as int]@));
        }
        i += 1;
    }
    assert(all.take(i as int) =~= all);
    let ghost before = header_views(out@);
    out.push(Header::Other(own("Session-Expires"), decimal_of(secs)));
    assert(header_views(out@) =~= before.push(
        HeaderView::Other("Session-Expires"@, decimal(secs as nat)),
    ));
    out
}

/// An INVITE under way, and whether it has been sent again with a longer interval.
#[derive(Debug)]
pub struct InviteAttempt {
    pub option: InviteOption,
    pub retried: bool,
}

/// What follows the end of an INVITE.
#[derive(Clone, Debug)]
pub enum InviteStep {
    /// It is sent again.
    Retry,
    Connected,
    Failed(u16, Option<String>),
}

/// The interval that a refused INVITE is sent again with: the one that the target
/// asks for, after the first refusal for too short an interval.
pub open spec fn asked_interval(retried: bool, code: u16, min_se: Option<String>) -> Option<nat> {
    if code == 422 && !retried && min_se is Some {
        parse_number(trimmed(before(min_se->0@, ';')), u64::MAX as nat)
    } else {
        None
    }
}

impl InviteAttempt {
    /// What a response leads to: one more INVITE with the interval that is asked for, once;
    /// else the end of the attempt.
    pub open spec fn responded(
        self,
        after: InviteAttempt,
        response: InviteResponse,
        min_se: Option<String>,
        r: InviteStep,
    ) -> bool {
        &&& ({
            let asked = match response {
                InviteResponse::Answered { code, .. } => asked_interval(
                    self.retried,
                    code,
                    min_se,
                ),
                _ => None,
            };
            match asked {
                Some(secs) => {
                    &&& r == InviteStep::Retry
                    &&& after.retried
                    &&& self.option.headers is Some ==> after.option.headers is Some
                        && header_views(after.option.headers->0@) == with_interval(
                        header_views(self.option.headers->0@),
                        secs as u64,
                    )
                    &&& self.option.headers is None ==> after.option.headers is None
                    &&& after.option == (InviteOption {
                        headers: after.option.headers,
                        ..self.option
                    })
                },
                None => {
                    &&& after == self
                    &&& match r {
                        InviteStep::Retry => false,
                        InviteStep::Connected => is_invite_failure(response, None),
                        InviteStep::Failed(code, reason) => is_invite_failure(
                            response,
                            Some((code, reason)),
                        ),
                    }
                },
            }
        })
    }

    /// Handles the end of the INVITE. `min_se` is the value of the `Min-SE` header of
    /// the response. A refusal for too short an interval is answered once with the
    /// interval that the target asks for.
    pub fn on_response(&mut self, response: InviteResponse, min_se: Option<String>) -> (r: InviteStep)
        ensures
            old(self).responded(*final(self), response, min_se, r),
    {
        let refused = match &response {
            InviteResponse::Answered { code, .. } => *code == 422 && !self.retried,
            _ => false,
        };
        if refused {
            if let Some(value) = &min_se {
                if let Some(secs) = parse_min_se(value.as_str()) {
                    if let Some(headers) = self.option.headers.take() {
                        self.option.headers = Some(replace_interval(headers, secs));
                    }
                    self.retried = true;
                    return InviteStep::Retry;
                }
            }
        }
        match invite_failure(response) {
            None => InviteStep::Connected,
            Some((code, reason)) => InviteStep::Failed(code, reason),
        }
    }
}

/// An INVITE is sent again at most once.
pub proof fn invite_is_sent_again_once(code: u16, min_se: Option<String>)
    ensures
        asked_interval(true, code, min_se) is None,
{
}

proof fn no_timer_left(h: Seq<HeaderView>, i: int)
    requires
        0 <= i < without_timer(h).len(),
    ensures
        !is_timer_value(without_timer(h)[i]),
    decreases h.len(),
{
    if h.len() > 0 {
        if is_timer_value(h.last()) {
            no_timer_left(h.drop_last(), i);
        } else if i < without_timer(h.drop_last()).len() {
            no_timer_left(h.drop_last(), i);
        }
    }
}

/// A repeated INVITE names one interval, the one that the target asked for.
pub proof fn repeated_invite_names_one_interval(h: Seq<HeaderView>, secs: u64, i: int)
    requires
        0 <= i < with_interval(h, secs).len(),
    ensures
        is_timer_value(with_interval(h, secs)[i]) <==> i == with_interval(h, secs).len() - 1,
        i == with_interval(h, secs).len() - 1 ==> with_interval(h, secs)[i]->Other_1 == decimal(
            secs as nat,
        ),
{
    if i < without_timer(h).len() {
        no_timer_left(h, i);
    }
}

/// What the answer of a target leads to: the call is accepted with it.
#[derive(Debug)]
pub struct AcceptedTarget {
    pub callee: String,
    pub sdp: Option<String>,
    pub dialog_id: String,
}

impl CallSession {
    /// Notes an early response of a target. Returns the description that the caller
    /// is alerted with.
    pub fn on_target_early(&mut self, dialog_id: DialogId, body: String) -> (r: SessionAction)
        requires
            old(self).target_leg is Some,
        ensures
            r == (SessionAction::StartRinging { ringback: Some(body), passthrough: false }),
            old(self).dialog_entered(*final(self), dialog_id@),
    {
        self.add_callee_dialog(dialog_id);
        SessionAction::StartRinging { ringback: Some(body), passthrough: false }
    }

    /// Sets the session timer of the leg to the target as its answer grants it.
    pub fn init_client_timer(&mut self, headers: &Vec<Header>, default_expires: u64, now: u64)
        requires
            old(self).target_leg is Some,
        ensures
            *final(self) == old(self).with_granted_timer(
                header_views(headers@),
                true,
                Some(default_expires),
                now,
            ),
    {
        if let Some(leg) = self.target_leg.take() {
            let mut leg = leg;
            leg.sip.init_timer_from_final_response(headers, default_expires, now);
            self.target_leg = Some(leg);
        }
    }

    /// The session with the timer that the answer of the target grants, where timers
    /// are in use.
    pub open spec fn with_granted_timer(
        self,
        headers: Seq<HeaderView>,
        timers: bool,
        session_expires: Option<u64>,
        now: u64,
    ) -> CallSession {
        if timers {
            let leg = self.target_leg->0;
            let timer = timer_granted(
                leg.sip.session_timer,
                headers,
                match session_expires {
                    Some(e) => e,
                    None => 1800u64,
                },
                now,
            );
            CallSession {
                target_leg: Some(
                    CallLeg { sip: SipLeg { session_timer: timer, ..leg.sip }, ..leg },
                ),
                ..self
            }
        } else {
            self
        }
    }

    /// Notes the answer of a target: its session timer is set, where timers are in
    /// use, and its dialog is entered.
    pub fn on_target_answered(
        &mut self,
        target: &Location,
        dialog_id: DialogId,
        body: String,
        headers: &Vec<Header>,
        timers: bool,
        session_expires: Option<u64>,
        now: u64,
    ) -> (r: AcceptedTarget)
        requires
            old(self).target_leg is Some,
        ensures
            r.callee@ == target.aor.text(),
            r.sdp == (if body@.len() > 0 {
                Some(body)
            } else {
                None
            }),
            r.dialog_id@ == dialog_id@.text(),
            old(self).with_granted_timer(
                header_views(headers@),
                timers,
                session_expires,
                now,
            ).dialog_entered(*final(self), dialog_id@),
    {
        if timers {
            let default_expires: u64 = match session_expires {
                Some(e) => e,
                None => 1800,
            };
            self.init_client_timer(headers, default_expires, now);
        }
        let sdp = if body.as_str().is_empty() {
            None
        } else {
            Some(body)
        };
        let text = dialog_id.to_text();
        self.add_callee_dialog(dialog_id);
        AcceptedTarget { callee: target.aor.to_text(), sdp, dialog_id: text }
    }
}

/// What follows when the targets of a call have failed.
#[derive(Clone, Debug)]
pub enum FailurePlan {
    /// The call is forwarded.
    Forward(TransferEndpoint),
    /// The caller may leave a message: the mailbox and the caller's name.
    Voicemail { extension: String, caller_id: String },
    /// The failure is reported and the call has failed.
    Report(u16, Option<String>),
}

impl CallSession {
    /// Where the call is forwarded after its failure.
    pub open spec fn failure_forwarding(self) -> Option<TransferEndpoint> {
        match self.context.dialplan.call_forwarding {
            Some(c) => if (self.busy() && c.mode is WhenBusy) || (!self.busy() && self.unanswered()
                && c.mode is WhenNoAnswer) {
                Some(c.endpoint)
            } else {
                None
            },
            None => None,
        }
    }

    /// Whether `plan` is what follows the failure of the targets: a busy or
    /// unanswered call is forwarded, else may go to voicemail; any other failure is
    /// reported.
    pub open spec fn is_failure_plan(self, plan: FailurePlan) -> bool {
        if self.failure_forwarding() is Some {
            plan == FailurePlan::Forward(self.failure_forwarding()->0)
        } else if (self.busy() || self.unanswered()) && self.context.dialplan.voicemail_enabled {
            plan == (FailurePlan::Voicemail {
                extension: self.context.original_callee,
                caller_id: self.context.original_caller,
            })
        } else {
            match self.last_error {
                Some((code, reason)) => plan == FailurePlan::Report(code, reason),
                None => plan matches FailurePlan::Report(code, reason) && code == 500 && opt_text(
                    reason,
                ) == Some("Unknown error"@),
            }
        }
    }

    /// See [`CallSession::is_failure_plan`].
    pub fn handle_failure(&self) -> (r: FailurePlan)
        ensures
            self.is_failure_plan(r),
    {
        let busy = self.failure_is_busy();
        let unanswered = self.failure_is_no_answer();
        if busy || unanswered {
            if let Some(c) = &self.context.dialplan.call_forwarding {
                let engaged = if busy {
                    matches!(c.mode, CallForwardingMode::WhenBusy)
                } else {
                    matches!(c.mode, CallForwardingMode::WhenNoAnswer)
                };
                if engaged {
                    return FailurePlan::Forward(c.endpoint.copy());
                }
            }
            if self.context.dialplan.voicemail_enabled {
                return FailurePlan::Voicemail {
                    extension: self.context.original_callee.clone(),
                    caller_id: self.context.original_caller.clone(),
                };
            }
        }
        match &self.last_error {
            Some(e) => FailurePlan::Report(e.0, own_opt(&e.1)),
            None => FailurePlan::Report(500, Some(own("Unknown error"))),
        }
    }
}

/// A busy callee's calls are never forwarded as unanswered ones, and a call that
/// was answered is not forwarded as unanswered.
pub proof fn forwarding_fits_the_failure(s: CallSession)
    requires
        s.failure_forwarding() is Some,
    ensures
        s.context.dialplan.call_forwarding is Some,
        s.context.dialplan.call_forwarding->0.mode is WhenBusy <==> s.busy(),
        s.context.dialplan.call_forwarding->0.mode is WhenNoAnswer ==> s.answer_time is None,
{
}

/// How `rsip` writes a response code.
pub uninterp spec fn status_display(code: u16) -> Seq<char>;

/// `rsip::StatusCode::from` and its text: the code and its name.
#[verifier::external_body]
fn status_text(code: u16) -> (r: String)
    ensures
        r@ == status_display(code),
{
    rsip::StatusCode::from(code).to_string()
}

/// Why a call could not be transferred to a URI, from the text of the failure or,
/// without one, of its code.
pub fn transfer_failure(uri: &str, reason: Option<String>, code_text: &str) -> (r: String)
    ensures
        r@ == "forwarding to "@ + uri@ + " failed: "@ + (match reason {
            Some(t) => t@,
            None => code_text@,
        }),
{
    let head = join3("forwarding to ", uri, " failed: ");
    match &reason {
        Some(t) => join2(head.as_str(), t.as_str()),
        None => join2(head.as_str(), code_text),
    }
}

/// Why a call could not be transferred to a URI.
pub fn transfer_error(uri: &str, code: u16, reason: Option<String>) -> (r: String)
    ensures
        r@ == "forwarding to "@ + uri@ + " failed: "@ + (match reason {
            Some(t) => t@,
            None => status_display(code),
        }),
{
    let text = status_text(code);
    transfer_failure(uri, reason, text.as_str())
}

/// The target of a transfer to a URI; `None` where the text is none.
pub fn transfer_location(uri: &str) -> (r: Option<Location>)
    ensures
        match parsed_uri(uri@) {
            Some(u) => r is Some && r->0.aor@ == u && r->0.is_at(r->0.aor),
            None => r is None,
        },
{
    match parse_uri(uri) {
        Some(u) => Some(Location::at(u)),
        None => None,
    }
}

/// Targets are rung in order until one answers: an attempt that fails with a code after
/// which no other is tried ends the call, and so does the failure of the last.
pub proof fn failures_end_the_call(results: Seq<AttemptResult>, retry_codes: Option<Seq<u16>>, k: int)
    requires
        0 <= k <= results.len(),
        forall|i: int|
            0 <= i < k ==> ((#[trigger] results[i]) matches Err((code, _)) && retries_after(
                retry_codes,
                code,
            )),
        k < results.len() ==> (results[k] matches Err((code, _)) && !retries_after(retry_codes, code)),
    ensures
        k < results.len() ==> sequential_outcome(0, results, retry_codes) == Err::<int, DialError>(
            DialError::StoppedByPolicy,
        ),
        k == results.len() ==> sequential_outcome(0, results, retry_codes) == Err::<int, DialError>(
            DialError::AllSequentialFailed,
        ),
{
    failures_end_the_call_from(results, retry_codes, k, 0);
}

proof fn failures_end_the_call_from(
    results: Seq<AttemptResult>,
    retry_codes: Option<Seq<u16>>,
    k: int,
    from: int,
)
    requires
        0 <= from <= k <= results.len(),
        forall|i: int|
            0 <= i < k ==> ((#[trigger] results[i]) matches Err((code, _)) && retries_after(
                retry_codes,
                code,
            )),
        k < results.len() ==> (results[k] matches Err((code, _)) && !retries_after(retry_codes, code)),
    ensures
        k < results.len() ==> sequential_outcome(from, results, retry_codes) == Err::<int, DialError>(
            DialError::StoppedByPolicy,
        ),
        k == results.len() ==> sequential_outcome(from, results, retry_codes) == Err::<
            int,
            DialError,
        >(DialError::AllSequentialFailed),
    decreases k - from,
{
    if from < k {
        assert(results[from] is Err);
        failures_end_the_call_from(results, retry_codes, k, from + 1);
    }
}

/// A step on from a failed target goes to the next one, and only if there is one and
/// the code is one after which it is tried.
pub proof fn next_target_is_tried_after_some_failures(
    index: int,
    targets: int,
    retry_codes: Option<Seq<u16>>,
    result: AttemptResult,
)
    ensures
        sequential_step(index, targets, retry_codes, result) is Connected <==> result is Ok,
        sequential_step(index, targets, retry_codes, result) is TryNext <==> (result matches Err(
            (code, _),
        ) && retries_after(retry_codes, code) && index < targets - 1),
{
}

/// Only the dialogs of other targets are hung up when one is accepted.
pub proof fn accepted_dialog_is_not_hung_up(known: Seq<Option<DialogId>>, accepted: int, i: int)
    requires
        0 <= i < open_dialogs(known, Some(accepted)).len(),
    ensures
        exists|j: int|
            0 <= j < known.len() && j != accepted && (#[trigger] known[j]) == Some(
                open_dialogs(known, Some(accepted))[i],
            ),
    decreases known.len(),
{
    let head = known.drop_last();
    let n = known.len() - 1;
    let rest = open_dialogs(head, Some(accepted));
    if i < rest.len() {
        accepted_dialog_is_not_hung_up(head, accepted, i);
        let j = choose|j: int|
            0 <= j < head.len() && j != accepted && (#[trigger] head[j]) == Some(rest[i]);
        assert(known[j] == head[j]);
    } else {
        assert(known[n] is Some);
    }
}

/// What happens to a target of a call that rings several at once: the first that accepts
/// is taken, with its own dialog and answer; a call fails only when the last of its
/// targets has failed; it is connected with the one that was taken; and a caller who
/// gives up hangs up on all.
pub proof fn targets_are_rung_together(
    dial: ParallelDial,
    session: CallSession,
    event: ParallelEvent,
    step: ParallelStep,
    after: ParallelDial,
    session_after: CallSession,
)
    requires
        dial.handles(session, event, step, after, session_after),
        dial.failures < usize::MAX,
    ensures
        after.accepted == dial.accepted,
        event is Failed ==> after.failures == dial.failures + 1,
        !(event is Failed) ==> after.failures == dial.failures,
        step is Failed <==> event is Failed && dial.accepted is None && dial.failures + 1
            >= dial.known_dialogs@.len(),
        step is Accept <==> event is Accepted && dial.accepted is None,
        (step matches ParallelStep::Accept { idx, dialog_id, callee, sdp } ==> event->Accepted_idx
            == idx && event->Accepted_dialog_id == dialog_id && event->aor == callee
            && event->answer == sdp),
        step is Connected <==> (event matches ParallelEvent::Terminated { idx } && dial.accepted
            == Some(idx)),
        step is Abandon <==> event is Cancelled,
        (event matches ParallelEvent::Calling { idx, dialog_id } ==> idx < dial.known_dialogs@.len()
            ==> after.known_dialogs@.len() == dial.known_dialogs@.len()
            && after.known_dialogs@[idx as int] == Some(dialog_id) && forall|j: int|
            0 <= j < dial.known_dialogs@.len() && j != idx ==> after.known_dialogs@[j]
                == dial.known_dialogs@[j]),
        (event matches ParallelEvent::Early { idx, dialog_id, sdp } ==> match sdp {
            Some(answer) => step matches ParallelStep::EarlyMedia { dialog_id: d, sdp: x } && x == answer,
            None => step is Ring <==> !session.exported_leg.media.early_media_sent,
        }),
        (event matches ParallelEvent::Accepted { caller_uri, callee_uri, contact, destination, .. }
            ==> session_after.routed_caller == Some(caller_uri) && session_after.routed_callee == Some(
            callee_uri,
        ) && session_after.routed_contact == Some(contact) && session_after.routed_destination
            == destination),
        !(event is Accepted) && !(event is Failed) ==> session_after == session,
{
}

/// An INVITE has come to nothing unless its answer has a code from 200 to 299; the
/// failure has the code and reason of the answer.
pub proof fn only_success_connects(response: InviteResponse, failure: Option<(u16, Option<String>)>)
    requires
        is_invite_failure(response, failure),
    ensures
        failure is None <==> (response matches InviteResponse::Answered { code, .. } && 200 <= code <= 299),
        (response matches InviteResponse::Answered { code, reason } ==> (failure matches Some((c, t))
            ==> c == code && t == reason)),
        (response matches InviteResponse::DialogError { reason, code } ==> (failure matches Some((c, t))
            && c == code && t == Some(reason))),
        response is NoResponse ==> (failure matches Some((c, _)) && c == 487),
        response is OtherError ==> (failure matches Some((c, _)) && c == 500),
{
}

/// A callee of the own realm is called where it registered most recently. One that has
/// not registered is offline where the user exists, and not found where it does not.
pub proof fn callee_is_called_where_it_registered(
    lookup: CalleeLookup,
    outcome: Result<Option<SipAddr>, (u16, Option<String>)>,
)
    requires
        is_located(lookup, outcome),
    ensures
        outcome is Ok <==> (lookup.locations matches Ok(found) && found@.len() > 0),
        (outcome matches Ok(d) ==> d == lookup.locations->Ok_0@[0].destination),
        (outcome matches Err((code, reason)) ==> {
            &&& lookup.locations matches Err(e) ==> code == 480 && reason == Some(e)
            &&& lookup.locations is Ok && lookup.user_exists == Ok::<bool, String>(true) ==> code == 480
            &&& lookup.locations is Ok && lookup.user_exists == Ok::<bool, String>(false) ==> code == 404
            &&& lookup.locations is Ok && lookup.user_exists is Err ==> code == 500
        }),
{
}

/// An INVITE goes from the caller of the plan to the target and to nobody else, with the
/// offer as it is; it has a type of content only where it has an offer.
pub proof fn invite_goes_to_its_target(
    session: CallSession,
    o: InviteOption,
    target: Location,
    offer: Option<String>,
    contact: Option<Uri>,
    headers: Seq<HeaderView>,
)
    requires
        session.is_invite_to(o, target, offer, contact, headers),
    ensures
        Some(o.caller) == session.context.dialplan.caller,
        o.callee == target.aor && o.destination == target.destination && o.credential
            == target.credential,
        o.offer == offer,
        o.content_type is Some <==> offer is Some,
        (o.content_type matches Some(t) ==> t@ == "application/sdp"@),
        contact matches Some(c) ==> o.contact == c,
        contact is None ==> o.contact == o.caller,
        (o.headers matches Some(h) && h@.len() == headers.len() && forall|i: int|
            0 <= i < h@.len() ==> (#[trigger] h@[i])@ == headers[i]),
{
    let h = o.headers->0@;
    assert(header_views(h).len() == h.len());
    assert forall|i: int| 0 <= i < h.len() implies (#[trigger] h[i])@ == headers[i] by {
        assert(header_views(h)[i] == h[i]@);
    }
}

/// All headers of an INVITE but its timer stay when it is sent again, in their order.
pub proof fn other_headers_stay_when_sent_again(h: Seq<HeaderView>, secs: u64)
    ensures
        with_interval(h, secs).drop_last() == h.filter(
            |x: HeaderView| !(x is Other && lower(x->Other_0) == lower("Session-Expires"@)),
        ),
        with_interval(h, secs).last() == HeaderView::Other("Session-Expires"@, decimal(secs as nat)),
{
    others_are_filtered(h);
    assert(with_interval(h, secs).drop_last() =~= without_timer(h));
}

proof fn others_are_filtered(h: Seq<HeaderView>)
    ensures
        without_timer(h) == h.filter(
            |x: HeaderView| !(x is Other && lower(x->Other_0) == lower("Session-Expires"@)),
        ),
    decreases h.len(),
{
    reveal(Seq::filter);
    if h.len() > 0 {
        others_are_filtered(h.drop_last());
    }
}

/// An INVITE is sent again only where it was refused with 422 and the refusal names an
/// interval, and then with that interval.
pub proof fn refused_interval_is_the_one_asked_for(code: u16, min_se: Option<String>, n: u64)
    ensures
        code != 422 || min_se is None ==> asked_interval(false, code, min_se) is None,
        (min_se matches Some(t) ==> t@ == decimal(n as nat) ==> asked_interval(false, 422, min_se)
            == Some(n as nat)),
{
    let d = decimal(n as nat);
    written_number_has_digits_only(n as nat);
    written_number_is_read_back(n as nat, u64::MAX as nat);
    first_index_facts(d, ';');
    if d.contains(';') {
        let i = choose|i: int| 0 <= i < d.len() && d[i] == ';';
        assert('0' <= d[i] && d[i] <= '9');
    }
    assert(before(d, ';') =~= d);
}

/// What follows the failure of all targets: a busy callee's call is forwarded where busy
/// calls are, an unanswered one where unanswered calls are; else either goes to the
/// callee's voicemail where there is one; any other failure is reported as it is.
pub proof fn failure_is_handled_by_its_kind(
    s: CallSession,
    plan: FailurePlan,
    code: u16,
    reason: Option<String>,
)
    requires
        s.is_failure_plan(plan),
        s.last_error == Some((code, reason)),
    ensures
        ({
            let is_busy = code == 486 || code == 487 || code == 600 || code == 603;
            let is_unanswered = s.answer_time is None && (code == 408 || code == 480 || code == 504);
            let forward = s.context.dialplan.call_forwarding;
            &&& plan is Forward <==> (forward matches Some(c) && (is_busy && c.mode is WhenBusy
                || is_unanswered && c.mode is WhenNoAnswer))
            &&& plan matches FailurePlan::Forward(e) ==> (forward matches Some(c) && c.endpoint == e)
            &&& plan is Voicemail <==> !(plan is Forward) && (is_busy || is_unanswered)
                && s.context.dialplan.voicemail_enabled
            &&& plan matches FailurePlan::Voicemail { extension, caller_id } ==> extension
                == s.context.original_callee && caller_id == s.context.original_caller
            &&& plan matches FailurePlan::Report(c, t) ==> c == code && t == reason
        }),
{
}

/// The answer of a target sets its timer only where timers are in use; the interval that
/// counts where the answer names none is the one configured, else half an hour.
pub proof fn answer_sets_the_timer_where_in_use(
    s: CallSession,
    headers: Seq<HeaderView>,
    timers: bool,
    session_expires: Option<u64>,
    now: u64,
)
    requires
        s.target_leg is Some,
        forall|k: int|
            0 <= k < headers.len() ==> !((#[trigger] headers[k]) is Other && lower(headers[k]->Other_0)
                == lower("Session-Expires"@)),
    ensures
        !timers ==> s.with_granted_timer(headers, timers, session_expires, now) == s,
        timers ==> (s.with_granted_timer(headers, timers, session_expires, now).target_leg matches Some(l)
            && l.sip.session_timer.active && l.sip.session_timer.last_refresh == now
            && l.sip.session_timer.session_interval == (if session_expires is Some {
            session_expires->0
        } else {
            1800u64
        })),
{
    timer_has_the_default_interval(
        s.target_leg->0.sip.session_timer,
        headers,
        true,
        if session_expires is Some {
            session_expires->0
        } else {
            1800u64
        },
        now,
    );
}

/// An INVITE asks for a timer only where timers are in use.
pub proof fn timer_is_asked_for_where_in_use(timers: bool, session_expires: Option<u64>)
    ensures
        timers ==> timer_header(timers, session_expires) == session_expires,
        !timers ==> timer_header(timers, session_expires) is None,
{
}

/// An INVITE keeps a destination that it has; a callee of another realm is not looked up.
/// The contact that is enforced goes before its own, and nothing else of it changes.
pub proof fn destination_is_kept_or_looked_up(
    option: InviteOption,
    enforced_contact: Option<Uri>,
    same_realm: bool,
    lookup: CalleeLookup,
    r: Result<InviteOption, (u16, Option<String>)>,
)
    requires
        is_completed(option, enforced_contact, same_realm, lookup, r),
    ensures
        option.destination is Some ==> (r matches Ok(o) && o.destination == option.destination),
        !same_realm ==> (r matches Ok(o) && o.destination == option.destination),
        option.destination is None && same_realm ==> (r is Ok <==> (lookup.locations matches Ok(found)
            && found@.len() > 0)),
        option.destination is None && same_realm ==> (r matches Ok(o) ==> o.destination
            == lookup.locations->Ok_0@[0].destination),
        (r matches Ok(o) ==> {
            &&& enforced_contact matches Some(c) ==> o.contact == c
            &&& enforced_contact is None ==> o.contact == option.contact
            &&& o.caller == option.caller && o.callee == option.callee && o.offer == option.offer
                && o.headers == option.headers && o.credential == option.credential
        }),
{
}

/// An INVITE that was refused for its interval is sent once more, with the interval that
/// was asked for and otherwise as it was; a second refusal, and any other response, ends
/// the attempt with what the response says.
pub proof fn refused_invite_is_repeated_once(
    before: InviteAttempt,
    after: InviteAttempt,
    response: InviteResponse,
    min_se: Option<String>,
    r: InviteStep,
)
    requires
        before.responded(after, response, min_se, r),
    ensures
        r is Retry ==> !before.retried && after.retried && (response matches InviteResponse::Answered {
            code,
            ..
        } && code == 422) && min_se is Some,
        r is Retry ==> after.option.callee == before.option.callee && after.option.caller
            == before.option.caller && after.option.offer == before.option.offer
            && after.option.destination == before.option.destination,
        !(r is Retry) ==> after == before,
        r is Connected <==> (response matches InviteResponse::Answered { code, .. } && 200 <= code <= 299),
        (r matches InviteStep::Failed(c, t) ==> (response matches InviteResponse::Answered { code, reason }
            ==> c == code && t == reason)),
        before.retried ==> !(r is Retry),
{
}

} // verus!
