//! Carrying out the plan of a call.
use vstd::prelude::*;
use crate::model::{AppParams, DialStrategy, DialplanFlow, QueuePlan, TransferEndpoint};
use crate::session::CallSession;
use crate::state::ProxyCallPhase;
use crate::text::{opt_text, own};

verus! {

/// Whether the failure of a flow is handled or handed back.
#[derive(Clone, Copy, Debug, PartialEq, Eq, Structural)]
pub enum FlowFailureHandling {
    Handle,
    Propagate,
}

/// What the plan of a call begins with.
#[derive(Debug)]
pub enum DialplanStart {
    /// There is nothing to do: the call has failed.
    Failed,
    /// The call is forwarded before anything is rung.
    Forward(TransferEndpoint),
    Run,
}

/// How a flow is carried out.
#[derive(Debug)]
pub enum FlowPlan<'a> {
    /// The targets are rung; `handle` says whether their failure is handled.
    Targets { strategy: &'a DialStrategy, handle: bool },
    Queue { plan: &'a QueuePlan, next: &'a DialplanFlow },
    Application { app_name: &'a String, app_params: &'a Option<AppParams>, auto_answer: bool },
}

/// How ringing the targets ended.
#[derive(Clone, Copy, Debug, PartialEq, Eq, Structural)]
pub enum TargetsOutcome {
    Connected,
    Failed,
    /// They were rung for as long as the forwarding of the call allows.
    TimedOut,
}

/// What follows when the targets have been rung.
#[derive(Clone, Copy, Debug, PartialEq, Eq, Structural)]
pub enum TargetsEnd {
    Done,
    /// The failure is handled, see [`CallSession::handle_failure`].
    HandleFailure,
    TimeoutElapsed,
}

impl CallSession {
    /// The shared state once the call has entered a phase, where it may.
    pub open spec fn entered(self, after: CallSession, phase: ProxyCallPhase) -> bool {
        &&& if self.shared.inner.phase.successors().contains(phase) {
            self.shared.becomes(self.shared.inner.in_phase(phase), after.shared)
        } else {
            after.shared == self.shared
        }
        &&& after == (CallSession { shared: after.shared, ..self })
    }

    /// Takes up the plan of the call: the call enters the routing phase. The commands
    /// that wait are carried out next.
    pub fn enter_routing(&mut self)
        ensures
            old(self).entered(*final(self), ProxyCallPhase::Routing),
    {
        let _moved = self.shared.transition_to_routing();
    }

    /// How the plan of a call begins.
    pub open spec fn begins(
        self,
        after: CallSession,
        is_empty: bool,
        r: DialplanStart,
    ) -> bool {
        &&& (is_empty ==> {
            &&& r is Failed
            &&& opt_text(after.error_text()) == Some("No targets in dialplan"@)
            &&& self.failed(after, 500, after.error_text(), None)
        })
        &&& (!is_empty ==> {
            &&& after == self
            &&& match self.context.dialplan.call_forwarding {
                Some(c) => if c.mode is Always {
                    r == DialplanStart::Forward(c.endpoint)
                } else {
                    r is Run
                },
                None => r is Run,
            }
        })
    }

    /// Begins to carry out the plan of the call, which `is_empty` says to have no
    /// targets: the call fails without targets, and is forwarded where every call is.
    pub fn begin_dialplan(&mut self, is_empty: bool) -> (r: DialplanStart)
        ensures
            old(self).begins(*final(self), is_empty, r),
    {
        if is_empty {
            self.set_error(500, Some(own("No targets in dialplan")), None);
            return DialplanStart::Failed;
        }
        match self.immediate_forwarding_config() {
            Some(c) => DialplanStart::Forward(c.endpoint.copy()),
            None => DialplanStart::Run,
        }
    }

    /// Begins to ring the targets: the call enters the dialing phase.
    pub fn begin_targets(&mut self)
        ensures
            old(self).entered(*final(self), ProxyCallPhase::Dialing),
    {
        let _moved = self.shared.transition_to_dialing();
    }

    /// Begins an application on the call: the call enters the application phase.
    pub fn begin_application(&mut self)
        ensures
            old(self).entered(*final(self), ProxyCallPhase::App),
    {
        let _moved = self.shared.transition_to_app();
    }

    /// What follows when the targets have been rung. A timeout is noted as a failure.
    pub fn finish_targets(&mut self, outcome: TargetsOutcome) -> (r: TargetsEnd)
        ensures
            match outcome {
                TargetsOutcome::Connected => r is Done && *final(self) == *old(self),
                TargetsOutcome::Failed => r is HandleFailure && *final(self) == *old(self),
                TargetsOutcome::TimedOut => {
                    &&& r is TimeoutElapsed
                    &&& opt_text(final(self).error_text()) == Some(
                        "Call forwarding timeout elapsed"@,
                    )
                    &&& old(self).failed(*final(self), 408, final(self).error_text(), None)
                },
            },
    {
        match outcome {
            TargetsOutcome::Connected => TargetsEnd::Done,
            TargetsOutcome::Failed => TargetsEnd::HandleFailure,
            TargetsOutcome::TimedOut => {
                self.set_error(408, Some(own("Call forwarding timeout elapsed")), None);
                TargetsEnd::TimeoutElapsed
            },
        }
    }
}

/// How a flow is carried out.
pub fn plan_flow(flow: &DialplanFlow, handling: FlowFailureHandling) -> (r: FlowPlan<'_>)
    ensures
        match *flow {
            DialplanFlow::Targets(s) => r matches FlowPlan::Targets { strategy, handle } && *strategy
                == s && handle == (handling is Handle),
            DialplanFlow::Queue { plan, next } => r matches FlowPlan::Queue { plan: p, next: n } && *p
                == plan && *n == *next,
            DialplanFlow::Application { app_name, app_params, auto_answer } => r
                matches FlowPlan::Application { app_name: n, app_params: p, auto_answer: a } && *n
                == app_name && *p == app_params && a == auto_answer,
        },
{
    match flow {
        DialplanFlow::Targets(strategy) => FlowPlan::Targets {
            strategy,
            handle: handling == FlowFailureHandling::Handle,
        },
        DialplanFlow::Queue { plan, next } => FlowPlan::Queue { plan, next },
        DialplanFlow::Application { app_name, app_params, auto_answer } => FlowPlan::Application {
            app_name,
            app_params,
            auto_answer: *auto_answer,
        },
    }
}

/// A call enters a phase exactly where that phase follows its own; else nothing changes.
pub proof fn phase_is_entered_where_it_follows(before: CallSession, after: CallSession, phase: ProxyCallPhase)
    requires
        before.entered(after, phase),
    ensures
        before.shared.inner.phase.successors().contains(phase) ==> after.shared.inner.phase == phase,
        !before.shared.inner.phase.successors().contains(phase) ==> after == before,
        after.exported_leg == before.exported_leg && after.target_leg == before.target_leg
            && after.last_error == before.last_error,
        after.shared.inner.answer_time == before.shared.inner.answer_time,
{
}

/// A plan without targets fails with 500. Any other runs, unless all calls of the callee
/// are forwarded: then it goes where they are forwarded to.
pub proof fn plan_begins_with_its_forwarding(before: CallSession, after: CallSession, is_empty: bool, r: DialplanStart)
    requires
        before.begins(after, is_empty, r),
    ensures
        r is Failed <==> is_empty,
        is_empty ==> (after.last_error matches Some((code, _)) && code == 500),
        !is_empty ==> after == before,
        r is Forward <==> !is_empty && (before.context.dialplan.call_forwarding matches Some(c)
            && c.mode is Always),
        (r matches DialplanStart::Forward(e) ==> (before.context.dialplan.call_forwarding matches Some(c)
            && c.endpoint == e)),
{
}

} // verus!
