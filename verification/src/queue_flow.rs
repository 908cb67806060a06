//! Queues: how the members of a queue are rung and what follows when none of
//! them answers.
use vstd::prelude::*;
use crate::model::{DialStrategy, DialplanFlow, Location, QueuePlan};
use crate::text::{all_digits, chars_of, is_digit, join2, opt_text, own};

verus! {

/// Whether the next target is tried after a failure: always where the plan lists no
/// codes, else if the code is listed.
pub open spec fn retries_after(retry_codes: Option<Seq<u16>>, code: u16) -> bool {
    match retry_codes {
        Some(c) => c.contains(code),
        None => true,
    }
}

/// The codes of an optional list.
pub open spec fn code_list(codes: Option<Vec<u16>>) -> Option<Seq<u16>> {
    match codes {
        Some(c) => Some(c@),
        None => None,
    }
}

/// What a queue does first.
#[derive(Clone, Copy, Debug, PartialEq, Eq, Structural)]
pub enum QueueStart {
    /// There is nobody to ring.
    Fail,
    /// The members are rung at once.
    Dial,
    /// The call is answered first; `hold` says whether music is played then.
    AcceptThenDial { hold: bool },
}

/// What follows when a queue has rung its members.
#[derive(Clone, Copy, Debug, PartialEq, Eq, Structural)]
pub enum QueueEnd {
    Connected,
    /// The plan of the call goes on behind the queue.
    Next,
    /// The call has failed.
    Failure,
}

/// The members that a plan rings.
pub open spec fn plan_targets(plan: QueuePlan) -> Seq<Location> {
    match plan.dial_strategy {
        Some(DialStrategy::Sequential(t)) => t@,
        Some(DialStrategy::Parallel(t)) => t@,
        None => Seq::empty(),
    }
}

/// The music that a queue plays: the file and whether it is repeated.
pub open spec fn hold_music(plan: QueuePlan) -> Option<(String, bool)> {
    match plan.hold {
        Some(h) => match h.audio_file {
            Some(f) => Some((f, h.loop_playback)),
            None => None,
        },
        None => None,
    }
}

/// The queue that a transfer names: a name of digits is one of the database.
pub open spec fn queue_ref(name: Seq<char>) -> Seq<char> {
    if all_digits(name) {
        "db-"@ + name
    } else {
        name
    }
}

/// The handling of queues.
pub struct QueueFlow;

impl QueueFlow {
    /// See [`retries_after`].
    pub fn should_retry_code(retry_codes: Option<&Vec<u16>>, code: u16) -> (r: bool)
        ensures
            r == retries_after(
                match retry_codes {
                    Some(c) => Some(c@),
                    None => None,
                },
                code,
            ),
    {
        match retry_codes {
            Some(codes) => {
                let mut i: usize = 0;
                while i < codes.len()
                    invariant
                        i <= codes.len(),
                        retry_codes == Some(codes),
                        forall|k: int| 0 <= k < i ==> codes@[k] != code,
                    decreases codes.len() - i,
                {
                    if codes[i] == code {
                        assert(codes@[i as int] == code);
                        return true;
                    }
                    i += 1;
                }
                false
            },
            None => true,
        }
    }

    /// What a queue does first: without members it fails.
    pub fn start(plan: &QueuePlan) -> (r: QueueStart)
        ensures
            r == (if plan_targets(*plan).len() == 0 {
                QueueStart::Fail
            } else if plan.accept_immediately {
                QueueStart::AcceptThenDial { hold: plan.hold is Some }
            } else {
                QueueStart::Dial
            }),
    {
        let empty = match &plan.dial_strategy {
            Some(DialStrategy::Sequential(t)) => t.len() == 0,
            Some(DialStrategy::Parallel(t)) => t.len() == 0,
            None => true,
        };
        if empty {
            QueueStart::Fail
        } else if plan.accept_immediately {
            QueueStart::AcceptThenDial { hold: plan.hold.is_some() }
        } else {
            QueueStart::Dial
        }
    }

    /// The music that is started once the call is answered for the queue.
    pub fn start_hold(plan: &QueuePlan) -> (r: Option<(String, bool)>)
        ensures
            r == hold_music(*plan),
    {
        match &plan.hold {
            Some(h) => match &h.audio_file {
                Some(f) => Some((f.clone(), h.loop_playback)),
                None => None,
            },
            None => None,
        }
    }

    /// What follows when a queue could not connect the call: the flow behind it,
    /// where there is one.
    pub fn handle_queue_failure(has_next: bool) -> (r: QueueEnd)
        ensures
            r == (if has_next {
                QueueEnd::Next
            } else {
                QueueEnd::Failure
            }),
    {
        if has_next {
            QueueEnd::Next
        } else {
            QueueEnd::Failure
        }
    }

    /// What follows when the members have been rung. The second value says whether
    /// the music of the queue is stopped first.
    pub fn finish(plan: &QueuePlan, connected: bool, has_next: bool) -> (r: (QueueEnd, bool))
        ensures
            r.0 == (if connected {
                QueueEnd::Connected
            } else if has_next {
                QueueEnd::Next
            } else {
                QueueEnd::Failure
            }),
            r.1 == (plan.accept_immediately && plan.hold is Some),
    {
        let stop_hold = plan.accept_immediately && plan.hold.is_some();
        let end = if connected {
            QueueEnd::Connected
        } else {
            Self::handle_queue_failure(has_next)
        };
        (end, stop_hold)
    }

    /// How long one attempt may take before it counts as failed.
    pub fn attempt_timeout(flow: &DialplanFlow) -> (r: Option<u64>)
        ensures
            r == (match *flow {
                DialplanFlow::Queue { plan, .. } => plan.no_trying_timeout,
                _ => None,
            }),
    {
        match flow {
            DialplanFlow::Queue { plan, .. } => plan.no_trying_timeout,
            _ => None,
        }
    }

    /// The failure of an attempt that took too long.
    pub fn timed_out() -> (r: (u16, Option<String>))
        ensures
            r.0 == 408,
            opt_text(r.1) == Some("No-trying timeout"@),
    {
        (408, Some(own("No-trying timeout")))
    }

    /// Under which name the queue of a transfer is looked up, see [`queue_ref`].
    pub fn lookup_ref(name: &str) -> (r: String)
        ensures
            r@ == queue_ref(name@),
    {
        let v = chars_of(name);
        let mut digits = true;
        let mut i: usize = 0;
        while i < v.len()
            invariant
                i <= v.len(),
                v@ == name@,
                digits == forall|k: int| 0 <= k < i ==> is_digit(#[trigger] name@[k]),
            decreases v.len() - i,
        {
            if !(v[i] >= '0' && v[i] <= '9') {
                assert(!is_digit(name@[i as int]));
                digits = false;
            }
            i += 1;
        }
        if digits {
            join2("db-", name)
        } else {
            own(name)
        }
    }

    /// The plan of a queue that a call is transferred to: it is named after the
    /// transfer where it has no label of its own.
    pub fn labelled(plan: QueuePlan, name: &str) -> (r: QueuePlan)
        ensures
            opt_text(r.label) == (match plan.label {
                Some(l) => Some(l@),
                None => Some(name@),
            }),
            r == (QueuePlan { label: r.label, ..plan }),
    {
        let mut plan = plan;
        if plan.label.is_none() {
            plan.label = Some(own(name));
        }
        plan
    }
}

/// The next target is tried after every failure where no codes are listed, else after
/// those alone.
pub proof fn listed_codes_allow_another_try(codes: Seq<u16>, code: u16)
    ensures
        retries_after(None, code),
        retries_after(Some(codes), code) <==> exists|i: int| 0 <= i < codes.len() && codes[i] == code,
{
}

/// A queue that is named by a number is looked up in the database; any other by its name.
pub proof fn numbers_name_queues_of_the_database(name: Seq<char>)
    ensures
        (forall|i: int| 0 <= i < name.len() ==> '0' <= #[trigger] name[i] && name[i] <= '9') ==> queue_ref(
            name,
        ) == "db-"@ + name,
        (exists|i: int| 0 <= i < name.len() && !('0' <= #[trigger] name[i] && name[i] <= '9'))
            ==> queue_ref(name) == name,
{
    if exists|i: int| 0 <= i < name.len() && !('0' <= #[trigger] name[i] && name[i] <= '9') {
        let i = choose|i: int| 0 <= i < name.len() && !('0' <= #[trigger] name[i] && name[i] <= '9');
        assert(!is_digit(name[i]));
    }
}

/// A queue rings the members of its strategy, in their order, and plays its own music.
pub proof fn queue_rings_its_members(plan: QueuePlan)
    ensures
        plan.dial_strategy matches Some(DialStrategy::Sequential(t)) ==> plan_targets(plan) == t@,
        plan.dial_strategy matches Some(DialStrategy::Parallel(t)) ==> plan_targets(plan) == t@,
        plan.dial_strategy is None ==> plan_targets(plan).len() == 0,
        plan.hold is None ==> hold_music(plan) is None,
        plan.hold matches Some(h) ==> (h.audio_file matches Some(f) ==> (hold_music(plan) matches Some(
            (file, looped),
        ) && file == f && looped == h.loop_playback)),
        plan.hold matches Some(h) ==> h.audio_file is None ==> hold_music(plan) is None,
{
}

} // verus!
