//! Calls that are proxied from an inbound dialog to a target: how they are admitted
//! and set up. Moments are in milliseconds.
use vstd::prelude::*;
use crate::call_leg::CallLeg;
use crate::model::{MediaProxyMode, RecorderOption, RecordingConfig, TransferEndpoint};
use crate::negotiate::{parse_media, parsed_media};
use crate::queue_flow::{QueueFlow, queue_ref};
use crate::session::{CallSession, is_new_session, is_registered, media_is_proxied};
use crate::sip::{Header, InviteOption, Uri};
use crate::sip_leg::{ServerDialog, SipLeg, names_trickle_ice};
use crate::state::{CallContext, CallSessionShared};
use crate::target_runtime::{CalleeLookup, is_located, locate_callee};
use crate::text::{opt_text, trim, trimmed};

verus! {

/// Whether a call is taken on.
#[derive(Clone, Copy, Debug, PartialEq, Eq, Structural)]
pub enum Admission {
    /// The request brings no session description.
    MissingDescription,
    /// The session description cannot be read.
    MalformedDescription,
    Admitted,
}

impl Admission {
    /// The code that a call is refused with.
    pub fn refusal(&self) -> (r: Option<u16>)
        ensures
            r == (match *self {
                Admission::MissingDescription => Some(488u16),
                Admission::MalformedDescription => Some(400u16),
                Admission::Admitted => None,
            }),
    {
        match self {
            Admission::MissingDescription => Some(488),
            Admission::MalformedDescription => Some(400),
            Admission::Admitted => None,
        }
    }
}

/// Whether a call is admitted with a body, which can be read as a description or not.
pub open spec fn admitted_with(body: Seq<char>, readable: bool) -> Admission {
    if body.len() == 0 {
        Admission::MissingDescription
    } else if trimmed(body).len() > 0 && !readable {
        Admission::MalformedDescription
    } else {
        Admission::Admitted
    }
}

/// Whether a call with this body is taken on, if `readable` says whether the body
/// can be read as a description. A body of white space is let pass.
pub fn admission_of(body: &str, readable: bool) -> (r: Admission)
    ensures
        r == admitted_with(body@, readable),
{
    if body.is_empty() {
        return Admission::MissingDescription;
    }
    let t = trim(body);
    if !t.as_str().is_empty() && !readable {
        Admission::MalformedDescription
    } else {
        Admission::Admitted
    }
}

/// Whether a call with this body is taken on.
pub fn admission(body: &str) -> (r: Admission)
    ensures
        r == admitted_with(body@, parsed_media(body@) is Some),
{
    let readable = parse_media(body).is_some();
    admission_of(body, readable)
}

/// The recorder that a call begins with: that of its plan, where the call is
/// recorded from the start and its media is not stored elsewhere.
pub fn initial_recorder(recording: &RecordingConfig, stored_elsewhere: bool) -> (r: Option<RecorderOption>)
    ensures
        r == (if recording.enabled && recording.auto_start && !stored_elsewhere {
            recording.option
        } else {
            None
        }),
{
    if recording.enabled && recording.auto_start && !stored_elsewhere {
        match &recording.option {
            Some(o) => Some(o.copy()),
            None => None,
        }
    } else {
        None
    }
}

/// The session of an admitted call. `first_target` is the address of the first
/// target, and `headers` are those of the request.
pub fn proxy_session(
    context: CallContext,
    server_dialog: ServerDialog,
    offer_sdp: String,
    headers: &Vec<Header>,
    mode: MediaProxyMode,
    all_webrtc_target: bool,
    stored_elsewhere: bool,
    first_target: Option<String>,
    now: u64,
) -> (r: CallSession)
    ensures
        is_new_session(
            (CallSession {
                exported_leg: CallLeg {
                    sip: SipLeg { supports_trickle_ice: false, ..r.exported_leg.sip },
                    ..r.exported_leg
                },
                ..r
            }),
            context,
            Some(server_dialog),
            Some(offer_sdp),
            media_is_proxied(
                context.dialplan.recording.enabled,
                offer_sdp@,
                mode,
                all_webrtc_target,
            ),
            if context.dialplan.recording.enabled && context.dialplan.recording.auto_start
                && !stored_elsewhere {
                context.dialplan.recording.option
            } else {
                None
            },
            now,
        ),
        r.exported_leg.sip.supports_trickle_ice == exists|i: int|
            0 <= i < headers.len() && names_trickle_ice((#[trigger] headers@[i])@),
        r.shared.has_begun(
            context.session_id,
            context.dialplan.direction,
            r.shared.inner.caller,
            first_target,
            now,
        ),
        opt_text(r.shared.inner.caller) == (match context.dialplan.caller {
            Some(u) => Some(u.text()),
            None => None,
        }),
        is_registered(r),
{
    let use_media_proxy = CallSession::check_media_proxy(
        context.dialplan.recording.enabled,
        offer_sdp.as_str(),
        mode,
        all_webrtc_target,
    );
    let recorder_option = initial_recorder(&context.dialplan.recording, stored_elsewhere);
    let caller = match &context.dialplan.caller {
        Some(u) => Some(u.to_text()),
        None => None,
    };
    let shared = CallSessionShared::new(
        context.session_id.clone(),
        context.dialplan.direction,
        caller,
        first_target,
        now,
    );
    let mut session = CallSession::new(
        context,
        Some(server_dialog),
        Some(offer_sdp),
        use_media_proxy,
        recorder_option,
        shared,
        now,
    );
    session.exported_leg.sip.supports_trickle_ice = SipLeg::has_trickle_ice_support(headers);
    session.register_active_call();
    session
}

/// The milliseconds that a cancelled call is given to be torn down.
pub const TEARDOWN_MS: u64 = 2000;

/// The seconds that a call may ring, within bounds.
pub open spec fn ring_limit(max_ring_time: u32) -> u64 {
    if max_ring_time < 30 {
        30
    } else if max_ring_time > 120 {
        120
    } else {
        max_ring_time as u64
    }
}

/// The wait for a call to be set up.
#[derive(Clone, Copy, Debug)]
pub struct SetupWait {
    pub cancelled: bool,
    pub deadline: u64,
}

impl SetupWait {
    /// Waits as long as the call may ring: between half a minute and two.
    pub fn new(max_ring_time: u32, now: u64) -> (r: SetupWait)
        requires
            now + 120_000 <= u64::MAX,
        ensures
            !r.cancelled,
            r.deadline == now + ring_limit(max_ring_time) * 1000,
    {
        let secs: u64 = if max_ring_time < 30 {
            30
        } else if max_ring_time > 120 {
            120
        } else {
            max_ring_time as u64
        };
        SetupWait { cancelled: false, deadline: now + secs * 1000 }
    }

    /// Notes that the call is cancelled: the first time, the wait is cut to that for
    /// the teardown.
    pub fn on_cancelled(&mut self, now: u64)
        requires
            now + TEARDOWN_MS <= u64::MAX,
        ensures
            *final(self) == (if old(self).cancelled {
                *old(self)
            } else {
                SetupWait { cancelled: true, deadline: (now + TEARDOWN_MS) as u64 }
            }),
    {
        if !self.cancelled {
            self.cancelled = true;
            self.deadline = now + TEARDOWN_MS;
        }
    }

    /// Whether the wait is over, so that the call is cancelled.
    pub fn is_over(&self, now: u64) -> (r: bool)
        ensures
            r == (now >= self.deadline),
    {
        now >= self.deadline
    }
}

/// Checks that the callee of a routed INVITE can be reached, before the INVITE is
/// built anew and sent: a callee of the own realm has to be registered, whatever the
/// destination of the INVITE.
pub fn check_callee(
    option: InviteOption,
    enforced_contact: Option<Uri>,
    same_realm: bool,
    lookup: CalleeLookup,
) -> (r: Result<InviteOption, (u16, Option<String>)>)
    ensures
        ({
            let contact = match enforced_contact {
                Some(c) => c,
                None => option.contact,
            };
            &&& !same_realm ==> r == Ok::<InviteOption, (u16, Option<String>)>(
                InviteOption { contact, ..option },
            )
            &&& same_realm ==> match r {
                Ok(o) => is_located(lookup, Ok(o.destination)) && o == (InviteOption {
                    contact,
                    destination: o.destination,
                    ..option
                }),
                Err(e) => is_located(lookup, Err(e)),
            }
        }),
{
    let mut option = option;
    if let Some(c) = enforced_contact {
        option.contact = c;
    }
    if same_realm {
        match locate_callee(lookup) {
            Ok(d) => {
                option.destination = d;
            },
            Err(e) => return Err(e),
        }
    }
    Ok(option)
}

/// Where a call is transferred to.
#[derive(Clone, Debug)]
pub enum TransferPlan {
    ToUri(String),
    /// The queue is looked up under this name; it is labelled with the other.
    ToQueue { lookup: String, name: String },
    /// Queues take no calls of sessions that take no commands.
    QueueUnsupported,
}

/// What a transfer to an endpoint does. `takes_commands` says whether the session
/// takes commands meanwhile.
pub fn transfer_to_endpoint(endpoint: TransferEndpoint, takes_commands: bool) -> (r: TransferPlan)
    ensures
        match endpoint {
            TransferEndpoint::Uri(u) => r == TransferPlan::ToUri(u),
            TransferEndpoint::Queue(n) => if takes_commands {
                r matches TransferPlan::ToQueue { lookup, name } && lookup@ == queue_ref(n@) && name
                    == n
            } else {
                r is QueueUnsupported
            },
        },
{
    match endpoint {
        TransferEndpoint::Uri(u) => TransferPlan::ToUri(u),
        TransferEndpoint::Queue(n) => if takes_commands {
            TransferPlan::ToQueue { lookup: QueueFlow::lookup_ref(n.as_str()), name: n }
        } else {
            TransferPlan::QueueUnsupported
        },
    }
}

/// A call waits to be set up for between half a minute and two.
pub proof fn setup_wait_is_bounded(w: SetupWait, max_ring_time: u32, start: u64)
    requires
        w.deadline == start + ring_limit(max_ring_time) * 1000,
    ensures
        start + 30_000 <= w.deadline <= start + 120_000,
{
}

/// A call may ring for as long as its plan says, but for at least half a minute and for
/// no more than two minutes.
pub proof fn ring_time_is_that_of_the_plan(max_ring_time: u32)
    ensures
        30 <= ring_limit(max_ring_time) <= 120,
        30 <= max_ring_time <= 120 ==> ring_limit(max_ring_time) == max_ring_time,
        max_ring_time < 30 ==> ring_limit(max_ring_time) == 30,
        max_ring_time > 120 ==> ring_limit(max_ring_time) == 120,
{
}

/// A call without any body is refused as one without a description, one whose body cannot
/// be read as malformed; any other, and one with a blank body, is admitted.
pub proof fn calls_need_a_readable_body(body: Seq<char>, readable: bool)
    ensures
        admitted_with(body, readable) is MissingDescription <==> body.len() == 0,
        body.len() > 0 && readable ==> admitted_with(body, readable) is Admitted,
        body.len() > 0 && !readable ==> (admitted_with(body, readable) is MalformedDescription
            <==> trimmed(body).len() > 0),
        admitted_with(body, readable) is Admitted ==> body.len() > 0,
{
}

} // verus!
