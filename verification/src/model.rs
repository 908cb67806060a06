//! Values shared by the call-handling modules.
use vstd::prelude::*;
use crate::negotiate::CodecType;
use crate::sip::{Credential, SipAddr, Uri};
use crate::text::{opt_text, own, own_opt, same};

verus! {

/// Which way a call runs through the proxy.
#[derive(Clone, Copy, Debug, PartialEq, Eq, Structural)]
pub enum DialDirection {
    Inbound,
    Outbound,
    Internal,
}

/// Why a call ended.
#[derive(Clone, Copy, Debug, PartialEq, Eq, Structural)]
pub enum CallRecordHangupReason {
    ByCaller,
    ByCallee,
    ByRefer,
    BySystem,
    Autohangup,
    NoAnswer,
    Canceled,
    Rejected,
    Failed,
}

impl CallRecordHangupReason {
    /// The name of the reason, as it stands in a failure text.
    pub open spec fn name_text(self) -> Seq<char> {
        match self {
            CallRecordHangupReason::ByCaller => "ByCaller"@,
            CallRecordHangupReason::ByCallee => "ByCallee"@,
            CallRecordHangupReason::ByRefer => "ByRefer"@,
            CallRecordHangupReason::BySystem => "BySystem"@,
            CallRecordHangupReason::Autohangup => "Autohangup"@,
            CallRecordHangupReason::NoAnswer => "NoAnswer"@,
            CallRecordHangupReason::Canceled => "Canceled"@,
            CallRecordHangupReason::Rejected => "Rejected"@,
            CallRecordHangupReason::Failed => "Failed"@,
        }
    }

    /// The name of the reason.
    pub fn name(&self) -> (r: String)
        ensures
            r@ == self.name_text(),
    {
        match self {
            CallRecordHangupReason::ByCaller => own("ByCaller"),
            CallRecordHangupReason::ByCallee => own("ByCallee"),
            CallRecordHangupReason::ByRefer => own("ByRefer"),
            CallRecordHangupReason::BySystem => own("BySystem"),
            CallRecordHangupReason::Autohangup => own("Autohangup"),
            CallRecordHangupReason::NoAnswer => own("NoAnswer"),
            CallRecordHangupReason::Canceled => own("Canceled"),
            CallRecordHangupReason::Rejected => own("Rejected"),
            CallRecordHangupReason::Failed => own("Failed"),
        }
    }

    /// The label of the reason, as it stands in messages to the other party.
    pub open spec fn label_text(self) -> Seq<char> {
        match self {
            CallRecordHangupReason::ByCaller => "caller"@,
            CallRecordHangupReason::ByCallee => "callee"@,
            CallRecordHangupReason::ByRefer => "refer"@,
            CallRecordHangupReason::BySystem => "system"@,
            CallRecordHangupReason::Autohangup => "autohangup"@,
            CallRecordHangupReason::NoAnswer => "noAnswer"@,
            CallRecordHangupReason::Canceled => "canceled"@,
            CallRecordHangupReason::Rejected => "rejected"@,
            CallRecordHangupReason::Failed => "failed"@,
        }
    }

    /// The label of the reason.
    pub fn label(&self) -> (r: String)
        ensures
            r@ == self.label_text(),
    {
        match self {
            CallRecordHangupReason::ByCaller => own("caller"),
            CallRecordHangupReason::ByCallee => own("callee"),
            CallRecordHangupReason::ByRefer => own("refer"),
            CallRecordHangupReason::BySystem => own("system"),
            CallRecordHangupReason::Autohangup => own("autohangup"),
            CallRecordHangupReason::NoAnswer => own("noAnswer"),
            CallRecordHangupReason::Canceled => own("canceled"),
            CallRecordHangupReason::Rejected => own("rejected"),
            CallRecordHangupReason::Failed => own("failed"),
        }
    }
}

/// Which calls have their media relayed by the proxy.
#[derive(Clone, Copy, Debug, PartialEq, Eq, Structural)]
pub enum MediaProxyMode {
    All,
    Auto,
    Nat,
    Disabled,
}

/// What the caller hears while the callee is being alerted.
#[derive(Clone, Copy, Debug, PartialEq, Eq, Structural)]
pub enum RingbackMode {
    Local,
    Passthrough,
    Auto,
    Disabled,
}

/// How a supervisor takes part in another call.
#[derive(Clone, Copy, Debug, PartialEq, Eq, Structural)]
pub enum SupervisorMode {
    Listen,
    Whisper,
    Barge,
}

/// When a call is forwarded.
#[derive(Clone, Copy, Debug, PartialEq, Eq, Structural)]
pub enum CallForwardingMode {
    Always,
    WhenBusy,
    WhenNoAnswer,
}

/// Where a call is transferred to.
#[derive(Clone, Debug)]
pub enum TransferEndpoint {
    Uri(String),
    Queue(String),
}

impl TransferEndpoint {
    /// A copy.
    pub fn copy(&self) -> (r: TransferEndpoint)
        ensures
            r == *self,
    {
        match self {
            TransferEndpoint::Uri(s) => TransferEndpoint::Uri(s.clone()),
            TransferEndpoint::Queue(s) => TransferEndpoint::Queue(s.clone()),
        }
    }
}

/// A forwarding rule of the callee. `timeout` is in seconds.
#[derive(Clone, Debug)]
pub struct CallForwardingConfig {
    pub mode: CallForwardingMode,
    pub endpoint: TransferEndpoint,
    pub timeout: u64,
}

/// A registered binding of an address of record. Times are in milliseconds on
/// the clock that `last_modified` was read from; `expires` is in seconds.
#[derive(Clone, Debug)]
pub struct Location {
    pub aor: Uri,
    pub registered_aor: Option<Uri>,
    pub gruu: Option<String>,
    pub instance_id: Option<String>,
    pub destination: Option<SipAddr>,
    pub expires: u32,
    pub last_modified: Option<u64>,
    pub supports_webrtc: bool,
    pub binding: String,
    pub credential: Option<Credential>,
    pub contact_raw: Option<String>,
}

impl Location {
    /// A copy.
    pub fn copy(&self) -> (r: Location)
        ensures
            r == *self,
    {
        Location {
            aor: self.aor.copy(),
            registered_aor: match &self.registered_aor {
                Some(u) => Some(u.copy()),
                None => None,
            },
            gruu: own_opt(&self.gruu),
            instance_id: own_opt(&self.instance_id),
            destination: match &self.destination {
                Some(d) => Some(d.copy()),
                None => None,
            },
            expires: self.expires,
            last_modified: self.last_modified,
            supports_webrtc: self.supports_webrtc,
            binding: self.binding.clone(),
            credential: match &self.credential {
                Some(c) => Some(c.copy()),
                None => None,
            },
            contact_raw: own_opt(&self.contact_raw),
        }
    }

    /// Whether this is `aor` with nothing else known of it but whether it takes secure
    /// media.
    pub open spec fn is_bare(self, aor: Uri, supports_webrtc: bool) -> bool {
        &&& self.binding@ == Seq::<char>::empty()
        &&& self == (Location {
            aor,
            registered_aor: None,
            gruu: None,
            instance_id: None,
            destination: None,
            expires: 0,
            last_modified: None,
            supports_webrtc,
            binding: self.binding,
            credential: None,
            contact_raw: None,
        })
    }

    /// A target at `aor` of which nothing else is known.
    pub fn bare(aor: Uri, supports_webrtc: bool) -> (r: Location)
        ensures
            r.is_bare(aor, supports_webrtc),
    {
        Location {
            aor,
            registered_aor: None,
            gruu: None,
            instance_id: None,
            destination: None,
            expires: 0,
            last_modified: None,
            supports_webrtc,
            binding: String::new(),
            credential: None,
            contact_raw: None,
        }
    }

    /// Whether this is a target at `aor` that is not a registered binding.
    pub open spec fn is_at(self, aor: Uri) -> bool {
        &&& self.binding@ == Seq::<char>::empty()
        &&& opt_text(self.contact_raw) == Some(aor.text())
        &&& self == (Location {
            aor,
            registered_aor: None,
            gruu: None,
            instance_id: None,
            destination: None,
            expires: 0,
            last_modified: None,
            supports_webrtc: false,
            binding: self.binding,
            credential: None,
            contact_raw: self.contact_raw,
        })
    }

    /// A target at `aor` that is not a registered binding.
    pub fn at(aor: Uri) -> (r: Location)
        ensures
            r.is_at(aor),
    {
        let contact = aor.to_text();
        Location {
            aor,
            registered_aor: None,
            gruu: None,
            instance_id: None,
            destination: None,
            expires: 0,
            last_modified: None,
            supports_webrtc: false,
            binding: String::new(),
            credential: None,
            contact_raw: Some(contact),
        }
    }

    /// Whether the binding has lapsed at `now`: its lifetime has passed since
    /// it was last modified. One that was never modified does not lapse.
    pub open spec fn expired_at(self, now: u64) -> bool {
        match self.last_modified {
            Some(t) => now >= t + self.expires * 1000,
            None => false,
        }
    }

    pub fn is_expired_at(&self, now: u64) -> (r: bool)
        ensures
            r == self.expired_at(now),
    {
        match self.last_modified {
            Some(t) => now as u128 >= t as u128 + self.expires as u128 * 1000,
            None => false,
        }
    }
}

/// In which order the targets of a call are rung.
#[derive(Clone, Debug)]
pub enum DialStrategy {
    Sequential(Vec<Location>),
    Parallel(Vec<Location>),
}

/// The file that a call is recorded into and its format.
#[derive(Clone, Debug)]
pub struct RecorderOption {
    pub recorder_file: String,
    pub samplerate: u32,
    pub ptime: u32,
}

impl RecorderOption {
    /// A copy.
    pub fn copy(&self) -> (r: RecorderOption)
        ensures
            r == *self,
    {
        RecorderOption {
            recorder_file: self.recorder_file.clone(),
            samplerate: self.samplerate,
            ptime: self.ptime,
        }
    }
}

/// The music that a caller hears while waiting in a queue.
#[derive(Clone, Debug)]
pub struct QueueHoldConfig {
    pub audio_file: Option<String>,
    pub loop_playback: bool,
}

/// How a queue rings its members. Durations are in milliseconds.
#[derive(Clone, Debug)]
pub struct QueuePlan {
    pub label: Option<String>,
    pub accept_immediately: bool,
    pub hold: Option<QueueHoldConfig>,
    pub dial_strategy: Option<DialStrategy>,
    pub retry_codes: Option<Vec<u16>>,
    pub no_trying_timeout: Option<u64>,
}

/// The parameters of an application by name.
pub type AppParams = Vec<(String, String)>;

/// The parameter with a name; the first one counts.
pub open spec fn param_named(params: Seq<(String, String)>, name: Seq<char>) -> Option<Seq<char>>
    decreases params.len(),
{
    if params.len() == 0 {
        None
    } else if params[0].0@ == name {
        Some(params[0].1@)
    } else {
        param_named(params.drop_first(), name)
    }
}

/// See [`param_named`].
pub fn find_param(params: &AppParams, name: &str) -> (r: Option<String>)
    ensures
        opt_text(r) == param_named(params@, name@),
{
    let mut i: usize = 0;
    assert(params@.skip(0) =~= params@);
    while i < params.len()
        invariant
            i <= params.len(),
            param_named(params@.skip(i as int), name@) == param_named(params@, name@),
        decreases params.len() - i,
    {
        assert(params@.skip(i as int).drop_first() =~= params@.skip(i + 1));
        if same(params[i].0.as_str(), name) {
            return Some(params[i].1.clone());
        }
        i += 1;
    }
    assert(params@.skip(i as int) =~= Seq::empty());
    None
}

/// What is done with a call.
#[derive(Debug)]
pub enum DialplanFlow {
    Targets(DialStrategy),
    Queue { plan: QueuePlan, next: Box<DialplanFlow> },
    Application { app_name: String, app_params: Option<AppParams>, auto_answer: bool },
}

/// Whether and how a call is recorded.
#[derive(Clone, Debug)]
pub struct RecordingConfig {
    pub enabled: bool,
    pub auto_start: bool,
    pub option: Option<RecorderOption>,
}

/// What a caller hears while the callee is alerted.
#[derive(Clone, Debug)]
pub struct RingbackConfig {
    pub mode: RingbackMode,
    pub audio_file: Option<String>,
    pub loop_playback: bool,
}

/// The plan for a call. Durations are in milliseconds, the ring time in seconds.
#[derive(Debug)]
pub struct Dialplan {
    pub direction: DialDirection,
    pub session_id: Option<String>,
    pub call_id: Option<String>,
    pub caller_display_name: Option<String>,
    pub caller: Option<Uri>,
    pub caller_contact: Option<Uri>,
    pub flow: DialplanFlow,
    pub max_ring_time: u32,
    pub recording: RecordingConfig,
    pub ringback: RingbackConfig,
    pub max_call_duration: Option<u64>,
    pub call_timeout: u64,
    pub call_forwarding: Option<CallForwardingConfig>,
    pub voicemail_enabled: bool,
    pub allow_codecs: Vec<CodecType>,
    pub passthrough_failure: bool,
    pub media_proxy: MediaProxyMode,
    pub enable_sipflow: bool,
}

/// Of parameters with one name the first counts.
pub proof fn first_parameter_counts(params: Seq<(String, String)>, name: Seq<char>, k: int)
    requires
        0 <= k <= params.len(),
        forall|j: int| 0 <= j < k ==> (#[trigger] params[j]).0@ != name,
        k < params.len() ==> params[k].0@ == name,
    ensures
        k < params.len() ==> param_named(params, name) == Some(params[k].1@),
        k == params.len() ==> param_named(params, name) is None,
    decreases k,
{
    if k > 0 {
        let rest = params.drop_first();
        assert(params[0].0@ != name);
        assert forall|j: int| 0 <= j < k - 1 implies (#[trigger] rest[j]).0@ != name by {
            assert(rest[j] == params[j + 1]);
        }
        if k < params.len() {
            assert(rest[k - 1] == params[k]);
        }
        first_parameter_counts(rest, name, k - 1);
    }
}

} // verus!
