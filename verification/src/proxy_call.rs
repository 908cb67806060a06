//! Beginning a proxied call from its plan.
use vstd::prelude::*;
use crate::media_endpoint::MediaConfig;
use crate::model::{CallRecordHangupReason, Dialplan};
use crate::session::{CallSessionRecordSnapshot, SessionHangupMessage, random_uuid};
use crate::sip::Uri;
use crate::sip_leg::DialogId;
use crate::state::{CallContext, SessionKind};
use crate::text::opt_text;

verus! {

/// What is read from the headers of the request that begins a call: the addresses of
/// its parties, where they can be read, and the values of the headers that name them.
#[derive(Clone, Debug)]
pub struct RequestParties {
    pub from_uri: Option<Uri>,
    pub to_uri: Option<Uri>,
    pub from_value: Option<String>,
    pub to_value: Option<String>,
}

/// What a call is begun with. The handles stand for what reports the call, what
/// cancels it, and the applications that it may be given to.
#[derive(Debug)]
pub struct CallSessionBuilder {
    pub dialplan: Dialplan,
    pub cookie_max_duration: Option<u64>,
    pub max_forwards: u32,
    pub cancel_token: Option<u64>,
    pub call_record_sender: Option<u64>,
    pub addon_registry: Option<u64>,
}

/// The text of an address, else another, else nothing.
pub open spec fn party_text(uri: Option<Uri>, other: Option<Seq<char>>) -> Seq<char> {
    match uri {
        Some(u) => u.text(),
        None => match other {
            Some(t) => t,
            None => Seq::empty(),
        },
    }
}

fn party(uri: &Option<Uri>, other: Option<String>) -> (r: String)
    ensures
        r@ == party_text(*uri, opt_text(other)),
{
    match uri {
        Some(u) => u.to_text(),
        None => match other {
            Some(t) => t,
            None => String::new(),
        },
    }
}

/// A text, or nothing.
pub open spec fn text_or_empty(t: Option<String>) -> Seq<char> {
    match t {
        Some(s) => s@,
        None => Seq::empty(),
    }
}

fn or_empty(t: Option<String>) -> (r: String)
    ensures
        r@ == text_or_empty(t),
{
    match t {
        Some(s) => s,
        None => String::new(),
    }
}

impl CallSessionBuilder {
    /// A call with this plan.
    pub fn new(dialplan: Dialplan, cookie_max_duration: Option<u64>, max_forwards: u32) -> (r:
        CallSessionBuilder)
        ensures
            r == (CallSessionBuilder {
                dialplan,
                cookie_max_duration,
                max_forwards,
                cancel_token: None,
                call_record_sender: None,
                addon_registry: None,
            }),
    {
        CallSessionBuilder {
            dialplan,
            cookie_max_duration,
            max_forwards,
            cancel_token: None,
            call_record_sender: None,
            addon_registry: None,
        }
    }

    /// Sets what cancels the call.
    pub fn with_cancel_token(self, token: u64) -> (r: CallSessionBuilder)
        ensures
            r == (CallSessionBuilder { cancel_token: Some(token), ..self }),
    {
        let mut b = self;
        b.cancel_token = Some(token);
        b
    }

    /// Sets what reports the call.
    pub fn with_call_record_sender(self, sender: Option<u64>) -> (r: CallSessionBuilder)
        ensures
            r == (CallSessionBuilder { call_record_sender: sender, ..self }),
    {
        let mut b = self;
        b.call_record_sender = sender;
        b
    }

    /// Sets the applications that the call may be given to.
    pub fn with_addon_registry(self, registry: Option<u64>) -> (r: CallSessionBuilder)
        ensures
            r == (CallSessionBuilder { addon_registry: registry, ..self }),
    {
        let mut b = self;
        b.addon_registry = registry;
        b
    }

    fn context(self, original_caller: String, original_callee: String, media_config: MediaConfig, now: u64) -> (r:
        CallContext)
        ensures
            self.dialplan.session_id matches Some(s) ==> r.session_id == s,
            self.dialplan.session_id is None ==> r.session_id@.len() == 36,
            r == (CallContext {
                session_id: r.session_id,
                kind: SessionKind::Proxy,
                dialplan: self.dialplan,
                cookie_max_duration: self.cookie_max_duration,
                start_time: now,
                media_config,
                original_caller,
                original_callee,
                max_forwards: self.max_forwards,
            }),
    {
        let session_id = match &self.dialplan.session_id {
            Some(s) => s.clone(),
            None => random_uuid(),
        };
        CallContext {
            session_id,
            kind: SessionKind::Proxy,
            dialplan: self.dialplan,
            cookie_max_duration: self.cookie_max_duration,
            start_time: now,
            media_config,
            original_caller,
            original_callee,
            max_forwards: self.max_forwards,
        }
    }

    /// What the call is about. The session is named as the plan says, else at random;
    /// the parties are those of the request, else the caller and the first target of
    /// the plan.
    pub fn build_context(
        self,
        parties: &RequestParties,
        first_target: Option<String>,
        media_config: MediaConfig,
        now: u64,
    ) -> (r: CallContext)
        ensures
            self.dialplan.session_id matches Some(s) ==> r.session_id == s,
            self.dialplan.session_id is None ==> r.session_id@.len() == 36,
            r == (CallContext {
                session_id: r.session_id,
                kind: SessionKind::Proxy,
                dialplan: self.dialplan,
                cookie_max_duration: self.cookie_max_duration,
                start_time: now,
                media_config,
                original_caller: r.original_caller,
                original_callee: r.original_callee,
                max_forwards: self.max_forwards,
            }),
            r.original_caller@ == party_text(
                parties.from_uri,
                match self.dialplan.caller {
                    Some(c) => Some(c.text()),
                    None => None,
                },
            ),
            r.original_callee@ == party_text(parties.to_uri, opt_text(first_target)),
    {
        let planned_caller = match &self.dialplan.caller {
            Some(c) => Some(c.to_text()),
            None => None,
        };
        let original_caller = party(&parties.from_uri, planned_caller);
        let original_callee = party(&parties.to_uri, first_target);
        self.context(original_caller, original_callee, media_config, now)
    }

    /// The record of a call that failed before its session began, and what the call
    /// was about. `server_dialog_id` is the dialog of the request, where it has one.
    pub fn report_failure(
        self,
        parties: RequestParties,
        code: u16,
        reason: Option<String>,
        server_dialog_id: Option<DialogId>,
        media_config: MediaConfig,
        now: u64,
    ) -> (r: (CallContext, CallSessionRecordSnapshot))
        ensures
            self.dialplan.session_id matches Some(s) ==> r.0.session_id == s,
            self.dialplan.session_id is None ==> r.0.session_id@.len() == 36,
            r.0 == (CallContext {
                session_id: r.0.session_id,
                kind: SessionKind::Proxy,
                dialplan: self.dialplan,
                cookie_max_duration: self.cookie_max_duration,
                start_time: now,
                media_config,
                original_caller: r.0.original_caller,
                original_callee: r.0.original_callee,
                max_forwards: self.max_forwards,
            }),
            r.0.original_caller@ == text_or_empty(parties.from_value),
            r.0.original_callee@ == text_or_empty(parties.to_value),
            r.1.hangup_messages@ == Seq::<SessionHangupMessage>::empty(),
            r.1.target_dialogs@ == Seq::<DialogId>::empty(),
            r.1 == (CallSessionRecordSnapshot {
                ring_time: None,
                answer_time: None,
                last_error: Some((code, reason)),
                hangup_reason: Some(CallRecordHangupReason::Failed),
                hangup_messages: r.1.hangup_messages,
                original_caller: Some(r.0.original_caller),
                original_callee: Some(r.0.original_callee),
                routed_caller: None,
                routed_callee: None,
                connected_callee: None,
                routed_contact: None,
                routed_destination: None,
                last_queue_name: None,
                target_dialogs: r.1.target_dialogs,
                server_dialog_id,
            }),
    {
        let original_caller = or_empty(parties.from_value);
        let original_callee = or_empty(parties.to_value);
        let snapshot = CallSessionRecordSnapshot {
            ring_time: None,
            answer_time: None,
            last_error: Some((code, reason)),
            hangup_reason: Some(CallRecordHangupReason::Failed),
            hangup_messages: Vec::new(),
            original_caller: Some(original_caller.clone()),
            original_callee: Some(original_callee.clone()),
            routed_caller: None,
            routed_callee: None,
            connected_callee: None,
            routed_contact: None,
            routed_destination: None,
            last_queue_name: None,
            target_dialogs: Vec::new(),
            server_dialog_id,
        };
        let context = self.context(original_caller, original_callee, media_config, now);
        (context, snapshot)
    }
}

/// A party of a call is shown by the address in the request; where it has none, by that
/// of the plan; and by nothing where neither has one.
pub proof fn party_is_that_of_the_request(uri: Option<Uri>, other: Option<Seq<char>>, text: Option<String>)
    ensures
        uri matches Some(u) ==> party_text(uri, other) == u.text(),
        uri is None ==> (other matches Some(t) ==> party_text(uri, other) == t),
        uri is None && other is None ==> party_text(uri, other).len() == 0,
        text matches Some(t) ==> text_or_empty(text) == t@,
        text is None ==> text_or_empty(text).len() == 0,
{
}

} // verus!
