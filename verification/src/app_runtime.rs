//! Applications that run on a call.
use vstd::prelude::*;
use crate::answer_runtime::codecs_offered;
use crate::call_leg::CallLeg;
use crate::media_endpoint::MediaEndpoint;
use crate::model::{AppParams, DialDirection, find_param, param_named};
use crate::negotiate::{CodecInfo, MediaNegotiator, dtmf_of};
use crate::session::CallSession;
use crate::state::{CallSessionShared, ControlSurface, ControllerEvent};
use crate::text::{join2, opt_text, own, same};

verus! {

/// The application that a call is given to.
#[derive(Clone, Debug)]
pub enum AppChoice {
    Voicemail { extension: String, caller_id: String },
    CheckVoicemail,
    Ivr { file: String },
    Rwi { context: String, session_id: Option<String> },
}

/// Why a call could not be given to an application.
#[derive(Clone, Debug)]
pub enum AppError {
    NoRegistry,
    MissingFile,
    NoGateway,
    Unknown(String),
}

/// What the server offers to applications.
#[derive(Clone, Copy, Debug)]
pub struct AppSupport {
    pub registry: bool,
    pub voicemail: bool,
    pub gateway: bool,
}

/// What an application is told of its call.
#[derive(Clone, Debug)]
pub struct CallInfo {
    pub session_id: String,
    pub caller: String,
    pub callee: String,
    pub direction: DialDirection,
    pub started_at: u64,
}

/// A parameter of an application, where it has parameters.
pub open spec fn app_param(params: Option<AppParams>, name: Seq<char>) -> Option<Seq<char>> {
    match params {
        Some(p) => param_named(p@, name),
        None => None,
    }
}

fn get_param(params: &Option<AppParams>, name: &str) -> (r: Option<String>)
    ensures
        opt_text(r) == app_param(*params, name@),
{
    match params {
        Some(p) => find_param(p, name),
        None => None,
    }
}

/// A text, or another where there is none.
pub open spec fn or_text(a: Option<Seq<char>>, b: Seq<char>) -> Seq<char> {
    match a {
        Some(s) => s,
        None => b,
    }
}

impl CallSession {
    /// Whether `r` is the application that a call is given to by name.
    pub open spec fn is_app_choice(
        self,
        app_name: Seq<char>,
        params: Option<AppParams>,
        support: AppSupport,
        r: Result<AppChoice, AppError>,
    ) -> bool {
        if !support.registry {
            r matches Err(e) && e is NoRegistry
        } else if app_name == "voicemail"@ && support.voicemail {
            &&& r matches Ok(AppChoice::Voicemail { extension, caller_id })
            &&& extension@ == or_text(
                app_param(params, "extension"@),
                self.context.original_callee@,
            )
            &&& caller_id@ == or_text(
                app_param(params, "caller_id"@),
                self.context.original_caller@,
            )
        } else if app_name == "check_voicemail"@ && support.voicemail {
            r matches Ok(c) && c is CheckVoicemail
        } else if app_name == "ivr"@ {
            match app_param(params, "file"@) {
                Some(f) => r matches Ok(AppChoice::Ivr { file }) && file@ == f,
                None => r matches Err(e) && e is MissingFile,
            }
        } else if app_name == "rwi"@ {
            if support.gateway {
                &&& r matches Ok(AppChoice::Rwi { context, session_id })
                &&& context@ == or_text(app_param(params, "context"@), "default"@)
                &&& opt_text(session_id) == app_param(params, "session_id"@)
            } else {
                r matches Err(e) && e is NoGateway
            }
        } else {
            r matches Err(AppError::Unknown(n)) && n@ == app_name
        }
    }

    /// The application that the call is given to by name, with its parameters.
    pub fn build_call_app(&self, app_name: &str, params: &Option<AppParams>, support: AppSupport) -> (r:
        Result<AppChoice, AppError>)
        ensures
            self.is_app_choice(app_name@, *params, support, r),
    {
        if !support.registry {
            return Err(AppError::NoRegistry);
        }
        proof {
            reveal_strlit("voicemail");
            reveal_strlit("check_voicemail");
            reveal_strlit("ivr");
            reveal_strlit("rwi");
            assert("ivr"@[0] != "rwi"@[0]);
        }
        if same(app_name, "voicemail") && support.voicemail {
            let extension = match get_param(params, "extension") {
                Some(e) => e,
                None => self.context.original_callee.clone(),
            };
            let caller_id = match get_param(params, "caller_id") {
                Some(c) => c,
                None => self.context.original_caller.clone(),
            };
            return Ok(AppChoice::Voicemail { extension, caller_id });
        }
        if same(app_name, "check_voicemail") && support.voicemail {
            return Ok(AppChoice::CheckVoicemail);
        }
        if same(app_name, "ivr") {
            return match get_param(params, "file") {
                Some(file) => Ok(AppChoice::Ivr { file }),
                None => Err(AppError::MissingFile),
            };
        }
        if same(app_name, "rwi") {
            if !support.gateway {
                return Err(AppError::NoGateway);
            }
            let context = match get_param(params, "context") {
                Some(c) => c,
                None => own("default"),
            };
            return Ok(AppChoice::Rwi { context, session_id: get_param(params, "session_id") });
        }
        Err(AppError::Unknown(own(app_name)))
    }

    /// Attaches an application to the call. Returns the state that the application's
    /// own commands go through; `first_target` is the address of the first target.
    pub fn install_event_bridge(&mut self, first_target: Option<String>, now: u64) -> (r:
        CallSessionShared)
        ensures
            final(self).app_listens,
            final(self).shared.surface.app_events is Some,
            final(self).shared.surface.app_events->0@ == Seq::<ControllerEvent>::empty(),
            *final(self) == (CallSession {
                app_listens: true,
                shared: CallSessionShared {
                    surface: ControlSurface {
                        app_events: final(self).shared.surface.app_events,
                        ..old(self).shared.surface
                    },
                    ..old(self).shared
                },
                ..*old(self)
            }),
            r.has_begun(
                old(self).context.session_id,
                old(self).context.dialplan.direction,
                r.inner.caller,
                first_target,
                now,
            ),
            opt_text(r.inner.caller) == (match old(self).context.dialplan.caller {
                Some(u) => Some(u.text()),
                None => None,
            }),
            r.entry is None,
            r.surface.is_blank(),
    {
        let caller = match &self.context.dialplan.caller {
            Some(u) => Some(u.to_text()),
            None => None,
        };
        let app_shared = CallSessionShared::new(
            self.context.session_id.clone(),
            self.context.dialplan.direction,
            caller,
            first_target,
            now,
        );
        self.app_listens = true;
        self.shared.set_app_event_sender(true);
        app_shared
    }

    /// Detaches the application. Returns the listener for DTMF digits that is
    /// cancelled.
    pub fn teardown_app(&mut self) -> (r: Option<u64>)
        ensures
            r == old(self).exported_leg.media.dtmf_listener_cancel,
            *final(self) == (CallSession {
                app_listens: false,
                exported_leg: CallLeg {
                    media: MediaEndpoint {
                        dtmf_listener_cancel: None,
                        ..old(self).exported_leg.media
                    },
                    ..old(self).exported_leg
                },
                shared: CallSessionShared {
                    surface: ControlSurface {
                        app_events: None,
                        dtmf_listener_cancel: None,
                        ..old(self).shared.surface
                    },
                    ..old(self).shared
                },
                ..*old(self)
            }),
    {
        self.app_listens = false;
        let cancelled = self.exported_leg.media.cancel_dtmf_listener();
        self.shared.set_dtmf_listener_cancel(None);
        self.shared.set_app_event_sender(false);
        cancelled
    }

    /// Begins to listen for the caller's DTMF digits, where the caller offered to send
    /// them: returns the codecs to listen for. `cancel` cancels the listener.
    pub fn spawn_dtmf_listener_if_needed(&mut self, cancel: u64) -> (r: Option<Vec<CodecInfo>>)
        ensures
            ({
                let codecs = dtmf_of(codecs_offered(old(self).exported_leg.media.offer_sdp));
                &&& r is Some == (codecs.len() > 0)
                &&& r matches Some(v) ==> v@ == codecs
                &&& *final(self) == (if codecs.len() > 0 {
                    CallSession {
                        exported_leg: CallLeg {
                            media: MediaEndpoint {
                                dtmf_listener_cancel: Some(cancel),
                                ..old(self).exported_leg.media
                            },
                            ..old(self).exported_leg
                        },
                        shared: CallSessionShared {
                            surface: ControlSurface {
                                dtmf_listener_cancel: Some(cancel),
                                ..old(self).shared.surface
                            },
                            ..old(self).shared
                        },
                        ..*old(self)
                    }
                } else {
                    *old(self)
                })
            }),
    {
        let codecs = match &self.exported_leg.media.offer_sdp {
            Some(s) => MediaNegotiator::extract_dtmf_codecs(s.as_str()),
            None => Vec::new(),
        };
        if codecs.len() == 0 {
            return None;
        }
        self.exported_leg.media.set_dtmf_listener_cancel(cancel);
        self.shared.set_dtmf_listener_cancel(Some(cancel));
        Some(codecs)
    }

    /// What an application is told of its call.
    pub fn app_call_info(&self, now: u64) -> (r: CallInfo)
        ensures
            r == (CallInfo {
                session_id: self.context.session_id,
                caller: self.context.original_caller,
                callee: self.context.original_callee,
                direction: self.context.dialplan.direction,
                started_at: now,
            }),
    {
        CallInfo {
            session_id: self.context.session_id.clone(),
            caller: self.context.original_caller.clone(),
            callee: self.context.original_callee.clone(),
            direction: self.context.dialplan.direction,
            started_at: now,
        }
    }
}

/// How an application ended.
#[derive(Clone, Debug)]
pub enum AppEnd {
    Completed,
    Failed(String),
    Panicked(String),
    /// The session was cancelled while the application ran.
    Cancelled,
}

/// Whether an application failed, and why. A cancelled application has not.
pub fn app_result(end: AppEnd) -> (r: Result<(), String>)
    ensures
        match end {
            AppEnd::Completed | AppEnd::Cancelled => r is Ok,
            AppEnd::Failed(e) => r == Err::<(), String>(e),
            AppEnd::Panicked(e) => r is Err && r->Err_0@ == "Application task panicked: "@ + e@,
        },
{
    match end {
        AppEnd::Completed | AppEnd::Cancelled => Ok(()),
        AppEnd::Failed(e) => Err(e),
        AppEnd::Panicked(e) => Err(join2("Application task panicked: ", e.as_str())),
    }
}

/// A call is given to the application that is named: to voicemail for the extension
/// that is asked for, else for the callee; to a menu only with its file; to a remote
/// controller only where there is a gateway. No other name is known.
pub proof fn application_is_the_one_named(
    s: CallSession,
    app_name: Seq<char>,
    params: Option<AppParams>,
    support: AppSupport,
    r: Result<AppChoice, AppError>,
)
    requires
        s.is_app_choice(app_name, params, support, r),
    ensures
        !support.registry ==> (r matches Err(e) && e is NoRegistry),
        (r matches Ok(c) ==> c is Voicemail ==> app_name == "voicemail"@),
        (r matches Ok(c) ==> c is CheckVoicemail ==> app_name == "check_voicemail"@),
        (r matches Ok(c) ==> c is Ivr ==> app_name == "ivr"@),
        (r matches Ok(c) ==> c is Rwi ==> app_name == "rwi"@ && support.gateway),
        (r matches Ok(AppChoice::Voicemail { extension, caller_id }) ==> params is None ==> extension@
            == s.context.original_callee@ && caller_id@ == s.context.original_caller@),
        (r matches Ok(AppChoice::Voicemail { extension, caller_id }) ==> (params matches Some(p)
            ==> param_named(p@, "extension"@) matches Some(x) ==> extension@ == x)),
        (r matches Ok(AppChoice::Ivr { file }) ==> (params matches Some(p) && param_named(p@, "file"@)
            == Some(file@))),
        support.registry && app_name != "voicemail"@ && app_name != "check_voicemail"@ && app_name
            != "ivr"@ && app_name != "rwi"@ ==> (r matches Err(AppError::Unknown(n)) && n@ == app_name),
        support.registry && app_name == "ivr"@ && params is None ==> (r matches Err(e) && e is MissingFile),
{
    reveal_strlit("voicemail");
    reveal_strlit("check_voicemail");
    reveal_strlit("ivr");
    reveal_strlit("rwi");
    assert("voicemail"@.len() == 9 && "check_voicemail"@.len() == 15);
    assert("ivr"@[0] == 'i' && "rwi"@[0] == 'r');
}

/// What an application is told of a call is what its parameters say, else what the call
/// is: each parameter counts for itself.
pub proof fn parameters_are_told_apart(
    s: CallSession,
    params: AppParams,
    support: AppSupport,
    r: Result<AppChoice, AppError>,
    app_name: Seq<char>,
)
    requires
        s.is_app_choice(app_name, Some(params), support, r),
    ensures
        (r matches Ok(AppChoice::Voicemail { extension, caller_id }) ==> {
            &&& param_named(params@, "caller_id"@) matches Some(x) ==> caller_id@ == x
            &&& param_named(params@, "caller_id"@) is None ==> caller_id@ == s.context.original_caller@
            &&& param_named(params@, "extension"@) is None ==> extension@ == s.context.original_callee@
        }),
        (r matches Ok(AppChoice::Rwi { context, session_id }) ==> {
            &&& param_named(params@, "context"@) matches Some(x) ==> context@ == x
            &&& param_named(params@, "context"@) is None ==> context@ == "default"@
            &&& opt_text(session_id) == param_named(params@, "session_id"@)
        }),
{
}

} // verus!
