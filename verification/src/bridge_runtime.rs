//! The bridge between the legs of a call and the mixer of a supervisor.
use vstd::prelude::*;
use crate::media_bridge::MediaBridge;
use crate::media_endpoint::BridgeSelection;
use crate::model::{RecorderOption, SupervisorMode};
use crate::text::{join2, join3};

verus! {

/// The mixer through which a supervisor takes part in a call.
#[derive(Clone, Debug)]
pub struct SupervisorMixer {
    pub id: String,
    pub mode: SupervisorMode,
}

/// Whose forwarding is suppressed or resumed: that of both legs of the bridge, or
/// that of the exported leg where there is no bridge.
#[derive(Clone, Copy, Debug, PartialEq, Eq, Structural)]
pub enum ForwardingScope {
    BothLegs,
    ExportedLeg,
}

/// The bridge of a call, once there is one.
#[derive(Debug)]
pub struct BridgeRuntime {
    pub media_bridge: Option<MediaBridge>,
    pub recorder_option: Option<RecorderOption>,
    pub supervisor_mixer: Option<SupervisorMixer>,
}

impl BridgeRuntime {
    /// No bridge yet.
    pub fn new(recorder_option: Option<RecorderOption>) -> (r: BridgeRuntime)
        ensures
            r.media_bridge is None,
            r.recorder_option == recorder_option,
            r.supervisor_mixer is None,
    {
        BridgeRuntime { media_bridge: None, recorder_option, supervisor_mixer: None }
    }

    /// Bridges the legs with the audio chosen for each, unless they are bridged.
    pub fn ensure_media_bridge(
        &mut self,
        caller: BridgeSelection,
        callee: BridgeSelection,
        call_id: String,
    )
        ensures
            old(self).media_bridge is Some ==> *final(self) == *old(self),
            old(self).media_bridge is None ==> *final(self) == (BridgeRuntime {
                media_bridge: Some(
                    MediaBridge {
                        params_a: caller.params,
                        params_b: callee.params,
                        codec_a: caller.codec,
                        codec_b: callee.codec,
                        dtmf_codecs_a: caller.dtmf_codecs,
                        dtmf_codecs_b: callee.dtmf_codecs,
                        ssrc_a: caller.ssrc,
                        ssrc_b: callee.ssrc,
                        started: false,
                        call_id,
                    },
                ),
                ..*old(self)
            }),
    {
        if self.media_bridge.is_none() {
            self.media_bridge = Some(
                MediaBridge {
                    params_a: caller.params,
                    params_b: callee.params,
                    codec_a: caller.codec,
                    codec_b: callee.codec,
                    dtmf_codecs_a: caller.dtmf_codecs,
                    dtmf_codecs_b: callee.dtmf_codecs,
                    ssrc_a: caller.ssrc,
                    ssrc_b: callee.ssrc,
                    started: false,
                    call_id,
                },
            );
        }
    }

    /// Whether the legs are bridged.
    pub fn is_active(&self) -> (r: bool)
        ensures
            r == (self.media_bridge is Some),
    {
        self.media_bridge.is_some()
    }

    /// Starts the bridge, where there is one. Returns whether it has to be set
    /// going: a bridge is set going once.
    pub fn start_bridge(&mut self) -> (r: bool)
        ensures
            r == (old(self).media_bridge is Some && !old(self).media_bridge->0.started),
            match old(self).media_bridge {
                Some(b) => *final(self) == (BridgeRuntime {
                    media_bridge: Some(MediaBridge { started: true, ..b }),
                    ..*old(self)
                }),
                None => *final(self) == *old(self),
            },
    {
        match self.media_bridge.take() {
            Some(b) => {
                let mut b = b;
                let fresh = !b.started;
                b.started = true;
                self.media_bridge = Some(b);
                fresh
            },
            None => false,
        }
    }

    /// Takes the bridge down. Returns whether there was one to stop.
    pub fn clear_bridge(&mut self) -> (r: bool)
        ensures
            r == (old(self).media_bridge is Some),
            *final(self) == (BridgeRuntime { media_bridge: None, ..*old(self) }),
    {
        let stopped = self.media_bridge.is_some();
        self.media_bridge = None;
        stopped
    }

    /// Whose forwarding of the callee's track is suppressed or resumed.
    pub fn forwarding_scope(&self) -> (r: ForwardingScope)
        ensures
            r == (if self.media_bridge is Some {
                ForwardingScope::BothLegs
            } else {
                ForwardingScope::ExportedLeg
            }),
    {
        if self.media_bridge.is_some() {
            ForwardingScope::BothLegs
        } else {
            ForwardingScope::ExportedLeg
        }
    }

    /// Lets a supervisor take part in the call.
    pub fn start_supervisor_mode(
        &mut self,
        session_id: &str,
        target_session_id: &str,
        mode: SupervisorMode,
    )
        ensures
            final(self).supervisor_mixer is Some,
            final(self).supervisor_mixer->0.id@ == "supervisor-"@ + session_id@ + "-"@
                + target_session_id@,
            final(self).supervisor_mixer->0.mode == mode,
            *final(self) == (BridgeRuntime {
                supervisor_mixer: final(self).supervisor_mixer,
                ..*old(self)
            }),
    {
        let head = join3("supervisor-", session_id, "-");
        let id = join2(head.as_str(), target_session_id);
        self.supervisor_mixer = Some(SupervisorMixer { id, mode });
    }

    /// Ends a supervisor's part. Returns whether there was a mixer to stop.
    pub fn stop_supervisor_mode(&mut self) -> (r: bool)
        ensures
            r == (old(self).supervisor_mixer is Some),
            *final(self) == (BridgeRuntime { supervisor_mixer: None, ..*old(self) }),
    {
        let stopped = self.supervisor_mixer.is_some();
        self.supervisor_mixer = None;
        stopped
    }
}

} // verus!
