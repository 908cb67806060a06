//! The operations that a session or a controller can request of a leg.
use vstd::prelude::*;
use crate::model::CallRecordHangupReason;

verus! {

/// A command to a leg.
#[derive(Clone, Debug)]
pub enum LegCommand {
    Hangup { reason: Option<CallRecordHangupReason>, code: Option<u16>, initiator: Option<String> },
    SendBye { reason: Option<String> },
    SendCancel,
    PlayAudio { file: String, track_id: String, loop_playback: bool },
    StopPlayback,
    Hold { music_source: Option<String> },
    Unhold,
    StartRecording { path: String },
    StopRecording,
    Transfer { target: String },
}

} // verus!
