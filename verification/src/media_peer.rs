//! The media side of a leg as the session knows it: the stream that carries it.
use vstd::prelude::*;
use crate::text::join3;

verus! {

/// The media stream of a leg.
#[derive(Clone, Debug)]
pub struct MediaStream {
    pub id: String,
}

impl MediaStream {
    /// The stream of the leg `leg` of a session.
    pub fn of_leg(session_id: &str, leg: &str) -> (r: MediaStream)
        ensures
            r.id@ == session_id@ + "-"@ + leg@,
    {
        MediaStream { id: join3(session_id, "-", leg) }
    }
}

/// The peer of a leg whose media the voice engine carries.
#[derive(Clone, Debug)]
pub struct VoiceEnginePeer {
    pub stream: MediaStream,
}

impl VoiceEnginePeer {
    /// The peer on a stream.
    pub fn new(stream: MediaStream) -> (r: VoiceEnginePeer)
        ensures
            r.stream == stream,
    {
        VoiceEnginePeer { stream }
    }
}

} // verus!
