//! Recording of a leg on command: what is recorded since when. Moments are in
//! milliseconds.
use vstd::prelude::*;
use crate::media_endpoint::MediaEndpoint;
use crate::session_timer::elapsed;

verus! {

/// The recording under way: the file and the moment at which it began.
pub type RecordingState = Option<(String, u64)>;

/// What an application is told of a finished recording.
#[derive(Clone, Debug)]
pub struct RecordingInfo {
    pub path: String,
    pub duration: u64,
    pub size_bytes: u64,
}

/// Starts to record a leg into `path`. A recording under way is replaced.
pub fn start_recording(
    media: &mut MediaEndpoint,
    recording_state: &mut RecordingState,
    path: String,
    now: u64,
)
    ensures
        *final(recording_state) == Some((path, now)),
        *final(media) == (MediaEndpoint {
            directional_recorder_option: Some(path),
            ..*old(media)
        }),
{
    *recording_state = Some((path.clone(), now));
    media.start_directional_recording(path);
}

/// Stops the recording of a leg. Returns what the application is told of it,
/// where one was under way and an application listens.
pub fn stop_recording(
    media: &mut MediaEndpoint,
    recording_state: &mut RecordingState,
    app_listens: bool,
    now: u64,
) -> (r: Option<RecordingInfo>)
    ensures
        *final(recording_state) is None,
        *final(media) == (MediaEndpoint { directional_recorder_option: None, ..*old(media) }),
        r == (match *old(recording_state) {
            Some((path, started)) => if app_listens {
                Some(
                    RecordingInfo {
                        path,
                        duration: elapsed(now, started) as u64,
                        size_bytes: 0,
                    },
                )
            } else {
                None
            },
            None => None,
        }),
{
    media.stop_directional_recording();
    match recording_state.take() {
        Some((path, started)) => {
            if app_listens {
                let duration: u64 = if now >= started {
                    now - started
                } else {
                    0
                };
                Some(RecordingInfo { path, duration, size_bytes: 0 })
            } else {
                None
            }
        },
        None => None,
    }
}

} // verus!
