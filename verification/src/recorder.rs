//! The recording and preview sessions' on/off state, and the plain records
//! that describe capture targets to the caller.

use vstd::prelude::*;

verus! {

/// Why a request to start or stop was turned down.
#[derive(Clone, Copy, Debug, PartialEq, Eq, Structural)]
pub enum SessionError {
    /// A recording is already running.
    AlreadyRecording,
    /// No recording is running.
    NotRecording,
}

impl SessionError {
    /// The message for the caller.
    pub open spec fn message_spec(self) -> Seq<char> {
        match self {
            SessionError::AlreadyRecording => "Already recording"@,
            SessionError::NotRecording => "Not recording"@,
        }
    }

    /// The message for the caller.
    pub fn message(&self) -> (text: String)
        ensures
            text@ == self.message_spec(),
    {
        match self {
            SessionError::AlreadyRecording => String::from_str("Already recording"),
            SessionError::NotRecording => String::from_str("Not recording"),
        }
    }
}

/// Whether a recording is running.
#[derive(Debug)]
pub struct RecorderState {
    pub is_recording: bool,
}

impl RecorderState {
    /// The state before any recording: none is running.
    pub fn new() -> (state: Self)
        ensures
            !state.is_recording,
    {
        Self { is_recording: false }
    }

    /// Starts a recording unless one is running, which is an error and
    /// changes nothing.
    pub fn begin(&mut self) -> (outcome: Result<(), SessionError>)
        ensures
            old(self).is_recording ==> outcome == Err::<(), SessionError>(
                SessionError::AlreadyRecording,
            ),
            !old(self).is_recording ==> outcome.is_ok(),
            final(self).is_recording,
    {
        if self.is_recording {
            return Err(SessionError::AlreadyRecording);
        }
        self.is_recording = true;
        Ok(())
    }

    /// Stops the running recording; it is an error if none is running.
    pub fn finish(&mut self) -> (outcome: Result<(), SessionError>)
        ensures
            !old(self).is_recording ==> outcome == Err::<(), SessionError>(
                SessionError::NotRecording,
            ),
            old(self).is_recording ==> outcome.is_ok(),
            !final(self).is_recording,
    {
        if !self.is_recording {
            return Err(SessionError::NotRecording);
        }
        self.is_recording = false;
        Ok(())
    }
}

/// Whether a preview is running.
#[derive(Debug)]
pub struct PreviewState {
    pub is_previewing: bool,
}

impl PreviewState {
    /// The state before any preview: none is running.
    pub fn new() -> (state: Self)
        ensures
            !state.is_previewing,
    {
        Self { is_previewing: false }
    }

    /// Turns the preview on and says whether it was off before, that is,
    /// whether a capture has to be started for it.
    pub fn begin(&mut self) -> (started: bool)
        ensures
            started == !old(self).is_previewing,
            final(self).is_previewing,
    {
        let started: bool = !self.is_previewing;
        self.is_previewing = true;
        started
    }

    /// Turns the preview off.
    pub fn finish(&mut self)
        ensures
            !final(self).is_previewing,
    {
        self.is_previewing = false;
    }
}

/// A window that could be recorded.
#[derive(Debug)]
pub struct WindowInfo {
    pub id: u32,
    pub title: String,
}

/// What the caller asks to record: a kind of target and, for a window, its
/// identifier.
#[derive(Debug)]
pub struct RecordTarget {
    pub target_type: String,
    pub id: Option<u32>,
}

/// The name of the file of a new recording, given the text of the time
/// at which it begins.
pub open spec fn recording_name(stamp: Seq<char>) -> Seq<char> {
    "visualcoder_recording_"@ + stamp + ".mp4"@
}

/// The name of the file of a new recording.
pub fn recording_file_name(stamp: &str) -> (name: String)
    ensures
        name@ == recording_name(stamp@),
{
    let mut name = String::from_str("visualcoder_recording_");
    name.append(stamp);
    name.append(".mp4");
    name
}

/// The windows on offer. Recording always takes the primary monitor, so
/// there are none.
pub fn get_open_windows() -> (windows: Vec<WindowInfo>)
    ensures
        windows@.len() == 0,
{
    Vec::new()
}

} // verus!
