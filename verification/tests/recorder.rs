use visualcoder::recorder::{
    get_open_windows, recording_file_name, PreviewState, RecordTarget, RecorderState, SessionError,
    WindowInfo,
};

#[test]
fn recording_starts_once_and_stops_once() {
    let mut state = RecorderState::new();
    assert!(!state.is_recording);
    assert_eq!(state.finish(), Err(SessionError::NotRecording));
    assert_eq!(state.begin(), Ok(()));
    assert!(state.is_recording);
    assert_eq!(state.begin(), Err(SessionError::AlreadyRecording));
    assert!(state.is_recording);
    assert_eq!(state.finish(), Ok(()));
    assert!(!state.is_recording);
    assert_eq!(state.finish(), Err(SessionError::NotRecording));
}

#[test]
fn session_errors_have_their_messages() {
    assert_eq!(SessionError::AlreadyRecording.message(), "Already recording");
    assert_eq!(SessionError::NotRecording.message(), "Not recording");
}

#[test]
fn preview_starts_a_capture_only_when_it_was_off() {
    let mut state = PreviewState::new();
    assert!(!state.is_previewing);
    assert!(state.begin());
    assert!(state.is_previewing);
    assert!(!state.begin());
    state.finish();
    assert!(!state.is_previewing);
    state.finish();
    assert!(state.begin());
}

#[test]
fn no_windows_are_on_offer() {
    assert!(get_open_windows().is_empty());
}

#[test]
fn records_hold_plain_values() {
    let w = WindowInfo { id: 7, title: String::from("Editor") };
    assert_eq!((w.id, w.title.as_str()), (7, "Editor"));
    let t = RecordTarget { target_type: String::from("window"), id: Some(7) };
    assert_eq!((t.target_type.as_str(), t.id), ("window", Some(7)));
}

#[test]
fn recordings_are_named_by_their_time() {
    assert_eq!(
        recording_file_name("2024-05-17_09-30-00"),
        "visualcoder_recording_2024-05-17_09-30-00.mp4"
    );
    assert_eq!(recording_file_name(""), "visualcoder_recording_.mp4");
}
