use mic_capture::device::{SampleEncoding, SetupFault};
use mic_capture::error::CaptureError;
use mic_capture::session::{
    advance, CaptureSession, Handshake, SessionEvent, SessionRegistry, SessionState, WorkerExit,
};

fn constant(value: f32, count: usize) -> Vec<u32> {
    vec![value.to_bits(); count]
}

#[test]
fn registry_starts_idle() {
    let registry = SessionRegistry::new();
    assert_eq!(registry.state(), SessionState::Idle);
    assert_eq!(registry.sample_rate(), None);
}

#[test]
fn start_twice_succeeds_once_then_reports_already_recording() {
    let mut registry = SessionRegistry::new();
    assert_eq!(registry.start(Handshake::Ready(48000)), Ok(()));
    assert_eq!(registry.state(), SessionState::Recording);
    assert_eq!(registry.sample_rate(), Some(48000));
    assert_eq!(registry.start(Handshake::Ready(8000)), Err(CaptureError::AlreadyRecording));
    assert_eq!(registry.state(), SessionState::Recording);
    assert_eq!(registry.sample_rate(), Some(48000));
    assert_eq!(registry.start(Handshake::Lost), Err(CaptureError::AlreadyRecording));
    assert_eq!(registry.sample_rate(), Some(48000));
}

#[test]
fn stop_twice_succeeds_once_then_reports_not_recording() {
    let mut registry = SessionRegistry::new();
    registry.start(Handshake::Ready(16000)).unwrap();
    let samples = constant(0.25, 4);
    assert!(registry.stop(WorkerExit::Finished, &samples).is_ok());
    assert_eq!(registry.state(), SessionState::Idle);
    assert_eq!(registry.stop(WorkerExit::Finished, &samples), Err(CaptureError::NotRecording));
    assert_eq!(registry.state(), SessionState::Idle);
}

#[test]
fn stop_without_a_session_reports_not_recording() {
    let mut registry = SessionRegistry::new();
    assert_eq!(
        registry.stop(WorkerExit::Finished, &constant(0.5, 3)),
        Err(CaptureError::NotRecording)
    );
    assert_eq!(registry.stop(WorkerExit::Panicked, &[]), Err(CaptureError::NotRecording));
}

#[test]
fn stop_after_a_start_without_frames_reports_no_audio() {
    let mut registry = SessionRegistry::new();
    registry.start(Handshake::Ready(44100)).unwrap();
    assert_eq!(registry.stop(WorkerExit::Finished, &[]), Err(CaptureError::NoAudioCaptured));
    assert_eq!(registry.state(), SessionState::Idle);
    assert_eq!(registry.start(Handshake::Ready(44100)), Ok(()));
}

#[test]
fn a_panicked_worker_is_reported_whatever_was_captured() {
    let mut registry = SessionRegistry::new();
    registry.start(Handshake::Ready(44100)).unwrap();
    assert_eq!(
        registry.stop(WorkerExit::Panicked, &constant(0.5, 8)),
        Err(CaptureError::WorkerPanicked)
    );
    assert_eq!(registry.state(), SessionState::Idle);
    registry.start(Handshake::Ready(44100)).unwrap();
    assert_eq!(registry.stop(WorkerExit::Panicked, &[]), Err(CaptureError::WorkerPanicked));
}

#[test]
fn sixteen_frames_of_one_half_at_16000_hz_give_sixteen_samples_of_16383() {
    let mut registry = SessionRegistry::new();
    registry.start(Handshake::Ready(16000)).unwrap();
    let bytes = registry.stop(WorkerExit::Finished, &constant(0.5, 16)).unwrap();
    let mut reader = hound::WavReader::new(std::io::Cursor::new(bytes)).unwrap();
    let spec = reader.spec();
    assert_eq!(spec.sample_rate, 16000);
    assert_eq!(spec.channels, 1);
    assert_eq!(spec.bits_per_sample, 16);
    let decoded: Vec<i16> = reader.samples::<i16>().map(|s| s.unwrap()).collect();
    assert_eq!(decoded, vec![16383i16; 16]);
    assert_eq!(16383, (0.5f32 * 32767.0) as i16);
}

#[test]
fn an_unsupported_encoding_fails_the_start_and_leaves_the_slot_free() {
    let mut registry = SessionRegistry::new();
    let report = Handshake::Failed(SetupFault::UnsupportedFormat("I8".to_string()));
    assert_eq!(registry.start(report), Err(CaptureError::UnsupportedFormat("I8".to_string())));
    assert_eq!(registry.state(), SessionState::Idle);
    assert_eq!(registry.sample_rate(), None);
    assert_eq!(registry.stop(WorkerExit::Finished, &constant(0.5, 2)), Err(CaptureError::NotRecording));
    assert_eq!(registry.start(Handshake::Ready(32000)), Ok(()));
    assert_eq!(registry.sample_rate(), Some(32000));
}

#[test]
fn setup_faults_are_reported_as_device_errors() {
    let mut registry = SessionRegistry::new();
    assert_eq!(
        registry.start(Handshake::Failed(SetupFault::NoInputDevice)),
        Err(CaptureError::DeviceError("No audio input device found.".to_string()))
    );
    assert_eq!(
        registry.start(Handshake::Failed(SetupFault::ConfigUnavailable("busy".to_string()))),
        Err(CaptureError::DeviceError("Failed to read default input config: busy".to_string()))
    );
    assert_eq!(
        registry.start(Handshake::Failed(SetupFault::StreamRejected(
            SampleEncoding::I16,
            "denied".to_string()
        ))),
        Err(CaptureError::DeviceError("Unable to create i16 input stream: denied".to_string()))
    );
    assert_eq!(
        registry.start(Handshake::Failed(SetupFault::StartRefused("gone".to_string()))),
        Err(CaptureError::DeviceError("Failed to start input stream: gone".to_string()))
    );
    assert_eq!(
        registry.start(Handshake::Lost),
        Err(CaptureError::DeviceError("Native recorder thread failed to initialize.".to_string()))
    );
    assert_eq!(registry.state(), SessionState::Idle);
}

#[test]
fn a_start_in_two_steps_blocks_other_starts_and_stops() {
    let mut registry = SessionRegistry::new();
    assert_eq!(registry.reserve(), Ok(()));
    assert_eq!(registry.state(), SessionState::Starting);
    assert_eq!(registry.reserve(), Err(CaptureError::AlreadyRecording));
    assert_eq!(registry.start(Handshake::Ready(8000)), Err(CaptureError::AlreadyRecording));
    assert!(registry.release().is_err());
    assert_eq!(registry.state(), SessionState::Starting);
    assert_eq!(registry.complete(Handshake::Ready(8000)), Ok(()));
    assert_eq!(registry.state(), SessionState::Recording);
    assert_eq!(registry.sample_rate(), Some(8000));
}

#[test]
fn a_failed_second_step_empties_the_slot() {
    let mut registry = SessionRegistry::new();
    registry.reserve().unwrap();
    assert_eq!(
        registry.complete(Handshake::Failed(SetupFault::NoInputDevice)),
        Err(CaptureError::DeviceError("No audio input device found.".to_string()))
    );
    assert_eq!(registry.state(), SessionState::Idle);
    assert_eq!(registry.reserve(), Ok(()));
}

#[test]
fn a_stop_in_two_steps_frees_the_slot_before_the_teardown() {
    let mut registry = SessionRegistry::new();
    registry.start(Handshake::Ready(16000)).unwrap();
    let mut session = registry.release().unwrap();
    assert_eq!(session.state(), SessionState::Stopping);
    assert_eq!(session.sample_rate(), 16000);
    assert_eq!(registry.state(), SessionState::Idle);
    assert_eq!(registry.start(Handshake::Ready(22050)), Ok(()));
    let bytes = session.finish(WorkerExit::Finished, &constant(-1.0, 3)).unwrap();
    assert_eq!(session.state(), SessionState::Idle);
    assert_eq!(bytes.len(), 50);
    assert_eq!(&bytes[24..28], &[0x80, 0x3e, 0, 0]);
    assert_eq!(&bytes[44..], &[0x01, 0x80, 0x01, 0x80, 0x01, 0x80]);
    assert_eq!(registry.sample_rate(), Some(22050));
}

#[test]
fn a_session_walks_through_its_states() {
    let mut session = CaptureSession::new();
    assert_eq!(session.state(), SessionState::Idle);
    session.begin_start();
    assert_eq!(session.state(), SessionState::Starting);
    assert_eq!(session.resolve(Handshake::Ready(11025)), Ok(()));
    assert_eq!(session.state(), SessionState::Recording);
    assert_eq!(session.sample_rate(), 11025);
    session.begin_stop();
    assert_eq!(session.state(), SessionState::Stopping);
    assert_eq!(session.finish(WorkerExit::Finished, &[]), Err(CaptureError::NoAudioCaptured));
    assert_eq!(session.state(), SessionState::Idle);
}

#[test]
fn a_session_whose_setup_fails_is_failed() {
    let mut session = CaptureSession::new();
    session.begin_start();
    assert!(session.resolve(Handshake::Lost).is_err());
    assert_eq!(session.state(), SessionState::Failed);
}

#[test]
fn the_state_machine_allows_exactly_five_transitions() {
    let states = [
        SessionState::Idle,
        SessionState::Starting,
        SessionState::Recording,
        SessionState::Stopping,
        SessionState::Failed,
    ];
    let events = [
        SessionEvent::StartRequested,
        SessionEvent::StreamReady,
        SessionEvent::SetupFailed,
        SessionEvent::StopRequested,
        SessionEvent::WorkerJoined,
    ];
    let mut allowed = 0;
    for state in states {
        for event in events {
            let expected = match (state, event) {
                (SessionState::Idle, SessionEvent::StartRequested) => Some(SessionState::Starting),
                (SessionState::Starting, SessionEvent::StreamReady) => Some(SessionState::Recording),
                (SessionState::Starting, SessionEvent::SetupFailed) => Some(SessionState::Failed),
                (SessionState::Recording, SessionEvent::StopRequested) => Some(SessionState::Stopping),
                (SessionState::Stopping, SessionEvent::WorkerJoined) => Some(SessionState::Idle),
                _ => None,
            };
            assert_eq!(advance(state, event), expected);
            if expected.is_some() {
                allowed += 1;
            }
        }
    }
    assert_eq!(allowed, 5);
    for event in events {
        assert_eq!(advance(SessionState::Failed, event), None);
    }
}
