use mic_capture::device::{
    plan_stream, setup_error, NativeFormat, SampleEncoding, SetupFault, StreamPlan,
};
use mic_capture::error::CaptureError;

#[test]
fn the_three_handled_encodings_are_taken() {
    assert_eq!(
        plan_stream(NativeFormat::F32, 2),
        Ok(StreamPlan { encoding: SampleEncoding::F32, channels: 2 })
    );
    assert_eq!(
        plan_stream(NativeFormat::I16, 1),
        Ok(StreamPlan { encoding: SampleEncoding::I16, channels: 1 })
    );
    assert_eq!(
        plan_stream(NativeFormat::U16, 65535),
        Ok(StreamPlan { encoding: SampleEncoding::U16, channels: 65535 })
    );
}

#[test]
fn a_channel_count_of_zero_is_read_as_one() {
    assert_eq!(plan_stream(NativeFormat::F32, 0).unwrap().channels, 1);
    assert_eq!(plan_stream(NativeFormat::I16, 0).unwrap().channels, 1);
    assert_eq!(plan_stream(NativeFormat::U16, 0).unwrap().channels, 1);
}

#[test]
fn any_other_encoding_is_refused_by_name() {
    assert_eq!(
        plan_stream(NativeFormat::Other("I32".to_string()), 2),
        Err(SetupFault::UnsupportedFormat("I32".to_string()))
    );
    assert_eq!(
        plan_stream(NativeFormat::Other("F64".to_string()), 0),
        Err(SetupFault::UnsupportedFormat("F64".to_string()))
    );
}

#[test]
fn each_setup_fault_has_its_error() {
    assert_eq!(
        setup_error(SetupFault::NoInputDevice),
        CaptureError::DeviceError("No audio input device found.".to_string())
    );
    assert_eq!(
        setup_error(SetupFault::ConfigUnavailable("no permission".to_string())),
        CaptureError::DeviceError("Failed to read default input config: no permission".to_string())
    );
    assert_eq!(
        setup_error(SetupFault::UnsupportedFormat("U8".to_string())),
        CaptureError::UnsupportedFormat("U8".to_string())
    );
    assert_eq!(
        setup_error(SetupFault::StreamRejected(SampleEncoding::F32, "x".to_string())),
        CaptureError::DeviceError("Unable to create f32 input stream: x".to_string())
    );
    assert_eq!(
        setup_error(SetupFault::StreamRejected(SampleEncoding::I16, "y".to_string())),
        CaptureError::DeviceError("Unable to create i16 input stream: y".to_string())
    );
    assert_eq!(
        setup_error(SetupFault::StreamRejected(SampleEncoding::U16, "z".to_string())),
        CaptureError::DeviceError("Unable to create u16 input stream: z".to_string())
    );
    assert_eq!(
        setup_error(SetupFault::StartRefused("busy".to_string())),
        CaptureError::DeviceError("Failed to start input stream: busy".to_string())
    );
}

#[test]
fn each_error_has_its_message() {
    assert_eq!(
        CaptureError::AlreadyRecording.message(),
        "A native recording session is already running."
    );
    assert_eq!(CaptureError::NotRecording.message(), "No native recording session is running.");
    assert_eq!(
        CaptureError::NoAudioCaptured.message(),
        "No audio was captured. Please try again."
    );
    assert_eq!(CaptureError::WorkerPanicked.message(), "Native recorder thread panicked.");
    assert_eq!(CaptureError::DeviceError("why".to_string()).message(), "why");
    assert_eq!(CaptureError::EncodingError("how".to_string()).message(), "how");
    assert_eq!(
        CaptureError::UnsupportedFormat("I8".to_string()).message(),
        "Unsupported audio input format: I8"
    );
}

#[test]
fn a_duplicate_equals_its_original() {
    let errors = [
        CaptureError::AlreadyRecording,
        CaptureError::NotRecording,
        CaptureError::DeviceError("a".to_string()),
        CaptureError::UnsupportedFormat("b".to_string()),
        CaptureError::NoAudioCaptured,
        CaptureError::WorkerPanicked,
        CaptureError::EncodingError("c".to_string()),
    ];
    for error in errors.iter() {
        assert_eq!(&error.duplicate(), error);
    }
}
