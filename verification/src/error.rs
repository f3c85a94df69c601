//! The faults that starting or stopping a capture can report.

use vstd::prelude::*;

verus! {

/// Why a start or a stop did not succeed.
#[derive(Debug, PartialEq, Eq)]
pub enum CaptureError {
    /// A start was requested while a session exists.
    AlreadyRecording,
    /// A stop was requested while no session exists.
    NotRecording,
    /// The device could not be opened, configured or started; the text says why.
    DeviceError(String),
    /// The device delivers samples in an encoding that is not handled; the
    /// text is the encoding's name.
    UnsupportedFormat(String),
    /// The session ended without a single captured frame.
    NoAudioCaptured,
    /// The capture thread ended abnormally.
    WorkerPanicked,
    /// The WAV container could not be written; the text says why.
    EncodingError(String),
}

/// A [`CaptureError`] with its texts as sequences of characters.
pub enum CaptureErrorView {
    AlreadyRecording,
    NotRecording,
    DeviceError(Seq<char>),
    UnsupportedFormat(Seq<char>),
    NoAudioCaptured,
    WorkerPanicked,
    EncodingError(Seq<char>),
}

impl View for CaptureError {
    type V = CaptureErrorView;

    open spec fn view(&self) -> CaptureErrorView {
        match self {
            CaptureError::AlreadyRecording => CaptureErrorView::AlreadyRecording,
            CaptureError::NotRecording => CaptureErrorView::NotRecording,
            CaptureError::DeviceError(text) => CaptureErrorView::DeviceError(text@),
            CaptureError::UnsupportedFormat(name) => CaptureErrorView::UnsupportedFormat(name@),
            CaptureError::NoAudioCaptured => CaptureErrorView::NoAudioCaptured,
            CaptureError::WorkerPanicked => CaptureErrorView::WorkerPanicked,
            CaptureError::EncodingError(text) => CaptureErrorView::EncodingError(text@),
        }
    }
}

/// The text shown to the user for each fault.
pub open spec fn message_text(e: CaptureErrorView) -> Seq<char> {
    match e {
        CaptureErrorView::AlreadyRecording => "A native recording session is already running."@,
        CaptureErrorView::NotRecording => "No native recording session is running."@,
        CaptureErrorView::DeviceError(text) => text,
        CaptureErrorView::UnsupportedFormat(name) => "Unsupported audio input format: "@ + name,
        CaptureErrorView::NoAudioCaptured => "No audio was captured. Please try again."@,
        CaptureErrorView::WorkerPanicked => "Native recorder thread panicked."@,
        CaptureErrorView::EncodingError(text) => text,
    }
}

impl CaptureError {
    /// The human-readable cause.
    pub fn message(&self) -> (text: String)
        ensures
            text@ == message_text(self@),
    {
        match self {
            CaptureError::AlreadyRecording => String::from_str(
                "A native recording session is already running.",
            ),
            CaptureError::NotRecording => String::from_str(
                "No native recording session is running.",
            ),
            CaptureError::DeviceError(text) => text.clone(),
            CaptureError::UnsupportedFormat(name) => String::from_str(
                "Unsupported audio input format: ",
            ).concat(name.as_str()),
            CaptureError::NoAudioCaptured => String::from_str(
                "No audio was captured. Please try again.",
            ),
            CaptureError::WorkerPanicked => String::from_str("Native recorder thread panicked."),
            CaptureError::EncodingError(text) => text.clone(),
        }
    }

    /// A copy of this fault with the same texts.
    pub fn duplicate(&self) -> (copy: CaptureError)
        ensures
            copy@ == self@,
    {
        match self {
            CaptureError::AlreadyRecording => CaptureError::AlreadyRecording,
            CaptureError::NotRecording => CaptureError::NotRecording,
            CaptureError::DeviceError(text) => CaptureError::DeviceError(text.clone()),
            CaptureError::UnsupportedFormat(name) => CaptureError::UnsupportedFormat(name.clone()),
            CaptureError::NoAudioCaptured => CaptureError::NoAudioCaptured,
            CaptureError::WorkerPanicked => CaptureError::WorkerPanicked,
            CaptureError::EncodingError(text) => CaptureError::EncodingError(text.clone()),
        }
    }
}

} // verus!
