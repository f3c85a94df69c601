//! Decisions of the device stream builder: which sample encodings are taken,
//! how many channels a frame is read with, and what each setup fault is
//! reported as.

use vstd::prelude::*;
use crate::error::{CaptureError, CaptureErrorView};

verus! {

/// A sample encoding that the normaliser handles.
#[derive(Debug, Clone, Copy, PartialEq, Eq, Structural)]
pub enum SampleEncoding {
    /// 32-bit floating point.
    F32,
    /// Signed 16-bit integer.
    I16,
    /// Unsigned 16-bit integer.
    U16,
}

/// The sample encoding that a device reports as its own.
#[derive(Debug, PartialEq, Eq)]
pub enum NativeFormat {
    /// 32-bit floating point.
    F32,
    /// Signed 16-bit integer.
    I16,
    /// Unsigned 16-bit integer.
    U16,
    /// Any other encoding, by name.
    Other(String),
}

/// A [`NativeFormat`] with the name as a sequence of characters.
pub enum NativeFormatView {
    F32,
    I16,
    U16,
    Other(Seq<char>),
}

impl View for NativeFormat {
    type V = NativeFormatView;

    open spec fn view(&self) -> NativeFormatView {
        match self {
            NativeFormat::F32 => NativeFormatView::F32,
            NativeFormat::I16 => NativeFormatView::I16,
            NativeFormat::U16 => NativeFormatView::U16,
            NativeFormat::Other(name) => NativeFormatView::Other(name@),
        }
    }
}

/// How a stream is read: the encoding of its samples and the number of
/// channels per frame, which is at least one.
#[derive(Debug, Clone, Copy, PartialEq, Eq, Structural)]
pub struct StreamPlan {
    pub encoding: SampleEncoding,
    pub channels: usize,
}

/// A fault while the capture thread sets the device up.
#[derive(Debug, PartialEq, Eq)]
pub enum SetupFault {
    /// The host has no default input device.
    NoInputDevice,
    /// The device's default configuration could not be read; the text is the
    /// driver's.
    ConfigUnavailable(String),
    /// The device's encoding is not handled; the text is its name.
    UnsupportedFormat(String),
    /// The driver refused to build the stream for this encoding; the text is
    /// the driver's.
    StreamRejected(SampleEncoding, String),
    /// The stream was built but could not be started; the text is the
    /// driver's.
    StartRefused(String),
}

/// A [`SetupFault`] with its texts as sequences of characters.
pub enum SetupFaultView {
    NoInputDevice,
    ConfigUnavailable(Seq<char>),
    UnsupportedFormat(Seq<char>),
    StreamRejected(SampleEncoding, Seq<char>),
    StartRefused(Seq<char>),
}

impl View for SetupFault {
    type V = SetupFaultView;

    open spec fn view(&self) -> SetupFaultView {
        match self {
            SetupFault::NoInputDevice => SetupFaultView::NoInputDevice,
            SetupFault::ConfigUnavailable(text) => SetupFaultView::ConfigUnavailable(text@),
            SetupFault::UnsupportedFormat(name) => SetupFaultView::UnsupportedFormat(name@),
            SetupFault::StreamRejected(encoding, text) => SetupFaultView::StreamRejected(
                *encoding,
                text@,
            ),
            SetupFault::StartRefused(text) => SetupFaultView::StartRefused(text@),
        }
    }
}

/// The number of channels a frame is read with: the reported number, but at
/// least one.
pub open spec fn floored_channels(reported: u16) -> int {
    if reported == 0 {
        1
    } else {
        reported as int
    }
}

/// The encoding the normaliser uses for a device format, if it handles it.
pub open spec fn encoding_of(format: NativeFormatView) -> Option<SampleEncoding> {
    match format {
        NativeFormatView::F32 => Some(SampleEncoding::F32),
        NativeFormatView::I16 => Some(SampleEncoding::I16),
        NativeFormatView::U16 => Some(SampleEncoding::U16),
        NativeFormatView::Other(_) => None,
    }
}

/// The name of an encoding as it appears in messages.
pub open spec fn encoding_name(encoding: SampleEncoding) -> Seq<char> {
    match encoding {
        SampleEncoding::F32 => "f32"@,
        SampleEncoding::I16 => "i16"@,
        SampleEncoding::U16 => "u16"@,
    }
}

/// What each setup fault is reported as.
pub open spec fn setup_error_view(fault: SetupFaultView) -> CaptureErrorView {
    match fault {
        SetupFaultView::NoInputDevice => CaptureErrorView::DeviceError(
            "No audio input device found."@,
        ),
        SetupFaultView::ConfigUnavailable(text) => CaptureErrorView::DeviceError(
            "Failed to read default input config: "@ + text,
        ),
        SetupFaultView::UnsupportedFormat(name) => CaptureErrorView::UnsupportedFormat(name),
        SetupFaultView::StreamRejected(encoding, text) => CaptureErrorView::DeviceError(
            "Unable to create "@ + encoding_name(encoding) + " input stream: "@ + text,
        ),
        SetupFaultView::StartRefused(text) => CaptureErrorView::DeviceError(
            "Failed to start input stream: "@ + text,
        ),
    }
}

/// Chooses how a stream is read from what the device reports.
///
/// The three handled encodings are taken as they are; any other is refused
/// by name. A reported channel count of zero is read as one.
pub fn plan_stream(format: NativeFormat, reported_channels: u16) -> (r: Result<
    StreamPlan,
    SetupFault,
>)
    ensures
        match format@ {
            NativeFormatView::Other(name) => r matches Err(fault) && fault@
                == SetupFaultView::UnsupportedFormat(name),
            _ => r == Ok::<StreamPlan, SetupFault>(
                StreamPlan {
                    encoding: encoding_of(format@).unwrap(),
                    channels: floored_channels(reported_channels) as usize,
                },
            ),
        },
{
    let channels: usize = if reported_channels == 0 {
        1
    } else {
        reported_channels as usize
    };
    match format {
        NativeFormat::F32 => Ok(StreamPlan { encoding: SampleEncoding::F32, channels }),
        NativeFormat::I16 => Ok(StreamPlan { encoding: SampleEncoding::I16, channels }),
        NativeFormat::U16 => Ok(StreamPlan { encoding: SampleEncoding::U16, channels }),
        NativeFormat::Other(name) => Err(SetupFault::UnsupportedFormat(name)),
    }
}

/// Turns a setup fault into the error that a start reports.
pub fn setup_error(fault: SetupFault) -> (e: CaptureError)
    ensures
        e@ == setup_error_view(fault@),
        e@ is DeviceError || e@ is UnsupportedFormat,
{
    match fault {
        SetupFault::NoInputDevice => CaptureError::DeviceError(
            String::from_str("No audio input device found."),
        ),
        SetupFault::ConfigUnavailable(text) => CaptureError::DeviceError(
            String::from_str("Failed to read default input config: ").concat(text.as_str()),
        ),
        SetupFault::UnsupportedFormat(name) => CaptureError::UnsupportedFormat(name),
        SetupFault::StreamRejected(encoding, text) => {
            let kind = match encoding {
                SampleEncoding::F32 => "f32",
                SampleEncoding::I16 => "i16",
                SampleEncoding::U16 => "u16",
            };
            let head = String::from_str("Unable to create ").concat(kind).concat(
                " input stream: ",
            );
            CaptureError::DeviceError(head.concat(text.as_str()))
        },
        SetupFault::StartRefused(text) => CaptureError::DeviceError(
            String::from_str("Failed to start input stream: ").concat(text.as_str()),
        ),
    }
}

} // verus!
