//! The WAV container of a finished recording: mono, 16-bit integer PCM.
//!
//! The bytes are produced by the `hound` crate. What this module proves is
//! which format and which samples are handed to it, in which order, and what
//! the caller gets for each answer of the writer.

use vstd::prelude::*;
use crate::error::{CaptureError, CaptureErrorView};
use crate::quantize::{quantize_sample, quantized_all};

verus! {

/// The highest sample rate whose byte rate (two bytes per sample) still fits
/// the 32-bit field of the header.
pub const MAX_SAMPLE_RATE: u32 = 0x7fff_ffff;

/// The largest number of samples whose payload, with the 36 header bytes that
/// the RIFF size field counts, still fits that 32-bit field.
pub const MAX_SAMPLE_COUNT: usize = 2_147_483_629;

/// The two bytes of a 16-bit value, low byte first.
pub open spec fn le_u16(x: int) -> Seq<u8> {
    seq![(x % 256) as u8, ((x / 256) % 256) as u8]
}

/// The four bytes of a 32-bit value, low byte first.
pub open spec fn le_u32(x: int) -> Seq<u8> {
    seq![
        (x % 256) as u8,
        ((x / 256) % 256) as u8,
        ((x / 65536) % 256) as u8,
        ((x / 16777216) % 256) as u8,
    ]
}

/// The two bytes of a sample: two's complement, low byte first.
pub open spec fn sample_bytes(s: i16) -> Seq<u8> {
    le_u16(
        if s < 0 {
            s + 65536
        } else {
            s as int
        },
    )
}

/// The data chunk's payload: every sample's two bytes, in order.
pub open spec fn pcm_payload(samples: Seq<i16>) -> Seq<u8> {
    Seq::new(2 * samples.len(), |i: int| sample_bytes(samples[i / 2])[i % 2])
}

/// The 44 header bytes of a mono 16-bit PCM file with `count` samples:
/// the RIFF chunk header, the `fmt ` chunk and the header of the `data` chunk.
pub open spec fn wav_header(sample_rate: u32, count: nat) -> Seq<u8> {
    seq![0x52u8, 0x49u8, 0x46u8, 0x46u8]  // "RIFF"
     + le_u32(36 + 2 * (count as int))  // bytes that follow this field
     + seq![0x57u8, 0x41u8, 0x56u8, 0x45u8]  // "WAVE"
     + seq![0x66u8, 0x6du8, 0x74u8, 0x20u8]  // "fmt "
     + le_u32(16)  // size of the fmt chunk
     + le_u16(1)  // integer PCM
     + le_u16(1)  // one channel
     + le_u32(sample_rate as int) + le_u32(2 * sample_rate)  // bytes per second
     + le_u16(2)  // bytes per frame
     + le_u16(16)  // bits per sample
     + seq![0x64u8, 0x61u8, 0x74u8, 0x61u8]  // "data"
     + le_u32(2 * (count as int))  // bytes of payload
}

/// The complete file: header, then payload.
pub open spec fn wav_file(sample_rate: u32, samples: Seq<i16>) -> Seq<u8> {
    wav_header(sample_rate, samples.len()) + pcm_payload(samples)
}

/// Whether a recording of `count` samples at `sample_rate` fits the container.
pub open spec fn encodable(sample_rate: u32, count: nat) -> bool {
    1 <= sample_rate <= MAX_SAMPLE_RATE && count <= MAX_SAMPLE_COUNT
}

/// The step of writing the container at which the writer reported a fault.
#[derive(Debug, Clone, Copy, PartialEq, Eq)]
pub enum EncodingStage {
    /// Setting the writer up, which writes the header.
    Initialize,
    /// Writing a sample.
    WriteSample,
    /// Completing the header once all samples are written.
    Finalize,
}

/// How the text of an encoding fault begins, by stage.
pub open spec fn stage_prefix(stage: EncodingStage) -> Seq<char> {
    match stage {
        EncodingStage::Initialize => "Failed to initialize WAV writer: "@,
        EncodingStage::WriteSample => "Failed while writing WAV samples: "@,
        EncodingStage::Finalize => "Failed to finalize WAV audio: "@,
    }
}

/// The fault reported when the writer fails at `stage` and describes the
/// cause as `detail`.
pub fn encoding_failure(stage: EncodingStage, detail: &str) -> (e: CaptureError)
    ensures
        e@ == CaptureErrorView::EncodingError(stage_prefix(stage) + detail@),
{
    let prefix = match stage {
        EncodingStage::Initialize => String::from_str("Failed to initialize WAV writer: "),
        EncodingStage::WriteSample => String::from_str("Failed while writing WAV samples: "),
        EncodingStage::Finalize => String::from_str("Failed to finalize WAV audio: "),
    };
    CaptureError::EncodingError(prefix.concat(detail))
}

/// The number of channels of the container: one.
pub const CHANNELS: u16 = 1;

/// The number of bits of a sample in the container.
pub const BITS_PER_SAMPLE: u16 = 16;

/// A `hound::WavWriter` that writes a PCM file into a byte vector it
/// borrows. Verus does not accept a declaration of the writer type itself
/// (its bounds are I/O traits), so it is held here, out of Verus's sight.
#[verifier::external_body]
pub struct WavSink<'a> {
    writer: hound::WavWriter<std::io::Cursor<&'a mut Vec<u8>>>,
}

/// The samples that have been written to the sink, in order.
pub uninterp spec fn sink_samples(sink: WavSink) -> Seq<i16>;

/// The sample rate that the sink was set up with.
pub uninterp spec fn sink_rate(sink: WavSink) -> u32;

/// The bytes that the borrowed vector holds once the sink has let go of it.
pub uninterp spec fn sink_outcome(sink: WavSink) -> Seq<u8>;

/// What `hound::WavWriter::new` answers for a format, on a cursor over an
/// empty vector: `None` where it hands out a writer, else the text of its
/// error.
pub uninterp spec fn begin_fault(
    channels: u16,
    sample_rate: u32,
    bits_per_sample: u16,
    integer: bool,
) -> Option<Seq<char>>;

/// What `hound::WavWriter::write_sample` answers for a 16-bit sample, on a
/// mono 16-bit writer at `sample_rate` that has written `written`: `None`
/// where it accepts the sample, else the text of its error.
pub uninterp spec fn write_fault(sample_rate: u32, written: Seq<i16>, sample: i16) -> Option<
    Seq<char>,
>;

/// What `hound::WavWriter::finalize` answers, on a mono 16-bit writer at
/// `sample_rate` that has written `written`: `None` where it completes the
/// file, else the text of its error.
pub uninterp spec fn finalize_fault(sample_rate: u32, written: Seq<i16>) -> Option<Seq<char>>;

/// `hound::WavWriter::new`, on a cursor over the empty vector `out`, for
/// integer samples in the given format.
///
/// Claimed: the answer is the one that `begin_fault` names. A sink that is
/// handed out has no samples yet, keeps the rate, and its outcome is what
/// `out` will hold when the borrow ends. Only the mono 16-bit integer format
/// is let in, and no rate of 0 or above `MAX_SAMPLE_RATE`, where the writer
/// divides by the rate and doubles it in 32 bits.
#[verifier::external_body]
fn sink_begin<'a>(
    out: &'a mut Vec<u8>,
    channels: u16,
    sample_rate: u32,
    bits_per_sample: u16,
    integer: bool,
) -> (r: Result<WavSink<'a>, String>)
    requires
        old(out)@.len() == 0,
        channels == CHANNELS,
        bits_per_sample == BITS_PER_SAMPLE,
        integer,
        1 <= sample_rate <= MAX_SAMPLE_RATE,
    ensures
        match r {
            Ok(sink) => {
                &&& begin_fault(channels, sample_rate, bits_per_sample, integer) is None
                &&& sink_samples(sink) == Seq::<i16>::empty()
                &&& sink_rate(sink) == sample_rate
                &&& sink_outcome(sink) == final(out)@
            },
            Err(text) => begin_fault(channels, sample_rate, bits_per_sample, integer) == Some(
                text@,
            ),
        },
{
    let sample_format = if integer {
        hound::SampleFormat::Int
    } else {
        hound::SampleFormat::Float
    };
    let spec = hound::WavSpec { channels, sample_rate, bits_per_sample, sample_format };
    match hound::WavWriter::new(std::io::Cursor::new(out), spec) {
        Ok(writer) => Ok(WavSink { writer }),
        Err(err) => Err(format!("{}", err)),
    }
}

/// `hound::WavWriter::write_sample`, for a 16-bit sample.
///
/// Claimed: the answer is the one that `write_fault` names. On success the
/// sample is appended to what the sink has written. Rate and outcome are
/// those of the sink before the call. The writer counts payload bytes in 32
/// bits, so a sink that is full is left out.
#[verifier::external_body]
fn sink_write<'a>(sink: &mut WavSink<'a>, sample: i16) -> (r: Result<(), String>)
    requires
        sink_samples(*old(sink)).len() < MAX_SAMPLE_COUNT,
    ensures
        sink_rate(*final(sink)) == sink_rate(*old(sink)),
        sink_outcome(*final(sink)) == sink_outcome(*old(sink)),
        match r {
            Ok(_) => {
                &&& write_fault(sink_rate(*old(sink)), sink_samples(*old(sink)), sample) is None
                &&& sink_samples(*final(sink)) == sink_samples(*old(sink)).push(sample)
            },
            Err(text) => write_fault(sink_rate(*old(sink)), sink_samples(*old(sink)), sample)
                == Some(text@),
        },
{
    match sink.writer.write_sample(sample) {
        Ok(()) => Ok(()),
        Err(err) => Err(format!("{}", err)),
    }
}

/// `hound::WavWriter::finalize`.
///
/// Claimed: the answer is the one that `finalize_fault` names. On success
/// the borrowed vector holds the complete file for the sink's rate and the
/// samples written: the 44-byte header with both size fields filled in, then
/// the samples, two bytes each, low byte first.
#[verifier::external_body]
fn sink_finalize<'a>(sink: WavSink<'a>) -> (r: Result<(), String>)
    requires
        sink_samples(sink).len() <= MAX_SAMPLE_COUNT,
    ensures
        match r {
            Ok(_) => {
                &&& finalize_fault(sink_rate(sink), sink_samples(sink)) is None
                &&& sink_outcome(sink) == wav_file(sink_rate(sink), sink_samples(sink))
            },
            Err(text) => finalize_fault(sink_rate(sink), sink_samples(sink)) == Some(text@),
        },
{
    match sink.writer.finalize() {
        Ok(()) => Ok(()),
        Err(err) => Err(format!("{}", err)),
    }
}

/// The first fault of writing `samples` one after the other, from index
/// `from` on; `None` where the writer accepts them all.
pub open spec fn first_write_fault(sample_rate: u32, samples: Seq<i16>, from: int) -> Option<
    Seq<char>,
>
    decreases samples.len() - from,
{
    if from < 0 || from >= samples.len() {
        None
    } else {
        match write_fault(sample_rate, samples.take(from), samples[from]) {
            Some(text) => Some(text),
            None => first_write_fault(sample_rate, samples, from + 1),
        }
    }
}

/// The fault that ends the encoding of `samples` at `sample_rate`: that of
/// the first step the writer refuses, in the order setup, samples,
/// completion. `None` where the writer refuses none.
pub open spec fn encoding_fault(sample_rate: u32, samples: Seq<i16>) -> Option<CaptureErrorView> {
    match begin_fault(CHANNELS, sample_rate, BITS_PER_SAMPLE, true) {
        Some(text) => Some(
            CaptureErrorView::EncodingError(stage_prefix(EncodingStage::Initialize) + text),
        ),
        None => match first_write_fault(sample_rate, samples, 0) {
            Some(text) => Some(
                CaptureErrorView::EncodingError(stage_prefix(EncodingStage::WriteSample) + text),
            ),
            None => match finalize_fault(sample_rate, samples) {
                Some(text) => Some(
                    CaptureErrorView::EncodingError(stage_prefix(EncodingStage::Finalize) + text),
                ),
                None => None,
            },
        },
    }
}

/// Whether `result` is the encoding of `samples` at `sample_rate`: the
/// complete file of the quantised samples where the writer refuses no step,
/// and else the error of the first step it refuses.
pub open spec fn is_encoding_result(
    sample_rate: u32,
    samples: Seq<u32>,
    result: Result<Vec<u8>, CaptureError>,
) -> bool {
    match encoding_fault(sample_rate, quantized_all(samples)) {
        Some(fault) => result matches Err(e) && e@ == fault,
        None => result matches Ok(bytes) && bytes@ == wav_file(
            sample_rate,
            quantized_all(samples),
        ),
    }
}

/// Encodes normalised samples, given by their bit patterns, as a mono 16-bit
/// PCM WAV file at `sample_rate`.
///
/// Each sample is quantised and written in order. Where the writer refuses
/// no step, the result is exactly the file for the quantised samples. The
/// first step it refuses ends the encoding with the `EncodingError` of that
/// step and no bytes.
pub fn encode_wav_bytes(samples: &[u32], sample_rate: u32) -> (r: Result<Vec<u8>, CaptureError>)
    requires
        encodable(sample_rate, samples@.len()),
    ensures
        is_encoding_result(sample_rate, samples@, r),
{
    let ghost wanted = quantized_all(samples@);
    let mut output: Vec<u8> = Vec::new();
    let mut sink = match sink_begin(
        &mut output,
        CHANNELS,
        sample_rate,
        BITS_PER_SAMPLE,
        true,
    ) {
        Ok(sink) => sink,
        Err(text) => {
            return Err(encoding_failure(EncodingStage::Initialize, text.as_str()));
        },
    };
    let mut i: usize = 0;
    while i < samples.len()
        invariant
            i <= samples@.len() <= MAX_SAMPLE_COUNT,
            wanted == quantized_all(samples@),
            begin_fault(CHANNELS, sample_rate, BITS_PER_SAMPLE, true) is None,
            first_write_fault(sample_rate, wanted, 0) == first_write_fault(
                sample_rate,
                wanted,
                i as int,
            ),
            sink_rate(sink) == sample_rate,
            sink_samples(sink) == wanted.take(i as int),
            sink_outcome(sink) == after_borrow(output)@,
        decreases samples@.len() - i,
    {
        let quantized: i16 = quantize_sample(samples[i]);
        proof {
            assert(wanted[i as int] == quantized);
        }
        match sink_write(&mut sink, quantized) {
            Ok(()) => {},
            Err(text) => {
                return Err(encoding_failure(EncodingStage::WriteSample, text.as_str()));
            },
        }
        proof {
            assert(wanted.take(i as int).push(quantized) =~= wanted.take(i + 1));
        }
        i = i + 1;
    }
    proof {
        assert(wanted.take(i as int) =~= wanted);
    }
    match sink_finalize(sink) {
        Ok(()) => {},
        Err(text) => {
            return Err(encoding_failure(EncodingStage::Finalize, text.as_str()));
        },
    }
    Ok(output)
}

/// The 16-bit value that two bytes at `at` stand for, low byte first.
pub open spec fn read_le_u16(bytes: Seq<u8>, at: int) -> int {
    bytes[at] as int + 256 * (bytes[at + 1] as int)
}

/// The 32-bit value that four bytes at `at` stand for, low byte first.
pub open spec fn read_le_u32(bytes: Seq<u8>, at: int) -> int {
    bytes[at] as int + 256 * (bytes[at + 1] as int) + 65536 * (bytes[at + 2] as int) + 16777216
        * (bytes[at + 3] as int)
}

/// The sample at `index` of a file's payload, read as two's complement.
pub open spec fn read_sample(bytes: Seq<u8>, index: int) -> int {
    let raw = read_le_u16(bytes, 44 + 2 * index);
    if raw >= 32768 {
        raw - 65536
    } else {
        raw
    }
}

/// Where each field of the header lies.
proof fn header_layout(sample_rate: u32, count: nat)
    ensures
        ({
            let h = wav_header(sample_rate, count);
            &&& h.len() == 44
            &&& h.subrange(0, 4) == seq![0x52u8, 0x49u8, 0x46u8, 0x46u8]
            &&& h.subrange(4, 8) == le_u32(36 + 2 * (count as int))
            &&& h.subrange(8, 12) == seq![0x57u8, 0x41u8, 0x56u8, 0x45u8]
            &&& h.subrange(12, 16) == seq![0x66u8, 0x6du8, 0x74u8, 0x20u8]
            &&& h.subrange(16, 20) == le_u32(16)
            &&& h.subrange(20, 22) == le_u16(1)
            &&& h.subrange(22, 24) == le_u16(1)
            &&& h.subrange(24, 28) == le_u32(sample_rate as int)
            &&& h.subrange(28, 32) == le_u32(2 * sample_rate)
            &&& h.subrange(32, 34) == le_u16(2)
            &&& h.subrange(34, 36) == le_u16(16)
            &&& h.subrange(36, 40) == seq![0x64u8, 0x61u8, 0x74u8, 0x61u8]
            &&& h.subrange(40, 44) == le_u32(2 * (count as int))
        }),
{
    let h = wav_header(sample_rate, count);
    let head1 = seq![0x52u8, 0x49u8, 0x46u8, 0x46u8] + le_u32(36 + 2 * (count as int));
    let head2 = head1 + seq![0x57u8, 0x41u8, 0x56u8, 0x45u8];
    let head3 = head2 + seq![0x66u8, 0x6du8, 0x74u8, 0x20u8];
    let head4 = head3 + le_u32(16);
    let head5 = head4 + le_u16(1);
    let head6 = head5 + le_u16(1);
    let head7 = head6 + le_u32(sample_rate as int);
    let head8 = head7 + le_u32(2 * sample_rate);
    let head9 = head8 + le_u16(2);
    let head10 = head9 + le_u16(16);
    let head11 = head10 + seq![0x64u8, 0x61u8, 0x74u8, 0x61u8];
    let head12 = head11 + le_u32(2 * (count as int));
    assert(head1.len() == 8);
    assert(head2.len() == 12);
    assert(head3.len() == 16);
    assert(head4.len() == 20);
    assert(head5.len() == 22);
    assert(head6.len() == 24);
    assert(head7.len() == 28);
    assert(head8.len() == 32);
    assert(head9.len() == 34);
    assert(head10.len() == 36);
    assert(head11.len() == 40);
    assert(head12.len() == 44);
    assert(h == head12);
    part_is_kept(head12, head11, le_u32(2 * (count as int)));
    part_is_kept(head11, head10, seq![0x64u8, 0x61u8, 0x74u8, 0x61u8]);
    part_is_kept(head10, head9, le_u16(16));
    part_is_kept(head9, head8, le_u16(2));
    part_is_kept(head8, head7, le_u32(2 * sample_rate));
    part_is_kept(head7, head6, le_u32(sample_rate as int));
    part_is_kept(head6, head5, le_u16(1));
    part_is_kept(head5, head4, le_u16(1));
    part_is_kept(head4, head3, le_u32(16));
    part_is_kept(head3, head2, seq![0x66u8, 0x6du8, 0x74u8, 0x20u8]);
    part_is_kept(head2, head1, seq![0x57u8, 0x41u8, 0x56u8, 0x45u8]);
    part_is_kept(
        head1,
        seq![0x52u8, 0x49u8, 0x46u8, 0x46u8],
        le_u32(36 + 2 * (count as int)));
    assert(head11 == h.subrange(0, 40));
    assert(head10 == head11.subrange(0, 36));
    assert(head9 == head10.subrange(0, 34));
    assert(head8 == head9.subrange(0, 32));
    assert(head7 == head8.subrange(0, 28));
    assert(head6 == head7.subrange(0, 24));
    assert(head5 == head6.subrange(0, 22));
    assert(head4 == head5.subrange(0, 20));
    assert(head3 == head4.subrange(0, 16));
    assert(head2 == head3.subrange(0, 12));
    assert(head1 == head2.subrange(0, 8));
    assert(h.subrange(36, 40) =~= head11.subrange(36, 40));
    assert(h.subrange(34, 36) =~= head10.subrange(34, 36));
    assert(h.subrange(32, 34) =~= head9.subrange(32, 34));
    assert(h.subrange(28, 32) =~= head8.subrange(28, 32));
    assert(h.subrange(24, 28) =~= head7.subrange(24, 28));
    assert(h.subrange(22, 24) =~= head6.subrange(22, 24));
    assert(h.subrange(20, 22) =~= head5.subrange(20, 22));
    assert(h.subrange(16, 20) =~= head4.subrange(16, 20));
    assert(h.subrange(12, 16) =~= head3.subrange(12, 16));
    assert(h.subrange(8, 12) =~= head2.subrange(8, 12));
    assert(h.subrange(4, 8) =~= head1.subrange(4, 8));
    assert(h.subrange(0, 4) =~= head1.subrange(0, 4));
}

/// A sequence built as `front + part` has `front` as its beginning and `part`
/// as its end.
proof fn part_is_kept(whole: Seq<u8>, front: Seq<u8>, part: Seq<u8>)
    requires
        whole == front + part,
    ensures
        whole.subrange(0, front.len() as int) == front,
        whole.subrange(front.len() as int, whole.len() as int) == part,
{
    assert(whole.subrange(0, front.len() as int) =~= front);
    assert(whole.subrange(front.len() as int, whole.len() as int) =~= part);
}

/// The four bytes of a 32-bit value stand for that value.
proof fn le_u32_reads_back(x: int)
    requires
        0 <= x < 0x1_0000_0000,
    ensures
        read_le_u32(le_u32(x), 0) == x,
{
}

/// The two bytes of a 16-bit value stand for that value.
proof fn le_u16_reads_back(x: int)
    requires
        0 <= x < 0x1_0000,
    ensures
        read_le_u16(le_u16(x), 0) == x,
{
}

/// A value read from a subrange is the value read from the whole.
proof fn read_within(bytes: Seq<u8>, from: int, to: int)
    requires
        0 <= from,
        from + 2 <= to <= bytes.len(),
    ensures
        read_le_u16(bytes.subrange(from, to), 0) == read_le_u16(bytes, from),
        from + 4 <= to ==> read_le_u32(bytes.subrange(from, to), 0) == read_le_u32(bytes, from),
{
    let part = bytes.subrange(from, to);
    assert(part[0] == bytes[from]);
    assert(part[1] == bytes[from + 1]);
    if from + 4 <= to {
        assert(part[2] == bytes[from + 2]);
        assert(part[3] == bytes[from + 3]);
    }
}

/// Reading a file back gives what was written: the header states one
/// channel, 16 bits and the sample rate, both size fields agree with the
/// number of samples, and every sample is recovered exactly.
pub proof fn file_reads_back(sample_rate: u32, samples: Seq<i16>)
    requires
        encodable(sample_rate, samples.len()),
    ensures
        ({
            let file = wav_file(sample_rate, samples);
            &&& file.len() == 44 + 2 * samples.len()
            &&& file.subrange(0, 4) == seq![0x52u8, 0x49u8, 0x46u8, 0x46u8]
            &&& read_le_u32(file, 4) == file.len() - 8
            &&& file.subrange(8, 12) == seq![0x57u8, 0x41u8, 0x56u8, 0x45u8]
            &&& file.subrange(12, 16) == seq![0x66u8, 0x6du8, 0x74u8, 0x20u8]
            &&& read_le_u32(file, 16) == 16
            &&& read_le_u16(file, 20) == 1
            &&& read_le_u16(file, 22) == 1
            &&& read_le_u32(file, 24) == sample_rate
            &&& read_le_u32(file, 28) == 2 * sample_rate
            &&& read_le_u16(file, 32) == 2
            &&& read_le_u16(file, 34) == 16
            &&& file.subrange(36, 40) == seq![0x64u8, 0x61u8, 0x74u8, 0x61u8]
            &&& read_le_u32(file, 40) == 2 * samples.len()
            &&& forall|i: int|
                0 <= i < samples.len() ==> #[trigger] read_sample(file, i) == samples[i]
        }),
{
    let file = wav_file(sample_rate, samples);
    let h = wav_header(sample_rate, samples.len());
    let n = samples.len() as int;
    header_layout(sample_rate, samples.len());
    assert(h =~= file.subrange(0, 44));
    assert(file.subrange(0, 4) =~= h.subrange(0, 4));
    assert(file.subrange(8, 12) =~= h.subrange(8, 12));
    assert(file.subrange(12, 16) =~= h.subrange(12, 16));
    assert(file.subrange(36, 40) =~= h.subrange(36, 40));
    assert(file.subrange(4, 8) =~= h.subrange(4, 8));
    assert(file.subrange(16, 20) =~= h.subrange(16, 20));
    assert(file.subrange(20, 22) =~= h.subrange(20, 22));
    assert(file.subrange(22, 24) =~= h.subrange(22, 24));
    assert(file.subrange(24, 28) =~= h.subrange(24, 28));
    assert(file.subrange(28, 32) =~= h.subrange(28, 32));
    assert(file.subrange(32, 34) =~= h.subrange(32, 34));
    assert(file.subrange(34, 36) =~= h.subrange(34, 36));
    assert(file.subrange(40, 44) =~= h.subrange(40, 44));
    read_within(file, 4, 8);
    read_within(file, 16, 20);
    read_within(file, 20, 22);
    read_within(file, 22, 24);
    read_within(file, 24, 28);
    read_within(file, 28, 32);
    read_within(file, 32, 34);
    read_within(file, 34, 36);
    read_within(file, 40, 44);
    le_u32_reads_back(36 + 2 * n);
    le_u32_reads_back(16);
    le_u32_reads_back(sample_rate as int);
    le_u32_reads_back(2 * sample_rate);
    le_u32_reads_back(2 * n);
    le_u16_reads_back(1);
    le_u16_reads_back(2);
    le_u16_reads_back(16);
    samples_read_back(sample_rate, samples);
}

/// Every sample of a file's payload is recovered exactly.
proof fn samples_read_back(sample_rate: u32, samples: Seq<i16>)
    ensures
        forall|i: int|
            0 <= i < samples.len() ==> #[trigger] read_sample(
                wav_file(sample_rate, samples),
                i,
            ) == samples[i],
{
    let file = wav_file(sample_rate, samples);
    let h = wav_header(sample_rate, samples.len());
    let payload = pcm_payload(samples);
    header_layout(sample_rate, samples.len());
    assert forall|i: int| 0 <= i < samples.len() implies #[trigger] read_sample(file, i)
        == samples[i] by {
        let s = samples[i];
        assert(file[44 + 2 * i] == payload[2 * i]);
        assert(file[44 + 2 * i + 1] == payload[2 * i + 1]);
        assert((2 * i) / 2 == i && (2 * i) % 2 == 0);
        assert((2 * i + 1) / 2 == i && (2 * i + 1) % 2 == 1);
        assert(payload[2 * i] == sample_bytes(s)[0]);
        assert(payload[2 * i + 1] == sample_bytes(s)[1]);
    }
}

} // verus!
