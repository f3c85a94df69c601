//! The sample normaliser: one mono sample per frame of a device callback.
//!
//! Every channel sample is first brought to the unit range, by its encoding;
//! the mono sample of a frame is the mean of its channel samples. All of it
//! is single-precision arithmetic, on bit patterns: the sum of a frame is
//! taken from left to right, beginning at negative zero, and divided by the
//! number of its samples.

use vstd::prelude::*;
use vstd::arithmetic::power2::{lemma2_to64, pow2};
use crate::frames::{
    count_frames, frame_count, frame_end, frame_range, frame_start, frames_tile_the_batch,
    whole_frames_are_counted,
};
use crate::single::{
    exact_sum, exponent_of, integers_are_positive_numbers, is_zero, level_is_determined,
    nearest_single, one_more_is_the_next_integer, packed, power_of_two_is_exact,
    self_quotient_is_one, signed_significand, significand_of, single_add, single_div,
    single_double, single_doubled, single_from_integer, single_negated, single_of_integer,
    single_quotient, single_sub, single_sum, small_integer_is_exact, zero_added_to_zero_is_zero,
    zero_divided_is_zero, NEGATIVE_ZERO_BITS, ONE_BITS,
};

verus! {

/// The sum of a frame's samples, taken from left to right and beginning at
/// negative zero.
pub open spec fn frame_sum(frame: Seq<u32>) -> u32
    decreases frame.len(),
{
    if frame.len() == 0 {
        NEGATIVE_ZERO_BITS
    } else {
        single_sum(frame_sum(frame.drop_last()), frame.last())
    }
}

/// The mean of a frame's samples: their sum, divided by their number.
pub open spec fn frame_mean(frame: Seq<u32>) -> u32 {
    single_quotient(frame_sum(frame), single_of_integer(false, frame.len() as int))
}

/// A signed 16-bit sample in the unit range: divided by 32767.
pub open spec fn unit_from_i16(sample: i16) -> u32 {
    single_quotient(
        single_of_integer(
            sample < 0,
            if sample < 0 {
                -(sample as int)
            } else {
                sample as int
            },
        ),
        single_of_integer(false, 32767),
    )
}

/// An unsigned 16-bit sample in the unit range: divided by 65535, doubled,
/// less one.
pub open spec fn unit_from_u16(sample: u16) -> u32 {
    single_sum(
        single_doubled(
            single_quotient(single_of_integer(false, sample as int), single_of_integer(false, 65535)),
        ),
        single_negated(ONE_BITS),
    )
}

/// A batch of signed 16-bit samples in the unit range.
pub open spec fn units_of_i16(data: Seq<i16>) -> Seq<u32> {
    Seq::new(data.len(), |i: int| unit_from_i16(data[i]))
}

/// A batch of unsigned 16-bit samples in the unit range.
pub open spec fn units_of_u16(data: Seq<u16>) -> Seq<u32> {
    Seq::new(data.len(), |i: int| unit_from_u16(data[i]))
}

/// The samples of frame `index` of a batch.
pub open spec fn frame_of(data: Seq<u32>, channels: nat, index: nat) -> Seq<u32> {
    data.subrange(
        frame_start(channels, index) as int,
        frame_end(data.len(), channels, index) as int,
    )
}

/// The mono samples that a batch gives: the mean of each of its frames, in
/// order. A batch without samples, or without a channel, gives none.
pub open spec fn mono_samples(data: Seq<u32>, channels: nat) -> Seq<u32> {
    Seq::new(
        frame_count(data.len(), channels),
        |i: int| frame_mean(frame_of(data, channels, i as nat)),
    )
}

/// Brings a signed 16-bit sample to the unit range.
pub fn scale_i16(sample: i16) -> (unit: u32)
    ensures
        unit == unit_from_i16(sample),
{
    let wide: i32 = sample as i32;
    let magnitude: u64 = if wide < 0 {
        (-wide) as u64
    } else {
        wide as u64
    };
    single_div(single_from_integer(wide < 0, magnitude), single_from_integer(false, 32767))
}

/// Brings an unsigned 16-bit sample to the unit range.
pub fn scale_u16(sample: u16) -> (unit: u32)
    ensures
        unit == unit_from_u16(sample),
{
    let ratio: u32 = single_div(
        single_from_integer(false, sample as u64),
        single_from_integer(false, 65535),
    );
    single_sub(single_double(ratio), ONE_BITS)
}

/// The mean of the samples of `data` from `start` up to `end`.
fn mean_of_range(data: &[u32], start: usize, end: usize) -> (mean: u32)
    requires
        start <= end <= data@.len(),
    ensures
        mean == frame_mean(data@.subrange(start as int, end as int)),
{
    let mut sum: u32 = NEGATIVE_ZERO_BITS;
    let mut at: usize = start;
    while at < end
        invariant
            start <= at <= end <= data@.len(),
            sum == frame_sum(data@.subrange(start as int, at as int)),
        decreases end - at,
    {
        proof {
            let longer = data@.subrange(start as int, at + 1);
            assert(longer.drop_last() =~= data@.subrange(start as int, at as int));
            assert(longer.last() == data@[at as int]);
        }
        sum = single_add(sum, data[at]);
        at = at + 1;
    }
    single_div(sum, single_from_integer(false, (end - start) as u64))
}

/// Appends to `samples` one mono sample per frame of a batch of
/// single-precision samples with `channels` interleaved channels. A batch
/// without samples, or a channel count of zero, appends nothing.
pub fn push_f32_samples(data: &[u32], channels: usize, samples: &mut Vec<u32>)
    ensures
        final(samples)@ == old(samples)@ + mono_samples(data@, channels as nat),
{
    let ghost before = samples@;
    let ghost wanted = mono_samples(data@, channels as nat);
    let frames: usize = count_frames(data.len(), channels);
    let mut index: usize = 0;
    while index < frames
        invariant
            index <= frames,
            frames == frame_count(data@.len(), channels as nat),
            wanted == mono_samples(data@, channels as nat),
            samples@ == before + wanted.take(index as int),
        decreases frames - index,
    {
        let (start, end) = frame_range(data.len(), channels, index);
        let mean: u32 = mean_of_range(data, start, end);
        samples.push(mean);
        proof {
            assert(mean == wanted[index as int]);
            assert(wanted.take(index + 1) =~= wanted.take(index as int).push(mean));
            assert(before + wanted.take(index + 1) =~= (before + wanted.take(index as int)).push(
                mean,
            ));
        }
        index = index + 1;
    }
    proof {
        assert(wanted.take(frames as int) =~= wanted);
    }
}

/// Appends to `samples` one mono sample per frame of a batch of signed
/// 16-bit samples with `channels` interleaved channels.
pub fn push_i16_samples(data: &[i16], channels: usize, samples: &mut Vec<u32>)
    ensures
        final(samples)@ == old(samples)@ + mono_samples(units_of_i16(data@), channels as nat),
{
    let mut units: Vec<u32> = Vec::new();
    let mut at: usize = 0;
    while at < data.len()
        invariant
            at <= data@.len(),
            units@ == units_of_i16(data@).take(at as int),
        decreases data@.len() - at,
    {
        let unit: u32 = scale_i16(data[at]);
        units.push(unit);
        proof {
            assert(units@ =~= units_of_i16(data@).take(at + 1));
        }
        at = at + 1;
    }
    proof {
        assert(units@ =~= units_of_i16(data@));
    }
    push_f32_samples(units.as_slice(), channels, samples);
}

/// Appends to `samples` one mono sample per frame of a batch of unsigned
/// 16-bit samples with `channels` interleaved channels.
pub fn push_u16_samples(data: &[u16], channels: usize, samples: &mut Vec<u32>)
    ensures
        final(samples)@ == old(samples)@ + mono_samples(units_of_u16(data@), channels as nat),
{
    let mut units: Vec<u32> = Vec::new();
    let mut at: usize = 0;
    while at < data.len()
        invariant
            at <= data@.len(),
            units@ == units_of_u16(data@).take(at as int),
        decreases data@.len() - at,
    {
        let unit: u32 = scale_u16(data[at]);
        units.push(unit);
        proof {
            assert(units@ =~= units_of_u16(data@).take(at + 1));
        }
        at = at + 1;
    }
    proof {
        assert(units@ =~= units_of_u16(data@));
    }
    push_f32_samples(units.as_slice(), channels, samples);
}

/// The sum of a frame of zeros is a zero, and is zero itself once the frame
/// has a sample.
proof fn sum_of_zeros(frame: Seq<u32>)
    requires
        forall|i: int| 0 <= i < frame.len() ==> frame[i] == 0,
    ensures
        is_zero(frame_sum(frame)),
        frame.len() > 0 ==> frame_sum(frame) == 0,
    decreases frame.len(),
{
    if frame.len() > 0 {
        sum_of_zeros(frame.drop_last());
        zero_added_to_zero_is_zero(frame_sum(frame.drop_last()));
    }
}

/// Silence stays silence: `frames` whole frames of zeros, with any number of
/// channels from one up, give `frames` mono samples that are all zero.
pub proof fn silence_gives_zeros(data: Seq<u32>, channels: nat, frames: nat)
    requires
        channels >= 1,
        data.len() == frames * channels,
        forall|i: int| 0 <= i < data.len() ==> data[i] == 0,
    ensures
        mono_samples(data, channels).len() == frames,
        forall|i: int| 0 <= i < frames ==> mono_samples(data, channels)[i] == 0,
{
    whole_frames_are_counted(frames, channels);
    assert forall|i: int| 0 <= i < frames implies mono_samples(data, channels)[i] == 0 by {
        frames_tile_the_batch(data.len(), channels, i as nat);
        let frame = frame_of(data, channels, i as nat);
        sum_of_zeros(frame);
        integers_are_positive_numbers(frame.len() as int);
        zero_divided_is_zero(single_of_integer(false, frame.len() as int));
    }
}

/// A signed 16-bit zero is zero in the unit range, so that silence in that
/// encoding is silence as single-precision samples.
pub proof fn signed_silence_is_silence(data: Seq<i16>)
    requires
        forall|i: int| 0 <= i < data.len() ==> data[i] == 0,
    ensures
        unit_from_i16(0) == 0,
        forall|i: int| 0 <= i < data.len() ==> units_of_i16(data)[i] == 0,
{
    integers_are_positive_numbers(32767);
    zero_divided_is_zero(single_of_integer(false, 32767));
}

/// Full scale is exactly one: the largest signed 16-bit sample and the
/// largest unsigned 16-bit sample are one in the unit range, and a frame of
/// one channel at one has the mean one.
pub proof fn full_scale_gives_one()
    ensures
        unit_from_i16(32767) == ONE_BITS,
        unit_from_u16(65535) == ONE_BITS,
        frame_mean(seq![ONE_BITS]) == ONE_BITS,
{
    lemma2_to64();
    // The divisors are numbers, not zero and not infinite.
    integers_are_positive_numbers(32767);
    integers_are_positive_numbers(65535);
    level_is_determined(32767, 14);
    level_is_determined(65535, 15);
    assert(single_of_integer(false, 32767) == packed(0xff_fe00int, -9));
    assert(single_of_integer(false, 65535) == packed(0xff_ff00int, -8));
    self_quotient_is_one(single_of_integer(false, 32767));
    self_quotient_is_one(single_of_integer(false, 65535));
    // One doubled is two, and two less one is one.
    power_of_two_is_exact(24);
    power_of_two_is_exact(23);
    power_of_two_is_exact(0);
    assert(single_doubled(ONE_BITS) == 0x4000_0000);
    assert(single_negated(ONE_BITS) == 0xbf80_0000);
    assert(exponent_of(0x4000_0000) == -22 && significand_of(0x4000_0000) == 0x80_0000);
    assert(exponent_of(0xbf80_0000) == -23 && signed_significand(0xbf80_0000) == -0x80_0000);
    assert(exact_sum(0x4000_0000, 0xbf80_0000) == 0x80_0000);
    assert(pow2(23) == 0x80_0000);
    assert(nearest_single(false, 0x80_0000, 1, -23) == ONE_BITS);
    assert(single_sum(0x4000_0000, 0xbf80_0000) == ONE_BITS);
    // A frame of the one sample one.
    let frame = seq![ONE_BITS];
    assert(frame.drop_last() =~= Seq::<u32>::empty());
    assert(frame_sum(frame.drop_last()) == NEGATIVE_ZERO_BITS);
    assert(frame_sum(frame) == single_sum(NEGATIVE_ZERO_BITS, ONE_BITS));
    assert(single_sum(NEGATIVE_ZERO_BITS, ONE_BITS) == ONE_BITS);
    assert(single_of_integer(false, 1) == ONE_BITS);
    self_quotient_is_one(ONE_BITS);
}

/// The sum of a frame of ones is the number of its samples, as long as that
/// number is one that single precision counts exactly.
proof fn sum_of_ones(frame: Seq<u32>)
    requires
        1 <= frame.len() <= 0x100_0000,
        forall|i: int| 0 <= i < frame.len() ==> frame[i] == ONE_BITS,
    ensures
        frame_sum(frame) == single_of_integer(false, frame.len() as int),
    decreases frame.len(),
{
    lemma2_to64();
    power_of_two_is_exact(0);
    if frame.len() == 1 {
        assert(frame.drop_last() =~= Seq::<u32>::empty());
        assert(frame_sum(frame.drop_last()) == NEGATIVE_ZERO_BITS);
        assert(single_sum(NEGATIVE_ZERO_BITS, ONE_BITS) == ONE_BITS);
    } else {
        sum_of_ones(frame.drop_last());
        one_more_is_the_next_integer(frame.len() - 1);
    }
}

/// Full scale stays full scale: `frames` whole frames whose channels are all
/// at one, with any number of channels from one up to `2^24`, give `frames`
/// mono samples that are all exactly one. (Beyond `2^24` channels single
/// precision no longer counts every sample of a frame.)
pub proof fn full_scale_frames_give_one(data: Seq<u32>, channels: nat, frames: nat)
    requires
        1 <= channels <= 0x100_0000,
        data.len() == frames * channels,
        forall|i: int| 0 <= i < data.len() ==> data[i] == ONE_BITS,
    ensures
        mono_samples(data, channels).len() == frames,
        forall|i: int| 0 <= i < frames ==> mono_samples(data, channels)[i] == ONE_BITS,
{
    lemma2_to64();
    whole_frames_are_counted(frames, channels);
    assert forall|i: int| 0 <= i < frames implies mono_samples(data, channels)[i]
        == ONE_BITS by {
        frames_tile_the_batch(data.len(), channels, i as nat);
        let frame = frame_of(data, channels, i as nat);
        sum_of_ones(frame);
        let count = single_of_integer(false, frame.len() as int);
        if frame.len() == 0x100_0000 {
            power_of_two_is_exact(24);
            assert(pow2(24) == 0x100_0000);
            assert(count == 0x4b80_0000);
        } else {
            small_integer_is_exact(frame.len() as int);
        }
        self_quotient_is_one(count);
    }
}

/// Batches of the largest signed and of the largest unsigned 16-bit sample
/// are batches of ones in the unit range.
pub proof fn full_scale_units_are_ones(signed: Seq<i16>, unsigned: Seq<u16>)
    requires
        forall|i: int| 0 <= i < signed.len() ==> signed[i] == 32767,
        forall|i: int| 0 <= i < unsigned.len() ==> unsigned[i] == 65535,
    ensures
        forall|i: int| 0 <= i < signed.len() ==> units_of_i16(signed)[i] == ONE_BITS,
        forall|i: int| 0 <= i < unsigned.len() ==> units_of_u16(unsigned)[i] == ONE_BITS,
{
    full_scale_gives_one();
}

} // verus!
