//! How a device callback's interleaved samples are cut into frames.
//!
//! A batch of `len` samples with `channels` channels is read as consecutive
//! frames of `channels` samples each; where `len` is not a multiple of
//! `channels`, the last frame is shorter. Each frame gives one mono sample:
//! the mean of its channels.

use vstd::prelude::*;

verus! {

/// The number of frames in a batch: none when the batch is empty or there is
/// no channel, and otherwise `len / channels`, rounded up.
pub open spec fn frame_count(len: nat, channels: nat) -> nat {
    if channels == 0 || len == 0 {
        0
    } else {
        ((len + channels - 1) / channels as int) as nat
    }
}

/// The index in the batch at which frame `index` begins.
pub open spec fn frame_start(channels: nat, index: nat) -> nat {
    index * channels
}

/// The index in the batch just past the last sample of frame `index`.
pub open spec fn frame_end(len: nat, channels: nat, index: nat) -> nat {
    if (index + 1) * channels <= len {
        (index + 1) * channels
    } else {
        len
    }
}

/// The frames cover the batch: the first begins at 0, each begins where the
/// one before it ends, and the last ends at `len`. No frame is empty, none is
/// longer than `channels`, and only the last can be shorter.
pub proof fn frames_tile_the_batch(len: nat, channels: nat, index: nat)
    requires
        index < frame_count(len, channels),
    ensures
        frame_start(channels, 0) == 0,
        frame_start(channels, index) < frame_end(len, channels, index) <= len,
        frame_end(len, channels, index) - frame_start(channels, index) <= channels,
        index + 1 < frame_count(len, channels) ==> {
            &&& frame_end(len, channels, index) == frame_start(channels, index + 1)
            &&& frame_end(len, channels, index) - frame_start(channels, index) == channels
        },
        index + 1 == frame_count(len, channels) ==> frame_end(len, channels, index) == len,
{
    let c = channels as int;
    let count = frame_count(len, channels) as int;
    let top = len + c - 1;
    assert(top == c * (top / c) + top % c && 0 <= top % c < c) by {
        vstd::arithmetic::div_mod::lemma_fundamental_div_mod(top, c);
        vstd::arithmetic::div_mod::lemma_mod_bound(top, c);
    }
    assert(count == top / c);
    // count * c lies in (len - 1, len + c - 1], so (count - 1) * c < len <= count * c.
    assert(c * count <= top && top < c * count + c);
    assert((index + 1) * c == index * c + c) by (nonlinear_arith);
    assert(index * c <= (count - 1) * c) by (nonlinear_arith)
        requires
            index <= count - 1,
            c > 0,
    ;
    assert((count - 1) * c == c * count - c) by (nonlinear_arith);
    if index + 1 < count {
        assert((index + 1) * c <= (count - 1) * c) by (nonlinear_arith)
            requires
                index + 1 <= count - 1,
                c > 0,
        ;
    } else {
        assert(index + 1 == count);
        assert((index + 1) * c == c * count) by (nonlinear_arith)
            requires
                index + 1 == count,
        ;
    }
}

/// A batch of whole frames has as many frames as its length says: `frames`
/// frames of `channels` samples each are counted as `frames`.
pub proof fn whole_frames_are_counted(frames: nat, channels: nat)
    requires
        channels >= 1,
    ensures
        frame_count(frames * channels, channels) == frames,
{
    let c = channels as int;
    let f = frames as int;
    if frames == 0 {
        assert(frames * channels == 0) by (nonlinear_arith)
            requires
                frames == 0,
        ;
    } else {
        assert(f * c >= c) by (nonlinear_arith)
            requires
                f >= 1,
                c >= 1,
        ;
        assert((f * c + c - 1) / c == f) by {
            vstd::arithmetic::div_mod::lemma_fundamental_div_mod_converse(
                f * c + c - 1,
                c,
                f,
                c - 1,
            );
        }
    }
}

/// The number of mono samples that a batch of `len` interleaved samples
/// gives. A batch without samples, or a channel count of zero, gives none.
pub fn count_frames(len: usize, channels: usize) -> (count: usize)
    ensures
        count == frame_count(len as nat, channels as nat),
{
    if channels == 0 || len == 0 {
        return 0;
    }
    let whole: usize = len / channels;
    let rest: usize = len % channels;
    proof {
        let c = channels as int;
        let l = len as int;
        assert(l == c * (l / c) + l % c && 0 <= l % c < c) by {
            vstd::arithmetic::div_mod::lemma_fundamental_div_mod(l, c);
            vstd::arithmetic::div_mod::lemma_mod_bound(l, c);
        }
        if l % c == 0 {
            assert((l + c - 1) / c == l / c) by {
                vstd::arithmetic::div_mod::lemma_fundamental_div_mod_converse(
                    l + c - 1,
                    c,
                    l / c,
                    c - 1,
                );
            }
        } else {
            assert((l + c - 1) / c == l / c + 1) by {
                assert(c * (l / c + 1) == c * (l / c) + c) by (nonlinear_arith);
                vstd::arithmetic::div_mod::lemma_fundamental_div_mod_converse(
                    l + c - 1,
                    c,
                    l / c + 1,
                    l % c - 1,
                );
            }
            assert(c * (l / c) >= l / c) by (nonlinear_arith)
                requires
                    c >= 1,
                    l / c >= 0,
            ;
        }
    }
    if rest == 0 {
        whole
    } else {
        whole + 1
    }
}

/// The half-open range of batch indices that frame `index` covers.
pub fn frame_range(len: usize, channels: usize, index: usize) -> (range: (usize, usize))
    requires
        index < frame_count(len as nat, channels as nat),
    ensures
        range.0 == frame_start(channels as nat, index as nat),
        range.1 == frame_end(len as nat, channels as nat, index as nat),
        range.0 < range.1 <= len,
        range.1 - range.0 <= channels,
{
    proof {
        frames_tile_the_batch(len as nat, channels as nat, index as nat);
        assert((index + 1) * channels == index * channels + channels) by (nonlinear_arith);
    }
    let start: usize = index * channels;
    let end: usize = if len - start >= channels {
        start + channels
    } else {
        len
    };
    (start, end)
}

} // verus!
