//! Playing a PCM buffer into the interleaved output of a device, one
//! output frame after the other.

use vstd::prelude::*;
use vstd::arithmetic::div_mod::lemma_fundamental_div_mod_converse;
use crate::units::held;

verus! {

/// The number of output frames that a buffer still feeds: the steps of
/// `file_channels` samples from `index` that start inside the buffer.
pub open spec fn frames_due(samples_len: nat, index: nat, file_channels: nat) -> nat {
    if index >= samples_len || file_channels == 0 {
        0
    } else {
        ((samples_len - index + file_channels - 1) / (file_channels as int)) as nat
    }
}

/// The number of frames in an output of `data_len` samples, the last one
/// counted even when it is cut short.
pub open spec fn output_frames(data_len: nat, device_channels: nat) -> nat {
    if device_channels == 0 {
        0
    } else {
        ((data_len + device_channels - 1) / (device_channels as int)) as nat
    }
}

/// What place `j` of the output holds after a call of [`fill_frames`].
///
/// Output frame `k` takes the samples from `index + k * file_channels`
/// on, as long as playback is on and that place lies inside the buffer;
/// channel `i` of the frame takes the sample of file channel
/// `i % file_channels`, or silence where the buffer has ended. Every
/// other frame is silence.
pub open spec fn output_sample<T>(
    samples: Seq<T>,
    index: nat,
    file_channels: nat,
    device_channels: nat,
    playing: bool,
    silence: T,
    j: int,
) -> T {
    let k = j / (device_channels as int);
    let i = j % (device_channels as int);
    let place = index + k * file_channels + i % (file_channels as int);
    if playing && k < frames_due(samples.len(), index, file_channels) && place < samples.len() {
        samples[place]
    } else {
        silence
    }
}

/// The number of output frames that a call of [`fill_frames`] plays.
pub open spec fn frames_played(
    samples_len: nat,
    index: nat,
    file_channels: nat,
    data_len: nat,
    device_channels: nat,
    playing: bool,
) -> nat {
    let due = frames_due(samples_len, index, file_channels);
    let frames = output_frames(data_len, device_channels);
    if !playing {
        0
    } else if frames <= due {
        frames
    } else {
        due
    }
}

/// A step of `file_channels` samples from `index + k * file_channels`
/// starts inside the buffer exactly for the first `frames_due` steps.
proof fn lemma_frames_due(samples_len: nat, index: nat, file_channels: nat, k: nat)
    requires
        file_channels > 0,
    ensures
        index + k * file_channels < samples_len <==> k < frames_due(
            samples_len,
            index,
            file_channels,
        ),
{
    if index < samples_len {
        let a = (samples_len - index) as int;
        let f = file_channels as int;
        let due = (a + f - 1) / f;
        let r = (a + f - 1) % f;
        assert(a + f - 1 == f * due + r && 0 <= r < f) by (nonlinear_arith)
            requires
                due == (a + f - 1) / f,
                r == (a + f - 1) % f,
                f > 0,
        ;
        if k < due {
            assert(k * f <= (due - 1) * f) by (nonlinear_arith)
                requires
                    0 <= k <= due - 1,
                    f > 0,
            ;
            assert((due - 1) * f == f * due - f) by (nonlinear_arith);
        } else {
            assert(k * f >= due * f) by (nonlinear_arith)
                requires
                    k >= due,
                    f > 0,
            ;
            assert(due * f == f * due) by (nonlinear_arith);
        }
    } else {
        assert(k * file_channels >= 0) by (nonlinear_arith);
    }
}

/// Fills the interleaved output `data` from the samples of a PCM buffer.
///
/// The output is taken frame by frame, `device_channels` samples each.
/// While playback is on and `index` lies inside the buffer, a frame takes
/// the samples at `index` and behind, one per file channel, and `index`
/// moves on by `file_channels`; from the first frame that finds `index`
/// behind the buffer, playback is off. A frame without playback is
/// silence. Returns the new index and whether playback is still on.
pub fn fill_frames<T: Copy>(
    data: &mut [T],
    device_channels: usize,
    samples: &[T],
    index: usize,
    file_channels: u16,
    playing: bool,
    silence: T,
) -> (out: (usize, bool))
    requires
        device_channels > 0,
        file_channels > 0,
    ensures
        final(data)@.len() == old(data)@.len(),
        forall|j: int|
            0 <= j < old(data)@.len() ==> #[trigger] final(data)@[j] == output_sample(
                samples@,
                index as nat,
                file_channels as nat,
                device_channels as nat,
                playing,
                silence,
                j,
            ),
        out.0 == held(
            (index + frames_played(
                samples@.len(),
                index as nat,
                file_channels as nat,
                old(data)@.len(),
                device_channels as nat,
                playing,
            ) * file_channels) as nat,
        ),
        out.1 == (playing && output_frames(old(data)@.len(), device_channels as nat) <= frames_due(
            samples@.len(),
            index as nat,
            file_channels as nat,
        )),
{
    let len: usize = samples.len();
    let total: usize = data.len();
    let step: usize = file_channels as usize;
    let ghost due = frames_due(len as nat, index as nat, step as nat);
    let mut idx: usize = index;
    let mut alive: bool = playing;
    let mut at: usize = 0;
    let ghost mut k: nat = 0;
    proof {
        assert(0 * step == 0) by (nonlinear_arith);
        assert(0 * device_channels == 0) by (nonlinear_arith);
        lemma_fundamental_div_mod_converse(
            device_channels - 1,
            device_channels as int,
            0,
            device_channels - 1,
        );
    }
    while at < total
        invariant
            at <= total,
            total == data@.len(),
            data@.len() == old(data)@.len(),
            len == samples@.len(),
            step == file_channels,
            step > 0,
            device_channels > 0,
            due == frames_due(len as nat, index as nat, step as nat),
            at < total ==> at == k * device_channels,
            at == total ==> k == output_frames(total as nat, device_channels as nat),
            k * device_channels >= at,
            alive == (playing && k <= due),
            playing && k <= due ==> idx == held((index + k * step) as nat),
            playing && k > due ==> idx >= len,
            !playing ==> idx == index,
            playing && k >= due ==> idx == held((index + due * step) as nat),
            forall|j: int|
                0 <= j < at ==> #[trigger] data@[j] == output_sample(
                    samples@,
                    index as nat,
                    step as nat,
                    device_channels as nat,
                    playing,
                    silence,
                    j,
                ),
        decreases total - at,
    {
        let chunk: usize = if total - at >= device_channels {
            device_channels
        } else {
            total - at
        };
        let frame_start: usize = at;
        let active: bool = alive && idx < len;
        proof {
            lemma_frames_due(len as nat, index as nat, step as nat, k);
            if playing && k <= due {
                assert(index + k * step >= 0) by (nonlinear_arith)
                    requires
                        index >= 0,
                        k >= 0,
                        step >= 0,
                ;
            }
            assert(active == (playing && k < due));
            if active {
                assert(idx == index + k * step);
            }
        }
        let mut i: usize = 0;
        while i < chunk
            invariant
                i <= chunk <= device_channels,
                frame_start == k * device_channels,
                at == frame_start + i,
                frame_start + chunk <= total,
                total == data@.len(),
                data@.len() == old(data)@.len(),
                len == samples@.len(),
                step > 0,
                device_channels > 0,
                active == (playing && k < due),
                active ==> idx < len && idx == index + k * step,
                due == frames_due(len as nat, index as nat, step as nat),
                forall|j: int|
                    0 <= j < at ==> #[trigger] data@[j] == output_sample(
                        samples@,
                        index as nat,
                        step as nat,
                        device_channels as nat,
                        playing,
                        silence,
                        j,
                    ),
            decreases chunk - i,
        {
            let offset: usize = i % step;
            let value: T = if active && offset < len - idx {
                samples[idx + offset]
            } else {
                silence
            };
            proof {
                lemma_fundamental_div_mod_converse(
                    at as int,
                    device_channels as int,
                    k as int,
                    i as int,
                );
            }
            let ghost before = data@;
            data[at] = value;
            assert forall|j: int| 0 <= j < at + 1 implies #[trigger] data@[j] == output_sample(
                samples@,
                index as nat,
                step as nat,
                device_channels as nat,
                playing,
                silence,
                j,
            ) by {
                if j < at {
                    assert(data@[j] == before[j]);
                }
            }
            at = at + 1;
            i = i + 1;
        }
        if active {
            idx = if idx <= usize::MAX - step {
                idx + step
            } else {
                usize::MAX
            };
        } else if idx >= len {
            alive = false;
        }
        proof {
            let next = k + 1;
            lemma_frames_due(len as nat, index as nat, step as nat, next);
            assert(next * step == k * step + step) by (nonlinear_arith)
                requires
                    next == k + 1,
            ;
            assert(next * device_channels == k * device_channels + device_channels)
                by (nonlinear_arith)
                requires
                    next == k + 1,
            ;
            if at == total {
                let d = device_channels as int;
                if chunk == device_channels {
                    lemma_fundamental_div_mod_converse(total + d - 1, d, next as int, d - 1);
                } else {
                    lemma_fundamental_div_mod_converse(
                        total + d - 1,
                        d,
                        next as int,
                        chunk as int - 1,
                    );
                }
            }
            k = next;
        }
    }
    (idx, alive)
}

} // verus!
