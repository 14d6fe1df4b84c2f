//! The short-time Fourier transform engine: where its frames lie on the
//! buffer, how bins fold onto frequencies, which bins the band filter
//! keeps, and the overlap-add that puts transformed frames back together.
//!
//! The transform of a frame and the arithmetic on samples are the
//! caller's: the engine is given them as functions.

use vstd::prelude::*;

verus! {

/// Samples in one transform frame.
pub const FFT_SIZE: usize = 4096;

/// Samples from the start of one frame to the start of the next: half a
/// frame, so that neighbours overlap by 50%.
pub const HOP_SIZE: usize = 2048;

/// The number of frames over a buffer of `len` samples: one every hop,
/// for as long as a frame starts inside the buffer.
pub open spec fn frame_count_spec(len: nat) -> nat {
    (len + 2047) / 2048
}

/// The part of frame `k` that lies on a buffer of `len` samples: where
/// it starts and how many samples it takes from the buffer. The rest of
/// the frame is padding.
pub open spec fn frame_span_spec(len: nat, k: nat) -> (nat, nat) {
    if 2048 * k >= len {
        (len, 0)
    } else if len - 2048 * k >= 4096 {
        (2048 * k, 4096)
    } else {
        (2048 * k, (len - 2048 * k) as nat)
    }
}

/// Whether frame `k` reaches over sample `i`.
pub open spec fn frame_covers(k: int, i: int) -> bool {
    2048 * k <= i < 2048 * k + 4096
}

/// The signed bin that transform output `bin` stands for: itself up to
/// half the frame, and the negative frequencies above.
pub open spec fn folded_bin_spec(bin: int) -> int {
    if bin <= 2048 {
        bin
    } else {
        bin - 4096
    }
}

/// The absolute value of the signed bin.
pub open spec fn bin_distance(bin: int) -> int {
    if folded_bin_spec(bin) >= 0 {
        folded_bin_spec(bin)
    } else {
        -folded_bin_spec(bin)
    }
}

/// Whether the band filter keeps a bin. The bin's frequency is
/// `bin_distance * sample_rate / 4096` Hz; the two cut-offs are given in
/// thousandths of a hertz. A bin is kept when its frequency is neither
/// below the highpass cut-off nor above the lowpass cut-off.
pub open spec fn bin_passes_spec(bin: int, sample_rate: int, highpass: int, lowpass: int) -> bool {
    &&& highpass * 4096 <= bin_distance(bin) * sample_rate * 1000
    &&& bin_distance(bin) * sample_rate * 1000 <= lowpass * 4096
}

/// The number of frames over a buffer of `len` samples.
pub fn frame_count(len: usize) -> (count: usize)
    ensures
        count == frame_count_spec(len as nat),
{
    if len % HOP_SIZE == 0 {
        len / HOP_SIZE
    } else {
        len / HOP_SIZE + 1
    }
}

/// Start and length of the part of frame `k` that lies on a buffer of
/// `len` samples. A frame that starts behind the buffer has length 0.
pub fn frame_span(len: usize, k: usize) -> (span: (usize, usize))
    ensures
        span.0 == frame_span_spec(len as nat, k as nat).0,
        span.1 == frame_span_spec(len as nat, k as nat).1,
        span.0 + span.1 <= len,
{
    if k > len / HOP_SIZE {
        return (len, 0);
    }
    let start: usize = k * HOP_SIZE;
    if start >= len {
        (len, 0)
    } else if len - start >= FFT_SIZE {
        (start, FFT_SIZE)
    } else {
        (start, len - start)
    }
}

/// The signed bin that transform output `bin` stands for.
pub fn folded_bin(bin: usize) -> (signed: i32)
    requires
        bin < FFT_SIZE,
    ensures
        signed == folded_bin_spec(bin as int),
        -2048 < signed <= 2048,
{
    if bin <= FFT_SIZE / 2 {
        bin as i32
    } else {
        bin as i32 - 4096
    }
}

/// Whether the band filter keeps transform output `bin`, for cut-offs in
/// thousandths of a hertz.
pub fn bin_passes(bin: usize, sample_rate: u32, highpass: i64, lowpass: i64) -> (keep: bool)
    requires
        bin < FFT_SIZE,
    ensures
        keep == bin_passes_spec(bin as int, sample_rate as int, highpass as int, lowpass as int),
{
    let signed: i32 = folded_bin(bin);
    let distance: i128 = if signed >= 0 {
        signed as i128
    } else {
        -(signed as i128)
    };
    assert(distance == bin_distance(bin as int));
    assert(0 <= distance * (sample_rate as i128) <= 2048 * 0xffff_ffff) by (nonlinear_arith)
        requires
            0 <= distance <= 2048,
            0 <= sample_rate <= 0xffff_ffff,
    ;
    let scaled: i128 = distance * (sample_rate as i128) * 1000;
    let low: i128 = (highpass as i128) * 4096;
    let high: i128 = (lowpass as i128) * 4096;
    low <= scaled && scaled <= high
}

/// For every transform output, whether the band filter keeps it.
pub fn filter_mask(sample_rate: u32, highpass: i64, lowpass: i64) -> (mask: Vec<bool>)
    ensures
        mask@.len() == FFT_SIZE,
        forall|bin: int|
            0 <= bin < 4096 ==> mask@[bin] == bin_passes_spec(
                bin,
                sample_rate as int,
                highpass as int,
                lowpass as int,
            ),
{
    let mut mask: Vec<bool> = Vec::with_capacity(FFT_SIZE);
    let mut bin: usize = 0;
    while bin < FFT_SIZE
        invariant
            bin <= 4096,
            mask@.len() == bin,
            forall|b: int|
                0 <= b < bin ==> mask@[b] == bin_passes_spec(
                    b,
                    sample_rate as int,
                    highpass as int,
                    lowpass as int,
                ),
        decreases 4096 - bin,
    {
        let keep: bool = bin_passes(bin, sample_rate, highpass, lowpass);
        mask.push(keep);
        bin = bin + 1;
    }
    mask
}

/// Frame `k` of `input` as the transform sees it: the input from the
/// start of the frame on, and silence behind its end.
pub open spec fn padded_frame<T>(input: Seq<T>, silence: T, k: int) -> Seq<T> {
    Seq::new(
        4096,
        |i: int|
            if 2048 * k + i < input.len() {
                input[2048 * k + i]
            } else {
                silence
            },
    )
}

/// The first frame that covers sample `i`.
pub open spec fn first_frame(i: int) -> int {
    if i < 2048 {
        0
    } else {
        i / 2048 - 1
    }
}

/// What the transformed frame `k` holds for sample `i` of the buffer.
pub open spec fn part<T>(results: Seq<Vec<T>>, k: int, i: int) -> T {
    results[k]@[i - 2048 * k]
}

/// The number of frames among the first `done` that cover sample `i`.
pub open spec fn folded_count(i: int, done: int) -> int {
    if done <= first_frame(i) {
        0
    } else if i < 2048 || done <= i / 2048 {
        1
    } else {
        2
    }
}

/// The number of frames that cover sample `i`: one in the first hop, two
/// everywhere else.
pub open spec fn cover_count(i: int) -> int {
    if i < 2048 {
        1
    } else {
        2
    }
}

/// The number of frames folded into sample `i` while frame `k` is being
/// added: frame `k` counts for the samples from `start` up to `upto`.
spec fn running_count(i: int, k: int, start: int, upto: int) -> int {
    if start <= i < upto {
        folded_count(i, k + 1)
    } else {
        folded_count(i, k)
    }
}

/// Whether `out[i]` is the sum of what the first `folded` frames that
/// cover sample `i` hold for it, added in the order of the frames onto
/// silence; `firsts[i]` is the sum after the first of them.
pub open spec fn summed<T, S: Fn(T, T) -> T>(
    silence: T,
    accumulate: S,
    results: Seq<Vec<T>>,
    firsts: Seq<T>,
    out: Seq<T>,
    i: int,
    folded: int,
) -> bool {
    if folded <= 0 {
        out[i] == silence
    } else if folded == 1 {
        &&& call_ensures(accumulate, (silence, part(results, first_frame(i), i)), firsts[i])
        &&& out[i] == firsts[i]
    } else {
        &&& call_ensures(accumulate, (silence, part(results, first_frame(i), i)), firsts[i])
        &&& call_ensures(accumulate, (firsts[i], part(results, i / 2048, i)), out[i])
    }
}

/// Whether `out` is the overlap-add of `input` under `transform`.
///
/// `frames` are the padded frames of the input, one every hop, and
/// `results` what `transform` made of each in the given context, again a
/// frame long. Every output sample is the sum, by `accumulate` and
/// starting from silence, of what the frames that cover it hold for it:
/// one frame in the first hop, two everywhere else.
pub open spec fn overlap_added<T, C, F: Fn(&Vec<T>, &C) -> Vec<T>, S: Fn(T, T) -> T>(
    input: Seq<T>,
    silence: T,
    context: C,
    transform: F,
    accumulate: S,
    frames: Seq<Vec<T>>,
    results: Seq<Vec<T>>,
    firsts: Seq<T>,
    out: Seq<T>,
) -> bool {
    &&& frames.len() == frame_count_spec(input.len())
    &&& results.len() == frames.len()
    &&& firsts.len() == input.len()
    &&& out.len() == input.len()
    &&& forall|k: int|
        0 <= k < frames.len() ==> {
            &&& (#[trigger] frames[k])@ == padded_frame(input, silence, k)
            &&& results[k]@.len() == 4096
            &&& call_ensures(transform, (&frames[k], &context), results[k])
        }
    &&& forall|i: int|
        0 <= i < input.len() ==> #[trigger] summed(
            silence,
            accumulate,
            results,
            firsts,
            out,
            i,
            cover_count(i),
        )
}

/// Runs the overlap-add engine over `input`.
///
/// The buffer is cut into frames of 4096 samples that start 2048 samples
/// apart, the last ones padded with `silence`. `transform` turns each
/// frame, in the given context, into a frame of the same length, and the
/// results are added, in the order of the frames, onto an output of the
/// length of the input that starts as silence.
pub fn overlap_add<T: Copy, C, F: Fn(&Vec<T>, &C) -> Vec<T>, S: Fn(T, T) -> T>(
    input: &Vec<T>,
    silence: T,
    context: &C,
    transform: F,
    accumulate: S,
) -> (out: Vec<T>)
    requires
        forall|frame: &Vec<T>|
            frame@.len() == FFT_SIZE ==> call_requires(transform, (frame, context)),
        forall|frame: &Vec<T>, result: Vec<T>|
            frame@.len() == FFT_SIZE && call_ensures(transform, (frame, context), result)
                ==> result@.len() == FFT_SIZE,
        forall|a: T, b: T| call_requires(accumulate, (a, b)),
    ensures
        out@.len() == input@.len(),
        exists|frames: Seq<Vec<T>>, results: Seq<Vec<T>>, firsts: Seq<T>| #[trigger]
            overlap_added(
                input@,
                silence,
                *context,
                transform,
                accumulate,
                frames,
                results,
                firsts,
                out@,
            ),
{
    let len: usize = input.len();
    let count: usize = frame_count(len);
    let mut out: Vec<T> = Vec::with_capacity(len);
    let mut filled: usize = 0;
    while filled < len
        invariant
            filled <= len,
            out@.len() == filled,
            forall|i: int| 0 <= i < filled ==> out@[i] == silence,
        decreases len - filled,
    {
        out.push(silence);
        filled = filled + 1;
    }
    let ghost mut frames: Seq<Vec<T>> = Seq::empty();
    let ghost mut results: Seq<Vec<T>> = Seq::empty();
    let ghost mut firsts: Seq<T> = Seq::new(len as nat, |i: int| silence);
    let mut k: usize = 0;
    while k < count
        invariant
            k <= count,
            len == input@.len(),
            count == frame_count_spec(len as nat),
            forall|frame: &Vec<T>|
                frame@.len() == FFT_SIZE ==> call_requires(transform, (frame, context)),
            forall|frame: &Vec<T>, result: Vec<T>|
                frame@.len() == FFT_SIZE && call_ensures(transform, (frame, context), result)
                    ==> result@.len() == FFT_SIZE,
            forall|a: T, b: T| call_requires(accumulate, (a, b)),
            frames.len() == k,
            results.len() == k,
            firsts.len() == len,
            out@.len() == len,
            forall|f: int|
                0 <= f < k ==> {
                    &&& (#[trigger] frames[f])@ == padded_frame(input@, silence, f)
                    &&& results[f]@.len() == 4096
                    &&& call_ensures(transform, (&frames[f], context), results[f])
                },
            forall|i: int|
                0 <= i < len ==> #[trigger] summed(
                    silence,
                    accumulate,
                    results,
                    firsts,
                    out@,
                    i,
                    folded_count(i, k as int),
                ),
        decreases count - k,
    {
        let span = frame_span(len, k);
        let start: usize = span.0;
        let taken: usize = span.1;
        assert(start == 2048 * k);
        let mut frame: Vec<T> = Vec::with_capacity(FFT_SIZE);
        let mut i: usize = 0;
        while i < FFT_SIZE
            invariant
                i <= 4096,
                start == 2048 * k,
                start + taken <= len,
                len == input@.len(),
                taken == frame_span_spec(len as nat, k as nat).1,
                frame@.len() == i,
                forall|j: int| 0 <= j < i ==> frame@[j] == padded_frame(input@, silence, k as int)[j],
            decreases 4096 - i,
        {
            let sample: T = if i < taken {
                input[start + i]
            } else {
                silence
            };
            frame.push(sample);
            i = i + 1;
        }
        assert(frame@ =~= padded_frame(input@, silence, k as int));
        let result: Vec<T> = transform(&frame, context);
        let ghost old_results = results;
        proof {
            frames = frames.push(frame);
            results = results.push(result);
            assert forall|i: int| 0 <= i < len implies #[trigger] summed(
                silence,
                accumulate,
                results,
                firsts,
                out@,
                i,
                folded_count(i, k as int),
            ) by {
                assert(summed(silence, accumulate, old_results, firsts, out@, i, folded_count(i, k as int)));
                if folded_count(i, k as int) >= 1 {
                    assert(first_frame(i) < k);
                    assert(results[first_frame(i)] == old_results[first_frame(i)]);
                }
                if folded_count(i, k as int) >= 2 {
                    assert(results[i / 2048] == old_results[i / 2048]);
                }
            }
        }
        let end: usize = start + taken;
        let mut at: usize = start;
        while at < end
            invariant
                start <= at <= end,
                end == start + taken,
                taken <= 4096,
                start == 2048 * k,
                end <= len,
                taken == frame_span_spec(len as nat, k as nat).1,
                forall|a: T, b: T| call_requires(accumulate, (a, b)),
                results.len() == k + 1,
                results[k as int] == result,
                result@.len() == 4096,
                firsts.len() == len,
                out@.len() == len,
                forall|i: int|
                    0 <= i < len ==> #[trigger] summed(
                        silence,
                        accumulate,
                        results,
                        firsts,
                        out@,
                        i,
                        running_count(i, k as int, start as int, at as int),
                    ),
            decreases end - at,
        {
            let next: usize = at + 1;
            let ghost old_out = out@;
            let ghost old_firsts = firsts;
            assert(summed(
                silence,
                accumulate,
                results,
                firsts,
                out@,
                at as int,
                running_count(at as int, k as int, start as int, at as int),
            ));
            let total: T = accumulate(out[at], result[at - start]);
            out.set(at, total);
            proof {
                if first_frame(at as int) == k {
                    firsts = firsts.update(at as int, total);
                }
                assert(part(results, k as int, at as int) == result@[at - start]);
                assert forall|i: int| 0 <= i < len implies #[trigger] summed(
                    silence,
                    accumulate,
                    results,
                    firsts,
                    out@,
                    i,
                    running_count(i, k as int, start as int, next as int),
                ) by {
                    if i != at {
                        assert(out@[i] == old_out[i]);
                        assert(firsts[i] == old_firsts[i]);
                        assert(summed(
                            silence,
                            accumulate,
                            results,
                            old_firsts,
                            old_out,
                            i,
                            running_count(i, k as int, start as int, at as int),
                        ));
                    }
                }
            }
            at = next;
        }
        proof {
            assert forall|i: int| 0 <= i < len implies #[trigger] summed(
                silence,
                accumulate,
                results,
                firsts,
                out@,
                i,
                folded_count(i, k + 1),
            ) by {
                assert(summed(
                    silence,
                    accumulate,
                    results,
                    firsts,
                    out@,
                    i,
                    running_count(i, k as int, start as int, end as int),
                ));
            }
        }
        k = k + 1;
    }
    proof {
        assert forall|i: int| 0 <= i < len implies #[trigger] summed(
            silence,
            accumulate,
            results,
            firsts,
            out@,
            i,
            cover_count(i),
        ) by {
            assert(summed(silence, accumulate, results, firsts, out@, i, folded_count(i, count as int)));
        }
        assert(overlap_added(
            input@,
            silence,
            *context,
            transform,
            accumulate,
            frames,
            results,
            firsts,
            out@,
        ));
    }
    out
}

/// Whether `norm` is the weight that the frames put on sample `i`: the
/// sum, by `accumulate` and starting from silence, of the weights of the
/// places at which the frames that cover the sample hold it.
pub open spec fn weighed<T, S: Fn(T, T) -> T>(
    silence: T,
    weights: Seq<T>,
    accumulate: S,
    i: int,
    norm: T,
) -> bool {
    if i < 2048 {
        call_ensures(accumulate, (silence, weights[i]), norm)
    } else {
        exists|first: T|
            {
                &&& #[trigger] call_ensures(accumulate, (silence, weights[i % 2048 + 2048]), first)
                &&& call_ensures(accumulate, (first, weights[i % 2048]), norm)
            }
    }
}

/// Whether `out` is `sums` with every sample put through `finish`
/// together with the weight that the frames put on it.
pub open spec fn normalised<T, S: Fn(T, T) -> T, D: Fn(T, T) -> T>(
    sums: Seq<T>,
    silence: T,
    weights: Seq<T>,
    accumulate: S,
    finish: D,
    norms: Seq<T>,
    out: Seq<T>,
) -> bool {
    &&& out.len() == sums.len()
    &&& norms.len() == sums.len()
    &&& forall|i: int|
        0 <= i < sums.len() ==> weighed(silence, weights, accumulate, i, #[trigger] norms[i])
    &&& forall|i: int|
        0 <= i < sums.len() ==> call_ensures(finish, (sums[i], norms[i]), #[trigger] out[i])
}

/// Whether `out` is what the engine makes of `input`: the overlap-add of
/// the transformed frames, which is `sums`, with every sample finished
/// against its weight.
pub open spec fn transformed<
    T,
    C,
    F: Fn(&Vec<T>, &C) -> Vec<T>,
    S: Fn(T, T) -> T,
    D: Fn(T, T) -> T,
>(
    input: Seq<T>,
    silence: T,
    context: C,
    weights: Seq<T>,
    transform: F,
    accumulate: S,
    finish: D,
    sums: Seq<T>,
    out: Seq<T>,
) -> bool {
    &&& exists|frames: Seq<Vec<T>>, results: Seq<Vec<T>>, firsts: Seq<T>| #[trigger]
        overlap_added(
            input,
            silence,
            context,
            transform,
            accumulate,
            frames,
            results,
            firsts,
            sums,
        )
    &&& exists|norms: Seq<T>| #[trigger]
        normalised(sums, silence, weights, accumulate, finish, norms, out)
}

/// Finishes the sums of an overlap-add against the weights of the frames.
///
/// `weights` holds, for every place in a frame, the weight that a frame
/// gives to the sample at that place. The weight on a sample of the
/// buffer is the sum of the weights at its places in the frames that
/// cover it, and `finish` makes the output sample from the sum of the
/// frames and that weight.
pub fn normalise<T: Copy, S: Fn(T, T) -> T, D: Fn(T, T) -> T>(
    sums: &Vec<T>,
    silence: T,
    weights: &Vec<T>,
    accumulate: S,
    finish: D,
) -> (out: Vec<T>)
    requires
        weights@.len() == FFT_SIZE,
        forall|a: T, b: T| call_requires(accumulate, (a, b)),
        forall|a: T, b: T| call_requires(finish, (a, b)),
    ensures
        exists|norms: Seq<T>| #[trigger]
            normalised(sums@, silence, weights@, accumulate, finish, norms, out@),
{
    let mut out: Vec<T> = Vec::with_capacity(sums.len());
    let ghost mut norms: Seq<T> = Seq::empty();
    let mut i: usize = 0;
    while i < sums.len()
        invariant
            i <= sums@.len(),
            weights@.len() == 4096,
            forall|a: T, b: T| call_requires(accumulate, (a, b)),
            forall|a: T, b: T| call_requires(finish, (a, b)),
            out@.len() == i,
            norms.len() == i,
            forall|k: int|
                0 <= k < i ==> weighed(silence, weights@, accumulate, k, #[trigger] norms[k]),
            forall|k: int|
                0 <= k < i ==> call_ensures(finish, (sums@[k], norms[k]), #[trigger] out@[k]),
        decreases sums.len() - i,
    {
        let place: usize = i % HOP_SIZE;
        let norm: T = if i < HOP_SIZE {
            accumulate(silence, weights[place])
        } else {
            let first: T = accumulate(silence, weights[place + HOP_SIZE]);
            accumulate(first, weights[place])
        };
        assert(weighed(silence, weights@, accumulate, i as int, norm));
        let done: T = finish(sums[i], norm);
        let ghost old_norms = norms;
        let ghost old_out = out@;
        out.push(done);
        proof {
            norms = norms.push(norm);
            assert forall|k: int| 0 <= k < i + 1 implies weighed(
                silence,
                weights@,
                accumulate,
                k,
                #[trigger] norms[k],
            ) by {
                if k < i {
                    assert(norms[k] == old_norms[k]);
                }
            }
            assert forall|k: int| 0 <= k < i + 1 implies call_ensures(
                finish,
                (sums@[k], norms[k]),
                #[trigger] out@[k],
            ) by {
                if k < i {
                    assert(norms[k] == old_norms[k]);
                    assert(out@[k] == old_out[k]);
                }
            }
        }
        i = i + 1;
    }
    assert(normalised(sums@, silence, weights@, accumulate, finish, norms, out@));
    out
}

/// Whether every sample of a buffer is silence.
pub open spec fn all_silent<T>(samples: Seq<T>, silence: T) -> bool {
    forall|i: int| 0 <= i < samples.len() ==> #[trigger] samples[i] == silence
}

/// Whether the caller's functions keep silence: `transform` turns a
/// frame of silence into a frame of silence, silence added to silence is
/// silence, and `finish` leaves silence as it is whatever the weight.
pub open spec fn keeps_silence<
    T,
    C,
    F: Fn(&Vec<T>, &C) -> Vec<T>,
    S: Fn(T, T) -> T,
    D: Fn(T, T) -> T,
>(silence: T, context: C, transform: F, accumulate: S, finish: D) -> bool {
    &&& forall|frame: &Vec<T>, result: Vec<T>, i: int|
        #![trigger call_ensures(transform, (frame, &context), result), result@[i]]
        frame@ == Seq::new(4096, |k: int| silence) && call_ensures(
            transform,
            (frame, &context),
            result,
        ) && 0 <= i < result@.len() ==> result@[i] == silence
    &&& forall|total: T|
        #![trigger call_ensures(accumulate, (silence, silence), total)]
        call_ensures(accumulate, (silence, silence), total) ==> total == silence
    &&& forall|norm: T, done: T|
        #![trigger call_ensures(finish, (silence, norm), done)]
        call_ensures(finish, (silence, norm), done) ==> done == silence
}

/// Runs the whole engine over `input`: [`overlap_add`] and then
/// [`normalise`]. With functions that keep silence, a buffer of silence
/// comes out as a buffer of silence.
pub fn transform_buffer<
    T: Copy,
    C,
    F: Fn(&Vec<T>, &C) -> Vec<T>,
    S: Fn(T, T) -> T + Copy,
    D: Fn(T, T) -> T,
>(
    input: &Vec<T>,
    silence: T,
    context: &C,
    weights: &Vec<T>,
    transform: F,
    accumulate: S,
    finish: D,
) -> (out: Vec<T>)
    requires
        weights@.len() == FFT_SIZE,
        forall|frame: &Vec<T>|
            frame@.len() == FFT_SIZE ==> call_requires(transform, (frame, context)),
        forall|frame: &Vec<T>, result: Vec<T>|
            frame@.len() == FFT_SIZE && call_ensures(transform, (frame, context), result)
                ==> result@.len() == FFT_SIZE,
        forall|a: T, b: T| call_requires(accumulate, (a, b)),
        forall|a: T, b: T| call_requires(finish, (a, b)),
    ensures
        out@.len() == input@.len(),
        exists|sums: Seq<T>| #[trigger]
            transformed(
                input@,
                silence,
                *context,
                weights@,
                transform,
                accumulate,
                finish,
                sums,
                out@,
            ),
        keeps_silence(silence, *context, transform, accumulate, finish) && all_silent(
            input@,
            silence,
        ) ==> all_silent(out@, silence),
{
    let sums: Vec<T> = overlap_add(input, silence, context, transform, accumulate);
    let out: Vec<T> = normalise(&sums, silence, weights, accumulate, finish);
    proof {
        if keeps_silence(silence, *context, transform, accumulate, finish) && all_silent(
            input@,
            silence,
        ) {
            assert(transformed(
                input@,
                silence,
                *context,
                weights@,
                transform,
                accumulate,
                finish,
                sums@,
                out@,
            ));
            silence_law(
                input@,
                silence,
                *context,
                weights@,
                transform,
                accumulate,
                finish,
                sums@,
                out@,
            );
        }
    }
    assert(transformed(
        input@,
        silence,
        *context,
        weights@,
        transform,
        accumulate,
        finish,
        sums@,
        out@,
    ));
    out
}

/// The engine keeps silence silent: with functions that keep silence it
/// turns a buffer of silence into a buffer of silence.
pub proof fn silence_law<
    T,
    C,
    F: Fn(&Vec<T>, &C) -> Vec<T>,
    S: Fn(T, T) -> T,
    D: Fn(T, T) -> T,
>(
    input: Seq<T>,
    silence: T,
    context: C,
    weights: Seq<T>,
    transform: F,
    accumulate: S,
    finish: D,
    sums: Seq<T>,
    out: Seq<T>,
)
    requires
        transformed(input, silence, context, weights, transform, accumulate, finish, sums, out),
        all_silent(input, silence),
        keeps_silence(silence, context, transform, accumulate, finish),
    ensures
        out.len() == input.len(),
        all_silent(out, silence),
{
    let (frames, results, firsts) = choose|
        frames: Seq<Vec<T>>,
        results: Seq<Vec<T>>,
        firsts: Seq<T>,
    | #[trigger]
        overlap_added(
            input,
            silence,
            context,
            transform,
            accumulate,
            frames,
            results,
            firsts,
            sums,
        );
    let norms = choose|norms: Seq<T>| #[trigger]
        normalised(sums, silence, weights, accumulate, finish, norms, out);
    assert forall|k: int, i: int| 0 <= k < frames.len() && 0 <= i < 4096 implies #[trigger] results[k]@[i]
        == silence by {
        assert(frames[k]@ == padded_frame(input, silence, k));
        assert(padded_frame(input, silence, k) =~= Seq::new(4096, |k: int| silence));
        assert(call_ensures(transform, (&frames[k], &context), results[k]));
    }
    assert forall|i: int| 0 <= i < sums.len() implies #[trigger] sums[i] == silence by {
        coverage_law(input.len(), i);
        assert(summed(silence, accumulate, results, firsts, sums, i, cover_count(i)));
        assert(0 <= first_frame(i) < frames.len());
        assert(part(results, first_frame(i), i) == silence);
        if i >= 2048 {
            assert(part(results, i / 2048, i) == silence);
        }
    }
    assert forall|i: int| 0 <= i < out.len() implies #[trigger] out[i] == silence by {
        assert(sums[i] == silence);
        assert(call_ensures(finish, (sums[i], norms[i]), out[i]));
    }
}

/// Every sample of the buffer lies under the frame that starts in its
/// hop, and under no frame but that one and the one before it. So the
/// frames overlap in pairs and leave no gap.
pub proof fn coverage_law(len: nat, i: int)
    requires
        0 <= i < len,
    ensures
        0 <= i / 2048 < frame_count_spec(len),
        frame_covers(i / 2048, i),
        forall|k: int| frame_covers(k, i) ==> k == i / 2048 || k == i / 2048 - 1,
        i >= 2048 ==> frame_covers(i / 2048 - 1, i),
{
}

/// The spans of the frames agree with their cover: a sample of the
/// buffer lies in the span of frame `k` exactly when frame `k` covers it.
pub proof fn span_law(len: nat, k: nat, i: int)
    requires
        0 <= i < len,
    ensures
        frame_covers(k as int, i) <==> frame_span_spec(len, k).0 <= i < frame_span_spec(len, k).0
            + frame_span_spec(len, k).1,
{
}

/// With the highpass cut-off at zero and the lowpass cut-off at half the
/// sample rate or above, the band filter keeps every bin.
pub proof fn full_band_law(bin: int, sample_rate: int, highpass: int, lowpass: int)
    requires
        0 <= bin < 4096,
        sample_rate >= 0,
        highpass <= 0,
        2 * lowpass >= sample_rate * 1000,
    ensures
        bin_passes_spec(bin, sample_rate, highpass, lowpass),
{
    let d = bin_distance(bin);
    assert(0 <= d <= 2048);
    assert(0 <= d * sample_rate * 1000 <= 2048 * (sample_rate * 1000)) by (nonlinear_arith)
        requires
            0 <= d <= 2048,
            sample_rate >= 0,
    ;
}

/// A bin and its mirror image fare alike, so that what the filter keeps
/// is the transform of a real signal.
pub proof fn mirror_law(bin: int, sample_rate: int, highpass: int, lowpass: int)
    requires
        1 <= bin < 4096,
    ensures
        bin_passes_spec(bin, sample_rate, highpass, lowpass) == bin_passes_spec(
            4096 - bin,
            sample_rate,
            highpass,
            lowpass,
        ),
{
    assert(bin_distance(bin) == bin_distance(4096 - bin));
}

} // verus!
