//! The envelope follower: a lookahead window that slides over the input,
//! a gain that is updated from the window at every sample, and an output
//! that is the input delayed by the lookahead and scaled by that gain.
//!
//! The arithmetic on samples and gains is the caller's: the follower is
//! given one function that updates the gain, which it hands the settings
//! of the stage, and one that applies it.

use vstd::prelude::*;
use std::collections::VecDeque;

verus! {

/// The sample at time `t`: the input where it has one, silence before its
/// start and behind its end.
pub open spec fn sample_at<T>(input: Seq<T>, silence: T, t: int) -> T {
    if 0 <= t < input.len() {
        input[t]
    } else {
        silence
    }
}

/// The lookahead window once input sample `j` has entered it: the sample
/// that is `lookahead` old in front, sample `j` at the back.
pub open spec fn window_spec<T>(input: Seq<T>, lookahead: nat, silence: T, j: int) -> Seq<T> {
    Seq::new(lookahead + 1, |i: int| sample_at(input, silence, j - lookahead + i))
}

/// The gain in force before step `j`.
pub open spec fn gain_before<G>(start: G, gains: Seq<G>, j: int) -> G {
    if j <= 0 {
        start
    } else {
        gains[j - 1]
    }
}

/// Whether `out` is what the follower makes of `input`, given the gains
/// it went through and the windows it showed to `update`.
///
/// At every step `j` the window holds the last `lookahead + 1` samples,
/// `update` turned the gain before the step into `gains[j]` on seeing
/// that window and the settings in `context`, and `apply` made `out[j]`
/// from the sample that left the window, which is the input `lookahead`
/// samples back, and `gains[j]`.
pub open spec fn follows<T, G, C, U: Fn(&VecDeque<T>, G, &C) -> G, A: Fn(T, G) -> T>(
    input: Seq<T>,
    lookahead: nat,
    silence: T,
    start: G,
    context: C,
    update: U,
    apply: A,
    windows: Seq<VecDeque<T>>,
    gains: Seq<G>,
    out: Seq<T>,
) -> bool {
    &&& windows.len() == input.len()
    &&& gains.len() == input.len()
    &&& out.len() == input.len()
    &&& forall|j: int|
        0 <= j < input.len() ==> (#[trigger] windows[j])@ == window_spec(
            input,
            lookahead,
            silence,
            j,
        )
    &&& forall|j: int|
        0 <= j < input.len() ==> call_ensures(
            update,
            (&windows[j], gain_before(start, gains, j), &context),
            #[trigger] gains[j],
        )
    &&& forall|j: int|
        0 <= j < input.len() ==> call_ensures(
            apply,
            (sample_at(input, silence, j - lookahead), gains[j]),
            #[trigger] out[j],
        )
}

/// The window that `update` sees at a step is `lookahead + 1` samples
/// long, starts with the sample that leaves it at that step and ends
/// with the sample that has just come in: the gain that scales a sample
/// was computed with that sample and all that follow it within the
/// lookahead in view.
pub proof fn lookahead_law<T>(input: Seq<T>, lookahead: nat, silence: T, j: int)
    requires
        0 <= j < input.len(),
    ensures
        window_spec(input, lookahead, silence, j).len() == lookahead + 1,
        window_spec(input, lookahead, silence, j)[0] == sample_at(input, silence, j - lookahead),
        window_spec(input, lookahead, silence, j)[lookahead as int] == input[j],
        forall|t: int|
            j - lookahead <= t <= j ==> window_spec(input, lookahead, silence, j).contains(
                #[trigger] sample_at(input, silence, t),
            ),
{
    let window = window_spec(input, lookahead, silence, j);
    assert forall|t: int| j - lookahead <= t <= j implies window.contains(
        #[trigger] sample_at(input, silence, t),
    ) by {
        assert(window[t - j + lookahead] == sample_at(input, silence, t));
    }
}

/// Whether the caller's functions respect a ceiling. `safe` says that a
/// gain may scale a sample and `within` that a sample lies within the
/// ceiling: `update` only returns gains that are safe for every sample
/// of the window it saw, and `apply` with a safe gain gives a sample
/// within the ceiling.
pub open spec fn respects_ceiling<T, G, C, U: Fn(&VecDeque<T>, G, &C) -> G, A: Fn(T, G) -> T>(
    context: C,
    update: U,
    apply: A,
    safe: spec_fn(T, G) -> bool,
    within: spec_fn(T) -> bool,
) -> bool {
    &&& forall|window: &VecDeque<T>, gain: G, next: G, i: int|
        #![trigger call_ensures(update, (window, gain, &context), next), window@[i]]
        call_ensures(update, (window, gain, &context), next) && 0 <= i < window@.len() ==> safe(
            window@[i],
            next,
        )
    &&& forall|sample: T, gain: G, scaled: T|
        #![trigger call_ensures(apply, (sample, gain), scaled)]
        safe(sample, gain) && call_ensures(apply, (sample, gain), scaled) ==> within(scaled)
}

/// Whether every sample of a buffer lies within the ceiling.
pub open spec fn all_within<T>(samples: Seq<T>, within: spec_fn(T) -> bool) -> bool {
    forall|j: int| 0 <= j < samples.len() ==> within(#[trigger] samples[j])
}

/// The follower never lets a sample out above a ceiling that the gain
/// update respects.
///
/// With functions that respect a ceiling, every output sample lies
/// within the ceiling, from the first one on.
pub proof fn ceiling_law<T, G, C, U: Fn(&VecDeque<T>, G, &C) -> G, A: Fn(T, G) -> T>(
    input: Seq<T>,
    lookahead: nat,
    silence: T,
    start: G,
    context: C,
    update: U,
    apply: A,
    windows: Seq<VecDeque<T>>,
    gains: Seq<G>,
    out: Seq<T>,
    safe: spec_fn(T, G) -> bool,
    within: spec_fn(T) -> bool,
)
    requires
        follows(input, lookahead, silence, start, context, update, apply, windows, gains, out),
        respects_ceiling(context, update, apply, safe, within),
    ensures
        all_within(out, within),
{
    assert forall|j: int| 0 <= j < out.len() implies within(#[trigger] out[j]) by {
        lookahead_law(input, lookahead, silence, j);
        let window = &windows[j];
        assert(window@ == window_spec(input, lookahead, silence, j));
        assert(call_ensures(update, (window, gain_before(start, gains, j), &context), gains[j]));
        assert(window@[0] == sample_at(input, silence, j - lookahead));
        assert(safe(sample_at(input, silence, j - lookahead), gains[j]));
        assert(call_ensures(
            apply,
            (sample_at(input, silence, j - lookahead), gains[j]),
            out[j],
        ));
    }
}

/// Runs the envelope follower over `input`.
///
/// The window starts as `lookahead` samples of `silence`. Each input
/// sample enters the window, `update` computes the next gain from the
/// window, the gain so far and the settings in `context`, the oldest
/// sample leaves the window, and `apply` scales it by the new gain into
/// the output. The output is as long as the input: the last `lookahead`
/// input samples stay behind in the window.
pub fn follow<T: Copy, G: Copy, C, U: Fn(&VecDeque<T>, G, &C) -> G, A: Fn(T, G) -> T>(
    input: &Vec<T>,
    lookahead: usize,
    silence: T,
    start: G,
    context: &C,
    update: U,
    apply: A,
) -> (out: Vec<T>)
    requires
        lookahead < usize::MAX,
        forall|window: &VecDeque<T>, gain: G| call_requires(update, (window, gain, context)),
        forall|sample: T, gain: G| call_requires(apply, (sample, gain)),
    ensures
        out@.len() == input@.len(),
        exists|windows: Seq<VecDeque<T>>, gains: Seq<G>| #[trigger]
            follows(
                input@,
                lookahead as nat,
                silence,
                start,
                *context,
                update,
                apply,
                windows,
                gains,
                out@,
            ),
{
    let mut window: VecDeque<T> = VecDeque::new();
    let mut filled: usize = 0;
    while filled < lookahead
        invariant
            filled <= lookahead,
            window@.len() == filled,
            forall|i: int| 0 <= i < filled ==> window@[i] == silence,
        decreases lookahead - filled,
    {
        window.push_back(silence);
        filled = filled + 1;
    }
    let mut out: Vec<T> = Vec::with_capacity(input.len());
    let mut gain: G = start;
    let ghost mut windows: Seq<VecDeque<T>> = Seq::empty();
    let ghost mut gains: Seq<G> = Seq::empty();
    let mut j: usize = 0;
    while j < input.len()
        invariant
            j <= input@.len(),
            lookahead < usize::MAX,
            forall|window: &VecDeque<T>, gain: G| call_requires(update, (window, gain, context)),
            forall|sample: T, gain: G| call_requires(apply, (sample, gain)),
            window@.len() == lookahead,
            forall|i: int|
                0 <= i < lookahead ==> window@[i] == sample_at(
                    input@,
                    silence,
                    j - lookahead + i,
                ),
            gain == gain_before(start, gains, j as int),
            follows(
                input@.take(j as int),
                lookahead as nat,
                silence,
                start,
                *context,
                update,
                apply,
                windows,
                gains,
                out@,
            ),
        decreases input.len() - j,
    {
        let ghost before = input@.take(j as int);
        let ghost after = input@.take(j + 1);
        let ghost old_windows = windows;
        let ghost old_gains = gains;
        let ghost old_out = out@;
        window.push_back(input[j]);
        let ghost shown = window;
        assert(shown@ =~= window_spec(input@, lookahead as nat, silence, j as int));
        let next: G = update(&window, gain, context);
        let oldest: T = match window.pop_front() {
            Some(sample) => sample,
            None => silence,
        };
        assert(oldest == sample_at(input@, silence, j - lookahead));
        let scaled: T = apply(oldest, next);
        out.push(scaled);
        proof {
            windows = old_windows.push(shown);
            gains = old_gains.push(next);
            assert forall|k: int| 0 <= k <= j implies (#[trigger] windows[k])@ == window_spec(
                after,
                lookahead as nat,
                silence,
                k,
            ) by {
                assert(window_spec(after, lookahead as nat, silence, k) =~= window_spec(
                    input@,
                    lookahead as nat,
                    silence,
                    k,
                ));
                if k < j {
                    assert(windows[k] == old_windows[k]);
                    assert(window_spec(before, lookahead as nat, silence, k) =~= window_spec(
                        input@,
                        lookahead as nat,
                        silence,
                        k,
                    ));
                }
            }
            assert forall|k: int| 0 <= k <= j implies call_ensures(
                update,
                (&windows[k], gain_before(start, gains, k), context),
                #[trigger] gains[k],
            ) by {
                if k < j {
                    assert(windows[k] == old_windows[k]);
                    assert(gains[k] == old_gains[k]);
                    assert(gain_before(start, gains, k) == gain_before(start, old_gains, k));
                }
            }
            assert forall|k: int| 0 <= k <= j implies call_ensures(
                apply,
                (sample_at(after, silence, k - lookahead), gains[k]),
                #[trigger] out@[k],
            ) by {
                assert(sample_at(after, silence, k - lookahead) == sample_at(
                    input@,
                    silence,
                    k - lookahead,
                ));
                if k < j {
                    assert(out@[k] == old_out[k]);
                    assert(gains[k] == old_gains[k]);
                    assert(sample_at(before, silence, k - lookahead) == sample_at(
                        input@,
                        silence,
                        k - lookahead,
                    ));
                }
            }
        }
        gain = next;
        j = j + 1;
        assert(window@.len() == lookahead);
        assert forall|i: int| 0 <= i < lookahead implies window@[i] == sample_at(
            input@,
            silence,
            j - lookahead + i,
        ) by {
            assert(window@[i] == shown@[i + 1]);
        }
    }
    assert(input@.take(j as int) =~= input@);
    out
}

} // verus!
