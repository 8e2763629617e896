//! How a sample buffer is cut into analysis frames.
//!
//! The signal that is analysed is `padding` copies of a zero sample followed
//! by the caller's samples. Frame `t` covers the `n_fft` samples that start at
//! `t * hop_length`; only frames that lie wholly inside the signal are taken.
//! A signal given in two parts is framed across the seam directly, without
//! joining the parts first.
use vstd::prelude::*;

verus! {

/// Number of whole frames of `n_fft` samples, `hop_length` apart, in a signal
/// of `len` samples.
pub open spec fn frame_count(len: int, n_fft: int, hop_length: int) -> nat {
    if len >= n_fft {
        ((len - n_fft) / hop_length + 1) as nat
    } else {
        0
    }
}

/// The signal with `padding` zero samples put in front of `samples`.
pub open spec fn padded<T>(samples: Seq<T>, padding: nat, zero: T) -> Seq<T> {
    Seq::new(padding, |i: int| zero) + samples
}

/// Frame `t` of the signal `x`.
pub open spec fn frame_at<T>(x: Seq<T>, n_fft: nat, hop_length: nat, t: int) -> Seq<T> {
    x.subrange(t * hop_length, t * hop_length + n_fft)
}

/// All whole frames of the signal `x`, in order.
pub open spec fn frames_of<T>(x: Seq<T>, n_fft: nat, hop_length: nat) -> Seq<Seq<T>> {
    Seq::new(
        frame_count(x.len() as int, n_fft as int, hop_length as int),
        |t: int| frame_at(x, n_fft, hop_length, t),
    )
}

/// Sample `j` of the padded two-part signal, read from the part that holds it.
pub open spec fn seam_sample<T>(first: Seq<T>, second: Seq<T>, padding: nat, zero: T, j: int) -> T {
    if j < padding {
        zero
    } else if j < padding + first.len() {
        first[j - padding]
    } else {
        second[j - padding - first.len()]
    }
}

/// Frame `t` of the padded two-part signal, sample by sample across the seam.
pub open spec fn seam_frame<T>(
    first: Seq<T>,
    second: Seq<T>,
    padding: nat,
    zero: T,
    n_fft: nat,
    hop_length: nat,
    t: int,
) -> Seq<T> {
    Seq::new(n_fft, |k: int| seam_sample(first, second, padding, zero, t * hop_length + k))
}

/// All whole frames of the padded two-part signal, framed across the seam.
pub open spec fn seam_frames<T>(
    first: Seq<T>,
    second: Seq<T>,
    padding: nat,
    zero: T,
    n_fft: nat,
    hop_length: nat,
) -> Seq<Seq<T>> {
    Seq::new(
        frame_count((padding + first.len() + second.len()) as int, n_fft as int, hop_length as int),
        |t: int| seam_frame(first, second, padding, zero, n_fft, hop_length, t),
    )
}

/// Every counted frame lies inside the signal.
pub proof fn lemma_frame_in_bounds(len: int, n_fft: int, hop_length: int, t: int)
    requires
        0 <= n_fft,
        0 < hop_length,
        0 <= t < frame_count(len, n_fft, hop_length),
    ensures
        t * hop_length + n_fft <= len,
{
    let q = (len - n_fft) / hop_length;
    assert(t <= q);
    assert(q * hop_length <= len - n_fft) by {
        vstd::arithmetic::div_mod::lemma_fundamental_div_mod(len - n_fft, hop_length);
    }
    assert(t * hop_length <= q * hop_length) by {
        vstd::arithmetic::mul::lemma_mul_inequality(t, q, hop_length);
    }
}

/// Framing a two-part signal across its seam gives exactly the frames of the
/// joined signal: no frame is lost, added or altered at the boundary.
pub proof fn lemma_seam_frames_match_joined<T>(
    first: Seq<T>,
    second: Seq<T>,
    padding: nat,
    zero: T,
    n_fft: nat,
    hop_length: nat,
)
    requires
        hop_length > 0,
    ensures
        seam_frames(first, second, padding, zero, n_fft, hop_length) == frames_of(
            padded(first + second, padding, zero),
            n_fft,
            hop_length,
        ),
{
    let joined = padded(first + second, padding, zero);
    let lhs = seam_frames(first, second, padding, zero, n_fft, hop_length);
    let rhs = frames_of(joined, n_fft, hop_length);
    assert(joined.len() == padding + first.len() + second.len());
    assert forall|t: int| 0 <= t < lhs.len() implies lhs[t] == rhs[t] by {
        lemma_frame_in_bounds(joined.len() as int, n_fft as int, hop_length as int, t);
        assert forall|k: int| 0 <= k < n_fft implies #[trigger] seam_sample(
            first,
            second,
            padding,
            zero,
            t * hop_length + k,
        ) == joined[t * hop_length + k] by {
            assert(0 <= t * hop_length) by {
                vstd::arithmetic::mul::lemma_mul_nonnegative(t, hop_length as int);
            }
        }
        assert(lhs[t] =~= rhs[t]);
    }
    assert(lhs =~= rhs);
}

/// Dropping the first `m` hops of a signal drops exactly its first `m`
/// frames (all of them, if it has fewer) and leaves every later frame as it
/// was. A streaming caller that starts the next chunk a whole number of hops
/// back, as `n_left_overlap_samples` does, gets the same frames there as an
/// analysis of the whole signal.
pub proof fn lemma_frames_after_hops<T>(x: Seq<T>, n_fft: nat, hop_length: nat, m: nat)
    requires
        0 < hop_length,
        m * hop_length <= x.len(),
    ensures
        ({
            let all = frames_of(x, n_fft, hop_length);
            frames_of(x.skip((m * hop_length) as int), n_fft, hop_length) == if m <= all.len() {
                all.skip(m as int)
            } else {
                Seq::<Seq<T>>::empty()
            }
        }),
{
    let shift = m * hop_length;
    let rest = x.skip(shift as int);
    let all = frames_of(x, n_fft, hop_length);
    let after = frames_of(rest, n_fft, hop_length);
    let len = x.len() as int;
    let n = n_fft as int;
    let h = hop_length as int;
    if len - shift >= n {
        vstd::arithmetic::div_mod::lemma_hoist_over_denominator(len - shift - n, m as int, hop_length);
        assert(after.len() == all.len() - m);
        assert forall|t: int| 0 <= t < after.len() implies after[t] == all[t + m] by {
            let mi = m as int;
            assert((t + mi) * h == t * h + shift) by (nonlinear_arith)
                requires
                    shift == mi * h,
            ;
            assert(0 <= t * h) by (nonlinear_arith)
                requires
                    0 <= t,
                    0 <= h,
            ;
            lemma_frame_in_bounds(rest.len() as int, n, h, t);
            assert(after[t] =~= all[t + m]);
        }
        assert(after =~= all.skip(m as int));
    } else {
        assert(after.len() == 0);
        if len >= n {
            let q = (len - n) / h;
            vstd::arithmetic::div_mod::lemma_fundamental_div_mod(len - n, h);
            if q >= m {
                vstd::arithmetic::mul::lemma_mul_inequality(m as int, q, h);
            }
            assert(q < m);
        }
        assert(all.len() <= m);
        if m <= all.len() {
            assert(all.skip(m as int) =~= Seq::<Seq<T>>::empty());
        }
        assert(after =~= Seq::<Seq<T>>::empty());
    }
}

/// Sample `j` of the padded two-part signal.
fn sample_at<T: Copy>(first: &[T], second: &[T], padding: usize, zero: T, j: usize) -> (r: T)
    requires
        j < padding + first@.len() + second@.len(),
    ensures
        r == seam_sample(first@, second@, padding as nat, zero, j as int),
{
    if j < padding {
        zero
    } else if j - padding < first.len() {
        first[j - padding]
    } else {
        second[j - padding - first.len()]
    }
}

/// Number of whole frames in a signal of `len` samples.
pub fn n_frames_in(len: usize, n_fft: usize, hop_length: usize) -> (r: usize)
    requires
        0 < n_fft,
        0 < hop_length,
    ensures
        r == frame_count(len as int, n_fft as int, hop_length as int),
{
    if len < n_fft {
        0
    } else {
        let span = len - n_fft;
        assert(span / hop_length <= span) by {
            vstd::arithmetic::div_mod::lemma_div_is_ordered_by_denominator(
                span as int,
                1,
                hop_length as int,
            );
        }
        span / hop_length + 1
    }
}

/// Frames of the signal made of `padding` zero samples, then `first`, then
/// `second`. Frames that straddle the seam read from both parts.
pub fn frames_across<T: Copy>(
    first: &[T],
    second: &[T],
    padding: usize,
    zero: T,
    n_fft: usize,
    hop_length: usize,
) -> (r: Vec<Vec<T>>)
    requires
        0 < n_fft,
        0 < hop_length,
        padding + first@.len() + second@.len() <= usize::MAX,
    ensures
        r@.len() == seam_frames(
            first@,
            second@,
            padding as nat,
            zero,
            n_fft as nat,
            hop_length as nat,
        ).len(),
        forall|t: int|
            0 <= t < r@.len() ==> r@[t]@ == seam_frames(
                first@,
                second@,
                padding as nat,
                zero,
                n_fft as nat,
                hop_length as nat,
            )[t],
{
    let total = padding + first.len() + second.len();
    let count = n_frames_in(total, n_fft, hop_length);
    let ghost want = seam_frames(
        first@,
        second@,
        padding as nat,
        zero,
        n_fft as nat,
        hop_length as nat,
    );
    let mut out: Vec<Vec<T>> = Vec::new();
    let mut t: usize = 0;
    while t < count
        invariant
            0 < n_fft,
            0 < hop_length,
            total == padding + first@.len() + second@.len(),
            count == want.len(),
            want == seam_frames(
                first@,
                second@,
                padding as nat,
                zero,
                n_fft as nat,
                hop_length as nat,
            ),
            t <= count,
            out@.len() == t,
            forall|u: int| 0 <= u < t ==> out@[u]@ == want[u],
        decreases count - t,
    {
        proof {
            lemma_frame_in_bounds(total as int, n_fft as int, hop_length as int, t as int);
        }
        let start = t * hop_length;
        let mut frame: Vec<T> = Vec::with_capacity(n_fft);
        let mut k: usize = 0;
        while k < n_fft
            invariant
                start + n_fft <= total,
                total == padding + first@.len() + second@.len(),
                k <= n_fft,
                frame@.len() == k,
                forall|i: int|
                    0 <= i < k ==> frame@[i] == seam_sample(
                        first@,
                        second@,
                        padding as nat,
                        zero,
                        start + i,
                    ),
            decreases n_fft - k,
        {
            let s = sample_at(first, second, padding, zero, start + k);
            frame.push(s);
            k = k + 1;
        }
        assert(frame@ =~= want[t as int]);
        out.push(frame);
        t = t + 1;
    }
    out
}

/// Frames of the signal made of `padding` zero samples followed by `samples`.
pub fn frames_padded<T: Copy>(
    samples: &[T],
    padding: usize,
    zero: T,
    n_fft: usize,
    hop_length: usize,
) -> (r: Vec<Vec<T>>)
    requires
        0 < n_fft,
        0 < hop_length,
        padding + samples@.len() <= usize::MAX,
    ensures
        r@.len() == frames_of(padded(samples@, padding as nat, zero), n_fft as nat, hop_length as nat).len(),
        forall|t: int|
            0 <= t < r@.len() ==> r@[t]@ == frames_of(
                padded(samples@, padding as nat, zero),
                n_fft as nat,
                hop_length as nat,
            )[t],
{
    let none: Vec<T> = Vec::new();
    let r = frames_across(samples, none.as_slice(), padding, zero, n_fft, hop_length);
    proof {
        lemma_seam_frames_match_joined(
            samples@,
            none@,
            padding as nat,
            zero,
            n_fft as nat,
            hop_length as nat,
        );
        assert(samples@ + none@ =~= samples@);
    }
    r
}

} // verus!
