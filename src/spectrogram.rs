//! The pipeline's fixed analysis configuration and the arithmetic derived
//! from it: overlap geometry for streaming callers and output frame counts.
use crate::error::SpectrogramError;
use crate::features::Features;
use crate::framing::{frame_count, n_frames_in};
use vstd::prelude::*;

verus! {

/// Where the numeric work runs.
#[derive(Debug, Clone, Copy, PartialEq, Eq, Structural)]
pub enum DeviceType {
    Cpu,
    Cuda,
}

/// Number of frequency bins of a real FFT of size `n_fft`.
pub open spec fn freq_bins(n_fft: int) -> int {
    n_fft / 2 + 1
}

/// A usable analysis configuration: at least one mel band and
/// `0 < hop_length < n_fft`.
pub open spec fn valid_config(n_mels: int, n_fft: int, hop_length: int) -> bool {
    n_mels > 0 && 0 < hop_length < n_fft
}

/// The first thing wrong with a construction request, checked in order:
/// the parameters, then the filterbank's stored shape.
pub open spec fn open_error(
    filter_shape: (usize, usize),
    n_mels: usize,
    n_fft: usize,
    hop_length: usize,
) -> Option<SpectrogramError> {
    if n_mels == 0 {
        Some(SpectrogramError::ZeroMels)
    } else if hop_length == 0 {
        Some(SpectrogramError::ZeroHopLength)
    } else if hop_length >= n_fft {
        Some(SpectrogramError::HopLengthNotBelowFft)
    } else if filter_shape.0 != n_mels || filter_shape.1 != freq_bins(n_fft as int) {
        Some(SpectrogramError::FilterShapeMismatch { rows: filter_shape.0, cols: filter_shape.1 })
    } else {
        None
    }
}

/// Frames at the start of a chunk whose window reaches back into the
/// previous chunk: `ceil((n_fft / 2) / hop_length)`.
pub open spec fn left_overlap_frames(n_fft: int, hop_length: int) -> int {
    (n_fft / 2 + hop_length - 1) / hop_length
}

/// Trailing samples of the previous chunk needed to reproduce its last
/// frames exactly.
pub open spec fn left_overlap_samples(n_fft: int, hop_length: int) -> int {
    left_overlap_frames(n_fft, hop_length) * hop_length
}

/// Trailing samples of a chunk whose windows are not settled until more
/// audio follows.
pub open spec fn right_overlap_samples(n_fft: int, hop_length: int) -> int {
    n_fft / 2 - hop_length
}

/// Ceiling division, written without a sum that could overflow.
proof fn lemma_ceil_div(a: int, b: int)
    requires
        0 <= a,
        0 < b,
    ensures
        (a + b - 1) / b == a / b + (if a % b == 0 { 0int } else { 1int }),
{
    let q = a / b;
    let r = a % b;
    vstd::arithmetic::div_mod::lemma_fundamental_div_mod(a, b);
    if r == 0 {
        vstd::arithmetic::div_mod::lemma_div_multiples_vanish_fancy(q, b - 1, b);
    } else {
        assert(b * q + r + b - 1 == b * (q + 1) + (r - 1)) by (nonlinear_arith);
        vstd::arithmetic::div_mod::lemma_div_multiples_vanish_fancy(q + 1, r - 1, b);
    }
}

/// A log-mel spectrogram pipeline: its analysis constants and device.
/// The filterbank it was built against has shape `(n_mels, n_fft / 2 + 1)`.
/// Immutable once built.
pub struct LogMelSpectrogram {
    n_mels: usize,
    n_fft: usize,
    hop_length: usize,
    device: DeviceType,
}

impl LogMelSpectrogram {
    pub closed spec fn spec_n_mels(&self) -> int {
        self.n_mels as int
    }

    pub closed spec fn spec_n_fft(&self) -> int {
        self.n_fft as int
    }

    pub closed spec fn spec_hop_length(&self) -> int {
        self.hop_length as int
    }

    pub closed spec fn spec_device(&self) -> DeviceType {
        self.device
    }

    /// The configuration satisfies `valid_config`.
    pub open spec fn wf(&self) -> bool {
        valid_config(self.spec_n_mels(), self.spec_n_fft(), self.spec_hop_length())
    }

    /// Builds a pipeline for `n_mels` bands, FFT size `n_fft` and hop
    /// `hop_length`, against a filterbank whose stored shape is
    /// `filter_shape`. Invalid parameters are refused first; then a
    /// filterbank whose shape is not `(n_mels, n_fft / 2 + 1)` is refused,
    /// never reshaped.
    pub fn open(
        filter_shape: (usize, usize),
        n_mels: usize,
        n_fft: usize,
        hop_length: usize,
        device: DeviceType,
    ) -> (r: Result<Self, SpectrogramError>)
        ensures
            r is Ok <==> open_error(filter_shape, n_mels, n_fft, hop_length) is None,
            r matches Ok(s) ==> s.wf() && s.spec_n_mels() == n_mels && s.spec_n_fft() == n_fft
                && s.spec_hop_length() == hop_length && s.spec_device() == device,
            r matches Err(e) ==> open_error(filter_shape, n_mels, n_fft, hop_length) == Some(e),
            r matches Err(e) ==> (e.is_config_error() <==> !valid_config(
                n_mels as int,
                n_fft as int,
                hop_length as int,
            )),
            valid_config(n_mels as int, n_fft as int, hop_length as int) && filter_shape.1
                != freq_bins(n_fft as int) ==> (r matches Err(e) && e.is_artifact_error()),
    {
        if n_mels == 0 {
            return Err(SpectrogramError::ZeroMels);
        }
        if hop_length == 0 {
            return Err(SpectrogramError::ZeroHopLength);
        }
        if hop_length >= n_fft {
            return Err(SpectrogramError::HopLengthNotBelowFft);
        }
        let bins = n_fft / 2 + 1;
        if filter_shape.0 != n_mels || filter_shape.1 != bins {
            return Err(
                SpectrogramError::FilterShapeMismatch { rows: filter_shape.0, cols: filter_shape.1 },
            );
        }
        Ok(LogMelSpectrogram { n_mels, n_fft, hop_length, device })
    }

    /// Number of mel bands.
    pub fn n_mels(&self) -> (r: usize)
        ensures
            r == self.spec_n_mels(),
    {
        self.n_mels
    }

    /// FFT size, which is also the frame length.
    pub fn n_fft(&self) -> (r: usize)
        ensures
            r == self.spec_n_fft(),
    {
        self.n_fft
    }

    /// Distance in samples between the starts of consecutive frames.
    pub fn hop_length(&self) -> (r: usize)
        ensures
            r == self.spec_hop_length(),
    {
        self.hop_length
    }

    /// Device the numeric work is placed on.
    pub fn device(&self) -> (r: DeviceType)
        ensures
            r == self.spec_device(),
    {
        self.device
    }

    /// `ceil((n_fft / 2) / hop_length)`.
    pub fn n_left_overlap_frames(&self) -> (r: usize)
        requires
            self.wf(),
        ensures
            r == left_overlap_frames(self.spec_n_fft(), self.spec_hop_length()),
    {
        let half = self.n_fft / 2;
        proof {
            lemma_ceil_div(half as int, self.hop_length as int);
            vstd::arithmetic::div_mod::lemma_div_is_ordered_by_denominator(
                half as int,
                1,
                self.hop_length as int,
            );
        }
        if half % self.hop_length == 0 {
            half / self.hop_length
        } else {
            half / self.hop_length + 1
        }
    }

    /// `n_left_overlap_frames() * hop_length`.
    pub fn n_left_overlap_samples(&self) -> (r: usize)
        requires
            self.wf(),
            left_overlap_samples(self.spec_n_fft(), self.spec_hop_length()) <= usize::MAX,
        ensures
            r == left_overlap_samples(self.spec_n_fft(), self.spec_hop_length()),
    {
        self.n_left_overlap_frames() * self.hop_length
    }

    /// `n_fft / 2 - hop_length`; defined when the hop is at most half a frame.
    pub fn n_right_overlap_samples(&self) -> (r: usize)
        requires
            self.wf(),
            self.spec_hop_length() <= self.spec_n_fft() / 2,
        ensures
            r == right_overlap_samples(self.spec_n_fft(), self.spec_hop_length()),
    {
        self.n_fft / 2 - self.hop_length
    }

    /// Frames produced from `n_samples` samples after `padding` leading
    /// zeros: `(n_samples + padding - n_fft) / hop_length + 1` when that
    /// signal is at least one frame long, else none.
    pub fn n_frames(&self, n_samples: usize, padding: usize) -> (r: usize)
        requires
            self.wf(),
            n_samples + padding <= usize::MAX,
        ensures
            r == frame_count(n_samples + padding, self.spec_n_fft(), self.spec_hop_length()),
            n_samples + padding < self.spec_n_fft() ==> r == 0,
            n_samples + padding >= self.spec_n_fft() ==> r == (n_samples + padding
                - self.spec_n_fft()) / self.spec_hop_length() + 1,
    {
        n_frames_in(n_samples + padding, self.n_fft, self.hop_length)
    }

    /// Frames that an extraction over `padding` zeros, then `first_len`
    /// samples, then `second_len` samples yields; `None` when that signal's
    /// length does not fit in `usize`. Zero frames means the extraction
    /// returns `empty()` rather than an error.
    pub fn frames_to_extract(&self, first_len: usize, second_len: usize, padding: usize) -> (r:
        Option<usize>)
        requires
            self.wf(),
        ensures
            r is None <==> padding + first_len + second_len > usize::MAX,
            r matches Some(n) ==> n == frame_count(
                padding + first_len + second_len,
                self.spec_n_fft(),
                self.spec_hop_length(),
            ),
    {
        match padding.checked_add(first_len) {
            None => None,
            Some(head) => match head.checked_add(second_len) {
                None => None,
                Some(total) => Some(n_frames_in(total, self.n_fft, self.hop_length)),
            },
        }
    }

    /// Takes the numeric engine's output for an extraction that should have
    /// produced `expected_frames` frames: `n_mels` rows of `n_frames` values,
    /// row by row. It is accepted only with this pipeline's band count, the
    /// expected frame count and one value per band and frame; anything else
    /// is an extraction error, never a partial result.
    pub fn accept_output<T>(
        &self,
        expected_frames: usize,
        n_mels: usize,
        n_frames: usize,
        values: Vec<T>,
    ) -> (r: Result<Features<T>, SpectrogramError>)
        ensures
            r is Ok <==> n_mels == self.spec_n_mels() && n_frames == expected_frames
                && values@.len() == n_mels * n_frames,
            r matches Ok(f) ==> f.wf() && f.spec_n_mels() == n_mels && f.spec_n_frames()
                == n_frames && f.values() == values@,
            r matches Err(e) ==> e.is_extraction_error(),
    {
        if n_mels != self.n_mels || n_frames != expected_frames {
            return Err(SpectrogramError::Extraction);
        }
        Features::from_parts(n_mels, n_frames, values)
    }

    /// Features with this pipeline's bands and no frames, for when there is
    /// no audio.
    pub fn empty<T>(&self) -> (r: Features<T>)
        ensures
            r.wf(),
            r.spec_n_mels() == self.spec_n_mels(),
            r.spec_n_frames() == 0,
            r.values() == Seq::<T>::empty(),
    {
        Features::empty(self.n_mels)
    }
}

} // verus!
