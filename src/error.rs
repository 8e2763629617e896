use vstd::prelude::*;

verus! {

/// Everything that can go wrong while building or running a spectrogram
/// pipeline.
#[derive(Debug, Clone, Copy, PartialEq, Eq, Structural)]
pub enum SpectrogramError {
    /// The number of mel bands is zero.
    ZeroMels,
    /// The hop length is zero.
    ZeroHopLength,
    /// The hop length is not strictly smaller than the FFT size.
    HopLengthNotBelowFft,
    /// The filterbank path cannot be turned into text.
    InvalidPath,
    /// The filterbank artifact could not be read or decoded.
    ArtifactUnreadable,
    /// The filterbank's stored shape differs from `(n_mels, n_fft / 2 + 1)`.
    FilterShapeMismatch { rows: usize, cols: usize },
    /// A feature buffer does not hold `n_mels * n_frames` values.
    FeatureSizeMismatch { len: usize },
    /// The numeric engine rejected an extraction.
    Extraction,
}

impl SpectrogramError {
    /// Errors that concern the construction parameters.
    pub open spec fn is_config_error(self) -> bool {
        self is ZeroMels || self is ZeroHopLength || self is HopLengthNotBelowFft
            || self is InvalidPath
    }

    /// Errors that concern the filterbank artifact.
    pub open spec fn is_artifact_error(self) -> bool {
        self is ArtifactUnreadable || self is FilterShapeMismatch
    }

    /// Errors raised while extracting features.
    pub open spec fn is_extraction_error(self) -> bool {
        self is FeatureSizeMismatch || self is Extraction
    }
}

} // verus!
