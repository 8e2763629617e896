//! The feature tensor handed back by an extraction: `n_mels` rows of
//! `n_frames` values each, stored row by row.
use crate::error::SpectrogramError;
use vstd::prelude::*;

verus! {

/// An owned `(n_mels, n_frames)` feature tensor, stored row-major.
pub struct Features<T> {
    n_mels: usize,
    n_frames: usize,
    data: Vec<T>,
}

impl<T> Features<T> {
    /// Number of mel bands (rows).
    pub closed spec fn spec_n_mels(&self) -> nat {
        self.n_mels as nat
    }

    /// Number of frames (columns).
    pub closed spec fn spec_n_frames(&self) -> nat {
        self.n_frames as nat
    }

    /// The values, row by row.
    pub closed spec fn values(&self) -> Seq<T> {
        self.data@
    }

    /// The buffer holds exactly one value per band and frame.
    pub open spec fn wf(&self) -> bool {
        self.values().len() == self.spec_n_mels() * self.spec_n_frames()
    }

    /// A tensor of `n_mels` bands and no frames.
    pub fn empty(n_mels: usize) -> (r: Self)
        ensures
            r.wf(),
            r.spec_n_mels() == n_mels,
            r.spec_n_frames() == 0,
            r.values() == Seq::<T>::empty(),
    {
        Features { n_mels, n_frames: 0, data: Vec::new() }
    }

    /// Wraps a row-major buffer of `n_mels * n_frames` values; any other
    /// length is refused.
    pub fn from_parts(n_mels: usize, n_frames: usize, data: Vec<T>) -> (r: Result<
        Self,
        SpectrogramError,
    >)
        ensures
            r is Ok <==> data@.len() == n_mels * n_frames,
            r matches Ok(f) ==> f.wf() && f.spec_n_mels() == n_mels && f.spec_n_frames()
                == n_frames && f.values() == data@,
            r matches Err(e) ==> e == (SpectrogramError::FeatureSizeMismatch {
                len: data@.len() as usize,
            }),
    {
        match n_mels.checked_mul(n_frames) {
            Some(wanted) => {
                if data.len() == wanted {
                    Ok(Features { n_mels, n_frames, data })
                } else {
                    Err(SpectrogramError::FeatureSizeMismatch { len: data.len() })
                }
            },
            None => Err(SpectrogramError::FeatureSizeMismatch { len: data.len() }),
        }
    }

    /// Number of mel bands.
    pub fn n_mels(&self) -> (r: usize)
        ensures
            r == self.spec_n_mels(),
    {
        self.n_mels
    }

    /// Number of frames.
    pub fn n_frames(&self) -> (r: usize)
        ensures
            r == self.spec_n_frames(),
    {
        self.n_frames
    }

    /// The shape `(n_mels, n_frames)`.
    pub fn shape(&self) -> (r: (usize, usize))
        ensures
            r.0 == self.spec_n_mels(),
            r.1 == self.spec_n_frames(),
    {
        (self.n_mels, self.n_frames)
    }

    /// The values, row by row.
    pub fn as_slice(&self) -> (r: &[T])
        ensures
            r@ == self.values(),
    {
        self.data.as_slice()
    }

    /// The value of band `mel` at frame `frame`.
    pub fn get(&self, mel: usize, frame: usize) -> (r: &T)
        requires
            self.wf(),
            mel < self.spec_n_mels(),
            frame < self.spec_n_frames(),
        ensures
            *r == self.values()[mel * self.spec_n_frames() + frame],
    {
        let len = self.data.len();
        proof {
            let nf = self.n_frames as int;
            let m = mel as int;
            let nm = self.n_mels as int;
            assert(m * nf + nf <= nm * nf) by (nonlinear_arith)
                requires
                    m + 1 <= nm,
                    0 <= nf,
            ;
            assert(0 <= m * nf) by (nonlinear_arith)
                requires
                    0 <= m,
                    0 <= nf,
            ;
            assert(self.data@.len() == nm * nf);
            assert(mel * self.n_frames + frame < self.data@.len());
        }
        let row_start = mel * self.n_frames;
        &self.data[row_start + frame]
    }

    /// Gives up the tensor and returns its row-major buffer.
    pub fn into_vec(self) -> (r: Vec<T>)
        ensures
            r@ == self.values(),
    {
        self.data
    }
}

} // verus!
