//! Log-mel spectrogram front end: analysis configuration, overlap geometry,
//! frame layout over padded and two-part sample buffers, and the feature
//! container that extraction hands back.
pub mod error;
pub mod features;
pub mod framing;
pub mod spectrogram;

pub use error::SpectrogramError;
pub use features::Features;
pub use spectrogram::{DeviceType, LogMelSpectrogram};
