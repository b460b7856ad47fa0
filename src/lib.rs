//! Live pitch tracking: a bounded buffer of captured audio, a spectral peak
//! picker, bounded histories of detected frequencies and a rolling z-score
//! filter that drops single-tick spikes.
pub mod capture;
pub mod history;
pub mod pipeline;
pub mod pitch;
pub mod smoothing;

pub use pipeline::Vocalize;
