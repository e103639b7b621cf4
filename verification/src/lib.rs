//! Hardware compatibility scanning: turns what a machine reports about itself
//! into a hardware summary, scores it against operating-system profiles, and
//! decides the requests of the local scanning service.
pub mod text;
pub mod format;
pub mod scoring;
pub mod ranking;
pub mod decimal;
pub mod hardware;
pub mod clock;
pub mod service;
pub mod report;
pub mod laws;

pub use hardware::{detect_gpu, scan_hardware, ProbeOutputs};
pub use ranking::{recommend_os, OSMatch};
pub use report::{generate_report, Report};
pub use scoring::{compatibility_category, score_profile, Hardware};
