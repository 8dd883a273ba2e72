//! Host diagnostic report: turns the text captured from system probes into the
//! lines of a plain-text report, with a defined placeholder for every probe
//! that yields nothing.

pub mod text;
pub mod number;
pub mod fields;
pub mod order;
pub mod toolchain;
pub mod probe;
pub mod report;
pub mod laws;
