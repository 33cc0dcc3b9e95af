//! Decoding of the 32-byte telemetry frames of a particulate-matter sensor,
//! reassembly of such frames from a fragmented byte stream, and the air
//! quality index derived from the decoded concentrations.

pub mod aqi;
pub mod frame;
pub mod metrics;
pub mod settle;
pub mod stream;

pub use crate::aqi::{calculate_aqi, Aqi, BreakpointTable};
pub use crate::frame::{parse, parse_data, ParseError, PmsData};
pub use crate::metrics::{update_metrics, GaugeUpdate, Metric, ParticleSize, Reading};
pub use crate::settle::SettleGate;
pub use crate::stream::{Processed, Reassembler};
