//! Rule-based column selection, per-file time series, the metric index,
//! statistics layout and chart preparation for comparing performance-counter
//! logs.
pub mod text;
pub mod rules;
pub mod series;
pub mod index;
pub mod chart;
pub mod settings;
pub mod report;
pub mod parameters;
pub mod arguments;
