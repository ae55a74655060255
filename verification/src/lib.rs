//! Decision core of a temperature-led fan controller for the UNI HUB SL V2.

pub mod acceptance_laws;
pub mod alarm;
pub mod binary64;
pub mod config;
pub mod config_laws;
pub mod control;
pub mod control_laws;
pub mod controller_laws;
pub mod curve;
pub mod curve_laws;
pub mod daemon;
pub mod daemon_laws;
pub mod diagnostics;
pub mod dump_laws;
pub mod fusion_laws;
pub mod hid;
pub mod hub_wait;
pub mod ladder_laws;
pub mod line_laws;
pub mod message_laws;
pub mod metrics;
pub mod metrics_laws;
pub mod number_laws;
pub mod one_hot_laws;
pub mod ordered;
pub mod probe;
pub mod reading_laws;
pub mod refusal_laws;
pub mod report;
pub mod rgb;
pub mod rounding;
pub mod sensors;
pub mod served_laws;
pub mod signals;
pub mod signals_laws;
pub mod text;
pub mod text_laws;
pub mod tick;
pub mod tick_laws;
pub mod validation;
pub mod wire_laws;
