//! Telemetry sources: the parsing and bookkeeping behind each collector.

pub mod cpu_ram;
pub mod engine;
pub mod fps_mangohud;
pub mod gpu_amd;
pub mod gpu_smi;
pub mod metrics;
pub mod simulated;
