//! The verified core of a power-aware node-telemetry agent for GPU hosts: status state and
//! its error ring, the efficiency-policy planner and enforcement decisions with a flap
//! dampener, root-cause correlation and failure-risk scoring, PUE and kernel-sample
//! aggregation, per-tick scheduling bookkeeping, and the pure derivations that the
//! collectors apply to raw counters. Measurements are held in integer thousandths of their
//! unit (milli-degrees, milli-percent, milliwatts).

pub mod app_tokens;
pub mod client;
pub mod condition;
pub mod config;
pub mod console;
pub mod control;
pub mod derivations;
pub mod drivers;
pub mod ebpf;
pub mod gpu;
pub mod gpu_events;
pub mod gpu_tracker;
pub mod netdev;
pub mod network;
pub mod numtext;
pub mod orchestrator;
pub mod policy;
pub mod predictive;
pub mod pue;
pub mod rca;
pub mod scheduler;
pub mod state;
pub mod tsdb;
