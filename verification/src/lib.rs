//! Host telemetry core: counters and flow keys, netlink and task-accounting
//! wire formats, link-layer packet parsing, `/proc` text parsing and the
//! process/flow correlator, all stated over mathematical models and verified.
#![allow(non_snake_case)]
#![allow(non_camel_case_types)]

pub mod common;
pub mod config;
pub mod wire;
pub mod text;
pub mod network_stat;
pub mod netlink;
pub mod process;
pub mod report;
pub mod taskstat;
