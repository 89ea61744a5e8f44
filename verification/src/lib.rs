//! Estimation of the offset between the local wall clock and UTC from a pool
//! of time servers.
//!
//! A cycle runs through the modules in this order: [`config`] reads the
//! settings, [`servers`] builds the candidate pool from what resolving the
//! hosts gave, [`dispatch`] splits it into batches, [`collector`] gathers the
//! answers of each batch under its deadline, [`aggregate`] reduces them to one
//! estimate, and [`world_time`] holds the latest estimate for the process.
//! [`clock`] applies an estimate to a reading of the clock, and
//! [`system_time`] reads what setting the system clock answered.
//!
//! Nothing here touches the network, the clock or the environment: the
//! caller resolves, probes, sleeps and sets the clock, and hands plain values
//! in and out.

pub mod config;
pub mod hosts;
pub mod text;
pub mod servers;
pub mod dispatch;
pub mod collector;
pub mod aggregate;
pub mod world_time;
pub mod clock;
pub mod system_time;
