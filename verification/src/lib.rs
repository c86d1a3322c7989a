//! Normalisation of vehicle telemetry recorded by a data logger.
//!
//! A logger stores every channel as its own series of timestamped samples,
//! each at the cadence of the sensor behind it. This crate estimates the
//! sampling rate of such a series, lays it onto a fixed-rate grid, and
//! re-expresses one channel on the timestamps of another. It also holds the
//! bookkeeping that lets several users share one decoder session per file.
//!
//! All times are whole microseconds and all sample values are fixed-point
//! integers, so every result is exact and every contract is stated over
//! mathematical integers.

pub mod channel;
pub mod datetime;
pub mod decoder;
pub mod error;
pub mod frequency;
pub mod lap;
pub mod registry;
pub mod resample;
pub mod run;
pub mod run_data;
pub mod storage;
pub mod synchronize;
pub mod text;
pub mod xdrk_file;

pub use channel::Channel;
pub use channel::ChannelData;
pub use channel::FixedRateChannel;
pub use lap::Lap;
pub use lap::LapInfo;
pub use run::Run;
pub use xdrk_file::XdrkFile;
