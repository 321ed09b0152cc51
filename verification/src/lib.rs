//! A dynamic-DNS reconciliation library.
//!
//! The library keeps address records of configured DNS zones in step with a
//! host's externally detected IP address. Its heart is a reconciliation
//! engine that, given the desired configuration, the provider's currently
//! observed records and one detected address, decides which records must be
//! created or overwritten, and a supervisor that spaces reconciliation
//! cycles on a fixed interval and aborts after repeated cycle failures.
//!
//! All network, file and provider I/O lives outside this crate: callers
//! detect the external address, fetch the provider's state through the
//! [`provider::DnsProvider`] trait and drive the supervisor loop, while the
//! decisions themselves are made here.

pub mod config;
pub mod engine;
pub mod gandi;
pub mod ip;
pub mod names;
pub mod provider;
pub mod route53;
pub mod supervisor;
