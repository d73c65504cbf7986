//! Wipestation: drive-sanitization domain logic with verified contracts.

pub mod text;
pub mod sorted_ids;

pub mod device;
pub mod method;
pub mod bay;
pub mod bay_build;
pub mod bay_resolve;
pub mod bay_validate;
pub mod catalog;
pub mod catalog_match;
pub mod job;
pub mod error;
pub mod license;
pub mod crypto;
pub mod cert;
pub mod certificate;
pub mod manifest;
pub mod runner;
pub mod license_chain;
pub mod attestation_report;
pub mod license_station;
pub mod store;
pub mod fleet;
pub mod mock;
