//! Core of an SPDM (Security Protocol and Data Model) requester library:
//! wire codecs for the measurement and certificate messages, transcript
//! management, and the requester flows for GET_CERTIFICATE and
//! GET_MEASUREMENTS, with machine-checked contracts for the byte layouts
//! and state transitions.

pub mod certificate;
pub mod codec;
pub mod common;
pub mod config;
pub mod crypto;
pub mod device;
pub mod error;
pub mod measurement;
pub mod protocol;
pub mod requester;
pub mod secret;
