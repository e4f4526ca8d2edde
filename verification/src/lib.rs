//! Telecommand and telemetry handling for a PUS application: virtual channel
//! bookkeeping, transfer frame routing, the verification state machine of a PUS
//! service, and the parameter management service.

pub mod bitbuffer;
pub mod comm;
pub mod config;
pub mod endian;
pub mod ieee;
pub mod packets;
pub mod parameter_management_service;
pub mod pus_app;
pub mod service;
pub mod time;
pub mod transport;
pub mod types;
