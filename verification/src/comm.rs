//! The link between transfer frames and virtual channels: the configuration of the
//! frame links and the processor that routes frame data.

pub mod config;
pub mod frame_processor;
