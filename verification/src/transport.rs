//! Transports: how a byte channel is bound to an endpoint outside the process.

pub mod config;
pub mod manager;
pub mod ros2;
pub mod udp;
pub mod zenoh;

pub use crate::transport::config::{RxTransport, TxTransport};
pub use crate::transport::manager::TransportManager;
use crate::types::{Receiver, Sender};
use vstd::prelude::*;

verus! {

/// The most bytes that an adapter takes from its endpoint in one piece.
pub const TRANSPORT_BUFFER_SIZE: usize = 8096;

/// An endpoint that is written to: the adapter takes byte buffers from `rx` and
/// hands them to the endpoint that `conf` names.
#[derive(Debug)]
pub struct TransportWriter<T> {
    pub rx: Receiver,
    pub conf: T,
}

/// An endpoint that is read from: the adapter takes byte buffers from the
/// endpoint that `conf` names and hands them to `tx`.
#[derive(Debug)]
pub struct TransportReader<T> {
    pub tx: Sender,
    pub conf: T,
}

/// A registry of the endpoints of one kind of transport. Endpoints are served in
/// the order in which they were added.
pub trait TransportHandler {
    /// What names an endpoint that is written to.
    type WriterConfig;

    /// What names an endpoint that is read from.
    type ReaderConfig;

    /// The byte channels that are bound to an endpoint that is written to.
    spec fn writer_channels(&self) -> Seq<usize>;

    /// The byte channels that are bound to an endpoint that is read from.
    spec fn reader_channels(&self) -> Seq<usize>;

    /// Binds the reading end `rx` of a byte channel to an endpoint that its byte
    /// buffers are handed to.
    fn add_transport_writer(&mut self, rx: Receiver, config: Self::WriterConfig)
        ensures
            final(self).writer_channels() == old(self).writer_channels().push(rx.channel),
            final(self).reader_channels() == old(self).reader_channels(),
    ;

    /// Binds the writing end `tx` of a byte channel to an endpoint whose byte
    /// buffers it is handed.
    fn add_transport_reader(&mut self, tx: Sender, config: Self::ReaderConfig)
        ensures
            final(self).reader_channels() == old(self).reader_channels().push(tx.channel),
            final(self).writer_channels() == old(self).writer_channels(),
    ;
}

} // verus!
