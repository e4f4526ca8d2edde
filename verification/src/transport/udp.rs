//! The registry of the endpoints that are served over UDP.

use crate::transport::{TransportHandler, TransportReader, TransportWriter};
use crate::types::{Receiver, Sender};
use vstd::prelude::*;

verus! {

/// Holds the UDP endpoints that byte channels are bound to, in the order in which
/// they were added. The address of an endpoint is kept as it was configured.
pub struct AsyncUdpTransportHandler {
    pub writers: Vec<TransportWriter<String>>,
    pub readers: Vec<TransportReader<String>>,
}

impl AsyncUdpTransportHandler {
    /// A handler without endpoints.
    pub fn new() -> (handler: Self)
        ensures
            handler.writers@.len() == 0,
            handler.readers@.len() == 0,
    {
        AsyncUdpTransportHandler { writers: Vec::new(), readers: Vec::new() }
    }
}

impl TransportHandler for AsyncUdpTransportHandler {
    type WriterConfig = String;

    type ReaderConfig = String;

    open spec fn writer_channels(&self) -> Seq<usize> {
        self.writers@.map_values(|w: TransportWriter<String>| w.rx.channel)
    }

    open spec fn reader_channels(&self) -> Seq<usize> {
        self.readers@.map_values(|r: TransportReader<String>| r.tx.channel)
    }

    /// Binds `rx` to the address that its byte buffers are sent to.
    fn add_transport_writer(&mut self, rx: Receiver, config: String)
        ensures
            final(self).writers@ == old(self).writers@.push(TransportWriter { rx, conf: config }),
            final(self).readers@ == old(self).readers@,
    {
        self.writers.push(TransportWriter { rx, conf: config });
        assert(self.writer_channels() =~= old(self).writer_channels().push(rx.channel));
    }

    /// Binds `tx` to the address whose datagrams it is handed.
    fn add_transport_reader(&mut self, tx: Sender, config: String)
        ensures
            final(self).readers@ == old(self).readers@.push(TransportReader { tx, conf: config }),
            final(self).writers@ == old(self).writers@,
    {
        self.readers.push(TransportReader { tx, conf: config });
        assert(self.reader_channels() =~= old(self).reader_channels().push(tx.channel));
    }
}

} // verus!
