//! The registry of the endpoints that are served by key expressions.

use crate::transport::{TransportHandler, TransportReader, TransportWriter};
use crate::types::{Receiver, Sender};
use vstd::prelude::*;

verus! {

/// A zenoh session, carried as it is to where the endpoints are served.
#[verifier::external_type_specification]
#[verifier::external_body]
pub struct ExSession(::zenoh::Session);

/// Holds the key expressions that byte channels are bound to, in the order in
/// which they were added, and the session that serves them, where one was given.
pub struct ZenohTransportHandler {
    pub session: Option<::zenoh::Session>,
    pub writers: Vec<TransportWriter<String>>,
    pub readers: Vec<TransportReader<String>>,
}

impl ZenohTransportHandler {
    /// A handler without endpoints and without a session.
    pub fn new() -> (handler: Self)
        ensures
            handler.session.is_none(),
            handler.writers@.len() == 0,
            handler.readers@.len() == 0,
    {
        ZenohTransportHandler { session: None, writers: Vec::new(), readers: Vec::new() }
    }

    /// A handler without endpoints that is served by `session`.
    pub fn new_with_session(session: ::zenoh::Session) -> (handler: Self)
        ensures
            handler.session == Some(session),
            handler.writers@.len() == 0,
            handler.readers@.len() == 0,
    {
        ZenohTransportHandler { session: Some(session), writers: Vec::new(), readers: Vec::new() }
    }
}

impl TransportHandler for ZenohTransportHandler {
    type WriterConfig = String;

    type ReaderConfig = String;

    open spec fn writer_channels(&self) -> Seq<usize> {
        self.writers@.map_values(|w: TransportWriter<String>| w.rx.channel)
    }

    open spec fn reader_channels(&self) -> Seq<usize> {
        self.readers@.map_values(|r: TransportReader<String>| r.tx.channel)
    }

    /// Binds `rx` to the key expression that its byte buffers are published under.
    fn add_transport_writer(&mut self, rx: Receiver, key: String)
        ensures
            final(self).writers@ == old(self).writers@.push(TransportWriter { rx, conf: key }),
            final(self).readers@ == old(self).readers@,
            final(self).session == old(self).session,
    {
        self.writers.push(TransportWriter { rx, conf: key });
        assert(self.writer_channels() =~= old(self).writer_channels().push(rx.channel));
    }

    /// Binds `tx` to the key expression whose samples it is handed.
    fn add_transport_reader(&mut self, tx: Sender, key: String)
        ensures
            final(self).readers@ == old(self).readers@.push(TransportReader { tx, conf: key }),
            final(self).writers@ == old(self).writers@,
            final(self).session == old(self).session,
    {
        self.readers.push(TransportReader { tx, conf: key });
        assert(self.reader_channels() =~= old(self).reader_channels().push(tx.channel));
    }
}

} // verus!
