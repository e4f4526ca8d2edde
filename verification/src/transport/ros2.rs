//! The registry of the endpoints that are served by topics.

use crate::transport::config::Ros2RxTransport;
use crate::transport::{TransportHandler, TransportReader, TransportWriter};
use crate::types::{Receiver, Sender};
use vstd::prelude::*;

verus! {

/// Where a topic-based reader takes its bytes from.
#[derive(Debug)]
pub enum Ros2ReaderConfig {
    Subscription(String),
    ActionServer(String),
}

/// Holds the topics that byte channels are bound to, in the order in which they
/// were added, and the name of the node that serves them.
pub struct Ros2TransportHandler {
    pub node_name: String,
    pub publishers: Vec<TransportWriter<String>>,
    pub readers: Vec<TransportReader<Ros2ReaderConfig>>,
}

impl Ros2ReaderConfig {
    /// The reader that a transport asks for: a subscription where it names a
    /// topic, else an action server where it names one, else none.
    pub fn from_transport(transport: &Ros2RxTransport) -> (r: Option<Ros2ReaderConfig>)
        ensures
            match r {
                Some(Ros2ReaderConfig::Subscription(topic)) => transport.topic_sub matches Some(t)
                    && t@ == topic@,
                Some(Ros2ReaderConfig::ActionServer(server)) => transport.topic_sub.is_none() && (
                transport.action_srv matches Some(s) && s@ == server@),
                None => !transport.has_source(),
            },
    {
        match &transport.topic_sub {
            Some(topic) => Some(Ros2ReaderConfig::Subscription(topic.clone())),
            None => match &transport.action_srv {
                Some(server) => Some(Ros2ReaderConfig::ActionServer(server.clone())),
                None => None,
            },
        }
    }
}

impl Ros2TransportHandler {
    /// A handler without endpoints whose node has the given name.
    pub fn new(node_name: &str) -> (handler: Self)
        ensures
            handler.node_name@ == node_name@,
            handler.publishers@.len() == 0,
            handler.readers@.len() == 0,
    {
        Ros2TransportHandler {
            node_name: node_name.to_owned(),
            publishers: Vec::new(),
            readers: Vec::new(),
        }
    }
}

impl TransportHandler for Ros2TransportHandler {
    type WriterConfig = String;

    type ReaderConfig = Ros2ReaderConfig;

    open spec fn writer_channels(&self) -> Seq<usize> {
        self.publishers@.map_values(|w: TransportWriter<String>| w.rx.channel)
    }

    open spec fn reader_channels(&self) -> Seq<usize> {
        self.readers@.map_values(|r: TransportReader<Ros2ReaderConfig>| r.tx.channel)
    }

    /// Binds `rx` to the topic that its byte buffers are published on.
    fn add_transport_writer(&mut self, rx: Receiver, config: String)
        ensures
            final(self).publishers@ == old(self).publishers@.push(TransportWriter { rx, conf: config }),
            final(self).readers@ == old(self).readers@,
            final(self).node_name == old(self).node_name,
    {
        self.publishers.push(TransportWriter { rx, conf: config });
        assert(self.writer_channels() =~= old(self).writer_channels().push(rx.channel));
    }

    /// Binds `tx` to the subscription or action server whose messages it is handed.
    fn add_transport_reader(&mut self, tx: Sender, conf: Ros2ReaderConfig)
        ensures
            final(self).readers@ == old(self).readers@.push(TransportReader { tx, conf: conf }),
            final(self).publishers@ == old(self).publishers@,
            final(self).node_name == old(self).node_name,
    {
        self.readers.push(TransportReader { tx, conf: conf });
        assert(self.reader_channels() =~= old(self).reader_channels().push(tx.channel));
    }
}

} // verus!
