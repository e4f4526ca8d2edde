//! The transport manager: it gives every virtual channel the byte channels of its
//! bindings, hands one end of each to the adapter of its transport, and keeps the
//! other end under the number of the virtual channel.

use crate::config::VirtualChannel;
use crate::transport::config::{RxTransport, TxTransport};
use crate::transport::ros2::{Ros2ReaderConfig, Ros2TransportHandler};
use crate::transport::udp::AsyncUdpTransportHandler;
use crate::transport::zenoh::ZenohTransportHandler;
use crate::transport::{TransportHandler, TransportReader, TransportWriter};
use crate::types::{Receiver, Sender, VcId, VirtualChannelRxMap, VirtualChannelTxMap};
use std::collections::HashMap;
use vstd::prelude::*;

verus! {

/// Why a virtual channel could not be added.
#[derive(Debug)]
pub enum TransportManagerError {
    /// This text of a UDP binding is no socket address.
    AddrParse(String),
    /// The configuration of the virtual channel cannot be met.
    InvalidConfig(String),
}

/// Whether `check`, asked about `text`, may answer `answer`.
pub open spec fn answers<F: Fn(&str) -> bool>(check: F, text: Seq<char>, answer: bool) -> bool {
    exists|asked: &str| asked@ == text && check.ensures((asked,), answer)
}

/// Whether `check` took the address of the outgoing binding for a socket address,
/// where the binding is one over UDP.
pub open spec fn tx_address_taken<F: Fn(&str) -> bool>(check: F, vc: &VirtualChannel) -> bool {
    vc.tx_transport matches Some(TxTransport::Udp(t)) ==> answers(check, t.send@, true)
}

/// An endpoint that a byte channel is bound to: the channel's number and the text
/// that names the endpoint.
pub type Binding = (usize, Seq<char>);

/// A topic-based source that a byte channel is bound to.
pub enum Ros2Source {
    Subscription(Seq<char>),
    ActionServer(Seq<char>),
}

/// The bindings of writers, in the order in which they were added.
pub open spec fn writer_bindings(writers: Seq<TransportWriter<String>>) -> Seq<Binding> {
    writers.map_values(|w: TransportWriter<String>| (w.rx.channel, w.conf@))
}

/// The bindings of readers, in the order in which they were added.
pub open spec fn reader_bindings(readers: Seq<TransportReader<String>>) -> Seq<Binding> {
    readers.map_values(|r: TransportReader<String>| (r.tx.channel, r.conf@))
}

/// The source of a topic-based reader.
pub open spec fn ros2_source(conf: Ros2ReaderConfig) -> Ros2Source {
    match conf {
        Ros2ReaderConfig::Subscription(topic) => Ros2Source::Subscription(topic@),
        Ros2ReaderConfig::ActionServer(server) => Ros2Source::ActionServer(server@),
    }
}

/// The bindings of topic-based readers, in the order in which they were added.
pub open spec fn ros2_reader_bindings(readers: Seq<TransportReader<Ros2ReaderConfig>>) -> Seq<
    (usize, Ros2Source),
> {
    readers.map_values(|r: TransportReader<Ros2ReaderConfig>| (r.tx.channel, ros2_source(r.conf)))
}

/// What a transport manager holds.
#[verifier::ext_equal]
pub struct ManagerView {
    /// For each virtual channel with an outgoing binding, the end to write to.
    pub tx_map: Map<VcId, Sender>,
    /// For each virtual channel with an incoming binding, the end to read from.
    pub rx_map: Map<VcId, Receiver>,
    pub udp_writers: Seq<Binding>,
    pub udp_readers: Seq<Binding>,
    pub ros2_writers: Seq<Binding>,
    pub ros2_readers: Seq<(usize, Ros2Source)>,
    pub zenoh_writers: Seq<Binding>,
    pub zenoh_readers: Seq<Binding>,
    /// The number of byte channels given out so far.
    pub channels: nat,
    /// The name of the node that serves the topic-based endpoints.
    pub node_name: Seq<char>,
    /// The session that serves the endpoints that key expressions name, where one
    /// was given.
    pub session: Option<::zenoh::Session>,
}

/// The source that a topic-based transport asks for: its subscription where it
/// names one, else its action server.
pub open spec fn ros2_source_of(topic_sub: Option<String>, action_srv: Option<String>) -> Ros2Source {
    match topic_sub {
        Some(topic) => Ros2Source::Subscription(topic@),
        None => Ros2Source::ActionServer(action_srv.unwrap()@),
    }
}

impl ManagerView {
    /// The manager after the outgoing binding of virtual channel `id`: a new byte
    /// channel whose reading end goes to the adapter of the transport and whose
    /// writing end is kept under `id`.
    pub open spec fn with_tx(self, id: VcId, tx: TxTransport) -> ManagerView {
        let channel = self.channels as usize;
        let bound = ManagerView {
            tx_map: self.tx_map.insert(id, Sender { channel }),
            channels: self.channels + 1,
            ..self
        };
        match tx {
            TxTransport::Udp(t) => ManagerView {
                udp_writers: self.udp_writers.push((channel, t.send@)),
                ..bound
            },
            TxTransport::Ros2(t) => ManagerView {
                ros2_writers: self.ros2_writers.push((channel, t.topic_pub@)),
                ..bound
            },
            TxTransport::Zenoh(t) => ManagerView {
                zenoh_writers: self.zenoh_writers.push((channel, t.key_pub@)),
                ..bound
            },
        }
    }

    /// The manager after the incoming binding of virtual channel `id`: a new byte
    /// channel whose writing end goes to the adapter of the transport and whose
    /// reading end is kept under `id`.
    pub open spec fn with_rx(self, id: VcId, rx: RxTransport) -> ManagerView {
        let channel = self.channels as usize;
        let bound = ManagerView {
            rx_map: self.rx_map.insert(id, Receiver { channel }),
            channels: self.channels + 1,
            ..self
        };
        match rx {
            RxTransport::Udp(t) => ManagerView {
                udp_readers: self.udp_readers.push((channel, t.listen@)),
                ..bound
            },
            RxTransport::Ros2(t) => ManagerView {
                ros2_readers: self.ros2_readers.push(
                    (channel, ros2_source_of(t.topic_sub, t.action_srv)),
                ),
                ..bound
            },
            RxTransport::Zenoh(t) => ManagerView {
                zenoh_readers: self.zenoh_readers.push((channel, t.key_sub@)),
                ..bound
            },
        }
    }

    /// The manager after the outgoing binding of a virtual channel, where it has
    /// one.
    pub open spec fn with_tx_of(self, vc: &VirtualChannel) -> ManagerView {
        match vc.tx_transport {
            Some(tx) => self.with_tx(vc.id, tx),
            None => self,
        }
    }

    /// The manager after a virtual channel was added. The outgoing binding is made
    /// first; an incoming binding that cannot be made leaves it in place.
    pub open spec fn with_channel(self, vc: &VirtualChannel) -> ManagerView {
        match vc.rx_transport {
            Some(rx) if rx.bindable() => self.with_tx_of(vc).with_rx(vc.id, rx),
            _ => self.with_tx_of(vc),
        }
    }
}

/// A virtual channel that is added with both directions gets two byte channels of
/// its own: what is written to the end under its number in the one map leaves at
/// the adapter of its outgoing transport, and what the adapter of its incoming
/// transport takes in arrives at the end under its number in the other map.
pub proof fn lemma_both_directions_bound(before: ManagerView, vc: &VirtualChannel)
    requires
        before.channels + 2 <= usize::MAX,
        vc.tx_transport.is_some(),
        vc.rx_transport matches Some(rx) && rx.bindable(),
    ensures
        ({
            let after = before.with_channel(vc);
            &&& after.channels == before.channels + 2
            &&& after.tx_map.contains_key(vc.id)
            &&& after.tx_map[vc.id].channel == before.channels
            &&& after.rx_map.contains_key(vc.id)
            &&& after.rx_map[vc.id].channel == before.channels + 1
            &&& match vc.tx_transport.unwrap() {
                TxTransport::Udp(t) => after.udp_writers.last() == (after.tx_map[vc.id].channel, t.send@),
                TxTransport::Ros2(t) => after.ros2_writers.last() == (
                    after.tx_map[vc.id].channel,
                    t.topic_pub@,
                ),
                TxTransport::Zenoh(t) => after.zenoh_writers.last() == (
                    after.tx_map[vc.id].channel,
                    t.key_pub@,
                ),
            }
            &&& match vc.rx_transport.unwrap() {
                RxTransport::Udp(t) => after.udp_readers.last() == (
                    after.rx_map[vc.id].channel,
                    t.listen@,
                ),
                RxTransport::Ros2(t) => after.ros2_readers.last() == (
                    after.rx_map[vc.id].channel,
                    ros2_source_of(t.topic_sub, t.action_srv),
                ),
                RxTransport::Zenoh(t) => after.zenoh_readers.last() == (
                    after.rx_map[vc.id].channel,
                    t.key_sub@,
                ),
            }
        }),
{
}

/// Whether `after` and `r` are what adding the virtual channel `vc` makes of the
/// manager `before`, when `is_socket_addr` is asked about its UDP addresses.
///
/// The outgoing binding is made first. Where all goes well, both bindings are
/// made, and every UDP address was taken for a socket address. An address that
/// was not taken is handed back as an error: that of the outgoing binding with
/// nothing bound, that of the incoming binding with the outgoing one in place. A
/// topic-based incoming binding without a source is an invalid configuration,
/// and leaves the outgoing binding in place too.
pub open spec fn channel_added<F: Fn(&str) -> bool>(
    before: ManagerView,
    after: ManagerView,
    vc: &VirtualChannel,
    is_socket_addr: F,
    r: Result<(), TransportManagerError>,
) -> bool {
    match r {
        Ok(_) => {
            &&& after =~= before.with_channel(vc)
            &&& tx_address_taken(is_socket_addr, vc)
            &&& vc.rx_transport matches Some(rx) ==> rx.bindable()
            &&& vc.rx_transport matches Some(RxTransport::Udp(t)) ==> answers(
                is_socket_addr,
                t.listen@,
                true,
            )
        },
        Err(TransportManagerError::AddrParse(text)) => {
            ||| {
                &&& vc.tx_transport matches Some(TxTransport::Udp(t)) && text@ == t.send@
                    && answers(is_socket_addr, t.send@, false)
                &&& after =~= before
            }
            ||| {
                &&& vc.rx_transport matches Some(RxTransport::Udp(t)) && text@ == t.listen@
                    && answers(is_socket_addr, t.listen@, false)
                &&& tx_address_taken(is_socket_addr, vc)
                &&& after =~= before.with_tx_of(vc)
            }
        },
        Err(TransportManagerError::InvalidConfig(_)) => {
            &&& vc.rx_transport matches Some(rx) && !rx.bindable()
            &&& tx_address_taken(is_socket_addr, vc)
            &&& after =~= before.with_tx_of(vc)
        },
    }
}

/// Binds virtual channels to byte channels and transports.
pub struct TransportManager {
    pub udp_handler: AsyncUdpTransportHandler,
    ros2_handler: Ros2TransportHandler,
    zenoh_handler: ZenohTransportHandler,
    vc_tx_map: VirtualChannelTxMap,
    vc_rx_map: VirtualChannelRxMap,
    channels: usize,
}

impl View for TransportManager {
    type V = ManagerView;

    closed spec fn view(&self) -> ManagerView {
        ManagerView {
            tx_map: self.vc_tx_map@,
            rx_map: self.vc_rx_map@,
            udp_writers: writer_bindings(self.udp_handler.writers@),
            udp_readers: reader_bindings(self.udp_handler.readers@),
            ros2_writers: writer_bindings(self.ros2_handler.publishers@),
            ros2_readers: ros2_reader_bindings(self.ros2_handler.readers@),
            zenoh_writers: writer_bindings(self.zenoh_handler.writers@),
            zenoh_readers: reader_bindings(self.zenoh_handler.readers@),
            channels: self.channels as nat,
            node_name: self.ros2_handler.node_name@,
            session: self.zenoh_handler.session,
        }
    }
}

/// A manager that holds no virtual channel and no endpoint, for a node of the
/// given name and the given session.
pub open spec fn empty_manager(node_name: Seq<char>, session: Option<::zenoh::Session>) -> ManagerView {
    ManagerView {
        tx_map: Map::empty(),
        rx_map: Map::empty(),
        udp_writers: Seq::empty(),
        udp_readers: Seq::empty(),
        ros2_writers: Seq::empty(),
        ros2_readers: Seq::empty(),
        zenoh_writers: Seq::empty(),
        zenoh_readers: Seq::empty(),
        channels: 0,
        node_name,
        session,
    }
}

impl TransportManager {
    /// A manager without virtual channels, whose topic-based adapter runs a node of
    /// the given name, and whose key-expression adapter has no session yet.
    pub fn new(ros2_node_name: &str) -> (r: Result<Self, TransportManagerError>)
        ensures
            r matches Ok(manager) && manager@ =~= empty_manager(ros2_node_name@, None),
    {
        let manager = TransportManager {
            udp_handler: AsyncUdpTransportHandler::new(),
            ros2_handler: Ros2TransportHandler::new(ros2_node_name),
            zenoh_handler: ZenohTransportHandler::new(),
            vc_tx_map: HashMap::new(),
            vc_rx_map: HashMap::new(),
            channels: 0,
        };
        assert(manager@ =~= empty_manager(ros2_node_name@, None));
        Ok(manager)
    }

    /// A manager without virtual channels, whose key-expression adapter is served
    /// by `session`, and whose topic-based adapter runs a node without a name.
    pub fn new_with_z_session(session: ::zenoh::Session) -> (r: Result<Self, TransportManagerError>)
        ensures
            r matches Ok(manager) && manager@ =~= empty_manager(Seq::empty(), Some(session)),
    {
        let manager = TransportManager {
            udp_handler: AsyncUdpTransportHandler::new(),
            ros2_handler: Ros2TransportHandler::new(""),
            zenoh_handler: ZenohTransportHandler::new_with_session(session),
            vc_tx_map: HashMap::new(),
            vc_rx_map: HashMap::new(),
            channels: 0,
        };
        proof {
            reveal_strlit("");
            assert(""@ =~= Seq::<char>::empty());
        }
        assert(manager@ =~= empty_manager(Seq::empty(), Some(session)));
        Ok(manager)
    }

    /// Whether two more byte channels can be numbered.
    pub open spec fn has_room(&self) -> bool {
        self@.channels + 2 <= usize::MAX
    }

    /// Adds a virtual channel: for each binding it has, a byte channel is made, one
    /// end goes to the adapter of the transport, and the other end is kept under
    /// the number of the virtual channel.
    ///
    /// The outgoing binding is made first. A binding over UDP is made only where
    /// `is_socket_addr` takes its address for a socket address. A topic-based
    /// incoming binding that names neither a subscription nor an action server
    /// cannot be made. An incoming binding that cannot be made leaves the outgoing
    /// one in place.
    pub fn add_virtual_channel<F: Fn(&str) -> bool>(
        &mut self,
        vc: &VirtualChannel,
        is_socket_addr: F,
    ) -> (r: Result<(), TransportManagerError>)
        requires
            old(self).has_room(),
            forall|text: &str| is_socket_addr.requires((text,)),
        ensures
            channel_added(old(self)@, final(self)@, vc, is_socket_addr, r),
    {
        broadcast use vstd::std_specs::hash::group_hash_axioms;

        let ghost start = self@;
        if let Some(tx_transport) = &vc.tx_transport {
            let channel = self.channels;
            let rx = Receiver { channel };
            match tx_transport {
                TxTransport::Udp(t) => {
                    if !is_socket_addr(t.send.as_str()) {
                        return Err(TransportManagerError::AddrParse(t.send.clone()));
                    }
                    self.udp_handler.add_transport_writer(rx, t.send.clone());
                },
                TxTransport::Ros2(t) => {
                    self.ros2_handler.add_transport_writer(rx, t.topic_pub.clone());
                },
                TxTransport::Zenoh(t) => {
                    self.zenoh_handler.add_transport_writer(rx, t.key_pub.clone());
                },
            }
            self.channels = self.channels + 1;
            self.vc_tx_map.insert(vc.id, Sender { channel });
        }
        assert(self@ =~= start.with_tx_of(vc));
        if let Some(rx_transport) = &vc.rx_transport {
            let channel = self.channels;
            let tx = Sender { channel };
            match rx_transport {
                RxTransport::Udp(t) => {
                    if !is_socket_addr(t.listen.as_str()) {
                        return Err(TransportManagerError::AddrParse(t.listen.clone()));
                    }
                    self.udp_handler.add_transport_reader(tx, t.listen.clone());
                },
                RxTransport::Ros2(t) => {
                    match Ros2ReaderConfig::from_transport(t) {
                        Some(conf) => {
                            self.ros2_handler.add_transport_reader(tx, conf);
                        },
                        None => {
                            return Err(
                                TransportManagerError::InvalidConfig(
                                    "rx transport names neither a subscription nor an action server".to_owned(),
                                ),
                            );
                        },
                    }
                },
                RxTransport::Zenoh(t) => {
                    self.zenoh_handler.add_transport_reader(tx, t.key_sub.clone());
                },
            }
            self.channels = self.channels + 1;
            self.vc_rx_map.insert(vc.id, Receiver { channel });
            assert(self@ =~= start.with_tx_of(vc).with_rx(vc.id, *rx_transport));
        }
        Ok(())
    }

    /// Binds `tx` to the UDP address whose datagrams it is handed.
    pub fn add_udp_reader(&mut self, tx: Sender, addr: String)
        ensures
            final(self)@ =~= (ManagerView {
                udp_readers: old(self)@.udp_readers.push((tx.channel, addr@)),
                ..old(self)@
            }),
    {
        self.udp_handler.add_transport_reader(tx, addr);
    }

    /// Binds `rx` to the UDP address that its byte buffers are sent to.
    pub fn add_udp_writer(&mut self, rx: Receiver, addr: String)
        ensures
            final(self)@ =~= (ManagerView {
                udp_writers: old(self)@.udp_writers.push((rx.channel, addr@)),
                ..old(self)@
            }),
    {
        self.udp_handler.add_transport_writer(rx, addr);
    }

    /// Binds `tx` to the subscription or action server whose messages it is handed.
    pub fn add_ros2_reader(&mut self, tx: Sender, config: Ros2ReaderConfig)
        ensures
            final(self)@ =~= (ManagerView {
                ros2_readers: old(self)@.ros2_readers.push((tx.channel, ros2_source(config))),
                ..old(self)@
            }),
    {
        self.ros2_handler.add_transport_reader(tx, config);
    }

    /// Binds `rx` to the topic that its byte buffers are published on.
    pub fn add_ros2_writer(&mut self, rx: Receiver, topic: String)
        ensures
            final(self)@ =~= (ManagerView {
                ros2_writers: old(self)@.ros2_writers.push((rx.channel, topic@)),
                ..old(self)@
            }),
    {
        self.ros2_handler.add_transport_writer(rx, topic);
    }

    /// The two maps from virtual channels to the ends of their byte channels.
    pub fn get_vc_maps(&self) -> (maps: (&VirtualChannelTxMap, &VirtualChannelRxMap))
        ensures
            maps.0@ == self@.tx_map,
            maps.1@ == self@.rx_map,
    {
        (&self.vc_tx_map, &self.vc_rx_map)
    }

    /// For each virtual channel with an outgoing binding, the end to write to.
    pub fn tx_map(&self) -> (map: &VirtualChannelTxMap)
        ensures
            map@ == self@.tx_map,
    {
        &self.vc_tx_map
    }

    /// For each virtual channel with an incoming binding, the end to read from.
    pub fn rx_map(&self) -> (map: &VirtualChannelRxMap)
        ensures
            map@ == self@.rx_map,
    {
        &self.vc_rx_map
    }

    /// The number of byte channels given out so far.
    pub fn channel_count(&self) -> (n: usize)
        ensures
            n == self@.channels,
    {
        self.channels
    }

    /// The registry of the topic-based endpoints.
    pub fn ros2_handler(&self) -> (handler: &Ros2TransportHandler)
        ensures
            writer_bindings(handler.publishers@) == self@.ros2_writers,
            ros2_reader_bindings(handler.readers@) == self@.ros2_readers,
            handler.node_name@ == self@.node_name,
    {
        &self.ros2_handler
    }

    /// The registry of the endpoints that key expressions name.
    pub fn zenoh_handler(&self) -> (handler: &ZenohTransportHandler)
        ensures
            writer_bindings(handler.writers@) == self@.zenoh_writers,
            reader_bindings(handler.readers@) == self@.zenoh_readers,
            handler.session == self@.session,
    {
        &self.zenoh_handler
    }
}

} // verus!
