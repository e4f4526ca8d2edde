//! The PUS application: it owns the virtual channels and the registered services,
//! and hands every telecommand that arrives to each service in turn.

use crate::config::VirtualChannel;
use crate::packets::{pus_tc_read, PusTc, PusTcView, TmContent, MAX_APID};
use crate::service::{
    handled_tc,
    served_tc,
    AcceptanceError,
    AcceptanceResult,
    PusService,
    PusServiceBase,
    VERIFICATION_SERVICE,
};
use crate::time::TimestampHelper;
use crate::transport::manager::{
    channel_added,
    empty_manager,
    ManagerView,
    TransportManager,
    TransportManagerError,
};
use crate::types::{
    counter_after,
    lemma_counter_after_add,
    lemma_counter_after_injective,
    RccnEcssTmSender,
    Sender,
    VcId,
};
use vstd::prelude::*;

verus! {

/// A PUS application over services of one kind.
pub struct PusApp<S: PusService> {
    transport_manager: TransportManager,
    handlers: Vec<(u8, S)>,
    apid: u16,
    msg_counter: u16,
}

/// What is handed to the services: the bytes that arrived, or the telecommand
/// that was read from them.
enum TcInput<'a> {
    Bytes(&'a [u8]),
    Read(&'a PusTc),
}

impl<'a> TcInput<'a> {
    /// The telecommand that the services read.
    spec fn read(&self) -> Option<PusTcView> {
        match self {
            TcInput::Bytes(bytes) => pus_tc_read(bytes@),
            TcInput::Read(tc) => Some(tc@),
        }
    }
}

/// Whether `after`, `r` and `trace` are the service, the result and the queued
/// telemetry that follow when the service `before`, which answers under the
/// number `service`, is handed what was read from the bytes that arrived.
///
/// Bytes that are no telecommand give an error, no telemetry, and leave the
/// service as it was. A telecommand is answered as [`handled_tc`] says and makes of
/// the service what [`served_tc`] says.
pub open spec fn answered<S: PusService>(
    before: S,
    after: S,
    apid: u16,
    service: u8,
    read: Option<PusTcView>,
    r: AcceptanceResult,
    trace: Seq<TmContent>,
) -> bool {
    match read {
        None => r matches Err(AcceptanceError::PusError(_)) && trace.len() == 0 && after == before,
        Some(tc) => handled_tc::<S::CommandT>(apid, service, tc, r, trace) && served_tc::<S>(
            before,
            after,
            apid,
            service,
            tc,
            r,
            trace,
        ),
    }
}

/// Whether `after`, `results` and `trace` are what follows when each of the
/// services `before`, in their order, is handed what was read: every service keeps
/// its number, there is one result for each service, and the telemetry of each
/// service comes after that of the services before it.
pub open spec fn dispatched<S: PusService>(
    apid: u16,
    before: Seq<(u8, S)>,
    after: Seq<(u8, S)>,
    read: Option<PusTcView>,
    results: Seq<AcceptanceResult>,
    trace: Seq<TmContent>,
) -> bool
    decreases before.len(),
{
    if before.len() == 0 {
        after.len() == 0 && results.len() == 0 && trace.len() == 0
    } else {
        &&& after.len() == before.len()
        &&& results.len() == before.len()
        &&& after.last().0 == before.last().0
        &&& exists|k: int|
            {
                &&& 0 <= k <= trace.len()
                &&& dispatched::<S>(
                    apid,
                    before.drop_last(),
                    after.drop_last(),
                    read,
                    results.drop_last(),
                    trace.take(k),
                )
                &&& answered::<S>(
                    before.last().1,
                    after.last().1,
                    apid,
                    before.last().0,
                    read,
                    results.last(),
                    #[trigger] trace.skip(k),
                )
            }
    }
}

/// One more service, handed what was read after the others, adds its result and
/// its telemetry at the end.
proof fn lemma_dispatched_next<S: PusService>(
    apid: u16,
    before: Seq<(u8, S)>,
    after: Seq<(u8, S)>,
    read: Option<PusTcView>,
    results: Seq<AcceptanceResult>,
    trace: Seq<TmContent>,
    k: int,
)
    requires
        before.len() > 0,
        after.len() == before.len(),
        results.len() == before.len(),
        after.last().0 == before.last().0,
        0 <= k <= trace.len(),
        dispatched::<S>(
            apid,
            before.drop_last(),
            after.drop_last(),
            read,
            results.drop_last(),
            trace.take(k),
        ),
        answered::<S>(
            before.last().1,
            after.last().1,
            apid,
            before.last().0,
            read,
            results.last(),
            trace.skip(k),
        ),
    ensures
        dispatched::<S>(apid, before, after, read, results, trace),
{
}

/// With one service registered, what is dispatched is what that service answers.
pub proof fn lemma_dispatched_single<S: PusService>(
    apid: u16,
    before: Seq<(u8, S)>,
    after: Seq<(u8, S)>,
    read: Option<PusTcView>,
    results: Seq<AcceptanceResult>,
    trace: Seq<TmContent>,
)
    requires
        before.len() == 1,
        dispatched::<S>(apid, before, after, read, results, trace),
    ensures
        after.len() == 1,
        results.len() == 1,
        after[0].0 == before[0].0,
        answered::<S>(before[0].1, after[0].1, apid, before[0].0, read, results[0], trace),
{
    let k = choose|k: int|
        {
            &&& 0 <= k <= trace.len()
            &&& dispatched::<S>(
                apid,
                before.drop_last(),
                after.drop_last(),
                read,
                results.drop_last(),
                trace.take(k),
            )
            &&& answered::<S>(
                before.last().1,
                after.last().1,
                apid,
                before.last().0,
                read,
                results.last(),
                #[trigger] trace.skip(k),
            )
        };
    assert(before.drop_last().len() == 0);
    assert(trace.take(k).len() == k);
    assert(trace.skip(0) =~= trace);
}

/// Whether `replies` is the telemetry that answers one telecommand of the
/// application `apid`, queued for `tx`: the queue is in order, every packet in it
/// is one of the application, and the message counter went on from `counter` by
/// one for each packet.
pub open spec fn replies_for(replies: &RccnEcssTmSender, apid: u16, tx: Sender, counter: u16) -> bool {
    &&& replies.wf()
    &&& replies.channel == tx
    &&& replies.msg_counter == counter_after(counter, replies.sent@.len())
    &&& replies.sent@.len() > 0 ==> replies.sent@[0].msg_counter == counter
    &&& forall|i: int| 0 <= i < replies.sent@.len() ==> (#[trigger] replies.sent@[i]).apid == apid
}

impl<S: PusService> PusApp<S> {
    /// The application identifier.
    pub closed spec fn apid(&self) -> u16 {
        self.apid
    }

    /// The message counter of the next telemetry packet.
    pub closed spec fn msg_counter(&self) -> u16 {
        self.msg_counter
    }

    /// The registered services, each with its number, in the order of
    /// registration.
    pub closed spec fn services(&self) -> Seq<(u8, S)> {
        self.handlers@
    }

    /// What the transport manager holds.
    pub closed spec fn transports(&self) -> ManagerView {
        self.transport_manager@
    }

    /// The identifier fits its field, and no service has the number of the
    /// verification service.
    pub closed spec fn wf(&self) -> bool {
        &&& self.apid <= MAX_APID
        &&& forall|i: int|
            0 <= i < self.handlers@.len() ==> (#[trigger] self.handlers@[i]).0
                != VERIFICATION_SERVICE
    }

    /// An application without services and virtual channels, whose topic-based
    /// adapter runs a node of the given name.
    pub fn new(apid: u16, ros2_node_prefix: &str) -> (app: Self)
        requires
            apid <= MAX_APID,
        ensures
            app.wf(),
            app.apid() == apid,
            app.msg_counter() == 0,
            app.services() == Seq::<(u8, S)>::empty(),
            app.transports() == empty_manager(ros2_node_prefix@, None),
    {
        let transport_manager = match TransportManager::new(ros2_node_prefix) {
            Ok(manager) => manager,
            Err(_) => vstd::pervasive::unreached(),
        };
        let app = PusApp { transport_manager, handlers: Vec::new(), apid, msg_counter: 0 };
        assert(app.services() =~= Seq::<(u8, S)>::empty());
        app
    }

    /// Registers a service under its number. Services are handed telecommands in
    /// the order of their registration.
    pub fn register_service(&mut self, service_id: u8, service: S)
        requires
            old(self).wf(),
            service_id != VERIFICATION_SERVICE,
        ensures
            final(self).wf(),
            final(self).apid() == old(self).apid(),
            final(self).msg_counter() == old(self).msg_counter(),
            final(self).transports() == old(self).transports(),
            final(self).services() == old(self).services().push((service_id, service)),
    {
        let ghost before = self.handlers@;
        self.handlers.push((service_id, service));
        proof {
            assert forall|i: int| 0 <= i < self.handlers@.len() implies (
            #[trigger] self.handlers@[i]).0 != VERIFICATION_SERVICE by {
                if i < before.len() {
                    assert(self.handlers@[i] == before[i]);
                }
            }
        }
    }

    /// Adds a virtual channel to the transport manager, as
    /// [`TransportManager::add_virtual_channel`] does.
    pub fn add_virtual_channel<F: Fn(&str) -> bool>(
        &mut self,
        vc: &VirtualChannel,
        is_socket_addr: F,
    ) -> (r: Result<(), TransportManagerError>)
        requires
            old(self).wf(),
            old(self).transports().channels + 2 <= usize::MAX,
            forall|text: &str| is_socket_addr.requires((text,)),
        ensures
            final(self).wf(),
            final(self).apid() == old(self).apid(),
            final(self).msg_counter() == old(self).msg_counter(),
            final(self).services() == old(self).services(),
            channel_added(old(self).transports(), final(self).transports(), vc, is_socket_addr, r),
    {
        self.transport_manager.add_virtual_channel(vc, is_socket_addr)
    }

    /// The transport manager.
    pub fn transport_manager(&self) -> (manager: &TransportManager)
        ensures
            manager@ == self.transports(),
    {
        &self.transport_manager
    }

    /// Handles a telecommand that arrived on the virtual channel `vc`: the
    /// telemetry that answers it is queued for the writing end of the same virtual
    /// channel, in the order in which the services wrote it. Nothing is done where
    /// the virtual channel has no outgoing binding.
    pub fn handle_vc_data(&mut self, vc: VcId, data: &[u8]) -> (out: Option<
        (Vec<AcceptanceResult>, RccnEcssTmSender),
    >)
        requires
            old(self).wf(),
        ensures
            final(self).wf(),
            final(self).apid() == old(self).apid(),
            final(self).transports() == old(self).transports(),
            out.is_some() <==> old(self).transports().tx_map.contains_key(vc),
            out.is_none() ==> final(self).msg_counter() == old(self).msg_counter()
                && final(self).services() == old(self).services(),
            out matches Some(replies) ==> {
                &&& replies_for(
                    &replies.1,
                    old(self).apid(),
                    old(self).transports().tx_map[vc],
                    old(self).msg_counter(),
                )
                &&& final(self).msg_counter() == replies.1.msg_counter
                &&& dispatched::<S>(
                    old(self).apid(),
                    old(self).services(),
                    final(self).services(),
                    pus_tc_read(data@),
                    replies.0@,
                    replies.1.log(),
                )
            },
    {
        broadcast use vstd::std_specs::hash::group_hash_axioms;

        let tx = match self.transport_manager.tx_map().get(&vc) {
            Some(sender) => *sender,
            None => {
                return None;
            },
        };
        Some(self.handle_tc(data, tx))
    }

    /// Hands the bytes that arrived on a virtual channel to every service in turn,
    /// each with a reply context of its own number, and returns the result of each
    /// service together with the telemetry to send on `tx`, the writing end of that
    /// virtual channel, in the order in which the services wrote it.
    ///
    /// The message counter goes on from one telecommand to the next.
    pub fn handle_tc(&mut self, data: &[u8], tx: Sender) -> (out: (
        Vec<AcceptanceResult>,
        RccnEcssTmSender,
    ))
        requires
            old(self).wf(),
        ensures
            final(self).wf(),
            final(self).apid() == old(self).apid(),
            final(self).transports() == old(self).transports(),
            replies_for(&out.1, old(self).apid(), tx, old(self).msg_counter()),
            final(self).msg_counter() == out.1.msg_counter,
            dispatched::<S>(
                old(self).apid(),
                old(self).services(),
                final(self).services(),
                pus_tc_read(data@),
                out.0@,
                out.1.log(),
            ),
    {
        self.dispatch(TcInput::Bytes(data), tx)
    }

    /// Hands a telecommand that was read to every service in turn, as
    /// [`PusApp::handle_tc`] does with the bytes of one.
    pub fn handle_pus_tc(&mut self, pus_tc: &PusTc, tx: Sender) -> (out: (
        Vec<AcceptanceResult>,
        RccnEcssTmSender,
    ))
        requires
            old(self).wf(),
        ensures
            final(self).wf(),
            final(self).apid() == old(self).apid(),
            final(self).transports() == old(self).transports(),
            replies_for(&out.1, old(self).apid(), tx, old(self).msg_counter()),
            final(self).msg_counter() == out.1.msg_counter,
            dispatched::<S>(
                old(self).apid(),
                old(self).services(),
                final(self).services(),
                Some(pus_tc@),
                out.0@,
                out.1.log(),
            ),
    {
        self.dispatch(TcInput::Read(pus_tc), tx)
    }

    /// Hands the input to every service in turn.
    fn dispatch(&mut self, input: TcInput, tx: Sender) -> (out: (
        Vec<AcceptanceResult>,
        RccnEcssTmSender,
    ))
        requires
            old(self).wf(),
        ensures
            final(self).wf(),
            final(self).apid() == old(self).apid(),
            final(self).transports() == old(self).transports(),
            replies_for(&out.1, old(self).apid(), tx, old(self).msg_counter()),
            final(self).msg_counter() == out.1.msg_counter,
            dispatched::<S>(
                old(self).apid(),
                old(self).services(),
                final(self).services(),
                input.read(),
                out.0@,
                out.1.log(),
            ),
    {
        let mut results: Vec<AcceptanceResult> = Vec::new();
        let mut sender = RccnEcssTmSender::new(tx, self.msg_counter);
        let ghost start = self.handlers@;
        let ghost first = self.msg_counter;
        let mut i: usize = 0;
        proof {
            assert(start.take(0) =~= Seq::<(u8, S)>::empty());
            assert(sender.log() =~= Seq::<TmContent>::empty());
        }
        while i < self.handlers.len()
            invariant
                i <= self.handlers@.len(),
                self.apid <= MAX_APID,
                self.apid == old(self).apid,
                self.msg_counter == old(self).msg_counter,
                self.transport_manager == old(self).transport_manager,
                first == old(self).msg_counter,
                start == old(self).handlers@,
                self.handlers@.len() == start.len(),
                forall|k: int| 0 <= k < start.len() ==> (#[trigger] self.handlers@[k]).0 == start[k].0,
                forall|k: int| i <= k < start.len() ==> #[trigger] self.handlers@[k] == start[k],
                forall|k: int| 0 <= k < start.len() ==> (#[trigger] start[k]).0 != VERIFICATION_SERVICE,
                replies_for(&sender, self.apid, tx, first),
                results@.len() == i,
                dispatched::<S>(
                    self.apid,
                    start.take(i as int),
                    self.handlers@.take(i as int),
                    input.read(),
                    results@,
                    sender.log(),
                ),
            decreases self.handlers@.len() - i,
        {
            let ghost before_handlers = self.handlers@;
            let ghost before_log = sender.log();
            let ghost before_results = results@;
            let ghost before_sent = sender.sent@;
            let service_id = self.handlers[i].0;
            proof {
                assert(self.handlers@[i as int] == start[i as int]);
                assert(start[i as int].0 != VERIFICATION_SERVICE);
            }
            let mut base = PusServiceBase {
                apid: self.apid,
                service: service_id,
                component_id: 0,
                timestamp_helper: TimestampHelper::new(),
                tm_sender: sender,
            };
            let ghost lent = base;
            let r = match input {
                TcInput::Bytes(bytes) => self.handlers[i].1.handle_tc_bytes(&mut base, bytes),
                TcInput::Read(tc) => self.handlers[i].1.handle_pus_tc(&mut base, tc),
            };
            proof {
                assert(base.extends(&lent));
                let grown = (base.tm_sender.sent@.len() - before_sent.len()) as nat;
                lemma_counter_after_add(first, before_sent.len(), grown);
                if base.tm_sender.sent@.len() > 0 {
                    if before_sent.len() > 0 {
                        assert(base.tm_sender.sent@[0] == base.tm_sender.sent@.take(
                            before_sent.len() as int,
                        )[0]);
                    } else {
                        assert(counter_after(
                            base.tm_sender.sent@[0].msg_counter,
                            base.tm_sender.sent@.len(),
                        ) == base.tm_sender.msg_counter);
                        lemma_counter_after_add(first, 0, grown);
                        lemma_counter_after_injective(
                            base.tm_sender.sent@[0].msg_counter,
                            first,
                            base.tm_sender.sent@.len(),
                        );
                    }
                }
            }
            sender = base.tm_sender;
            results.push(r);
            proof {
                let after = self.handlers@;
                assert(after.len() == before_handlers.len());
                assert forall|k: int| 0 <= k < after.len() && k != i implies #[trigger] after[k]
                    == before_handlers[k] by {
                }
                assert(after[i as int].0 == before_handlers[i as int].0);
                let log = sender.log();
                let served_before = start.take(i + 1);
                let served_after = after.take(i + 1);
                assert(served_before.drop_last() =~= start.take(i as int));
                assert(served_after.drop_last() =~= before_handlers.take(i as int));
                assert(served_before.last() == start[i as int]);
                assert(served_after.last() == after[i as int]);
                assert(results@.drop_last() =~= before_results);
                assert(results@.last() == r);
                assert(log.take(before_log.len() as int) == before_log);
                lemma_dispatched_next::<S>(
                    self.apid,
                    served_before,
                    served_after,
                    input.read(),
                    results@,
                    log,
                    before_log.len() as int,
                );
            }
            i = i + 1;
        }
        proof {
            assert(start.take(start.len() as int) =~= start);
            assert(self.handlers@.take(start.len() as int) =~= self.handlers@);
        }
        self.msg_counter = sender.msg_counter;
        (results, sender)
    }
}

} // verus!
