//! Virtual channel identifiers, the ends of byte channels, and the sender that
//! stamps and queues outgoing telemetry.

use crate::packets::{
    pus_tm_bytes,
    write_pus_tm,
    TmContent,
    TmPacket,
    MAX_APID,
    MAX_TM_PAYLOAD,
    SEQUENCE_COUNT,
    TM_DESTINATION,
};
use std::collections::HashMap;
use vstd::prelude::*;

verus! {

/// Identifies a virtual channel.
pub type VcId = u8;

/// The number of byte buffers that a byte channel holds before its producer has to
/// wait.
pub const CHANNEL_CAPACITY: usize = 32;

/// The producing end of a byte channel, named by the channel's number.
#[derive(Debug, Clone, Copy, PartialEq, Eq, Structural)]
pub struct Sender {
    pub channel: usize,
}

/// The consuming end of a byte channel, named by the channel's number.
#[derive(Debug, Clone, Copy, PartialEq, Eq, Structural)]
pub struct Receiver {
    pub channel: usize,
}

/// For each virtual channel with an outgoing binding, the end that the upper layer
/// writes to.
pub type VirtualChannelTxMap = HashMap<VcId, Sender>;

/// For each virtual channel with an incoming binding, the end that the upper layer
/// reads from.
pub type VirtualChannelRxMap = HashMap<VcId, Receiver>;

/// Why telemetry could not be sent.
#[derive(Debug, Clone, Copy, PartialEq, Eq, Structural)]
pub enum EcssTmtcError {
    /// The packet could not be serialised.
    CantSendDirectTm,
}

/// The message counter that follows `counter`: one more, and zero after the largest.
pub open spec fn next_counter(counter: u16) -> u16 {
    if counter == 0xFFFF {
        0
    } else {
        (counter + 1) as u16
    }
}

/// The message counter reached from `counter` after `n` packets.
pub open spec fn counter_after(counter: u16, n: nat) -> u16 {
    ((counter + n) % 0x1_0000) as u16
}

/// Stamps outgoing telemetry with the message counter and queues it for one byte
/// channel, oldest packet first.
pub struct RccnEcssTmSender {
    pub channel: Sender,
    pub msg_counter: u16,
    pub sent: Vec<TmPacket>,
}

/// What the packets of a queue report, in the queue's order.
pub open spec fn contents(packets: Seq<TmPacket>) -> Seq<TmContent> {
    packets.map_values(|p: TmPacket| p.content())
}

impl RccnEcssTmSender {
    /// Every queued packet holds the bytes of its fields, and the message counters
    /// of the queue count up by one, modulo 65536, to the counter of the next packet.
    pub open spec fn wf(&self) -> bool {
        &&& forall|i: int| 0 <= i < self.sent@.len() ==> (#[trigger] self.sent@[i]).wf()
        &&& forall|i: int|
            0 <= i < self.sent@.len() ==> counter_after(
                (#[trigger] self.sent@[i]).msg_counter,
                (self.sent@.len() - i) as nat,
            ) == self.msg_counter
    }

    /// What the queued packets report, oldest first.
    pub open spec fn log(&self) -> Seq<TmContent> {
        contents(self.sent@)
    }

    /// A sender for `channel` with an empty queue, whose next packet has the counter
    /// `msg_counter`.
    pub fn new(channel: Sender, msg_counter: u16) -> (sender: Self)
        ensures
            sender.wf(),
            sender.channel == channel,
            sender.msg_counter == msg_counter,
            sender.sent@.len() == 0,
    {
        RccnEcssTmSender { channel, msg_counter, sent: Vec::new() }
    }

    /// Queues a packet that was built with the sender's counter, and counts on.
    pub(crate) fn enqueue(
        &mut self,
        apid: u16,
        service: u8,
        subservice: u8,
        stamp: &[u8],
        source_data: &[u8],
        bytes: Vec<u8>,
    )
        requires
            old(self).wf(),
            bytes@ == pus_tm_bytes(
                apid,
                SEQUENCE_COUNT,
                service,
                subservice,
                old(self).msg_counter,
                TM_DESTINATION,
                stamp@,
                source_data@,
            ),
        ensures
            final(self).wf(),
            final(self).channel == old(self).channel,
            final(self).msg_counter == next_counter(old(self).msg_counter),
            final(self).sent@.len() == old(self).sent@.len() + 1,
            final(self).sent@.drop_last() == old(self).sent@,
            final(self).sent@.last().is_packet(
                apid,
                service,
                subservice,
                old(self).msg_counter,
                stamp@,
                source_data@,
            ),
            final(self).log() == old(self).log().push(
                TmContent { service, subservice, source_data: source_data@ },
            ),
    {
        let packet = TmPacket {
            apid,
            service,
            subservice,
            msg_counter: self.msg_counter,
            timestamp: copy_bytes(stamp),
            source_data: copy_bytes(source_data),
            bytes,
        };
        let ghost before = self.sent@;
        let ghost counter = self.msg_counter;
        self.sent.push(packet);
        self.msg_counter = if self.msg_counter == 0xFFFF {
            0
        } else {
            self.msg_counter + 1
        };
        proof {
            let after = self.sent@;
            assert(after.drop_last() =~= before);
            assert forall|i: int| 0 <= i < after.len() implies counter_after(
                (#[trigger] after[i]).msg_counter,
                (after.len() - i) as nat,
            ) == self.msg_counter by {
                if i < before.len() {
                    assert(after[i] == before[i]);
                    assert(counter_after(before[i].msg_counter, (before.len() - i) as nat)
                        == counter);
                }
            }
            assert forall|i: int| 0 <= i < after.len() implies (#[trigger] after[i]).wf() by {
                if i < before.len() {
                    assert(after[i] == before[i]);
                }
            }
            assert(contents(after) =~= contents(before).push(
                TmContent { service, subservice, source_data: source_data@ },
            ));
        }
    }

    /// Builds a telemetry packet of the given application, service and subservice
    /// with the given time stamp and source data, stamps it with the message
    /// counter and queues it at the end.
    ///
    /// The packet cannot be built where time stamp and source data are too long for
    /// one packet; then nothing is queued and the counter stays.
    pub fn send_tm(
        &mut self,
        apid: u16,
        service: u8,
        subservice: u8,
        stamp: &[u8],
        source_data: &[u8],
    ) -> (r: Result<(), EcssTmtcError>)
        requires
            old(self).wf(),
            apid <= MAX_APID,
        ensures
            final(self).wf(),
            final(self).channel == old(self).channel,
            r.is_ok() <==> stamp@.len() + source_data@.len() <= MAX_TM_PAYLOAD,
            r.is_ok() ==> {
                &&& final(self).msg_counter == next_counter(old(self).msg_counter)
                &&& final(self).sent@.len() == old(self).sent@.len() + 1
                &&& final(self).sent@.drop_last() == old(self).sent@
                &&& final(self).sent@.last().is_packet(
                    apid,
                    service,
                    subservice,
                    old(self).msg_counter,
                    stamp@,
                    source_data@,
                )
                &&& final(self).log() == old(self).log().push(
                    TmContent { service, subservice, source_data: source_data@ },
                )
            },
            r.is_err() ==> final(self).msg_counter == old(self).msg_counter && final(self).sent@
                == old(self).sent@,
    {
        if stamp.len() > MAX_TM_PAYLOAD || source_data.len() > MAX_TM_PAYLOAD - stamp.len() {
            return Err(EcssTmtcError::CantSendDirectTm);
        }
        let bytes = write_pus_tm(
            apid,
            SEQUENCE_COUNT,
            service,
            subservice,
            self.msg_counter,
            TM_DESTINATION,
            stamp,
            source_data,
        );
        self.enqueue(apid, service, subservice, stamp, source_data, bytes);
        Ok(())
    }

    /// Hands out the queued packets, oldest first, and leaves the queue empty. The
    /// counter goes on from where it is.
    pub fn take_sent(&mut self) -> (packets: Vec<TmPacket>)
        requires
            old(self).wf(),
        ensures
            final(self).wf(),
            packets@ == old(self).sent@,
            final(self).sent@.len() == 0,
            final(self).msg_counter == old(self).msg_counter,
            final(self).channel == old(self).channel,
    {
        let mut packets: Vec<TmPacket> = Vec::new();
        std::mem::swap(&mut packets, &mut self.sent);
        packets
    }
}

/// A copy of `bytes`.
pub fn copy_bytes(bytes: &[u8]) -> (copy: Vec<u8>)
    ensures
        copy@ == bytes@,
{
    let mut copy: Vec<u8> = Vec::new();
    let mut i: usize = 0;
    while i < bytes.len()
        invariant
            i <= bytes.len(),
            copy@ =~= bytes@.take(i as int),
        decreases bytes.len() - i,
    {
        copy.push(bytes[i]);
        i = i + 1;
    }
    proof {
        assert(bytes@.take(bytes@.len() as int) =~= bytes@);
    }
    copy
}

/// Counting on by `a` packets and then by `b` is counting on by `a + b`.
pub proof fn lemma_counter_after_add(counter: u16, a: nat, b: nat)
    ensures
        counter_after(counter_after(counter, a), b) == counter_after(counter, a + b),
        counter_after(counter, 0) == counter,
        counter_after(counter, 1) == next_counter(counter),
{
    let c = counter as int;
    assert(((c + a) % 0x1_0000 + b) % 0x1_0000 == (c + a + b) % 0x1_0000) by (nonlinear_arith)
        requires
            0 <= c,
            0 <= a,
            0 <= b,
    ;
}

/// Counters that agree after as many packets are the same.
pub proof fn lemma_counter_after_injective(c1: u16, c2: u16, n: nat)
    requires
        counter_after(c1, n) == counter_after(c2, n),
    ensures
        c1 == c2,
{
    let a = c1 as int;
    let b = c2 as int;
    assert(a == b) by (nonlinear_arith)
        requires
            (a + n) % 0x1_0000 == (b + n) % 0x1_0000,
            0 <= a < 0x1_0000,
            0 <= b < 0x1_0000,
            0 <= n,
    ;
}

/// The counters of a queue count up by one per packet: the packet at place `k`
/// carries the counter of the first packet plus `k`, modulo 65536.
pub proof fn lemma_counters_count_up(sender: RccnEcssTmSender, k: int)
    requires
        sender.wf(),
        0 <= k < sender.sent@.len(),
    ensures
        sender.sent@[k].msg_counter == counter_after(sender.sent@[0].msg_counter, k as nat),
        k + 1 < sender.sent@.len() ==> sender.sent@[k + 1].msg_counter == next_counter(
            sender.sent@[k].msg_counter,
        ),
{
    let n = sender.sent@.len() as int;
    let c0 = sender.sent@[0].msg_counter as int;
    let ck = sender.sent@[k].msg_counter as int;
    let m = sender.msg_counter as int;
    assert(counter_after(sender.sent@[0].msg_counter, n as nat) == sender.msg_counter);
    assert(counter_after(sender.sent@[k].msg_counter, (n - k) as nat) == sender.msg_counter);
    assert((c0 + n) % 0x1_0000 == m);
    assert((ck + (n - k)) % 0x1_0000 == m);
    assert(ck == (c0 + k) % 0x1_0000) by (nonlinear_arith)
        requires
            (c0 + n) % 0x1_0000 == (ck + (n - k)) % 0x1_0000,
            0 <= ck < 0x1_0000,
            0 <= c0 < 0x1_0000,
            0 <= k < n,
    ;
    if k + 1 < n {
        let cn = sender.sent@[k + 1].msg_counter as int;
        assert(counter_after(sender.sent@[k + 1].msg_counter, (n - k - 1) as nat)
            == sender.msg_counter);
        assert((cn + (n - k - 1)) % 0x1_0000 == m);
        assert(cn == (ck + 1) % 0x1_0000) by (nonlinear_arith)
            requires
                (cn + (n - k - 1)) % 0x1_0000 == (ck + (n - k)) % 0x1_0000,
                0 <= ck < 0x1_0000,
                0 <= cn < 0x1_0000,
                0 <= k < n,
        ;
    }
}

} // verus!
